use collab::json::{object_2, parse_json, text_entry, Json};
use collab::operations::DashboardActionError;
use collab::queue::QueueError;
use collab::replies::{
    attachment_inactive, attachment_not_found, command_error_status, command_failure,
    dashboard_action_error, feedback_error, read_reconcile, unauthorized, CommandFailure,
};
use collab::serving::{
    authorized, check_host, constant_time_eq, decode_uri_path, project_resource_path,
    refuse_static_target, resolve_project_resource, sort_request, validated_project_relative_path,
    ResourceError, StaticRequest, StaticTarget,
};
use collab::webview::CommandError;

#[test]
fn constant_time_token_comparison_accepts_identical_tokens() {
    assert!(constant_time_eq(
        b"Bearer control-token",
        b"Bearer control-token"
    ));
}

#[test]
fn constant_time_token_comparison_rejects_different_lengths() {
    assert!(!constant_time_eq(
        b"Bearer control-token-extra",
        b"Bearer control-token"
    ));
}

#[test]
fn constant_time_token_comparison_rejects_last_byte_difference() {
    assert!(!constant_time_eq(
        b"Bearer control-tokem",
        b"Bearer control-token"
    ));
}

#[test]
fn unauthorized_response_shape_is_stable() {
    let reply = unauthorized();

    assert_eq!(reply.status, 401);
    assert_eq!(
        reply.body,
        object_2(
            text_entry("code", "unauthorized"),
            text_entry("message", "missing or invalid preview control token")
        )
    );
}

#[test]
fn only_the_bearer_token_authorizes() {
    assert!(authorized(Some("Bearer secret"), "secret"));
    assert!(!authorized(Some("secret"), "secret"));
    assert!(!authorized(Some("Bearer other"), "secret"));
    assert!(!authorized(None, "secret"));
}

#[test]
fn only_the_own_host_is_served() {
    assert!(check_host(Some("127.0.0.1:4000"), 4000).is_ok());
    assert!(check_host(Some("localhost:4000"), 4000).is_ok());
    assert_eq!(check_host(Some("evil.example:4000"), 4000).unwrap_err().status, 403);
    assert_eq!(check_host(Some("127.0.0.1:4001"), 4000).unwrap_err().status, 403);
    assert_eq!(check_host(None, 4000).unwrap_err().status, 403);
}

#[test]
fn paths_are_decoded_once() {
    assert_eq!(decode_uri_path("/a%20b").unwrap(), "/a b");
    assert_eq!(decode_uri_path("/%E5%8F%B0").unwrap(), "/台");
    assert_eq!(decode_uri_path("/%252e").unwrap(), "/%2e");
    assert!(decode_uri_path("/%zz").is_err());
    assert!(decode_uri_path("/%e").is_err());
    assert!(decode_uri_path("/%ff").is_err());
}

#[test]
fn paths_stay_inside_the_project() {
    assert_eq!(
        validated_project_relative_path("/pages/index.html").unwrap(),
        "pages/index.html"
    );
    assert_eq!(validated_project_relative_path("//x").unwrap(), "x");
    for path in [
        "/../outside.html",
        "/%2e%2e/outside.html",
        "/.collab/session.json",
        "/.COLLAB/session.json",
        "/a/../../b",
    ] {
        assert!(validated_project_relative_path(path).is_err(), "{path}");
    }
}

#[test]
fn control_requests_are_not_looked_up_as_files() {
    assert!(matches!(sort_request("/__collab__/health"), StaticRequest::Control));
    assert!(matches!(sort_request("/__collab__"), StaticRequest::Control));
    assert!(
        matches!(sort_request("/__collab__x"), StaticRequest::File(path) if path == "__collab__x")
    );
    assert!(
        matches!(sort_request("/.collab/x"), StaticRequest::Refused(reply) if reply.status == 400)
    );
}

#[test]
fn links_out_of_the_project_are_refused() {
    let inside = StaticTarget::Resolved("/p/a.html".into());
    let outside = StaticTarget::Resolved("/projects/a.html".into());
    assert!(refuse_static_target(&inside, "/p").is_none());
    assert!(refuse_static_target(&StaticTarget::Missing, "/p").is_none());
    assert_eq!(refuse_static_target(&outside, "/p").unwrap().status, 403);
    assert_eq!(
        refuse_static_target(&StaticTarget::Unresolvable, "/p").unwrap().status,
        403
    );
}

#[test]
fn project_resources_are_existing_files_of_the_project() {
    assert_eq!(
        project_resource_path("/p", "/pages/index.html").unwrap(),
        "/p/pages/index.html"
    );
    assert_eq!(
        resolve_project_resource("/p", "/pages/index.html", Ok("/p/pages/index.html".into()))
            .unwrap(),
        "/p/pages/index.html"
    );
    for path in ["/../outside.html", "/%2e%2e/outside.html", "/.collab/session.json"] {
        assert!(matches!(
            resolve_project_resource("/p", path, Ok("/p/x".into())),
            Err(ResourceError::Denied(_))
        ));
    }
    assert_eq!(
        resolve_project_resource("/p", "/missing.html", Err("No such file".into())),
        Err(ResourceError::Unavailable("No such file".into()))
    );
    assert_eq!(
        resolve_project_resource("/p", "/link.html", Ok("/etc/passwd".into())),
        Err(ResourceError::Denied("static path escapes the project root"))
    );
}

#[test]
fn refusals_carry_their_codes() {
    let code = |body: &Json| body.text_field("code").unwrap().clone();

    let inactive = attachment_inactive("a1");
    assert_eq!((inactive.status, code(&inactive.body).as_str()), (409, "attachment-inactive"));
    assert_eq!(
        inactive.body.text_field("message").unwrap(),
        "attachment a1 is no longer active"
    );
    let missing = attachment_not_found("a1");
    assert_eq!((missing.status, code(&missing.body).as_str()), (404, "attachment-not-found"));

    for (problem, status) in [
        (QueueError::NotFound("fb-1-a".into()), 404),
        (
            QueueError::CompareMismatch {
                expected: "pending".into(),
                actual: "working".into(),
            },
            409,
        ),
        (QueueError::MissingFailureReason, 422),
    ] {
        assert_eq!(feedback_error(&problem).status, status, "{problem:?}");
    }

    assert_eq!(command_error_status(&CommandError::JavascriptError("x".into())), 422);
    assert_eq!(command_error_status(&CommandError::Internal("x".into())), 500);
    let busy = command_failure(&CommandFailure::QueueFull);
    assert_eq!((busy.status, code(&busy.body).as_str()), (503, "busy"));
}

#[test]
fn webview_completion_wait_returns_timeout_error() {
    let reply = command_failure(&CommandFailure::TimedOut);

    assert_eq!(reply.status, 504);
    assert_eq!(reply.body.text_field("code").unwrap(), "timeout");
}

#[test]
fn dashboard_errors_follow_the_codes() {
    let body = |code: &str| object_2(text_entry("code", code), text_entry("message", "m"));
    assert_eq!(dashboard_action_error(&body("busy")), DashboardActionError::Busy);
    assert_eq!(
        dashboard_action_error(&body("pause-pending")),
        DashboardActionError::AttachmentInactive
    );
    assert_eq!(
        dashboard_action_error(&body("feedback-storage-error")),
        DashboardActionError::Storage("m".into())
    );
    assert_eq!(
        dashboard_action_error(&body("other")),
        DashboardActionError::Internal("m".into())
    );
    assert_eq!(
        dashboard_action_error(&parse_json("{}").unwrap()),
        DashboardActionError::Internal("Dashboard action failed".into())
    );
}

#[test]
fn reconcile_needs_an_identifier_and_a_flag() {
    let read = |content: &str| read_reconcile(&parse_json(content).unwrap());
    let request = read(r#"{"id": "fb-1-ab", "orphaned": true}"#).ok().unwrap();
    assert_eq!(request.id, "fb-1-ab");
    assert!(request.orphaned);
    assert_eq!(read(r#"{"id": "fb-1-ab"}"#).err().unwrap().status, 400);
    assert_eq!(read(r#"{"id": 7, "orphaned": true}"#).err().unwrap().status, 400);
}
