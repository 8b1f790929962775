//! Preview collaboration between a page in a native preview and a coding agent.
pub mod app;
pub mod artifact;
pub mod attachment_laws;
pub mod attachment_results;
pub mod attachment_rules;
pub mod attachments;
pub mod capture;
pub mod client;
pub mod collaboration;
pub mod dashboard;
pub mod draft_panel;
pub mod feedback;
pub mod feedback_rules;
pub mod html_rules;
pub mod html_syntax;
pub mod json;
pub mod listing;
pub mod operations;
pub mod overlay;
pub mod page_rules;
pub mod path_rules;
pub mod paths;
pub mod platform;
pub mod presentation;
pub mod preview;
pub mod queue;
pub mod queue_laws;
pub mod queue_results;
pub mod queue_rules;
pub mod reducer;
pub mod replies;
pub mod reply_results;
pub mod run_results;
pub mod run_rules;
pub mod serving;
pub mod session;
pub mod text;
pub mod text_rules;
pub mod view_results;
pub mod view_rules;
pub mod watcher;
pub mod webview;
