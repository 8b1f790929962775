# collab

Previews of HTML pages on which people and coding agents work together: a person
comments on the page, draws on it or edits a draft, and an attached agent leases
the feedback, works on it and reports what became of it.

`src/` is the library. It holds the rules: how feedback is validated, queued,
leased and recovered; how agents join, pause, resume, leave and are given up on;
what the dashboard shows; how requests are routed, refused and answered; how paths
are kept inside the project; how files are written so that only complete ones
appear. Every function states what it does in its contract, and Verus proves it.
What holds of several functions together stands in public proof functions, most of
them in `queue_laws.rs` and `attachment_laws.rs`.

Operations that need the outside world come as plans: the library says what is to
be done, the application does it, and the library takes the outcome. Times and what
was found on disk are arguments.

`app/` is the program around the library: the command line, the HTTP service, the
files, the window. `tests/` runs the library on concrete values.
