use dev_launcher::pump::{
    extract_vite_url, format_log_prefix, pump_line, starting_log, stopping_log, stream_log_event,
    spawn_failed_log, system_log_event, url_detected_log,
};

#[test]
fn vite_url_is_detected() {
    let r = extract_vite_url("Local:   http://localhost:5173/");
    assert_eq!(r.as_deref(), Some("http://localhost:5173/"));
}

#[test]
fn line_without_label_yields_no_url() {
    assert_eq!(extract_vite_url("ready in 321 ms"), None);
    assert_eq!(extract_vite_url("see http://localhost:5173/ for details"), None);
}

#[test]
fn lowercase_label_is_detected() {
    let r = extract_vite_url("  local: https://127.0.0.1:8443/app");
    assert_eq!(r.as_deref(), Some("https://127.0.0.1:8443/app"));
}

#[test]
fn label_without_whitespace_yields_no_url() {
    assert_eq!(extract_vite_url("Local:http://localhost:5173/"), None);
}

#[test]
fn scheme_without_rest_yields_no_url() {
    assert_eq!(extract_vite_url("Local: http://"), None);
    assert_eq!(extract_vite_url("Local: gopher://x"), None);
}

#[test]
fn url_token_ends_at_whitespace() {
    let r = extract_vite_url("Local: http://localhost:5173/ ready");
    assert_eq!(r.as_deref(), Some("http://localhost:5173/"));
}

#[test]
fn first_full_announcement_wins() {
    let r = extract_vite_url("local: nope local: http://a.example/ local: http://b.example/");
    assert_eq!(r.as_deref(), Some("http://a.example/"));
}

#[test]
fn pump_line_emits_one_url_and_one_log() {
    let out = pump_line("Frontend", "Local:   http://localhost:5173/", false, true, "proj");
    assert_eq!(out.url.as_deref(), Some("http://localhost:5173/"));
    assert_eq!(out.log.source, "frontend");
    assert_eq!(out.log.level, "normal");
    assert_eq!(
        out.log.text,
        "\x1b[38;5;75m[FRONTEND]\x1b[0m Local:   http://localhost:5173/"
    );
    assert_eq!(out.log.project_id, "proj");
}

#[test]
fn pump_line_with_detection_off_emits_no_url() {
    let out = pump_line("Frontend", "Local:   http://localhost:5173/", false, false, "proj");
    assert!(out.url.is_none());
}

#[test]
fn error_stream_lines_are_marked_error() {
    let e = stream_log_event("Backend", "boom", true, "proj");
    assert_eq!(e.source, "backend");
    assert_eq!(e.level, "error");
    assert_eq!(e.text, "\x1b[38;5;196m[BACKEND ERROR]\x1b[0m boom");
}

#[test]
fn system_prefix_is_orange() {
    assert_eq!(format_log_prefix("system", false), "\x1b[38;5;214m[SYSTEM]\x1b[0m ");
    assert_eq!(format_log_prefix("System", false), "\x1b[38;5;214m[SYSTEM]\x1b[0m ");
}

#[test]
fn error_prefix_is_red() {
    assert_eq!(format_log_prefix("frontend", true), "\x1b[38;5;196m[FRONTEND ERROR]\x1b[0m ");
}

#[test]
fn service_prefix_is_blue() {
    assert_eq!(format_log_prefix("frontend", false), "\x1b[38;5;75m[FRONTEND]\x1b[0m ");
}

#[test]
fn system_log_carries_prefix_and_body() {
    let e = system_log_event("hello", false, "proj");
    assert_eq!(e.source, "system");
    assert_eq!(e.level, "normal");
    assert_eq!(e.text, "\x1b[38;5;214m[SYSTEM]\x1b[0m hello");
    assert_eq!(e.project_id, "proj");
}

#[test]
fn lifecycle_messages_read_as_expected() {
    let e = starting_log("Frontend", "proj");
    assert_eq!(e.text, "\x1b[38;5;214m[SYSTEM]\x1b[0m Starting Frontend...");
    let e = stopping_log("Frontend", "proj");
    assert_eq!(e.text, "\x1b[38;5;214m[SYSTEM]\x1b[0m Stopping Frontend...");
    let e = spawn_failed_log("Frontend", "No such file or directory", "proj");
    assert_eq!(e.level, "error");
    assert_eq!(
        e.text,
        "\x1b[38;5;196m[SYSTEM ERROR]\x1b[0m Failed to start Frontend: No such file or directory"
    );
    let e = url_detected_log("Frontend", "http://localhost:5173/", "proj");
    assert_eq!(
        e.text,
        "\x1b[38;5;214m[SYSTEM]\x1b[0m Frontend URL detected: http://localhost:5173/"
    );
}
