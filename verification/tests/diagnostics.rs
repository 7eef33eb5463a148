use mtui::diagnostics;
use mtui::diagnostics::{clean_label, is_full, safe_message, Level, MAX_BYTES};

#[test]
fn diagnostics_flatten_lines_and_redact_urls() {
    assert_eq!(
        safe_message("request failed\nhttps://example.test/private?id=1"),
        "request failed [url]"
    );
}

#[test]
fn diagnostics_drop_credential_bearing_messages() {
    assert_eq!(
        safe_message("refresh_token=do-not-write-this"),
        "[sensitive details omitted]"
    );
    assert_eq!(
        safe_message("request failed with Authorization=Bearer abc123"),
        "[sensitive details omitted]"
    );
    assert_eq!(
        safe_message("cookie SAPISID=do-not-write-this"),
        "[sensitive details omitted]"
    );
}

#[test]
fn subsystem_labels_cannot_break_the_log_shape() {
    assert_eq!(clean_label("player]\nforged"), "playerforged");
}

#[test]
fn a_line_of_the_log() {
    assert_eq!(
        diagnostics::line(12, Level::Warn, "player", "stream\tstopped"),
        "12 [WARN] [player] stream stopped\n"
    );
    assert_eq!(
        diagnostics::line(0, Level::Error, "a b]", "see file:///x now"),
        "0 [ERROR] [ab] see [url] now\n"
    );
}

#[test]
fn a_full_log_is_replaced() {
    assert!(is_full(MAX_BYTES));
    assert!(!is_full(MAX_BYTES - 1));
}
