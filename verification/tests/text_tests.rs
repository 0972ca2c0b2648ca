use cc_bar::display::{caption_tail, duration_display, session_headline};
use cc_bar::files::{is_session_file_event, session_file_name, session_id_from_file_name};
use cc_bar::model::{model_rank_of, model_type};
use cc_bar::popup::{popup_after_close, toggle_popup, PopupAction};
use cc_bar::text::{first_word_bounds, is_whitespace_char, push_decimal, str_eq};

#[test]
fn model_type_by_first_word() {
    assert_eq!(model_type("Opus 4.6"), "Opus");
    assert_eq!(model_type("Sonnet"), "Sonnet");
    assert_eq!(model_type("\tHaiku 3.5"), "Haiku");
    assert_eq!(model_type("opus"), "Unknown");
    assert_eq!(model_type(""), "Unknown");
    assert_eq!(model_type("   "), "Unknown");
    assert_eq!(model_type("Opus4"), "Unknown");
    assert_eq!(model_type("\u{3000}Sonnet\u{a0}x"), "Sonnet");
}

#[test]
fn model_rank_order() {
    assert_eq!(model_rank_of("Opus"), 0);
    assert_eq!(model_rank_of("Sonnet 4"), 1);
    assert_eq!(model_rank_of("Haiku"), 2);
    assert_eq!(model_rank_of("GPT"), 3);
}

#[test]
fn whitespace_matches_std() {
    for u in 0u32..0x3100 {
        if let Some(c) = char::from_u32(u) {
            assert_eq!(is_whitespace_char(c), c.is_whitespace(), "{:x}", u);
        }
    }
}

#[test]
fn first_word_bounds_examples() {
    assert_eq!(first_word_bounds("  ab cd"), (2, 4));
    assert_eq!(first_word_bounds(""), (0, 0));
    assert_eq!(first_word_bounds("xyz"), (0, 3));
}

#[test]
fn decimal_rendering() {
    let mut s = String::from("n=");
    push_decimal(&mut s, 0);
    push_decimal(&mut s, 1234567890123);
    assert_eq!(s, "n=01234567890123");
    let mut t = String::new();
    push_decimal(&mut t, u64::MAX);
    assert_eq!(t, u64::MAX.to_string());
}

#[test]
fn str_eq_examples() {
    assert!(str_eq("abc", "abc"));
    assert!(!str_eq("abc", "abd"));
    assert!(!str_eq("abc", "ab"));
    assert!(str_eq("", ""));
}

#[test]
fn duration_formats() {
    assert_eq!(duration_display(0), "0s");
    assert_eq!(duration_display(59_999), "59s");
    assert_eq!(duration_display(60_000), "1m0s");
    assert_eq!(duration_display(323_000), "5m23s");
    assert_eq!(duration_display(3_599_999), "59m59s");
    assert_eq!(duration_display(3_600_000), "1h0m");
    assert_eq!(duration_display(7_530_000), "2h5m");
}

#[test]
fn popup_lines() {
    assert_eq!(session_headline("Opus", "Unknown", 62), "Opus | Unknown | 62%");
    assert_eq!(caption_tail(323_000, 85, 3), "5m23s | Peak 85% | Agents: 3");
}

#[test]
fn session_file_names() {
    assert_eq!(session_file_name("abc123"), "abc123.json");
    assert_eq!(session_id_from_file_name("abc123.json"), Some("abc123".to_string()));
    assert_eq!(session_id_from_file_name("abc123.json.tmp"), None);
    assert_eq!(session_id_from_file_name(".json"), Some(String::new()));
    assert_eq!(session_id_from_file_name("json"), None);
    let id = "sess-\u{e9}";
    assert_eq!(session_id_from_file_name(&session_file_name(id)), Some(id.to_string()));
}

#[test]
fn session_file_events() {
    assert!(is_session_file_event(true, false));
    assert!(is_session_file_event(false, true));
    assert!(!is_session_file_event(false, false));
}

#[test]
fn popup_toggling() {
    let (state, action) = toggle_popup(None, 7u32);
    assert_eq!(state, Some(7));
    assert!(matches!(action, PopupAction::Open(7)));
    let (state, action) = toggle_popup(state, 9u32);
    assert_eq!(state, None);
    assert!(matches!(action, PopupAction::Close(7)));
    assert_eq!(popup_after_close(Some(3u32), true), None);
    assert_eq!(popup_after_close(Some(3u32), false), Some(3));
}
