use openagent_tui::config::Config;
use openagent_tui::errors::BackendError;
use openagent_tui::state::RagStatus;
use openagent_tui::text::{format_tokens, i32_to_string, str_eq, trim_str, u64_to_string};
use openagent_tui::ui_state::{Focus, Screen, UIState};

#[test]
fn test_format_tokens_plain() {
    assert_eq!(format_tokens(0), "0");
    assert_eq!(format_tokens(999), "999");
}

#[test]
fn test_format_tokens_comma() {
    assert_eq!(format_tokens(1000), "1,000");
    assert_eq!(format_tokens(1234), "1,234");
    assert_eq!(format_tokens(9999), "9,999");
}

#[test]
fn test_format_tokens_kilo() {
    assert_eq!(format_tokens(10000), "10.0k");
    assert_eq!(format_tokens(12345), "12.3k");
    assert_eq!(format_tokens(12360), "12.4k");
    assert_eq!(format_tokens(999949), "999.9k");
}

#[test]
fn test_format_tokens_mega() {
    assert_eq!(format_tokens(1000000), "1.00M");
    assert_eq!(format_tokens(1234567), "1.23M");
    assert_eq!(format_tokens(1235000), "1.24M");
}

#[test]
fn test_decimal_rendering() {
    assert_eq!(u64_to_string(0), "0");
    assert_eq!(u64_to_string(90210), "90210");
    assert_eq!(i32_to_string(-32601), "-32601");
    assert_eq!(i32_to_string(7), "7");
    assert_eq!(i32_to_string(i32::MIN), "-2147483648");
}

#[test]
fn test_trim_and_eq() {
    assert_eq!(trim_str("  hello \t"), "hello");
    assert_eq!(trim_str("\u{a0} x \u{a0}"), "x");
    assert_eq!(trim_str("   "), "");
    assert!(str_eq("abc", "abc"));
    assert!(!str_eq("abc", "abd"));
    assert!(!str_eq("abc", "ab"));
}

#[test]
fn test_error_descriptions() {
    assert_eq!(BackendError::NotStarted.describe(), "Backend not started");
    assert_eq!(BackendError::ProcessDied.describe(), "Backend process died");
    assert_eq!(
        BackendError::RpcError { code: -32601, message: "method not found".to_string() }.describe(),
        "RPC error -32601: method not found"
    );
    assert_eq!(BackendError::IoError("broken pipe".to_string()).describe(), "IO error: broken pipe");
    assert_eq!(BackendError::ParseError("bad shape".to_string()).describe(), "Parse error: bad shape");
}

#[test]
fn test_ui_state_initial() {
    let s = UIState::new();
    assert!(matches!(s.screen, Screen::Home));
    assert!(matches!(s.focus, Focus::Input));
    assert_eq!(s.input, "");
    assert_eq!(s.scroll_offset, 0);
    assert!(!s.is_loading);
    assert!(s.status_message.is_none());
    assert!(!s.debug_mode);
    assert!(!s.show_raw_markdown);
}

#[test]
fn test_config_defaults() {
    let c = Config::default();
    assert_eq!(c.tick_rate_ms, 16);
    assert_eq!(c.status_timeout_ticks, 180);
    assert_eq!(c.animation_frame_mod, 360);
    assert_eq!(c.send_animation_ticks, 20);
    assert_eq!(c.scroll_step, 3);
    assert_eq!(c.sidebar_width, 26);
}

#[test]
fn test_rag_status_default() {
    let r = RagStatus::default();
    assert!(!r.initialized);
    assert_eq!(r.chunk_count, 0);
}
