use ajemi::edit_session::{candidate_position, edit_session_result, TextRect, S_OK};
use ajemi::log_line::{format_log_line, LogLevel};
use ajemi::registration::{clsid_key_path, tray_icon_for_theme, TrayIcon};

#[test]
fn clsid_path_wraps_the_id_in_braces() {
    assert_eq!(
        clsid_key_path("12345678-9abc-def0-1234-56789abcdef0"),
        "SOFTWARE\\Classes\\CLSID\\{12345678-9abc-def0-1234-56789abcdef0}"
    );
    assert_eq!(clsid_key_path(""), "SOFTWARE\\Classes\\CLSID\\{}");
}

#[test]
fn tray_icon_follows_the_theme() {
    assert_eq!(tray_icon_for_theme(Some(1)), TrayIcon::Light);
    assert_eq!(tray_icon_for_theme(Some(0)), TrayIcon::Dark);
    assert_eq!(tray_icon_for_theme(Some(2)), TrayIcon::Dark);
    assert_eq!(tray_icon_for_theme(None), TrayIcon::Light);
}

#[test]
fn edit_session_codes() {
    assert_eq!(edit_session_result(S_OK), Ok(()));
    assert_eq!(edit_session_result(1), Err(1));
    assert_eq!(edit_session_result(0x8004_0005u32 as i32), Err(0x8004_0005u32 as i32));
}

#[test]
fn candidate_window_sits_below_the_text() {
    let rect = TextRect { left: 10, top: 20, right: 30, bottom: 44 };
    assert_eq!(candidate_position(rect), (10, 44));
    let rect = TextRect { left: -5, top: -9, right: 0, bottom: -1 };
    assert_eq!(candidate_position(rect), (-5, -1));
}

#[test]
fn log_lines_pad_the_level() {
    let ts = "2024-01-02 03:04:05";
    assert_eq!(format_log_line(ts, LogLevel::Error, "boom"), "2024-01-02 03:04:05 [ERROR] boom");
    assert_eq!(format_log_line(ts, LogLevel::Warn, "w"), "2024-01-02 03:04:05 [WARN ] w");
    assert_eq!(format_log_line(ts, LogLevel::Info, "i"), "2024-01-02 03:04:05 [INFO ] i");
    assert_eq!(format_log_line(ts, LogLevel::Debug, ""), "2024-01-02 03:04:05 [DEBUG] ");
    assert_eq!(format_log_line(ts, LogLevel::Trace, "t"), "2024-01-02 03:04:05 [TRACE] t");
    assert_eq!(
        format_log_line(ts, LogLevel::Warn, &format!("{:<5}|", "WARN")),
        format!("{} [{:<5}] {:<5}|", ts, "WARN", "WARN")
    );
}
