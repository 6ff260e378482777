use rustminidb::banner::{
    auth_status_text, banner_text, banner_text_compact, banner_text_detailed, features_panel, info_line_text,
    logo_with_info, m_icon_text, server_info_text, system_info_panel,
};
use rustminidb::version;
use rustminidb::banner::colour_enabled;

#[test]
fn test_banner_contains_version() {
    let text = banner_text(false);
    assert!(text.contains(version()));
    assert!(text.contains("RustMinidb"));
    assert!(text.contains("redb"));
}

#[test]
fn test_banner_non_empty() {
    assert!(!banner_text(false).is_empty());
    assert!(!banner_text(true).is_empty());
}

#[test]
fn test_banner_compact_non_empty() {
    let text = banner_text_compact();
    assert!(!text.is_empty());
    assert!(text.contains(version()));
}

#[test]
fn test_detailed_banner_contains_features() {
    let text = banner_text_detailed("0.2.0", &["server", "shell"], false, "linux", "x86_64");
    assert!(text.contains("server"));
    assert!(text.contains("shell"));
}

#[test]
fn banner_plain_has_no_escape_codes() {
    let text = banner_text(false);
    assert!(!text.contains('\x1b'));
    assert!(text.starts_with("\n  ╔"));
    assert!(text.contains(" ◈ RustMinidb v0.2.0 — Embedded Relational Database\n Homepage: https://rustminidb.dev   License: BSL-1.1\n Storage: redb (single-file, ACID, MVCC)\n"));
}

#[test]
fn banner_coloured_uses_escape_codes() {
    let text = banner_text(true);
    assert!(text.contains("\x1b[36m"));
    assert!(text.contains("\x1b[0m"));
    assert!(text.contains("\x1b[35m◈\x1b[0m\x1b[1m RustMinidb v0.2.0"));
}

#[test]
fn compact_banner_exact_text() {
    let text = banner_text_compact();
    let expected = format!(
        "\n{}\n RustMinidb v0.2.0  —  Embedded Relational Database\n Homepage: https://rustminidb.dev   License: BSL-1.1\n",
        "\n   _  _  __  __  _  _  ___  _  _  ___\n  | \\| |/ _\\ \\/ / | \\| | _ \\| \\| | _ \\\n  | .` | (_ >  <  | .` |   /| .` |  _/\n  |_|\\_|\\___/_/\\_\\|_|\\_|_|_\\|_|\\_|_|\n"
    );
    assert_eq!(text, expected);
}

#[test]
fn logo_with_info_compact_form() {
    let text = logo_with_info("9.9.9", false, false);
    assert!(text.ends_with("\n RustMinidb v9.9.9  —  Embedded Relational Database\n"));
}

#[test]
fn system_panel_lines() {
    let p = system_info_panel("1.0", &["a", "b"], false, "linux", "x86_64");
    let border = "━".repeat(48);
    let expected = format!(
        "  {b}\n   System Information\x1b[0m\n  {b}\n    Version         :  1.0\n    Storage Engine  :  redb (single-file, ACID)\n    Platform        :  linux\n    Architecture    :  x86_64\n    Features        :  a, b\n  {b}\n",
        b = border
    );
    assert_eq!(p, expected);
}

#[test]
fn features_panel_empty_and_full() {
    assert_eq!(features_panel(&[], false), "");
    assert_eq!(features_panel(&["x"], false), "  Enabled Features\x1b[0m\n    ✓  x\n");
    assert_eq!(features_panel(&["x"], true), "  \x1b[1mEnabled Features\x1b[0m\n    \x1b[32m✓\x1b[0m  x\n");
}

#[test]
fn info_line_plain() {
    assert_eq!(info_line_text(false), "M  RustMinidb v0.2.0 — Embedded Relational Database (redb, ACID)");
    assert!(info_line_text(true).starts_with("\x1b[35m██╗  ██╗ \x1b[32mRustMinidb v0.2.0\x1b[0m"));
}

#[test]
fn auth_status_lines() {
    assert_eq!(auth_status_text(true, false), "  ✓ API Authentication: ENABLED (Bearer Token required)\n\n");
    assert_eq!(
        auth_status_text(false, false),
        "  ⚠ API Authentication: DISABLED (set --api-token or RUSTMINIDB_API_TOKEN)\n\n"
    );
}

#[test]
fn server_info_plain_panel() {
    let text = server_info_text("0.0.0.0", 8080, "test.db", false);
    assert!(text.starts_with("\n  ╔"));
    assert!(text.contains(&format!("  ║  Version:  {:<38}║\n", "0.2.0")));
    assert!(text.contains(&format!("  ║  Server:   http://{}:{:<29}║\n", "0.0.0.0", 8080)));
    assert!(text.contains(&format!("  ║  Database: {:<39}║\n", "test.db")));
    assert!(text.contains("  ║    GET  /v1/schema/{t} - Table schema          ║\n"));
    assert!(text.ends_with("╝\n\n"));
}

#[test]
fn m_icon_plain_and_coloured() {
    let plain = m_icon_text(false);
    assert!(plain.starts_with("\n    ██████╗\n"));
    let coloured = m_icon_text(true);
    assert!(coloured.starts_with("\x1b[34m\x1b[0m\n\x1b[36m    ██████╗\x1b[0m\n"));
}

#[test]
fn test_info_line_contains_version() {
    let line = rustminidb::banner::info_line_text(false);
    assert!(line.contains(rustminidb::version()));
    println!("{}", line);
}

#[test]
fn test_server_info_no_panic() {
    println!("{}", rustminidb::banner::server_info_text("0.0.0.0", 8080, "test.db", false));
}

#[test]
fn test_print_m_icon() {
    println!("{}", rustminidb::banner::m_icon_text(false));
}

#[test]
fn colour_follows_the_environment() {
    assert!(!colour_enabled(true, Some("1"), Some("xterm"), false));
    assert!(!colour_enabled(false, Some("off"), Some("xterm"), false));
    assert!(colour_enabled(false, Some("yes"), None, false));
    assert!(colour_enabled(false, Some("maybe"), Some("xterm"), false));
    assert!(!colour_enabled(false, None, Some("dumb"), false));
    assert!(!colour_enabled(false, None, None, false));
    assert!(colour_enabled(false, None, None, true));
}
