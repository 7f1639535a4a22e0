use xiaomi_debloater::layout::{centered_rect, screen_panels, Area};
use xiaomi_debloater::model::{InstalledBloat, PackageEntry, Risk};
use xiaomi_debloater::screen::{device_summary, popup_side_percent, risk_cell, row_mark, truncate_desc};
use xiaomi_debloater::text::{decimal, first_two_words, join_strings, pad_right_str, split_lines, strip_prefix, trim_str, contains_str};
use xiaomi_debloater::ui::{handle_key, App, Key};

fn app() -> App {
    let catalog = vec![
        PackageEntry { id: "com.a".into(), category: "Ads".into(), description: "x".into(), risk: Risk::Safe },
        PackageEntry { id: "com.b".into(), category: "Ads".into(), description: "y".into(), risk: Risk::Caution },
    ];
    App::new(catalog, &vec!["com.a".to_string(), "com.b".to_string()], None, "Xiaomi 13 (Android 14) ".into())
}

#[test]
fn titles() {
    let mut a = app();
    assert_eq!(a.header_title(), "xiaomi-debloater \u{2014} Xiaomi 13 (Android 14)   [Advanced: hidden]");
    handle_key(&mut a, Key::Char(' '));
    assert_eq!(a.list_title(), "Installed catalog packages (2) \u{2014} 1 selected");
    assert_eq!(a.confirm_question(), "Remove 1 selected app(s) for the primary user (user 0)?");
}

#[test]
fn log_panel() {
    let mut a = app();
    assert_eq!(a.log_text(), a.status);
    assert_eq!(a.log_panel_height(), 2);
    a.log = vec!["one".into(), "two".into()];
    assert_eq!(a.log_text(), "one\ntwo");
    assert_eq!(a.log_panel_height(), 6);
}

#[test]
fn help_lines() {
    let mut a = app();
    assert!(a.help_text().starts_with("\u{2191}/\u{2193} move  Space toggle"));
    assert!(a.help_text().ends_with("q quit  Uninstall uses: adb shell pm uninstall --user 0 <pkg>"));
    handle_key(&mut a, Key::Char('a'));
    handle_key(&mut a, Key::Char('x'));
    assert_eq!(a.help_text(), "CONFIRM:  Y  = remove selected packages   |   N  or  Esc  = cancel");
}

#[test]
fn row_cells() {
    let mut b = InstalledBloat {
        meta: PackageEntry { id: "i".into(), category: "c".into(), description: "d".into(), risk: Risk::Safe },
        selected: false,
    };
    assert_eq!(row_mark(&b), "[ ] ");
    b.selected = true;
    assert_eq!(row_mark(&b), "[x] ");
    assert_eq!(risk_cell(Risk::Safe), "safe     ");
    assert_eq!(risk_cell(Risk::Caution), "caution  ");
    assert_eq!(risk_cell(Risk::Advanced), "advanced ");
}

#[test]
fn descriptions_are_cut() {
    assert_eq!(truncate_desc("short", 50), "short");
    assert_eq!(truncate_desc("abcdef", 6), "abcdef");
    assert_eq!(truncate_desc("abcdefg", 6), "abcde\u{2026}");
    assert_eq!(truncate_desc("\u{e9}t\u{e9} long", 4), "\u{e9}t\u{e9}\u{2026}");
    assert_eq!(truncate_desc("abc", 0), "\u{2026}");
    assert_eq!(truncate_desc("", 0), "");
}

#[test]
fn device_line() {
    assert_eq!(device_summary("Xiaomi", "23049PCD8G", "14", Some("abc")), "Xiaomi 23049PCD8G (Android 14) serial abc");
    assert_eq!(device_summary("", "", "", None), "  (Android ) ");
}

#[test]
fn popup_sides() {
    assert_eq!(popup_side_percent(70), 15);
    assert_eq!(popup_side_percent(40), 30);
    assert_eq!(popup_side_percent(100), 0);
    assert_eq!(popup_side_percent(0), 50);
}

#[test]
fn text_helpers() {
    assert_eq!(decimal(0), "0");
    assert_eq!(decimal(1234567890), "1234567890");
    assert_eq!(join_strings(&vec![], ", "), "");
    assert_eq!(join_strings(&vec!["a".into()], ", "), "a");
    assert_eq!(pad_right_str("toolong", 3), "toolong");
    assert_eq!(split_lines("a\r\nb\n\nc"), vec!["a", "b", "", "c"]);
    assert_eq!(split_lines("a\rb\n"), vec!["a\rb"]);
    assert_eq!(split_lines("x\r"), vec!["x\r"]);
    assert_eq!(split_lines(""), Vec::<String>::new());
    assert_eq!(split_lines("\n"), vec![""]);
    assert_eq!(first_two_words("  one\t two three"), ("one".to_string(), "two".to_string()));
    assert_eq!(first_two_words("one"), ("one".to_string(), String::new()));
    assert_eq!(strip_prefix("package:x", "package:"), Some("x".to_string()));
    assert_eq!(strip_prefix("pack", "package:"), None);
    assert_eq!(trim_str(" \t\n "), "");
    assert!(contains_str("xxsuccessyy", "success"));
    assert!(!contains_str("succes", "success"));
    assert!(contains_str("abc", ""));
}

#[test]
fn popup_is_centred() {
    let r = centered_rect(70, 40, Area { x: 0, y: 0, width: 100, height: 50 });
    assert_eq!(r, Area { x: 15, y: 15, width: 70, height: 20 });
    let r = centered_rect(100, 100, Area { x: 3, y: 4, width: 10, height: 6 });
    assert_eq!(r, Area { x: 3, y: 4, width: 10, height: 6 });
}

#[test]
fn panels_split_the_screen() {
    let screen = Area { x: 0, y: 0, width: 80, height: 24 };
    let p = screen_panels(2, screen);
    assert_eq!(p.len(), 4);
    assert_eq!(p[0], Area { x: 0, y: 0, width: 80, height: 3 });
    assert_eq!(p[1], Area { x: 0, y: 3, width: 80, height: 17 });
    assert_eq!(p[2], Area { x: 0, y: 20, width: 80, height: 2 });
    assert_eq!(p[3], Area { x: 0, y: 22, width: 80, height: 2 });
    let p = screen_panels(6, screen);
    assert_eq!(p[1].height, 13);
    assert_eq!(p[2], Area { x: 0, y: 16, width: 80, height: 6 });
}

#[test]
fn popup_lies_inside_the_screen() {
    let r = Area { x: 5, y: 7, width: 33, height: 11 };
    let c = centered_rect(41, 37, r);
    assert!(r.x <= c.x && c.x + c.width <= r.x + r.width);
    assert!(r.y <= c.y && c.y + c.height <= r.y + r.height);
}

#[test]
fn popup_edges_round_halves_up() {
    let r = centered_rect(70, 40, Area { x: 0, y: 0, width: 10, height: 5 });
    assert_eq!(r, Area { x: 2, y: 2, width: 7, height: 2 });
    // Near the end of the coordinates only the cells up to 65535 count.
    let r = centered_rect(70, 40, Area { x: 0, y: 65530, width: 10, height: 100 });
    assert_eq!(r, Area { x: 2, y: 65532, width: 7, height: 2 });
}

#[test]
fn panels_that_do_not_fit_stay_contiguous() {
    let screen = Area { x: 1, y: 2, width: 40, height: 9 };
    let p = screen_panels(6, screen);
    assert_eq!(p[0].y, 2);
    for i in 0..3 {
        assert_eq!(p[i + 1].y, p[i].y + p[i].height);
    }
    assert!(p[3].y + p[3].height <= 11);
}
