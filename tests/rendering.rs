use colored::Color;
use printk::{decimal, replace_all, IconRegistry, Printk, PrintkError};

fn pairs(items: &[(&str, &str)]) -> Vec<(String, String)> {
    items.iter().map(|(k, g)| (k.to_string(), g.to_string())).collect()
}

fn small_renderer() -> Printk {
    let reg = IconRegistry::from_entries(pairs(&[("success", "✔"), ("error", "✘")])).unwrap();
    Printk::new().with_registry(reg)
}

#[test]
fn scenario_known_keys_substituted() {
    let pk = small_renderer();
    assert_eq!(pk.substitute("{success} done, {error} failed"), "✔ done, ✘ failed");
    assert_eq!(pk.process_message("{success} done, {error} failed"), "✔ done, ✘ failed");
}

#[test]
fn scenario_unknown_key_left_verbatim() {
    let pk = Printk::new();
    assert_eq!(pk.process_message("literal {notakey} text"), "literal {notakey} text");
    assert_eq!(small_renderer().substitute("{unknown-key}"), "{unknown-key}");
}

#[test]
fn scenario_write_at_row() {
    let pk = Printk::new();
    assert!(matches!(pk.print_at_y_text(-1, "x"), Err(PrintkError::InvalidCursor(-1))));
    assert_eq!(pk.print_at_y_text(0, "x").unwrap(), "\x1B[1;1Hx");
}

#[test]
fn scenario_red_heart() {
    // colored's switch is process-wide: every case that sets it stands here.
    colored::control::set_override(true);
    let pk = Printk::new().with_color(Color::Red);
    let heart = Printk::new().get_icon("heart").unwrap();
    assert_eq!(pk.process_message("{heart}"), format!("\x1B[31m{}\x1B[0m", heart));

    let green = small_renderer().with_color(Color::Green);
    assert_eq!(green.process_message("{error} x"), "\x1B[32m✘ x\x1B[0m");

    colored::control::set_override(false);
    assert_eq!(green.process_message("{success}"), "✔");
    assert_eq!(pk.process_message("{heart}"), heart);
}

#[test]
fn text_without_placeholders_unchanged() {
    let pk = Printk::new();
    for s in ["", "plain text", "{ info }", "{}", "{a b}", "{info", "info}", "{{}}"] {
        assert_eq!(pk.substitute(s), s);
    }
}

#[test]
fn every_key_token_becomes_its_glyph() {
    let pk = Printk::new();
    for (k, g) in pk.list_icons() {
        assert_eq!(pk.substitute(&format!("{{{}}}", k)), g);
    }
}

#[test]
fn icons_off_is_identity() {
    let pk = Printk::new().icons(false);
    assert_eq!(pk.substitute("{info} x {success}"), "{info} x {success}");
    assert_eq!(pk.process_message("{info}"), "{info}");
    assert_eq!(pk.get_icon("info").unwrap(), "{info}");
    assert_eq!(pk.get_icon("nothing").unwrap(), "{nothing}");
}

#[test]
fn unknown_keys_left_verbatim() {
    let pk = Printk::new();
    for u in ["nope", "unknown-key", "A_1", "Info"] {
        let t = format!("{{{}}}", u);
        assert_eq!(pk.substitute(&t), t);
    }
}

#[test]
fn rows_below_zero_are_refused() {
    let pk = Printk::new();
    assert!(matches!(pk.clear_from_y_text(-3), Err(PrintkError::InvalidCursor(-3))));
    assert!(matches!(pk.print_at_y_text(i16::MIN, "x"), Err(PrintkError::InvalidCursor(i16::MIN))));
    assert!(matches!(pk.print_at_y_and_return_text(-1, "x"), Err(PrintkError::InvalidCursor(-1))));
    assert!(matches!(pk.clear_lines_text(-2, 3), Err(PrintkError::InvalidCursor(-2))));
}

#[test]
fn rows_from_zero_succeed() {
    let pk = Printk::new();
    assert_eq!(pk.clear_from_y_text(0).unwrap(), "\x1B[1;1H\x1B[0K");
    assert_eq!(pk.clear_from_y_text(21).unwrap(), "\x1B[22;1H\x1B[0K");
    assert_eq!(pk.print_at_y_text(i16::MAX, "end").unwrap(), "\x1B[32768;1Hend");
}

#[test]
fn clear_no_rows_emits_nothing() {
    let pk = Printk::new();
    assert_eq!(pk.clear_lines_text(5, 0).unwrap(), "");
}

#[test]
fn clear_two_rows() {
    let pk = Printk::new();
    assert_eq!(pk.clear_lines_text(2, 2).unwrap(), "\x1B[3;1H\x1B[0K\x1B[4;1H\x1B[0K");
}

#[test]
fn clear_rows_past_i16_range() {
    let pk = Printk::new();
    let s = pk.clear_lines_text(i16::MAX, 2).unwrap();
    assert_eq!(s, "\x1B[32768;1H\x1B[0K\x1B[32769;1H\x1B[0K");
}

#[test]
fn write_and_return_saves_and_restores() {
    let pk = small_renderer();
    assert_eq!(pk.print_at_y_and_return_text(3, "{success} hi").unwrap(), "\x1B[s\x1B[4;1H✔ hi\x1B[u");
}

#[test]
fn listing_agrees_with_lookup() {
    let reg = IconRegistry::standard();
    let listed = reg.list();
    assert_eq!(listed.len(), 66);
    for (k, g) in &listed {
        assert_eq!(reg.lookup(k).as_ref(), Some(g));
        assert!(reg.contains(k));
    }
    let pk = Printk::new();
    for (k, g) in pk.list_icons() {
        assert_eq!(pk.get_icon(&k), Some(g));
    }
}

#[test]
fn standard_table_contents() {
    let reg = IconRegistry::standard();
    assert_eq!(reg.list()[0], ("folder".to_string(), "\u{f07b}".to_string()));
    assert_eq!(reg.lookup("rust"), Some("\u{e7a8}".to_string()));
}

#[test]
fn lookup_is_exact() {
    let reg = IconRegistry::standard();
    assert_eq!(reg.lookup("Rust"), None);
    assert_eq!(reg.lookup("rus"), None);
    assert_eq!(reg.lookup(""), None);
    assert!(!reg.contains("arrow-"));
}

#[test]
fn invalid_tables_are_refused() {
    assert!(IconRegistry::from_entries(pairs(&[("a", "x"), ("a", "y")])).is_none());
    assert!(IconRegistry::from_entries(pairs(&[("", "x")])).is_none());
    assert!(IconRegistry::from_entries(pairs(&[("a b", "x")])).is_none());
    assert!(IconRegistry::from_entries(pairs(&[("a", "{b}")])).is_none());
    assert!(IconRegistry::from_entries(pairs(&[("a-B_9", "}")])).is_some());
    assert!(IconRegistry::from_entries(Vec::new()).is_some());
}

#[test]
fn replacement_is_left_to_right() {
    assert_eq!(replace_all("aaa", "aa", "b"), "ba");
    assert_eq!(replace_all("xyxy", "xy", "{xy}"), "{xy}{xy}");
    assert_eq!(replace_all("", "a", "b"), "");
    assert_eq!(replace_all("abc", "", "x"), "abc");
    assert_eq!(replace_all("héllo", "é", "e"), "hello");
}

#[test]
fn glyphs_are_not_substituted_again() {
    let reg = IconRegistry::from_entries(pairs(&[("a", "}b"), ("b", "B")])).unwrap();
    let pk = Printk::new().with_registry(reg);
    assert_eq!(pk.substitute("{a}"), "}b");
}

#[test]
fn decimal_notation() {
    assert_eq!(decimal(0), "0");
    assert_eq!(decimal(7), "7");
    assert_eq!(decimal(12345), "12345");
    assert_eq!(decimal(u32::MAX), "4294967295");
}
