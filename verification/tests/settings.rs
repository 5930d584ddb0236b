use zhuanzhuan::config::{parse_config, render_config};

fn strings(a: &str, b: &str, c: &str) -> (String, String, String) {
    (a.to_string(), b.to_string(), c.to_string())
}

#[test]
fn empty_text_gives_defaults() {
    assert_eq!(parse_config(""), strings("20", "8", "3"));
}

#[test]
fn reads_all_three_keys() {
    assert_eq!(parse_config("interval=5\nduration=10\nlaps=2\n"), strings("5", "10", "2"));
}

#[test]
fn trims_keys_and_values_and_crlf() {
    assert_eq!(parse_config("  interval = 7 \r\nlaps=\t4\r\n"), strings("7", "8", "4"));
}

#[test]
fn last_line_for_a_key_wins() {
    assert_eq!(parse_config("laps=1\nlaps=9"), strings("20", "8", "9"));
}

#[test]
fn unknown_keys_and_lines_without_equals_are_ignored() {
    assert_eq!(parse_config("foo=1\nbar\nInterval=3\n\n"), strings("20", "8", "3"));
}

#[test]
fn value_splits_at_first_equals() {
    assert_eq!(parse_config("interval=a=b\nduration=="), strings("a=b", "=", "3"));
}

#[test]
fn empty_value_is_kept() {
    assert_eq!(parse_config("duration=\n"), strings("20", "", "3"));
}

#[test]
fn renders_one_line_per_key() {
    assert_eq!(render_config("20", "8", "3"), "interval=20\nduration=8\nlaps=3\n");
}

#[test]
fn rendered_settings_read_back_trimmed() {
    let text = render_config(" 15 ", "8", "x ");
    assert_eq!(parse_config(&text), strings("15", "8", "x"));
}

#[test]
fn non_ascii_values_round_trip() {
    let text = render_config("二十", "8", "三");
    assert_eq!(parse_config(&text), strings("二十", "8", "三"));
}

#[test]
fn appended_line_overrides_its_key_only() {
    let base = "interval=1\nduration=2\nlaps=3";
    assert_eq!(parse_config(&format!("{base}\ninterval= 9 ")), strings("9", "2", "3"));
    assert_eq!(parse_config(&format!("{base}\nduration=x")), strings("1", "x", "3"));
    assert_eq!(parse_config(&format!("{base}\nlaps=")), strings("1", "2", ""));
}
