use zhuanzhuan::controls::lap_label;
use zhuanzhuan::display::{countdown_text, tooltip_text};
use zhuanzhuan::numbers::{parse_i32, parse_u64};
use zhuanzhuan::timer::Tooltip;
use zhuanzhuan::utf16::wide;

#[test]
fn wide_ascii() {
    assert_eq!(wide("AB"), vec![65u16, 66, 0]);
}

#[test]
fn wide_empty() {
    assert_eq!(wide(""), vec![0u16]);
}

#[test]
fn wide_title() {
    assert_eq!(wide("转转"), vec![0x8F6Cu16, 0x8F6C, 0]);
}

#[test]
fn wide_surrogate_pair() {
    assert_eq!(wide("a😀"), vec![0x61u16, 0xD83D, 0xDE00, 0]);
}

#[test]
fn wide_matches_std() {
    let s = "ZZO\u{10FFFF}\u{FFFF}é";
    let mut expected: Vec<u16> = s.encode_utf16().collect();
    expected.push(0);
    assert_eq!(wide(s), expected);
}

#[test]
fn countdown_formats() {
    assert_eq!(countdown_text(0), "00:00");
    assert_eq!(countdown_text(59), "00:59");
    assert_eq!(countdown_text(61), "01:01");
    assert_eq!(countdown_text(1199), "19:59");
    assert_eq!(countdown_text(3600), "60:00");
    assert_eq!(countdown_text(6000), "100:00");
}

#[test]
fn countdown_matches_format() {
    for secs in [0u64, 5, 60, 599, 12345, u64::MAX] {
        assert_eq!(countdown_text(secs), format!("{:02}:{:02}", secs / 60, secs % 60));
    }
}

#[test]
fn tooltips() {
    assert_eq!(tooltip_text(Tooltip::NotStarted), "转转 - 未开始");
    assert_eq!(tooltip_text(Tooltip::Relaxing), "转转 - 放松中...");
    assert_eq!(tooltip_text(Tooltip::Countdown(125)), "转转 - 距下次放松 02:05");
}

#[test]
fn parse_u64_like_std() {
    let cases = [
        "12", "+7", "-1", "", "+", " 5", "5 ", "007", "1.5", "18446744073709551615",
        "18446744073709551616", "99999999999999999999", "-0", "++1", "٣",
    ];
    for c in cases {
        assert_eq!(parse_u64(c), c.parse::<u64>().ok(), "{c:?}");
    }
    assert_eq!(parse_u64("20"), Some(20));
    assert_eq!(parse_u64("abc"), None);
}

#[test]
fn parse_i32_like_std() {
    let cases = [
        "3", "-2147483648", "2147483647", "2147483648", "-2147483649", "-0", "-", "+", "+-1",
        "", "12a", "-12",
    ];
    for c in cases {
        assert_eq!(parse_i32(c), c.parse::<i32>().ok(), "{c:?}");
    }
}

#[test]
fn lap_labels() {
    assert_eq!(lap_label(2, "3"), "第 2/3 圈");
    assert_eq!(lap_label(1, "x"), "第 1/3 圈");
    assert_eq!(lap_label(-1, "-4"), "第 -1/-4 圈");
    assert_eq!(lap_label(i32::MIN, "10"), format!("第 {}/10 圈", i32::MIN));
}

#[test]
fn wide_decodes_back_and_has_one_terminator() {
    for s in ["", "转转", "ZZO", "mixed 😀 text ✓", "\u{10000}\u{FFFD}"] {
        let w = wide(s);
        assert_eq!(w.last(), Some(&0u16));
        assert_eq!(w.iter().filter(|&&u| u == 0).count(), 1);
        assert_eq!(String::from_utf16(&w[..w.len() - 1]).unwrap(), s);
    }
}
