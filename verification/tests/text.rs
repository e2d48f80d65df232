use rsntp::text::{chars_of, copy_range, find_char_from, has_prefix, is_space_char, nth_field, parse_i64_chars, split_lines, u32_to_string};

const SAMPLES: &[&str] = &[
    "",
    "\n",
    "x",
    "a\r\nb\n\nc\r",
    "one\ntwo\n",
    "\r\n\r\n",
    "  lead and trail  ",
    "tab\tsep\u{3000}ideographic\u{a0}nbsp\u{2028}ls",
    "Max open files            1024                 1048576              files     ",
    "VmRSS:\t    2000 kB",
    "\u{85}next\u{200b}zero-width",
];

fn text_of(v: &[char]) -> String {
    v.iter().collect()
}

#[test]
fn lines_match_std() {
    for s in SAMPLES {
        let got: Vec<String> = split_lines(&chars_of(s)).iter().map(|l| text_of(l)).collect();
        let want: Vec<String> = s.lines().map(|l| l.to_string()).collect();
        assert_eq!(got, want, "lines of {:?}", s);
    }
}

#[test]
fn fields_match_std() {
    for s in SAMPLES {
        let cs = chars_of(s);
        for k in 0..6 {
            let got = nth_field(&cs, k).map(|t| text_of(&t));
            let want = s.split_whitespace().nth(k).map(|t| t.to_string());
            assert_eq!(got, want, "field {} of {:?}", k, s);
        }
    }
}

#[test]
fn whitespace_matches_std() {
    for u in 0..0x3100u32 {
        if let Some(c) = char::from_u32(u) {
            assert_eq!(is_space_char(c), c.is_whitespace(), "{:?}", c);
        }
    }
}

#[test]
fn parse_matches_std() {
    let cases = [
        "", "+", "-", "0", "-0", "+0", "007", "1_000", " 1", "1 ", "12a", "9223372036854775807",
        "9223372036854775808", "-9223372036854775808", "-9223372036854775809", "+42", "--1",
        "99999999999999999999999", "١٢",
    ];
    for s in cases {
        assert_eq!(parse_i64_chars(&chars_of(s)), s.parse::<i64>().ok(), "{:?}", s);
    }
}

#[test]
fn prefix_find_and_copy() {
    let line = chars_of("VmHWM:\t 10 kB");
    assert!(has_prefix(&line, &chars_of("Vm")));
    assert!(has_prefix(&line, &chars_of("")));
    assert!(!has_prefix(&line, &chars_of("Threads:")));
    assert!(!has_prefix(&chars_of("V"), &chars_of("Vm")));
    assert_eq!(find_char_from(&line, ':', 0), 5);
    assert_eq!(find_char_from(&line, ':', 6), line.len());
    assert_eq!(text_of(&copy_range(&line, 2, 5)), "HWM");
}

#[test]
fn u32_in_decimal() {
    for n in [0u32, 7, 9, 10, 42, 100, 1009, 65535, 4_000_000_000, u32::MAX] {
        assert_eq!(u32_to_string(n), n.to_string());
    }
}
