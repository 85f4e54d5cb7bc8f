use deetbeam::text::address::parse_address;
use deetbeam::text::decimal::{decimal_text, signed_decimal_text};
use deetbeam::text::words::{chars_of, is_blank, is_whitespace, split_whitespace};

/// The rule for addresses, in terms of the standard library.
fn expected_address(addr: &str) -> Option<usize> {
    let digits = if addr.to_lowercase().starts_with("0x") {
        &addr[2..]
    } else {
        addr
    };
    usize::from_str_radix(digits, 16).ok()
}

#[test]
fn addresses_are_hexadecimal() {
    assert_eq!(parse_address("0x4011a6"), Some(0x4011a6));
    assert_eq!(parse_address("0X4011A6"), Some(0x4011a6));
    assert_eq!(parse_address("4011a6"), Some(0x4011a6));
    assert_eq!(parse_address("10"), Some(16));
    assert_eq!(parse_address("0"), Some(0));
    assert_eq!(parse_address("+1f"), Some(31));
    assert_eq!(parse_address("0x+1f"), Some(31));
}

#[test]
fn what_is_no_address_is_refused() {
    for text in ["", "0x", "+", "0x+", "x1", "0x0x1", "+0x1", "-1", "1_0", " 1", "1 ", "main", "0xg"] {
        assert_eq!(parse_address(text), None, "{:?}", text);
    }
}

#[test]
fn an_address_must_fit_a_machine_word() {
    assert_eq!(parse_address("0xffffffffffffffff"), Some(usize::MAX));
    assert_eq!(parse_address("0x10000000000000000"), None);
    assert_eq!(parse_address("0x00000000000000000000000000000001"), Some(1));
    assert_eq!(parse_address("fffffffffffffffff"), None);
}

#[test]
fn addresses_agree_with_the_standard_library() {
    let pieces = ["", "0", "x", "X", "0x", "0X", "+", "-", "f", "F", "9", "g", "Ⅹ", "х", "\u{130}", " ", "ffffffffffffffff", "1"];
    for a in pieces {
        for b in pieces {
            for c in pieces {
                let text = format!("{}{}{}", a, b, c);
                assert_eq!(parse_address(&text), expected_address(&text), "{:?}", text);
            }
        }
    }
}

#[test]
fn every_address_reads_back() {
    for n in [0usize, 1, 15, 16, 255, 0x401136, 0x7fff_ffff_e000, usize::MAX] {
        assert_eq!(parse_address(&format!("{:x}", n)), Some(n));
        assert_eq!(parse_address(&format!("{:X}", n)), Some(n));
        assert_eq!(parse_address(&format!("0x{:x}", n)), Some(n));
        assert_eq!(parse_address(&format!("0X{:X}", n)), Some(n));
    }
}

#[test]
fn white_space_is_that_of_unicode() {
    for n in 0..=0x10ffffu32 {
        if let Some(c) = char::from_u32(n) {
            assert_eq!(is_whitespace(c), c.is_whitespace(), "{:x}", n);
        }
    }
}

#[test]
fn lines_split_into_words() {
    assert_eq!(split_whitespace("run a  b\tc\n"), vec!["run", "a", "b", "c"]);
    assert_eq!(split_whitespace("  break 0x1\u{3000}"), vec!["break", "0x1"]);
    assert_eq!(split_whitespace("één\u{a0}zwei"), vec!["één", "zwei"]);
    assert!(split_whitespace(" \t\r\n").is_empty());
    assert!(split_whitespace("").is_empty());
}

#[test]
fn words_agree_with_the_standard_library() {
    let pieces = ["", " ", "\t", "a", "ab", "\u{85}", "\u{2003}", "ß", "\u{200b}", "  "];
    for a in pieces {
        for b in pieces {
            for c in pieces {
                for d in pieces {
                    let line = format!("{}{}{}{}", a, b, c, d);
                    let expected: Vec<&str> = line.split_whitespace().collect();
                    assert_eq!(split_whitespace(&line), expected, "{:?}", line);
                    assert_eq!(is_blank(&line), line.trim().len() == 0, "{:?}", line);
                    assert_eq!(split_whitespace(&line).is_empty(), is_blank(&line));
                }
            }
        }
    }
}

#[test]
fn words_lose_nothing_but_white_space() {
    let line = " run --flag=1\t'x  y' \u{2028}z ";
    let kept: String = line.chars().filter(|c| !c.is_whitespace()).collect();
    assert_eq!(split_whitespace(line).concat(), kept);
}

#[test]
fn characters_come_in_order() {
    assert_eq!(chars_of("aé\u{1F600}"), vec!['a', 'é', '\u{1F600}']);
}

#[test]
fn numbers_are_written_in_decimal() {
    for n in [0u64, 1, 9, 10, 99, 100, 1234567890, u64::MAX] {
        assert_eq!(decimal_text(n), n.to_string());
    }
    for n in [0i32, 1, -1, 42, -42, i32::MAX, i32::MIN] {
        assert_eq!(signed_decimal_text(n), n.to_string());
    }
}
