use shield_backup::text::{chars_of, decimal, is_whitespace_char, parse_u32, trim, trim_bounds};

fn parse(text: &str) -> Option<u32> {
    parse_u32(text)
}

#[test]
fn white_space_is_what_the_standard_library_calls_so() {
    for code in 0u32..=0x3100 {
        if let Some(c) = char::from_u32(code) {
            assert_eq!(is_whitespace_char(c), c.is_whitespace(), "code point {:#x}", code);
        }
    }
    assert!(!is_whitespace_char('\u{200B}'));
    assert!(!is_whitespace_char('\u{FEFF}'));
    assert!(!is_whitespace_char('\u{10FFFF}'));
}

#[test]
fn trimming_agrees_with_the_standard_library() {
    let samples = [
        "",
        " ",
        "abc",
        "  abc",
        "abc  ",
        " \t\r\n abc def \n",
        "\u{3000}x\u{00A0}",
        "\u{2003}\u{2028}",
        " é ü ",
        "a\u{0085}",
        "\u{200B} a",
    ];
    for sample in samples {
        assert_eq!(trim(sample), sample.trim(), "sample {:?}", sample);
    }
}

#[test]
fn trim_bounds_are_positions_in_characters() {
    let chars = chars_of("  éa ");
    assert_eq!(chars, vec![' ', ' ', 'é', 'a', ' ']);
    assert_eq!(trim_bounds(&chars), (2, 4));
    assert_eq!(trim_bounds(&chars_of("   ")), (3, 3));
    assert_eq!(trim_bounds(&chars_of("")), (0, 0));
}

#[test]
fn numbers_are_read_as_the_standard_library_reads_them() {
    let samples = [
        "0",
        "7",
        "007",
        "+5",
        "+",
        "",
        "-1",
        "-0",
        "12a",
        "a12",
        " 12",
        "12 ",
        "1 2",
        "++1",
        "1+",
        "4294967295",
        "4294967296",
        "+4294967295",
        "00000000004294967295",
        "99999999999999999999999",
        "١٢",
        "1_000",
        "0x10",
    ];
    for sample in samples {
        assert_eq!(parse(sample), sample.parse::<u32>().ok(), "sample {:?}", sample);
    }
}

#[test]
fn a_number_is_read_from_text_that_holds_nothing_else() {
    assert_eq!(parse_u32("123"), Some(123));
    assert_eq!(parse_u32("123c"), None);
    assert_eq!(parse_u32(""), None);
    assert_eq!(chars_of("a+1"), vec!['a', '+', '1']);
}

#[test]
fn numbers_are_written_as_the_standard_library_writes_them() {
    for n in [0u32, 1, 9, 10, 11, 99, 100, 101, 4242, 65535, 1_000_000, u32::MAX - 1, u32::MAX] {
        assert_eq!(decimal(n), n.to_string());
    }
    assert_eq!(decimal(4294967295), "4294967295");
}
