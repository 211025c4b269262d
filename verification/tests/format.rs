use tinycbg::error::{ParseError, ParseErrorType};
use tinycbg::{CyberGrindPattern, Prefab, Tile};

fn blank_lines() -> Vec<String> {
    let mut lines: Vec<String> = Vec::new();
    for _ in 0..16 {
        lines.push(String::from("0000000000000000"));
    }
    lines.push(String::new());
    for _ in 0..16 {
        lines.push(String::from("0000000000000000"));
    }
    lines
}

fn text_of(lines: &[String]) -> String {
    let mut text = String::new();
    for line in lines {
        text.push_str(line);
        text.push('\n');
    }
    text
}

fn fault_of(lines: &[String]) -> ParseError {
    match CyberGrindPattern::parse_str(&text_of(lines)) {
        Ok(_) => panic!("the text was read as a pattern"),
        Err(error) => error,
    }
}

fn fault(line: u32, column: u32, char: u8, kind: ParseErrorType) -> ParseError {
    ParseError {
        line,
        column,
        kind,
        char,
    }
}

#[test]
fn blank_text_is_a_blank_pattern() {
    let pattern = CyberGrindPattern::parse_str(&text_of(&blank_lines())).unwrap();
    for i in 0..256usize {
        assert_eq!(pattern.get(i), Tile::default());
    }
}

#[test]
fn heights_and_prefabs_are_read_cell_by_cell() {
    let mut lines = blank_lines();
    lines[0] = String::from("9(10)(-1)0(50)(-50)1(-9)(9)(-37)000000");
    lines[15] = String::from("000000000000000(12)");
    lines[17] = String::from("0npHJs0000000000");
    lines[32] = String::from("000000000000000s");
    let pattern = CyberGrindPattern::parse_str(&text_of(&lines)).unwrap();
    let heights: [i8; 10] = [9, 10, -1, 0, 50, -50, 1, -9, 9, -37];
    for (i, height) in heights.iter().enumerate() {
        assert_eq!(pattern.get(i).height(), *height);
    }
    assert_eq!(pattern.get_at(15, 15).height(), 12);
    let prefabs = [
        Prefab::Empty,
        Prefab::Melee,
        Prefab::Projectile,
        Prefab::HideousMass,
        Prefab::JumpPad,
        Prefab::Stairs,
    ];
    for (i, prefab) in prefabs.iter().enumerate() {
        assert_eq!(pattern.get(i).prefab(), *prefab);
    }
    assert_eq!(pattern.get(255), Tile::new(12, Prefab::Stairs));
    assert_eq!(pattern.get(16), Tile::default());
}

#[test]
fn what_follows_the_pattern_is_not_read() {
    let text = text_of(&blank_lines()) + "anything at all";
    assert!(CyberGrindPattern::parse_str(&text).is_ok());
}

#[test]
fn a_sign_may_stand_anywhere_in_the_parentheses() {
    let mut lines = blank_lines();
    lines[0] = String::from("(1-2)(12-)()(-)000000000000");
    let pattern = CyberGrindPattern::parse_str(&text_of(&lines)).unwrap();
    assert_eq!(pattern.get(0).height(), -12);
    assert_eq!(pattern.get(1).height(), -12);
    assert_eq!(pattern.get(2).height(), 0);
    assert_eq!(pattern.get(3).height(), 0);
}

#[test]
fn invalid_height_char_is_found_where_it_stands() {
    let mut lines = blank_lines();
    lines[2] = String::from("0000z00000000000");
    assert_eq!(
        fault_of(&lines),
        fault(3, 5, b'z', ParseErrorType::InvalidHeightChar)
    );

    let mut lines = blank_lines();
    lines[2] = String::from("(10)(-5)0(1x)000000000000");
    assert_eq!(
        fault_of(&lines),
        fault(3, 12, b'x', ParseErrorType::InvalidHeightChar)
    );

    let mut lines = blank_lines();
    lines[0] = String::from("-000000000000000");
    assert_eq!(
        fault_of(&lines),
        fault(1, 1, b'-', ParseErrorType::InvalidHeightChar)
    );

    let mut lines = blank_lines();
    lines[15] = String::from("000000000000000");
    assert_eq!(
        fault_of(&lines),
        fault(16, 16, b'\n', ParseErrorType::InvalidHeightChar)
    );
}

#[test]
fn leading_zero_is_found_at_the_zero() {
    let mut lines = blank_lines();
    lines[0] = String::from("(07)000000000000000");
    assert_eq!(
        fault_of(&lines),
        fault(1, 2, b'0', ParseErrorType::LeadingZero)
    );

    let mut lines = blank_lines();
    lines[4] = String::from("00(-07)0000000000000");
    assert_eq!(
        fault_of(&lines),
        fault(5, 5, b'0', ParseErrorType::LeadingZero)
    );

    let mut lines = blank_lines();
    lines[0] = String::from("(0)000000000000000");
    assert_eq!(
        fault_of(&lines),
        fault(1, 2, b'0', ParseErrorType::LeadingZero)
    );
}

#[test]
fn duplicate_negative_is_found_at_the_second_sign() {
    let mut lines = blank_lines();
    lines[0] = String::from("(--1)000000000000000");
    assert_eq!(
        fault_of(&lines),
        fault(1, 3, b'-', ParseErrorType::DuplicateNegative)
    );

    let mut lines = blank_lines();
    lines[9] = String::from("0(-1-)00000000000000");
    assert_eq!(
        fault_of(&lines),
        fault(10, 5, b'-', ParseErrorType::DuplicateNegative)
    );
}

#[test]
fn invalid_height_value_is_found_at_the_closing_parenthesis() {
    let mut lines = blank_lines();
    lines[0] = String::from("(51)000000000000000");
    assert_eq!(
        fault_of(&lines),
        fault(1, 4, b')', ParseErrorType::InvalidHeightValue)
    );

    let mut lines = blank_lines();
    lines[0] = String::from("0(-51)00000000000000");
    assert_eq!(
        fault_of(&lines),
        fault(1, 6, b')', ParseErrorType::InvalidHeightValue)
    );

    let mut lines = blank_lines();
    lines[0] = String::from("(99999999999999999999999)000000000000000");
    assert_eq!(
        fault_of(&lines),
        fault(1, 25, b')', ParseErrorType::InvalidHeightValue)
    );

    let mut lines = blank_lines();
    lines[0] = String::from("(256)000000000000000");
    assert_eq!(
        fault_of(&lines),
        fault(1, 5, b')', ParseErrorType::InvalidHeightValue)
    );

    let mut lines = blank_lines();
    lines[0] = String::from("(999z)000000000000000");
    assert_eq!(
        fault_of(&lines),
        fault(1, 5, b'z', ParseErrorType::InvalidHeightChar)
    );
}

#[test]
fn expected_newline_is_found_after_the_last_cell() {
    let mut lines = blank_lines();
    lines[0] = String::from("00000000000000000");
    assert_eq!(
        fault_of(&lines),
        fault(1, 17, b'0', ParseErrorType::ExpectedNewline)
    );

    let mut lines = blank_lines();
    lines[1] = String::from("(10)(10)00000000000000x");
    assert_eq!(
        fault_of(&lines),
        fault(2, 23, b'x', ParseErrorType::ExpectedNewline)
    );

    let mut lines = blank_lines();
    lines[16] = String::from("0000000000000000");
    assert_eq!(
        fault_of(&lines),
        fault(17, 1, b'0', ParseErrorType::ExpectedNewline)
    );

    let mut lines = blank_lines();
    lines[20] = String::from("0000000000000000n");
    assert_eq!(
        fault_of(&lines),
        fault(21, 17, b'n', ParseErrorType::ExpectedNewline)
    );
}

#[test]
fn invalid_prefab_is_found_where_it_stands() {
    let mut lines = blank_lines();
    lines[17] = String::from("x000000000000000");
    assert_eq!(
        fault_of(&lines),
        fault(18, 1, b'x', ParseErrorType::InvalidPrefab)
    );

    let mut lines = blank_lines();
    lines[32] = String::from("000000000000000N");
    assert_eq!(
        fault_of(&lines),
        fault(33, 16, b'N', ParseErrorType::InvalidPrefab)
    );

    let mut lines = blank_lines();
    lines[18] = String::from("0000(1)000000000");
    assert_eq!(
        fault_of(&lines),
        fault(19, 5, b'(', ParseErrorType::InvalidPrefab)
    );
}

#[test]
fn the_first_fault_is_the_one_reported() {
    let mut lines = blank_lines();
    lines[3] = String::from("000(--1)(07)z");
    lines[20] = String::from("x");
    assert_eq!(
        fault_of(&lines),
        fault(4, 6, b'-', ParseErrorType::DuplicateNegative)
    );
}

#[test]
fn a_text_that_stops_early_is_at_fault_where_it_stops() {
    assert_eq!(
        CyberGrindPattern::parse(b"").err(),
        Some(fault(1, 1, 0, ParseErrorType::InvalidHeightChar))
    );
    assert_eq!(
        CyberGrindPattern::parse(b"000").err(),
        Some(fault(1, 4, 0, ParseErrorType::InvalidHeightChar))
    );
    assert_eq!(
        CyberGrindPattern::parse(b"0000000000000000").err(),
        Some(fault(1, 17, 0, ParseErrorType::ExpectedNewline))
    );
    assert_eq!(
        CyberGrindPattern::parse(b"00(-4").err(),
        Some(fault(1, 6, 0, ParseErrorType::InvalidHeightChar))
    );

    let whole = text_of(&blank_lines());
    let heights = &whole.as_bytes()[..16 * 17];
    assert_eq!(
        CyberGrindPattern::parse(heights).err(),
        Some(fault(17, 1, 0, ParseErrorType::ExpectedNewline))
    );
    let with_one_prefab = &whole.as_bytes()[..16 * 17 + 2];
    assert_eq!(
        CyberGrindPattern::parse(with_one_prefab).err(),
        Some(fault(18, 2, 0, ParseErrorType::InvalidPrefab))
    );
    let without_last_newline = &whole.as_bytes()[..whole.len() - 1];
    assert_eq!(
        CyberGrindPattern::parse(without_last_newline).err(),
        Some(fault(33, 17, 0, ParseErrorType::ExpectedNewline))
    );
}

#[test]
fn check_for_newline_accepts_the_newline_only() {
    assert_eq!(CyberGrindPattern::check_for_newline(4, 17, b'\n'), Ok(()));
    assert_eq!(
        CyberGrindPattern::check_for_newline(4, 17, b'\r'),
        Err(fault(4, 17, b'\r', ParseErrorType::ExpectedNewline))
    );
}

#[test]
fn parse_parentheses_gives_the_height_and_the_place_it_ends() {
    assert_eq!(
        CyberGrindPattern::parse_parentheses(b"(-37)", 0, 1, 1),
        Ok((-37, 5, 4))
    );
    assert_eq!(
        CyberGrindPattern::parse_parentheses(b"00(12)0", 2, 9, 3),
        Ok((12, 6, 5))
    );
    assert_eq!(
        CyberGrindPattern::parse_parentheses(b"(50)", 0, 1, 1),
        Ok((50, 4, 3))
    );
    assert_eq!(
        CyberGrindPattern::parse_parentheses(b"(-50)", 0, 1, 1),
        Ok((-50, 5, 4))
    );
    assert_eq!(
        CyberGrindPattern::parse_parentheses(b"(07)", 0, 7, 20),
        Err(fault(7, 21, b'0', ParseErrorType::LeadingZero))
    );
    assert_eq!(
        CyberGrindPattern::parse_parentheses(b"(7", 0, 7, 20),
        Err(fault(7, 22, 0, ParseErrorType::InvalidHeightChar))
    );
    assert_eq!(
        CyberGrindPattern::parse_parentheses(b"(1)", 0, 7, 4294967295),
        Ok((1, 4294967295, 2))
    );
}
