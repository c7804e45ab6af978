use no_bat_simulator::text::{
    chars_of, drop_last_char, parse_i32, same_chars, split_fields, string_of,
};

fn chars(text: &str) -> Vec<char> {
    text.chars().collect()
}

#[test]
fn chars_of_a_string() {
    assert_eq!(chars_of(""), Vec::<char>::new());
    assert_eq!(chars_of("BCFX"), vec!['B', 'C', 'F', 'X']);
    assert_eq!(chars_of("é1"), vec!['é', '1']);
}

#[test]
fn fields_between_separators() {
    assert_eq!(split_fields(&chars("play,1,0"), ','), vec![chars("play"), chars("1"), chars("0")]);
    assert_eq!(split_fields(&chars("abc"), ','), vec![chars("abc")]);
}

#[test]
fn empty_text_is_one_empty_field() {
    assert_eq!(split_fields(&chars(""), ','), vec![chars("")]);
}

#[test]
fn separators_at_the_ends_make_empty_fields() {
    assert_eq!(split_fields(&chars(",a,,b,"), ','), vec![
        chars(""),
        chars("a"),
        chars(""),
        chars("b"),
        chars("")
    ]);
    assert_eq!(split_fields(&chars("//"), '/'), vec![chars(""), chars(""), chars("")]);
}

#[test]
fn split_agrees_with_the_standard_library() {
    for text in ["", ",", "a,b", "info,date,2023/04/01", ",,x,,", "no separator", "a\tb,c"] {
        let expected: Vec<Vec<char>> = text.split(',').map(|field| field.chars().collect()).collect();
        assert_eq!(split_fields(&chars(text), ','), expected);
    }
}

#[test]
fn decimal_integers() {
    assert_eq!(parse_i32(&chars("0")), Some(0));
    assert_eq!(parse_i32(&chars("2023")), Some(2023));
    assert_eq!(parse_i32(&chars("007")), Some(7));
    assert_eq!(parse_i32(&chars("+15")), Some(15));
    assert_eq!(parse_i32(&chars("-15")), Some(-15));
    assert_eq!(parse_i32(&chars("-0")), Some(0));
    assert_eq!(parse_i32(&chars("2147483647")), Some(i32::MAX));
    assert_eq!(parse_i32(&chars("-2147483648")), Some(i32::MIN));
}

#[test]
fn text_that_is_no_integer() {
    for text in ["", "+", "-", "--1", "+-1", "1-", "1 ", " 1", "1.0", "1e3", "0x10", "١٢", "12a"] {
        assert_eq!(parse_i32(&chars(text)), None);
    }
}

#[test]
fn integers_out_of_range() {
    assert_eq!(parse_i32(&chars("2147483648")), None);
    assert_eq!(parse_i32(&chars("+2147483648")), None);
    assert_eq!(parse_i32(&chars("-2147483649")), None);
    assert_eq!(parse_i32(&chars("99999999999999999999999999999999999999")), None);
    assert_eq!(parse_i32(&chars("-99999999999999999999999999999999999999")), None);
}

#[test]
fn parse_agrees_with_the_standard_library() {
    for text in
        ["0", "-1", "+1", "12345", "2147483647", "2147483648", "-2147483648", "-2147483649", "", "x", "+", "00"]
    {
        assert_eq!(parse_i32(&chars(text)), text.parse::<i32>().ok());
    }
}

#[test]
fn string_of_characters() {

    assert_eq!(string_of(&chars("")), "");
    assert_eq!(string_of(&chars("S7/G")), "S7/G");
    assert_eq!(string_of(&vec!['é', ' ', '1']), "é 1");
}

#[test]
fn vectors_with_the_same_characters() {

    assert!(same_chars(&chars(""), &chars("")));
    assert!(same_chars(&chars("play"), &chars("play")));
    assert!(!same_chars(&chars("play"), &chars("plaY")));
    assert!(!same_chars(&chars("play"), &chars("pla")));
    assert!(!same_chars(&chars(""), &chars("x")));
    assert!(!same_chars(&chars("xlay"), &chars("play")));
}

#[test]
fn text_without_its_last_character() {

    assert_eq!(drop_last_char(&chars("")), chars(""));
    assert_eq!(drop_last_char(&chars("x")), chars(""));
    assert_eq!(drop_last_char(&chars("41.2%")), chars("41.2"));
}

#[test]
fn fields_hold_no_separator_and_join_back() {
    for text in ["", ",", "a,b", "info,date,2023/04/01", ",,x,,", "no separator"] {
        let fields = split_fields(&chars(text), ',');
        assert!(fields.iter().all(|field| !field.contains(&',')));
        let joined: Vec<String> = fields.iter().map(|field| field.iter().collect()).collect();
        assert_eq!(joined.join(","), text);
    }
}
