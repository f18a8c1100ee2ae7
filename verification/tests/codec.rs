use rs2sky::codec::{parse_u32_chars, split_chars, str_chars, u32_to_chars};

#[test]
fn decimal_numerals_round_trip() {
    for n in [0u32, 1, 7, 9, 10, 42, 100, 4096, 65535, 4294967295] {
        let chars = u32_to_chars(n);
        let printed: String = chars.iter().collect();
        assert_eq!(printed, n.to_string());
        assert_eq!(parse_u32_chars(&chars), Some(n));
    }
}

#[test]
fn decimal_parse_rejects_what_is_not_a_numeral() {
    let cases = ["", "-", "4294967296", "99999999999", "x", "12x", " 1", "+1"];
    for case in cases {
        assert_eq!(parse_u32_chars(&case.chars().collect::<Vec<char>>()), None);
    }
    assert_eq!(parse_u32_chars(&"007".chars().collect::<Vec<char>>()), Some(7));
}

#[test]
fn splitting_keeps_every_field() {
    let chars = str_chars("a-b--c");
    let pieces = split_chars(&chars, '-');
    let views: Vec<String> = pieces.iter().map(|p| p.iter().collect()).collect();
    assert_eq!(views, vec!["a", "b", "", "c"]);

    let only = split_chars(&str_chars("plain"), '-');
    assert_eq!(only.len(), 1);

    let empty = split_chars(&str_chars(""), '-');
    assert_eq!(empty.len(), 1);
    assert_eq!(empty[0].len(), 0);
}
