use folsum::text::{
    char_is_white_space, copy_range, count_char, find_char, string_of, text_chars, trim_bounds,
};

#[test]
fn white_space_is_what_std_trims() {
    for code in 0..=0x10FFFFu32 {
        if let Some(c) = char::from_u32(code) {
            assert_eq!(char_is_white_space(c), c.is_whitespace(), "U+{:04X}", code);
        }
    }
}

#[test]
fn characters_of_a_text() {
    assert_eq!(text_chars(""), Vec::<char>::new());
    assert_eq!(text_chars("a,b"), vec!['a', ',', 'b']);
    assert_eq!(text_chars("é😱"), vec!['é', '😱']);
}

#[test]
fn text_of_characters() {
    let chars = text_chars("hello, world");
    assert_eq!(string_of(&chars, 0, chars.len()), "hello, world");
    assert_eq!(string_of(&chars, 7, 12), "world");
    assert_eq!(string_of(&chars, 5, 5), "");
    assert_eq!(copy_range(&chars, 0, 5), vec!['h', 'e', 'l', 'l', 'o']);
}

#[test]
fn first_occurrence_of_a_character() {
    let chars = text_chars("a,b,c");
    assert_eq!(find_char(&chars, 0, ','), 1);
    assert_eq!(find_char(&chars, 1, ','), 1);
    assert_eq!(find_char(&chars, 2, ','), 3);
    assert_eq!(find_char(&chars, 4, ','), 5);
    assert_eq!(find_char(&chars, 5, ','), 5);
    assert_eq!(find_char(&chars, 0, ';'), 5);
}

#[test]
fn occurrences_of_a_character() {
    assert_eq!(count_char(&text_chars(""), ','), 0);
    assert_eq!(count_char(&text_chars("abc"), ','), 0);
    assert_eq!(count_char(&text_chars("a,b"), ','), 1);
    assert_eq!(count_char(&text_chars(",a,,b,"), ','), 4);
}

#[test]
fn trimming_is_std_trimming() {
    let samples = [
        "",
        " ",
        "a",
        "  a b  ",
        "\t\r\n x \u{3000}\u{a0}",
        "\u{2003}é \u{85}",
        "no space",
        " \u{200b} ",
        "\u{1680}\u{2028}\u{2029}\u{202f}\u{205f}",
    ];
    for sample in samples {
        let chars = text_chars(sample);
        let (from, to) = trim_bounds(&chars, 0, chars.len());
        assert_eq!(string_of(&chars, from, to), sample.trim(), "{:?}", sample);
    }
}

#[test]
fn trimming_a_part() {
    let chars = text_chars("ab  cd  ,  ef ");
    assert_eq!(trim_bounds(&chars, 2, 8), (4, 6));
    assert_eq!(trim_bounds(&chars, 9, 14), (11, 13));
    assert_eq!(trim_bounds(&chars, 2, 4), (4, 4));
}
