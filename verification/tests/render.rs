use unicode_info::render::{
    case_flags_of, render_age, render_block, render_case, render_code_point, render_encoding,
};
use unicode_info::selector::Display;
use unicode_info::ucd::Version;

#[test]
fn code_point_of_a_letter() {
    assert_eq!(render_code_point('A'), "U+0041");
    assert_eq!(Display::CodePoint.info_for('A'), "U+0041");
}

#[test]
fn code_point_has_at_least_four_digits() {
    assert_eq!(render_code_point('\u{0}'), "U+0000");
    assert_eq!(render_code_point('\u{e9}'), "U+00E9");
    assert_eq!(render_code_point('\u{e621}'), "U+E621");
    assert_eq!(render_code_point('\u{ffff}'), "U+FFFF");
}

#[test]
fn code_point_has_an_even_number_of_digits() {
    assert_eq!(render_code_point('\u{1f600}'), "U+01F600");
    assert_eq!(render_code_point('\u{10000}'), "U+010000");
    assert_eq!(render_code_point('\u{10ffff}'), "U+10FFFF");
}

#[test]
fn code_point_twice_is_the_same_text() {
    for c in ['A', '\u{e9}', '\u{1f600}'] {
        assert_eq!(render_code_point(c), render_code_point(c));
        assert_eq!(Display::CodePoint.info_for(c), render_code_point(c));
    }
}

#[test]
fn code_points_in_order_give_texts_in_order() {
    let chars = ['\u{0}', 'A', 'a', '\u{e9}', '\u{e621}', '\u{ffff}', '\u{10000}', '\u{1f600}'];
    for pair in chars.windows(2) {
        let a = render_code_point(pair[0]);
        let b = render_code_point(pair[1]);
        assert!((a.len(), a.as_str()) < (b.len(), b.as_str()));
    }
}

#[test]
fn encoding_of_one_byte() {
    assert_eq!(render_encoding('A'), "<41>");
    assert_eq!(render_encoding('\u{0}'), "<00>");
    assert_eq!(render_encoding('\u{7f}'), "<7f>");
}

#[test]
fn encoding_of_two_bytes() {
    assert_eq!(render_encoding('\u{e9}'), "<c3a9>");
    assert_eq!(render_encoding('\u{80}'), "<c280>");
    assert_eq!(render_encoding('\u{7ff}'), "<dfbf>");
}

#[test]
fn encoding_of_three_bytes() {
    assert_eq!(render_encoding('\u{e621}'), "<ee98a1>");
    assert_eq!(render_encoding('\u{800}'), "<e0a080>");
    assert_eq!(render_encoding('\u{ffff}'), "<efbfbf>");
}

#[test]
fn encoding_of_four_bytes() {
    assert_eq!(render_encoding('\u{1f600}'), "<f09f9880>");
    assert_eq!(render_encoding('\u{10000}'), "<f0908080>");
    assert_eq!(render_encoding('\u{10ffff}'), "<f48fbfbf>");
}

#[test]
fn encoding_has_two_digits_for_each_byte() {
    for c in ['A', '\u{e9}', '\u{e621}', '\u{1f600}'] {
        assert_eq!(render_encoding(c).len(), 2 + 2 * c.len_utf8());
        assert_eq!(Display::Encoding.info_for(c), render_encoding(c));
    }
}

#[test]
fn age_of_a_version() {
    assert_eq!(render_age(Some(Version { major: 1, minor: 1, micro: 0 })), "v1.1.0");
    assert_eq!(render_age(Some(Version { major: 10, minor: 0, micro: 0 })), "v10.0.0");
    assert_eq!(render_age(Some(Version { major: 12, minor: 34, micro: 56 })), "v12.34.56");
    assert_eq!(render_age(Some(Version { major: 0, minor: 0, micro: 0 })), "v0.0.0");
    assert_eq!(
        render_age(Some(Version { major: 65535, minor: 100, micro: 9 })),
        "v65535.100.9"
    );
}

#[test]
fn age_that_is_unknown() {
    assert_eq!(render_age(None), "(unknown version)");
}

#[test]
fn age_of_characters() {
    assert_eq!(Display::Age.info_for('A'), "v1.1.0");
    assert_eq!(Display::Age.info_for('\u{ac00}'), "v2.0.0");
    assert_eq!(Display::Age.info_for('\u{2a00}'), "v3.2.0");
    assert_eq!(Display::Age.info_for('\u{1f600}'), "v6.1.0");
    assert_eq!(Display::Age.info_for('\u{860}'), "v10.0.0");
}

#[test]
fn age_of_an_unassigned_character() {
    assert_eq!(Display::Age.info_for('\u{30000}'), "(unknown version)");
    assert_eq!(Display::Age.info_for('\u{2fe0}'), "(unknown version)");
}

#[test]
fn category_of_characters() {
    assert_eq!(Display::Category.info_for('A'), "Lu");
    assert_eq!(Display::Category.info_for('a'), "Ll");
    assert_eq!(Display::Category.info_for('\u{1c5}'), "Lt");
    assert_eq!(Display::Category.info_for('1'), "Nd");
    assert_eq!(Display::Category.info_for(' '), "Zs");
    assert_eq!(Display::Category.info_for('\u{0}'), "Cc");
    assert_eq!(Display::Category.info_for('\u{e621}'), "Co");
    assert_eq!(Display::Category.info_for('\u{1f600}'), "So");
    assert_eq!(Display::Category.info_for('\u{345}'), "Mn");
}

#[test]
fn category_of_an_unassigned_character() {
    assert_eq!(Display::Category.info_for('\u{30000}'), "Cn");
}

#[test]
fn block_of_a_name() {
    assert_eq!(render_block(Some("Basic Latin")), "[Basic Latin]");
    assert_eq!(render_block(Some("")), "[]");
}

#[test]
fn block_that_is_unknown() {
    assert_eq!(render_block(None), "(unknown block)");
}

#[test]
fn block_of_characters() {
    assert_eq!(Display::Block.info_for('A'), "[Basic Latin]");
    assert_eq!(Display::Block.info_for('\u{e9}'), "[Latin-1 Supplement]");
    assert_eq!(Display::Block.info_for('\u{e621}'), "[Private Use Area]");
    assert_eq!(Display::Block.info_for('\u{1f600}'), "[Emoticons]");
    assert_eq!(Display::Block.info_for('\u{2a00}'), "[Supplemental Mathematical Operators]");
}

#[test]
fn block_of_a_character_outside_every_block() {
    assert_eq!(Display::Block.info_for('\u{2fe0}'), "(unknown block)");
    assert_eq!(Display::Block.info_for('\u{870}'), "(unknown block)");
}

#[test]
fn case_of_no_property() {
    assert_eq!(render_case(&[false; 9]), "(         )");
}

#[test]
fn case_of_every_property() {
    assert_eq!(render_case(&[true; 9]), "(icfmlutLU)");
}

#[test]
fn case_has_one_letter_for_each_place() {
    let letters = ['i', 'c', 'f', 'm', 'l', 'u', 't', 'L', 'U'];
    for place in 0..9 {
        let mut flags = [false; 9];
        flags[place] = true;
        let text: Vec<char> = render_case(&flags).chars().collect();
        assert_eq!(text.len(), 11);
        assert_eq!(text[0], '(');
        assert_eq!(text[10], ')');
        for other in 0..9 {
            let expected = if other == place { letters[place] } else { ' ' };
            assert_eq!(text[other + 1], expected);
        }
    }
}

#[test]
fn case_of_some_properties() {
    let flags = [false, true, false, true, false, true, true, true, false];
    assert_eq!(render_case(&flags), "( c m utL )");
}

#[test]
fn case_flags_of_characters() {
    assert_eq!(
        case_flags_of('a'),
        [false, true, false, true, false, true, true, true, false]
    );
    assert_eq!(
        case_flags_of('A'),
        [false, true, true, true, true, false, false, false, true]
    );
    assert_eq!(
        case_flags_of('\u{345}'),
        [true, true, true, true, false, true, true, true, false]
    );
    assert_eq!(case_flags_of('1'), [false; 9]);
}

#[test]
fn case_of_characters() {
    assert_eq!(Display::Case.info_for('a'), "( c m utL )");
    assert_eq!(Display::Case.info_for('A'), "( cfml   U)");
    assert_eq!(Display::Case.info_for('\u{1c5}'), "( cfmlu   )");
    assert_eq!(Display::Case.info_for('\u{df}'), "( cfm utL )");
    assert_eq!(Display::Case.info_for('\u{345}'), "(icfm utL )");
    assert_eq!(Display::Case.info_for('1'), "(         )");
}
