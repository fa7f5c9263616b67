use unicode_info::line::{info_line, info_lines, push_column, render_name};
use unicode_info::selector::{parse_format, Display};

fn column(text: &str, width: Option<usize>, tight: bool) -> String {
    let mut out = String::new();
    push_column(&mut out, text, width, tight);
    out
}

#[test]
fn column_is_padded_to_its_width() {
    assert_eq!(column("U+0041", Some(8), false), "U+0041   ");
    assert_eq!(column("<41>", Some(10), false), "<41>       ");
    assert_eq!(column("", Some(3), false), "    ");
}

#[test]
fn column_of_a_full_field_has_one_space() {
    assert_eq!(column("Ll", Some(2), false), "Ll ");
    assert_eq!(column("U+01F600", Some(8), false), "U+01F600 ");
}

#[test]
fn column_of_a_long_field_is_kept_whole() {
    assert_eq!(
        column("[Supplemental Mathematical Operators]", Some(25), false),
        "[Supplemental Mathematical Operators] "
    );
    assert_eq!(column("(unknown version)", Some(6), false), "(unknown version) ");
}

#[test]
fn column_without_a_width_is_not_padded() {
    assert_eq!(column("( c m utL )", None, false), "( c m utL ) ");
    assert_eq!(column("( c m utL )", None, true), "( c m utL ) ");
}

#[test]
fn column_in_a_tight_line_is_not_padded() {
    assert_eq!(column("U+0041", Some(8), true), "U+0041 ");
    assert_eq!(column("<41>", Some(10), true), "<41> ");
    assert_eq!(column("", Some(3), true), " ");
}

#[test]
fn column_counts_characters_not_bytes() {
    assert_eq!(column("\u{e9}\u{e9}", Some(4), false), "\u{e9}\u{e9}   ");
}

#[test]
fn column_is_appended() {
    let mut out = String::from("U+0041   ");
    push_column(&mut out, "<41>", Some(10), false);
    assert_eq!(out, "U+0041   <41>       ");
}

#[test]
fn name_of_a_character() {
    assert_eq!(render_name(Some("LATIN CAPITAL LETTER A")), "| LATIN CAPITAL LETTER A");
    assert_eq!(render_name(Some("")), "| ");
}

#[test]
fn name_that_is_unknown() {
    assert_eq!(render_name(None), "| (unknown name)");
}

#[test]
fn line_with_code_point_and_encoding() {
    let fmts = parse_format("pe").unwrap();
    assert_eq!(
        info_line('A', &fmts, false, false),
        "U+0041   <41>       | LATIN CAPITAL LETTER A\n"
    );
}

#[test]
fn line_with_the_usual_format() {
    let fmts = parse_format("pecb").unwrap();
    assert_eq!(
        info_line('A', &fmts, false, false),
        "U+0041   <41>       Lu [Basic Latin]             | LATIN CAPITAL LETTER A\n"
    );
    assert_eq!(
        info_line('\u{1f600}', &fmts, false, false),
        "U+01F600 <f09f9880> So [Emoticons]               | GRINNING FACE\n"
    );
}

#[test]
fn line_with_every_attribute() {
    let fmts = parse_format("peacbC").unwrap();
    assert_eq!(
        info_line('a', &fmts, false, false),
        "U+0061   <61>       v1.1.0 Ll [Basic Latin]             ( c m utL ) | LATIN SMALL LETTER A\n"
    );
}

#[test]
fn line_that_is_tight() {
    let fmts = parse_format("pecb").unwrap();
    assert_eq!(
        info_line('A', &fmts, false, true),
        "U+0041 <41> Lu [Basic Latin] | LATIN CAPITAL LETTER A\n"
    );
}

#[test]
fn line_without_the_name() {
    let fmts = parse_format("pe").unwrap();
    assert_eq!(info_line('A', &fmts, true, false), "U+0041   <41>       \n");
    assert_eq!(info_line('A', &fmts, true, true), "U+0041 <41> \n");
}

#[test]
fn line_without_attributes() {
    assert_eq!(info_line('A', &[], false, false), "| LATIN CAPITAL LETTER A\n");
    assert_eq!(info_line('A', &[], false, true), "| LATIN CAPITAL LETTER A\n");
    assert_eq!(info_line('A', &[], true, false), "\n");
}

#[test]
fn line_with_a_repeated_attribute() {
    let fmts = parse_format("pcp").unwrap();
    assert_eq!(
        info_line('a', &fmts, false, false),
        "U+0061   Ll U+0061   | LATIN SMALL LETTER A\n"
    );
}

#[test]
fn line_keeps_the_order_of_the_format() {
    let fmts = parse_format("cep").unwrap();
    assert_eq!(
        info_line('\u{e9}', &fmts, false, false),
        "Ll <c3a9>     U+00E9   | LATIN SMALL LETTER E WITH ACUTE\n"
    );
}

#[test]
fn line_of_a_character_without_a_name() {
    assert_eq!(
        info_line('\u{0}', &[Display::CodePoint], false, false),
        "U+0000   | (unknown name)\n"
    );
    assert_eq!(
        info_line('\u{e621}', &[Display::CodePoint, Display::Block], false, false),
        "U+E621   [Private Use Area]        | (unknown name)\n"
    );
}

#[test]
fn line_of_a_character_with_a_made_name() {
    assert_eq!(info_line('\u{ac00}', &[], false, false), "| HANGUL SYLLABLE GA\n");
    assert_eq!(info_line('\u{4e00}', &[], false, false), "| CJK UNIFIED IDEOGRAPH-4E00\n");
}

#[test]
fn line_of_an_unassigned_character() {
    let fmts = parse_format("pacb").unwrap();
    assert_eq!(
        info_line('\u{2fe0}', &fmts, false, false),
        "U+2FE0   (unknown version) Cn (unknown block)           | (unknown name)\n"
    );
    assert_eq!(
        info_line('\u{2fe0}', &fmts, true, true),
        "U+2FE0 (unknown version) Cn (unknown block) \n"
    );
}

#[test]
fn line_with_a_block_longer_than_its_column() {
    assert_eq!(
        info_line('\u{2a00}', &[Display::Block, Display::Category], true, false),
        "[Supplemental Mathematical Operators] Sm \n"
    );
}

#[test]
fn lines_of_a_text() {
    let fmts = parse_format("pe").unwrap();
    assert_eq!(
        info_lines("Aa", &fmts, false, false),
        "U+0041   <41>       | LATIN CAPITAL LETTER A\nU+0061   <61>       | LATIN SMALL LETTER A\n"
    );
}

#[test]
fn lines_of_one_character() {
    let fmts = parse_format("pe").unwrap();
    let text = info_lines("A", &fmts, false, false);
    assert!(text.starts_with("U+0041   <41>       | LATIN CAPITAL LETTER A"));
    assert_eq!(text, info_line('A', &fmts, false, false));
}

#[test]
fn lines_of_an_empty_text() {
    let fmts = parse_format("pe").unwrap();
    assert_eq!(info_lines("", &fmts, false, false), "");
}

#[test]
fn lines_take_each_scalar_value_by_itself() {
    let fmts = parse_format("p").unwrap();
    assert_eq!(info_lines("e\u{301}", &fmts, true, true), "U+0065 \nU+0301 \n");
    assert_eq!(info_lines("\u{1f600}a", &fmts, true, true), "U+01F600 \nU+0061 \n");
}
