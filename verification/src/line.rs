//! One line of output for each character: the selected attributes in
//! columns, then the character's name.

use crate::render::{lemma_code_point_text, lemma_encoding_text};
use crate::selector::Display;
use crate::text::{chars_of, push_repeat, repeat};
use crate::ucd::{name_of, unicode_name};
use vstd::prelude::*;
use vstd::string::*;

verus! {

/// The text of a field in its column: with spaces behind it up to `width`,
/// unless the line is `tight` or the field has no width. A text that is
/// longer than `width` is kept whole.
pub open spec fn padded(text: Seq<char>, width: Option<usize>, tight: bool) -> Seq<char> {
    match width {
        Some(width) if !tight && text.len() < width => text + repeat(
            ' ',
            (width - text.len()) as nat,
        ),
        _ => text,
    }
}

/// A field as it stands in a line: padded, then the one space that parts it
/// from what follows.
pub open spec fn column(text: Seq<char>, width: Option<usize>, tight: bool) -> Seq<char> {
    padded(text, width, tight).push(' ')
}

/// Appends the field `text` to the line `out`.
pub fn push_column(out: &mut String, text: &str, width: Option<usize>, tight: bool)
    ensures
        final(out)@ == old(out)@ + column(text@, width, tight),
{
    out.append(text);
    match width {
        Some(width) => {
            let len: usize = text.unicode_len();
            if !tight && len < width {
                push_repeat(out, ' ', width - len);
            }
        },
        None => {},
    }
    out.push(' ');
}

/// How a field is padded. The padded text begins with the field's text, and
/// all that follows it is spaces. In a tight line, and for a field without a
/// width, nothing follows it. Otherwise the padded text is as long as the
/// longer of the text and the width.
pub proof fn lemma_padded(text: Seq<char>, width: Option<usize>, tight: bool)
    ensures
        padded(text, width, tight).len() >= text.len(),
        padded(text, width, tight).take(text.len() as int) == text,
        forall|i: int|
            text.len() <= i < padded(text, width, tight).len() ==> #[trigger] padded(
                text,
                width,
                tight,
            )[i] == ' ',
        tight || width is None ==> padded(text, width, tight) == text,
        !tight ==> (width matches Some(w) ==> padded(text, width, tight).len() == if text.len()
            < w {
            w as nat
        } else {
            text.len()
        }),
{
}

/// A field in a line is its padded text and one space: in a tight line the
/// text and one space, and nothing else.
pub proof fn lemma_column(text: Seq<char>, width: Option<usize>, tight: bool)
    ensures
        column(text, width, tight).len() == padded(text, width, tight).len() + 1,
        column(text, width, tight).last() == ' ',
        column(text, width, tight).drop_last() == padded(text, width, tight),
        tight ==> column(text, width, tight) == text.push(' '),
        !tight ==> (width matches Some(w) ==> column(text, width, tight).len() >= w + 1),
{
}

/// The columns of the attributes `kinds` of `c`, one after the other.
pub open spec fn columns(kinds: Seq<Display>, c: char, tight: bool) -> Seq<char>
    decreases kinds.len(),
{
    if kinds.len() == 0 {
        Seq::empty()
    } else {
        columns(kinds.drop_last(), c, tight) + column(
            kinds.last().text(c),
            kinds.last().width(),
            tight,
        )
    }
}

/// The columns of a line stand in the order of the attributes: those of
/// `front`, then those of `back`.
pub proof fn lemma_columns_concat(front: Seq<Display>, back: Seq<Display>, c: char, tight: bool)
    ensures
        columns(front + back, c, tight) == columns(front, c, tight) + columns(back, c, tight),
    decreases back.len(),
{
    if back.len() == 0 {
        assert(front + back == front);
    } else {
        assert((front + back).drop_last() == front + back.drop_last());
        lemma_columns_concat(front, back.drop_last(), c, tight);
    }
}

/// The number of characters in the texts of the attributes `kinds` of `c`.
pub open spec fn texts_len(kinds: Seq<Display>, c: char) -> nat
    decreases kinds.len(),
{
    if kinds.len() == 0 {
        0
    } else {
        texts_len(kinds.drop_last(), c) + kinds.last().text(c).len()
    }
}

/// In a tight line the columns are as long as the texts of the fields and one
/// space for each of them.
pub proof fn lemma_columns_tight(kinds: Seq<Display>, c: char)
    ensures
        columns(kinds, c, true).len() == texts_len(kinds, c) + kinds.len(),
    decreases kinds.len(),
{
    if kinds.len() > 0 {
        lemma_columns_tight(kinds.drop_last(), c);
    }
}

/// Whether the text of the attribute `kind` of `c` fits into the width of
/// that attribute.
pub open spec fn fits(kind: Display, c: char) -> bool {
    match kind.width() {
        Some(width) => kind.text(c).len() <= width,
        None => false,
    }
}

/// The code point and the encoding of every character fit into their
/// widths: `U+` and six digits at most, two brackets and four bytes at most.
pub proof fn lemma_code_point_and_encoding_fit(c: char)
    ensures
        fits(Display::CodePoint, c),
        fits(Display::Encoding, c),
{
    lemma_code_point_text(c as u32);
    lemma_encoding_text(c);
}

/// The widths of the attributes `kinds`, and one space for each.
pub open spec fn widths_len(kinds: Seq<Display>) -> nat
    decreases kinds.len(),
{
    if kinds.len() == 0 {
        0
    } else {
        widths_len(kinds.drop_last()) + match kinds.last().width() {
            Some(width) => width as nat + 1,
            None => 1,
        }
    }
}

/// Where every field fits into its width, the columns of a line that is not
/// tight are as long as the widths and one space for each, whatever the
/// character: the fields of such lines stand one below the other.
pub proof fn lemma_columns_aligned(kinds: Seq<Display>, c: char)
    requires
        forall|k: int| 0 <= k < kinds.len() ==> fits(#[trigger] kinds[k], c),
    ensures
        columns(kinds, c, false).len() == widths_len(kinds),
    decreases kinds.len(),
{
    if kinds.len() > 0 {
        assert(fits(kinds.last(), c));
        assert forall|k: int| 0 <= k < kinds.drop_last().len() implies fits(
            #[trigger] kinds.drop_last()[k],
            c,
        ) by {
            assert(kinds.drop_last()[k] == kinds[k]);
        }
        lemma_columns_aligned(kinds.drop_last(), c);
    }
}

/// The part of a line that names the character: a bar and a space, then the
/// name, or the words that say that there is none.
pub open spec fn name_text(name: Option<Seq<char>>) -> Seq<char> {
    match name {
        Some(name) => "| "@ + name,
        None => "| (unknown name)"@,
    }
}

/// Renders the part of a line that names the character.
pub fn render_name(name: Option<&str>) -> (r: String)
    ensures
        r@ == name_text(chars_of(name)),
{
    match name {
        Some(name) => {
            let mut r = "| ".to_owned();
            r.append(name);
            r
        },
        None => "| (unknown name)".to_owned(),
    }
}

/// The line for the character `c`: its columns, its name unless `no_name` is
/// set, and a line break.
pub open spec fn line(c: char, kinds: Seq<Display>, no_name: bool, tight: bool) -> Seq<char> {
    let name = if no_name {
        Seq::empty()
    } else {
        name_text(unicode_name(c))
    };
    (columns(kinds, c, tight) + name).push('\n')
}

/// A line without attributes holds the name alone, or nothing; every line
/// ends in a line break.
pub proof fn lemma_line(c: char, kinds: Seq<Display>, no_name: bool, tight: bool)
    ensures
        line(c, kinds, no_name, tight).last() == '\n',
        kinds.len() == 0 && no_name ==> line(c, kinds, no_name, tight) == seq!['\n'],
        kinds.len() == 0 && !no_name ==> line(c, kinds, no_name, tight) == name_text(
            unicode_name(c),
        ).push('\n'),
        no_name ==> line(c, kinds, no_name, tight) == columns(kinds, c, tight).push('\n'),
{
}

/// Renders the line for the character `c`.
pub fn info_line(c: char, fmts: &[Display], no_name: bool, tight: bool) -> (r: String)
    ensures
        r@ == line(c, fmts@, no_name, tight),
{
    let mut r = String::new();
    let mut i: usize = 0;
    while i < fmts.len()
        invariant
            i <= fmts.len(),
            r@ == columns(fmts@.take(i as int), c, tight),
        decreases fmts.len() - i,
    {
        let info = fmts[i].info_for(c);
        push_column(&mut r, info.as_str(), fmts[i].pad_to(), tight);
        assert(fmts@.take(i + 1).drop_last() == fmts@.take(i as int));
        i = i + 1;
    }
    assert(fmts@.take(i as int) == fmts@);
    if !no_name {
        let name = match name_of(c) {
            Some(name) => render_name(Some(name.as_str())),
            None => render_name(None),
        };
        r.append(name.as_str());
    }
    r.push('\n');
    r
}

/// The lines for the characters of `text`, in their order.
pub open spec fn lines(text: Seq<char>, kinds: Seq<Display>, no_name: bool, tight: bool) -> Seq<
    char,
>
    decreases text.len(),
{
    if text.len() == 0 {
        Seq::empty()
    } else {
        lines(text.drop_last(), kinds, no_name, tight) + line(text.last(), kinds, no_name, tight)
    }
}

/// The lines of a text stand in the order of its characters: those of
/// `front`, then those of `back`.
pub proof fn lemma_lines_concat(
    front: Seq<char>,
    back: Seq<char>,
    kinds: Seq<Display>,
    no_name: bool,
    tight: bool,
)
    ensures
        lines(front + back, kinds, no_name, tight) == lines(front, kinds, no_name, tight) + lines(
            back,
            kinds,
            no_name,
            tight,
        ),
    decreases back.len(),
{
    if back.len() == 0 {
        assert(front + back == front);
    } else {
        assert((front + back).drop_last() == front + back.drop_last());
        lemma_lines_concat(front, back.drop_last(), kinds, no_name, tight);
    }
}

/// Renders one line for each character of `text`.
pub fn info_lines(text: &str, fmts: &[Display], no_name: bool, tight: bool) -> (r: String)
    ensures
        r@ == lines(text@, fmts@, no_name, tight),
{
    let mut r = String::new();
    for c in it: text.chars()
        invariant
            it.seq() == text@,
            r@ == lines(text@.take(it.index() as int), fmts@, no_name, tight),
    {
        let one = info_line(c, fmts, no_name, tight);
        r.append(one.as_str());
        assert(text@.take(it.index() + 1).drop_last() == text@.take(it.index() as int));
    }
    assert(text@.take(text@.len() as int) == text@);
    r
}

} // verus!
