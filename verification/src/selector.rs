//! The attributes that can be shown, and the format string that selects them.

use vstd::prelude::*;
use vstd::std_specs::convert::TryFromSpecImpl;

verus! {

/// One attribute of a character that a line can show.
#[derive(Clone, Copy, Debug, PartialEq, Eq, Structural)]
pub enum Display {
    CodePoint,
    Encoding,
    Age,
    Category,
    Block,
    Case,
}

/// The attribute that the format character `ch` selects, if any.
pub open spec fn selector_kind(ch: char) -> Option<Display> {
    if ch == 'p' {
        Some(Display::CodePoint)
    } else if ch == 'e' {
        Some(Display::Encoding)
    } else if ch == 'a' {
        Some(Display::Age)
    } else if ch == 'c' {
        Some(Display::Category)
    } else if ch == 'b' {
        Some(Display::Block)
    } else if ch == 'C' {
        Some(Display::Case)
    } else {
        None
    }
}

impl TryFrom<char> for Display {
    type Error = char;

    /// Reads one format character; a character that selects nothing is handed
    /// back as the error.
    fn try_from(value: char) -> (r: Result<Self, Self::Error>) {
        match value {
            'p' => Ok(Display::CodePoint),
            'e' => Ok(Display::Encoding),
            'a' => Ok(Display::Age),
            'c' => Ok(Display::Category),
            'b' => Ok(Display::Block),
            'C' => Ok(Display::Case),
            x => Err(x),
        }
    }
}

impl TryFromSpecImpl<char> for Display {
    open spec fn obeys_try_from_spec() -> bool {
        true
    }

    open spec fn try_from_spec(v: char) -> Result<Self, Self::Error> {
        match selector_kind(v) {
            Some(kind) => Ok(kind),
            None => Err(v),
        }
    }
}

impl Display {
    /// The column width of this attribute, where it has one.
    pub open spec fn width(self) -> Option<usize> {
        match self {
            Display::CodePoint => Some(8),
            Display::Encoding => Some(10),
            Display::Age => Some(6),
            Display::Category => Some(2),
            Display::Block => Some(25),
            Display::Case => None,
        }
    }

    /// The width to which this attribute's text is padded, or `None` for an
    /// attribute that is never padded.
    pub fn pad_to(&self) -> (r: Option<usize>)
        ensures
            r == self.width(),
    {
        match self {
            Display::CodePoint => Some(8),
            Display::Encoding => Some(10),
            Display::Age => Some(6),
            Display::Category => Some(2),
            Display::Block => Some(25),
            Display::Case => None,
        }
    }
}

/// Whether every character of `format` selects an attribute.
pub open spec fn is_format(format: Seq<char>) -> bool {
    forall|i: int| 0 <= i < format.len() ==> selector_kind(#[trigger] format[i]) is Some
}

/// Whether `i` is the place of the first character of `format` that selects
/// nothing.
pub open spec fn first_unknown(format: Seq<char>, i: int) -> bool {
    &&& 0 <= i < format.len()
    &&& selector_kind(format[i]) is None
    &&& is_format(format.take(i))
}

/// The attributes that the characters of `format` select, in their order.
pub open spec fn selected(format: Seq<char>) -> Seq<Display> {
    Seq::new(format.len(), |i: int| selector_kind(format[i]).unwrap())
}

/// The format characters stand one to one for the attributes.
pub proof fn lemma_selector_table(ch: char, other: char)
    ensures
        selector_kind(ch) is Some <==> (ch == 'p' || ch == 'e' || ch == 'a' || ch == 'c' || ch
            == 'b' || ch == 'C'),
        selector_kind(ch) is Some && selector_kind(ch) == selector_kind(other) ==> ch == other,
{
}

/// A format made of format characters alone selects as many attributes as it
/// has characters, each the attribute of the character at its place.
pub proof fn lemma_selected(format: Seq<char>)
    requires
        is_format(format),
    ensures
        selected(format).len() == format.len(),
        forall|i: int|
            0 <= i < format.len() ==> selector_kind(format[i]) == Some(
                #[trigger] selected(format)[i],
            ),
        forall|i: int| !first_unknown(format, i),
{
}

/// A format with a character that selects nothing has exactly one first such
/// character, at or before any other.
pub proof fn lemma_first_unknown(format: Seq<char>, at: int)
    requires
        0 <= at < format.len(),
        selector_kind(format[at]) is None,
    ensures
        !is_format(format),
        exists|i: int| 0 <= i <= at && first_unknown(format, i),
        forall|i: int, j: int| first_unknown(format, i) && first_unknown(format, j) ==> i == j,
    decreases at,
{
    assert forall|i: int, j: int| first_unknown(format, i) && first_unknown(format, j) implies i
        == j by {
        if i < j {
            assert(format.take(j)[i] == format[i]);
        }
        if j < i {
            assert(format.take(i)[j] == format[j]);
        }
    }
    if is_format(format.take(at)) {
        assert(first_unknown(format, at));
    } else {
        let k = choose|k: int| 0 <= k < at && selector_kind(#[trigger] format.take(at)[k]) is None;
        lemma_first_unknown(format, k);
    }
}

/// Reads a format string: one attribute for each character, in the order of
/// the characters, repeats included. The first character that selects
/// nothing ends the reading and is returned as the error.
pub fn parse_format(format: &str) -> (r: Result<Vec<Display>, char>)
    ensures
        r is Ok <==> is_format(format@),
        match r {
            Ok(kinds) => kinds@ == selected(format@),
            Err(ch) => exists|i: int| first_unknown(format@, i) && format@[i] == ch,
        },
{
    let mut kinds: Vec<Display> = Vec::new();
    for ch in it: format.chars()
        invariant
            it.seq() == format@,
            is_format(format@.take(it.index() as int)),
            kinds@ == selected(format@.take(it.index() as int)),
    {
        match Display::try_from(ch) {
            Ok(kind) => {
                kinds.push(kind);
            },
            Err(x) => {
                assert(first_unknown(format@, it.index() as int));
                return Err(x);
            },
        }
    }
    assert(format@.take(format@.len() as int) == format@);
    Ok(kinds)
}

/// The words that report the format character `ch`, which selects nothing.
pub open spec fn unknown_attribute_text(ch: char) -> Seq<char> {
    "Unknown attribute "@.push(ch)
}

/// Renders the report of a format character that selects nothing.
pub fn unknown_attribute(ch: char) -> (r: String)
    ensures
        r@ == unknown_attribute_text(ch),
{
    let mut r = "Unknown attribute ".to_owned();
    r.push(ch);
    r
}

} // verus!
