//! What the Unicode Character Database says of a character.
//!
//! The tables are those of the `unic-ucd` crates. Nothing here is proved: each
//! lookup is given a name, and the contracts of the lookups say only that the
//! call returns what the name stands for.

use crate::text::chars_of;
use unic_char_property::EnumeratedCharProperty;
use unic_ucd::age::Age;
use unic_ucd::block::Block;
use unic_ucd::category::GeneralCategory;
use unic_ucd::name::Name;
use vstd::prelude::*;

verus! {

/// A version of the Unicode standard.
#[derive(Clone, Copy, Debug, PartialEq, Eq, Structural)]
pub struct Version {
    pub major: u16,
    pub minor: u16,
    pub micro: u16,
}

/// The version of the standard in which `c` was assigned, if it is assigned.
pub uninterp spec fn unicode_age(c: char) -> Option<Version>;

/// The abbreviated name of the general category of `c`.
pub uninterp spec fn general_category_abbr(c: char) -> Seq<char>;

/// The name of the block that holds `c`, if one does.
pub uninterp spec fn block_name(c: char) -> Option<Seq<char>>;

/// The name of the character `c`, if it has one.
pub uninterp spec fn unicode_name(c: char) -> Option<Seq<char>>;

/// Whether `c` has the property Case_Ignorable.
pub uninterp spec fn has_case_ignorable(c: char) -> bool;

/// Whether `c` has the property Cased.
pub uninterp spec fn has_cased(c: char) -> bool;

/// Whether `c` has the property Changes_When_Casefolded.
pub uninterp spec fn has_changes_when_casefolded(c: char) -> bool;

/// Whether `c` has the property Changes_When_Casemapped.
pub uninterp spec fn has_changes_when_casemapped(c: char) -> bool;

/// Whether `c` has the property Changes_When_Lowercased.
pub uninterp spec fn has_changes_when_lowercased(c: char) -> bool;

/// Whether `c` has the property Changes_When_Uppercased.
pub uninterp spec fn has_changes_when_uppercased(c: char) -> bool;

/// Whether `c` has the property Changes_When_Titlecased.
pub uninterp spec fn has_changes_when_titlecased(c: char) -> bool;

/// Whether `c` has the property Lowercase.
pub uninterp spec fn has_lowercase(c: char) -> bool;

/// Whether `c` has the property Uppercase.
pub uninterp spec fn has_uppercase(c: char) -> bool;

/// `unic_ucd::age::Age::of`, with the version that `Age::actual` reads out of
/// an age: the lookup of `c` in the table of ages. Trusted to return what
/// `unicode_age` names.
#[verifier::external_body]
pub(crate) fn age_of(c: char) -> (r: Option<Version>)
    ensures
        r == unicode_age(c),
{
    match Age::of(c) {
        Some(age) => {
            let v = age.actual();
            Some(Version { major: v.major, minor: v.minor, micro: v.micro })
        },
        None => None,
    }
}

/// `unic_ucd::category::GeneralCategory::of`, with the abbreviation that
/// `EnumeratedCharProperty::abbr_name` gives for the category. Trusted to
/// return what `general_category_abbr` names; every abbreviation in that
/// crate's list of categories has two letters.
#[verifier::external_body]
pub(crate) fn category_abbr_of(c: char) -> (r: &'static str)
    ensures
        r@ == general_category_abbr(c),
        r@.len() == 2,
{
    GeneralCategory::of(c).abbr_name()
}

/// `unic_ucd::block::Block::of`, with the field `name` of the block found.
/// Trusted to return what `block_name` names.
#[verifier::external_body]
pub(crate) fn block_name_of(c: char) -> (r: Option<&'static str>)
    ensures
        chars_of(r) == block_name(c),
{
    match Block::of(c) {
        Some(block) => Some(block.name),
        None => None,
    }
}

/// `unic_ucd::name::Name::of`, with the text that the name's `Display`
/// writes. Trusted to return what `unicode_name` names.
#[verifier::external_body]
pub(crate) fn name_of(c: char) -> (r: Option<String>)
    ensures
        match r {
            Some(name) => unicode_name(c) == Some(name@),
            None => unicode_name(c) is None,
        },
{
    match Name::of(c) {
        Some(name) => Some(name.to_string()),
        None => None,
    }
}

/// `is_case_ignorable` of `unic_ucd::case` looks `ch` up in the table of the
/// property Case_Ignorable. Trusted to return what `has_case_ignorable` names.
pub assume_specification[ unic_ucd::case::case_ignorable::is_case_ignorable ](
    ch: char,
) -> (r: bool)
    ensures
        r == has_case_ignorable(ch),
;

/// `is_cased` of `unic_ucd::case` looks `ch` up in the table of the
/// property Cased. Trusted to return what `has_cased` names.
pub assume_specification[ unic_ucd::case::cased::is_cased ](
    ch: char,
) -> (r: bool)
    ensures
        r == has_cased(ch),
;

/// `changes_when_casefolded` of `unic_ucd::case` looks `ch` up in the table of the
/// property Changes_When_Casefolded. Trusted to return what `has_changes_when_casefolded` names.
pub assume_specification[ unic_ucd::case::changes_when_casefolded::changes_when_casefolded ](
    ch: char,
) -> (r: bool)
    ensures
        r == has_changes_when_casefolded(ch),
;

/// `changes_when_casemapped` of `unic_ucd::case` looks `ch` up in the table of the
/// property Changes_When_Casemapped. Trusted to return what `has_changes_when_casemapped` names.
pub assume_specification[ unic_ucd::case::changes_when_casemapped::changes_when_casemapped ](
    ch: char,
) -> (r: bool)
    ensures
        r == has_changes_when_casemapped(ch),
;

/// `changes_when_lowercased` of `unic_ucd::case` looks `ch` up in the table of the
/// property Changes_When_Lowercased. Trusted to return what `has_changes_when_lowercased` names.
pub assume_specification[ unic_ucd::case::changes_when_lowercased::changes_when_lowercased ](
    ch: char,
) -> (r: bool)
    ensures
        r == has_changes_when_lowercased(ch),
;

/// `changes_when_uppercased` of `unic_ucd::case` looks `ch` up in the table of the
/// property Changes_When_Uppercased. Trusted to return what `has_changes_when_uppercased` names.
pub assume_specification[ unic_ucd::case::changes_when_uppercased::changes_when_uppercased ](
    ch: char,
) -> (r: bool)
    ensures
        r == has_changes_when_uppercased(ch),
;

/// `changes_when_titlecased` of `unic_ucd::case` looks `ch` up in the table of the
/// property Changes_When_Titlecased. Trusted to return what `has_changes_when_titlecased` names.
pub assume_specification[ unic_ucd::case::changes_when_titlecased::changes_when_titlecased ](
    ch: char,
) -> (r: bool)
    ensures
        r == has_changes_when_titlecased(ch),
;

/// `is_lowercase` of `unic_ucd::case` looks `ch` up in the table of the
/// property Lowercase. Trusted to return what `has_lowercase` names.
pub assume_specification[ unic_ucd::case::lowercase::is_lowercase ](
    ch: char,
) -> (r: bool)
    ensures
        r == has_lowercase(ch),
;

/// `is_uppercase` of `unic_ucd::case` looks `ch` up in the table of the
/// property Uppercase. Trusted to return what `has_uppercase` names.
pub assume_specification[ unic_ucd::case::uppercase::is_uppercase ](
    ch: char,
) -> (r: bool)
    ensures
        r == has_uppercase(ch),
;

} // verus!
