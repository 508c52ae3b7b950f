//! Word lists used by the author and title heuristics.
use vstd::prelude::*;
use crate::text::{chars_of, contains, contains_str, eq_chars};

verus! {

/// Affiliation markers that follow author names in paper headers.
pub open spec fn author_markers() -> Seq<Seq<char>> {
    seq![
        "Senior Member"@,
        "Junior Member"@,
        "Member"@,
        "Fellow"@,
        "Senior, IEEE"@,
        "IEEE"@,
        "ACM"@,
        "AAAI"@,
    ]
}

pub fn author_marker(i: usize) -> (r: &'static str)
    requires
        i < 8,
    ensures
        r@ == author_markers()[i as int],
{
    match i {
        0 => "Senior Member",
        1 => "Junior Member",
        2 => "Member",
        3 => "Fellow",
        4 => "Senior, IEEE",
        5 => "IEEE",
        6 => "ACM",
        _ => "AAAI",
    }
}

/// Some affiliation marker occurs in `s`.
pub open spec fn has_author_marker(s: Seq<char>) -> bool {
    exists|i: int| 0 <= i < 8 && contains(s, #[trigger] author_markers()[i])
}

pub fn has_author_marker_exec(s: &Vec<char>) -> (r: bool)
    ensures
        r == has_author_marker(s@),
{
    let mut i: usize = 0;
    while i < 8
        invariant
            i <= 8,
            forall|j: int| 0 <= j < i ==> !contains(s@, #[trigger] author_markers()[j]),
        decreases 8 - i,
    {
        if contains_str(s, author_marker(i)) {
            return true;
        }
        i += 1;
    }
    false
}

/// Lowercase particles and prepositions that never start a name.
pub open spec fn prepositions() -> Seq<Seq<char>> {
    seq![
        "of"@,
        "for"@,
        "the"@,
        "and"@,
        "on"@,
        "in"@,
        "a"@,
        "an"@,
        "to"@,
        "via"@,
        "by"@,
        "with"@,
        "from"@,
        "into"@,
        "using"@,
        "through"@,
        "over"@,
        "under"@,
        "von"@,
        "de"@,
        "van"@,
        "der"@,
        "la"@,
        "le"@,
        "du"@,
        "di"@,
        "da"@,
        "dos"@,
        "das"@,
        "el"@,
        "bin"@,
        "ibn"@,
        "y"@,
        "al"@,
    ]
}

fn preposition(i: usize) -> (r: &'static str)
    requires
        i < 34,
    ensures
        r@ == prepositions()[i as int],
{
    match i {
        0 => "of",
        1 => "for",
        2 => "the",
        3 => "and",
        4 => "on",
        5 => "in",
        6 => "a",
        7 => "an",
        8 => "to",
        9 => "via",
        10 => "by",
        11 => "with",
        12 => "from",
        13 => "into",
        14 => "using",
        15 => "through",
        16 => "over",
        17 => "under",
        18 => "von",
        19 => "de",
        20 => "van",
        21 => "der",
        22 => "la",
        23 => "le",
        24 => "du",
        25 => "di",
        26 => "da",
        27 => "dos",
        28 => "das",
        29 => "el",
        30 => "bin",
        31 => "ibn",
        32 => "y",
        _ => "al",
    }
}

pub open spec fn is_preposition(s: Seq<char>) -> bool {
    exists|i: int| 0 <= i < 34 && s == #[trigger] prepositions()[i]
}

pub fn is_preposition_exec(s: &Vec<char>) -> (r: bool)
    ensures
        r == is_preposition(s@),
{
    let mut i: usize = 0;
    while i < 34
        invariant
            i <= 34,
            forall|j: int| 0 <= j < i ==> s@ != #[trigger] prepositions()[j],
        decreases 34 - i,
    {
        let p = chars_of(preposition(i));
        if eq_chars(s, &p) {
            return true;
        }
        i += 1;
    }
    false
}

/// Abbreviations that start a journal reference rather than a name.
pub open spec fn journal_abbrevs() -> Seq<Seq<char>> {
    seq![
        "Proc."@,
        "Soc."@,
        "Trans."@,
        "Vol."@,
        "Ser."@,
        "No."@,
        "J."@,
        "Commun."@,
        "Lett."@,
        "Math."@,
        "Phys."@,
        "Chem."@,
        "Biol."@,
        "Med."@,
        "Rev."@,
        "Ann."@,
        "Acad."@,
    ]
}

fn journal_abbrev(i: usize) -> (r: &'static str)
    requires
        i < 17,
    ensures
        r@ == journal_abbrevs()[i as int],
{
    match i {
        0 => "Proc.",
        1 => "Soc.",
        2 => "Trans.",
        3 => "Vol.",
        4 => "Ser.",
        5 => "No.",
        6 => "J.",
        7 => "Commun.",
        8 => "Lett.",
        9 => "Math.",
        10 => "Phys.",
        11 => "Chem.",
        12 => "Biol.",
        13 => "Med.",
        14 => "Rev.",
        15 => "Ann.",
        _ => "Acad.",
    }
}

pub open spec fn is_journal_abbrev(s: Seq<char>) -> bool {
    exists|i: int| 0 <= i < 17 && s == #[trigger] journal_abbrevs()[i]
}

pub fn is_journal_abbrev_exec(s: &Vec<char>) -> (r: bool)
    ensures
        r == is_journal_abbrev(s@),
{
    let mut i: usize = 0;
    while i < 17
        invariant
            i <= 17,
            forall|j: int| 0 <= j < i ==> s@ != #[trigger] journal_abbrevs()[j],
        decreases 17 - i,
    {
        let p = chars_of(journal_abbrev(i));
        if eq_chars(s, &p) {
            return true;
        }
        i += 1;
    }
    false
}

/// Markers after which a header line continues with a citation.
pub open spec fn citation_markers() -> Seq<Seq<char>> {
    seq!["Citation:"@, "citation:"@, "Citation "@, "citation "@]
}

pub fn citation_marker(i: usize) -> (r: &'static str)
    requires
        i < 4,
    ensures
        r@ == citation_markers()[i as int],
{
    match i {
        0 => "Citation:",
        1 => "citation:",
        2 => "Citation ",
        _ => "citation ",
    }
}

} // verus!
