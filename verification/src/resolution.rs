//! The resolution normalizer of the image tool: it maps a free-form,
//! case-insensitive user hint (or the absence of one) to exactly one of the
//! three canonical tags "1K", "2K" and "4K". The first matching branch wins:
//! the "4K" keywords are tested before the "2K" keywords.

use vstd::prelude::*;

use crate::text::{contains_sub, has_sub, lower, lower_char, str_to_chars, to_lower};

verus! {

/// The lowercased hint asks for the "4K" tag.
pub open spec fn hint_is_4k(l: Seq<char>) -> bool {
    has_sub(l, "4k"@) || has_sub(l, "ultra"@) || has_sub(l, "high"@)
}

/// The lowercased hint asks for the "2K" tag.
pub open spec fn hint_is_2k(l: Seq<char>) -> bool {
    has_sub(l, "2k"@) || has_sub(l, "2048"@) || has_sub(l, "medium"@) || has_sub(l, "normal"@)
}

/// The normalizer as a mathematical function: lowercase the hint, test the
/// "4K" keywords first, then the "2K" keywords; everything else (including an
/// absent hint) yields "1K".
pub open spec fn spec_map_resolution(hint: Option<Seq<char>>) -> Seq<char> {
    match hint {
        Option::Some(s) => {
            let l = lower(s);
            if hint_is_4k(l) {
                "4K"@
            } else if hint_is_2k(l) {
                "2K"@
            } else {
                "1K"@
            }
        },
        Option::None => "1K"@,
    }
}

/// The view of an optional character vector.
pub open spec fn opt_chars_view(o: Option<Vec<char>>) -> Option<Seq<char>> {
    match o {
        Option::Some(v) => Option::Some(v@),
        Option::None => Option::None,
    }
}

/// Executable resolution normalizer.
pub fn map_resolution(hint: &Option<Vec<char>>) -> (r: Vec<char>)
    ensures
        r@ == spec_map_resolution(opt_chars_view(*hint)),
{
    match hint {
        Option::Some(s) => {
            let l = to_lower(s);
            if contains_sub(&l, &str_to_chars("4k")) || contains_sub(&l, &str_to_chars("ultra"))
                || contains_sub(&l, &str_to_chars("high")) {
                str_to_chars("4K")
            } else if contains_sub(&l, &str_to_chars("2k")) || contains_sub(
                &l,
                &str_to_chars("2048"),
            ) || contains_sub(&l, &str_to_chars("medium")) || contains_sub(
                &l,
                &str_to_chars("normal"),
            ) {
                str_to_chars("2K")
            } else {
                str_to_chars("1K")
            }
        },
        Option::None => str_to_chars("1K"),
    }
}

/// ASCII lowercasing is idempotent on each character.
proof fn lemma_lower_char_idempotent(c: char)
    ensures
        lower_char(lower_char(c)) == lower_char(c),
{
    if 'A' <= c && c <= 'Z' {
        let d = lower_char(c);
        assert('a' <= d && d <= 'z');
        assert(!('A' <= d && d <= 'Z'));
    }
}

/// ASCII lowercasing is idempotent on sequences.
proof fn lemma_lower_idempotent(s: Seq<char>)
    ensures
        lower(lower(s)) == lower(s),
{
    assert forall|i: int| 0 <= i < s.len() implies lower(lower(s))[i] == lower(s)[i] by {
        lemma_lower_char_idempotent(s[i]);
    }
    assert(lower(lower(s)) =~= lower(s));
}

/// Law: the normalizer is a total function into exactly {"1K", "2K", "4K"};
/// an absent hint always yields "1K"; and it is case-insensitive: a hint and
/// its lowercased form map to the same tag.
pub proof fn lemma_map_resolution_total(hint: Option<Seq<char>>)
    ensures
        spec_map_resolution(hint) == "1K"@ || spec_map_resolution(hint) == "2K"@
            || spec_map_resolution(hint) == "4K"@,
        hint is None ==> spec_map_resolution(hint) == "1K"@,
        hint matches Some(s) ==> spec_map_resolution(Some(lower(s))) == spec_map_resolution(hint),
{
    match hint {
        Option::Some(s) => lemma_lower_idempotent(s),
        Option::None => (),
    }
}

} // verus!
