//! The pattern matcher: which characters a pattern may hold, and whether an
//! address shows a pattern at a chosen place.

use vstd::prelude::*;
use crate::primitives::{ascii_lowercase, is_ascii_text, lowercase, lowercase_text};

verus! {

/// Where in the address the pattern has to stand.
#[derive(Clone, Copy, Debug, PartialEq, Eq, Structural)]
pub enum VanityPosition {
    /// Anywhere in the address.
    Anywhere,
    /// Directly behind the seven characters `mantra1`.
    Prefix,
    /// At the end of the address.
    Suffix,
}

impl Default for VanityPosition {
    fn default() -> (position: Self)
        ensures
            position == VanityPosition::Anywhere,
    {
        VanityPosition::Anywhere
    }
}

/// The length of `mantra1`: the network prefix and the separator.
pub const PREFIX_LEN: usize = 7;

/// The 32 characters that the data part of an address is written in.
pub open spec fn alphabet() -> Seq<char> {
    "qpzry9x8gf2tvdw0s3jn54khce6mua7l"@
}

/// A character that can occur in an address pattern: the separator `1` or a
/// character of the alphabet.
pub open spec fn is_pattern_char(c: char) -> bool {
    c == '1' || alphabet().contains(c)
}

/// Every character of the target can occur in an address pattern.
pub open spec fn valid_target(target: Seq<char>) -> bool {
    forall|i: int| 0 <= i < target.len() ==> is_pattern_char(#[trigger] target[i])
}

/// `target` stands in `text` at offset `at`.
pub open spec fn occurs_at(text: Seq<char>, target: Seq<char>, at: int) -> bool {
    &&& 0 <= at
    &&& at + target.len() <= text.len()
    &&& text.subrange(at, at + target.len()) == target
}

/// `address` shows `target` at `position`, both compared as they are.
pub open spec fn matches_at(address: Seq<char>, target: Seq<char>, position: VanityPosition) -> bool {
    match position {
        VanityPosition::Anywhere => exists|at: int| occurs_at(address, target, at),
        VanityPosition::Prefix => occurs_at(address, target, PREFIX_LEN as int),
        VanityPosition::Suffix => occurs_at(address, target, address.len() - target.len()),
    }
}

/// `address` shows `target` at `position` when case is ignored.
pub open spec fn matches_ignoring_case(
    address: Seq<char>,
    target: Seq<char>,
    position: VanityPosition,
) -> bool {
    matches_at(lowercase(address), lowercase(target), position)
}

/// A pattern found directly behind the prefix, or at the end, is also found
/// by a search anywhere.
pub proof fn lemma_anywhere_covers(address: Seq<char>, target: Seq<char>, position: VanityPosition)
    requires
        matches_at(address, target, position),
    ensures
        matches_at(address, target, VanityPosition::Anywhere),
{
    match position {
        VanityPosition::Anywhere => {},
        VanityPosition::Prefix => {
            assert(occurs_at(address, target, PREFIX_LEN as int));
        },
        VanityPosition::Suffix => {
            assert(occurs_at(address, target, address.len() - target.len()));
        },
    }
}

/// The same holds when case is ignored.
pub proof fn lemma_anywhere_covers_ignoring_case(
    address: Seq<char>,
    target: Seq<char>,
    position: VanityPosition,
)
    requires
        matches_ignoring_case(address, target, position),
    ensures
        matches_ignoring_case(address, target, VanityPosition::Anywhere),
{
    lemma_anywhere_covers(lowercase(address), lowercase(target), position);
}

/// The characters of a text, one by one.
pub fn chars_of(text: &str) -> (out: Vec<char>)
    ensures
        out@ == text@,
{
    let n = text.unicode_len();
    let mut out: Vec<char> = Vec::new();
    let mut i: usize = 0;
    while i < n
        invariant
            n == text@.len(),
            i <= n,
            out@ == text@.take(i as int),
        decreases n - i,
    {
        out.push(text.get_char(i));
        assert(out@ =~= text@.take(i + 1));
        i += 1;
    }
    assert(text@.take(n as int) =~= text@);
    out
}

/// Whether a character can occur in an address pattern.
pub fn pattern_char(c: char) -> (ok: bool)
    ensures
        ok == is_pattern_char(c),
{
    if c == '1' {
        return true;
    }
    let letters = "qpzry9x8gf2tvdw0s3jn54khce6mua7l";
    let n = letters.unicode_len();
    let mut i: usize = 0;
    while i < n
        invariant
            letters@ == alphabet(),
            n == letters@.len(),
            i <= n,
            forall|j: int| 0 <= j < i ==> letters@[j] != c,
        decreases n - i,
    {
        if letters.get_char(i) == c {
            return true;
        }
        i += 1;
    }
    false
}

/// True iff every character of the target is the separator `1` or one of the
/// 32 characters of the address alphabet.
pub fn validate_target_string(target: &str) -> (ok: bool)
    ensures
        ok == valid_target(target@),
{
    let chars = chars_of(target);
    let mut i: usize = 0;
    while i < chars.len()
        invariant
            chars@ == target@,
            i <= chars.len(),
            forall|j: int| 0 <= j < i ==> is_pattern_char(#[trigger] target@[j]),
        decreases chars.len() - i,
    {
        if !pattern_char(chars[i]) {
            return false;
        }
        i += 1;
    }
    true
}

/// Whether `target` stands in `text` at offset `at`.
pub fn found_at(text: &Vec<char>, target: &Vec<char>, at: usize) -> (found: bool)
    ensures
        found == occurs_at(text@, target@, at as int),
{
    if at > text.len() || target.len() > text.len() - at {
        return false;
    }
    let mut j: usize = 0;
    while j < target.len()
        invariant
            at + target.len() <= text.len(),
            j <= target.len(),
            forall|k: int| 0 <= k < j ==> text@[at + k] == target@[k],
        decreases target.len() - j,
    {
        if text[at + j] != target[j] {
            assert(text@.subrange(at as int, at + target.len())[j as int] == text@[at + j]);
            return false;
        }
        j += 1;
    }
    assert(text@.subrange(at as int, at + target.len()) =~= target@);
    true
}

/// Whether `target` stands anywhere in `text`.
pub fn found_anywhere(text: &Vec<char>, target: &Vec<char>) -> (found: bool)
    ensures
        found == exists|at: int| occurs_at(text@, target@, at),
{
    if target.len() > text.len() {
        return false;
    }
    let last: usize = text.len() - target.len();
    let mut at: usize = 0;
    while at < last
        invariant
            last == text.len() - target.len(),
            at <= last,
            forall|k: int| 0 <= k < at ==> !occurs_at(text@, target@, k),
        decreases last - at,
    {
        if found_at(text, target, at) {
            return true;
        }
        at += 1;
    }
    found_at(text, target, last)
}

/// The match decision on texts that are compared as they are.
pub fn matches_exactly(address: &str, target: &str, position: VanityPosition) -> (found: bool)
    ensures
        found == matches_at(address@, target@, position),
{
    let text = chars_of(address);
    let wanted = chars_of(target);
    match position {
        VanityPosition::Anywhere => found_anywhere(&text, &wanted),
        VanityPosition::Prefix => found_at(&text, &wanted, PREFIX_LEN),
        VanityPosition::Suffix => {
            if wanted.len() > text.len() {
                false
            } else {
                found_at(&text, &wanted, text.len() - wanted.len())
            }
        },
    }
}

/// The match decision of the search: address and target are put in lower
/// case, then compared. Of ASCII texts the lower-case forms are known: each
/// capital gives way to its small letter.
pub fn pattern_matches(address: &str, target: &str, position: VanityPosition) -> (found: bool)
    ensures
        found == matches_ignoring_case(address@, target@, position),
        is_ascii_text(address@) && is_ascii_text(target@) ==> found == matches_at(
            ascii_lowercase(address@),
            ascii_lowercase(target@),
            position,
        ),
{
    let address_lower = lowercase_text(address);
    let target_lower = lowercase_text(target);
    matches_exactly(address_lower.as_str(), target_lower.as_str(), position)
}

} // verus!
