//! Text as sequences of characters: searching, trimming and joining.

use vstd::prelude::*;
use vstd::string::StrSliceExecFns;

verus! {

/// Whether `needle` stands in `hay` at position `at`.
pub open spec fn occurs_at(hay: Seq<char>, needle: Seq<char>, at: int) -> bool {
    &&& 0 <= at
    &&& at + needle.len() <= hay.len()
    &&& hay.subrange(at, at + needle.len()) == needle
}

/// Whether `needle` stands somewhere in `hay`.
pub open spec fn contains_text(hay: Seq<char>, needle: Seq<char>) -> bool {
    exists|at: int| occurs_at(hay, needle, at)
}

/// Whether `at` is the first position from `from` on at which `needle` stands in `hay`.
pub open spec fn first_from(hay: Seq<char>, needle: Seq<char>, from: int, at: int) -> bool {
    &&& from <= at
    &&& occurs_at(hay, needle, at)
    &&& forall|j: int| from <= j < at ==> !occurs_at(hay, needle, j)
}

/// Whether `needle` stands nowhere in `hay` from `from` on.
pub open spec fn absent_from(hay: Seq<char>, needle: Seq<char>, from: int) -> bool {
    forall|j: int| from <= j ==> !occurs_at(hay, needle, j)
}

/// The characters of a text, in order.
pub fn chars_of(text: &str) -> (out: Vec<char>)
    ensures
        out@ == text@,
{
    let mut out: Vec<char> = Vec::new();
    for c in it: text.chars()
        invariant
            out@ == it.seq().take(it.index()),
    {
        out.push(c);
    }
    out
}

/// Compares `needle` with the characters of `hay` that start at `at`.
pub fn matches_at(hay: &Vec<char>, needle: &Vec<char>, at: usize) -> (hit: bool)
    ensures
        hit == occurs_at(hay@, needle@, at as int),
{
    if needle.len() > hay.len() || at > hay.len() - needle.len() {
        return false;
    }
    let mut k: usize = 0;
    while k < needle.len()
        invariant
            k <= needle.len(),
            at + needle.len() <= hay.len(),
            forall|j: int| 0 <= j < k ==> hay[at + j] == needle[j],
        decreases needle.len() - k,
    {
        if hay[at + k] != needle[k] {
            assert(hay@.subrange(at as int, at + needle.len())[k as int] == hay[at + k]);
            return false;
        }
        k += 1;
    }
    assert(hay@.subrange(at as int, at + needle.len()) =~= needle@);
    true
}

/// Finds the first position from `from` on at which `needle` stands in `hay`.
pub fn find_from(hay: &Vec<char>, needle: &Vec<char>, from: usize) -> (found: Option<usize>)
    ensures
        match found {
            Some(at) => first_from(hay@, needle@, from as int, at as int),
            None => absent_from(hay@, needle@, from as int),
        },
        found.is_some() == first_index(hay@, needle@, from as int).is_some(),
        found matches Some(at) ==> first_index(hay@, needle@, from as int) == Some(at as int),
{
    if from > hay.len() {
        return None;
    }
    let mut at: usize = from;
    loop
        invariant
            from <= at <= hay.len(),
            forall|j: int| from <= j < at ==> !occurs_at(hay@, needle@, j),
        decreases hay.len() - at,
    {
        if matches_at(hay, needle, at) {
            return Some(at);
        }
        if at == hay.len() {
            return None;
        }
        at += 1;
    }
}

/// The first position from `from` on at which `needle` stands in `hay`, if there is one.
pub open spec fn first_index(hay: Seq<char>, needle: Seq<char>, from: int) -> Option<int> {
    if exists|at: int| first_from(hay, needle, from, at) {
        Some(choose|at: int| first_from(hay, needle, from, at))
    } else {
        None
    }
}

/// A first position is the only one, and where nothing is found there is none.
pub proof fn lemma_first_index(hay: Seq<char>, needle: Seq<char>, from: int, at: int)
    ensures
        first_from(hay, needle, from, at) ==> first_index(hay, needle, from) == Some(at),
        absent_from(hay, needle, from) ==> first_index(hay, needle, from) is None,
{
    if first_from(hay, needle, from, at) {
        let other = choose|k: int| first_from(hay, needle, from, k);
        assert(other == at) by {
            if other < at {
                assert(!occurs_at(hay, needle, other));
            } else if at < other {
                assert(!occurs_at(hay, needle, at));
            }
        }
    }
    if absent_from(hay, needle, from) {
        assert forall|k: int| !first_from(hay, needle, from, k) by {
            if from <= k {
                assert(!occurs_at(hay, needle, k));
            }
        }
    }
}

/// Within a part of a text a needle stands where it stands in the whole.
pub proof fn lemma_occurs_in_part(hay: Seq<char>, needle: Seq<char>, from: int, to: int, at: int)
    requires
        0 <= from <= to <= hay.len(),
    ensures
        occurs_at(hay.subrange(from, to), needle, at) <==> (occurs_at(hay, needle, from + at)
            && 0 <= at && from + at + needle.len() <= to),
{
    let part = hay.subrange(from, to);
    if 0 <= at && at + needle.len() <= part.len() {
        assert(part.subrange(at, at + needle.len()) =~= hay.subrange(
            from + at,
            from + at + needle.len(),
        ));
    }
}

/// Finds the first position at which `needle` stands in `hay[from..to]`,
/// counted from `from`.
pub fn find_in(hay: &Vec<char>, needle: &Vec<char>, from: usize, to: usize) -> (found: Option<
    usize,
>)
    requires
        from <= to <= hay.len(),
    ensures
        found == match first_index(hay@.subrange(from as int, to as int), needle@, 0) {
            Some(at) => Some(at as usize),
            None => None,
        },
        found matches Some(at) ==> at + needle.len() <= to - from,
{
    let ghost part = hay@.subrange(from as int, to as int);
    if needle.len() > to - from {
        proof {
            assert forall|j: int| 0 <= j implies !occurs_at(part, needle@, j) by {}
            lemma_first_index(part, needle@, 0, 0);
        }
        return None;
    }
    let last: usize = to - needle.len();
    let mut at: usize = from;
    loop
        invariant
            from <= at <= last,
            last == to - needle.len(),
            from <= last <= to <= hay.len(),
            part == hay@.subrange(from as int, to as int),
            forall|j: int| 0 <= j < at - from ==> !occurs_at(part, needle@, j),
        decreases last - at,
    {
        proof {
            lemma_occurs_in_part(hay@, needle@, from as int, to as int, at - from);
        }
        if matches_at(hay, needle, at) {
            proof {
                lemma_first_index(part, needle@, 0, at - from);
            }
            return Some(at - from);
        }
        if at == last {
            proof {
                assert forall|j: int| 0 <= j implies !occurs_at(part, needle@, j) by {}
                lemma_first_index(part, needle@, 0, 0);
            }
            return None;
        }
        at += 1;
    }
}

/// Whether a character is white space in the sense of `char::is_whitespace`.
pub uninterp spec fn white_space(c: char) -> bool;

/// `char::is_whitespace`: tells whether the character has the Unicode
/// property White_Space. The result is named, not spelled out; the blank is
/// white space.
#[verifier::external_body]
pub(crate) fn is_white_space(c: char) -> (yes: bool)
    ensures
        yes == white_space(c),
        c == ' ' ==> yes,
{
    c.is_whitespace()
}

/// How many white-space characters a text starts with.
pub open spec fn leading_space(text: Seq<char>) -> nat
    decreases text.len(),
{
    if text.len() > 0 && white_space(text[0]) {
        1 + leading_space(text.drop_first())
    } else {
        0
    }
}

/// How many white-space characters a text ends with.
pub open spec fn trailing_space(text: Seq<char>) -> nat
    decreases text.len(),
{
    if text.len() > 0 && white_space(text.last()) {
        1 + trailing_space(text.drop_last())
    } else {
        0
    }
}

/// A text without the white space at its two ends.
pub open spec fn trimmed(text: Seq<char>) -> Seq<char> {
    let rest = text.skip(leading_space(text) as int);
    rest.take(rest.len() - trailing_space(rest))
}

/// Finds the part of `chars[from..to]` that is left when the white space at
/// its two ends is taken away.
pub fn trim_range(chars: &Vec<char>, from: usize, to: usize) -> (ends: (usize, usize))
    requires
        from <= to <= chars.len(),
    ensures
        from <= ends.0 <= ends.1 <= to,
        chars@.subrange(ends.0 as int, ends.1 as int) == trimmed(
            chars@.subrange(from as int, to as int),
        ),
{
    let ghost whole = chars@.subrange(from as int, to as int);
    let mut a: usize = from;
    while a < to && is_white_space(chars[a])
        invariant
            from <= a <= to <= chars.len(),
            leading_space(whole) == (a - from) + leading_space(
                chars@.subrange(a as int, to as int),
            ),
            whole == chars@.subrange(from as int, to as int),
        decreases to - a,
    {
        assert(chars@.subrange(a as int, to as int).drop_first() =~= chars@.subrange(
            a + 1,
            to as int,
        ));
        a += 1;
    }
    let ghost rest = chars@.subrange(a as int, to as int);
    assert(leading_space(rest) == 0);
    assert(whole.skip(leading_space(whole) as int) =~= rest);
    let mut b: usize = to;
    while b > a && is_white_space(chars[b - 1])
        invariant
            a <= b <= to <= chars.len(),
            trailing_space(rest) == (to - b) + trailing_space(
                chars@.subrange(a as int, b as int),
            ),
            rest == chars@.subrange(a as int, to as int),
        decreases b - a,
    {
        assert(chars@.subrange(a as int, b as int).drop_last() =~= chars@.subrange(
            a as int,
            b - 1,
        ));
        b -= 1;
    }
    assert(trailing_space(chars@.subrange(a as int, b as int)) == 0);
    assert(rest.take(rest.len() - trailing_space(rest)) =~= chars@.subrange(a as int, b as int));
    (a, b)
}

/// Returns `text` without the white space at its two ends.
pub fn trim_text(text: &str) -> (out: String)
    ensures
        out@ == trimmed(text@),
{
    let chars = chars_of(text);
    assert(chars@.subrange(0, chars.len() as int) =~= chars@);
    let ends = trim_range(&chars, 0, chars.len());
    text.substring_char(ends.0, ends.1).to_owned()
}

/// Tells whether `needle` stands somewhere in `hay`.
pub fn contains(hay: &str, needle: &str) -> (yes: bool)
    ensures
        yes == contains_text(hay@, needle@),
{
    let hay_chars = chars_of(hay);
    let needle_chars = chars_of(needle);
    match find_from(&hay_chars, &needle_chars, 0) {
        Some(at) => true,
        None => {
            assert forall|at: int| !occurs_at(hay@, needle@, at) by {
                if 0 <= at {
                    assert(!occurs_at(hay@, needle@, at));
                }
            }
            false
        },
    }
}

/// A text in lower case, in the sense of `str::to_lowercase`.
pub uninterp spec fn lowercase(text: Seq<char>) -> Seq<char>;

/// `str::to_lowercase`: the text with each character replaced by its lower
/// case as Unicode defines it. The result is named, not spelled out.
#[verifier::external_body]
pub(crate) fn to_lower(text: &str) -> (lower: String)
    ensures
        lower@ == lowercase(text@),
{
    text.to_lowercase()
}

/// Tells whether two texts are the same.
pub fn same_text(left: &str, right: &str) -> (same: bool)
    ensures
        same == (left@ == right@),
{
    let a = chars_of(left);
    let b = chars_of(right);
    if a.len() != b.len() {
        return false;
    }
    let hit = matches_at(&a, &b, 0);
    assert(a@.subrange(0, a.len() as int) =~= a@);
    hit
}

/// Whether a text begins with `prefix`.
pub open spec fn begins_with(text: Seq<char>, prefix: Seq<char>) -> bool {
    occurs_at(text, prefix, 0)
}

/// Tells whether `text` begins with `prefix`.
pub fn starts_with(text: &str, prefix: &str) -> (yes: bool)
    ensures
        yes == begins_with(text@, prefix@),
{
    let text_chars = chars_of(text);
    let prefix_chars = chars_of(prefix);
    matches_at(&text_chars, &prefix_chars, 0)
}

} // verus!
