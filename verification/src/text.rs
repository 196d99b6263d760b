//! Character sequences: where one occurs in another, the last component of a
//! path, and the lower-case form that comparisons are made on.

use vstd::prelude::*;

verus! {

/// The separator between the components of a path.
pub const SEPARATOR: char = '/';

/// The wildcard that a path-component pattern may carry.
pub const WILDCARD: char = '*';

/// `needle` stands in `hay` at position `at`.
pub open spec fn occurs_at(hay: Seq<char>, needle: Seq<char>, at: int) -> bool {
    &&& 0 <= at
    &&& at + needle.len() <= hay.len()
    &&& hay.subrange(at, at + needle.len()) == needle
}

/// `hay` begins with `needle`.
pub open spec fn has_prefix(hay: Seq<char>, needle: Seq<char>) -> bool {
    occurs_at(hay, needle, 0)
}

/// `hay` ends with `needle`.
pub open spec fn has_suffix(hay: Seq<char>, needle: Seq<char>) -> bool {
    occurs_at(hay, needle, hay.len() - needle.len())
}

/// `needle` stands somewhere in `hay`.
pub open spec fn has_infix(hay: Seq<char>, needle: Seq<char>) -> bool {
    exists|at: int| occurs_at(hay, needle, at)
}

/// Where the last component of `path` begins: just behind its last
/// separator, or at 0 when it has none.
pub open spec fn name_start(path: Seq<char>) -> int
    decreases path.len(),
{
    if path.len() == 0 {
        0
    } else if path.last() == SEPARATOR {
        path.len() as int
    } else {
        name_start(path.drop_last())
    }
}

/// The last component of `path`: the text behind its last separator, or all
/// of it when it has none.
pub open spec fn file_name(path: Seq<char>) -> Seq<char> {
    path.subrange(name_start(path), path.len() as int)
}

/// `text` with every wildcard taken out.
pub open spec fn without_wildcards(text: Seq<char>) -> Seq<char>
    decreases text.len(),
{
    if text.len() == 0 {
        text
    } else if text.last() == WILDCARD {
        without_wildcards(text.drop_last())
    } else {
        without_wildcards(text.drop_last()).push(text.last())
    }
}

/// The lower-case form of a text, as the standard library computes it from
/// the Unicode case mappings.
pub uninterp spec fn lowercase(text: Seq<char>) -> Seq<char>;

/// `name_start` is the one position that has a separator just before it,
/// unless it is 0, and none behind it.
pub proof fn lemma_name_start_unique(path: Seq<char>, at: int)
    requires
        0 <= at <= path.len(),
        at > 0 ==> path[at - 1] == SEPARATOR,
        forall|i: int| at <= i < path.len() ==> path[i] != SEPARATOR,
    ensures
        name_start(path) == at,
    decreases path.len(),
{
    if path.len() > 0 && path.last() != SEPARATOR {
        lemma_name_start_unique(path.drop_last(), at);
    }
}

/// Tells whether `needle` stands in `hay` at position `at`.
pub fn matches_at(hay: &[char], needle: &[char], at: usize) -> (found: bool)
    ensures
        found == occurs_at(hay@, needle@, at as int),
{
    if at > hay.len() || needle.len() > hay.len() - at {
        return false;
    }
    let mut i: usize = 0;
    while i < needle.len()
        invariant
            at + needle.len() <= hay.len(),
            i <= needle.len(),
            forall|k: int| 0 <= k < i ==> hay@[at + k] == needle@[k],
        decreases needle.len() - i,
    {
        if hay[at + i] != needle[i] {
            proof {
                let window = hay@.subrange(at as int, at + needle.len());
                assert(window[i as int] != needle@[i as int]);
            }
            return false;
        }
        i += 1;
    }
    assert(hay@.subrange(at as int, at + needle.len()) =~= needle@);
    true
}

/// Tells whether `hay` ends with `needle`.
pub fn ends_with(hay: &[char], needle: &[char]) -> (found: bool)
    ensures
        found == has_suffix(hay@, needle@),
{
    if needle.len() > hay.len() {
        false
    } else {
        matches_at(hay, needle, hay.len() - needle.len())
    }
}

/// Tells whether `needle` stands somewhere in `hay`.
pub fn contains(hay: &[char], needle: &[char]) -> (found: bool)
    ensures
        found == has_infix(hay@, needle@),
{
    if needle.len() > hay.len() {
        return false;
    }
    let last: usize = hay.len() - needle.len();
    let mut at: usize = 0;
    while at < last
        invariant
            last == hay.len() - needle.len(),
            at <= last,
            forall|k: int| 0 <= k < at ==> !occurs_at(hay@, needle@, k),
        decreases last - at,
    {
        if matches_at(hay, needle, at) {
            return true;
        }
        at += 1;
    }
    matches_at(hay, needle, last)
}

/// Finds where the last component of `path` begins.
pub fn file_name_start(path: &[char]) -> (start: usize)
    ensures
        start == name_start(path@),
        start <= path.len(),
{
    let mut start: usize = path.len();
    while start > 0 && path[start - 1] != SEPARATOR
        invariant
            start <= path.len(),
            forall|i: int| start <= i < path.len() ==> path@[i] != SEPARATOR,
        decreases start,
    {
        start -= 1;
    }
    proof {
        lemma_name_start_unique(path@, start as int);
    }
    start
}

/// Tells whether `hay` ends with `lead` followed by `needle`.
pub fn ends_with_after(hay: &[char], lead: char, needle: &[char]) -> (found: bool)
    ensures
        found == has_suffix(hay@, seq![lead] + needle@),
{
    let ghost joined = seq![lead] + needle@;
    if needle.len() >= hay.len() {
        return false;
    }
    let at: usize = hay.len() - needle.len();
    let found = hay[at - 1] == lead && matches_at(hay, needle, at);
    proof {
        let window = hay@.subrange(at - 1, hay.len() as int);
        assert(window[0] == hay@[at - 1]);
        if found {
            assert(window =~= joined);
        }
        if window == joined {
            assert(hay@.subrange(at as int, at + needle.len()) =~= joined.subrange(
                1,
                joined.len() as int,
            ));
            assert(joined.subrange(1, joined.len() as int) =~= needle@);
        }
    }
    found
}

/// Tells whether the last component of `path` is `needle`.
pub fn name_is(path: &[char], needle: &[char]) -> (found: bool)
    ensures
        found == (file_name(path@) == needle@),
{
    let start = file_name_start(path);
    path.len() - start == needle.len() && matches_at(path, needle, start)
}

/// Tells whether the last component of `path` begins with `needle`.
pub fn name_starts_with(path: &[char], needle: &[char]) -> (found: bool)
    ensures
        found == has_prefix(file_name(path@), needle@),
{
    let start = file_name_start(path);
    let found = matches_at(path, needle, start);
    proof {
        let name = file_name(path@);
        if start + needle.len() <= path.len() {
            assert(name.subrange(0, needle.len() as int) =~= path@.subrange(
                start as int,
                start + needle.len(),
            ));
        }
    }
    found
}

/// Copies `text` without its wildcards.
pub fn strip_wildcards(text: &[char]) -> (stripped: Vec<char>)
    ensures
        stripped@ == without_wildcards(text@),
{
    let mut stripped: Vec<char> = Vec::new();
    let mut i: usize = 0;
    while i < text.len()
        invariant
            i <= text.len(),
            stripped@ == without_wildcards(text@.take(i as int)),
        decreases text.len() - i,
    {
        proof {
            assert(text@.take(i + 1).drop_last() =~= text@.take(i as int));
        }
        if text[i] != WILDCARD {
            stripped.push(text[i]);
        }
        i += 1;
    }
    proof {
        assert(text@.take(text.len() as int) =~= text@);
    }
    stripped
}

/// The characters of a string, in order.
pub fn chars_of(text: &str) -> (chars: Vec<char>)
    ensures
        chars@ == text@,
{
    broadcast use vstd::string::axiom_spec_iter;

    let mut chars: Vec<char> = Vec::new();
    let letters = text.chars();
    for c in it: letters
        invariant
            it.seq() == text@,
            chars@ == it.seq().take(it.index()),
    {
        chars.push(c);
    }
    chars
}

/// Calls `str::to_lowercase` on the string that `text` spells. The result
/// is trusted to depend on the characters of `text` alone; nothing else is
/// claimed of it.
#[verifier::external_body]
pub(crate) fn to_lowercase(text: &[char]) -> (lowered: Vec<char>)
    ensures
        lowered@ == lowercase(text@),
{
    let spelled: String = text.iter().collect();
    spelled.to_lowercase().chars().collect()
}

} // verus!
