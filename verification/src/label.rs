//! Recognising the thermal components that belong to the processor by their
//! labels.

use vstd::prelude::*;
use vstd::std_specs::iter::IteratorSpec;

verus! {

/// The characters of `text`, in order.
pub fn chars_of(text: &str) -> (chars: Vec<char>)
    ensures
        chars@ == text@,
{
    broadcast use vstd::string::axiom_spec_iter, vstd::string::next_postcondition;

    let mut chars: Vec<char> = Vec::new();
    let mut rest = text.chars();
    loop
        invariant
            chars@ + rest.remaining() == text@,
            rest.decrease() is Some,
        ensures
            chars@ == text@,
        decreases rest.decrease()->0,
    {
        match rest.next() {
            Some(c) => {
                chars.push(c);
            },
            None => {
                break ;
            },
        }
    }
    chars
}

/// The lower-case form of a text as the standard library's
/// `str::to_lowercase` computes it from the Unicode case tables.
pub uninterp spec fn lowercase_of(text: Seq<char>) -> Seq<char>;

/// `needle` stands in `hay` at position `at`.
pub open spec fn occurs_at(needle: Seq<char>, hay: Seq<char>, at: int) -> bool {
    &&& 0 <= at
    &&& at + needle.len() <= hay.len()
    &&& hay.subrange(at, at + needle.len()) == needle
}

/// `needle` is a contiguous part of `hay`.
pub open spec fn occurs_in(needle: Seq<char>, hay: Seq<char>) -> bool {
    exists|at: int| occurs_at(needle, hay, at)
}

/// A lower-case label holds one of the words by which sensors of the
/// processor are known.
pub open spec fn names_processor(lowered: Seq<char>) -> bool {
    ||| occurs_in("cpu"@, lowered)
    ||| occurs_in("processor"@, lowered)
    ||| occurs_in("package"@, lowered)
    ||| occurs_in("core"@, lowered)
    ||| occurs_in("tctl"@, lowered)
    ||| occurs_in("tdie"@, lowered)
    ||| occurs_in("temp"@, lowered)
}

/// Calls `str::to_lowercase` of the standard library. The contract gives the
/// result its name, [`lowercase_of`], and claims nothing else of it.
#[verifier::external_body]
fn lowercase(text: &str) -> (lowered: String)
    ensures
        lowered@ == lowercase_of(text@),
{
    text.to_lowercase()
}

fn matches_at(needle: &Vec<char>, hay: &Vec<char>, at: usize) -> (found: bool)
    requires
        at + needle@.len() <= hay@.len(),
    ensures
        found == occurs_at(needle@, hay@, at as int),
{
    let n: usize = needle.len();
    let h: usize = hay.len();
    let mut k: usize = 0;
    while k < n
        invariant
            n == needle@.len(),
            h == hay@.len(),
            at + n <= h,
            k <= n,
            forall|j: int| 0 <= j < k ==> hay@[at + j] == needle@[j],
        decreases n - k,
    {
        if hay[at + k] != needle[k] {
            proof {
                let part = hay@.subrange(at as int, at + n);
                assert(part[k as int] == hay@[at + k]);
            }
            return false;
        }
        k = k + 1;
    }
    assert(hay@.subrange(at as int, at + n) =~= needle@);
    true
}

/// Whether `needle` is a contiguous part of `hay`.
pub fn contains(hay: &Vec<char>, needle: &Vec<char>) -> (found: bool)
    ensures
        found == occurs_in(needle@, hay@),
{
    let n: usize = needle.len();
    let h: usize = hay.len();
    if n > h {
        return false;
    }
    let last: usize = h - n;
    let mut at: usize = 0;
    while at < last
        invariant
            n == needle@.len(),
            h == hay@.len(),
            last == h - n,
            at <= last,
            forall|j: int| 0 <= j < at ==> !occurs_at(needle@, hay@, j),
        decreases last - at,
    {
        if matches_at(needle, hay, at) {
            return true;
        }
        at = at + 1;
    }
    matches_at(needle, hay, last)
}

/// Whether a label that is already in lower case names the processor.
pub fn mentions_processor(lowered: &str) -> (found: bool)
    ensures
        found == names_processor(lowered@),
{
    let hay = chars_of(lowered);
    contains(&hay, &chars_of("cpu")) || contains(&hay, &chars_of("processor")) || contains(
        &hay,
        &chars_of("package"),
    ) || contains(&hay, &chars_of("core")) || contains(&hay, &chars_of("tctl")) || contains(
        &hay,
        &chars_of("tdie"),
    ) || contains(&hay, &chars_of("temp"))
}

/// Whether the label of a thermal component names the processor: whether,
/// letter case aside, it holds one of `cpu`, `processor`, `package`, `core`,
/// `tctl`, `tdie` or `temp`.
pub fn is_cpu_label(label: &str) -> (found: bool)
    ensures
        found == names_processor(lowercase_of(label@)),
{
    let lowered = lowercase(label);
    mentions_processor(lowered.as_str())
}

} // verus!
