use vstd::prelude::*;
use vstd::string::*;
use crate::text::{find_from, contains, occurs_at, occurs_in};

verus! {

/// `BGX13`, which starts the version text. Older firmware omits the `P.` that
/// newer versions write after it.
pub open spec fn version_marker() -> Seq<u8> {
    seq![66u8, 71u8, 88u8, 49u8, 51u8]
}

/// `BGX13P.1.2.2738`, the firmware line that takes every default setting.
pub open spec fn known_good_marker() -> Seq<u8> {
    seq![66u8, 71u8, 88u8, 49u8, 51u8, 80u8, 46u8, 49u8, 46u8, 50u8, 46u8, 50u8, 55u8, 51u8, 56u8]
}

/// A carriage return and a line feed.
pub open spec fn crlf() -> Seq<u8> {
    seq![13u8, 10u8]
}

/// `needle` occurs at `i`, and nowhere from `from` up to `i`.
pub open spec fn first_from(hay: Seq<u8>, needle: Seq<u8>, from: int, i: int) -> bool {
    &&& from <= i
    &&& occurs_at(hay, needle, i)
    &&& forall|j: int| from <= j < i ==> !occurs_at(hay, needle, j)
}

/// The version text: from the first `BGX13` up to the line end that follows it.
pub open spec fn version_in(s: Seq<u8>, v: Seq<u8>) -> bool {
    exists|i: int, e: int|
        first_from(s, version_marker(), 0, i) && first_from(s, crlf(), i, e) && v == s.subrange(
            i,
            e,
        )
}

/// Some version text can be read: a `BGX13` with a line end after it.
pub open spec fn has_version(s: Seq<u8>) -> bool {
    exists|i: int, e: int| first_from(s, version_marker(), 0, i) && first_from(s, crlf(), i, e)
}

pub(crate) fn version_marker_bytes() -> (r: Vec<u8>)
    ensures
        r@ == version_marker(),
{
    vec![66u8, 71u8, 88u8, 49u8, 51u8]
}

pub(crate) fn known_good_bytes() -> (r: Vec<u8>)
    ensures
        r@ == known_good_marker(),
{
    vec![66u8, 71u8, 88u8, 49u8, 51u8, 80u8, 46u8, 49u8, 46u8, 50u8, 46u8, 50u8, 55u8, 51u8, 56u8]
}

pub(crate) fn crlf_bytes() -> (r: Vec<u8>)
    ensures
        r@ == crlf(),
{
    vec![13u8, 10u8]
}

/// Reads the firmware version from the reply to `ver`: the text from the first
/// `BGX13` up to, not including, the next `\r\n`.
pub fn parse_fw_ver(input: &str) -> (r: Option<Vec<u8>>)
    ensures
        r is Some <==> has_version(input.spec_bytes()),
        r is Some ==> version_in(input.spec_bytes(), r->Some_0@),
{
    fw_version_of(input.as_bytes())
}

/// [`parse_fw_ver`] on the reply's bytes.
pub fn fw_version_of(s: &[u8]) -> (r: Option<Vec<u8>>)
    ensures
        r is Some <==> has_version(s@),
        r is Some ==> version_in(s@, r->Some_0@),
{
    let marker = version_marker_bytes();
    let i = match find_from(s, marker.as_slice(), 0) {
        Some(i) => i,
        None => {
            return None;
        },
    };
    let end = crlf_bytes();
    let e = match find_from(s, end.as_slice(), i) {
        Some(e) => e,
        None => {
            assert forall|i2: int, e2: int|
                first_from(s@, version_marker(), 0, i2) implies !first_from(
                s@,
                crlf(),
                i2,
                e2,
            ) by {
                if i2 < i {
                    assert(!occurs_at(s@, version_marker(), i2));
                }
                if i < i2 {
                    assert(!occurs_at(s@, version_marker(), i as int));
                }
            }
            return None;
        },
    };
    let mut v: Vec<u8> = Vec::new();
    let mut k: usize = i;
    while k < e
        invariant
            i <= k <= e,
            e + 2 <= s@.len(),
            v@ == s@.subrange(i as int, k as int),
        decreases e - k,
    {
        v.push(s[k]);
        k = k + 1;
        assert(v@ =~= s@.subrange(i as int, k as int));
    }
    assert(first_from(s@, version_marker(), 0, i as int));
    assert(first_from(s@, crlf(), i as int, e as int));
    Some(v)
}

/// Whether a version is of the firmware line that takes every default setting.
pub fn is_known_good(version: &[u8]) -> (r: bool)
    ensures
        r == occurs_in(version@, known_good_marker()),
{
    let m = known_good_bytes();
    contains(version, m.as_slice())
}

/// The version text read from a reply that has one.
pub open spec fn version_text(s: Seq<u8>) -> Seq<u8> {
    choose|v: Seq<u8>| version_in(s, v)
}

/// A reply holds at most one version text, and it is [`version_text`].
pub proof fn lemma_version_text(s: Seq<u8>, v: Seq<u8>)
    requires
        version_in(s, v),
    ensures
        version_text(s) == v,
{
    let w = version_text(s);
    assert(version_in(s, w));
    let (i1, e1) = choose|i: int, e: int|
        first_from(s, version_marker(), 0, i) && first_from(s, crlf(), i, e) && v == s.subrange(
            i,
            e,
        );
    let (i2, e2) = choose|i: int, e: int|
        first_from(s, version_marker(), 0, i) && first_from(s, crlf(), i, e) && w == s.subrange(
            i,
            e,
        );
    if i1 < i2 {
        assert(!occurs_at(s, version_marker(), i1));
    }
    if i2 < i1 {
        assert(!occurs_at(s, version_marker(), i2));
    }
    if e1 < e2 {
        assert(!occurs_at(s, crlf(), e1));
    }
    if e2 < e1 {
        assert(!occurs_at(s, crlf(), e2));
    }
}

} // verus!
