use vstd::prelude::*;
use vstd::slice::*;
use vstd::string::*;
use vstd::utf8::*;
use crate::mac::{Mac, is_mac_text, mac_octets};
use crate::response::{BgxResponse, ResponseView};
use crate::scan::span_of;
use crate::text::{
    bytes_equal,
    split_lines,
    split_words,
    lines,
    words,
    lemma_lines_in_bounds,
    lemma_words_in_bounds,
};

verus! {

/// `Addr`, the name of the row that holds the peer's address.
pub open spec fn addr_word() -> Seq<u8> {
    seq![65u8, 100u8, 100u8, 114u8]
}

/// The address that a row `#  Addr  <hex12>` of the connection parameters names.
pub open spec fn addr_row(l: Seq<u8>) -> Option<Seq<u8>> {
    let w = words(l);
    if w.len() >= 3 && span_of(l, w[0]) == seq![35u8] && span_of(l, w[1]) == addr_word()
        && span_of(l, w[2]).len() == 12 && is_mac_text(span_of(l, w[2])) {
        Some(mac_octets(span_of(l, w[2])))
    } else {
        None
    }
}

/// The address named by the first of the rows `ls` of `s` that names one.
pub open spec fn addr_in(s: Seq<u8>, ls: Seq<(int, int)>) -> Option<Seq<u8>>
    decreases ls.len(),
{
    if ls.len() == 0 {
        None
    } else {
        match addr_in(s, ls.drop_last()) {
            Some(m) => Some(m),
            None => addr_row(span_of(s, ls.last())),
        }
    }
}

/// The address of the connected peer that the reply to `con params` names, if any.
pub open spec fn connected_addr(s: Seq<u8>) -> Option<Seq<u8>> {
    addr_in(s, lines(s))
}

/// The peer that the module is connected to.
#[derive(Debug, Clone, PartialEq, Eq)]
pub struct ConInfo(pub Mac);

/// Why no peer could be read from a reply.
#[derive(Debug, Clone, Copy, PartialEq, Eq)]
pub enum ConInfoError {
    /// The reply carried no header.
    UnexpectedRaw,
    /// No row names a peer: the module is not connected.
    NotConnected,
}

fn addr_row_of(l: &[u8]) -> (r: Option<Mac>)
    ensures
        r is Some <==> addr_row(l@) is Some,
        r is Some ==> r->Some_0.0@ == addr_row(l@)->Some_0,
{
    let w = split_words(l);
    if w.len() < 3 {
        return None;
    }
    proof {
        lemma_words_in_bounds(l@);
        assert(w@[0].0 as int == words(l@)[0].0 && w@[0].1 as int == words(l@)[0].1);
        assert(w@[1].0 as int == words(l@)[1].0 && w@[1].1 as int == words(l@)[1].1);
        assert(w@[2].0 as int == words(l@)[2].0 && w@[2].1 as int == words(l@)[2].1);
    }
    let hash: Vec<u8> = vec![35u8];
    let addr: Vec<u8> = vec![65u8, 100u8, 100u8, 114u8];
    assert(hash@ =~= seq![35u8]);
    assert(addr@ =~= addr_word());
    if !bytes_equal(slice_subrange(l, w[0].0, w[0].1), hash.as_slice()) {
        return None;
    }
    if !bytes_equal(slice_subrange(l, w[1].0, w[1].1), addr.as_slice()) {
        return None;
    }
    if w[2].1 - w[2].0 != 12 {
        return None;
    }
    match Mac::parse_bytes(slice_subrange(l, w[2].0, w[2].1)) {
        Ok(m) => Some(m),
        Err(_) => None,
    }
}

/// Reads the connected peer from the body of the reply to `con params`: the
/// first row `#  Addr  <hex12>`.
pub fn parse_con_param(input: &str) -> (r: Option<Mac>)
    ensures
        r is Some <==> connected_addr(input.spec_bytes()) is Some,
        r is Some ==> r->Some_0.0@ == connected_addr(input.spec_bytes())->Some_0,
{
    connected_peer(input.as_bytes())
}

/// [`parse_con_param`] on the body's bytes.
pub fn connected_peer(s: &[u8]) -> (r: Option<Mac>)
    ensures
        r is Some <==> connected_addr(s@) is Some,
        r is Some ==> r->Some_0.0@ == connected_addr(s@)->Some_0,
{
    let ls = split_lines(s);
    let ghost all = lines(s@);
    proof {
        lemma_lines_in_bounds(s@);
    }
    let mut k: usize = 0;
    while k < ls.len()
        invariant
            0 <= k <= ls@.len(),
            ls@.len() == all.len(),
            all == lines(s@),
            forall|j: int|
                0 <= j < ls@.len() ==> (ls@[j].0 as int, ls@[j].1 as int) == #[trigger] all[j],
            forall|j: int| 0 <= j < all.len() ==> 0 <= (#[trigger] all[j]).0 <= all[j].1 <= s@.len(),
            addr_in(s@, all.subrange(0, k as int)) is None,
        decreases ls@.len() - k,
    {
        let (a, b) = ls[k];
        assert((a as int, b as int) == all[k as int]);
        let found = addr_row_of(slice_subrange(s, a, b));
        assert(all.subrange(0, k + 1).drop_last() =~= all.subrange(0, k as int));
        match found {
            Some(m) => {
                proof {
                    lemma_addr_in_prefix(s@, all, k as int + 1);
                }
                return Some(m);
            },
            None => {},
        }
        k = k + 1;
    }
    assert(all.subrange(0, ls@.len() as int) =~= all);
    None
}

proof fn lemma_addr_in_prefix(s: Seq<u8>, all: Seq<(int, int)>, k: int)
    requires
        0 <= k <= all.len(),
        addr_in(s, all.subrange(0, k)) is Some,
    ensures
        addr_in(s, all) == addr_in(s, all.subrange(0, k)),
    decreases all.len() - k,
{
    if k < all.len() {
        assert(all.subrange(0, k + 1).drop_last() =~= all.subrange(0, k));
        lemma_addr_in_prefix(s, all, k + 1);
    } else {
        assert(all.subrange(0, k) =~= all);
    }
}

impl ConInfo {
    /// Reads the connected peer from the reply to `con params`.
    pub fn try_from(value: BgxResponse) -> (r: Result<ConInfo, ConInfoError>)
        ensures
            match value@ {
                ResponseView::Framed(_, b) => match connected_addr(encode_utf8(b)) {
                    Some(m) => r is Ok && r->Ok_0.0.0@ == m,
                    None => r == Err::<ConInfo, ConInfoError>(ConInfoError::NotConnected),
                },
                ResponseView::Raw(_) => r == Err::<ConInfo, ConInfoError>(
                    ConInfoError::UnexpectedRaw,
                ),
            },
    {
        match value {
            BgxResponse::DataWithHeader(_, s) => match connected_peer(s.as_str().as_bytes()) {
                Some(m) => Ok(ConInfo(m)),
                None => Err(ConInfoError::NotConnected),
            },
            BgxResponse::DataWithoutHeader(_) => Err(ConInfoError::UnexpectedRaw),
        }
    }
}

} // verus!
