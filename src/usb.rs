use vstd::prelude::*;
use vstd::string::*;
use crate::text::{contains, occurs_in};

verus! {

/// `Silicon Labs`.
pub open spec fn silicon_labs() -> Seq<u8> {
    seq![83u8, 105u8, 108u8, 105u8, 99u8, 111u8, 110u8, 32u8, 76u8, 97u8, 98u8, 115u8]
}

/// `Cygnal`.
pub open spec fn cygnal() -> Seq<u8> {
    seq![67u8, 121u8, 103u8, 110u8, 97u8, 108u8]
}

/// `CP21`.
pub open spec fn cp21() -> Seq<u8> {
    seq![67u8, 80u8, 50u8, 49u8]
}

/// A USB manufacturer name of the serial bridges that carry the module.
pub open spec fn bridge_manufacturer(s: Seq<u8>) -> bool {
    occurs_in(s, silicon_labs()) || occurs_in(s, cygnal()) || occurs_in(s, cp21())
}

/// Whether a USB manufacturer name is one of the module's serial bridges: it
/// names `Silicon Labs`, `Cygnal` or `CP21`.
pub fn is_bgx_manufacturer(name: &str) -> (r: bool)
    ensures
        r == bridge_manufacturer(name.spec_bytes()),
{
    let b = name.as_bytes();
    let a: Vec<u8> = vec![83u8, 105u8, 108u8, 105u8, 99u8, 111u8, 110u8, 32u8, 76u8, 97u8, 98u8, 115u8];
    let c: Vec<u8> = vec![67u8, 121u8, 103u8, 110u8, 97u8, 108u8];
    let d: Vec<u8> = vec![67u8, 80u8, 50u8, 49u8];
    assert(a@ =~= silicon_labs());
    assert(c@ =~= cygnal());
    assert(d@ =~= cp21());
    contains(b, a.as_slice()) || contains(b, c.as_slice()) || contains(b, d.as_slice())
}

} // verus!
