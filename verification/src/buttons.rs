//! Locating the global list of key buttons.

use vstd::prelude::*;

use crate::offsets::{address_add, checked_address_add, Fault};
use crate::pattern::{
    button_list_pattern, button_list_pattern_bytes, pattern_occurs, pattern_scan, scan,
    scan_reaches,
};

verus! {

/// The address of the instruction that loads the button list head, in the module
/// image `b` loaded at `base`: `None` when the anchoring pattern is not found.
pub open spec fn button_list_site(b: Seq<u8>, base: u64) -> Result<Option<u64>, Fault> {
    match pattern_scan(button_list_pattern_bytes(), b) {
        None => Ok(None),
        Some(offset) => match address_add(base, offset as int) {
            Ok(site) => Ok(Some(site)),
            Err(f) => Err(f),
        },
    }
}

/// Locates the instruction that loads the head of the key button list, in the module
/// image `buf` loaded at `base`. The list address is the RIP-relative operand of that
/// instruction.
pub fn locate_button_list(buf: &[u8], base: u64) -> (r: Result<Option<u64>, Fault>)
    ensures
        r == button_list_site(buf@, base),
        (forall|q: int| !pattern_occurs(button_list_pattern_bytes(), buf@, q)) ==> r == Ok::<
            Option<u64>,
            Fault,
        >(None),
        forall|q: int|
            #![trigger pattern_occurs(button_list_pattern_bytes(), buf@, q)]
            pattern_occurs(button_list_pattern_bytes(), buf@, q) && scan_reaches(
                button_list_pattern_bytes(),
                buf@,
                q,
            ) && base + q + button_list_pattern_bytes().len() <= u64::MAX ==> (r matches Ok(
                Some(site),
            ) && (q > 0 ==> site == base + q)),
{
    let pattern = button_list_pattern();
    match scan(pattern.as_slice(), buf) {
        None => Ok(None),
        Some(offset) => match checked_address_add(base, offset as u64) {
            Ok(site) => Ok(Some(site)),
            Err(f) => Err(f),
        },
    }
}

} // verus!
