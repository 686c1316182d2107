//! Locating a module's interface registration list.
//!
//! The list pointer is loaded in the prologue of the exported `CreateInterface`
//! function as `mov rbx, [rip + disp32]`. Anchoring the scan to that export keeps the
//! match unambiguous: the same byte sequence occurs elsewhere in larger modules.

use vstd::prelude::*;

use crate::elf::{export_rva, exported_symbol};
use crate::offsets::{address_add, checked_address_add, Fault};
use crate::pattern::{
    interface_list_pattern, interface_list_pattern_bytes, pattern_occurs, pattern_scan, scan,
    scan_reaches,
};

verus! {

/// How many bytes of `CreateInterface` are searched for the list load.
pub const PROLOGUE_LEN: usize = 0x40;

/// Why a module's interface list cannot be located.
#[derive(Debug, Clone, Copy, PartialEq, Eq)]
pub enum ListHeadError {
    /// The module exports no `CreateInterface`.
    NoExport,
    /// `CreateInterface` lies outside the module image.
    OutOfBounds,
    /// The prologue of `CreateInterface` does not load the list as expected.
    OutdatedPattern,
    /// The address arithmetic has no result.
    Fault(Fault),
}

/// The address of the list load, `found` bytes into the prologue that starts `start`
/// bytes into a module loaded at `base`.
pub open spec fn list_load_site(base: u64, start: usize, found: Option<usize>) -> Result<
    u64,
    ListHeadError,
> {
    match found {
        None => Err(ListHeadError::OutdatedPattern),
        Some(offset) => match address_add(base, start as int) {
            Ok(at) => match address_add(at, offset as int) {
                Ok(site) => Ok(site),
                Err(f) => Err(ListHeadError::Fault(f)),
            },
            Err(f) => Err(ListHeadError::Fault(f)),
        },
    }
}

/// Where the searched prologue of `CreateInterface`, starting at `start`, ends in an
/// image of `len` bytes.
pub open spec fn prologue_end(start: usize, len: int) -> int {
    if start + PROLOGUE_LEN <= len {
        start + PROLOGUE_LEN
    } else {
        len
    }
}

/// The address of the instruction that loads the interface list head, in the
/// module image `b` loaded at `base`: the list load in the first `PROLOGUE_LEN` bytes
/// (fewer at the end of the image) of the exported `CreateInterface`.
pub open spec fn interface_list_site(b: Seq<u8>, base: u64) -> Result<u64, ListHeadError> {
    match exported_symbol(b, base, "CreateInterface"@) {
        None => Err(ListHeadError::NoExport),
        Some(export) => {
            let start = export as usize;
            if start + PROLOGUE_LEN > usize::MAX {
                Err(ListHeadError::Fault(Fault::AddOverflow))
            } else {
                let end = prologue_end(start, b.len() as int);
                if start > end {
                    Err(ListHeadError::OutOfBounds)
                } else {
                    list_load_site(
                        base,
                        start,
                        pattern_scan(interface_list_pattern_bytes(), b.subrange(start as int, end)),
                    )
                }
            }
        },
    }
}

/// The address of the list load from where the scan of the prologue found it.
pub fn list_load_address(base: u64, start: usize, found: Option<usize>) -> (r: Result<
    u64,
    ListHeadError,
>)
    ensures
        r == list_load_site(base, start, found),
{
    let offset = match found {
        Some(o) => o,
        None => {
            return Err(ListHeadError::OutdatedPattern);
        },
    };
    let at = match checked_address_add(base, start as u64) {
        Ok(a) => a,
        Err(f) => {
            return Err(ListHeadError::Fault(f));
        },
    };
    match checked_address_add(at, offset as u64) {
        Ok(site) => Ok(site),
        Err(f) => Err(ListHeadError::Fault(f)),
    }
}

/// Locates the instruction `mov rbx, [rip + disp32]` that loads the head of the
/// module's interface list, in the module image `buf` loaded at `base`. The list
/// head is read through it (a RIP-relative operand, then a pointer).
pub fn locate_interface_list(buf: &[u8], base: u64) -> (r: Result<u64, ListHeadError>)
    ensures
        r == interface_list_site(buf@, base),
        r is Ok ==> (exported_symbol(buf@, base, "CreateInterface"@) matches Some(e) && exists|q: int|
            #![trigger pattern_occurs(interface_list_pattern_bytes(), buf@.subrange(e as usize as int, prologue_end(e as usize, buf@.len() as int)), q)]
            pattern_occurs(
                interface_list_pattern_bytes(),
                buf@.subrange(e as usize as int, prologue_end(e as usize, buf@.len() as int)),
                q,
            )),
        (exported_symbol(buf@, base, "CreateInterface"@) matches Some(e) && e as usize
            + PROLOGUE_LEN <= usize::MAX && e as usize <= buf@.len() && forall|q: int|
            !#[trigger] pattern_occurs(
                interface_list_pattern_bytes(),
                buf@.subrange(e as usize as int, prologue_end(e as usize, buf@.len() as int)),
                q,
            )) ==> r == Err::<u64, ListHeadError>(ListHeadError::OutdatedPattern),
        exported_symbol(buf@, base, "CreateInterface"@) matches Some(e) ==> forall|q: int|
            #![trigger pattern_occurs(
                interface_list_pattern_bytes(),
                buf@.subrange(
                    e as usize as int,
                    vstd::math::min(e as usize + 0x40, buf@.len() as int),
                ),
                q,
            )]
            e as usize + 0x40 <= usize::MAX && e as usize <= buf@.len() && pattern_occurs(
                interface_list_pattern_bytes(),
                buf@.subrange(
                    e as usize as int,
                    vstd::math::min(e as usize + 0x40, buf@.len() as int),
                ),
                q,
            ) && scan_reaches(
                interface_list_pattern_bytes(),
                buf@.subrange(
                    e as usize as int,
                    vstd::math::min(e as usize + 0x40, buf@.len() as int),
                ),
                q,
            ) && base + (e as usize) + q + interface_list_pattern_bytes().len() <= u64::MAX
                ==> (r matches Ok(site) && (q > 0 ==> site == base + (e as usize) + q)),
{
    let export = match export_rva(buf, base, "CreateInterface") {
        Some(e) => e,
        None => {
            return Err(ListHeadError::NoExport);
        },
    };
    let start = export as usize;
    if start > usize::MAX - PROLOGUE_LEN {
        return Err(ListHeadError::Fault(Fault::AddOverflow));
    }
    let end = if start + PROLOGUE_LEN <= buf.len() {
        start + PROLOGUE_LEN
    } else {
        buf.len()
    };
    if start > end {
        return Err(ListHeadError::OutOfBounds);
    }
    let pattern = interface_list_pattern();
    let found = scan(pattern.as_slice(), &buf[start..end]);
    list_load_address(base, start, found)
}

} // verus!
