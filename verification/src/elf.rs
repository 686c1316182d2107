//! Minimal ELF64 dynamic-symbol lookup over a module image read from process memory.
//!
//! The image is indexed by virtual address, which is what a module read out of
//! process memory looks like. `DT_SYMTAB` / `DT_STRTAB` are accepted both as
//! module-relative offsets (as on disk) and as absolute addresses (as relocated
//! in place by the loader).

use vstd::prelude::*;
use vstd::string::StringSliceAdditionalSpecFns;
use vstd::utf8::*;

use crate::text::{str_equal, utf8_str};

verus! {

broadcast use {encode_utf8_valid_utf8, encode_utf8_decode_utf8};

pub const PT_DYNAMIC: u32 = 2;

pub const DT_NULL: u64 = 0;

pub const DT_STRTAB: u64 = 5;

pub const DT_SYMTAB: u64 = 6;

pub const DT_SYMENT: u64 = 11;

pub const SYM_SIZE: u64 = 24;

// ---------------------------------------------------------------------------
// Model
// ---------------------------------------------------------------------------

/// The little-endian `u16` at `off`, if the two bytes lie inside `b`.
pub open spec fn le_u16(b: Seq<u8>, off: int) -> Option<u16> {
    if 0 <= off && off + 2 <= b.len() {
        Some((b[off] + 256 * b[off + 1]) as u16)
    } else {
        None
    }
}

/// The little-endian `u32` at `off`, if the four bytes lie inside `b`.
pub open spec fn le_u32(b: Seq<u8>, off: int) -> Option<u32> {
    if 0 <= off && off + 4 <= b.len() {
        Some((b[off] + 256 * (b[off + 1] + 256 * (b[off + 2] + 256 * b[off + 3]))) as u32)
    } else {
        None
    }
}

/// The little-endian `u64` at `off`, if the eight bytes lie inside `b`.
pub open spec fn le_u64(b: Seq<u8>, off: int) -> Option<u64> {
    if 0 <= off && off + 8 <= b.len() {
        Some(
            (b[off] + 256 * (b[off + 1] + 256 * (b[off + 2] + 256 * (b[off + 3] + 256 * (b[off
                + 4] + 256 * (b[off + 5] + 256 * (b[off + 6] + 256 * b[off + 7]))))))) as u64,
        )
    } else {
        None
    }
}

/// Whether `b` starts with the ELF magic and the 64-bit class byte.
pub open spec fn is_elf64(b: Seq<u8>) -> bool {
    &&& b.len() >= 5
    &&& b[0] == 0x7f
    &&& b[1] == 0x45
    &&& b[2] == 0x4c
    &&& b[3] == 0x46
    &&& b[4] == 2
}

/// Walks the program headers `i..phnum` for the first `PT_DYNAMIC` entry and gives its
/// `(p_vaddr, p_filesz)`; `(0, 0)` when there is none, `None` when a header read runs
/// past the image.
pub open spec fn dynamic_segment(b: Seq<u8>, phoff: int, entsize: int, phnum: int, i: int) -> Option<
    (u64, u64),
>
    decreases phnum - i,
{
    if i >= phnum {
        Some((0, 0))
    } else {
        let phdr = phoff + i * entsize;
        match le_u32(b, phdr) {
            None => None,
            Some(p_type) => if p_type == PT_DYNAMIC {
                match (le_u64(b, phdr + 0x10), le_u64(b, phdr + 0x20)) {
                    (Some(vaddr), Some(size)) => Some((vaddr, size)),
                    _ => None,
                }
            } else {
                dynamic_segment(b, phoff, entsize, phnum, i + 1)
            },
        }
    }
}

/// The dynamic tags that the lookup uses: `(DT_SYMTAB, DT_STRTAB, DT_SYMENT)`.
pub type DynamicTags = (Option<u64>, Option<u64>, u64);

/// The tags before any dynamic entry is read: the symbol size defaults to 24 bytes.
pub open spec fn initial_tags() -> DynamicTags {
    (None, None, SYM_SIZE)
}

/// Records one dynamic entry; a later entry of the same tag replaces an earlier one.
pub open spec fn record_tag(tags: DynamicTags, tag: u64, val: u64) -> DynamicTags {
    if tag == DT_STRTAB {
        (tags.0, Some(val), tags.2)
    } else if tag == DT_SYMTAB {
        (Some(val), tags.1, tags.2)
    } else if tag == DT_SYMENT {
        (tags.0, tags.1, val)
    } else {
        tags
    }
}

/// Walks the 16-byte dynamic entries from `entry` while a whole entry fits before
/// `end`, up to `DT_NULL`; `None` when an entry read runs past the image.
pub open spec fn dynamic_tags(b: Seq<u8>, entry: int, end: int, tags: DynamicTags) -> Option<
    DynamicTags,
>
    decreases end - entry,
{
    if entry + 16 > end {
        Some(tags)
    } else {
        match (le_u64(b, entry), le_u64(b, entry + 8)) {
            (Some(tag), Some(val)) => if tag == DT_NULL {
                Some(tags)
            } else {
                dynamic_tags(b, entry + 16, end, record_tag(tags, tag, val))
            },
            _ => None,
        }
    }
}

/// A loader-relocated (absolute) table address turned back into a module-relative one.
pub open spec fn rebase(v: u64, base: u64) -> u64 {
    if base != 0 && v >= base {
        (v - base) as u64
    } else {
        v
    }
}

/// The index of the first NUL byte at or after `k`.
pub open spec fn first_nul(b: Seq<u8>, k: int) -> Option<int>
    decreases b.len() - k,
{
    if 0 <= k < b.len() {
        if b[k] == 0 {
            Some(k)
        } else {
            first_nul(b, k + 1)
        }
    } else {
        None
    }
}

/// The bytes of the NUL-terminated string at `off` (without the NUL).
pub open spec fn c_string(b: Seq<u8>, off: int) -> Option<Seq<u8>> {
    match first_nul(b, off) {
        Some(e) => Some(b.subrange(off, e)),
        None => None,
    }
}

/// The value of the symbol table entry at `sym` when it is a defined symbol (a
/// non-zero name and section index) whose name in the string table at `strtab` is
/// `name`.
pub open spec fn symbol_match(b: Seq<u8>, sym: int, strtab: int, name: Seq<char>) -> Option<u64> {
    match (le_u32(b, sym), le_u16(b, sym + 6), le_u64(b, sym + 8)) {
        (Some(st_name), Some(st_shndx), Some(st_value)) => if st_name == 0 || st_shndx == 0 {
            None
        } else if c_string(b, strtab + st_name) == Some(encode_utf8(name)) {
            Some(st_value)
        } else {
            None
        },
        _ => None,
    }
}

/// The value of the first of the symbols `i..count` that matches `name`.
pub open spec fn find_symbol(
    b: Seq<u8>,
    symtab: int,
    strtab: int,
    syment: int,
    count: int,
    name: Seq<char>,
    i: int,
) -> Option<u64>
    decreases count - i,
{
    if i >= count {
        None
    } else {
        match symbol_match(b, symtab + i * syment, strtab, name) {
            Some(v) => Some(v),
            None => find_symbol(b, symtab, strtab, syment, count, name, i + 1),
        }
    }
}

/// Looks `name` up among the symbols between the (rebased) symbol table and string
/// table: the symbol table has no explicit count and runs up to the string table.
pub open spec fn lookup_in_tables(
    b: Seq<u8>,
    base: u64,
    tags: DynamicTags,
    name: Seq<char>,
) -> Option<u64> {
    match (tags.0, tags.1) {
        (Some(symtab), Some(strtab)) => {
            let symtab = rebase(symtab, base);
            let strtab = rebase(strtab, base);
            let syment = tags.2;
            if syment == 0 || strtab <= symtab {
                None
            } else {
                find_symbol(
                    b,
                    symtab as int,
                    strtab as int,
                    syment as int,
                    (strtab - symtab) / (syment as int),
                    name,
                    0,
                )
            }
        },
        _ => None,
    }
}

/// Where the first `PT_DYNAMIC` segment of an ELF64 image lies: `(p_vaddr, p_filesz)`,
/// or `(0, 0)` when there is none.
pub open spec fn dynamic_location(b: Seq<u8>) -> Option<(u64, u64)> {
    if !is_elf64(b) {
        None
    } else {
        match (le_u64(b, 0x20), le_u16(b, 0x36), le_u16(b, 0x38)) {
            (Some(phoff), Some(entsize), Some(phnum)) => dynamic_segment(
                b,
                phoff as int,
                entsize as int,
                phnum as int,
                0,
            ),
            _ => None,
        }
    }
}

/// The dynamic tags of an ELF64 image: the tags of the first `PT_DYNAMIC` segment,
/// which must be non-empty.
pub open spec fn image_tags(b: Seq<u8>) -> Option<DynamicTags> {
    match dynamic_location(b) {
        Some((dyn_addr, dyn_size)) => if dyn_size == 0 {
            None
        } else {
            dynamic_tags(b, dyn_addr as int, dyn_addr + dyn_size, initial_tags())
        },
        None => None,
    }
}

/// The module-relative address of the exported symbol `name` of the image `b` loaded
/// at `base`.
pub open spec fn exported_symbol(b: Seq<u8>, base: u64, name: Seq<char>) -> Option<u64> {
    match image_tags(b) {
        Some(tags) => lookup_in_tables(b, base, tags, name),
        None => None,
    }
}

/// Module-relative and loader-relocated tables resolve alike: for symbol and string
/// tables at module-relative offsets below the load address `base`, the lookup finds
/// the same export whether the dynamic tags hold those offsets (as on disk, looked up
/// with or without the load address) or the absolute addresses the loader writes in
/// their place.
pub proof fn lemma_relocated_tables_resolve_alike(
    b: Seq<u8>,
    base: u64,
    symtab: u64,
    strtab: u64,
    syment: u64,
    name: Seq<char>,
)
    requires
        base != 0,
        symtab < base,
        strtab < base,
        symtab + base <= u64::MAX,
        strtab + base <= u64::MAX,
    ensures
        lookup_in_tables(
            b,
            base,
            (Some((symtab + base) as u64), Some((strtab + base) as u64), syment),
            name,
        ) == lookup_in_tables(b, 0, (Some(symtab), Some(strtab), syment), name),
        lookup_in_tables(b, base, (Some(symtab), Some(strtab), syment), name) == lookup_in_tables(
            b,
            0,
            (Some(symtab), Some(strtab), syment),
            name,
        ),
{
}

/// Whether looking a name up among the symbols `i..count` reads the byte at `k`: the
/// 16 bytes of each symbol entry visited, and its name up to the terminating NUL (to
/// the end of the image when there is none). The lookup visits symbols until one
/// matches.
pub open spec fn lookup_reads(
    b: Seq<u8>,
    symtab: int,
    strtab: int,
    syment: int,
    count: int,
    name: Seq<char>,
    i: int,
    k: int,
) -> bool
    decreases count - i,
{
    if i >= count {
        false
    } else {
        let sym = symtab + i * syment;
        ||| sym <= k < sym + 16
        ||| name_reads(b, sym, strtab, k)
        ||| (symbol_match(b, sym, strtab, name) is None && lookup_reads(
            b,
            symtab,
            strtab,
            syment,
            count,
            name,
            i + 1,
            k,
        ))
    }
}

/// Whether reading the name of the symbol entry at `sym` reads the byte at `k`.
pub open spec fn name_reads(b: Seq<u8>, sym: int, strtab: int, k: int) -> bool {
    match le_u32(b, sym) {
        Some(st_name) => strtab + st_name <= k && match first_nul(b, strtab + st_name) {
            Some(e) => k <= e,
            None => true,
        },
        None => false,
    }
}

/// Reads give the same values where the bytes they cover agree.
proof fn lemma_reads_agree(b1: Seq<u8>, b2: Seq<u8>, off: int, n: int)
    requires
        b1.len() == b2.len(),
        0 < n <= 8,
        forall|k: int| off <= k < off + n && 0 <= k < b1.len() ==> b1[k] == b2[k],
    ensures
        n >= 2 ==> le_u16(b1, off) == le_u16(b2, off),
        n >= 4 ==> le_u32(b1, off) == le_u32(b2, off),
        n >= 8 ==> le_u64(b1, off) == le_u64(b2, off),
{
    if 0 <= off && off + n <= b1.len() {
        assert(b1[off] == b2[off]);
        if n >= 2 {
            assert(b1[off + 1] == b2[off + 1]);
        }
        if n >= 4 {
            assert(b1[off + 2] == b2[off + 2]);
            assert(b1[off + 3] == b2[off + 3]);
        }
        if n >= 8 {
            assert(b1[off + 4] == b2[off + 4]);
            assert(b1[off + 5] == b2[off + 5]);
            assert(b1[off + 6] == b2[off + 6]);
            assert(b1[off + 7] == b2[off + 7]);
        }
    }
}

/// The NUL search gives the same result where the bytes it covers agree.
proof fn lemma_first_nul_frame(b1: Seq<u8>, b2: Seq<u8>, k: int)
    requires
        b1.len() == b2.len(),
        forall|j: int|
            0 <= j < b1.len() && k <= j && (match first_nul(b1, k) {
                Some(e) => j <= e,
                None => true,
            }) ==> #[trigger] b1[j] == b2[j],
    ensures
        first_nul(b1, k) == first_nul(b2, k),
    decreases b1.len() - k,
{
    if 0 <= k < b1.len() {
        lemma_first_nul_bounds(b1, k);
        assert(b1[k] == b2[k]);
        if b1[k] != 0 {
            lemma_first_nul_frame(b1, b2, k + 1);
        }
    }
}

/// A NUL found from `k` lies at or after `k`, inside the image.
proof fn lemma_first_nul_bounds(b: Seq<u8>, k: int)
    ensures
        first_nul(b, k) matches Some(e) ==> k <= e < b.len() && 0 <= k,
    decreases b.len() - k,
{
    if 0 <= k < b.len() && b[k] != 0 {
        lemma_first_nul_bounds(b, k + 1);
    }
}

/// A symbol lookup depends only on the bytes it reads.
proof fn lemma_lookup_frame(
    b1: Seq<u8>,
    b2: Seq<u8>,
    symtab: int,
    strtab: int,
    syment: int,
    count: int,
    name: Seq<char>,
    i: int,
)
    requires
        b1.len() == b2.len(),
        forall|k: int|
            0 <= k < b1.len() && #[trigger] lookup_reads(
                b1,
                symtab,
                strtab,
                syment,
                count,
                name,
                i,
                k,
            ) ==> b1[k] == b2[k],
    ensures
        find_symbol(b1, symtab, strtab, syment, count, name, i) == find_symbol(
            b2,
            symtab,
            strtab,
            syment,
            count,
            name,
            i,
        ),
    decreases count - i,
{
    if i < count {
        let sym = symtab + i * syment;
        assert forall|k: int| sym <= k < sym + 16 && 0 <= k < b1.len() implies b1[k] == b2[k] by {
            assert(lookup_reads(b1, symtab, strtab, syment, count, name, i, k));
        }
        lemma_reads_agree(b1, b2, sym, 4);
        lemma_reads_agree(b1, b2, sym + 6, 2);
        lemma_reads_agree(b1, b2, sym + 8, 8);
        if let Some(st_name) = le_u32(b1, sym) {
            let off = strtab + st_name;
            assert forall|j: int|
                0 <= j < b1.len() && off <= j && (match first_nul(b1, off) {
                    Some(e) => j <= e,
                    None => true,
                }) implies #[trigger] b1[j] == b2[j] by {
                assert(name_reads(b1, sym, strtab, j));
                assert(lookup_reads(b1, symtab, strtab, syment, count, name, i, j));
            }
            lemma_first_nul_frame(b1, b2, off);
            if let Some(e) = first_nul(b1, off) {
                lemma_first_nul_bounds(b1, off);
                assert(b1.subrange(off, e) =~= b2.subrange(off, e));
            }
        }
        assert(symbol_match(b1, sym, strtab, name) == symbol_match(b2, sym, strtab, name));
        if symbol_match(b1, sym, strtab, name) is None {
            assert forall|k: int|
                0 <= k < b1.len() && #[trigger] lookup_reads(
                    b1,
                    symtab,
                    strtab,
                    syment,
                    count,
                    name,
                    i + 1,
                    k,
                ) implies b1[k] == b2[k] by {
                assert(lookup_reads(b1, symtab, strtab, syment, count, name, i, k));
            }
            lemma_lookup_frame(b1, b2, symtab, strtab, syment, count, name, i + 1);
        }
    }
}

/// A defined symbol (non-zero name offset and section index) whose name in the string
/// table is `name` matches with its value, whatever its binding, type and visibility
/// (the `st_info` and `st_other` bytes).
pub proof fn lemma_defined_symbol_matches(b: Seq<u8>, sym: int, strtab: int, name: Seq<char>)
    requires
        le_u32(b, sym) matches Some(st_name) && st_name != 0 && c_string(b, strtab + st_name)
            == Some(encode_utf8(name)),
        le_u16(b, sym + 6) matches Some(st_shndx) && st_shndx != 0,
        le_u64(b, sym + 8) is Some,
    ensures
        symbol_match(b, sym, strtab, name) == le_u64(b, sym + 8),
{
}

/// Matching a symbol reads neither its `st_info` nor its `st_other` byte, nor anything
/// before the string table besides its entry.
proof fn lemma_symbol_frame(b1: Seq<u8>, b2: Seq<u8>, sym: int, strtab: int, name: Seq<char>)
    requires
        b1.len() == b2.len(),
        forall|k: int|
            0 <= k < b1.len() && ((sym <= k < sym + 4) || (sym + 6 <= k < sym + 16) || strtab
                <= k) ==> #[trigger] b1[k] == b2[k],
    ensures
        symbol_match(b1, sym, strtab, name) == symbol_match(b2, sym, strtab, name),
{
    lemma_reads_agree(b1, b2, sym, 4);
    lemma_reads_agree(b1, b2, sym + 6, 2);
    lemma_reads_agree(b1, b2, sym + 8, 8);
    if let Some(st_name) = le_u32(b1, sym) {
        let off = strtab + st_name;
        lemma_first_nul_frame(b1, b2, off);
        if let Some(e) = first_nul(b1, off) {
            lemma_first_nul_bounds(b1, off);
            assert(b1.subrange(off, e) =~= b2.subrange(off, e));
        }
    }
}

/// The symbol lookup does not depend on the `st_info` and `st_other` bytes of any
/// entry: changing those two bytes of the entry `j` of the table (entries of at least
/// 16 bytes, running up to the string table) finds the same symbol value.
pub proof fn lemma_symbol_info_ignored(
    b1: Seq<u8>,
    b2: Seq<u8>,
    symtab: int,
    strtab: int,
    syment: int,
    name: Seq<char>,
    j: int,
    i: int,
)
    requires
        b1.len() == b2.len(),
        syment >= 16,
        0 <= j < (strtab - symtab) / syment,
        0 <= i,
        forall|k: int|
            0 <= k < b1.len() && !(symtab + j * syment + 4 <= k < symtab + j * syment + 6)
                ==> #[trigger] b1[k] == b2[k],
    ensures
        find_symbol(b1, symtab, strtab, syment, (strtab - symtab) / syment, name, i)
            == find_symbol(b2, symtab, strtab, syment, (strtab - symtab) / syment, name, i),
    decreases (strtab - symtab) / syment - i,
{
    let count = (strtab - symtab) / syment;
    if i < count {
        let sym = symtab + i * syment;
        let changed = symtab + j * syment;
        assert(count * syment <= strtab - symtab) by (nonlinear_arith)
            requires
                syment > 0,
                count == (strtab - symtab) / syment,
        ;
        assert(changed + syment <= symtab + count * syment) by (nonlinear_arith)
            requires
                j < count,
                syment > 0,
                changed == symtab + j * syment,
        ;
        if i < j {
            assert(sym + syment <= changed) by (nonlinear_arith)
                requires
                    i < j,
                    syment > 0,
                    sym == symtab + i * syment,
                    changed == symtab + j * syment,
            ;
        } else if i > j {
            assert(changed + syment <= sym) by (nonlinear_arith)
                requires
                    i > j,
                    syment > 0,
                    sym == symtab + i * syment,
                    changed == symtab + j * syment,
            ;
        }
        lemma_symbol_frame(b1, b2, sym, strtab, name);
        lemma_symbol_info_ignored(b1, b2, symtab, strtab, syment, name, j, i + 1);
    }
}

/// An image read out of a live process resolves exports as the same image on disk.
/// The loader relocates the dynamic section in place: the dynamic tags of `live` hold
/// the absolute addresses (load address `base` added) of the module-relative tables
/// of `disk`, and the bytes that the symbol lookup reads (symbol entries and names)
/// are not among those rewritten. `export_rva` then finds the same address in both,
/// and finds it in `disk` whether or not the load address is given.
pub proof fn lemma_live_image_resolves_as_on_disk(
    disk: Seq<u8>,
    live: Seq<u8>,
    base: u64,
    name: Seq<char>,
)
    requires
        base != 0,
        disk.len() == live.len(),
        image_tags(disk) matches Some((Some(symtab), Some(strtab), syment)) && {
            &&& symtab < base
            &&& strtab < base
            &&& symtab + base <= u64::MAX
            &&& strtab + base <= u64::MAX
            &&& image_tags(live) == Some::<DynamicTags>(
                (Some((symtab + base) as u64), Some((strtab + base) as u64), syment),
            )
            &&& forall|k: int|
                0 <= k < disk.len() && #[trigger] lookup_reads(
                    disk,
                    symtab as int,
                    strtab as int,
                    syment as int,
                    (strtab - symtab) / (syment as int),
                    name,
                    0,
                    k,
                ) ==> disk[k] == live[k]
        },
    ensures
        exported_symbol(live, base, name) == exported_symbol(disk, 0, name),
        exported_symbol(disk, base, name) == exported_symbol(disk, 0, name),
{
    let (symtab, strtab, syment) = image_tags(disk).unwrap();
    let s = symtab.unwrap();
    let t = strtab.unwrap();
    if syment != 0 && s < t {
        lemma_lookup_frame(
            disk,
            live,
            s as int,
            t as int,
            syment as int,
            (t - s) / (syment as int),
            name,
            0,
        );
    }
}

/// Whether the program-header walk from header `i` reads the byte at `k`: the type of
/// each header visited, and the address and size of the first `PT_DYNAMIC` one.
pub open spec fn segment_reads(
    b: Seq<u8>,
    phoff: int,
    entsize: int,
    phnum: int,
    i: int,
    k: int,
) -> bool
    decreases phnum - i,
{
    if i >= phnum {
        false
    } else {
        let phdr = phoff + i * entsize;
        ||| phdr <= k < phdr + 4
        ||| match le_u32(b, phdr) {
            Some(p_type) => if p_type == PT_DYNAMIC {
                (phdr + 0x10 <= k < phdr + 0x18) || (phdr + 0x20 <= k < phdr + 0x28)
            } else {
                segment_reads(b, phoff, entsize, phnum, i + 1, k)
            },
            None => false,
        }
    }
}

/// Whether finding the dynamic segment reads the byte at `k`: the ELF header, and the
/// program headers that the walk visits.
pub open spec fn header_reads(b: Seq<u8>, k: int) -> bool {
    ||| 0 <= k < 0x40
    ||| match (le_u64(b, 0x20), le_u16(b, 0x36), le_u16(b, 0x38)) {
        (Some(phoff), Some(entsize), Some(phnum)) => segment_reads(
            b,
            phoff as int,
            entsize as int,
            phnum as int,
            0,
            k,
        ),
        _ => false,
    }
}

/// Whether the byte at `k` lies in the value of a `DT_SYMTAB` or `DT_STRTAB` entry met
/// by the dynamic walk from `entry`.
pub open spec fn relocated_field(b: Seq<u8>, entry: int, end: int, k: int) -> bool
    decreases end - entry,
{
    if entry + 16 > end {
        false
    } else {
        match (le_u64(b, entry), le_u64(b, entry + 8)) {
            (Some(tag), Some(_)) => if tag == DT_NULL {
                false
            } else {
                ||| ((tag == DT_SYMTAB || tag == DT_STRTAB) && entry + 8 <= k < entry + 16)
                ||| relocated_field(b, entry + 16, end, k)
            },
            _ => false,
        }
    }
}

/// Whether the byte at `k` is one that the loader rewrites when it relocates the
/// dynamic section of `b` in place: part of the value of a `DT_SYMTAB` or `DT_STRTAB`
/// entry.
pub open spec fn relocated_byte(b: Seq<u8>, k: int) -> bool {
    match dynamic_location(b) {
        Some((dyn_addr, dyn_size)) => relocated_field(b, dyn_addr as int, dyn_addr + dyn_size, k),
        None => false,
    }
}

/// Whether `rel` holds, as the value of each `DT_SYMTAB` and `DT_STRTAB` entry met by
/// the dynamic walk of `img` from `entry`, that value in `img` plus `base`.
pub open spec fn relocated_values(img: Seq<u8>, rel: Seq<u8>, base: u64, entry: int, end: int) -> bool
    decreases end - entry,
{
    if entry + 16 > end {
        true
    } else {
        match (le_u64(img, entry), le_u64(img, entry + 8)) {
            (Some(tag), Some(val)) => if tag == DT_NULL {
                true
            } else {
                &&& (tag == DT_SYMTAB || tag == DT_STRTAB) ==> le_u64(rel, entry + 8) == Some(
                    (val + base) as u64,
                )
                &&& relocated_values(img, rel, base, entry + 16, end)
            },
            _ => true,
        }
    }
}

/// Whether `rel` is `img` with its dynamic section relocated in place for the load
/// address `base`: each `DT_SYMTAB` and `DT_STRTAB` value raised by `base`, every other
/// byte unchanged, and the ELF and program headers not among the bytes rewritten.
pub open spec fn relocated_in_place(img: Seq<u8>, rel: Seq<u8>, base: u64) -> bool {
    &&& img.len() == rel.len()
    &&& forall|k: int| 0 <= k < img.len() && !#[trigger] relocated_byte(img, k) ==> rel[k] == img[k]
    &&& forall|k: int| #[trigger] relocated_byte(img, k) ==> !header_reads(img, k)
    &&& match dynamic_location(img) {
        Some((dyn_addr, dyn_size)) => relocated_values(
            img,
            rel,
            base,
            dyn_addr as int,
            dyn_addr + dyn_size,
        ),
        None => true,
    }
}

/// The tags with the symbol and string table addresses raised by `base`.
pub open spec fn relocate_tags(tags: DynamicTags, base: u64) -> DynamicTags {
    (
        match tags.0 {
            Some(v) => Some((v + base) as u64),
            None => None,
        },
        match tags.1 {
            Some(v) => Some((v + base) as u64),
            None => None,
        },
        tags.2,
    )
}

/// The program-header walk depends only on the bytes it reads.
proof fn lemma_segment_frame(
    b1: Seq<u8>,
    b2: Seq<u8>,
    phoff: int,
    entsize: int,
    phnum: int,
    i: int,
)
    requires
        b1.len() == b2.len(),
        forall|k: int|
            0 <= k < b1.len() && #[trigger] segment_reads(b1, phoff, entsize, phnum, i, k)
                ==> b1[k] == b2[k],
    ensures
        dynamic_segment(b1, phoff, entsize, phnum, i) == dynamic_segment(
            b2,
            phoff,
            entsize,
            phnum,
            i,
        ),
    decreases phnum - i,
{
    if i < phnum {
        let phdr = phoff + i * entsize;
        assert forall|k: int| phdr <= k < phdr + 4 && 0 <= k < b1.len() implies b1[k] == b2[k] by {
            assert(segment_reads(b1, phoff, entsize, phnum, i, k));
        }
        lemma_reads_agree(b1, b2, phdr, 4);
        if le_u32(b1, phdr) == Some(PT_DYNAMIC) {
            assert forall|k: int|
                phdr + 0x10 <= k < phdr + 0x18 && 0 <= k < b1.len() implies b1[k] == b2[k] by {
                assert(segment_reads(b1, phoff, entsize, phnum, i, k));
            }
            assert forall|k: int|
                phdr + 0x20 <= k < phdr + 0x28 && 0 <= k < b1.len() implies b1[k] == b2[k] by {
                assert(segment_reads(b1, phoff, entsize, phnum, i, k));
            }
            lemma_reads_agree(b1, b2, phdr + 0x10, 8);
            lemma_reads_agree(b1, b2, phdr + 0x20, 8);
        } else if le_u32(b1, phdr) is Some {
            assert forall|k: int|
                0 <= k < b1.len() && #[trigger] segment_reads(
                    b1,
                    phoff,
                    entsize,
                    phnum,
                    i + 1,
                    k,
                ) implies b1[k] == b2[k] by {
                assert(segment_reads(b1, phoff, entsize, phnum, i, k));
            }
            lemma_segment_frame(b1, b2, phoff, entsize, phnum, i + 1);
        }
    }
}

/// Finding the dynamic segment depends only on the bytes it reads.
proof fn lemma_location_frame(b1: Seq<u8>, b2: Seq<u8>)
    requires
        b1.len() == b2.len(),
        forall|k: int| 0 <= k < b1.len() && #[trigger] header_reads(b1, k) ==> b1[k] == b2[k],
    ensures
        dynamic_location(b1) == dynamic_location(b2),
{
    assert forall|k: int| 0 <= k < 0x40 && 0 <= k < b1.len() implies b1[k] == b2[k] by {
        assert(header_reads(b1, k));
    }
    if b1.len() >= 5 {
        assert(b1[0] == b2[0] && b1[1] == b2[1] && b1[2] == b2[2] && b1[3] == b2[3] && b1[4]
            == b2[4]);
    }
    lemma_reads_agree(b1, b2, 0x20, 8);
    lemma_reads_agree(b1, b2, 0x36, 2);
    lemma_reads_agree(b1, b2, 0x38, 2);
    if let (Some(phoff), Some(entsize), Some(phnum)) = (
        le_u64(b1, 0x20),
        le_u16(b1, 0x36),
        le_u16(b1, 0x38),
    ) {
        assert forall|k: int|
            0 <= k < b1.len() && #[trigger] segment_reads(
                b1,
                phoff as int,
                entsize as int,
                phnum as int,
                0,
                k,
            ) implies b1[k] == b2[k] by {
            assert(header_reads(b1, k));
        }
        lemma_segment_frame(b1, b2, phoff as int, entsize as int, phnum as int, 0);
    }
}

/// Every byte of a relocated value lies past the tag of the entry the walk starts at.
proof fn lemma_relocated_field_after(b: Seq<u8>, entry: int, end: int, k: int)
    requires
        relocated_field(b, entry, end, k),
    ensures
        k >= entry + 8,
    decreases end - entry,
{
    if entry + 16 <= end {
        if let (Some(tag), Some(_)) = (le_u64(b, entry), le_u64(b, entry + 8)) {
            if tag != DT_NULL && !((tag == DT_SYMTAB || tag == DT_STRTAB) && entry + 8 <= k
                < entry + 16) {
                lemma_relocated_field_after(b, entry + 16, end, k);
            }
        }
    }
}

/// Relocating the dynamic values in place relocates the tags the walk collects.
proof fn lemma_relocated_walk(
    img: Seq<u8>,
    rel: Seq<u8>,
    base: u64,
    entry: int,
    end: int,
    tags: DynamicTags,
)
    requires
        img.len() == rel.len(),
        relocated_values(img, rel, base, entry, end),
        forall|k: int|
            0 <= k < img.len() && entry <= k && !#[trigger] relocated_field(img, entry, end, k)
                ==> rel[k] == img[k],
    ensures
        dynamic_tags(rel, entry, end, relocate_tags(tags, base)) == match dynamic_tags(
            img,
            entry,
            end,
            tags,
        ) {
            Some(t) => Some(relocate_tags(t, base)),
            None => None,
        },
    decreases end - entry,
{
    if entry + 16 <= end {
        assert forall|k: int| entry <= k < entry + 8 && 0 <= k < img.len() implies rel[k]
            == img[k] by {
            if relocated_field(img, entry, end, k) {
                lemma_relocated_field_after(img, entry, end, k);
            }
        }
        lemma_reads_agree(img, rel, entry, 8);
        if let (Some(tag), Some(val)) = (le_u64(img, entry), le_u64(img, entry + 8)) {
            if tag != DT_NULL {
                if !(tag == DT_SYMTAB || tag == DT_STRTAB) {
                    assert forall|k: int|
                        entry + 8 <= k < entry + 16 && 0 <= k < img.len() implies rel[k]
                        == img[k] by {
                        if relocated_field(img, entry + 16, end, k) {
                            lemma_relocated_field_after(img, entry + 16, end, k);
                        }
                        assert(!relocated_field(img, entry, end, k));
                    }
                    lemma_reads_agree(img, rel, entry + 8, 8);
                }
                let rval: u64 = if tag == DT_SYMTAB || tag == DT_STRTAB {
                    (val + base) as u64
                } else {
                    val
                };
                assert(le_u64(rel, entry + 8) == Some(rval));
                assert(record_tag(relocate_tags(tags, base), tag, rval) == relocate_tags(
                    record_tag(tags, tag, val),
                    base,
                ));
                assert forall|k: int|
                    0 <= k < img.len() && entry + 16 <= k && !#[trigger] relocated_field(
                        img,
                        entry + 16,
                        end,
                        k,
                    ) implies rel[k] == img[k] by {
                    assert(!relocated_field(img, entry, end, k));
                }
                lemma_relocated_walk(img, rel, base, entry + 16, end, record_tag(tags, tag, val));
            }
        }
    }
}

/// An image relocated in place by the loader resolves exports as the image it was
/// loaded from. `rel` is `img` with the value of each `DT_SYMTAB` and `DT_STRTAB`
/// entry of its dynamic section raised by the load address `base` and every other byte
/// unchanged, where the rewritten bytes are neither in the ELF and program headers nor
/// among the symbol entries and names that the lookup reads. When the tables lie below
/// `base` (module-relative offsets, as on disk), `export_rva` finds in `rel` loaded at
/// `base` the address it finds in `img`, and finds it in `img` whether or not the load
/// address is given.
pub proof fn lemma_relocated_image_resolves_as_original(
    img: Seq<u8>,
    rel: Seq<u8>,
    base: u64,
    name: Seq<char>,
)
    requires
        base != 0,
        relocated_in_place(img, rel, base),
        image_tags(img) matches Some((Some(symtab), Some(strtab), syment)) && {
            &&& symtab < base
            &&& strtab < base
            &&& symtab + base <= u64::MAX
            &&& strtab + base <= u64::MAX
            &&& forall|k: int|
                #[trigger] lookup_reads(
                    img,
                    symtab as int,
                    strtab as int,
                    syment as int,
                    (strtab - symtab) / (syment as int),
                    name,
                    0,
                    k,
                ) ==> !relocated_byte(img, k)
        },
    ensures
        exported_symbol(rel, base, name) == exported_symbol(img, 0, name),
        exported_symbol(img, base, name) == exported_symbol(img, 0, name),
{
    let (symtab, strtab, syment) = image_tags(img).unwrap();
    let (dyn_addr, dyn_size) = dynamic_location(img).unwrap();
    assert forall|k: int| 0 <= k < img.len() && #[trigger] header_reads(img, k) implies img[k]
        == rel[k] by {
        assert(!relocated_byte(img, k));
    }
    lemma_location_frame(img, rel);
    assert forall|k: int|
        0 <= k < img.len() && dyn_addr <= k && !#[trigger] relocated_field(
            img,
            dyn_addr as int,
            dyn_addr + dyn_size,
            k,
        ) implies rel[k] == img[k] by {
        assert(!relocated_byte(img, k));
    }
    lemma_relocated_walk(img, rel, base, dyn_addr as int, dyn_addr + dyn_size, initial_tags());
    assert(relocate_tags(initial_tags(), base) == initial_tags());
    let s = symtab.unwrap();
    let t = strtab.unwrap();
    assert forall|k: int|
        0 <= k < img.len() && #[trigger] lookup_reads(
            img,
            s as int,
            t as int,
            syment as int,
            (t - s) / (syment as int),
            name,
            0,
            k,
        ) implies img[k] == rel[k] by {
        assert(!relocated_byte(img, k));
    }
    lemma_live_image_resolves_as_on_disk(img, rel, base, name);
}

// ---------------------------------------------------------------------------
// Reading
// ---------------------------------------------------------------------------

fn read_u16(buf: &[u8], off: usize) -> (r: Option<u16>)
    ensures
        r == le_u16(buf@, off as int),
{
    if off <= buf.len() && buf.len() - off >= 2 {
        Some((buf[off] as u16) + 256 * (buf[off + 1] as u16))
    } else {
        None
    }
}

pub(crate) fn read_u32(buf: &[u8], off: usize) -> (r: Option<u32>)
    ensures
        r == le_u32(buf@, off as int),
{
    if off <= buf.len() && buf.len() - off >= 4 {
        Some(
            (buf[off] as u32) + 256 * ((buf[off + 1] as u32) + 256 * ((buf[off + 2] as u32) + 256
                * (buf[off + 3] as u32))),
        )
    } else {
        None
    }
}

pub(crate) fn read_u64(buf: &[u8], off: usize) -> (r: Option<u64>)
    ensures
        r == le_u64(buf@, off as int),
{
    if off <= buf.len() && buf.len() - off >= 8 {
        Some(
            (buf[off] as u64) + 256 * ((buf[off + 1] as u64) + 256 * ((buf[off + 2] as u64) + 256
                * ((buf[off + 3] as u64) + 256 * ((buf[off + 4] as u64) + 256 * ((buf[off + 5]
                as u64) + 256 * ((buf[off + 6] as u64) + 256 * (buf[off + 7] as u64))))))),
        )
    } else {
        None
    }
}

/// Reads at an offset that may lie beyond the address space of the image.
fn read_u16_at(buf: &[u8], off: u128) -> (r: Option<u16>)
    ensures
        r == le_u16(buf@, off as int),
{
    if off <= buf.len() as u128 {
        read_u16(buf, off as usize)
    } else {
        None
    }
}

fn read_u32_at(buf: &[u8], off: u128) -> (r: Option<u32>)
    ensures
        r == le_u32(buf@, off as int),
{
    if off <= buf.len() as u128 {
        read_u32(buf, off as usize)
    } else {
        None
    }
}

fn read_u64_at(buf: &[u8], off: u128) -> (r: Option<u64>)
    ensures
        r == le_u64(buf@, off as int),
{
    if off <= buf.len() as u128 {
        read_u64(buf, off as usize)
    } else {
        None
    }
}

/// Finds the NUL-terminated UTF-8 string at `off`.
fn c_str(buf: &[u8], off: usize) -> (r: Option<&str>)
    ensures
        r is Some <==> (c_string(buf@, off as int) matches Some(s) && valid_utf8(s)),
        r matches Some(s) ==> c_string(buf@, off as int) == Some(s.spec_bytes()),
{
    if off > buf.len() {
        return None;
    }
    let mut end = off;
    while end < buf.len() && buf[end] != 0
        invariant
            off <= end <= buf.len(),
            first_nul(buf@, off as int) == first_nul(buf@, end as int),
        decreases buf.len() - end,
    {
        end = end + 1;
    }
    if end == buf.len() {
        return None;
    }
    utf8_str(&buf[off..end])
}

/// Whether the NUL-terminated string at `off` is `name`.
fn name_at(buf: &[u8], off: u128, name: &str) -> (r: bool)
    ensures
        r == (c_string(buf@, off as int) == Some(encode_utf8(name@))),
{
    if off > buf.len() as u128 {
        return false;
    }
    match c_str(buf, off as usize) {
        Some(s) => {
            proof {
                assert(decode_utf8(encode_utf8(s@)) == s@);
                assert(decode_utf8(encode_utf8(name@)) == name@);
            }
            str_equal(s, name)
        },
        None => false,
    }
}

/// The value of the symbol at `sym` if it is a defined symbol named `name`.
fn symbol_value(buf: &[u8], sym: usize, strtab: u64, name: &str) -> (r: Option<u64>)
    ensures
        r == symbol_match(buf@, sym as int, strtab as int, name@),
{
    let st_name = read_u32_at(buf, sym as u128)?;
    let st_shndx = read_u16_at(buf, sym as u128 + 6)?;
    let st_value = read_u64_at(buf, sym as u128 + 8)?;
    // SHN_UNDEF entries are imports, not exports.
    if st_name == 0 || st_shndx == 0 {
        return None;
    }
    if name_at(buf, strtab as u128 + st_name as u128, name) {
        Some(st_value)
    } else {
        None
    }
}

/// Walks the program headers for the first `PT_DYNAMIC` segment.
fn find_dynamic(buf: &[u8], phoff: u64, entsize: u16, phnum: u16) -> (r: Option<(u64, u64)>)
    ensures
        r == dynamic_segment(buf@, phoff as int, entsize as int, phnum as int, 0),
{
    let mut i: u16 = 0;
    while i < phnum
        invariant
            i <= phnum,
            dynamic_segment(buf@, phoff as int, entsize as int, phnum as int, 0)
                == dynamic_segment(buf@, phoff as int, entsize as int, phnum as int, i as int),
        decreases phnum - i,
    {
        assert((i as int) * (entsize as int) <= 65535 * 65535) by (nonlinear_arith)
            requires
                i < 65536,
                entsize < 65536,
        ;
        let phdr: u128 = phoff as u128 + (i as u128) * (entsize as u128);
        let p_type = read_u32_at(buf, phdr)?;
        if p_type == PT_DYNAMIC {
            let vaddr = read_u64_at(buf, phdr + 0x10)?;
            let size = read_u64_at(buf, phdr + 0x20)?;
            return Some((vaddr, size));
        }
        i = i + 1;
    }
    Some((0, 0))
}

/// Collects `DT_SYMTAB`, `DT_STRTAB` and `DT_SYMENT` from the dynamic section.
fn read_dynamic(buf: &[u8], dyn_addr: u64, dyn_size: u64) -> (r: Option<DynamicTags>)
    ensures
        r == dynamic_tags(buf@, dyn_addr as int, dyn_addr + dyn_size, initial_tags()),
{
    let end: u128 = dyn_addr as u128 + dyn_size as u128;
    let mut entry: u128 = dyn_addr as u128;
    let mut symtab: Option<u64> = None;
    let mut strtab: Option<u64> = None;
    let mut syment: u64 = SYM_SIZE;
    while entry + 16 <= end
        invariant
            end == dyn_addr + dyn_size,
            dyn_addr <= entry <= end,
            dynamic_tags(buf@, dyn_addr as int, end as int, initial_tags()) == dynamic_tags(
                buf@,
                entry as int,
                end as int,
                (symtab, strtab, syment),
            ),
        decreases end - entry,
    {
        let tag = read_u64_at(buf, entry)?;
        let val = read_u64_at(buf, entry + 8)?;
        entry = entry + 16;
        if tag == DT_NULL {
            return Some((symtab, strtab, syment));
        } else if tag == DT_STRTAB {
            strtab = Some(val);
        } else if tag == DT_SYMTAB {
            symtab = Some(val);
        } else if tag == DT_SYMENT {
            syment = val;
        }
    }
    Some((symtab, strtab, syment))
}

/// No symbol at or after `i` can be read once the entry at `i` runs past the image.
proof fn lemma_symbols_past_end(
    b: Seq<u8>,
    symtab: int,
    strtab: int,
    syment: int,
    count: int,
    name: Seq<char>,
    i: int,
)
    requires
        syment > 0,
        symtab >= 0,
        i >= 0,
        symtab + i * syment + 16 > b.len(),
    ensures
        find_symbol(b, symtab, strtab, syment, count, name, i) is None,
    decreases count - i,
{
    if i < count {
        assert(symtab + (i + 1) * syment + 16 > b.len()) by (nonlinear_arith)
            requires
                syment > 0,
                symtab + i * syment + 16 > b.len(),
        ;
        lemma_symbols_past_end(b, symtab, strtab, syment, count, name, i + 1);
    }
}

/// Looks `name` up among the `(strtab - symtab) / syment` symbols at `symtab`.
fn find_symbol_value(buf: &[u8], symtab: u64, strtab: u64, syment: u64, name: &str) -> (r: Option<
    u64,
>)
    requires
        syment > 0,
        symtab < strtab,
    ensures
        r == find_symbol(
            buf@,
            symtab as int,
            strtab as int,
            syment as int,
            (strtab - symtab) / (syment as int),
            name@,
            0,
        ),
{
    let count: u64 = (strtab - symtab) / syment;
    let ghost n = (strtab - symtab) / (syment as int);
    let mut i: u64 = 0;
    while i < count
        invariant
            syment > 0,
            symtab < strtab,
            count == n,
            n == (strtab - symtab) / (syment as int),
            i <= count,
            find_symbol(buf@, symtab as int, strtab as int, syment as int, n, name@, 0)
                == find_symbol(buf@, symtab as int, strtab as int, syment as int, n, name@, i as int),
        decreases count - i,
    {
        assert((i as int) * (syment as int) <= strtab - symtab) by (nonlinear_arith)
            requires
                syment > 0,
                i < n,
                n == (strtab - symtab) / (syment as int),
                strtab - symtab > 0,
        ;
        let sym: u128 = symtab as u128 + (i as u128) * (syment as u128);
        if sym + 16 > buf.len() as u128 {
            proof {
                lemma_symbols_past_end(
                    buf@,
                    symtab as int,
                    strtab as int,
                    syment as int,
                    n,
                    name@,
                    i as int,
                );
            }
            return None;
        }
        match symbol_value(buf, sym as usize, strtab, name) {
            Some(v) => {
                return Some(v);
            },
            None => {},
        }
        i = i + 1;
    }
    None
}

/// Returns the module-relative address of an exported symbol, or `None` if the image
/// is not ELF64 or does not export it.
///
/// `base` is the module's load address. It is needed because the loader relocates
/// the `.dynamic` section in place: in a live image `DT_SYMTAB` / `DT_STRTAB` hold
/// absolute addresses, while on disk they are module-relative. Both are accepted.
pub fn export_rva(buf: &[u8], base: u64, name: &str) -> (r: Option<u64>)
    ensures
        r == exported_symbol(buf@, base, name@),
{
    if !(buf.len() >= 5 && buf[0] == 0x7f && buf[1] == 0x45 && buf[2] == 0x4c && buf[3] == 0x46
        && buf[4] == 2) {
        return None;
    }
    let e_phoff = read_u64(buf, 0x20)?;
    let e_phentsize = read_u16(buf, 0x36)?;
    let e_phnum = read_u16(buf, 0x38)?;
    let (dyn_addr, dyn_size) = find_dynamic(buf, e_phoff, e_phentsize, e_phnum)?;
    if dyn_size == 0 {
        return None;
    }
    let (symtab, strtab, syment) = read_dynamic(buf, dyn_addr, dyn_size)?;
    let symtab = rebase_address(symtab?, base);
    let strtab = rebase_address(strtab?, base);
    if syment == 0 || strtab <= symtab {
        return None;
    }
    // There is no explicit symbol count in the dynamic section; the table runs up to
    // the start of the string table that immediately follows it.
    find_symbol_value(buf, symtab, strtab, syment, name)
}

/// Normalises a loader-relocated absolute pointer back to a module-relative offset.
fn rebase_address(v: u64, base: u64) -> (r: u64)
    ensures
        r == rebase(v, base),
{
    if base != 0 && v >= base {
        v - base
    } else {
        v
    }
}

} // verus!
