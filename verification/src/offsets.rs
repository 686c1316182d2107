//! Turning a signature match into a module-relative offset.
//!
//! A signature's operations are applied in order to an address that starts at the
//! match. Some operations need process memory (a displacement, a pointer, a range of
//! bytes); [`OffsetChain`] says which memory it needs and takes the value read, so
//! the caller does the reading. Address arithmetic follows the address type of the
//! memory library: `+` and `-` on 64-bit addresses, where an overflow is a fault
//! (the program panics there) rather than a wrap.

use vstd::prelude::*;

use crate::config::{Operation, Signature};
use crate::elf::{le_u64, read_u64};
use crate::pattern::{
    parse_pattern, parsed_pattern, pattern_occurs, pattern_scan, scan, scan_reaches,
};

verus! {

/// A read of process memory that an operation needs.
#[derive(Debug, Clone, Copy, PartialEq, Eq)]
pub enum MemoryRequest {
    /// A little-endian `i32` (a RIP-relative displacement) at `addr`.
    I32 { addr: u64 },
    /// A 64-bit pointer at `addr`.
    Pointer { addr: u64 },
    /// `len` raw bytes at `addr`.
    Bytes { addr: u64, len: usize },
}

/// The value read for a [`MemoryRequest`].
#[derive(Debug, PartialEq, Eq)]
pub enum MemoryValue {
    I32(i32),
    Pointer(u64),
    Bytes(Vec<u8>),
}

/// Where the address arithmetic of an operation has no result: the program panics
/// there.
#[derive(Debug, Clone, Copy, PartialEq, Eq)]
pub enum Fault {
    /// An addition overflowed.
    AddOverflow,
    /// A subtraction underflowed.
    SubOverflow,
    /// A negation overflowed (of the most negative value).
    NegOverflow,
    /// More bytes were sliced than an address holds.
    SliceTooLong,
}

/// Why a signature has no match.
#[derive(Debug, Clone, Copy, PartialEq, Eq)]
pub enum SignatureError {
    /// The pattern text does not parse.
    Unparsable,
    /// The pattern does not occur in the module.
    NotFound,
}

/// What the chain does next.
#[derive(Debug, Clone, Copy, PartialEq, Eq)]
pub enum ChainStep {
    /// An operation that needs no memory was applied.
    Applied,
    /// The next operation needs this memory: read it and supply the value.
    Read(MemoryRequest),
    /// All operations are applied; this is the offset.
    Finished(u32),
}

// ---------------------------------------------------------------------------
// Model
// ---------------------------------------------------------------------------

/// `a + v` on addresses.
pub open spec fn address_add(a: u64, v: int) -> Result<u64, Fault> {
    if a + v <= u64::MAX {
        Ok((a + v) as u64)
    } else {
        Err(Fault::AddOverflow)
    }
}

/// `a - v` on addresses.
pub open spec fn address_sub(a: u64, v: int) -> Result<u64, Fault> {
    if a >= v {
        Ok((a - v) as u64)
    } else {
        Err(Fault::SubOverflow)
    }
}

/// `a + d` for a signed `d`: a subtraction of `-d` when `d` is negative.
pub open spec fn address_add_signed(a: u64, d: i32) -> Result<u64, Fault> {
    if d >= 0 {
        address_add(a, d as int)
    } else if d == i32::MIN {
        Err(Fault::NegOverflow)
    } else {
        address_sub(a, -d)
    }
}

/// The eight bytes of `b`, padded with zeros at the end.
pub open spec fn zero_padded(b: Seq<u8>) -> Seq<u8> {
    b + Seq::new((8 - b.len()) as nat, |i: int| 0u8)
}

/// The little-endian value of at most eight bytes.
pub open spec fn slice_value(b: Seq<u8>) -> u64 {
    match le_u64(zero_padded(b), 0) {
        Some(v) => v,
        None => 0,
    }
}

/// The number whose little-endian bytes are `b`.
pub open spec fn little_endian(b: Seq<u8>) -> nat
    decreases b.len(),
{
    if b.len() == 0 {
        0
    } else {
        (b[0] + 256 * little_endian(b.drop_first())) as nat
    }
}

/// Zeros at the end add nothing to a little-endian number.
proof fn lemma_trailing_zeros(b: Seq<u8>, n: nat)
    ensures
        little_endian(b + Seq::new(n, |i: int| 0u8)) == little_endian(b),
    decreases b.len() + n,
{
    let z = Seq::new(n, |i: int| 0u8);
    if b.len() == 0 {
        assert(b + z =~= z);
        if n > 0 {
            assert(z.drop_first() =~= Seq::new((n - 1) as nat, |i: int| 0u8));
            lemma_trailing_zeros(b, (n - 1) as nat);
            assert(b + Seq::new((n - 1) as nat, |i: int| 0u8) =~= Seq::new((n - 1) as nat, |i: int| 0u8));
        }
    } else {
        assert((b + z).drop_first() =~= b.drop_first() + z);
        lemma_trailing_zeros(b.drop_first(), n);
    }
}

/// One step of a little-endian number read from `k` on.
proof fn lemma_little_endian_from(s: Seq<u8>, k: int)
    requires
        0 <= k < s.len(),
    ensures
        little_endian(s.subrange(k, s.len() as int)) == s[k] + 256 * little_endian(
            s.subrange(k + 1, s.len() as int),
        ),
{
    assert(s.subrange(k, s.len() as int).drop_first() =~= s.subrange(k + 1, s.len() as int));
}

/// Eight bytes read as a `u64` give their little-endian number.
proof fn lemma_le_u64_little_endian(s: Seq<u8>)
    requires
        s.len() == 8,
    ensures
        le_u64(s, 0) == Some(little_endian(s) as u64),
        little_endian(s) <= u64::MAX,
{
    lemma_little_endian_from(s, 0);
    lemma_little_endian_from(s, 1);
    lemma_little_endian_from(s, 2);
    lemma_little_endian_from(s, 3);
    lemma_little_endian_from(s, 4);
    lemma_little_endian_from(s, 5);
    lemma_little_endian_from(s, 6);
    lemma_little_endian_from(s, 7);
    assert(s.subrange(8, 8).len() == 0);
    assert(s.subrange(0, 8) =~= s);
}

/// A `Slice` of at most eight bytes (the size of an address) gives the number whose
/// little-endian bytes they are; only more than eight bytes is a fault.
pub proof fn lemma_slice_is_little_endian(start: usize, end: usize, addr: u64, b: Vec<u8>)
    ensures
        b@.len() <= 8 ==> (operation_result(
            Operation::Slice { start, end },
            addr,
            Some(MemoryValue::Bytes(b)),
        ) matches Ok(v) && v == little_endian(b@)),
        b@.len() > 8 ==> operation_result(
            Operation::Slice { start, end },
            addr,
            Some(MemoryValue::Bytes(b)),
        ) == Err::<u64, Fault>(Fault::SliceTooLong),
{
    if b@.len() <= 8 {
        let p = zero_padded(b@);
        lemma_trailing_zeros(b@, (8 - b@.len()) as nat);
        lemma_le_u64_little_endian(p);
    }
}

/// The memory that `op` needs at the address `addr`.
pub open spec fn operation_request(op: Operation, addr: u64) -> Result<Option<MemoryRequest>, Fault> {
    match op {
        Operation::Add { .. } => Ok(None),
        Operation::Sub { .. } => Ok(None),
        Operation::Rip { offset, len: _ } => match address_add(addr, offset.unwrap_or(3) as int) {
            Ok(at) => Ok(Some(MemoryRequest::I32 { addr: at })),
            Err(f) => Err(f),
        },
        Operation::Read => Ok(Some(MemoryRequest::Pointer { addr })),
        Operation::Slice { start, end } => match address_add(addr, start as int) {
            Ok(at) => if end < start {
                Err(Fault::SubOverflow)
            } else {
                Ok(Some(MemoryRequest::Bytes { addr: at, len: (end - start) as usize }))
            },
            Err(f) => Err(f),
        },
    }
}

/// Whether `value` is of the kind that `request` asks for.
pub open spec fn answers(request: MemoryRequest, value: MemoryValue) -> bool {
    match (request, value) {
        (MemoryRequest::I32 { .. }, MemoryValue::I32(_)) => true,
        (MemoryRequest::Pointer { .. }, MemoryValue::Pointer(_)) => true,
        (MemoryRequest::Bytes { .. }, MemoryValue::Bytes(_)) => true,
        _ => false,
    }
}

/// The address after `op`, given the value of the memory it needed.
pub open spec fn operation_result(op: Operation, addr: u64, value: Option<MemoryValue>) -> Result<
    u64,
    Fault,
> {
    match op {
        Operation::Add { value: v } => address_add(addr, v as int),
        Operation::Sub { value: v } => address_sub(addr, v as int),
        Operation::Rip { offset: _, len } => match value {
            Some(MemoryValue::I32(disp)) => match address_add_signed(addr, disp) {
                Ok(target) => address_add(target, len.unwrap_or(7) as int),
                Err(f) => Err(f),
            },
            _ => Ok(addr),
        },
        Operation::Read => match value {
            Some(MemoryValue::Pointer(p)) => Ok(p),
            _ => Ok(addr),
        },
        Operation::Slice { .. } => match value {
            Some(MemoryValue::Bytes(b)) => if b@.len() > 8 {
                Err(Fault::SliceTooLong)
            } else {
                Ok(slice_value(b@))
            },
            _ => Ok(addr),
        },
    }
}

/// One operation: its request, then its result.
pub open spec fn operation_step(op: Operation, addr: u64, value: Option<MemoryValue>) -> Result<
    u64,
    Fault,
> {
    match operation_request(op, addr) {
        Ok(_) => operation_result(op, addr, value),
        Err(f) => Err(f),
    }
}

/// The address after applying `ops` in order to `start`, where `values[i]` is the
/// memory read for `ops[i]` (`None` for an operation that reads none).
pub open spec fn run_operations(
    ops: Seq<Operation>,
    values: Seq<Option<MemoryValue>>,
    start: u64,
) -> Result<u64, Fault>
    decreases ops.len(),
{
    if ops.len() == 0 {
        Ok(start)
    } else {
        match run_operations(ops.drop_last(), values.drop_last(), start) {
            Ok(addr) => operation_step(ops.last(), addr, values.last()),
            Err(f) => Err(f),
        }
    }
}

/// The offset reported for the final address `result` of a module loaded at `base`:
/// `result - base` as a signed 64-bit difference when it fits in a `u32`, else the
/// low 32 bits of `result`. The signed difference has no value when `base - result`
/// is exactly 2^63.
pub open spec fn offset_value(result: u64, base: u64) -> Result<u32, Fault> {
    if result < base && base - result == 0x8000_0000_0000_0000 {
        Err(Fault::NegOverflow)
    } else {
        let w = vstd::wrapping::u64_specs::wrapping_sub(result, base);
        if w <= u32::MAX {
            Ok(w as u32)
        } else {
            Ok((result % 0x1_0000_0000) as u32)
        }
    }
}

/// Where the pattern of `signature` matches in the module bytes `buf`.
pub open spec fn signature_match(signature: Seq<char>, buf: Seq<u8>) -> Result<
    usize,
    SignatureError,
> {
    match parsed_pattern(signature) {
        Some(p) => match pattern_scan(p, buf) {
            Some(at) => Ok(at),
            None => Err(SignatureError::NotFound),
        },
        None => Err(SignatureError::Unparsable),
    }
}

/// Whether `explicit` is `implicit`, or `implicit` is a `Rip` with neither offset nor
/// length given and `explicit` the same `Rip` with the defaults 3 and 7 written out.
pub open spec fn same_or_rip_defaults(implicit: Operation, explicit: Operation) -> bool {
    ||| explicit == implicit
    ||| (implicit == Operation::Rip { offset: None, len: None } && explicit == Operation::Rip {
        offset: Some(3),
        len: Some(7),
    })
}

/// `Rip` reads its displacement at offset 3 and takes an instruction length of 7 when
/// they are not given: writing the defaults out changes no result of a signature's
/// operations.
pub proof fn lemma_rip_defaults(
    implicit: Seq<Operation>,
    explicit: Seq<Operation>,
    values: Seq<Option<MemoryValue>>,
    start: u64,
)
    requires
        implicit.len() == explicit.len(),
        forall|i: int|
            0 <= i < implicit.len() ==> same_or_rip_defaults(
                #[trigger] implicit[i],
                explicit[i],
            ),
    ensures
        run_operations(implicit, values, start) == run_operations(explicit, values, start),
    decreases implicit.len(),
{
    if implicit.len() > 0 {
        let n = implicit.len() - 1;
        assert forall|i: int| 0 <= i < implicit.drop_last().len() implies same_or_rip_defaults(
            #[trigger] implicit.drop_last()[i],
            explicit.drop_last()[i],
        ) by {
            assert(same_or_rip_defaults(implicit[i], explicit[i]));
        }
        lemma_rip_defaults(implicit.drop_last(), explicit.drop_last(), values.drop_last(), start);
        assert(same_or_rip_defaults(implicit[n], explicit[n]));
    }
}

// ---------------------------------------------------------------------------
// Computing
// ---------------------------------------------------------------------------

/// Finds the match of a signature's pattern in the module bytes `buf`.
pub fn locate_signature(signature: &Signature, buf: &[u8]) -> (r: Result<usize, SignatureError>)
    ensures
        r == signature_match(signature.pattern@, buf@),
        r matches Ok(at) ==> parsed_pattern(signature.pattern@) matches Some(p) && exists|q: int|
            #![trigger pattern_occurs(p, buf@, q)]
            pattern_occurs(p, buf@, q) && q <= at < q + p.len(),
        parsed_pattern(signature.pattern@) matches Some(p) && (forall|q: int|
            !#[trigger] pattern_occurs(p, buf@, q)) ==> r == Err::<usize, SignatureError>(
            SignatureError::NotFound,
        ),
        parsed_pattern(signature.pattern@) matches Some(p) ==> forall|q: int|
            #![trigger pattern_occurs(p, buf@, q)]
            pattern_occurs(p, buf@, q) && scan_reaches(p, buf@, q) ==> (r is Ok && (q > 0 ==> r
                == Ok::<usize, SignatureError>(q as usize))),
{
    let pattern = match parse_pattern(signature.pattern.as_str()) {
        Some(p) => p,
        None => {
            return Err(SignatureError::Unparsable);
        },
    };
    match scan(pattern.as_slice(), buf) {
        Some(at) => Ok(at),
        None => Err(SignatureError::NotFound),
    }
}

/// `a + v`, or the fault when it overflows.
pub fn checked_address_add(a: u64, v: u64) -> (r: Result<u64, Fault>)
    ensures
        r == address_add(a, v as int),
{
    if a <= u64::MAX - v {
        Ok(a + v)
    } else {
        Err(Fault::AddOverflow)
    }
}

/// `a - v`, or the fault when it underflows.
pub fn checked_address_sub(a: u64, v: u64) -> (r: Result<u64, Fault>)
    ensures
        r == address_sub(a, v as int),
{
    if a >= v {
        Ok(a - v)
    } else {
        Err(Fault::SubOverflow)
    }
}

/// `a + d` for a signed displacement `d`.
pub fn checked_address_add_signed(a: u64, d: i32) -> (r: Result<u64, Fault>)
    ensures
        r == address_add_signed(a, d),
{
    if d >= 0 {
        checked_address_add(a, d as u64)
    } else if d == i32::MIN {
        Err(Fault::NegOverflow)
    } else {
        checked_address_sub(a, (-d) as u64)
    }
}

/// The little-endian value of at most eight bytes.
pub fn bytes_value(bytes: &[u8]) -> (r: u64)
    requires
        bytes@.len() <= 8,
    ensures
        r == slice_value(bytes@),
{
    let mut padded: Vec<u8> = Vec::new();
    let mut i: usize = 0;
    while i < 8
        invariant
            i <= 8,
            bytes@.len() <= 8,
            padded@.len() == i,
            forall|j: int| 0 <= j < i ==> padded@[j] == zero_padded(bytes@)[j],
        decreases 8 - i,
    {
        if i < bytes.len() {
            padded.push(bytes[i]);
        } else {
            padded.push(0);
        }
        i = i + 1;
    }
    assert(padded@ =~= zero_padded(bytes@));
    match read_u64(padded.as_slice(), 0) {
        Some(v) => v,
        None => 0,
    }
}

/// The memory that `op` needs at `addr`.
pub fn request_for(op: &Operation, addr: u64) -> (r: Result<Option<MemoryRequest>, Fault>)
    ensures
        r == operation_request(*op, addr),
{
    match op {
        Operation::Add { .. } => Ok(None),
        Operation::Sub { .. } => Ok(None),
        Operation::Rip { offset, len: _ } => {
            let off = match offset {
                Some(o) => *o,
                None => 3,
            };
            let at = checked_address_add(addr, off as u64)?;
            Ok(Some(MemoryRequest::I32 { addr: at }))
        },
        Operation::Read => Ok(Some(MemoryRequest::Pointer { addr })),
        Operation::Slice { start, end } => {
            let at = checked_address_add(addr, *start as u64)?;
            if *end < *start {
                return Err(Fault::SubOverflow);
            }
            Ok(Some(MemoryRequest::Bytes { addr: at, len: *end - *start }))
        },
    }
}

/// The address after `op`, given the memory value it needed.
pub fn result_of(op: &Operation, addr: u64, value: Option<&MemoryValue>) -> (r: Result<u64, Fault>)
    ensures
        r == operation_result(
            *op,
            addr,
            match value {
                Some(v) => Some(*v),
                None => None,
            },
        ),
{
    match op {
        Operation::Add { value: v } => checked_address_add(addr, *v as u64),
        Operation::Sub { value: v } => checked_address_sub(addr, *v as u64),
        Operation::Rip { offset: _, len } => match value {
            Some(MemoryValue::I32(disp)) => {
                let target = checked_address_add_signed(addr, *disp)?;
                let l = match len {
                    Some(l) => *l,
                    None => 7,
                };
                checked_address_add(target, l as u64)
            },
            _ => Ok(addr),
        },
        Operation::Read => match value {
            Some(MemoryValue::Pointer(p)) => Ok(*p),
            _ => Ok(addr),
        },
        Operation::Slice { .. } => match value {
            Some(MemoryValue::Bytes(b)) => {
                if b.len() > 8 {
                    Err(Fault::SliceTooLong)
                } else {
                    Ok(bytes_value(b.as_slice()))
                }
            },
            _ => Ok(addr),
        },
    }
}

/// The offset reported for the final address `result` of a module loaded at `base`.
pub fn offset_from(result: u64, base: u64) -> (r: Result<u32, Fault>)
    ensures
        r == offset_value(result, base),
{
    if result < base && base - result == 0x8000_0000_0000_0000 {
        return Err(Fault::NegOverflow);
    }
    let w = result.wrapping_sub(base);
    if w <= 0xFFFF_FFFF {
        Ok(w as u32)
    } else {
        Ok((result % 0x1_0000_0000) as u32)
    }
}

/// The operations of a signature being applied to its match, one at a time.
pub struct OffsetChain {
    base: u64,
    start: u64,
    addr: u64,
    applied: usize,
    operations: Ghost<Seq<Operation>>,
    values: Ghost<Seq<Option<MemoryValue>>>,
}

impl OffsetChain {
    /// The load address of the module.
    pub closed spec fn base(&self) -> u64 {
        self.base
    }

    /// The address of the match, where the operations start.
    pub closed spec fn start(&self) -> u64 {
        self.start
    }

    /// The current address.
    pub closed spec fn address(&self) -> u64 {
        self.addr
    }

    /// The operations being applied.
    pub closed spec fn operations(&self) -> Seq<Operation> {
        self.operations@
    }

    /// The memory values of the operations applied so far.
    pub closed spec fn values(&self) -> Seq<Option<MemoryValue>> {
        self.values@
    }

    /// How many operations are applied.
    pub closed spec fn applied(&self) -> nat {
        self.applied as nat
    }

    /// The current address is what the operations applied so far compute.
    pub closed spec fn wf(&self) -> bool {
        &&& self.applied <= self.operations@.len()
        &&& self.values@.len() == self.applied
        &&& run_operations(self.operations@.take(self.applied as int), self.values@, self.start)
            == Ok::<u64, Fault>(self.addr)
    }

    /// Starts at the match `match_offset` bytes into a module loaded at `base`.
    pub fn new(base: u64, match_offset: usize, operations: &[Operation]) -> (r: Result<
        OffsetChain,
        Fault,
    >)
        ensures
            match r {
                Ok(chain) => {
                    &&& chain.wf()
                    &&& address_add(base, match_offset as int) == Ok::<u64, Fault>(chain.start())
                    &&& chain.address() == chain.start()
                    &&& chain.base() == base
                    &&& chain.operations() == operations@
                    &&& chain.applied() == 0
                    &&& chain.values() == Seq::<Option<MemoryValue>>::empty()
                },
                Err(f) => address_add(base, match_offset as int) == Err::<u64, Fault>(f),
            },
    {
        let start = checked_address_add(base, match_offset as u64)?;
        let chain = OffsetChain {
            base,
            start,
            addr: start,
            applied: 0,
            operations: Ghost(operations@),
            values: Ghost(Seq::empty()),
        };
        assert(chain.operations@.take(0) =~= Seq::<Operation>::empty());
        Ok(chain)
    }

    /// Applies the next operation if it needs no memory, asks for the memory it
    /// needs, or reports the offset once all operations are applied.
    pub fn step(&mut self, operations: &[Operation]) -> (r: Result<ChainStep, Fault>)
        requires
            old(self).wf(),
            operations@ == old(self).operations(),
        ensures
            final(self).wf(),
            final(self).base() == old(self).base(),
            final(self).start() == old(self).start(),
            final(self).operations() == old(self).operations(),
            old(self).applied() == operations@.len() ==> {
                &&& *final(self) == *old(self)
                &&& run_operations(operations@, old(self).values(), old(self).start()) == Ok::<
                    u64,
                    Fault,
                >(old(self).address())
                &&& match offset_value(old(self).address(), old(self).base()) {
                    Ok(v) => r == Ok::<ChainStep, Fault>(ChainStep::Finished(v)),
                    Err(f) => r == Err::<ChainStep, Fault>(f),
                }
            },
            old(self).applied() < operations@.len() ==> {
                let op = operations@[old(self).applied() as int];
                match operation_request(op, old(self).address()) {
                    Err(f) => r == Err::<ChainStep, Fault>(f) && *final(self) == *old(self),
                    Ok(Some(request)) => r == Ok::<ChainStep, Fault>(ChainStep::Read(request))
                        && *final(self) == *old(self),
                    Ok(None) => match operation_result(op, old(self).address(), None) {
                        Ok(a) => {
                            &&& r == Ok::<ChainStep, Fault>(ChainStep::Applied)
                            &&& final(self).address() == a
                            &&& final(self).applied() == old(self).applied() + 1
                            &&& final(self).values() == old(self).values().push(None)
                        },
                        Err(f) => r == Err::<ChainStep, Fault>(f) && *final(self) == *old(self),
                    },
                }
            },
    {
        if self.applied == operations.len() {
            proof {
                assert(self.operations@.take(self.applied as int) =~= self.operations@);
            }
            let v = offset_from(self.addr, self.base)?;
            return Ok(ChainStep::Finished(v));
        }
        let op = &operations[self.applied];
        match request_for(op, self.addr)? {
            Some(request) => Ok(ChainStep::Read(request)),
            None => {
                let a = result_of(op, self.addr, None)?;
                proof {
                    let ops = self.operations@;
                    let n = self.applied as int;
                    let vals = self.values@.push(None);
                    assert(ops.take(n + 1).drop_last() =~= ops.take(n));
                    assert(vals.drop_last() =~= self.values@);
                    assert(ops.take(n + 1).last() == ops[n]);
                }
                self.addr = a;
                self.applied = self.applied + 1;
                self.values = Ghost(self.values@.push(None));
                Ok(ChainStep::Applied)
            },
        }
    }

    /// Applies the next operation with the memory value read for it.
    pub fn supply(&mut self, operations: &[Operation], value: MemoryValue) -> (r: Result<(), Fault>)
        requires
            old(self).wf(),
            operations@ == old(self).operations(),
            old(self).applied() < operations@.len(),
            operation_request(operations@[old(self).applied() as int], old(self).address()) matches Ok(
                Some(request),
            ) && answers(request, value),
        ensures
            final(self).wf(),
            final(self).base() == old(self).base(),
            final(self).start() == old(self).start(),
            final(self).operations() == old(self).operations(),
            match operation_result(
                operations@[old(self).applied() as int],
                old(self).address(),
                Some(value),
            ) {
                Ok(a) => {
                    &&& r is Ok
                    &&& final(self).address() == a
                    &&& final(self).applied() == old(self).applied() + 1
                    &&& final(self).values() == old(self).values().push(Some(value))
                },
                Err(f) => r == Err::<(), Fault>(f) && *final(self) == *old(self),
            },
    {
        let op = &operations[self.applied];
        let a = result_of(op, self.addr, Some(&value))?;
        proof {
            let ops = self.operations@;
            let n = self.applied as int;
            let vals = self.values@.push(Some(value));
            assert(ops.take(n + 1).drop_last() =~= ops.take(n));
            assert(vals.drop_last() =~= self.values@);
            assert(ops.take(n + 1).last() == ops[n]);
        }
        self.addr = a;
        self.applied = self.applied + 1;
        self.values = Ghost(self.values@.push(Some(value)));
        Ok(())
    }
}

} // verus!
