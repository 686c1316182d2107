use cs2_dumper::config::{Operation, Signature};
use cs2_dumper::offsets::{
    bytes_value, locate_signature, offset_from, request_for, result_of, ChainStep, Fault,
    MemoryRequest, MemoryValue, OffsetChain, SignatureError,
};

fn signature(pattern: &str, operations: Vec<Operation>) -> Signature {
    Signature {
        name: "dwTest".to_string(),
        pattern: pattern.to_string(),
        operations,
    }
}

/// Runs a chain against a tiny memory: `memory` maps addresses to values.
fn run(base: u64, at: usize, ops: &[Operation], memory: &dyn Fn(MemoryRequest) -> MemoryValue) -> Result<u32, Fault> {
    let mut chain = OffsetChain::new(base, at, ops)?;
    loop {
        match chain.step(ops)? {
            ChainStep::Applied => {}
            ChainStep::Read(request) => chain.supply(ops, memory(request))?,
            ChainStep::Finished(value) => return Ok(value),
        }
    }
}

#[test]
fn locates_a_signature_match() {
    let buf = [0x90, 0x90, 0x48, 0x8B, 0x05, 0x10, 0x00, 0x00, 0x00];
    let sig = signature("48 8B 05 ? ? ? ?", vec![]);
    assert_eq!(locate_signature(&sig, &buf), Ok(2));
    let missing = signature("48 8D 05", vec![]);
    assert_eq!(locate_signature(&missing, &buf), Err(SignatureError::NotFound));
    let bad = signature("zz", vec![]);
    assert_eq!(locate_signature(&bad, &buf), Err(SignatureError::Unparsable));
}

#[test]
fn rip_resolves_relative_to_the_instruction() {
    let ops = [Operation::Rip { offset: None, len: None }];
    let base = 0x1000;
    let value = run(base, 0x20, &ops, &|request| {
        assert_eq!(request, MemoryRequest::I32 { addr: 0x1023 });
        MemoryValue::I32(0x100)
    });
    // 0x1020 + 0x100 + 7 - 0x1000
    assert_eq!(value, Ok(0x127));
}

#[test]
fn rip_with_explicit_offset_and_length_and_negative_displacement() {
    let ops = [Operation::Rip { offset: Some(2), len: Some(6) }];
    let value = run(0x1000, 0x80, &ops, &|request| {
        assert_eq!(request, MemoryRequest::I32 { addr: 0x1082 });
        MemoryValue::I32(-0x10)
    });
    assert_eq!(value, Ok(0x80 - 0x10 + 6));
}

#[test]
fn add_sub_and_read_apply_in_order() {
    let ops = [
        Operation::Add { value: 0x10 },
        Operation::Read,
        Operation::Sub { value: 0x8 },
    ];
    let value = run(0x1000, 0x4, &ops, &|request| {
        assert_eq!(request, MemoryRequest::Pointer { addr: 0x1014 });
        MemoryValue::Pointer(0x2000)
    });
    assert_eq!(value, Ok(0x2000 - 0x8 - 0x1000));
}

#[test]
fn slice_reads_a_little_endian_value() {
    let ops = [Operation::Slice { start: 2, end: 4 }];
    let value = run(0x1000, 0x10, &ops, &|request| {
        assert_eq!(request, MemoryRequest::Bytes { addr: 0x1012, len: 2 });
        MemoryValue::Bytes(vec![0x34, 0x12])
    });
    assert_eq!(value, Ok(0x1234 - 0x1000));
    assert_eq!(bytes_value(&[0x01, 0x02, 0x03]), 0x030201);
    assert_eq!(bytes_value(&[]), 0);
    assert_eq!(bytes_value(&[0xFF; 8]), u64::MAX);
}

#[test]
fn offsets_outside_u32_fall_back_to_the_low_bits() {
    assert_eq!(offset_from(0x1234, 0x1000), Ok(0x234));
    assert_eq!(offset_from(0x1000, 0x1000), Ok(0));
    assert_eq!(offset_from(0x1_0000_1000, 0x1000), Ok(0x1000));
    assert_eq!(offset_from(0x0FFF, 0x1000), Ok(0x0FFF));
    assert_eq!(offset_from(0x1_2345_6789, 0), Ok(0x2345_6789));
    assert_eq!(offset_from(0, 0x8000_0000_0000_0000), Err(Fault::NegOverflow));
    assert_eq!(offset_from(5, 0x8000_0000_0000_0000 + 10), Ok(5));
    assert_eq!(offset_from(0, u64::MAX), Ok(1));
}

#[test]
fn arithmetic_faults_are_reported() {
    assert_eq!(OffsetChain::new(u64::MAX, 1, &[]).err(), Some(Fault::AddOverflow));
    let sub = [Operation::Sub { value: 0x2000 }];
    assert_eq!(run(0x1000, 0, &sub, &|_| unreachable!()), Err(Fault::SubOverflow));
    let slice = [Operation::Slice { start: 4, end: 2 }];
    assert_eq!(request_for(&slice[0], 0x1000), Err(Fault::SubOverflow));
    let long = [Operation::Slice { start: 0, end: 9 }];
    assert_eq!(run(0x1000, 0, &long, &|_| MemoryValue::Bytes(vec![0; 9])), Err(Fault::SliceTooLong));
    let rip = Operation::Rip { offset: None, len: None };
    assert_eq!(result_of(&rip, 0x10, Some(&MemoryValue::I32(i32::MIN))), Err(Fault::NegOverflow));
    assert_eq!(result_of(&rip, 0x10, Some(&MemoryValue::I32(-0x20))), Err(Fault::SubOverflow));
}

#[test]
fn operations_without_memory_need_no_request() {
    assert_eq!(request_for(&Operation::Add { value: 1 }, 5), Ok(None));
    assert_eq!(request_for(&Operation::Sub { value: 1 }, 5), Ok(None));
    assert_eq!(request_for(&Operation::Read, 5), Ok(Some(MemoryRequest::Pointer { addr: 5 })));
    assert_eq!(result_of(&Operation::Add { value: 3 }, 5, None), Ok(8));
}
