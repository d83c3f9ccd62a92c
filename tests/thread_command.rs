use schnauzer::thread_command::{
    ARM_EXCEPTION_STATE64, ARM_THREAD_STATE64, CPU_TYPE_ARM64, CPU_TYPE_I386, CPU_TYPE_X86_64,
    X86_THREAD_STATE32, X86_THREAD_STATE64,
};
use schnauzer::{Endian, Error, FlavorState, LcThread, LcThreadFlavor, Reader};

fn push_u32(b: &mut Vec<u8>, v: u32) {
    b.extend_from_slice(&v.to_le_bytes());
}

fn push_u64(b: &mut Vec<u8>, v: u64) {
    b.extend_from_slice(&v.to_le_bytes());
}

/// An exception record (flavor 7, count 4) followed by an unknown record (flavor 99, count 2)
/// and the end-of-list record, after `pad` bytes of padding.
fn two_records(pad: usize) -> Vec<u8> {
    let mut b = vec![0xAAu8; pad];
    push_u32(&mut b, ARM_EXCEPTION_STATE64);
    push_u32(&mut b, 4);
    push_u64(&mut b, 0x1122_3344_5566_7788);
    push_u32(&mut b, 0xdead_beef);
    push_u32(&mut b, 3);
    push_u32(&mut b, 99);
    push_u32(&mut b, 2);
    push_u32(&mut b, 1);
    push_u32(&mut b, 2);
    push_u32(&mut b, 0);
    push_u32(&mut b, 0);
    b
}

fn summary(list: &[LcThreadFlavor]) -> Vec<(u32, u32)> {
    list.iter().map(|f| (f.flavor, f.count)).collect()
}

#[test]
fn well_formed_records_then_sentinel() {
    let bytes = two_records(5);
    let mut reader = Reader::from_bytes(bytes.clone());
    let thread = LcThread::parse(bytes.len() as u32, 5, Endian::Little, CPU_TYPE_ARM64).unwrap();
    let list = thread.flavors(&mut reader);
    assert_eq!(summary(&list), vec![(ARM_EXCEPTION_STATE64, 4), (99, 2)]);
    match &list[0].state {
        FlavorState::ArmExceptionState64(s) => {
            assert_eq!(s.far.0, 0x1122_3344_5566_7788);
            assert_eq!(s.esr.0, 0xdead_beef);
            assert_eq!(s.exception.0, 3);
        }
        _ => panic!("expected an exception state"),
    }
    assert!(matches!(list[1].state, FlavorState::Unknown));
}

#[test]
fn iteration_is_restartable() {
    let bytes = two_records(0);
    let mut reader = Reader::from_bytes(bytes.clone());
    let thread = LcThread::parse(bytes.len() as u32, 0, Endian::Little, CPU_TYPE_ARM64).unwrap();
    let first = thread.flavors(&mut reader);
    let second = thread.flavors(&mut reader);
    assert_eq!(summary(&first), summary(&second));
    assert_eq!(first.len(), 2);

    let mut a = thread.flavor_iterator();
    let mut b = thread.flavor_iterator();
    let mut n = 0;
    loop {
        let x = a.next(&mut reader);
        let y = b.next(&mut reader);
        match (x, y) {
            (Some(x), Some(y)) => {
                assert_eq!((x.flavor, x.count), (y.flavor, y.count));
                n += 1;
            }
            (None, None) => break,
            _ => panic!("the two walks differ"),
        }
    }
    assert_eq!(n, 2);
}

#[test]
fn arm64_thread_state_has_named_registers() {
    let mut bytes = Vec::new();
    for i in 0..33u64 {
        push_u64(&mut bytes, 0x100 + i);
    }
    push_u32(&mut bytes, 0x6000_0000);
    push_u32(&mut bytes, 7);
    let mut reader = Reader::from_bytes(bytes);
    let state = FlavorState::parse(&mut reader, Endian::Little, ARM_THREAD_STATE64, CPU_TYPE_ARM64)
        .unwrap();
    let (name, fields) = state.all_fields_with_header().unwrap();
    assert_eq!(name, "STRUCT_ARM_THREAD_STATE64");
    assert_eq!(fields.len(), 35);
    assert_eq!(fields[0].name, "x0");
    assert_eq!(fields[0].value, 0x100);
    assert_eq!(fields[28].name, "x28");
    assert_eq!(fields[28].value, 0x100 + 28);
    let tail: Vec<&str> = fields[29..].iter().map(|f| f.name).collect();
    assert_eq!(tail, vec!["fp", "lr", "sp", "pc", "cpsr", "flags"]);
    assert_eq!(fields[32].value, 0x100 + 32);
    assert_eq!(fields[33].value, 0x6000_0000);
    assert_eq!(fields[34].value, 7);
}

#[test]
fn arm64_exception_state_has_three_fields() {
    let mut bytes = Vec::new();
    push_u64(&mut bytes, 9);
    push_u32(&mut bytes, 8);
    push_u32(&mut bytes, 7);
    let mut reader = Reader::from_bytes(bytes);
    let state =
        FlavorState::parse(&mut reader, Endian::Little, ARM_EXCEPTION_STATE64, CPU_TYPE_ARM64)
            .unwrap();
    let (name, fields) = state.all_fields_with_header().unwrap();
    assert_eq!(name, "STRUCT_ARM_EXCEPTION_STATE64");
    let got: Vec<(&str, u64)> = fields.iter().map(|f| (f.name, f.value)).collect();
    assert_eq!(got, vec![("far", 9), ("esr", 8), ("exception", 7)]);
}

#[test]
fn unregistered_pair_is_unknown() {
    let mut reader = Reader::from_bytes(vec![]);
    let state = FlavorState::parse(&mut reader, Endian::Little, 5, CPU_TYPE_ARM64).unwrap();
    assert!(matches!(state, FlavorState::Unknown));
    assert!(state.all_fields_with_header().is_none());
    let state = FlavorState::parse(&mut reader, Endian::Little, ARM_THREAD_STATE64, CPU_TYPE_I386)
        .unwrap();
    assert!(matches!(state, FlavorState::Unknown));
}

#[test]
fn zero_header_yields_no_records() {
    let bytes = vec![0u8; 8];
    let mut reader = Reader::from_bytes(bytes);
    let thread = LcThread::parse(8, 0, Endian::Little, CPU_TYPE_X86_64).unwrap();
    assert!(thread.flavors(&mut reader).is_empty());
    assert!(thread.flavor_iterator().next(&mut reader).is_none());
}

#[test]
fn truncated_record_ends_the_list() {
    let mut bytes = two_records(0);
    bytes.truncate(28);
    let mut reader = Reader::from_bytes(bytes);
    let thread = LcThread::parse(100, 0, Endian::Little, CPU_TYPE_ARM64).unwrap();
    assert_eq!(summary(&thread.flavors(&mut reader)), vec![(ARM_EXCEPTION_STATE64, 4)]);
}

#[test]
fn list_stops_at_cmdsize() {
    let bytes = two_records(0);
    let mut reader = Reader::from_bytes(bytes);
    let thread = LcThread::parse(24, 0, Endian::Little, CPU_TYPE_ARM64).unwrap();
    assert_eq!(summary(&thread.flavors(&mut reader)), vec![(ARM_EXCEPTION_STATE64, 4)]);
}

#[test]
fn short_state_is_bad_buffer_length() {
    let mut reader = Reader::from_bytes(vec![0u8; 63]);
    let r = FlavorState::parse(&mut reader, Endian::Little, X86_THREAD_STATE32, CPU_TYPE_I386);
    assert!(matches!(r, Err(Error::BadBufferLength)));
    let mut reader = Reader::from_bytes(vec![1, 0, 0, 0, 2, 0, 0]);
    let r = LcThreadFlavor::parse(&mut reader, 0, Endian::Little, CPU_TYPE_I386);
    assert!(matches!(r, Err(Error::BadBufferLength)));
}

#[test]
fn x86_states_decode_in_order() {
    let mut bytes = Vec::new();
    for i in 0..16u32 {
        bytes.extend_from_slice(&(i + 1).to_be_bytes());
    }
    let mut reader = Reader::from_bytes(bytes);
    let state =
        FlavorState::parse(&mut reader, Endian::Big, X86_THREAD_STATE32, CPU_TYPE_I386).unwrap();
    match &state {
        FlavorState::X86ThreadState32(s) => {
            assert_eq!(s.eax.0, 1);
            assert_eq!(s.gs.0, 16);
        }
        _ => panic!("expected a 32-bit x86 state"),
    }
    let (name, fields) = state.all_fields_with_header().unwrap();
    assert_eq!(name, "STRUCT_X86_THREAD_STATE32");
    assert_eq!(fields.len(), 16);
    assert_eq!((fields[9].name, fields[9].value), ("eflags", 10));

    let mut bytes = Vec::new();
    for i in 0..21u64 {
        push_u64(&mut bytes, i * 3);
    }
    let mut reader = Reader::from_bytes(bytes);
    let state =
        FlavorState::parse(&mut reader, Endian::Little, X86_THREAD_STATE64, CPU_TYPE_X86_64)
            .unwrap();
    let (name, fields) = state.all_fields_with_header().unwrap();
    assert_eq!(name, "STRUCT_X86_THREAD_STATE64");
    assert_eq!(fields.len(), 21);
    assert_eq!((fields[16].name, fields[16].value), ("rip", 48));
}

#[test]
fn flavor_size_and_fields() {
    let f = LcThreadFlavor { flavor: 6, count: 68, state: FlavorState::Unknown };
    assert_eq!(f.calculate_flavor_size(), 280);
    let big = LcThreadFlavor { flavor: 1, count: u32::MAX, state: FlavorState::Unknown };
    assert_eq!(big.calculate_flavor_size(), 8 + 4 * u32::MAX as u64);
    let got: Vec<(&str, u64)> = f.all_fields().iter().map(|x| (x.name, x.value)).collect();
    assert_eq!(got, vec![("flavor", 6), ("count", 68)]);
}

#[test]
fn sentinel_record_parses_to_none() {
    let mut reader = Reader::from_bytes(vec![0u8; 8]);
    let r = LcThreadFlavor::parse(&mut reader, 0, Endian::Big, CPU_TYPE_ARM64).unwrap();
    assert!(r.is_none());
}

#[test]
fn strict_walk_reports_a_truncated_record() {
    let mut bytes = two_records(0);
    bytes.truncate(28);
    let mut reader = Reader::from_bytes(bytes);
    let thread = LcThread::parse(100, 0, Endian::Little, CPU_TYPE_ARM64).unwrap();
    let mut it = thread.flavor_iterator();
    let first = it.next_strict(&mut reader).unwrap().unwrap();
    assert_eq!((first.flavor, first.count), (ARM_EXCEPTION_STATE64, 4));
    assert!(matches!(it.next_strict(&mut reader), Err(Error::BadBufferLength)));
    assert!(it.next(&mut reader).is_none());

    let bytes = two_records(0);
    let mut reader = Reader::from_bytes(bytes.clone());
    let thread = LcThread::parse(bytes.len() as u32, 0, Endian::Little, CPU_TYPE_ARM64).unwrap();
    let mut it = thread.flavor_iterator();
    assert!(it.next_strict(&mut reader).unwrap().is_some());
    assert!(it.next_strict(&mut reader).unwrap().is_some());
    assert!(it.next_strict(&mut reader).unwrap().is_none());
}
