use gm8emulator::code_action::{CodeAction, Error, PARAM_COUNT, VERSION};

fn sample() -> CodeAction {
    CodeAction {
        id: 603,
        applies_to: -1,
        is_condition: false,
        invert_condition: true,
        is_relative: false,
        lib_id: 1,
        action_kind: 7,
        execution_type: 2,
        can_be_relative: 0,
        applies_to_something: true,
        fn_name: b"fn".to_vec(),
        fn_code: b"x = 1".to_vec(),
        param_count: 1,
        param_types: [1, 0, 0, 0, 0, 0, 0, 0x01020304],
        param_strings: [
            b"a".to_vec(),
            Vec::new(),
            Vec::new(),
            Vec::new(),
            Vec::new(),
            Vec::new(),
            Vec::new(),
            b"zz".to_vec(),
        ],
    }
}

fn sample_bytes() -> Vec<u8> {
    let mut b: Vec<u8> = Vec::new();
    b.extend_from_slice(&[0xb8, 0x01, 0, 0]); // version 440
    b.extend_from_slice(&[1, 0, 0, 0]); // lib id
    b.extend_from_slice(&[0x5b, 0x02, 0, 0]); // id 603
    b.extend_from_slice(&[7, 0, 0, 0]); // kind
    b.extend_from_slice(&[0, 0, 0, 0]); // can be relative
    b.extend_from_slice(&[0, 0, 0, 0]); // is condition
    b.extend_from_slice(&[1, 0, 0, 0]); // applies to something
    b.extend_from_slice(&[2, 0, 0, 0]); // execution type
    b.extend_from_slice(&[2, 0, 0, 0]);
    b.extend_from_slice(b"fn");
    b.extend_from_slice(&[5, 0, 0, 0]);
    b.extend_from_slice(b"x = 1");
    b.extend_from_slice(&[1, 0, 0, 0]); // param count
    b.extend_from_slice(&[8, 0, 0, 0]); // type count
    b.extend_from_slice(&[1, 0, 0, 0]);
    for _ in 0..6 {
        b.extend_from_slice(&[0, 0, 0, 0]);
    }
    b.extend_from_slice(&[4, 3, 2, 1]);
    b.extend_from_slice(&[0xff, 0xff, 0xff, 0xff]); // applies to -1
    b.extend_from_slice(&[0, 0, 0, 0]); // is relative
    b.extend_from_slice(&[8, 0, 0, 0]); // string count
    b.extend_from_slice(&[1, 0, 0, 0]);
    b.extend_from_slice(b"a");
    for _ in 0..6 {
        b.extend_from_slice(&[0, 0, 0, 0]);
    }
    b.extend_from_slice(&[2, 0, 0, 0]);
    b.extend_from_slice(b"zz");
    b.extend_from_slice(&[1, 0, 0, 0]); // invert
    b
}

fn same(a: &CodeAction, b: &CodeAction) -> bool {
    a.id == b.id
        && a.applies_to == b.applies_to
        && a.is_condition == b.is_condition
        && a.invert_condition == b.invert_condition
        && a.is_relative == b.is_relative
        && a.lib_id == b.lib_id
        && a.action_kind == b.action_kind
        && a.execution_type == b.execution_type
        && a.can_be_relative == b.can_be_relative
        && a.applies_to_something == b.applies_to_something
        && a.fn_name == b.fn_name
        && a.fn_code == b.fn_code
        && a.param_count == b.param_count
        && a.param_types == b.param_types
        && a.param_strings == b.param_strings
}

#[test]
fn constants() {
    assert_eq!(VERSION, 440);
    assert_eq!(PARAM_COUNT, 8);
}

#[test]
fn serialize_writes_little_endian_fields_in_order() {
    assert_eq!(sample().serialize_exe(), sample_bytes());
}

#[test]
fn deserialize_reads_what_serialize_wrote() {
    let bytes = sample_bytes();
    let (action, taken) = CodeAction::deserialize_exe(&bytes, true).ok().unwrap();
    assert_eq!(taken, bytes.len());
    assert!(same(&action, &sample()));
    let mut longer = bytes.clone();
    longer.extend_from_slice(&[9, 9, 9]);
    let (again, taken) = CodeAction::deserialize_exe(&longer, false).ok().unwrap();
    assert_eq!(taken, bytes.len());
    assert!(same(&again, &sample()));
}

#[test]
fn flags_are_true_for_any_number_but_zero() {
    let mut bytes = sample_bytes();
    bytes[20] = 0;
    bytes[21] = 4;
    let (action, _) = CodeAction::deserialize_exe(&bytes, true).ok().unwrap();
    assert!(action.is_condition);
}

#[test]
fn version_is_checked_only_when_strict() {
    let mut bytes = sample_bytes();
    bytes[0] = 0xb9;
    assert_eq!(
        CodeAction::deserialize_exe(&bytes, true).err(),
        Some(Error::VersionError { expected: 440, got: 441 })
    );
    assert!(CodeAction::deserialize_exe(&bytes, false).is_ok());
    assert_eq!(
        CodeAction::deserialize_exe(&bytes[..4], true).err(),
        Some(Error::VersionError { expected: 440, got: 441 })
    );
}

#[test]
fn every_cut_of_the_bytes_is_an_unexpected_end() {
    let bytes = sample_bytes();
    for n in 0..bytes.len() {
        assert_eq!(CodeAction::deserialize_exe(&bytes[..n], true).err(), Some(Error::UnexpectedEof));
    }
}

#[test]
fn counts_out_of_range_are_malformed() {
    let bytes = sample_bytes();
    let params_at = 32 + 4 + 2 + 4 + 5;
    let mut too_many = bytes.clone();
    too_many[params_at] = 9;
    assert_eq!(CodeAction::deserialize_exe(&too_many, true).err(), Some(Error::MalformedData));
    assert_eq!(
        CodeAction::deserialize_exe(&too_many[..params_at + 4], true).err(),
        Some(Error::MalformedData)
    );
    let mut eight = bytes.clone();
    eight[params_at] = 8;
    assert_eq!(CodeAction::deserialize_exe(&eight, true).ok().unwrap().0.param_count, 8);
    let mut types = bytes.clone();
    types[params_at + 4] = 7;
    assert_eq!(CodeAction::deserialize_exe(&types, true).err(), Some(Error::MalformedData));
    let mut strings = bytes.clone();
    strings[params_at + 48] = 9;
    assert_eq!(CodeAction::deserialize_exe(&strings, true).err(), Some(Error::MalformedData));
    assert_eq!(
        CodeAction::deserialize_exe(&strings[..params_at + 51], true).err(),
        Some(Error::UnexpectedEof)
    );
}

#[test]
fn a_string_longer_than_the_bytes_is_an_unexpected_end() {
    let mut bytes = sample_bytes();
    bytes[32] = 0xff;
    bytes[33] = 0xff;
    bytes[34] = 0xff;
    bytes[35] = 0xff;
    assert_eq!(CodeAction::deserialize_exe(&bytes, true).err(), Some(Error::UnexpectedEof));
}

#[test]
fn negative_and_large_numbers_round_trip() {
    let mut action = sample();
    action.applies_to = i32::MIN;
    action.id = u32::MAX;
    action.lib_id = 0x8000_0000;
    action.param_types = [u32::MAX, 1, 2, 3, 4, 5, 6, 0xdead_beef];
    let bytes = action.serialize_exe();
    let (again, _) = CodeAction::deserialize_exe(&bytes, true).ok().unwrap();
    assert!(same(&again, &action));
    action.applies_to = 123456;
    let (again, _) = CodeAction::deserialize_exe(&action.serialize_exe(), true).ok().unwrap();
    assert_eq!(again.applies_to, 123456);
}
