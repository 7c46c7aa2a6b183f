use name_registry::codec::decode;
use name_registry::codec::encode;
use name_registry::errors::RegistryError;
use name_registry::instruction::parse_instruction;
use name_registry::instruction::Instruction;
use name_registry::ops::complete_register;
use name_registry::ops::plan_register;
use name_registry::ops::resolve_record;
use name_registry::record::NameRecord;
use name_registry::utf8::check_utf8;
use name_registry::MAX_NAME_LENGTH;
use name_registry::MAX_RECORD_SIZE;

fn sample_owner() -> Vec<u8> {
    (0u8..32u8).collect()
}

#[test]
fn test_name_record_serialization() {
    let record = NameRecord {
        name: "example.sol".as_bytes().to_vec(),
        owner: sample_owner(),
        created_at: 1234567890,
    };

    let serialized = encode(&record).unwrap();

    let decoded = decode(&serialized).unwrap();

    assert_eq!(record.name, decoded.name);
    assert_eq!(record.owner, decoded.owner);
    assert_eq!(record.created_at, decoded.created_at);
}

#[test]
fn test_record_size_limits() {
    let long_name = "a".repeat(MAX_NAME_LENGTH + 1);
    let record = NameRecord {
        name: long_name.into_bytes(),
        owner: sample_owner(),
        created_at: 0,
    };

    assert!(record.name.len() > MAX_NAME_LENGTH);
}

#[test]
fn encoding_matches_borsh_wire_format() {
    // The slot layout is the one borsh gives a (String, [u8; 32], i64)
    // struct: little-endian u32 length prefix, name bytes, owner, timestamp.
    let mut owner = [0u8; 32];
    owner.copy_from_slice(&sample_owner());
    let record = NameRecord {
        name: "example.sol".as_bytes().to_vec(),
        owner: owner.to_vec(),
        created_at: 1234567890,
    };
    let ours = encode(&record).unwrap();
    let reference = borsh::to_vec(&("example.sol".to_string(), owner, 1234567890i64)).unwrap();
    assert_eq!(ours, reference);

    let (name, got_owner, created_at): (String, [u8; 32], i64) =
        borsh::from_slice(&ours).unwrap();
    assert_eq!(name, "example.sol");
    assert_eq!(got_owner, owner);
    assert_eq!(created_at, 1234567890);
}

#[test]
fn encoding_matches_borsh_for_negative_timestamp() {
    let owner = [0xABu8; 32];
    let record = NameRecord {
        name: "n".as_bytes().to_vec(),
        owner: owner.to_vec(),
        created_at: -42,
    };
    let ours = encode(&record).unwrap();
    let reference = borsh::to_vec(&("n".to_string(), owner, -42i64)).unwrap();
    assert_eq!(ours, reference);

    let back = decode(&ours).unwrap();
    assert_eq!(back.created_at, -42);
}

#[test]
fn encode_exact_bytes() {
    let record = NameRecord {
        name: vec![b'h', b'i'],
        owner: vec![7u8; 32],
        created_at: 258,
    };
    let bytes = encode(&record).unwrap();
    let mut expected = vec![2u8, 0, 0, 0, b'h', b'i'];
    expected.extend_from_slice(&[7u8; 32]);
    expected.extend_from_slice(&[2, 1, 0, 0, 0, 0, 0, 0]);
    assert_eq!(bytes, expected);
    assert_eq!(bytes.len(), 46);
}

#[test]
fn encode_rejects_empty_name() {
    let record = NameRecord {
        name: Vec::new(),
        owner: sample_owner(),
        created_at: 0,
    };
    assert_eq!(encode(&record).unwrap_err(), RegistryError::InvalidInput);
}

#[test]
fn encode_rejects_oversized_name() {
    let record = NameRecord {
        name: vec![b'a'; MAX_NAME_LENGTH + 1],
        owner: sample_owner(),
        created_at: 0,
    };
    assert_eq!(encode(&record).unwrap_err(), RegistryError::InvalidInput);
}

#[test]
fn encode_rejects_non_utf8_name() {
    let record = NameRecord {
        name: vec![0xFF, 0x61],
        owner: sample_owner(),
        created_at: 0,
    };
    assert_eq!(encode(&record).unwrap_err(), RegistryError::InvalidInput);
}

#[test]
fn encode_rejects_wrong_owner_length() {
    let record = NameRecord {
        name: vec![b'a'],
        owner: vec![1u8; 31],
        created_at: 0,
    };
    assert_eq!(encode(&record).unwrap_err(), RegistryError::InvalidInput);
}

#[test]
fn encoded_size_never_exceeds_slot_capacity() {
    // Largest valid record: a 64-byte name gives 4 + 64 + 32 + 8 bytes.
    let record = NameRecord {
        name: vec![b'z'; MAX_NAME_LENGTH],
        owner: sample_owner(),
        created_at: i64::MIN,
    };
    let bytes = encode(&record).unwrap();
    assert_eq!(bytes.len(), 108);
    assert!(bytes.len() <= MAX_RECORD_SIZE);
}

#[test]
fn decode_rejects_truncated_buffers() {
    let record = NameRecord {
        name: "example.sol".as_bytes().to_vec(),
        owner: sample_owner(),
        created_at: 77,
    };
    let bytes = encode(&record).unwrap();
    for cut in 0..bytes.len() {
        let truncated = bytes[..cut].to_vec();
        assert_eq!(decode(&truncated).unwrap_err(), RegistryError::CodecError);
    }
}

#[test]
fn decode_never_corrupts() {
    // Arbitrary byte soup either fails or re-encodes to exactly the bytes
    // that were read.
    let mut state: u64 = 0x9E3779B97F4A7C15;
    for len in [0usize, 1, 3, 4, 5, 43, 44, 45, 108, 256] {
        let mut bytes = Vec::with_capacity(len);
        for _ in 0..len {
            state = state.wrapping_mul(6364136223846793005).wrapping_add(1442695040888963407);
            bytes.push((state >> 33) as u8);
        }
        match decode(&bytes) {
            Err(e) => assert_eq!(e, RegistryError::CodecError),
            Ok(rec) => {
                let again = encode(&rec).unwrap();
                assert_eq!(again[..], bytes[..again.len()]);
            }
        }
    }
}

#[test]
fn decode_ignores_trailing_slot_bytes() {
    let record = NameRecord {
        name: "tail".as_bytes().to_vec(),
        owner: sample_owner(),
        created_at: 5,
    };
    let mut bytes = encode(&record).unwrap();
    bytes.resize(MAX_RECORD_SIZE, 0);
    let back = decode(&bytes).unwrap();
    assert_eq!(back.name, record.name);
    assert_eq!(back.owner, record.owner);
    assert_eq!(back.created_at, record.created_at);
}

#[test]
fn register_then_resolve() {
    // Scenario: a successful registration, then resolution of the same slot.
    let payer = sample_owner();
    let name = "example.sol".as_bytes().to_vec();

    let space = plan_register(&name).unwrap();
    assert_eq!(space, MAX_RECORD_SIZE);

    // The external allocator would now create a zeroed slot of that size.
    let mut slot = vec![0u8; space];
    let registered_at = 1_700_000_000i64;
    let record = complete_register(&mut slot, &name, &payer, registered_at).unwrap();
    assert_eq!(record.name, name);
    assert_eq!(record.owner, payer);
    assert_eq!(record.created_at, registered_at);

    let resolved = resolve_record(&slot).unwrap();
    assert_eq!(resolved.name, name);
    assert_eq!(resolved.owner, payer);
    assert_eq!(resolved.created_at, registered_at);
}

#[test]
fn register_rejects_empty_name_before_allocation() {
    // Scenario: an empty name fails validation, so no allocation request is
    // ever issued.
    let name: Vec<u8> = Vec::new();
    assert_eq!(plan_register(&name).unwrap_err(), RegistryError::InvalidInput);
}

#[test]
fn register_rejects_oversized_name() {
    let name = vec![b'a'; 65];
    assert_eq!(plan_register(&name).unwrap_err(), RegistryError::InvalidInput);
    let payer = sample_owner();
    let mut slot = vec![0u8; MAX_RECORD_SIZE];
    let err = complete_register(&mut slot, &name, &payer, 0).unwrap_err();
    assert_eq!(err, RegistryError::InvalidInput);
    assert_eq!(slot, vec![0u8; MAX_RECORD_SIZE]);
}

#[test]
fn resolve_fails_on_unwritten_slot() {
    // Scenario: a slot that was never written decodes to nothing.
    let zeroed = vec![0u8; MAX_RECORD_SIZE];
    assert_eq!(resolve_record(&zeroed).unwrap_err(), RegistryError::CodecError);
    let empty: Vec<u8> = Vec::new();
    assert_eq!(resolve_record(&empty).unwrap_err(), RegistryError::CodecError);
}

#[test]
fn owner_binding_holds_for_any_name_and_time() {
    let payer = vec![0xCDu8; 32];
    for (name, at) in [("a", 0i64), ("??", -1), ("name.with.dots", i64::MAX)] {
        let mut slot = vec![0u8; MAX_RECORD_SIZE];
        complete_register(&mut slot, &name.as_bytes().to_vec(), &payer, at).unwrap();
        let resolved = resolve_record(&slot).unwrap();
        assert_eq!(resolved.owner, payer);
    }
}

#[test]
fn register_fails_on_undersized_slot() {
    let payer = sample_owner();
    let name = "abc".as_bytes().to_vec();
    let mut slot = vec![0u8; 10];
    let err = complete_register(&mut slot, &name, &payer, 1).unwrap_err();
    assert_eq!(err, RegistryError::CodecError);
    assert_eq!(slot, vec![0u8; 10]);
}

#[test]
fn parse_instruction_routes_opcodes() {
    let register = parse_instruction(&vec![0, b'h', b'i']).unwrap();
    match register {
        Instruction::Register { name } => assert_eq!(name, vec![b'h', b'i']),
        Instruction::Resolve => panic!("opcode 0 must route to Register"),
    }

    let resolve = parse_instruction(&vec![1, 9, 9]).unwrap();
    assert!(matches!(resolve, Instruction::Resolve));

    let empty: Vec<u8> = Vec::new();
    assert_eq!(parse_instruction(&empty).unwrap_err(), RegistryError::InvalidInput);
    assert_eq!(parse_instruction(&vec![2]).unwrap_err(), RegistryError::InvalidInput);
    assert_eq!(parse_instruction(&vec![255, 0]).unwrap_err(), RegistryError::InvalidInput);
}

#[test]
fn utf8_checker_agrees_with_std() {
    let cases: Vec<Vec<u8>> = vec![
        b"".to_vec(),
        b"plain ascii".to_vec(),
        "héllo wörld".as_bytes().to_vec(),
        "\u{0800}\u{FFFD}".as_bytes().to_vec(),
        "\u{10FFFF}\u{1F600}".as_bytes().to_vec(),
        vec![0x80],                   // lone continuation byte
        vec![0xC0, 0xAF],             // overlong two-byte form
        vec![0xC2],                   // truncated two-byte character
        vec![0xE0, 0x80, 0x80],       // overlong three-byte form
        vec![0xED, 0xA0, 0x80],       // surrogate
        vec![0xE2, 0x82],             // truncated three-byte character
        vec![0xF0, 0x80, 0x80, 0x80], // overlong four-byte form
        vec![0xF4, 0x90, 0x80, 0x80], // above U+10FFFF
        vec![0xF5, 0x80, 0x80, 0x80], // invalid leading byte
        vec![0xF0, 0x9F, 0x98],       // truncated four-byte character
        vec![0x61, 0xC3],             // valid prefix, truncated tail
    ];
    for case in cases {
        assert_eq!(
            check_utf8(&case),
            std::str::from_utf8(&case).is_ok(),
            "disagreement on {:?}",
            case
        );
    }
}
