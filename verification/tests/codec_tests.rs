use pkl_bind::msgpack::{decode, encode, write_int, Value};
use pkl_bind::outgoing::{
    pack_message, pack_message_checked, CloseEvaluator, CreateEvaluator, ListModulesResponse,
    OutgoingMessage, PathElement, ResourceReader,
};

fn int_bytes(v: i64) -> Vec<u8> {
    let mut buf = Vec::new();
    write_int(&mut buf, v);
    buf
}

#[test]
fn test_pack_message_specification_1() {
    let pe = PathElement {
        name: "foo.pkl".into(),
        is_directory: false,
    };
    let mr = ListModulesResponse {
        request_id: -647892,
        evaluator_id: -13901,
        path_elements: Some(vec![pe]),
        error: None,
    };

    let mp = pack_message(OutgoingMessage::ListModulesResponse(mr)).unwrap();
    let expected = vec![
        0x92, 0x2D, 0x83, 0xA9, 0x72, 0x65, 0x71, 0x75, 0x65, 0x73, 0x74, 0x49, 0x64, 0xD2, 0xFF,
        0xF6, 0x1D, 0x2C, 0xAB, 0x65, 0x76, 0x61, 0x6C, 0x75, 0x61, 0x74, 0x6F, 0x72, 0x49, 0x64,
        0xD1, 0xC9, 0xB3, 0xAC, 0x70, 0x61, 0x74, 0x68, 0x45, 0x6C, 0x65, 0x6D, 0x65, 0x6E, 0x74,
        0x73, 0x91, 0x82, 0xA4, 0x6E, 0x61, 0x6D, 0x65, 0xA7, 0x66, 0x6F, 0x6F, 0x2E, 0x70, 0x6B,
        0x6C, 0xAB, 0x69, 0x73, 0x44, 0x69, 0x72, 0x65, 0x63, 0x74, 0x6F, 0x72, 0x79, 0xC2,
    ];

    println!("Serialized: {:X?}", mp);

    assert_eq!(mp, expected);
}

#[test]
fn int_encodings_are_most_compact() {
    assert_eq!(int_bytes(0), vec![0x00]);
    assert_eq!(int_bytes(127), vec![0x7f]);
    assert_eq!(int_bytes(128), vec![0xcc, 0x80]);
    assert_eq!(int_bytes(135), vec![0xcc, 0x87]);
    assert_eq!(int_bytes(255), vec![0xcc, 0xff]);
    assert_eq!(int_bytes(256), vec![0xcd, 0x01, 0x00]);
    assert_eq!(int_bytes(65535), vec![0xcd, 0xff, 0xff]);
    assert_eq!(int_bytes(65536), vec![0xce, 0x00, 0x01, 0x00, 0x00]);
    assert_eq!(int_bytes(0xFFFF_FFFF), vec![0xce, 0xff, 0xff, 0xff, 0xff]);
    assert_eq!(
        int_bytes(0x1_0000_0000),
        vec![0xcf, 0x00, 0x00, 0x00, 0x01, 0x00, 0x00, 0x00, 0x00]
    );
    assert_eq!(
        int_bytes(i64::MAX),
        vec![0xcf, 0x7f, 0xff, 0xff, 0xff, 0xff, 0xff, 0xff, 0xff]
    );
    assert_eq!(int_bytes(-1), vec![0xff]);
    assert_eq!(int_bytes(-32), vec![0xe0]);
    assert_eq!(int_bytes(-33), vec![0xd0, 0xdf]);
    assert_eq!(int_bytes(-128), vec![0xd0, 0x80]);
    assert_eq!(int_bytes(-129), vec![0xd1, 0xff, 0x7f]);
    assert_eq!(int_bytes(-13901), vec![0xd1, 0xc9, 0xb3]);
    assert_eq!(int_bytes(-32768), vec![0xd1, 0x80, 0x00]);
    assert_eq!(int_bytes(-32769), vec![0xd2, 0xff, 0xff, 0x7f, 0xff]);
    assert_eq!(int_bytes(-647892), vec![0xd2, 0xff, 0xf6, 0x1d, 0x2c]);
    assert_eq!(
        int_bytes(i64::MIN),
        vec![0xd3, 0x80, 0x00, 0x00, 0x00, 0x00, 0x00, 0x00, 0x00]
    );
}

#[test]
fn value_round_trips() {
    let values = vec![
        Value::Nil,
        Value::Bool(true),
        Value::Bool(false),
        Value::Int(140),
        Value::Int(-135901),
        Value::Int(i64::MIN),
        Value::Int(i64::MAX),
        Value::Str("".into()),
        Value::Str("foo.pkl".into()),
        Value::Str("caf\u{e9} \u{1F600}".into()),
        Value::Bin(vec![]),
        Value::Bin(vec![0xde, 0xad, 0xbe, 0xef]),
        Value::Arr(vec![Value::Int(1), Value::Str("two".into()), Value::Nil]),
        Value::Dict(vec![
            ("a".into(), Value::Int(1)),
            ("b".into(), Value::Arr(vec![Value::Bool(true)])),
        ]),
    ];
    for v in values {
        let bytes = encode(&v);
        let back = decode(&bytes).expect("round trip must decode");
        assert_eq!(back, v);
    }
}

#[test]
fn long_string_uses_wider_header() {
    // 32 one-byte characters: one past the fixstr limit.
    let s: String = "abcdefghijklmnopqrstuvwxyz012345".into();
    assert_eq!(s.len(), 32);
    let bytes = encode(&Value::Str(s.clone()));
    assert_eq!(bytes[0], 0xd9);
    assert_eq!(bytes[1], 32);
    assert_eq!(decode(&bytes), Some(Value::Str(s)));
}

#[test]
fn decode_rejects_bad_input() {
    // An unassigned marker.
    assert_eq!(decode(&vec![0xc1]), None);
    // A truncated 16-bit integer.
    assert_eq!(decode(&vec![0xcd, 0x01]), None);
    // Trailing bytes after one complete value.
    assert_eq!(decode(&vec![0x01, 0x02]), None);
    // A string body that is not UTF-8.
    assert_eq!(decode(&vec![0xa2, 0xff, 0xfe]), None);
    // An empty buffer.
    assert_eq!(decode(&vec![]), None);
    // A float marker: outside the protocol's subset.
    assert_eq!(decode(&vec![0xca, 0x00, 0x00, 0x00, 0x00]), None);
}

#[test]
fn pack_create_evaluator_frame_shape() {
    let allowed_modules: Vec<String> = vec![
        "pkl:".into(),
        "repl:".into(),
        "file:".into(),
        "customfs:".into(),
    ];
    let resource_reader = vec![ResourceReader {
        scheme: "customfs".into(),
        has_hierarchical_uris: true,
        is_globbable: true,
    }];

    let create_eval = CreateEvaluator {
        request_id: 135,
        client_resource_readers: Some(resource_reader),
        client_module_readers: None,
        module_paths: None,
        env: None,
        properties: None,
        output_format: None,
        allowed_modules: Some(allowed_modules),
        allowed_resources: None,
        root_dir: None,
        cache_dir: None,
        project: None,
        timeout_seconds: None,
    };

    let bytes = pack_message(OutgoingMessage::CreateEvaluator(create_eval)).expect("Failed to pack");
    // A two-element frame with the create-evaluator code.
    assert_eq!(bytes[0], 0x92);
    assert_eq!(bytes[1], 0x20);
    // Three fields present: requestId, clientResourceReaders, allowedModules.
    assert_eq!(bytes[2], 0x83);
    // And the whole frame reads back as one value.
    assert!(decode(&bytes).is_some());
}

#[test]
fn pack_close_evaluator_frames() {
    let with_id = pack_message(OutgoingMessage::CloseEvaluator(CloseEvaluator {
        evaluator_id: Some(33),
    }))
    .unwrap();
    assert_eq!(
        with_id,
        vec![
            0x92, 0x22, 0x81, 0xAB, 0x65, 0x76, 0x61, 0x6C, 0x75, 0x61, 0x74, 0x6F, 0x72, 0x49,
            0x64, 0x21
        ]
    );
    let without = pack_message(OutgoingMessage::CloseEvaluator(CloseEvaluator {
        evaluator_id: None,
    }))
    .unwrap();
    // The optional field is omitted, not written as null.
    assert_eq!(without, vec![0x92, 0x22, 0x80]);
}

#[test]
fn pack_message_checked_accepts_ordinary_frames() {
    let msg = OutgoingMessage::CloseEvaluator(CloseEvaluator {
        evaluator_id: Some(33),
    });
    let checked = pack_message_checked(msg).expect("an ordinary frame is within the limits");
    let msg2 = OutgoingMessage::CloseEvaluator(CloseEvaluator {
        evaluator_id: Some(33),
    });
    assert_eq!(checked, pack_message(msg2).unwrap());
}
