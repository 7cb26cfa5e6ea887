use micro_platform::codec::{decode, encode, DecodeError, EncodeError};
use micro_platform::ir::{
    AnchorSpec, LayoutSpec,
    validate, AppImage, BindingId, Constant, FontFamily, FontWeight, Function, FunctionId,
    FunctionKind, HandlerId, Instruction, NodeId, ScalarType, StateDecl, StateId, TextSource,
    TextStyle, TextStyleError, UiKind, UiNodeSpec, ValueSource,
};

fn fixture() -> AppImage {
    AppImage {
        constants: vec![Constant::Number(0.0f64.to_bits()), Constant::String("Count: ".into())],
        states: vec![StateDecl {
            ty: ScalarType::Number,
            initial: 0,
        }],
        functions: vec![Function {
            kind: FunctionKind::Binding(BindingId(0)),
            arg_count: 0,
            locals: 0,
            max_stack: 2,
            code: vec![
                Instruction::Const(1),
                Instruction::LoadState(StateId(0)),
                Instruction::ToString,
                Instruction::Concat,
                Instruction::Return,
            ],
        }],
        nodes: vec![UiNodeSpec {
            id: NodeId(0),
            kind: UiKind::Text,
            children: vec![],
            text: Some(TextSource::Binding(FunctionId(0))),
            value: None,
            on_click: None,
            text_style: None,
            range: None,
            options: vec![],
            layout: None,
        }],
        root: NodeId(0),
    }
}

#[test]
fn round_trips_a_valid_image() {
    let image = fixture();
    assert_eq!(decode(&encode(&image).unwrap()).unwrap(), image);
}

#[test]
fn round_trips_an_exact_text_style() {
    let mut image = fixture();
    image.nodes[0].text_style =
        Some(TextStyle::new(FontFamily::UiSans, 18, FontWeight::Regular, 24).unwrap());

    let decoded = decode(&encode(&image).unwrap()).unwrap();

    assert_eq!(decoded.nodes[0].text_style, image.nodes[0].text_style);
    assert_eq!(decoded, image);
}

#[test]
fn round_trips_progress_and_switch_values() {
    let image = AppImage {
        constants: vec![
            Constant::Number(0.5f64.to_bits()),
            Constant::Bool(true),
            Constant::String("on".into()),
        ],
        states: vec![],
        functions: vec![
            Function {
                kind: FunctionKind::Binding(BindingId(0)),
                arg_count: 0,
                locals: 0,
                max_stack: 2,
                code: vec![Instruction::Const(0), Instruction::Return],
            },
            Function {
                kind: FunctionKind::Handler(HandlerId(0)),
                arg_count: 0,
                locals: 0,
                max_stack: 1,
                code: vec![Instruction::Return],
            },
        ],
        nodes: vec![
            UiNodeSpec {
                id: NodeId(0),
                kind: UiKind::Column,
                children: vec![NodeId(1), NodeId(2)],
                text: None,
                value: None,
                on_click: None,
                text_style: None,
                range: None,
                options: vec![],
                layout: None,
            },
            UiNodeSpec {
                id: NodeId(1),
                kind: UiKind::Progress,
                children: vec![],
                text: None,
                value: Some(ValueSource::Binding(FunctionId(0))),
                on_click: None,
                text_style: None,
                range: None,
                options: vec![],
                layout: None,
            },
            UiNodeSpec {
                id: NodeId(2),
                kind: UiKind::Switch,
                children: vec![],
                text: None,
                value: Some(ValueSource::Constant(1)),
                on_click: Some(FunctionId(1)),
                text_style: None,
                range: None,
                options: vec![],
                layout: None,
            },
        ],
        root: NodeId(0),
    };
    let decoded = decode(&encode(&image).unwrap()).unwrap();
    assert_eq!(decoded, image);
    assert_eq!(decoded.nodes[1].kind, UiKind::Progress);
    assert_eq!(decoded.nodes[1].value, Some(ValueSource::Binding(FunctionId(0))));
    assert_eq!(decoded.nodes[2].kind, UiKind::Switch);
    assert_eq!(decoded.nodes[2].value, Some(ValueSource::Constant(1)));
}

#[test]
fn text_style_rejects_unsupported_sizes() {
    assert_eq!(
        TextStyle::ui_sans(16, FontWeight::Regular, 20),
        Err(TextStyleError::UnsupportedSize(16))
    );
}

#[test]
fn text_style_accepts_only_generated_size_and_line_height_pairs() {
    for (size_px, line_height_px) in [(12, 14), (14, 18), (18, 24), (24, 32), (32, 40)] {
        assert!(TextStyle::ui_sans(size_px, FontWeight::Regular, line_height_px).is_ok());
    }
    for (size_px, line_height_px) in [(12, 12), (14, 14), (18, 18), (24, 24), (32, 32), (18, 25)] {
        assert_eq!(
            TextStyle::ui_sans(size_px, FontWeight::Regular, line_height_px),
            Err(TextStyleError::UnsupportedLineHeight {
                size_px,
                line_height_px,
                supported_line_height_px: match size_px {
                    12 => 14,
                    14 => 18,
                    18 => 24,
                    24 => 32,
                    32 => 40,
                    _ => unreachable!(),
                },
            })
        );
    }
}

#[test]
fn rejects_checksum_corruption() {
    let mut bytes = encode(&fixture()).unwrap();
    *bytes.last_mut().unwrap() ^= 0xff;
    assert_eq!(decode(&bytes), Err(DecodeError::ChecksumMismatch));
}

#[test]
fn rejects_bad_magic_and_version() {
    let mut bad_magic = encode(&fixture()).unwrap();
    bad_magic[0] = b'X';
    assert_eq!(decode(&bad_magic), Err(DecodeError::BadMagic));

    let mut bad_version = encode(&fixture()).unwrap();
    bad_version[4..6].copy_from_slice(&1_u16.to_le_bytes());
    assert_eq!(
        decode(&bad_version),
        Err(DecodeError::UnsupportedVersion(1))
    );
}

#[test]
fn rejects_a_bad_text_style_tag() {
    let mut bytes = encode(&fixture()).unwrap();
    let style_tag = bytes.len() - 11;
    bytes[style_tag] = 2;
    refresh_checksum(&mut bytes);

    assert_eq!(
        decode(&bytes),
        Err(DecodeError::InvalidTag {
            section: "text style",
            tag: 2,
        })
    );
}

#[test]
fn rejects_an_unsupported_serialized_text_size() {
    let mut image = fixture();
    image.nodes[0].text_style = Some(TextStyle::ui_sans(18, FontWeight::Regular, 24).unwrap());
    let mut bytes = encode(&image).unwrap();
    let size_px = bytes.len() - 13;
    bytes[size_px] = 16;
    refresh_checksum(&mut bytes);

    assert_eq!(
        decode(&bytes),
        Err(DecodeError::InvalidImage(
            "unsupported text size 16px".into()
        ))
    );
}

#[test]
fn rejects_non_regular_serialized_font_weight() {
    let mut image = fixture();
    image.nodes[0].text_style = Some(TextStyle::ui_sans(18, FontWeight::Regular, 24).unwrap());
    let mut bytes = encode(&image).unwrap();
    let weight = bytes.len() - 12;
    bytes[weight] = 1;
    refresh_checksum(&mut bytes);
    assert_eq!(
        decode(&bytes),
        Err(DecodeError::InvalidTag {
            section: "font weight",
            tag: 1
        })
    );
}

#[test]
fn rejects_an_unsupported_serialized_line_height_pair() {
    let mut image = fixture();
    image.nodes[0].text_style = Some(TextStyle::ui_sans(18, FontWeight::Regular, 24).unwrap());
    let mut bytes = encode(&image).unwrap();
    let line_height_px = bytes.len() - 11;
    bytes[line_height_px] = 17;
    refresh_checksum(&mut bytes);

    assert_eq!(
        decode(&bytes),
        Err(DecodeError::InvalidImage(
            "unsupported 17px line height for 18px text; use 24px".into()
        ))
    );
}

#[test]
fn rejects_truncated_input_without_panicking() {
    let bytes = encode(&fixture()).unwrap();
    for length in 0..bytes.len() {
        assert!(decode(&bytes[..length]).is_err(), "length {length}");
    }
}

#[test]
fn validates_references_jumps_and_stack_depth() {
    let mut bad_state = fixture();
    bad_state.functions[0].code[1] = Instruction::LoadState(StateId(99));
    assert!(validate(&bad_state).is_err());

    let mut bad_jump = fixture();
    bad_jump.functions[0].code[0] = Instruction::Jump(99);
    assert!(validate(&bad_jump).is_err());

    let mut bad_stack = fixture();
    bad_stack.functions[0].max_stack = 1;
    assert!(validate(&bad_stack).is_err());
}

#[test]
fn conditional_jump_consumes_its_condition() {
    let mut image = fixture();
    image.constants.push(Constant::Bool(true));
    image.functions[0] = Function {
        kind: FunctionKind::Handler(HandlerId(0)),
        arg_count: 0,
        locals: 0,
        max_stack: 1,
        code: vec![
            Instruction::Const(2),
            Instruction::JumpIfFalse(3),
            Instruction::Jump(3),
            Instruction::Return,
        ],
    };
    image.nodes[0].text = Some(TextSource::Constant(1));
    image.nodes[0].on_click = Some(FunctionId(0));
    assert!(validate(&image).is_ok());
}

#[test]
fn encoded_fixture_has_the_documented_header() {
    let bytes = encode(&fixture()).unwrap();
    assert_eq!(&bytes[..4], b"MBC1");
    assert_eq!(u16::from_le_bytes([bytes[4], bytes[5]]), 15);
    let payload_len = u32::from_le_bytes([bytes[6], bytes[7], bytes[8], bytes[9]]) as usize;
    assert_eq!(bytes.len(), 14 + payload_len);
    let checksum = u32::from_le_bytes([bytes[10], bytes[11], bytes[12], bytes[13]]);
    assert_eq!(checksum, crc32(&bytes[14..]));
    assert_eq!(bytes[14], 1);
}

#[test]
fn encode_refuses_an_invalid_image() {
    let mut image = fixture();
    image.root = NodeId(7);
    assert_eq!(
        encode(&image),
        Err(EncodeError::InvalidImage("root node is out of range".into()))
    );
    let mut empty = fixture();
    empty.nodes.clear();
    assert_eq!(
        encode(&empty),
        Err(EncodeError::InvalidImage("UI tree is empty".into()))
    );
}

#[test]
fn decode_reports_header_faults_in_order() {
    assert_eq!(decode(b"MBC1"), Err(DecodeError::Truncated));
    let mut bytes = encode(&fixture()).unwrap();
    bytes.push(0);
    assert_eq!(decode(&bytes), Err(DecodeError::LengthMismatch));
}

#[test]
fn decode_rejects_trailing_bytes_inside_the_payload() {
    let mut bytes = encode(&fixture()).unwrap();
    bytes.push(0);
    let payload_len = (bytes.len() - 14) as u32;
    bytes[6..10].copy_from_slice(&payload_len.to_le_bytes());
    refresh_checksum(&mut bytes);
    assert_eq!(decode(&bytes), Err(DecodeError::TrailingBytes));
}

#[test]
fn decode_validates_what_it_reads() {
    let mut image = fixture();
    image.nodes[0].id = NodeId(3);
    let valid = fixture();
    let mut bytes = encode(&valid).unwrap();
    let id_at = bytes.len() - 4 - 1 - 4 - 1 - 1 - 5 - 5 - 5 - 4 - 1 - 4;
    bytes[id_at] = 3;
    refresh_checksum(&mut bytes);
    assert_eq!(
        decode(&bytes),
        Err(DecodeError::InvalidImage("node id 3 is not canonical".into()))
    );
    assert!(validate(&image).is_err());
}

#[test]
fn validation_names_the_offending_function() {
    let mut image = fixture();
    image.functions[0].code = vec![Instruction::Const(0)];
    assert_eq!(
        validate(&image).unwrap_err().0,
        "function 0 falls off the end"
    );
    image.functions[0].code = vec![];
    assert_eq!(validate(&image).unwrap_err().0, "function 0 is empty");
    image.functions[0].code = vec![Instruction::Pop, Instruction::Return];
    assert_eq!(
        validate(&image).unwrap_err().0,
        "function 0 underflows its stack"
    );
}

#[test]
fn every_function_scan_fault_has_its_own_message() {
    let cases: Vec<(Vec<Instruction>, u16, &str)> = vec![
        (vec![Instruction::Const(9), Instruction::Return], 2, "function 0 has an invalid constant"),
        (vec![Instruction::LoadState(StateId(4)), Instruction::Return], 2, "function 0 has an invalid state"),
        (vec![Instruction::LoadLocal(0), Instruction::Return], 2, "function 0 has an invalid local"),
        (vec![Instruction::LoadArg, Instruction::Return], 2, "function 0 uses LoadArg without an argument"),
        (vec![Instruction::Jump(7)], 2, "function 0 has an invalid jump"),
        (vec![Instruction::Return], 2, "function 0 returns with wrong stack depth"),
        (
            vec![
                Instruction::Const(1),
                Instruction::Const(1),
                Instruction::JumpIfFalse(4),
                Instruction::Const(1),
                Instruction::Return,
            ],
            2,
            "function 0 has inconsistent stack depth",
        ),
        (vec![Instruction::Const(1), Instruction::Return], 0, "function 0 declares too little stack"),
    ];
    for (code, max_stack, message) in cases {
        let mut image = fixture();
        image.functions[0].code = code;
        image.functions[0].max_stack = max_stack;
        assert_eq!(validate(&image).unwrap_err().0, message);
        assert_eq!(
            encode(&image),
            Err(EncodeError::InvalidImage(message.into()))
        );
    }
}

#[test]
fn text_style_errors_read_as_sentences() {
    assert_eq!(
        TextStyleError::UnsupportedSize(16).message(),
        "unsupported text size 16px"
    );
    assert_eq!(
        TextStyleError::UnsupportedLineHeight {
            size_px: 18,
            line_height_px: 17,
            supported_line_height_px: 24
        }
        .message(),
        "unsupported 17px line height for 18px text; use 24px"
    );
    assert_eq!(TextStyle::default_for(UiKind::Button).unwrap().size_px, 14);
    assert_eq!(TextStyle::default_for(UiKind::Text).unwrap().line_height_px, 32);
    assert_eq!(TextStyle::default_for(UiKind::Slider), None);
}

fn refresh_checksum(bytes: &mut [u8]) {
    let checksum = crc32(&bytes[14..]);
    bytes[10..14].copy_from_slice(&checksum.to_le_bytes());
}

fn crc32(bytes: &[u8]) -> u32 {
    let mut crc = !0_u32;
    for byte in bytes {
        crc ^= u32::from(*byte);
        for _ in 0..8 {
            crc = if crc & 1 == 1 {
                (crc >> 1) ^ 0xedb8_8320
            } else {
                crc >> 1
            };
        }
    }
    !crc
}

#[test]
fn writes_the_one_node_ui_section_of_the_format() {
    let image = AppImage {
        constants: vec![Constant::String("a".into())],
        states: vec![],
        functions: vec![],
        nodes: vec![UiNodeSpec {
            id: NodeId(0),
            kind: UiKind::Text,
            children: vec![],
            text: Some(TextSource::Constant(0)),
            value: None,
            on_click: None,
            text_style: None,
            range: None,
            options: vec![],
            layout: None,
        }],
        root: NodeId(0),
    };
    let bytes = encode(&image).unwrap();
    let ui: [u8; 39] = [
        1, 0, 0, 0, 0, 0, 0, 0, 1, 0, 0, 0, 0, 1, 0, 0, 0, 0, 0, 0, 0, 0, 0, 0, 0, 0, 0, 0, 0, 0,
        0, 0, 0, 0, 0, 0, 0, 0, 0,
    ];
    assert_eq!(&bytes[bytes.len() - 39..], &ui[..]);
    assert_eq!(&bytes[bytes.len() - 44..bytes.len() - 39], &[4, 39, 0, 0, 0]);
    assert_eq!(decode(&bytes).unwrap(), image);
}

#[test]
fn round_trips_options_and_layout() {
    let mut image = fixture();
    image.constants.push(Constant::String("one".into()));
    image.constants.push(Constant::String("two".into()));
    image.nodes[0].options = vec![2, 3];
    image.nodes[0].layout = Some(LayoutSpec {
        left: Some(16.0f64.to_bits()),
        top: Some(20.0f64.to_bits()),
        width: None,
        height: None,
        anchor: AnchorSpec {
            left: None,
            top: None,
            right: Some(0.0f64.to_bits()),
            bottom: Some(8.0f64.to_bits()),
        },
    });
    let bytes = encode(&image).unwrap();
    let mut tail = Vec::new();
    tail.extend_from_slice(&2u32.to_le_bytes());
    tail.extend_from_slice(&2u32.to_le_bytes());
    tail.extend_from_slice(&3u32.to_le_bytes());
    tail.push(1);
    tail.push(1 | 2 | 64 | 128);
    for value in [16.0f64, 20.0, 0.0, 8.0] {
        tail.extend_from_slice(&value.to_bits().to_le_bytes());
    }
    tail.extend_from_slice(&0u32.to_le_bytes());
    assert_eq!(&bytes[bytes.len() - tail.len()..], &tail[..]);
    assert_eq!(decode(&bytes).unwrap(), image);

    image.nodes[0].layout = Some(LayoutSpec::default());
    let bytes = encode(&image).unwrap();
    assert_eq!(&bytes[bytes.len() - 6..bytes.len() - 4], &[1, 0]);
    assert_eq!(decode(&bytes).unwrap(), image);
}

#[test]
fn rejects_a_bad_layout_tag() {
    let mut bytes = encode(&fixture()).unwrap();
    let layout_tag = bytes.len() - 5;
    bytes[layout_tag] = 2;
    refresh_checksum(&mut bytes);
    assert_eq!(
        decode(&bytes),
        Err(DecodeError::InvalidTag { section: "layout", tag: 2 })
    );
}
