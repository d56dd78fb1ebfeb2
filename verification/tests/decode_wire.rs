use rosc::encoder;
use rosc::{OscBundle, OscMessage, OscPacket, OscTime, OscType};
use visual::osc::{decode, DecodedMessage, TypedValue};

fn encode(packet: &OscPacket) -> Vec<u8> {
    encoder::encode(packet).unwrap()
}

fn message(addr: &str, args: Vec<OscType>) -> OscPacket {
    OscPacket::Message(OscMessage { addr: addr.to_string(), args })
}

fn bundle(content: Vec<OscPacket>) -> OscPacket {
    OscPacket::Bundle(OscBundle {
        timetag: OscTime { seconds: 0, fractional: 1 },
        content,
    })
}

#[test]
fn decode_message_no_args() {
    let bytes = encode(&message("/freq", vec![]));
    let m = decode(&bytes).unwrap();
    match m {
        DecodedMessage::Single { addr, args } => {
            assert_eq!(addr, "/freq");
            assert_eq!(args.len(), 0);
        }
        _ => panic!("expected a single message"),
    }
}

#[test]
fn decode_message_typed_args() {
    let bytes = encode(&message(
        "/dirt/play",
        vec![
            OscType::String("s".to_string()),
            OscType::String("bd".to_string()),
            OscType::Int(-7),
            OscType::Float(2.5),
        ],
    ));
    let m = decode(&bytes).unwrap();
    match m {
        DecodedMessage::Single { addr, args } => {
            assert_eq!(addr, "/dirt/play");
            assert_eq!(args.len(), 4);
            assert_eq!(args[0], TypedValue::Str("s".to_string()));
            assert_eq!(args[1], TypedValue::Str("bd".to_string()));
            assert_eq!(args[2], TypedValue::Int32(-7));
            assert_eq!(args[3], TypedValue::Float32Bits((2.5f32).to_bits()));
        }
        _ => panic!("expected a single message"),
    }
}

#[test]
fn decode_blob_arg_aligned_length() {
    let bytes = encode(&message("/freq", vec![OscType::Blob(vec![9u8; 8])]));
    let m = decode(&bytes).unwrap();
    match m {
        DecodedMessage::Single { args, .. } => {
            assert_eq!(args[0], TypedValue::Blob(vec![9u8; 8]));
        }
        _ => panic!("expected a single message"),
    }
}

#[test]
fn decode_blob_arg_unaligned_length() {
    let bytes = encode(&message("/freq", vec![OscType::Blob(vec![1, 2, 3, 4, 5])]));
    let m = decode(&bytes).unwrap();
    match m {
        DecodedMessage::Single { args, .. } => {
            assert_eq!(args[0], TypedValue::Blob(vec![1, 2, 3, 4, 5]));
        }
        _ => panic!("expected a single message"),
    }
}

#[test]
fn decode_bundle_with_messages() {
    let bytes = encode(&bundle(vec![
        message(
            "/dirt/play",
            vec![OscType::String("s".to_string()), OscType::String("sn".to_string())],
        ),
        message("/other", vec![OscType::Int(1)]),
    ]));
    let m = decode(&bytes).unwrap();
    match m {
        DecodedMessage::Bundle { content } => {
            assert_eq!(content.len(), 2);
            assert!(matches!(&content[0], DecodedMessage::Single { addr, .. } if addr == "/dirt/play"));
            assert!(matches!(&content[1], DecodedMessage::Single { addr, .. } if addr == "/other"));
        }
        _ => panic!("expected a bundle"),
    }
}

#[test]
fn decode_nested_bundle() {
    let inner = bundle(vec![message("/freq", vec![])]);
    let bytes = encode(&bundle(vec![inner, message("/other", vec![])]));
    let m = decode(&bytes).unwrap();
    match m {
        DecodedMessage::Bundle { content } => {
            assert_eq!(content.len(), 2);
            assert!(matches!(&content[0], DecodedMessage::Bundle { content: c } if c.len() == 1));
        }
        _ => panic!("expected a bundle"),
    }
}

#[test]
fn decode_empty_datagram_fails() {
    let bytes: Vec<u8> = vec![];
    assert!(decode(&bytes).is_err());
}

#[test]
fn decode_garbage_fails() {
    let bytes: Vec<u8> = vec![1, 2, 3, 4, 5, 6, 7, 8];
    assert!(decode(&bytes).is_err());
}

#[test]
fn decode_address_without_slash_fails() {
    let bytes = encode(&message("nope", vec![]));
    assert!(decode(&bytes).is_err());
}

#[test]
fn decode_truncated_message_fails() {
    let mut bytes = encode(&message("/freq", vec![OscType::Int(5)]));
    bytes.truncate(bytes.len() - 2);
    assert!(decode(&bytes).is_err());
}

#[test]
fn decode_unsupported_tag_fails() {
    let bytes = encode(&message("/freq", vec![OscType::Nil]));
    assert!(decode(&bytes).is_err());
}

#[test]
fn decode_empty_bundle_fails() {
    let bytes = encode(&bundle(vec![]));
    assert!(decode(&bytes).is_err());
}

#[test]
fn decode_non_ascii_text_fails() {
    let bytes = encode(&message("/caf\u{e9}", vec![]));
    assert!(decode(&bytes).is_err());
}

#[test]
fn decode_trailing_bytes_after_message_ignored() {
    let mut bytes = encode(&message("/freq", vec![OscType::Int(5)]));
    bytes.extend_from_slice(&[0u8; 16]);
    let m = decode(&bytes).unwrap();
    assert!(matches!(m, DecodedMessage::Single { .. }));
}
