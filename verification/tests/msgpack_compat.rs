//! The hand-rolled payload encoding must agree byte for byte with a generic
//! MessagePack writer producing the same structure: a one-entry map from the
//! variant name to the array of field values.

use gpio_remote::codec::{encode_message, encode_response};
use gpio_remote::protocol::{Message, Response};

fn msgpack_variant(name: &str, fields: &[MsgField]) -> Vec<u8> {
    let mut buf: Vec<u8> = Vec::new();
    rmp::encode::write_map_len(&mut buf, 1).unwrap();
    rmp::encode::write_str(&mut buf, name).unwrap();
    rmp::encode::write_array_len(&mut buf, fields.len() as u32).unwrap();
    for f in fields {
        match f {
            MsgField::Uint(v) => {
                rmp::encode::write_uint(&mut buf, *v as u64).unwrap();
            }
            MsgField::Bool(v) => {
                rmp::encode::write_bool(&mut buf, *v).unwrap();
            }
        }
    }
    buf
}

enum MsgField {
    Uint(u16),
    Bool(bool),
}

#[test]
fn open_in_matches_msgpack() {
    for id in [0u16, 1, 40, 127, 128, 255, 256, 65535] {
        let ours = encode_message(&Message::OpenIn { id });
        let reference = msgpack_variant("OpenIn", &[MsgField::Uint(id)]);
        assert_eq!(ours, reference);
    }
}

#[test]
fn open_out_matches_msgpack() {
    for id in [0u16, 1, 40, 127, 128, 255, 256, 65535] {
        let ours = encode_message(&Message::OpenOut { id });
        let reference = msgpack_variant("OpenOut", &[MsgField::Uint(id)]);
        assert_eq!(ours, reference);
    }
}

#[test]
fn request_in_matches_msgpack() {
    for id in [0u16, 1, 40, 127, 128, 255, 256, 65535] {
        let ours = encode_message(&Message::RequestIn { id });
        let reference = msgpack_variant("RequestIn", &[MsgField::Uint(id)]);
        assert_eq!(ours, reference);
    }
}

#[test]
fn set_out_matches_msgpack() {
    for id in [0u16, 1, 40, 255, 256, 65535] {
        for val in [false, true] {
            let ours = encode_message(&Message::SetOut { id, val });
            let reference = msgpack_variant("SetOut", &[MsgField::Uint(id), MsgField::Bool(val)]);
            assert_eq!(ours, reference);
        }
    }
}

#[test]
fn in_value_matches_msgpack() {
    for id in [0u16, 1, 40, 255, 256, 65535] {
        for val in [false, true] {
            let ours = encode_response(&Response::InValue { id, val });
            let reference = msgpack_variant("InValue", &[MsgField::Uint(id), MsgField::Bool(val)]);
            assert_eq!(ours, reference);
        }
    }
}
