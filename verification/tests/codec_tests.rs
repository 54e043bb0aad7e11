use gpio_remote::codec::{decode_message, decode_response, encode_frame, encode_message,
    encode_response, payload_len};
use gpio_remote::protocol::{Message, Response};
use gpio_remote::Error;

fn ids() -> Vec<u16> {
    vec![0, 1, 5, 7, 39, 40, 41, 127, 128, 200, 255, 256, 1000, 65535]
}

#[test]
fn round_trip_open_in() {
    for id in ids() {
        let bytes = encode_message(&Message::OpenIn { id });
        assert_eq!(decode_message(&bytes), Ok(Message::OpenIn { id }));
    }
}

#[test]
fn round_trip_open_out() {
    for id in ids() {
        let bytes = encode_message(&Message::OpenOut { id });
        assert_eq!(decode_message(&bytes), Ok(Message::OpenOut { id }));
    }
}

#[test]
fn round_trip_request_in() {
    for id in ids() {
        let bytes = encode_message(&Message::RequestIn { id });
        assert_eq!(decode_message(&bytes), Ok(Message::RequestIn { id }));
    }
}

#[test]
fn round_trip_set_out() {
    for id in ids() {
        for val in [false, true] {
            let bytes = encode_message(&Message::SetOut { id, val });
            assert_eq!(decode_message(&bytes), Ok(Message::SetOut { id, val }));
        }
    }
}

#[test]
fn round_trip_in_value() {
    for id in ids() {
        for val in [false, true] {
            let bytes = encode_response(&Response::InValue { id, val });
            assert_eq!(decode_response(&bytes), Ok(Response::InValue { id, val }));
        }
    }
}

#[test]
fn request_in_exact_bytes() {
    let bytes = encode_message(&Message::RequestIn { id: 7 });
    assert_eq!(
        bytes,
        vec![0x81, 0xa9, b'R', b'e', b'q', b'u', b'e', b's', b't', b'I', b'n', 0x91, 0x07]
    );
}

#[test]
fn set_out_exact_bytes_wide_id() {
    let bytes = encode_message(&Message::SetOut { id: 300, val: true });
    assert_eq!(
        bytes,
        vec![0x81, 0xa6, b'S', b'e', b't', b'O', b'u', b't', 0x92, 0xcd, 0x01, 0x2c, 0xc3]
    );
}

#[test]
fn uint_width_boundaries() {
    // 127 is the last single-byte value, 128 the first two-byte one,
    // 256 the first three-byte one
    let b127 = encode_message(&Message::OpenIn { id: 127 });
    assert_eq!(&b127[9..], &[0x7f]);
    let b128 = encode_message(&Message::OpenIn { id: 128 });
    assert_eq!(&b128[9..], &[0xcc, 0x80]);
    let b255 = encode_message(&Message::OpenIn { id: 255 });
    assert_eq!(&b255[9..], &[0xcc, 0xff]);
    let b256 = encode_message(&Message::OpenIn { id: 256 });
    assert_eq!(&b256[9..], &[0xcd, 0x01, 0x00]);
}

#[test]
fn decode_accepts_wider_than_needed_integers() {
    // a conforming peer may use a wider integer shape than the value needs
    let two_byte = vec![0x81, 0xa6, b'O', b'p', b'e', b'n', b'I', b'n', 0x91, 0xcc, 0x05];
    assert_eq!(decode_message(&two_byte), Ok(Message::OpenIn { id: 5 }));
    let three_byte = vec![0x81, 0xa6, b'O', b'p', b'e', b'n', b'I', b'n', 0x91, 0xcd, 0x00, 0x05];
    assert_eq!(decode_message(&three_byte), Ok(Message::OpenIn { id: 5 }));
}

#[test]
fn protocol_error_on_unknown_shapes() {
    assert_eq!(decode_message(&[]), Err(Error::Protocol));
    assert_eq!(decode_message(&[0xff, 0x01, 0x02]), Err(Error::Protocol));
    // a response payload is not a command
    let resp = encode_response(&Response::InValue { id: 1, val: true });
    assert_eq!(decode_message(&resp), Err(Error::Protocol));
    // a truncated command payload
    let mut cmd = encode_message(&Message::OpenIn { id: 300 });
    cmd.pop();
    assert_eq!(decode_message(&cmd), Err(Error::Protocol));
    // a command payload is not a response
    let cmd = encode_message(&Message::OpenIn { id: 1 });
    assert_eq!(decode_response(&cmd), Err(Error::Protocol));
}

#[test]
fn frame_prefixes_length_little_endian() {
    let payload = encode_message(&Message::RequestIn { id: 7 });
    let frame = encode_frame(&payload);
    assert_eq!(frame.len(), 2 + payload.len());
    assert_eq!(frame[0] as usize, payload.len());
    assert_eq!(frame[1], 0);
    assert_eq!(&frame[2..], &payload[..]);
    assert_eq!(payload_len(frame[0], frame[1]) as usize, payload.len());
}

#[test]
fn payload_len_reads_little_endian() {
    assert_eq!(payload_len(0x34, 0x12), 0x1234);
    assert_eq!(payload_len(0xff, 0xff), 0xffff);
    assert_eq!(payload_len(0x00, 0x00), 0x0000);
}
