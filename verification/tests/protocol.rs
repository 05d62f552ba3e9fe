use kaomoji_widget::protocol::{
    frame_error_message, read_length_prefix, read_message, write_message, Command, Frame,
    FrameError, Response, MAX_MESSAGE_SIZE,
};
use serde_json::Value;

fn object(entries: Vec<(&str, Value)>) -> Value {
    let mut map = serde_json::Map::new();
    for (key, value) in entries {
        map.insert(key.to_string(), value);
    }
    Value::Object(map)
}

/// The JSON that the wire format carries for a command: serde's externally
/// tagged form of the enum.
fn command_json(cmd: &Command) -> Value {
    match cmd {
        Command::SetKaomoji { text } => object(vec![(
            "SetKaomoji",
            object(vec![("text", Value::String(text.clone()))]),
        )]),
        Command::SetImage { path } => object(vec![(
            "SetImage",
            object(vec![("path", Value::String(path.clone()))]),
        )]),
        Command::SetAnimation { frames, fps } => {
            let frames: Vec<Value> = frames
                .iter()
                .map(|f| {
                    object(vec![
                        ("path", Value::String(f.path.clone())),
                        ("duration_ms", Value::from(f.duration_ms)),
                    ])
                })
                .collect();
            object(vec![(
                "SetAnimation",
                object(vec![("frames", Value::Array(frames)), ("fps", Value::from(*fps))]),
            )])
        }
        Command::Clear => Value::String("Clear".to_string()),
        Command::Ping => Value::String("Ping".to_string()),
    }
}

fn response_json(resp: &Response) -> Value {
    match resp {
        Response::Success => Value::String("Ok".to_string()),
        Response::Error { message } => object(vec![(
            "Error",
            object(vec![("message", Value::String(message.clone()))]),
        )]),
        Response::Pong => Value::String("Pong".to_string()),
    }
}

/// Frames the JSON of a value, reads the frame back, and returns the JSON
/// that came out.
fn roundtrip_json(original: &Value) -> Value {
    let json_bytes = serde_json::to_vec(original).unwrap();
    let mut buf = Vec::new();
    write_message(&mut buf, &json_bytes);
    let (payload, used) = read_message(&buf).unwrap();
    assert_eq!(used, buf.len());
    assert_eq!(payload, json_bytes);
    serde_json::from_slice(&payload).unwrap()
}

#[test]
fn roundtrip_set_kaomoji() {
    let original = Command::SetKaomoji {
        text: "(▰˘◡˘▰)".into(),
    };
    let decoded = roundtrip_json(&command_json(&original));
    assert_eq!(command_json(&original), decoded);
}

#[test]
fn roundtrip_set_image() {
    let original = Command::SetImage {
        path: "/tmp/test.png".to_string(),
    };
    let decoded = roundtrip_json(&command_json(&original));
    assert_eq!(command_json(&original), decoded);
}

#[test]
fn roundtrip_set_animation() {
    let original = Command::SetAnimation {
        frames: vec![
            Frame {
                path: "/tmp/frame1.png".to_string(),
                duration_ms: 100,
            },
            Frame {
                path: "/tmp/frame2.png".to_string(),
                duration_ms: 200,
            },
        ],
        fps: 10,
    };
    let decoded = roundtrip_json(&command_json(&original));
    assert_eq!(command_json(&original), decoded);
}

#[test]
fn roundtrip_clear() {
    let original = Command::Clear;
    let decoded = roundtrip_json(&command_json(&original));
    assert_eq!(command_json(&original), decoded);
}

#[test]
fn roundtrip_ping() {
    let original = Command::Ping;
    let decoded = roundtrip_json(&command_json(&original));
    assert_eq!(command_json(&original), decoded);
}

#[test]
fn roundtrip_response_variants() {
    for original in [
        Response::Success,
        Response::Error {
            message: "something went wrong".into(),
        },
        Response::Pong,
    ] {
        let decoded = roundtrip_json(&response_json(&original));
        assert_eq!(response_json(&original), decoded);
    }
}

#[test]
fn read_message_rejects_oversized_length() {
    let buf = vec![0xff; 4]; // length = u32::MAX
    let result = read_message(&buf);
    assert!(result.is_err());
    assert_eq!(result, Err(FrameError::TooLarge { length: u32::MAX }));
}

#[test]
fn write_message_prefixes_big_endian_length() {
    let mut buf = vec![9u8];
    write_message(&mut buf, b"hello");
    assert_eq!(buf, vec![9, 0, 0, 0, 5, b'h', b'e', b'l', b'l', b'o']);
}

#[test]
fn write_message_length_bytes_order() {
    let payload = vec![7u8; 0x0102];
    let mut buf = Vec::new();
    write_message(&mut buf, &payload);
    assert_eq!(&buf[..4], &[0, 0, 1, 2]);
    assert_eq!(buf.len(), 4 + 0x0102);
}

#[test]
fn read_message_leaves_following_frames() {
    let mut buf = Vec::new();
    write_message(&mut buf, b"first");
    write_message(&mut buf, b"second!");
    let (first, used) = read_message(&buf).unwrap();
    assert_eq!(first, b"first".to_vec());
    assert_eq!(used, 9);
    let (second, used2) = read_message(&buf[used..]).unwrap();
    assert_eq!(second, b"second!".to_vec());
    assert_eq!(used2, 11);
}

#[test]
fn read_message_empty_payload() {
    let mut buf = Vec::new();
    write_message(&mut buf, b"");
    assert_eq!(buf, vec![0, 0, 0, 0]);
    assert_eq!(read_message(&buf), Ok((Vec::new(), 4)));
}

#[test]
fn read_message_short_prefix_is_eof() {
    assert_eq!(read_message(&[0, 0, 1]), Err(FrameError::UnexpectedEof));
    assert_eq!(read_message(&[]), Err(FrameError::UnexpectedEof));
}

#[test]
fn read_message_short_payload_is_eof() {
    assert_eq!(read_message(&[0, 0, 0, 3, 1, 2]), Err(FrameError::UnexpectedEof));
}

#[test]
fn read_message_accepts_the_limit_and_rejects_one_more() {
    assert_eq!(read_length_prefix([0x04, 0, 0, 0]), Ok(MAX_MESSAGE_SIZE));
    assert_eq!(
        read_length_prefix([0x04, 0, 0, 1]),
        Err(FrameError::TooLarge { length: 0x0400_0001 })
    );
    assert_eq!(
        read_message(&[0x04, 0, 0, 1, 0]),
        Err(FrameError::TooLarge { length: 0x0400_0001 })
    );
}

#[test]
fn frame_error_messages() {
    assert_eq!(
        frame_error_message(FrameError::TooLarge { length: 4294967295 }),
        "message length 4294967295 exceeds maximum 67108864"
    );
    assert_eq!(
        frame_error_message(FrameError::UnexpectedEof),
        "failed to fill whole buffer"
    );
}
