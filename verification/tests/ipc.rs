use space_manager::ipc::{decode_frame, encode_frame, payload_len, FrameError};

#[test]
fn test_frame_roundtrip_command() {
    let payload = serde_json::to_vec(&serde_json::Value::String("Next".to_string())).unwrap();
    let frame = encode_frame(&payload);
    let decoded = decode_frame(&frame).unwrap();
    let value: serde_json::Value = serde_json::from_slice(&decoded).unwrap();
    assert_eq!(value, serde_json::Value::String("Next".to_string()));
}

#[test]
fn test_frame_roundtrip_shutdown() {
    let payload = serde_json::to_vec(&serde_json::Value::String("Shutdown".to_string())).unwrap();
    let frame = encode_frame(&payload);
    let decoded = decode_frame(&frame).unwrap();
    let value: serde_json::Value = serde_json::from_slice(&decoded).unwrap();
    assert_eq!(value, serde_json::Value::String("Shutdown".to_string()));
}

#[test]
fn test_decode_truncated_frame() {
    let mut frame = (100u32).to_le_bytes().to_vec();
    frame.extend_from_slice(b"short");
    let result = decode_frame(&frame);
    assert!(result.is_err());
    assert_eq!(result, Err(FrameError::Truncated { expected: 100, actual: 5 }));
}

#[test]
fn encode_frame_prefix_is_little_endian_length() {
    let frame = encode_frame(b"abc");
    assert_eq!(frame, vec![3, 0, 0, 0, b'a', b'b', b'c']);
    assert_eq!(encode_frame(b""), vec![0, 0, 0, 0]);
}

#[test]
fn decode_frame_errors_and_trailing_bytes() {
    assert_eq!(decode_frame(&[1, 0]), Err(FrameError::TooShort));
    assert_eq!(decode_frame(&[]), Err(FrameError::TooShort));
    // Bytes after the announced payload are ignored.
    assert_eq!(decode_frame(&[2, 0, 0, 0, 7, 8, 9]), Ok(vec![7, 8]));
    assert_eq!(payload_len(&[0, 1, 0, 0]), 256);
}

#[test]
fn frame_roundtrip_bytes() {
    let payload: Vec<u8> = (0..=255).collect();
    assert_eq!(decode_frame(&encode_frame(&payload)), Ok(payload));
}
