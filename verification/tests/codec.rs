use pixelstream::error::{Malformed, MessageKind};
use pixelstream::message::{Message, TAG_DIMENSIONS, TAG_RGB_IMAGE};

#[test]
fn tags_follow_the_order_of_the_variants() {
    assert_eq!(TAG_DIMENSIONS, 0);
    assert_eq!(TAG_RGB_IMAGE, 1);
}

#[test]
fn kind_names_the_variant() {
    assert_eq!(Message::Dimensions((1, 2)).kind(), MessageKind::Dimensions);
    assert_eq!(Message::RgbImage(vec![]).kind(), MessageKind::RgbImage);
}

#[test]
fn dimensions_encode_as_tag_width_height() {
    let bytes = Message::Dimensions((64, 32)).encode();
    assert_eq!(bytes, vec![0, 0, 0, 0, 64, 0, 0, 0, 32, 0, 0, 0]);
}

#[test]
fn large_dimensions_encode_in_four_bytes_each() {
    let bytes = Message::Dimensions((0x0102_0304, u32::MAX)).encode();
    assert_eq!(bytes, vec![0, 0, 0, 0, 4, 3, 2, 1, 255, 255, 255, 255]);
}

#[test]
fn pixel_buffer_encodes_as_tag_length_bytes() {
    let bytes = Message::RgbImage(vec![10, 20, 30]).encode();
    assert_eq!(bytes, vec![1, 0, 0, 0, 3, 0, 0, 0, 0, 0, 0, 0, 10, 20, 30]);
}

#[test]
fn empty_pixel_buffer_encodes_as_tag_and_zero_length() {
    let bytes = Message::RgbImage(vec![]).encode();
    assert_eq!(bytes, vec![1, 0, 0, 0, 0, 0, 0, 0, 0, 0, 0, 0]);
}

#[test]
fn decode_undoes_encode() {
    let messages = [
        Message::Dimensions((0, 0)),
        Message::Dimensions((64, 32)),
        Message::Dimensions((u32::MAX, 1)),
        Message::RgbImage(vec![]),
        Message::RgbImage(vec![0, 255, 7]),
        Message::RgbImage((0..=255).collect()),
    ];
    for message in messages.iter() {
        assert_eq!(Message::decode(&message.encode()), Ok(message.clone()));
    }
}

#[test]
fn decode_does_not_look_at_what_follows_the_message() {
    let mut bytes = Message::Dimensions((64, 32)).encode();
    bytes.extend_from_slice(&[1, 2, 3]);
    assert_eq!(Message::decode(&bytes), Ok(Message::Dimensions((64, 32))));

    let mut bytes = Message::RgbImage(vec![5, 6]).encode();
    bytes.extend_from_slice(&[9]);
    assert_eq!(Message::decode(&bytes), Ok(Message::RgbImage(vec![5, 6])));
}

#[test]
fn decode_refuses_an_unknown_tag() {
    assert_eq!(
        Message::decode(&[2, 0, 0, 0, 0, 0, 0, 0, 0, 0, 0, 0]),
        Err(Malformed::Tag(2))
    );
    assert_eq!(
        Message::decode(&[0, 1, 0, 0, 64, 0, 0, 0, 32, 0, 0, 0]),
        Err(Malformed::Tag(256))
    );
    assert_eq!(Message::decode(&[255, 255, 255, 255]), Err(Malformed::Tag(u32::MAX)));
}

#[test]
fn decode_refuses_a_short_tag() {
    assert_eq!(Message::decode(&[]), Err(Malformed::Truncated));
    assert_eq!(Message::decode(&[0, 0, 0]), Err(Malformed::Truncated));
}

#[test]
fn decode_refuses_short_dimensions() {
    assert_eq!(Message::decode(&[0, 0, 0, 0]), Err(Malformed::Truncated));
    assert_eq!(
        Message::decode(&[0, 0, 0, 0, 64, 0, 0, 0, 32, 0, 0]),
        Err(Malformed::Truncated)
    );
}

#[test]
fn decode_refuses_a_short_pixel_buffer() {
    assert_eq!(Message::decode(&[1, 0, 0, 0, 3, 0, 0, 0]), Err(Malformed::Truncated));
    assert_eq!(
        Message::decode(&[1, 0, 0, 0, 3, 0, 0, 0, 0, 0, 0, 0, 10, 20]),
        Err(Malformed::Truncated)
    );
    assert_eq!(
        Message::decode(&[1, 0, 0, 0, 255, 255, 255, 255, 255, 255, 255, 255, 1]),
        Err(Malformed::Truncated)
    );
}

#[test]
fn clone_keeps_the_message() {
    let message = Message::RgbImage(vec![1, 2, 3]);
    assert_eq!(message.clone(), message);
    let message = Message::Dimensions((3, 4));
    assert_eq!(message.clone(), message);
}

#[test]
fn encoding_is_that_of_bincode_for_the_same_fields() {
    let dimensions = bincode::serialize(&(0u32, (64u32, 32u32)), bincode::Infinite).unwrap();
    assert_eq!(Message::Dimensions((64, 32)).encode(), dimensions);

    let data: Vec<u8> = vec![9, 8, 7, 6, 5, 4];
    let image = bincode::serialize(&(1u32, data.clone()), bincode::Infinite).unwrap();
    assert_eq!(Message::RgbImage(data).encode(), image);
}

#[test]
fn decoding_is_that_of_bincode_for_the_same_fields() {
    let bytes = Message::Dimensions((640, 480)).encode();
    let fields: (u32, (u32, u32)) = bincode::deserialize(&bytes).unwrap();
    assert_eq!(fields, (0, (640, 480)));

    let bytes = Message::RgbImage(vec![1, 2, 3]).encode();
    let fields: (u32, Vec<u8>) = bincode::deserialize(&bytes).unwrap();
    assert_eq!(fields, (1, vec![1, 2, 3]));
}
