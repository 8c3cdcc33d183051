use record_ledger::errors::{status_code, RecordError};
use record_ledger::greeting::greeting_config;
use record_ledger::layout::{
    capacity_bytes, deserialize_record, field_max_bytes, record_capacity, record_fields,
    serialize_record, FieldKind, RecordValue,
};
use record_ledger::message::message_config;
use record_ledger::pubkey::Pubkey;

fn key(b: u8) -> Pubkey {
    Pubkey::new(vec![b; 32])
}

#[test]
fn field_max_bytes_fixed_is_width() {
    assert_eq!(field_max_bytes(&FieldKind::Fixed { width: 32 }), 32);
    assert_eq!(field_max_bytes(&FieldKind::Fixed { width: 8 }), 8);
}

#[test]
fn field_max_bytes_text_adds_length_prefix() {
    assert_eq!(field_max_bytes(&FieldKind::Text { max_len: 280 }), 284);
    assert_eq!(field_max_bytes(&FieldKind::Text { max_len: 0 }), 4);
}

#[test]
fn capacity_of_message_field_list() {
    // discriminator + owner + (prefix + 280)
    let fields = vec![
        FieldKind::Fixed { width: 32 },
        FieldKind::Text { max_len: 280 },
    ];
    assert_eq!(capacity_bytes(&fields), 8 + 32 + 4 + 280);
}

#[test]
fn capacity_of_greeting_field_list() {
    // discriminator + owner + (prefix + 200) + counter
    let fields = vec![
        FieldKind::Fixed { width: 32 },
        FieldKind::Text { max_len: 200 },
        FieldKind::Fixed { width: 8 },
    ];
    assert_eq!(capacity_bytes(&fields), 8 + 32 + 4 + 200 + 8);
}

#[test]
fn record_capacity_matches_field_list() {
    let message = message_config();
    assert_eq!(record_capacity(&message), 324);
    assert_eq!(capacity_bytes(&record_fields(&message)), 324);
    let greeting = greeting_config();
    assert_eq!(record_capacity(&greeting), 252);
    assert_eq!(capacity_bytes(&record_fields(&greeting)), 252);
}

#[test]
fn serialize_fills_exactly_the_reserved_capacity() {
    let c = greeting_config();
    let record = RecordValue { owner: key(1), payload: b"hi".to_vec(), counter: 7 };
    let data = serialize_record(&c, &record);
    assert_eq!(data.len(), 252);
}

#[test]
fn serialized_layout_is_bit_exact() {
    let c = greeting_config();
    let record = RecordValue { owner: key(0xab), payload: b"hey".to_vec(), counter: 5 };
    let data = serialize_record(&c, &record);
    // discriminator
    assert_eq!(&data[0..8], b"grtrecrd");
    // owner identity
    assert_eq!(&data[8..40], &[0xab; 32]);
    // little-endian payload length prefix
    assert_eq!(&data[40..44], &[3, 0, 0, 0]);
    // payload bytes
    assert_eq!(&data[44..47], b"hey");
    // counter, little endian, right after the payload
    assert_eq!(&data[47..55], &[5, 0, 0, 0, 0, 0, 0, 0]);
    // zero padding up to capacity
    assert!(data[55..].iter().all(|&b| b == 0));
}

#[test]
fn deserialize_inverts_serialize() {
    let c = message_config();
    let record = RecordValue { owner: key(3), payload: b"round trip".to_vec(), counter: 0 };
    let data = serialize_record(&c, &record);
    let back = deserialize_record(&c, &data).unwrap();
    assert!(back.owner.equals(&key(3)));
    assert_eq!(back.payload, b"round trip".to_vec());
    assert_eq!(back.counter, 0);
}

#[test]
fn deserialize_rejects_wrong_size() {
    let c = message_config();
    let record = RecordValue { owner: key(3), payload: b"x".to_vec(), counter: 0 };
    let mut data = serialize_record(&c, &record);
    data.pop();
    assert!(matches!(
        deserialize_record(&c, &data),
        Err(RecordError::CorruptRecord)
    ));
}

#[test]
fn deserialize_rejects_foreign_discriminator() {
    let message = message_config();
    let greeting = greeting_config();
    let record = RecordValue { owner: key(3), payload: b"x".to_vec(), counter: 0 };
    let data = serialize_record(&message, &record);
    // A greeting-typed read of message-typed bytes must fail, whatever
    // the buffer length is.
    let mut padded = data.clone();
    padded.truncate(252);
    assert!(matches!(
        deserialize_record(&greeting, &padded),
        Err(RecordError::CorruptRecord)
    ));
}

#[test]
fn deserialize_rejects_impossible_length_prefix() {
    let c = message_config();
    let record = RecordValue { owner: key(9), payload: Vec::new(), counter: 0 };
    let mut data = serialize_record(&c, &record);
    // Claim a payload longer than the declared maximum.
    data[40] = 0xff;
    data[41] = 0xff;
    data[42] = 0xff;
    data[43] = 0xff;
    assert!(matches!(
        deserialize_record(&c, &data),
        Err(RecordError::CorruptRecord)
    ));
}

#[test]
fn status_codes_are_distinct() {
    let codes = [
        status_code(RecordError::AlreadyAllocated),
        status_code(RecordError::NotFound),
        status_code(RecordError::CorruptRecord),
        status_code(RecordError::PayloadTooLong),
        status_code(RecordError::Unauthorized),
        status_code(RecordError::NotMutable),
        status_code(RecordError::InsufficientFunds),
    ];
    assert_eq!(codes, [1, 2, 3, 4, 5, 6, 7]);
}

#[test]
fn pubkey_equality_is_by_bytes() {
    let a = key(1);
    let b = key(1);
    let c = key(2);
    assert!(a.equals(&b));
    assert!(!a.equals(&c));
    assert!(a.equals(&a.duplicate()));
}
