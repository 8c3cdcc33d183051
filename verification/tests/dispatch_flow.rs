use record_ledger::dispatch::{
    decode_operation, dispatch, encode_operation, DispatchOutcome, Operation, ALLOCATE_TAG,
    MUTATE_TAG, READ_TAG,
};
use record_ledger::errors::RecordError;
use record_ledger::greeting::greeting_config;
use record_ledger::handlers::AccountRef;
use record_ledger::ledger::Ledger;
use record_ledger::pubkey::Pubkey;

fn key(b: u8) -> Pubkey {
    Pubkey::new(vec![b; 32])
}

fn signer(b: u8) -> AccountRef {
    AccountRef { address: key(b), is_signer: true, is_writable: true, is_newly_allocated: false }
}

fn encoded(tag: u8, payload: &[u8]) -> Vec<u8> {
    let mut bytes = vec![tag];
    bytes.extend_from_slice(&(payload.len() as u32).to_le_bytes());
    bytes.extend_from_slice(payload);
    bytes
}

#[test]
fn decode_accepts_the_declared_encoding() {
    let op = decode_operation(&encoded(ALLOCATE_TAG, b"hello")).unwrap();
    assert!(matches!(op, Operation::Allocate { payload } if payload == b"hello".to_vec()));
    let op = decode_operation(&encoded(MUTATE_TAG, b"")).unwrap();
    assert!(matches!(op, Operation::Mutate { payload } if payload.is_empty()));
    let op = decode_operation(&vec![READ_TAG]).unwrap();
    assert!(matches!(op, Operation::Read));
}

#[test]
fn decode_rejects_malformed_invocations() {
    // Empty input.
    assert!(matches!(
        decode_operation(&Vec::new()),
        Err(RecordError::CorruptRecord)
    ));
    // Unknown tag.
    assert!(matches!(
        decode_operation(&vec![9u8]),
        Err(RecordError::CorruptRecord)
    ));
    // Truncated length prefix.
    assert!(matches!(
        decode_operation(&vec![ALLOCATE_TAG, 1, 0]),
        Err(RecordError::CorruptRecord)
    ));
    // Length prefix that disagrees with the payload.
    let mut bytes = encoded(MUTATE_TAG, b"abc");
    bytes.push(0);
    assert!(matches!(
        decode_operation(&bytes),
        Err(RecordError::CorruptRecord)
    ));
    // Trailing byte after a read.
    assert!(matches!(
        decode_operation(&vec![READ_TAG, 0]),
        Err(RecordError::CorruptRecord)
    ));
}

#[test]
fn encode_decode_round_trips() {
    let ops = [
        Operation::Allocate { payload: b"hello".to_vec() },
        Operation::Mutate { payload: Vec::new() },
        Operation::Read,
    ];
    for op in ops {
        let bytes = encode_operation(&op);
        let back = decode_operation(&bytes).unwrap();
        match (&op, &back) {
            (Operation::Allocate { payload: a }, Operation::Allocate { payload: b }) => {
                assert_eq!(a, b)
            },
            (Operation::Mutate { payload: a }, Operation::Mutate { payload: b }) => {
                assert_eq!(a, b)
            },
            (Operation::Read, Operation::Read) => {},
            _ => panic!("decoded to a different operation"),
        }
    }
    assert_eq!(
        encode_operation(&Operation::Allocate { payload: b"ab".to_vec() }),
        vec![ALLOCATE_TAG, 2, 0, 0, 0, b'a', b'b']
    );
}

#[test]
fn dispatched_lifecycle_matches_the_handlers() {
    let c = greeting_config();
    let mut ledger = Ledger::new();
    let target = signer(10);
    let caller = signer(1);
    let op = decode_operation(&encoded(ALLOCATE_TAG, b"hello")).unwrap();
    let out = dispatch(&mut ledger, &c, &target, &caller, op, 0).unwrap();
    assert!(matches!(out, DispatchOutcome::Allocated));
    let op = decode_operation(&encoded(MUTATE_TAG, b"world")).unwrap();
    let out = dispatch(&mut ledger, &c, &target, &caller, op, 0).unwrap();
    match out {
        DispatchOutcome::Mutated { receipt } => {
            assert_eq!(receipt.previous_payload, b"hello".to_vec());
            assert_eq!(receipt.new_counter, 1);
        },
        _ => panic!("expected a mutation outcome"),
    }
    let out = dispatch(&mut ledger, &c, &target, &caller, Operation::Read, 0).unwrap();
    match out {
        DispatchOutcome::Snapshot { record } => {
            assert_eq!(record.payload, b"world".to_vec());
            assert_eq!(record.counter, 1);
        },
        _ => panic!("expected a snapshot outcome"),
    }
}

#[test]
fn dispatch_surfaces_handler_errors_verbatim() {
    let c = greeting_config();
    let mut ledger = Ledger::new();
    let target = signer(10);
    let caller = signer(1);
    let r = dispatch(&mut ledger, &c, &target, &caller, Operation::Read, 0);
    assert!(matches!(r, Err(RecordError::NotFound)));
    let op = Operation::Mutate { payload: b"x".to_vec() };
    let r = dispatch(&mut ledger, &c, &target, &caller, op, 0);
    assert!(matches!(r, Err(RecordError::NotFound)));
}
