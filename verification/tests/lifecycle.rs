use record_ledger::errors::RecordError;
use record_ledger::greeting::{
    get_greeting, greeting_config, initialize, update_greeting, GetGreeting, Initialize,
    UpdateGreeting,
};
use record_ledger::handlers::{allocate, mutate, read, AccountRef};
use record_ledger::layout::RecordConfig;
use record_ledger::ledger::{Ledger, StoredAccount};
use record_ledger::message::{message_config, read_message, send_message, SendMessage};
use record_ledger::pubkey::Pubkey;

fn key(b: u8) -> Pubkey {
    Pubkey::new(vec![b; 32])
}

fn signer(b: u8) -> AccountRef {
    AccountRef { address: key(b), is_signer: true, is_writable: true, is_newly_allocated: false }
}

fn record_account(b: u8) -> AccountRef {
    AccountRef { address: key(b), is_signer: false, is_writable: true, is_newly_allocated: true }
}

#[test]
fn allocate_then_read_round_trips() {
    let c = message_config();
    let mut ledger = Ledger::new();
    let target = record_account(10);
    let funder = signer(1);
    allocate(&mut ledger, &c, &target, &funder, b"hello there".to_vec(), 0).unwrap();
    let snapshot = read(&ledger, &c, &target.address).unwrap();
    assert_eq!(snapshot.payload, b"hello there".to_vec());
    assert_eq!(snapshot.counter, 0);
    assert!(snapshot.owner.equals(&funder.address));
}

#[test]
fn allocate_twice_fails_with_already_allocated() {
    let c = message_config();
    let mut ledger = Ledger::new();
    let target = record_account(10);
    allocate(&mut ledger, &c, &target, &signer(1), b"first".to_vec(), 0).unwrap();
    let second = allocate(&mut ledger, &c, &target, &signer(2), b"second".to_vec(), 0);
    assert!(matches!(second, Err(RecordError::AlreadyAllocated)));
    // The first record is untouched.
    let snapshot = read(&ledger, &c, &target.address).unwrap();
    assert_eq!(snapshot.payload, b"first".to_vec());
}

#[test]
fn allocate_requires_a_signer() {
    let c = message_config();
    let mut ledger = Ledger::new();
    let mut funder = signer(1);
    funder.is_signer = false;
    let r = allocate(&mut ledger, &c, &record_account(10), &funder, b"x".to_vec(), 0);
    assert!(matches!(r, Err(RecordError::Unauthorized)));
}

#[test]
fn oversized_payload_is_rejected_not_truncated() {
    let c = message_config();
    let mut ledger = Ledger::new();
    let target = record_account(10);
    let r = allocate(&mut ledger, &c, &target, &signer(1), vec![b'a'; 281], 0);
    assert!(matches!(r, Err(RecordError::PayloadTooLong)));
    // Nothing was allocated.
    assert!(matches!(
        read(&ledger, &c, &target.address),
        Err(RecordError::NotFound)
    ));
    // The maximum itself is fine.
    allocate(&mut ledger, &c, &target, &signer(1), vec![b'a'; 280], 0).unwrap();
}

#[test]
fn allocation_cost_is_funded_and_debited() {
    let c = message_config();
    let mut ledger = Ledger::new();
    let target = record_account(10);
    let funder = signer(1);
    let r = allocate(&mut ledger, &c, &target, &funder, b"x".to_vec(), 500);
    assert!(matches!(r, Err(RecordError::InsufficientFunds)));
    ledger.credit(&funder.address, 499);
    let r = allocate(&mut ledger, &c, &target, &funder, b"x".to_vec(), 500);
    assert!(matches!(r, Err(RecordError::InsufficientFunds)));
    ledger.credit(&funder.address, 1);
    allocate(&mut ledger, &c, &target, &funder, b"x".to_vec(), 500).unwrap();
    // The whole cost left the funder: another paid allocation fails.
    let r = allocate(&mut ledger, &c, &record_account(11), &funder, b"y".to_vec(), 1);
    assert!(matches!(r, Err(RecordError::InsufficientFunds)));
}

#[test]
fn counter_counts_successful_mutations_exactly() {
    let c = greeting_config();
    let mut ledger = Ledger::new();
    let accounts = Initialize { greeting_account: record_account(20), user: signer(1) };
    initialize(&mut ledger, &c, &accounts, b"hi".to_vec(), 0).unwrap();
    let update = UpdateGreeting { greeting_account: record_account(20) };
    for n in 1..=3u64 {
        let receipt = update_greeting(&mut ledger, &c, &update, vec![b'g'; n as usize]).unwrap();
        assert_eq!(receipt.new_counter, n);
    }
    let got = get_greeting(&ledger, &c, &GetGreeting { greeting_account: record_account(20) })
        .unwrap();
    assert_eq!(got.count, 3);
    assert_eq!(got.message, vec![b'g'; 3]);
    // A failed mutation counts for nothing.
    let r = update_greeting(&mut ledger, &c, &update, vec![b'g'; 201]);
    assert!(matches!(r, Err(RecordError::PayloadTooLong)));
    let got = get_greeting(&ledger, &c, &GetGreeting { greeting_account: record_account(20) })
        .unwrap();
    assert_eq!(got.count, 3);
}

#[test]
fn mutation_receipt_reports_previous_payload() {
    let c = greeting_config();
    let mut ledger = Ledger::new();
    let accounts = Initialize { greeting_account: record_account(20), user: signer(1) };
    initialize(&mut ledger, &c, &accounts, b"before".to_vec(), 0).unwrap();
    let update = UpdateGreeting { greeting_account: record_account(20) };
    let receipt = update_greeting(&mut ledger, &c, &update, b"after".to_vec()).unwrap();
    assert_eq!(receipt.previous_payload, b"before".to_vec());
    assert_eq!(receipt.new_counter, 1);
}

#[test]
fn foreign_mutation_fails_where_ownership_is_enforced() {
    // The message record type gates mutation on the signing owner.
    let c = message_config();
    let mut ledger = Ledger::new();
    let target = record_account(10);
    let owner = signer(1);
    allocate(&mut ledger, &c, &target, &owner, b"mine".to_vec(), 0).unwrap();
    let stranger = signer(2);
    let r = mutate(&mut ledger, &c, &target, &stranger, b"taken".to_vec());
    assert!(matches!(r, Err(RecordError::Unauthorized)));
    // Payload and owner are unchanged.
    let snapshot = read(&ledger, &c, &target.address).unwrap();
    assert_eq!(snapshot.payload, b"mine".to_vec());
    assert!(snapshot.owner.equals(&owner.address));
    // A non-signing owner is refused too.
    let mut silent_owner = signer(1);
    silent_owner.is_signer = false;
    let r = mutate(&mut ledger, &c, &target, &silent_owner, b"taken".to_vec());
    assert!(matches!(r, Err(RecordError::Unauthorized)));
    // The signing owner may mutate.
    mutate(&mut ledger, &c, &target, &owner, b"still mine".to_vec()).unwrap();
}

#[test]
fn unwritable_record_is_not_mutable() {
    let c = greeting_config();
    let mut ledger = Ledger::new();
    let accounts = Initialize { greeting_account: record_account(20), user: signer(1) };
    initialize(&mut ledger, &c, &accounts, b"hi".to_vec(), 0).unwrap();
    let mut frozen = record_account(20);
    frozen.is_writable = false;
    let r = update_greeting(&mut ledger, &c, &UpdateGreeting { greeting_account: frozen }, b"no".to_vec());
    assert!(matches!(r, Err(RecordError::NotMutable)));
}

#[test]
fn reading_a_never_allocated_address_is_not_found() {
    let c = greeting_config();
    let ledger = Ledger::new();
    let r = get_greeting(&ledger, &c, &GetGreeting { greeting_account: record_account(99) });
    assert!(matches!(r, Err(RecordError::NotFound)));
}

#[test]
fn mutating_a_never_allocated_address_is_not_found() {
    let c = greeting_config();
    let mut ledger = Ledger::new();
    let r = update_greeting(
        &mut ledger,
        &c,
        &UpdateGreeting { greeting_account: record_account(99) },
        b"x".to_vec(),
    );
    assert!(matches!(r, Err(RecordError::NotFound)));
}

#[test]
fn corrupt_stored_bytes_are_rejected_on_read() {
    let c = greeting_config();
    let mut ledger = Ledger::new();
    ledger.accounts.push(StoredAccount { address: key(42), data: vec![0u8; 10] });
    let r = read(&ledger, &c, &key(42));
    assert!(matches!(r, Err(RecordError::CorruptRecord)));
}

#[test]
fn greeting_scenario_hello_world() {
    // A counted record type with the 280-byte declared maximum.
    let c = RecordConfig {
        discriminator: b"scenrec1".to_vec(),
        max_payload_len: 280,
        has_counter: true,
        enforce_owner: false,
    };
    let mut ledger = Ledger::new();
    let target = record_account(10);
    allocate(&mut ledger, &c, &target, &signer(1), b"hello".to_vec(), 0).unwrap();
    let snapshot = read(&ledger, &c, &target.address).unwrap();
    assert_eq!(snapshot.payload, b"hello".to_vec());
    assert_eq!(snapshot.counter, 0);
    mutate(&mut ledger, &c, &target, &signer(1), b"world".to_vec()).unwrap();
    let snapshot = read(&ledger, &c, &target.address).unwrap();
    assert_eq!(snapshot.payload, b"world".to_vec());
    assert_eq!(snapshot.counter, 1);
    let r = mutate(&mut ledger, &c, &target, &signer(1), vec![b'z'; 281]);
    assert!(matches!(r, Err(RecordError::PayloadTooLong)));
    let snapshot = read(&ledger, &c, &target.address).unwrap();
    assert_eq!(snapshot.payload, b"world".to_vec());
    assert_eq!(snapshot.counter, 1);
}

#[test]
fn message_board_send_and_read_back() {
    let c = message_config();
    let mut ledger = Ledger::new();
    let accounts = SendMessage { message_account: record_account(10), user: signer(7) };
    record_ledger::message::initialize(&record_ledger::message::Initialize {}).unwrap();
    send_message(&mut ledger, &c, &accounts, b"hi all".to_vec(), 0).unwrap();
    let m = read_message(&ledger, &c, &accounts.message_account.address).unwrap();
    assert_eq!(m.message, b"hi all".to_vec());
    assert!(m.sender.equals(&accounts.user.address));
}
