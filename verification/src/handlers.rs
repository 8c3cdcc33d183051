//! The record lifecycle handlers: allocation, mutation, and read-back.
//!
//! Every handler re-validates its preconditions defensively, even those
//! the host has already checked, and commits nothing when any validation
//! fails: a rejected invocation leaves the store exactly as it was.

use vstd::prelude::*;

use crate::errors::RecordError;
use crate::layout::{
    deserialize_record, serialize_record, spec_parse, spec_serialize, ParsedRecord, RecordConfig,
    RecordValue,
};
use crate::ledger::{
    ledger_wf, lemma_account_push_find, lemma_account_update_keeps_find,
    lemma_find_account_props, spec_balance_of, spec_debit_balances, spec_find_account, Ledger,
    LedgerV, StoredAccount, StoredAccountV,
};
use crate::pubkey::Pubkey;

verus! {

/// A resolved account reference as the host hands it in: an address and
/// the capability flags the host resolved for this invocation. The
/// handlers re-validate against the store rather than trust the flags
/// alone.
pub struct AccountRef {
    pub address: Pubkey,
    pub is_signer: bool,
    pub is_writable: bool,
    pub is_newly_allocated: bool,
}

impl AccountRef {
    /// A reference is well formed when its address has the fixed width.
    pub open spec fn wf(&self) -> bool {
        self.address.wf()
    }
}

/// The observable old-to-new summary a successful mutation emits.
pub struct MutationReceipt {
    pub previous_payload: Vec<u8>,
    pub new_counter: u64,
}

/// The record stored at `addr`, as the layout reads it: `None` when the
/// address was never allocated or its bytes are corrupt.
pub open spec fn spec_stored_record(l: LedgerV, c: RecordConfig, addr: Seq<u8>) -> Option<
    ParsedRecord,
> {
    let i = spec_find_account(l.accounts, addr);
    if i >= 0 {
        spec_parse(c, l.accounts[i].data)
    } else {
        None
    }
}

/// Whether the counter stored at `addr`, if any, can still take one more
/// mutation without leaving its fixed width. A machine limit only: every
/// freshly allocated record starts at zero.
pub open spec fn spec_counter_has_room(l: LedgerV, c: RecordConfig, addr: Seq<u8>) -> bool {
    match spec_stored_record(l, c, addr) {
        Some(p) => p.counter < u64::MAX,
        None => true,
    }
}

/// What allocation answers, in validation order: the funder must have
/// signed, the address must be unallocated, the payload must respect the
/// declared maximum, and the funder must cover the cost; then it
/// succeeds.
pub open spec fn spec_allocate_result(
    l: LedgerV,
    c: RecordConfig,
    addr: Seq<u8>,
    funder_id: Seq<u8>,
    funder_is_signer: bool,
    payload: Seq<u8>,
    cost: u64,
) -> Result<(), RecordError> {
    if !funder_is_signer {
        Err(RecordError::Unauthorized)
    } else if spec_find_account(l.accounts, addr) >= 0 {
        Err(RecordError::AlreadyAllocated)
    } else if payload.len() > c.max_payload_len {
        Err(RecordError::PayloadTooLong)
    } else if spec_balance_of(l, funder_id) < cost {
        Err(RecordError::InsufficientFunds)
    } else {
        Ok(())
    }
}

/// The store after a successful allocation: the serialized fresh record
/// (owner = funder, counter zero) appended at the target address, and
/// the cost debited from the funder.
pub open spec fn spec_allocate_post(
    l: LedgerV,
    c: RecordConfig,
    addr: Seq<u8>,
    funder_id: Seq<u8>,
    payload: Seq<u8>,
    cost: u64,
) -> LedgerV {
    LedgerV {
        accounts: l.accounts.push(
            StoredAccountV { address: addr, data: spec_serialize(c, funder_id, payload, 0) },
        ),
        balances: spec_debit_balances(l.balances, funder_id, cost),
    }
}

/// What mutation answers, in validation order: the record must exist,
/// its bytes must parse, the target must be writable, the caller must be
/// the signing owner where the record type enforces ownership, and the
/// new payload must respect the declared maximum; then it succeeds.
pub open spec fn spec_mutate_result(
    l: LedgerV,
    c: RecordConfig,
    addr: Seq<u8>,
    caller_id: Seq<u8>,
    caller_is_signer: bool,
    target_writable: bool,
    new_payload: Seq<u8>,
) -> Result<(), RecordError> {
    let i = spec_find_account(l.accounts, addr);
    if i < 0 {
        Err(RecordError::NotFound)
    } else {
        match spec_parse(c, l.accounts[i].data) {
            None => Err(RecordError::CorruptRecord),
            Some(p) => if !target_writable {
                Err(RecordError::NotMutable)
            } else if c.enforce_owner && !(caller_is_signer && caller_id == p.owner) {
                Err(RecordError::Unauthorized)
            } else if new_payload.len() > c.max_payload_len {
                Err(RecordError::PayloadTooLong)
            } else {
                Ok(())
            },
        }
    }
}

/// The counter a successful mutation writes back: one more than stored,
/// or zero where the record type has no counter.
pub open spec fn spec_next_counter(c: RecordConfig, p: ParsedRecord) -> u64 {
    if c.has_counter {
        (p.counter + 1) as u64
    } else {
        0
    }
}

/// The store after a successful mutation: the record at the target
/// address rewritten in place with the new payload and the stepped
/// counter, owner and balances untouched.
pub open spec fn spec_mutate_post(
    l: LedgerV,
    c: RecordConfig,
    addr: Seq<u8>,
    new_payload: Seq<u8>,
) -> LedgerV {
    let i = spec_find_account(l.accounts, addr);
    let p = spec_parse(c, l.accounts[i].data).unwrap();
    LedgerV {
        accounts: l.accounts.update(
            i,
            StoredAccountV {
                address: addr,
                data: spec_serialize(c, p.owner, new_payload, spec_next_counter(c, p)),
            },
        ),
        balances: l.balances,
    }
}

/// What a read answers: the parsed record, `NotFound` for a
/// never-allocated address, `CorruptRecord` for bytes the layout
/// rejects. Never a default record in place of an error.
pub open spec fn spec_read_result(l: LedgerV, c: RecordConfig, addr: Seq<u8>) -> Result<
    ParsedRecord,
    RecordError,
> {
    let i = spec_find_account(l.accounts, addr);
    if i < 0 {
        Err(RecordError::NotFound)
    } else {
        match spec_parse(c, l.accounts[i].data) {
            None => Err(RecordError::CorruptRecord),
            Some(p) => Ok(p),
        }
    }
}

/// Allocation: creates the record at `target`, paid for and owned by
/// `funder`. Validates in the order of [`spec_allocate_result`]; on any
/// error the store is exactly what it was.
pub fn allocate(
    ledger: &mut Ledger,
    c: &RecordConfig,
    target: &AccountRef,
    funder: &AccountRef,
    payload: Vec<u8>,
    cost: u64,
) -> (r: Result<(), RecordError>)
    requires
        c.wf(),
        target.wf(),
        funder.wf(),
        ledger_wf(old(ledger)@),
    ensures
        ledger_wf(final(ledger)@),
        r == spec_allocate_result(
            old(ledger)@,
            *c,
            target.address@,
            funder.address@,
            funder.is_signer,
            payload@,
            cost,
        ),
        r is Ok ==> final(ledger)@ == spec_allocate_post(
            old(ledger)@,
            *c,
            target.address@,
            funder.address@,
            payload@,
            cost,
        ),
        r is Err ==> final(ledger)@ == old(ledger)@,
{
    if !funder.is_signer {
        return Err(RecordError::Unauthorized);
    }
    if ledger.find_account_index(&target.address).is_some() {
        return Err(RecordError::AlreadyAllocated);
    }
    if payload.len() > c.max_payload_len {
        return Err(RecordError::PayloadTooLong);
    }
    proof {
        crate::ledger::lemma_find_balance_props(old(ledger)@.balances, funder.address@);
    }
    let balance: u64 = match ledger.find_balance_index(&funder.address) {
        Some(i) => ledger.balances[i].amount,
        None => 0,
    };
    proof {
        assert(balance == spec_balance_of(old(ledger)@, funder.address@));
    }
    if balance < cost {
        return Err(RecordError::InsufficientFunds);
    }
    ledger.debit(&funder.address, cost);
    let record = RecordValue { owner: funder.address.duplicate(), payload, counter: 0 };
    let data = serialize_record(c, &record);
    let ghost mid: LedgerV = ledger@;
    ledger.accounts.push(StoredAccount { address: target.address.duplicate(), data });
    proof {
        assert(ledger@.accounts =~= mid.accounts.push(
            StoredAccountV {
                address: target.address@,
                data: spec_serialize(*c, funder.address@, record.payload@, 0),
            },
        ));
        assert(ledger@.balances == mid.balances);
        lemma_account_push_find(mid.accounts, ledger@.accounts, target.address@);
        lemma_find_account_props(mid.accounts, target.address@);
        assert forall|i: int, j: int|
            0 <= i < j < ledger@.accounts.len() implies (#[trigger] ledger@.accounts[i]).address
            != (#[trigger] ledger@.accounts[j]).address by {
            if j < mid.accounts.len() {
                assert(ledger@.accounts[i] == mid.accounts[i]);
                assert(ledger@.accounts[j] == mid.accounts[j]);
            } else {
                assert(ledger@.accounts[i] == mid.accounts[i]);
                assert(mid.accounts[i].address != target.address@);
            }
        }
        assert(ledger_wf(ledger@));
        assert(ledger@ =~= spec_allocate_post(
            old(ledger)@,
            *c,
            target.address@,
            funder.address@,
            record.payload@,
            cost,
        ));
    }
    Ok(())
}

/// Mutation: rewrites the payload of the record at `target` and steps
/// its counter, after re-validating existence, integrity, writability,
/// and (where enforced) the signing owner. Validates in the order of
/// [`spec_mutate_result`]; on any error the store is exactly what it
/// was.
pub fn mutate(
    ledger: &mut Ledger,
    c: &RecordConfig,
    target: &AccountRef,
    caller: &AccountRef,
    new_payload: Vec<u8>,
) -> (r: Result<MutationReceipt, RecordError>)
    requires
        c.wf(),
        target.wf(),
        ledger_wf(old(ledger)@),
        spec_counter_has_room(old(ledger)@, *c, target.address@),
    ensures
        ledger_wf(final(ledger)@),
        match r {
            Ok(receipt) => spec_mutate_result(
                old(ledger)@,
                *c,
                target.address@,
                caller.address@,
                caller.is_signer,
                target.is_writable,
                new_payload@,
            ) == Ok::<(), RecordError>(()) && final(ledger)@ == spec_mutate_post(
                old(ledger)@,
                *c,
                target.address@,
                new_payload@,
            ) && receipt.previous_payload@ == spec_stored_record(
                old(ledger)@,
                *c,
                target.address@,
            ).unwrap().payload && receipt.new_counter == spec_next_counter(
                *c,
                spec_stored_record(old(ledger)@, *c, target.address@).unwrap(),
            ),
            Err(e) => spec_mutate_result(
                old(ledger)@,
                *c,
                target.address@,
                caller.address@,
                caller.is_signer,
                target.is_writable,
                new_payload@,
            ) == Err::<(), RecordError>(e) && final(ledger)@ == old(ledger)@,
        },
{
    let i = match ledger.find_account_index(&target.address) {
        None => {
            return Err(RecordError::NotFound);
        },
        Some(i) => i,
    };
    proof {
        lemma_find_account_props(old(ledger)@.accounts, target.address@);
    }
    let record = match deserialize_record(c, &ledger.accounts[i].data) {
        Err(_) => {
            return Err(RecordError::CorruptRecord);
        },
        Ok(v) => v,
    };
    if !target.is_writable {
        return Err(RecordError::NotMutable);
    }
    if c.enforce_owner && !(caller.is_signer && caller.address.equals(&record.owner)) {
        return Err(RecordError::Unauthorized);
    }
    if new_payload.len() > c.max_payload_len {
        return Err(RecordError::PayloadTooLong);
    }
    let new_counter: u64 = if c.has_counter {
        record.counter + 1
    } else {
        0
    };
    let new_record = RecordValue { owner: record.owner, payload: new_payload, counter: new_counter };
    let data = serialize_record(c, &new_record);
    let entry = ledger.accounts.remove(i);
    ledger.accounts.insert(i, StoredAccount { address: entry.address, data });
    proof {
        let ghost before = old(ledger)@;
        assert(ledger@.accounts =~= before.accounts.update(
            i as int,
            StoredAccountV {
                address: target.address@,
                data: spec_serialize(
                    *c,
                    new_record.owner@,
                    new_record.payload@,
                    new_counter,
                ),
            },
        ));
        assert(ledger@.balances == before.balances);
        lemma_account_update_keeps_find(before.accounts, ledger@.accounts, i as int);
        assert forall|k: int|
            0 <= k < ledger@.accounts.len() implies (#[trigger] ledger@.accounts[k]).address
            == before.accounts[k].address by {}
        assert(ledger_wf(ledger@));
        assert(ledger@ =~= spec_mutate_post(before, *c, target.address@, new_payload@));
    }
    Ok(MutationReceipt { previous_payload: record.payload, new_counter })
}

/// Read-back: returns a snapshot of the record at `address` without
/// touching the store; an unallocated address is `NotFound` and bytes
/// the layout rejects are `CorruptRecord`, never a default record.
pub fn read(ledger: &Ledger, c: &RecordConfig, address: &Pubkey) -> (r: Result<
    RecordValue,
    RecordError,
>)
    requires
        c.wf(),
    ensures
        match r {
            Ok(v) => spec_read_result(ledger@, *c, address@) == Ok::<ParsedRecord, RecordError>(
                ParsedRecord { owner: v.owner@, payload: v.payload@, counter: v.counter },
            ) && v.wf(*c),
            Err(e) => spec_read_result(ledger@, *c, address@) == Err::<ParsedRecord, RecordError>(
                e,
            ),
        },
{
    let i = match ledger.find_account_index(address) {
        None => {
            return Err(RecordError::NotFound);
        },
        Some(i) => i,
    };
    match deserialize_record(c, &ledger.accounts[i].data) {
        Err(_) => Err(RecordError::CorruptRecord),
        Ok(v) => Ok(v),
    }
}

} // verus!
