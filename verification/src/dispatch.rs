//! The dispatch facade: decodes an encoded invocation and routes it to
//! the matching handler, with the account roles the host resolved.
//!
//! Argument encoding, bit-exact: a one-byte operation tag; for the
//! operations that carry a payload, a little-endian length prefix and
//! exactly that many payload bytes follow, nothing else.

use vstd::bytes::{
    lemma_auto_spec_u32_to_from_le_bytes, spec_u32_from_le_bytes, spec_u32_to_le_bytes,
    u32_from_le_bytes, u32_to_le_bytes,
};
use vstd::prelude::*;
use vstd::slice::{slice_subrange, slice_to_vec};

use crate::errors::RecordError;
use crate::handlers::{
    allocate, mutate, read, spec_allocate_post, spec_allocate_result, spec_counter_has_room,
    spec_mutate_post, spec_mutate_result, spec_next_counter, spec_read_result,
    spec_stored_record, AccountRef, MutationReceipt,
};
use crate::layout::{push_bytes, ParsedRecord, RecordConfig, RecordValue, MAX_DECLARED_LEN};
use crate::ledger::{ledger_wf, Ledger};

verus! {

/// Tag byte that selects the allocation handler.
pub const ALLOCATE_TAG: u8 = 0;

/// Tag byte that selects the mutation handler.
pub const MUTATE_TAG: u8 = 1;

/// Tag byte that selects the read handler.
pub const READ_TAG: u8 = 2;

/// A decoded invocation: which handler to run and its payload argument.
pub enum Operation {
    Allocate { payload: Vec<u8> },
    Mutate { payload: Vec<u8> },
    Read,
}

/// Mathematical image of a decoded invocation.
pub enum OperationV {
    Allocate { payload: Seq<u8> },
    Mutate { payload: Seq<u8> },
    Read,
}

impl View for Operation {
    type V = OperationV;

    open spec fn view(&self) -> OperationV {
        match self {
            Operation::Allocate { payload } => OperationV::Allocate { payload: payload@ },
            Operation::Mutate { payload } => OperationV::Mutate { payload: payload@ },
            Operation::Read => OperationV::Read,
        }
    }
}

/// The argument decoding contract: which byte strings are well-formed
/// invocations, and what they decode to. Anything else is rejected.
pub open spec fn spec_decode_operation(bytes: Seq<u8>) -> Option<OperationV> {
    if bytes.len() == 0 {
        None
    } else if bytes[0] == ALLOCATE_TAG || bytes[0] == MUTATE_TAG {
        if bytes.len() < 5 {
            None
        } else {
            let plen = spec_u32_from_le_bytes(bytes.subrange(1, 5)) as int;
            if bytes.len() != 5 + plen {
                None
            } else {
                let payload = bytes.subrange(5, 5 + plen);
                if bytes[0] == ALLOCATE_TAG {
                    Some(OperationV::Allocate { payload })
                } else {
                    Some(OperationV::Mutate { payload })
                }
            }
        }
    } else if bytes[0] == READ_TAG {
        if bytes.len() == 1 {
            Some(OperationV::Read)
        } else {
            None
        }
    } else {
        None
    }
}

/// Encodes an invocation into the declared byte shape; the exact string
/// that [`decode_operation`] maps back to the same invocation.
pub fn encode_operation(op: &Operation) -> (bytes: Vec<u8>)
    requires
        match op@ {
            OperationV::Allocate { payload } => payload.len() <= MAX_DECLARED_LEN,
            OperationV::Mutate { payload } => payload.len() <= MAX_DECLARED_LEN,
            OperationV::Read => true,
        },
    ensures
        spec_decode_operation(bytes@) == Some(op@),
{
    proof {
        lemma_auto_spec_u32_to_from_le_bytes();
    }
    match op {
        Operation::Read => {
            let mut bytes: Vec<u8> = Vec::new();
            bytes.push(READ_TAG);
            bytes
        },
        Operation::Allocate { payload } => {
            let bytes = encode_tagged_payload(ALLOCATE_TAG, payload);
            proof {
                lemma_decode_tagged_payload(ALLOCATE_TAG, payload@, bytes@);
            }
            bytes
        },
        Operation::Mutate { payload } => {
            let bytes = encode_tagged_payload(MUTATE_TAG, payload);
            proof {
                lemma_decode_tagged_payload(MUTATE_TAG, payload@, bytes@);
            }
            bytes
        },
    }
}

/// A tag byte, the payload's little-endian length, then the payload.
fn encode_tagged_payload(tag: u8, payload: &Vec<u8>) -> (bytes: Vec<u8>)
    requires
        payload@.len() <= MAX_DECLARED_LEN,
    ensures
        bytes@ == seq![tag] + spec_u32_to_le_bytes(payload@.len() as u32) + payload@,
{
    proof {
        lemma_auto_spec_u32_to_from_le_bytes();
    }
    let mut bytes: Vec<u8> = Vec::new();
    bytes.push(tag);
    let len_bytes = u32_to_le_bytes(payload.len() as u32);
    push_bytes(&mut bytes, &len_bytes);
    push_bytes(&mut bytes, payload);
    proof {
        assert(bytes@ =~= seq![tag] + spec_u32_to_le_bytes(payload@.len() as u32) + payload@);
    }
    bytes
}

/// The declared byte shape of a payload-carrying invocation decodes back
/// to its tag and payload.
proof fn lemma_decode_tagged_payload(tag: u8, payload: Seq<u8>, bytes: Seq<u8>)
    requires
        tag == ALLOCATE_TAG || tag == MUTATE_TAG,
        payload.len() <= MAX_DECLARED_LEN,
        bytes == seq![tag] + spec_u32_to_le_bytes(payload.len() as u32) + payload,
    ensures
        spec_decode_operation(bytes) == if tag == ALLOCATE_TAG {
            Some(OperationV::Allocate { payload })
        } else {
            Some(OperationV::Mutate { payload })
        },
{
    lemma_auto_spec_u32_to_from_le_bytes();
    assert(bytes.len() == 5 + payload.len());
    assert(bytes[0] == tag);
    assert(bytes.subrange(1, 5) =~= spec_u32_to_le_bytes(payload.len() as u32));
    assert(spec_u32_from_le_bytes(bytes.subrange(1, 5)) == payload.len() as u32);
    assert(bytes.subrange(5, 5 + payload.len() as int) =~= payload);
}

/// Decodes an encoded invocation; byte strings outside the declared
/// encoding are rejected as corrupt.
pub fn decode_operation(bytes: &Vec<u8>) -> (r: Result<Operation, RecordError>)
    ensures
        match r {
            Ok(op) => spec_decode_operation(bytes@) == Some(op@),
            Err(e) => e == RecordError::CorruptRecord && spec_decode_operation(bytes@) is None,
        },
{
    if bytes.len() == 0 {
        return Err(RecordError::CorruptRecord);
    }
    let tag = bytes[0];
    if tag == ALLOCATE_TAG || tag == MUTATE_TAG {
        if bytes.len() < 5 {
            return Err(RecordError::CorruptRecord);
        }
        let plen = u32_from_le_bytes(slice_subrange(bytes.as_slice(), 1, 5));
        if bytes.len() - 5 != plen as usize {
            return Err(RecordError::CorruptRecord);
        }
        let payload = slice_to_vec(slice_subrange(bytes.as_slice(), 5, bytes.len()));
        if tag == ALLOCATE_TAG {
            Ok(Operation::Allocate { payload })
        } else {
            Ok(Operation::Mutate { payload })
        }
    } else if tag == READ_TAG {
        if bytes.len() == 1 {
            Ok(Operation::Read)
        } else {
            Err(RecordError::CorruptRecord)
        }
    } else {
        Err(RecordError::CorruptRecord)
    }
}

/// What a routed invocation hands back on success.
pub enum DispatchOutcome {
    /// The record now exists at the target address.
    Allocated,
    /// The record was rewritten; the receipt summarizes old and new.
    Mutated { receipt: MutationReceipt },
    /// The read snapshot of the record.
    Snapshot { record: RecordValue },
}

/// Routes a decoded invocation to its handler. `target` is the record
/// account the invocation addresses; `caller` is the invoking party: the
/// funder for allocation, the would-be mutator for mutation. Each arm
/// answers exactly what the routed handler answers, and a failed
/// invocation leaves the store exactly as it was.
pub fn dispatch(
    ledger: &mut Ledger,
    c: &RecordConfig,
    target: &AccountRef,
    caller: &AccountRef,
    op: Operation,
    cost: u64,
) -> (r: Result<DispatchOutcome, RecordError>)
    requires
        c.wf(),
        target.wf(),
        caller.wf(),
        ledger_wf(old(ledger)@),
        op is Mutate ==> spec_counter_has_room(old(ledger)@, *c, target.address@),
    ensures
        ledger_wf(final(ledger)@),
        match op@ {
            OperationV::Allocate { payload } => match r {
                Ok(out) => out is Allocated && spec_allocate_result(
                    old(ledger)@,
                    *c,
                    target.address@,
                    caller.address@,
                    caller.is_signer,
                    payload,
                    cost,
                ) == Ok::<(), RecordError>(()) && final(ledger)@ == spec_allocate_post(
                    old(ledger)@,
                    *c,
                    target.address@,
                    caller.address@,
                    payload,
                    cost,
                ),
                Err(e) => spec_allocate_result(
                    old(ledger)@,
                    *c,
                    target.address@,
                    caller.address@,
                    caller.is_signer,
                    payload,
                    cost,
                ) == Err::<(), RecordError>(e) && final(ledger)@ == old(ledger)@,
            },
            OperationV::Mutate { payload } => match r {
                Ok(out) => (out matches DispatchOutcome::Mutated { receipt }) && spec_mutate_result(
                    old(ledger)@,
                    *c,
                    target.address@,
                    caller.address@,
                    caller.is_signer,
                    target.is_writable,
                    payload,
                ) == Ok::<(), RecordError>(()) && final(ledger)@ == spec_mutate_post(
                    old(ledger)@,
                    *c,
                    target.address@,
                    payload,
                ) && (out matches DispatchOutcome::Mutated { receipt }
                    ==> receipt.previous_payload@ == spec_stored_record(
                    old(ledger)@,
                    *c,
                    target.address@,
                ).unwrap().payload && receipt.new_counter == spec_next_counter(
                    *c,
                    spec_stored_record(old(ledger)@, *c, target.address@).unwrap(),
                )),
                Err(e) => spec_mutate_result(
                    old(ledger)@,
                    *c,
                    target.address@,
                    caller.address@,
                    caller.is_signer,
                    target.is_writable,
                    payload,
                ) == Err::<(), RecordError>(e) && final(ledger)@ == old(ledger)@,
            },
            OperationV::Read => final(ledger)@ == old(ledger)@ && match r {
                Ok(out) => (out matches DispatchOutcome::Snapshot { record }) && (
                out matches DispatchOutcome::Snapshot { record }
                    ==> spec_read_result(old(ledger)@, *c, target.address@) == Ok::<
                    ParsedRecord,
                    RecordError,
                >(
                    ParsedRecord {
                        owner: record.owner@,
                        payload: record.payload@,
                        counter: record.counter,
                    },
                )),
                Err(e) => spec_read_result(old(ledger)@, *c, target.address@) == Err::<
                    ParsedRecord,
                    RecordError,
                >(e),
            },
        },
{
    match op {
        Operation::Allocate { payload } => {
            match allocate(ledger, c, target, caller, payload, cost) {
                Ok(_) => Ok(DispatchOutcome::Allocated),
                Err(e) => Err(e),
            }
        },
        Operation::Mutate { payload } => {
            match mutate(ledger, c, target, caller, payload) {
                Ok(receipt) => Ok(DispatchOutcome::Mutated { receipt }),
                Err(e) => Err(e),
            }
        },
        Operation::Read => {
            match read(ledger, c, &target.address) {
                Ok(record) => Ok(DispatchOutcome::Snapshot { record }),
                Err(e) => Err(e),
            }
        },
    }
}

} // verus!
