//! The general laws of the record lifecycle, proved once and for all
//! inputs over the same outcome functions the handlers are verified
//! against.

use vstd::prelude::*;

use crate::errors::RecordError;
use crate::layout::{
    lemma_serialize_parse_round_trip, spec_parse, spec_serialize, ParsedRecord, RecordConfig,
};
use crate::ledger::{
    lemma_account_push_find, lemma_account_update_keeps_find, lemma_find_account_props,
    spec_find_account, LedgerV, StoredAccountV,
};
use crate::handlers::{
    spec_allocate_post, spec_allocate_result, spec_mutate_post, spec_mutate_result,
    spec_next_counter, spec_read_result, spec_stored_record,
};
use crate::pubkey::KEY_LEN;

verus! {

/// After a successful allocation, the find for the target address lands
/// on the freshly appended record and every other address is where it
/// was.
proof fn lemma_allocate_post_find(
    l: LedgerV,
    c: RecordConfig,
    addr: Seq<u8>,
    funder_id: Seq<u8>,
    payload: Seq<u8>,
    cost: u64,
)
    requires
        spec_find_account(l.accounts, addr) == -1,
    ensures
        spec_find_account(
            spec_allocate_post(l, c, addr, funder_id, payload, cost).accounts,
            addr,
        ) == l.accounts.len(),
        spec_allocate_post(l, c, addr, funder_id, payload, cost).accounts[l.accounts.len() as int]
            == (StoredAccountV { address: addr, data: spec_serialize(c, funder_id, payload, 0) }),
        forall|other: Seq<u8>|
            other != addr ==> spec_find_account(
                spec_allocate_post(l, c, addr, funder_id, payload, cost).accounts,
                other,
            ) == spec_find_account(l.accounts, other),
{
    let post = spec_allocate_post(l, c, addr, funder_id, payload, cost);
    lemma_account_push_find(l.accounts, post.accounts, addr);
}

/// Allocating a record twice at the same address fails the second time
/// with `AlreadyAllocated`, whoever signs and pays for the second
/// attempt.
pub proof fn lemma_allocate_twice_fails(
    l: LedgerV,
    c: RecordConfig,
    addr: Seq<u8>,
    first_funder: Seq<u8>,
    first_payload: Seq<u8>,
    first_cost: u64,
    second_funder: Seq<u8>,
    second_payload: Seq<u8>,
    second_cost: u64,
)
    requires
        spec_allocate_result(l, c, addr, first_funder, true, first_payload, first_cost)
            == Ok::<(), RecordError>(()),
    ensures
        spec_allocate_result(
            spec_allocate_post(l, c, addr, first_funder, first_payload, first_cost),
            c,
            addr,
            second_funder,
            true,
            second_payload,
            second_cost,
        ) == Err::<(), RecordError>(RecordError::AlreadyAllocated),
{
    lemma_find_account_props(l.accounts, addr);
    lemma_allocate_post_find(l, c, addr, first_funder, first_payload, first_cost);
}

/// Round trip: reading a freshly allocated record returns exactly the
/// payload that was allocated, owned by the funder, with the counter at
/// zero.
pub proof fn lemma_allocate_then_read(
    l: LedgerV,
    c: RecordConfig,
    addr: Seq<u8>,
    funder_id: Seq<u8>,
    payload: Seq<u8>,
    cost: u64,
)
    requires
        c.wf(),
        funder_id.len() == KEY_LEN,
        spec_allocate_result(l, c, addr, funder_id, true, payload, cost)
            == Ok::<(), RecordError>(()),
    ensures
        spec_read_result(spec_allocate_post(l, c, addr, funder_id, payload, cost), c, addr)
            == Ok::<ParsedRecord, RecordError>(
            ParsedRecord { owner: funder_id, payload, counter: 0 },
        ),
{
    let post = spec_allocate_post(l, c, addr, funder_id, payload, cost);
    lemma_find_account_props(l.accounts, addr);
    lemma_allocate_post_find(l, c, addr, funder_id, payload, cost);
    lemma_serialize_parse_round_trip(c, funder_id, payload, 0);
}

/// Submitting a payload longer than the declared maximum to allocation
/// fails with `PayloadTooLong` (given a signing funder and a free
/// address, the checks that precede the length check).
pub proof fn lemma_allocate_payload_too_long(
    l: LedgerV,
    c: RecordConfig,
    addr: Seq<u8>,
    funder_id: Seq<u8>,
    payload: Seq<u8>,
    cost: u64,
)
    requires
        spec_find_account(l.accounts, addr) == -1,
        payload.len() > c.max_payload_len,
    ensures
        spec_allocate_result(l, c, addr, funder_id, true, payload, cost)
            == Err::<(), RecordError>(RecordError::PayloadTooLong),
{
}

/// Submitting a payload longer than the declared maximum to mutation
/// fails with `PayloadTooLong` (on a writable, intact record, by any
/// caller the ownership policy admits). The handlers commit nothing on
/// any error, so the stored record stays as it was.
pub proof fn lemma_mutate_payload_too_long(
    l: LedgerV,
    c: RecordConfig,
    addr: Seq<u8>,
    caller_id: Seq<u8>,
    caller_is_signer: bool,
    new_payload: Seq<u8>,
)
    requires
        spec_stored_record(l, c, addr) is Some,
        c.enforce_owner ==> caller_is_signer && caller_id == spec_stored_record(
            l,
            c,
            addr,
        ).unwrap().owner,
        new_payload.len() > c.max_payload_len,
    ensures
        spec_mutate_result(l, c, addr, caller_id, caller_is_signer, true, new_payload)
            == Err::<(), RecordError>(RecordError::PayloadTooLong),
{
    lemma_find_account_props(l.accounts, addr);
}

/// A mutation by an identity other than the stored owner, on a record
/// type that enforces ownership, fails with `Unauthorized`, writable or
/// not signing notwithstanding; the handlers commit nothing on any
/// error.
pub proof fn lemma_foreign_mutation_unauthorized(
    l: LedgerV,
    c: RecordConfig,
    addr: Seq<u8>,
    caller_id: Seq<u8>,
    caller_is_signer: bool,
    new_payload: Seq<u8>,
)
    requires
        c.enforce_owner,
        spec_stored_record(l, c, addr) is Some,
        caller_id != spec_stored_record(l, c, addr).unwrap().owner,
    ensures
        spec_mutate_result(l, c, addr, caller_id, caller_is_signer, true, new_payload)
            == Err::<(), RecordError>(RecordError::Unauthorized),
{
    lemma_find_account_props(l.accounts, addr);
}

/// Reading a never-allocated address fails with `NotFound`; it never
/// answers a default record in place of the error.
pub proof fn lemma_read_unallocated(l: LedgerV, c: RecordConfig, addr: Seq<u8>)
    requires
        spec_find_account(l.accounts, addr) == -1,
    ensures
        spec_read_result(l, c, addr) == Err::<ParsedRecord, RecordError>(RecordError::NotFound),
{
}

/// Isolation of allocation: creating a record at one address leaves the
/// record stored at every other address, under any record type, exactly
/// as it was.
pub proof fn lemma_allocate_preserves_others(
    l: LedgerV,
    c: RecordConfig,
    addr: Seq<u8>,
    funder_id: Seq<u8>,
    payload: Seq<u8>,
    cost: u64,
    reader_config: RecordConfig,
    other: Seq<u8>,
)
    requires
        spec_find_account(l.accounts, addr) == -1,
        other != addr,
    ensures
        spec_stored_record(
            spec_allocate_post(l, c, addr, funder_id, payload, cost),
            reader_config,
            other,
        ) == spec_stored_record(l, reader_config, other),
{
    let post = spec_allocate_post(l, c, addr, funder_id, payload, cost);
    lemma_account_push_find(l.accounts, post.accounts, addr);
    lemma_find_account_props(l.accounts, other);
    let f = spec_find_account(l.accounts, other);
    if f >= 0 {
        assert(post.accounts[f] == l.accounts[f]);
    }
}

/// Isolation of mutation: rewriting the record at one address leaves the
/// record stored at every other address, under any record type, exactly
/// as it was.
pub proof fn lemma_mutate_preserves_others(
    l: LedgerV,
    c: RecordConfig,
    addr: Seq<u8>,
    new_payload: Seq<u8>,
    reader_config: RecordConfig,
    other: Seq<u8>,
)
    requires
        spec_find_account(l.accounts, addr) >= 0,
        other != addr,
    ensures
        spec_stored_record(spec_mutate_post(l, c, addr, new_payload), reader_config, other)
            == spec_stored_record(l, reader_config, other),
{
    let i = spec_find_account(l.accounts, addr);
    lemma_find_account_props(l.accounts, addr);
    let post = spec_mutate_post(l, c, addr, new_payload);
    lemma_account_update_keeps_find(l.accounts, post.accounts, i);
    lemma_find_account_props(l.accounts, other);
    let f = spec_find_account(l.accounts, other);
    if f >= 0 {
        assert(l.accounts[f].address == other);
        assert(f != i);
        assert(post.accounts[f] == l.accounts[f]);
    }
}

/// Mutating a never-allocated address fails with `NotFound`: a record is
/// neither readable nor mutable before successful allocation.
pub proof fn lemma_mutate_unallocated(
    l: LedgerV,
    c: RecordConfig,
    addr: Seq<u8>,
    caller_id: Seq<u8>,
    caller_is_signer: bool,
    target_writable: bool,
    new_payload: Seq<u8>,
)
    requires
        spec_find_account(l.accounts, addr) == -1,
    ensures
        spec_mutate_result(l, c, addr, caller_id, caller_is_signer, target_writable, new_payload)
            == Err::<(), RecordError>(RecordError::NotFound),
{
}

/// The store after `mutations` successive successful mutations of the
/// record at `addr`, front to back.
pub open spec fn spec_apply_mutations(
    l: LedgerV,
    c: RecordConfig,
    addr: Seq<u8>,
    mutations: Seq<Seq<u8>>,
) -> LedgerV
    decreases mutations.len(),
{
    if mutations.len() == 0 {
        l
    } else {
        spec_apply_mutations(
            spec_mutate_post(l, c, addr, mutations[0]),
            c,
            addr,
            mutations.drop_first(),
        )
    }
}

/// Whether every mutation in `mutations` succeeds in turn, each against
/// the store the previous one left.
pub open spec fn spec_mutations_ok(
    l: LedgerV,
    c: RecordConfig,
    addr: Seq<u8>,
    caller_id: Seq<u8>,
    caller_is_signer: bool,
    target_writable: bool,
    mutations: Seq<Seq<u8>>,
) -> bool
    decreases mutations.len(),
{
    mutations.len() == 0 || (spec_mutate_result(
        l,
        c,
        addr,
        caller_id,
        caller_is_signer,
        target_writable,
        mutations[0],
    ) == Ok::<(), RecordError>(()) && spec_mutations_ok(
        spec_mutate_post(l, c, addr, mutations[0]),
        c,
        addr,
        caller_id,
        caller_is_signer,
        target_writable,
        mutations.drop_first(),
    ))
}

/// One successful mutation steps the stored counter by exactly one and
/// stores exactly the new payload, keeping the owner.
proof fn lemma_mutate_post_stored(
    l: LedgerV,
    c: RecordConfig,
    addr: Seq<u8>,
    caller_id: Seq<u8>,
    caller_is_signer: bool,
    target_writable: bool,
    new_payload: Seq<u8>,
)
    requires
        c.wf(),
        spec_mutate_result(l, c, addr, caller_id, caller_is_signer, target_writable, new_payload)
            == Ok::<(), RecordError>(()),
        spec_stored_record(l, c, addr).unwrap().counter < u64::MAX || !c.has_counter,
    ensures
        spec_stored_record(spec_mutate_post(l, c, addr, new_payload), c, addr)
            == Some(
            ParsedRecord {
                owner: spec_stored_record(l, c, addr).unwrap().owner,
                payload: new_payload,
                counter: spec_next_counter(c, spec_stored_record(l, c, addr).unwrap()),
            },
        ),
{
    let i = spec_find_account(l.accounts, addr);
    lemma_find_account_props(l.accounts, addr);
    let p = spec_parse(c, l.accounts[i].data).unwrap();
    let post = spec_mutate_post(l, c, addr, new_payload);
    lemma_account_update_keeps_find(l.accounts, post.accounts, i);
    assert(post.accounts[i].data == spec_serialize(c, p.owner, new_payload, spec_next_counter(c, p)));
    assert(p.owner.len() == KEY_LEN) by {
        assert(spec_parse(c, l.accounts[i].data) is Some);
    }
    lemma_serialize_parse_round_trip(c, p.owner, new_payload, spec_next_counter(c, p));
}

/// After `N` successful mutations of a counted record, the stored
/// counter has grown by exactly `N`, one per mutation, and the owner is
/// untouched.
pub proof fn lemma_counter_counts_mutations(
    l: LedgerV,
    c: RecordConfig,
    addr: Seq<u8>,
    caller_id: Seq<u8>,
    caller_is_signer: bool,
    target_writable: bool,
    mutations: Seq<Seq<u8>>,
)
    requires
        c.wf(),
        spec_stored_record(l, c, addr) is Some,
        spec_stored_record(l, c, addr).unwrap().counter + mutations.len() <= u64::MAX,
        spec_mutations_ok(l, c, addr, caller_id, caller_is_signer, target_writable, mutations),
    ensures
        spec_stored_record(spec_apply_mutations(l, c, addr, mutations), c, addr) is Some,
        spec_stored_record(spec_apply_mutations(l, c, addr, mutations), c, addr).unwrap().owner
            == spec_stored_record(l, c, addr).unwrap().owner,
        c.has_counter ==> spec_stored_record(
            spec_apply_mutations(l, c, addr, mutations),
            c,
            addr,
        ).unwrap().counter == spec_stored_record(l, c, addr).unwrap().counter + mutations.len(),
        !c.has_counter ==> spec_stored_record(
            spec_apply_mutations(l, c, addr, mutations),
            c,
            addr,
        ).unwrap().counter == 0,
    decreases mutations.len(),
{
    let p = spec_stored_record(l, c, addr).unwrap();
    if mutations.len() == 0 {
        if !c.has_counter {
            let i = spec_find_account(l.accounts, addr);
            assert(spec_parse(c, l.accounts[i].data) is Some);
        }
    } else {
        lemma_mutate_post_stored(
            l,
            c,
            addr,
            caller_id,
            caller_is_signer,
            target_writable,
            mutations[0],
        );
        let step = spec_mutate_post(l, c, addr, mutations[0]);
        lemma_counter_counts_mutations(
            step,
            c,
            addr,
            caller_id,
            caller_is_signer,
            target_writable,
            mutations.drop_first(),
        );
    }
}

/// The headline counting law: allocate a counted record, run `N`
/// successful mutations, and the stored counter reads exactly `N`.
pub proof fn lemma_counter_after_allocate_and_mutations(
    l: LedgerV,
    c: RecordConfig,
    addr: Seq<u8>,
    funder_id: Seq<u8>,
    first_payload: Seq<u8>,
    cost: u64,
    caller_id: Seq<u8>,
    caller_is_signer: bool,
    target_writable: bool,
    mutations: Seq<Seq<u8>>,
)
    requires
        c.wf(),
        c.has_counter,
        funder_id.len() == KEY_LEN,
        mutations.len() <= u64::MAX,
        spec_allocate_result(l, c, addr, funder_id, true, first_payload, cost)
            == Ok::<(), RecordError>(()),
        spec_mutations_ok(
            spec_allocate_post(l, c, addr, funder_id, first_payload, cost),
            c,
            addr,
            caller_id,
            caller_is_signer,
            target_writable,
            mutations,
        ),
    ensures
        spec_stored_record(
            spec_apply_mutations(
                spec_allocate_post(l, c, addr, funder_id, first_payload, cost),
                c,
                addr,
                mutations,
            ),
            c,
            addr,
        ) is Some,
        spec_stored_record(
            spec_apply_mutations(
                spec_allocate_post(l, c, addr, funder_id, first_payload, cost),
                c,
                addr,
                mutations,
            ),
            c,
            addr,
        ).unwrap().counter == mutations.len(),
{
    let post = spec_allocate_post(l, c, addr, funder_id, first_payload, cost);
    lemma_find_account_props(l.accounts, addr);
    lemma_allocate_post_find(l, c, addr, funder_id, first_payload, cost);
    lemma_serialize_parse_round_trip(c, funder_id, first_payload, 0);
    assert(spec_stored_record(post, c, addr) == Some(
        ParsedRecord { owner: funder_id, payload: first_payload, counter: 0 },
    ));
    lemma_counter_counts_mutations(
        post,
        c,
        addr,
        caller_id,
        caller_is_signer,
        target_writable,
        mutations,
    );
}

} // verus!
