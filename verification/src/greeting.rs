//! The greeting record type: a bounded greeting plus a counter that
//! steps by one on every successful update.
//!
//! This record type deliberately does not gate mutation on the owner
//! identity: any caller may update the greeting, unlike the
//! message-board type. The policy stands here as the explicit
//! `enforce_owner` configuration choice rather than being silently
//! unified, so callers can see and test exactly what is enforced.

use vstd::prelude::*;

use crate::errors::RecordError;
use crate::handlers::{
    allocate, mutate, read, spec_allocate_post, spec_allocate_result, spec_counter_has_room,
    spec_mutate_post, spec_mutate_result, spec_next_counter, spec_read_result,
    spec_stored_record, AccountRef, MutationReceipt,
};
use crate::layout::{ParsedRecord, RecordConfig};
use crate::ledger::{ledger_wf, Ledger};

verus! {

/// Declared maximum greeting length, part of the format contract.
pub const GREETING_MAX_LEN: usize = 200;

/// The discriminator tag of greeting records.
pub open spec fn spec_greeting_discriminator() -> Seq<u8> {
    seq![103u8, 114u8, 116u8, 114u8, 101u8, 99u8, 114u8, 100u8]
}

/// Whether `c` is the greeting record type: the greeting discriminator,
/// the declared maximum, a counter, and mutation open to any caller.
pub open spec fn is_greeting_config(c: RecordConfig) -> bool {
    &&& c.discriminator@ == spec_greeting_discriminator()
    &&& c.max_payload_len == GREETING_MAX_LEN
    &&& c.has_counter
    &&& !c.enforce_owner
}

/// Builds the greeting record type configuration.
pub fn greeting_config() -> (c: RecordConfig)
    ensures
        c.wf(),
        is_greeting_config(c),
{
    let mut discriminator: Vec<u8> = Vec::new();
    discriminator.push(103);
    discriminator.push(114);
    discriminator.push(116);
    discriminator.push(114);
    discriminator.push(101);
    discriminator.push(99);
    discriminator.push(114);
    discriminator.push(100);
    proof {
        assert(discriminator@ =~= spec_greeting_discriminator());
    }
    RecordConfig {
        discriminator,
        max_payload_len: GREETING_MAX_LEN,
        has_counter: true,
        enforce_owner: false,
    }
}

/// A greeting record as read back: the greeting and how many updates it
/// has seen.
pub struct GreetingAccount {
    pub message: Vec<u8>,
    pub count: u64,
}

/// Account roles of `initialize`: the record account to allocate, and
/// the signing user who pays for it.
pub struct Initialize {
    pub greeting_account: AccountRef,
    pub user: AccountRef,
}

/// Account roles of `update_greeting`: only the record account; this
/// record type asks for no signer on update.
pub struct UpdateGreeting {
    pub greeting_account: AccountRef,
}

/// Account roles of `get_greeting`: the record account, read-only.
pub struct GetGreeting {
    pub greeting_account: AccountRef,
}

/// Allocates the greeting record with its initial message and the
/// counter at zero; the user signs and pays.
pub fn initialize(
    ledger: &mut Ledger,
    c: &RecordConfig,
    accounts: &Initialize,
    message: Vec<u8>,
    cost: u64,
) -> (r: Result<(), RecordError>)
    requires
        c.wf(),
        is_greeting_config(*c),
        accounts.greeting_account.wf(),
        accounts.user.wf(),
        ledger_wf(old(ledger)@),
    ensures
        ledger_wf(final(ledger)@),
        r == spec_allocate_result(
            old(ledger)@,
            *c,
            accounts.greeting_account.address@,
            accounts.user.address@,
            accounts.user.is_signer,
            message@,
            cost,
        ),
        r is Ok ==> final(ledger)@ == spec_allocate_post(
            old(ledger)@,
            *c,
            accounts.greeting_account.address@,
            accounts.user.address@,
            message@,
            cost,
        ),
        r is Err ==> final(ledger)@ == old(ledger)@,
{
    allocate(ledger, c, &accounts.greeting_account, &accounts.user, message, cost)
}

/// Rewrites the greeting and steps the counter by exactly one. Any
/// caller may update: this record type's ownership policy enforces
/// nothing, so the handler is invoked with the record account itself
/// standing as the caller.
pub fn update_greeting(
    ledger: &mut Ledger,
    c: &RecordConfig,
    accounts: &UpdateGreeting,
    new_message: Vec<u8>,
) -> (r: Result<MutationReceipt, RecordError>)
    requires
        c.wf(),
        is_greeting_config(*c),
        accounts.greeting_account.wf(),
        ledger_wf(old(ledger)@),
        spec_counter_has_room(old(ledger)@, *c, accounts.greeting_account.address@),
    ensures
        ledger_wf(final(ledger)@),
        match r {
            Ok(receipt) => spec_mutate_result(
                old(ledger)@,
                *c,
                accounts.greeting_account.address@,
                accounts.greeting_account.address@,
                accounts.greeting_account.is_signer,
                accounts.greeting_account.is_writable,
                new_message@,
            ) == Ok::<(), RecordError>(()) && final(ledger)@ == spec_mutate_post(
                old(ledger)@,
                *c,
                accounts.greeting_account.address@,
                new_message@,
            ) && receipt.previous_payload@ == spec_stored_record(
                old(ledger)@,
                *c,
                accounts.greeting_account.address@,
            ).unwrap().payload && receipt.new_counter == spec_next_counter(
                *c,
                spec_stored_record(old(ledger)@, *c, accounts.greeting_account.address@).unwrap(),
            ),
            Err(e) => spec_mutate_result(
                old(ledger)@,
                *c,
                accounts.greeting_account.address@,
                accounts.greeting_account.address@,
                accounts.greeting_account.is_signer,
                accounts.greeting_account.is_writable,
                new_message@,
            ) == Err::<(), RecordError>(e) && final(ledger)@ == old(ledger)@,
        },
{
    mutate(ledger, c, &accounts.greeting_account, &accounts.greeting_account, new_message)
}

/// Reads the greeting record back: the stored greeting and its update
/// count, without touching the store.
pub fn get_greeting(ledger: &Ledger, c: &RecordConfig, accounts: &GetGreeting) -> (r: Result<
    GreetingAccount,
    RecordError,
>)
    requires
        c.wf(),
        is_greeting_config(*c),
    ensures
        match r {
            Ok(g) => (spec_read_result(ledger@, *c, accounts.greeting_account.address@) matches Ok(
                p,
            ) && p.payload == g.message@ && p.counter == g.count),
            Err(e) => spec_read_result(ledger@, *c, accounts.greeting_account.address@) == Err::<
                ParsedRecord,
                RecordError,
            >(e),
        },
{
    match read(ledger, c, &accounts.greeting_account.address) {
        Ok(v) => Ok(GreetingAccount { message: v.payload, count: v.counter }),
        Err(e) => Err(e),
    }
}

} // verus!
