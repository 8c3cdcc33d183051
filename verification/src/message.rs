//! The message-board record type: a sender identity and a bounded
//! message, no counter, mutation gated on the signing owner. The record
//! is created by `send_message`; `initialize` sets nothing up and only
//! acknowledges the deployment.

use vstd::prelude::*;

use crate::errors::RecordError;
use crate::handlers::{
    allocate, read, spec_allocate_post, spec_allocate_result, spec_read_result, AccountRef,
};
use crate::layout::{ParsedRecord, RecordConfig};
use crate::ledger::{ledger_wf, Ledger};
use crate::pubkey::Pubkey;

verus! {

/// Declared maximum message length, part of the format contract.
pub const MESSAGE_MAX_LEN: usize = 280;

/// The discriminator tag of message records.
pub open spec fn spec_message_discriminator() -> Seq<u8> {
    seq![109u8, 115u8, 103u8, 114u8, 101u8, 99u8, 114u8, 100u8]
}

/// Whether `c` is the message-board record type: the message
/// discriminator, the declared maximum, no counter, owner-gated
/// mutation.
pub open spec fn is_message_config(c: RecordConfig) -> bool {
    &&& c.discriminator@ == spec_message_discriminator()
    &&& c.max_payload_len == MESSAGE_MAX_LEN
    &&& !c.has_counter
    &&& c.enforce_owner
}

/// Builds the message-board record type configuration.
pub fn message_config() -> (c: RecordConfig)
    ensures
        c.wf(),
        is_message_config(c),
{
    let mut discriminator: Vec<u8> = Vec::new();
    discriminator.push(109);
    discriminator.push(115);
    discriminator.push(103);
    discriminator.push(114);
    discriminator.push(101);
    discriminator.push(99);
    discriminator.push(114);
    discriminator.push(100);
    proof {
        assert(discriminator@ =~= spec_message_discriminator());
    }
    RecordConfig {
        discriminator,
        max_payload_len: MESSAGE_MAX_LEN,
        has_counter: false,
        enforce_owner: true,
    }
}

/// A message record as read back: who sent it and what it says.
pub struct MessageAccount {
    pub sender: Pubkey,
    pub message: Vec<u8>,
}

/// Account roles of `initialize`: none; the call touches no record.
pub struct Initialize {}

/// Account roles of `send_message`: the record account to allocate, and
/// the signing user who pays and becomes the sender.
pub struct SendMessage {
    pub message_account: AccountRef,
    pub user: AccountRef,
}

/// Deployment acknowledgement: allocates nothing, touches nothing, and
/// always succeeds.
pub fn initialize(_accounts: &Initialize) -> (r: Result<(), RecordError>)
    ensures
        r is Ok,
{
    Ok(())
}

/// Allocates the message record: the user signs and pays, becomes the
/// sender, and the message is stored, rejected with `PayloadTooLong`
/// beyond the declared maximum rather than truncated.
pub fn send_message(
    ledger: &mut Ledger,
    c: &RecordConfig,
    accounts: &SendMessage,
    message: Vec<u8>,
    cost: u64,
) -> (r: Result<(), RecordError>)
    requires
        c.wf(),
        is_message_config(*c),
        accounts.message_account.wf(),
        accounts.user.wf(),
        ledger_wf(old(ledger)@),
    ensures
        ledger_wf(final(ledger)@),
        r == spec_allocate_result(
            old(ledger)@,
            *c,
            accounts.message_account.address@,
            accounts.user.address@,
            accounts.user.is_signer,
            message@,
            cost,
        ),
        r is Ok ==> final(ledger)@ == spec_allocate_post(
            old(ledger)@,
            *c,
            accounts.message_account.address@,
            accounts.user.address@,
            message@,
            cost,
        ),
        r is Err ==> final(ledger)@ == old(ledger)@,
{
    allocate(ledger, c, &accounts.message_account, &accounts.user, message, cost)
}

/// Reads a message record back: the stored sender and message, exactly
/// as allocated or last mutated.
pub fn read_message(ledger: &Ledger, c: &RecordConfig, address: &Pubkey) -> (r: Result<
    MessageAccount,
    RecordError,
>)
    requires
        c.wf(),
        is_message_config(*c),
    ensures
        match r {
            Ok(m) => spec_read_result(ledger@, *c, address@) == Ok::<ParsedRecord, RecordError>(
                ParsedRecord { owner: m.sender@, payload: m.message@, counter: 0 },
            ),
            Err(e) => spec_read_result(ledger@, *c, address@) == Err::<ParsedRecord, RecordError>(
                e,
            ),
        },
{
    match read(ledger, c, address) {
        Ok(v) => Ok(MessageAccount { sender: v.owner, message: v.payload }),
        Err(e) => Err(e),
    }
}

} // verus!
