//! The model of the persistent store the handlers run against: stored
//! account bytes keyed by address, and the funded balances that pay for
//! allocation. Conflicting invocations are serialized outside this core;
//! here every handler is a single synchronous unit of work.

use vstd::prelude::*;

use crate::pubkey::{Pubkey, KEY_LEN};

verus! {

/// One stored account: a storage address and the raw record bytes
/// reserved there.
pub struct StoredAccount {
    pub address: Pubkey,
    pub data: Vec<u8>,
}

/// One funded identity and what it can still spend on allocations.
pub struct BalanceEntry {
    pub identity: Pubkey,
    pub amount: u64,
}

/// Mathematical image of a stored account.
#[verifier::ext_equal]
pub struct StoredAccountV {
    pub address: Seq<u8>,
    pub data: Seq<u8>,
}

/// Mathematical image of a balance entry.
#[verifier::ext_equal]
pub struct BalanceV {
    pub identity: Seq<u8>,
    pub amount: u64,
}

/// Mathematical image of the whole store.
#[verifier::ext_equal]
pub struct LedgerV {
    pub accounts: Seq<StoredAccountV>,
    pub balances: Seq<BalanceV>,
}

impl View for StoredAccount {
    type V = StoredAccountV;

    open spec fn view(&self) -> StoredAccountV {
        StoredAccountV { address: self.address@, data: self.data@ }
    }
}

impl View for BalanceEntry {
    type V = BalanceV;

    open spec fn view(&self) -> BalanceV {
        BalanceV { identity: self.identity@, amount: self.amount }
    }
}

/// The persistent store: every allocated account and every funded
/// balance.
pub struct Ledger {
    pub accounts: Vec<StoredAccount>,
    pub balances: Vec<BalanceEntry>,
}

impl View for Ledger {
    type V = LedgerV;

    open spec fn view(&self) -> LedgerV {
        LedgerV {
            accounts: self.accounts@.map_values(|a: StoredAccount| a@),
            balances: self.balances@.map_values(|b: BalanceEntry| b@),
        }
    }
}

/// Index of the first account stored at `addr`, or `-1` if the address
/// was never allocated.
pub open spec fn spec_find_account(accounts: Seq<StoredAccountV>, addr: Seq<u8>) -> int
    decreases accounts.len(),
{
    if accounts.len() == 0 {
        -1
    } else if accounts[0].address == addr {
        0
    } else {
        let rest = spec_find_account(accounts.drop_first(), addr);
        if rest == -1 {
            -1
        } else {
            rest + 1
        }
    }
}

/// Index of the first balance entry for `identity`, or `-1`.
pub open spec fn spec_find_balance(balances: Seq<BalanceV>, identity: Seq<u8>) -> int
    decreases balances.len(),
{
    if balances.len() == 0 {
        -1
    } else if balances[0].identity == identity {
        0
    } else {
        let rest = spec_find_balance(balances.drop_first(), identity);
        if rest == -1 {
            -1
        } else {
            rest + 1
        }
    }
}

/// What `identity` can spend: its balance entry, or nothing if it was
/// never funded.
pub open spec fn spec_balance_of(l: LedgerV, identity: Seq<u8>) -> int {
    let i = spec_find_balance(l.balances, identity);
    if i >= 0 {
        l.balances[i].amount as int
    } else {
        0
    }
}

/// The balances after `amount` leaves `identity`: its entry keeps its
/// place with the reduced amount; an identity that was never funded (a
/// zero debit) changes nothing.
pub open spec fn spec_debit_balances(balances: Seq<BalanceV>, identity: Seq<u8>, amount: u64) -> Seq<
    BalanceV,
> {
    let i = spec_find_balance(balances, identity);
    if i >= 0 {
        balances.update(
            i,
            BalanceV { identity, amount: (balances[i].amount - amount) as u64 },
        )
    } else {
        balances
    }
}

/// A store is well formed when no address and no identity occurs twice
/// and every key has its fixed width.
pub open spec fn ledger_wf(l: LedgerV) -> bool {
    &&& forall|i: int, j: int|
        0 <= i < j < l.accounts.len() ==> l.accounts[i].address != l.accounts[j].address
    &&& forall|i: int, j: int|
        0 <= i < j < l.balances.len() ==> l.balances[i].identity != l.balances[j].identity
    &&& forall|i: int| 0 <= i < l.accounts.len() ==> (#[trigger] l.accounts[i]).address.len() == KEY_LEN
    &&& forall|i: int| 0 <= i < l.balances.len() ==> (#[trigger] l.balances[i]).identity.len() == KEY_LEN
}

/// If the first `i` accounts miss `addr`, the find lands at `i` exactly
/// when `i` matches, and reports the address unallocated when the scan
/// ran off the end.
pub proof fn lemma_find_account_first(accounts: Seq<StoredAccountV>, addr: Seq<u8>, i: int)
    requires
        0 <= i <= accounts.len(),
        forall|j: int| 0 <= j < i ==> (#[trigger] accounts[j]).address != addr,
        i < accounts.len() ==> accounts[i].address == addr,
    ensures
        spec_find_account(accounts, addr) == if i == accounts.len() { -1 as int } else { i },
    decreases accounts.len(),
{
    if i == 0 {
    } else {
        assert(accounts[0].address != addr);
        let rest = accounts.drop_first();
        assert forall|j: int| 0 <= j < i - 1 implies (#[trigger] rest[j]).address != addr by {
            assert(rest[j] == accounts[j + 1]);
        }
        if i - 1 < rest.len() {
            assert(rest[i - 1] == accounts[i]);
        }
        lemma_find_account_first(rest, addr, i - 1);
    }
}

/// The balance-side counterpart of [`lemma_find_account_first`].
pub proof fn lemma_find_balance_first(balances: Seq<BalanceV>, identity: Seq<u8>, i: int)
    requires
        0 <= i <= balances.len(),
        forall|j: int| 0 <= j < i ==> (#[trigger] balances[j]).identity != identity,
        i < balances.len() ==> balances[i].identity == identity,
    ensures
        spec_find_balance(balances, identity) == if i == balances.len() { -1 as int } else { i },
    decreases balances.len(),
{
    if i == 0 {
    } else {
        assert(balances[0].identity != identity);
        let rest = balances.drop_first();
        assert forall|j: int| 0 <= j < i - 1 implies (#[trigger] rest[j]).identity != identity by {
            assert(rest[j] == balances[j + 1]);
        }
        if i - 1 < rest.len() {
            assert(rest[i - 1] == balances[i]);
        }
        lemma_find_balance_first(rest, identity, i - 1);
    }
}

/// Wherever the find lands, it lands on a match within bounds,
/// everything before it misses, and a miss means no account matches.
pub proof fn lemma_find_account_props(accounts: Seq<StoredAccountV>, addr: Seq<u8>)
    ensures
        spec_find_account(accounts, addr) == -1 || (0 <= spec_find_account(accounts, addr)
            < accounts.len() && accounts[spec_find_account(accounts, addr)].address == addr),
        spec_find_account(accounts, addr) == -1 ==> forall|i: int|
            0 <= i < accounts.len() ==> (#[trigger] accounts[i]).address != addr,
        forall|i: int|
            0 <= i < spec_find_account(accounts, addr) ==> (#[trigger] accounts[i]).address
                != addr,
    decreases accounts.len(),
{
    if accounts.len() > 0 && accounts[0].address != addr {
        let rest = accounts.drop_first();
        lemma_find_account_props(rest, addr);
        assert forall|i: int| 0 <= i < rest.len() implies rest[i] == accounts[i + 1] by {}
        assert forall|i: int|
            spec_find_account(accounts, addr) == -1 && 0 <= i
                < accounts.len() implies (#[trigger] accounts[i]).address != addr by {
            if i > 0 {
                assert(rest[i - 1] == accounts[i]);
            }
        }
        assert forall|i: int|
            0 <= i < spec_find_account(accounts, addr) implies (#[trigger] accounts[i]).address
                != addr by {
            if i > 0 {
                assert(rest[i - 1] == accounts[i]);
            }
        }
    }
}

/// The balance-side counterpart of [`lemma_find_account_props`].
pub proof fn lemma_find_balance_props(balances: Seq<BalanceV>, identity: Seq<u8>)
    ensures
        spec_find_balance(balances, identity) == -1 || (0 <= spec_find_balance(balances, identity)
            < balances.len() && balances[spec_find_balance(balances, identity)].identity
            == identity),
        spec_find_balance(balances, identity) == -1 ==> forall|i: int|
            0 <= i < balances.len() ==> (#[trigger] balances[i]).identity != identity,
        forall|i: int|
            0 <= i < spec_find_balance(balances, identity) ==> (#[trigger] balances[i]).identity
                != identity,
    decreases balances.len(),
{
    if balances.len() > 0 && balances[0].identity != identity {
        let rest = balances.drop_first();
        lemma_find_balance_props(rest, identity);
        assert forall|i: int| 0 <= i < rest.len() implies rest[i] == balances[i + 1] by {}
        assert forall|i: int|
            spec_find_balance(balances, identity) == -1 && 0 <= i
                < balances.len() implies (#[trigger] balances[i]).identity != identity by {
            if i > 0 {
                assert(rest[i - 1] == balances[i]);
            }
        }
        assert forall|i: int|
            0 <= i < spec_find_balance(balances, identity) implies (#[trigger] balances[i]).identity
                != identity by {
            if i > 0 {
                assert(rest[i - 1] == balances[i]);
            }
        }
    }
}

impl Ledger {
    /// An empty store: nothing allocated, nothing funded.
    pub fn new() -> (l: Ledger)
        ensures
            l@.accounts.len() == 0,
            l@.balances.len() == 0,
            ledger_wf(l@),
    {
        Ledger { accounts: Vec::new(), balances: Vec::new() }
    }

    /// Index of the account stored at `addr`, if any.
    pub fn find_account_index(&self, addr: &Pubkey) -> (found: Option<usize>)
        ensures
            match found {
                Some(i) => spec_find_account(self@.accounts, addr@) == i && i
                    < self@.accounts.len(),
                None => spec_find_account(self@.accounts, addr@) == -1,
            },
    {
        let mut i: usize = 0;
        while i < self.accounts.len()
            invariant
                i <= self@.accounts.len(),
                self@.accounts.len() == self.accounts@.len(),
                forall|j: int| 0 <= j < i ==> (#[trigger] self@.accounts[j]).address != addr@,
            decreases self@.accounts.len() - i,
        {
            if self.accounts[i].address.equals(addr) {
                proof {
                    lemma_find_account_first(self@.accounts, addr@, i as int);
                }
                return Some(i);
            }
            i = i + 1;
        }
        proof {
            lemma_find_account_first(self@.accounts, addr@, i as int);
        }
        None
    }

    /// Index of the balance entry for `identity`, if any.
    pub fn find_balance_index(&self, identity: &Pubkey) -> (found: Option<usize>)
        ensures
            match found {
                Some(i) => spec_find_balance(self@.balances, identity@) == i && i
                    < self@.balances.len(),
                None => spec_find_balance(self@.balances, identity@) == -1,
            },
    {
        let mut i: usize = 0;
        while i < self.balances.len()
            invariant
                i <= self@.balances.len(),
                self@.balances.len() == self.balances@.len(),
                forall|j: int| 0 <= j < i ==> (#[trigger] self@.balances[j]).identity != identity@,
            decreases self@.balances.len() - i,
        {
            if self.balances[i].identity.equals(identity) {
                proof {
                    lemma_find_balance_first(self@.balances, identity@, i as int);
                }
                return Some(i);
            }
            i = i + 1;
        }
        proof {
            lemma_find_balance_first(self@.balances, identity@, i as int);
        }
        None
    }

    /// Funds `identity` with `amount` more to spend on allocations. This
    /// stands for the host's deposit path; allocation only ever debits.
    pub fn credit(&mut self, identity: &Pubkey, amount: u64)
        requires
            identity.wf(),
            ledger_wf(old(self)@),
            spec_balance_of(old(self)@, identity@) + amount <= u64::MAX,
        ensures
            ledger_wf(final(self)@),
            final(self)@.accounts == old(self)@.accounts,
            spec_balance_of(final(self)@, identity@) == spec_balance_of(old(self)@, identity@)
                + amount,
            forall|other: Seq<u8>|
                other != identity@ ==> spec_balance_of(final(self)@, other) == spec_balance_of(
                    old(self)@,
                    other,
                ),
    {
        proof {
            lemma_find_balance_props(self@.balances, identity@);
        }
        match self.find_balance_index(identity) {
            Some(i) => {
                proof {
                    assert(old(self)@.balances[i as int].identity == identity@);
                }
                let entry = self.balances.remove(i);
                proof {
                    assert(entry@ == old(self)@.balances[i as int]);
                    assert(spec_balance_of(old(self)@, identity@) == entry.amount);
                }
                let new_amount = entry.amount + amount;
                self.balances.insert(i, BalanceEntry { identity: entry.identity, amount: new_amount });
                proof {
                    balance_update_post(old(self)@, self@, identity@, i as int, new_amount);
                }
            },
            None => {
                self.balances.push(BalanceEntry { identity: identity.duplicate(), amount });
                proof {
                    balance_push_post(old(self)@, self@, identity@, amount);
                }
            },
        }
    }

    /// Takes `amount` back out of `identity`'s balance; the allocation
    /// cost leaving the funder.
    pub fn debit(&mut self, identity: &Pubkey, amount: u64)
        requires
            ledger_wf(old(self)@),
            spec_balance_of(old(self)@, identity@) >= amount,
        ensures
            ledger_wf(final(self)@),
            final(self)@.accounts == old(self)@.accounts,
            final(self)@.balances == spec_debit_balances(old(self)@.balances, identity@, amount),
            spec_balance_of(final(self)@, identity@) == spec_balance_of(old(self)@, identity@)
                - amount,
            forall|other: Seq<u8>|
                other != identity@ ==> spec_balance_of(final(self)@, other) == spec_balance_of(
                    old(self)@,
                    other,
                ),
    {
        proof {
            lemma_find_balance_props(self@.balances, identity@);
        }
        match self.find_balance_index(identity) {
            Some(i) => {
                proof {
                    assert(old(self)@.balances[i as int].identity == identity@);
                }
                let entry = self.balances.remove(i);
                proof {
                    assert(entry@ == old(self)@.balances[i as int]);
                    assert(spec_balance_of(old(self)@, identity@) == entry.amount);
                }
                let new_amount = entry.amount - amount;
                self.balances.insert(i, BalanceEntry { identity: entry.identity, amount: new_amount });
                proof {
                    assert(self@.balances =~= spec_debit_balances(
                        old(self)@.balances,
                        identity@,
                        amount,
                    ));
                    balance_update_post(old(self)@, self@, identity@, i as int, new_amount);
                }
            },
            None => {
                // A missing entry holds nothing, so only a zero debit
                // reaches this arm and there is nothing to change.
            },
        }
    }
}

/// One address's find survives an in-place rewrite at `at` that keeps
/// the address there.
proof fn lemma_account_update_keeps_find_one(
    before: Seq<StoredAccountV>,
    after: Seq<StoredAccountV>,
    at: int,
    addr: Seq<u8>,
)
    requires
        0 <= at < before.len(),
        after.len() == before.len(),
        forall|i: int| 0 <= i < before.len() && i != at ==> after[i] == before[i],
        after[at].address == before[at].address,
    ensures
        spec_find_account(after, addr) == spec_find_account(before, addr),
    decreases before.len(),
{
    assert(after[0].address == before[0].address);
    if before[0].address != addr {
        let brest = before.drop_first();
        let arest = after.drop_first();
        if at == 0 {
            assert(arest =~= brest);
        } else {
            assert forall|i: int|
                0 <= i < brest.len() && i != at - 1 implies arest[i] == brest[i] by {
                assert(arest[i] == after[i + 1]);
                assert(brest[i] == before[i + 1]);
            }
            assert(arest[at - 1].address == brest[at - 1].address);
            lemma_account_update_keeps_find_one(brest, arest, at - 1, addr);
        }
        assert(spec_find_account(after, addr) == spec_find_account(before, addr));
    }
}

/// Rewriting one stored account in place, address kept, leaves every
/// find where it was.
pub proof fn lemma_account_update_keeps_find(
    before: Seq<StoredAccountV>,
    after: Seq<StoredAccountV>,
    at: int,
)
    requires
        0 <= at < before.len(),
        after.len() == before.len(),
        forall|i: int| 0 <= i < before.len() && i != at ==> after[i] == before[i],
        after[at].address == before[at].address,
    ensures
        forall|addr: Seq<u8>| spec_find_account(after, addr) == spec_find_account(before, addr),
{
    assert forall|addr: Seq<u8>|
        spec_find_account(after, addr) == spec_find_account(before, addr) by {
        lemma_account_update_keeps_find_one(before, after, at, addr);
    }
}

/// Appending an account at a previously unallocated address lands its
/// find at the end and leaves every other address's find where it was.
pub proof fn lemma_account_push_find(
    before: Seq<StoredAccountV>,
    after: Seq<StoredAccountV>,
    fresh: Seq<u8>,
)
    requires
        spec_find_account(before, fresh) == -1,
        after.len() == before.len() + 1,
        forall|i: int| 0 <= i < before.len() ==> after[i] == before[i],
        after[before.len() as int].address == fresh,
    ensures
        spec_find_account(after, fresh) == before.len(),
        forall|addr: Seq<u8>|
            addr != fresh ==> spec_find_account(after, addr) == spec_find_account(before, addr),
{
    lemma_find_account_props(before, fresh);
    assert forall|j: int| 0 <= j < before.len() implies (#[trigger] after[j]).address != fresh by {
        assert(after[j] == before[j]);
    }
    lemma_find_account_first(after, fresh, before.len() as int);
    assert forall|addr: Seq<u8>|
        addr != fresh implies spec_find_account(after, addr) == spec_find_account(
        before,
        addr,
    ) by {
        lemma_find_account_props(before, addr);
        let f = spec_find_account(before, addr);
        if f == -1 {
            assert forall|j: int| 0 <= j < after.len() implies (#[trigger] after[j]).address
                != addr by {
                if j < before.len() {
                    assert(after[j] == before[j]);
                }
            }
            lemma_find_account_first(after, addr, after.len() as int);
        } else {
            assert forall|j: int| 0 <= j < f implies (#[trigger] after[j]).address != addr by {
                assert(after[j] == before[j]);
            }
            assert(after[f] == before[f]);
            lemma_find_account_first(after, addr, f);
        }
    }
}

/// What holds of the store after a balance entry is rewritten in place:
/// well-formedness survives, the rewritten identity holds the new
/// amount, and every other balance is untouched.
proof fn balance_update_post(
    before: LedgerV,
    after: LedgerV,
    identity: Seq<u8>,
    at: int,
    new_amount: u64,
)
    requires
        ledger_wf(before),
        0 <= at < before.balances.len(),
        spec_find_balance(before.balances, identity) == at,
        before.balances[at].identity == identity,
        after.accounts == before.accounts,
        after.balances.len() == before.balances.len(),
        forall|k: int|
            0 <= k < before.balances.len() && k != at ==> #[trigger] after.balances[k]
                == before.balances[k],
        after.balances[at] == (BalanceV { identity, amount: new_amount }),
    ensures
        ledger_wf(after),
        spec_balance_of(after, identity) == new_amount,
        forall|other: Seq<u8>|
            other != identity ==> spec_balance_of(after, other) == spec_balance_of(before, other),
{
    lemma_balance_update_keeps_find(before.balances, after.balances, at);
    assert forall|k: int|
        0 <= k < after.balances.len() implies (#[trigger] after.balances[k]).identity
        == before.balances[k].identity by {}
    assert(ledger_wf(after));
    assert(spec_balance_of(after, identity) == new_amount);
    assert forall|other: Seq<u8>|
        other != identity implies spec_balance_of(after, other) == spec_balance_of(
        before,
        other,
    ) by {
        lemma_find_balance_props(before.balances, other);
        let f = spec_find_balance(before.balances, other);
        if f >= 0 {
            assert(before.balances[f].identity == other);
            assert(f != at);
        }
    }
}

/// What holds of the store after a fresh identity's balance entry is
/// appended: well-formedness survives, the fresh identity holds exactly
/// the deposit, and every other balance is untouched.
proof fn balance_push_post(before: LedgerV, after: LedgerV, identity: Seq<u8>, amount: u64)
    requires
        ledger_wf(before),
        identity.len() == KEY_LEN,
        spec_find_balance(before.balances, identity) == -1,
        after.accounts == before.accounts,
        after.balances.len() == before.balances.len() + 1,
        forall|k: int|
            0 <= k < before.balances.len() ==> #[trigger] after.balances[k] == before.balances[k],
        after.balances[before.balances.len() as int] == (BalanceV { identity, amount }),
    ensures
        ledger_wf(after),
        spec_balance_of(before, identity) == 0,
        spec_balance_of(after, identity) == amount,
        forall|other: Seq<u8>|
            other != identity ==> spec_balance_of(after, other) == spec_balance_of(before, other),
{
    lemma_balance_push_keeps_find(before.balances, after.balances, identity);
    lemma_find_balance_props(before.balances, identity);
    assert forall|i: int, j: int|
        0 <= i < j < after.balances.len() implies (#[trigger] after.balances[i]).identity
        != (#[trigger] after.balances[j]).identity by {
        if j < before.balances.len() {
            assert(after.balances[i] == before.balances[i]);
            assert(after.balances[j] == before.balances[j]);
        } else {
            assert(after.balances[i] == before.balances[i]);
            assert(before.balances[i].identity != identity);
        }
    }
    assert(ledger_wf(after));
    assert forall|other: Seq<u8>|
        other != identity implies spec_balance_of(after, other) == spec_balance_of(
        before,
        other,
    ) by {
        lemma_find_balance_props(before.balances, other);
        let f = spec_find_balance(before.balances, other);
        if f >= 0 {
            assert(after.balances[f] == before.balances[f]);
        }
    }
}

/// Updating a balance entry in place leaves every find where it was.
proof fn lemma_balance_update_keeps_find(
    before: Seq<BalanceV>,
    after: Seq<BalanceV>,
    at: int,
)
    requires
        0 <= at < before.len(),
        after.len() == before.len(),
        forall|i: int| 0 <= i < before.len() && i != at ==> after[i] == before[i],
        after[at].identity == before[at].identity,
    ensures
        forall|id: Seq<u8>| spec_find_balance(after, id) == spec_find_balance(before, id),
{
    assert forall|id: Seq<u8>|
        spec_find_balance(after, id) == spec_find_balance(before, id) by {
        lemma_balance_update_keeps_find_one(before, after, at, id);
    }
}

/// One identity's find survives an in-place rewrite at `at`.
proof fn lemma_balance_update_keeps_find_one(
    before: Seq<BalanceV>,
    after: Seq<BalanceV>,
    at: int,
    id: Seq<u8>,
)
    requires
        0 <= at < before.len(),
        after.len() == before.len(),
        forall|i: int| 0 <= i < before.len() && i != at ==> after[i] == before[i],
        after[at].identity == before[at].identity,
    ensures
        spec_find_balance(after, id) == spec_find_balance(before, id),
    decreases before.len(),
{
    assert(after[0].identity == before[0].identity);
    if before[0].identity != id {
        let brest = before.drop_first();
        let arest = after.drop_first();
        if at == 0 {
            assert(arest =~= brest);
        } else {
            assert forall|i: int|
                0 <= i < brest.len() && i != at - 1 implies arest[i] == brest[i] by {
                assert(arest[i] == after[i + 1]);
                assert(brest[i] == before[i + 1]);
            }
            assert(arest[at - 1].identity == brest[at - 1].identity);
            lemma_balance_update_keeps_find_one(brest, arest, at - 1, id);
        }
        assert(spec_find_balance(after, id) == spec_find_balance(before, id));
    }
}

/// Appending a fresh identity leaves every other find where it was, and
/// lands the fresh identity at the end.
proof fn lemma_balance_push_keeps_find(
    before: Seq<BalanceV>,
    after: Seq<BalanceV>,
    fresh: Seq<u8>,
)
    requires
        spec_find_balance(before, fresh) == -1,
        after.len() == before.len() + 1,
        forall|i: int| 0 <= i < before.len() ==> after[i] == before[i],
        after[before.len() as int].identity == fresh,
    ensures
        spec_find_balance(after, fresh) == before.len(),
        forall|id: Seq<u8>|
            id != fresh ==> spec_find_balance(after, id) == if spec_find_balance(before, id) == -1 {
                -1 as int
            } else {
                spec_find_balance(before, id)
            },
    decreases before.len(),
{
    lemma_find_balance_props(before, fresh);
    assert forall|j: int| 0 <= j < before.len() implies (#[trigger] after[j]).identity != fresh by {
        assert(after[j] == before[j]);
    }
    lemma_find_balance_first(after, fresh, before.len() as int);
    assert forall|id: Seq<u8>|
        id != fresh implies spec_find_balance(after, id) == if spec_find_balance(before, id) == -1 {
            -1 as int
        } else {
            spec_find_balance(before, id)
        } by {
        lemma_find_balance_props(before, id);
        if spec_find_balance(before, id) == -1 {
            assert forall|j: int|
                0 <= j < after.len() implies (#[trigger] after[j]).identity != id by {
                if j < before.len() {
                    assert(after[j] == before[j]);
                }
            }
            lemma_find_balance_first(after, id, after.len() as int);
        } else {
            let at = spec_find_balance(before, id);
            assert forall|j: int| 0 <= j < at implies (#[trigger] after[j]).identity != id by {
                assert(after[j] == before[j]);
            }
            assert(after[at] == before[at]);
            lemma_find_balance_first(after, id, at);
        }
    }
}

} // verus!
