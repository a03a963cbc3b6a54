//! The token context: the supply constant, the burned-token counter, the registry and
//! the ledger, owned together and mutated only through the operations here.
//! Every operation preserves well-formedness, and well-formedness carries the
//! conservation invariant: the circulating balances and the burned tokens
//! together always equal the supply fixed at genesis.

use crate::errors::TokenError;
use crate::events::Event;
use crate::ids::AccountId;
use crate::ledger::Ledger;
use crate::ledger::transfer_error;
use crate::meter::storage_cost;
use crate::meter::storage_cost_spec;
use crate::registry::AccountRegistry;
use crate::escrow::settle_spec;
use crate::escrow::Settlement;
use vstd::prelude::*;

verus! {

/// What the receiver of a transfer-and-call answered when asked how much of
/// the transferred amount it left unused.
#[derive(Clone, Copy, Debug, PartialEq, Eq, Structural)]
pub enum CallbackOutcome {
    /// The receiver failed before answering; treated as full rejection.
    Trapped,
    /// The receiver reported this many tokens as unused; an answer above the
    /// transferred amount is clamped down to it.
    Returned(u128),
}

/// Where a transfer-and-call stands in its two-phase exchange.
#[derive(Clone, Copy, Debug, PartialEq, Eq, Structural)]
pub enum TransferPhase {
    /// Transferred; the receiver has not answered yet.
    Pending,
    /// The receiver kept everything that was not already returned.
    Confirmed,
    /// The full amount went back to the sender.
    Reversed,
    /// Part of the amount went back to the sender.
    PartiallyReversed,
}

/// The durably recorded first phase of a transfer-and-call: the transfer has
/// been applied, and these values — not the live ledger — identify what the
/// settlement may later reverse.
pub struct PendingTransfer {
    pub sender: AccountId,
    pub receiver: AccountId,
    pub amount: u128,
}

/// What a successful registration settled to.
pub struct RegisterReceipt {
    /// The value held as the account's storage bond.
    pub bond: u128,
    /// The attached value beyond the bond, owed back to the caller.
    pub refund: u128,
}

/// What an unregistration settled to.
pub struct UnregisterReceipt {
    /// The released bond, owed back to the account holder.
    pub bond_refund: u128,
    /// The balance the account held just before it was closed.
    pub closed_balance: u128,
    /// The notifications the close emitted, in order.
    pub events: Vec<Event>,
}

/// What the second phase of a transfer-and-call settled to.
pub struct ResolveReceipt {
    /// How much of the transferred amount the receiver kept.
    pub used: u128,
    /// The phase the exchange ended in.
    pub phase: TransferPhase,
    /// The notifications the settlement emitted.
    pub events: Vec<Event>,
}

/// The number of tokens a settlement treats as unused: the receiver's answer,
/// clamped to the transferred amount, and the full amount if the receiver
/// trapped.
pub open spec fn clamp_unused(outcome: CallbackOutcome, amount: u128) -> u128 {
    match outcome {
        CallbackOutcome::Trapped => amount,
        CallbackOutcome::Returned(u) => if u > amount {
            amount
        } else {
            u
        },
    }
}

/// The token context.
pub struct Token {
    total_supply: u128,
    burned: u128,
    account_storage_bytes: u64,
    registry: AccountRegistry,
    ledger: Ledger,
}

impl Token {
    /// The supply fixed at genesis.
    pub closed spec fn supply(self) -> u128 {
        self.total_supply
    }

    /// Tokens removed from circulation so far.
    pub closed spec fn burned_total(self) -> u128 {
        self.burned
    }

    /// The balance of each registered account.
    pub closed spec fn balances(self) -> Map<Seq<u8>, u128> {
        self.ledger@
    }

    /// The bond held for each registered account.
    pub closed spec fn bonds(self) -> Map<Seq<u8>, u128> {
        self.registry@
    }

    /// The sum of all registered balances.
    pub closed spec fn circulating(self) -> int {
        self.ledger.total()
    }

    /// The bytes of persistent storage one ledger entry consumes.
    pub closed spec fn entry_bytes(self) -> u64 {
        self.account_storage_bytes
    }

    /// The bond a registration must deposit: the storage its ledger entry
    /// consumes, at the fixed price per byte.
    pub closed spec fn min_bond_spec(self) -> int {
        storage_cost_spec(self.account_storage_bytes)
    }

    /// Whether `id` is registered.
    pub open spec fn registered(self, id: Seq<u8>) -> bool {
        self.balances().dom().contains(id)
    }

    /// Well-formed: the two tables are well-formed, cover exactly the same
    /// identities, every bond equals the registration bond, and circulating
    /// balances plus burned tokens equal the supply.
    pub closed spec fn wf(self) -> bool {
        &&& self.ledger.wf()
        &&& self.registry.wf()
        &&& self.ledger@.dom() == self.registry@.dom()
        &&& self.ledger.total() + self.burned == self.total_supply
        &&& forall|k: Seq<u8>|
            self.registry@.dom().contains(k) ==> (#[trigger] self.registry@[k])
                == self.min_bond_spec()
    }

    /// Initializes the token: the whole supply sits with `owner`, the one
    /// account registered at genesis, and nothing is burned.
    pub fn genesis(owner: AccountId, total_supply: u128, account_storage_bytes: u64) -> (r: Token)
        ensures
            r.wf(),
            r.supply() == total_supply,
            r.burned_total() == 0,
            r.balances() == Map::<Seq<u8>, u128>::empty().insert(owner@, total_supply),
            r.min_bond_spec() == storage_cost_spec(account_storage_bytes),
    {
        let mut ledger = Ledger::new();
        let mut registry = AccountRegistry::new();
        let bond = storage_cost(account_storage_bytes);
        let owner_ref = owner.duplicate();
        registry.record(owner.duplicate(), bond);
        ledger.create_account(owner);
        ledger.credit(&owner_ref, total_supply);
        let r = Token { total_supply, burned: 0, account_storage_bytes, registry, ledger };
        proof {
            assert(r.balances() =~= Map::<Seq<u8>, u128>::empty().insert(owner_ref@, total_supply));
            assert(r.ledger@.dom() =~= r.registry@.dom());
        }
        r
    }

    /// The supply fixed at genesis. A pure read.
    pub fn total_supply(&self) -> (r: u128)
        ensures
            r == self.supply(),
    {
        self.total_supply
    }

    /// Tokens removed from circulation so far. A pure read.
    pub fn burned_amount(&self) -> (r: u128)
        ensures
            r == self.burned_total(),
    {
        self.burned
    }

    /// The bond a registration must deposit.
    pub fn min_bond(&self) -> (r: u128)
        ensures
            r == self.min_bond_spec(),
    {
        storage_cost(self.account_storage_bytes)
    }

    /// The bond range a registration may be asked for: the minimum and the
    /// maximum coincide, since every ledger entry consumes the same storage.
    pub fn storage_bounds(&self) -> (r: (u128, u128))
        ensures
            r.0 == self.min_bond_spec(),
            r.1 == self.min_bond_spec(),
    {
        let b = storage_cost(self.account_storage_bytes);
        (b, b)
    }

    /// Whether `id` is registered. A pure read; never fails.
    pub fn is_registered(&self, id: &AccountId) -> (r: bool)
        requires
            self.wf(),
        ensures
            r == self.registered(id@),
    {
        self.ledger.contains(id)
    }

    /// The balance of `id`; rejected with `NotRegistered` if `id` is not
    /// registered. A pure read.
    pub fn balance_of(&self, id: &AccountId) -> (r: Result<u128, TokenError>)
        requires
            self.wf(),
        ensures
            self.registered(id@) ==> r == Ok::<u128, TokenError>(self.balances()[id@]),
            !self.registered(id@) ==> r == Err::<u128, TokenError>(TokenError::NotRegistered),
    {
        self.ledger.balance_of(id)
    }

    /// What a completed registration of `id` against `attached` value settled
    /// to: a zero balance and a bond of exactly the minimum were created, and
    /// the attachment beyond the bond stands in the receipt as the refund.
    pub open spec fn register_ok(
        pre: Token,
        post: Token,
        id: Seq<u8>,
        attached: u128,
        rec: RegisterReceipt,
    ) -> bool {
        &&& rec.bond == pre.min_bond_spec()
        &&& rec.refund == attached - pre.min_bond_spec()
        &&& post.balances() == pre.balances().insert(id, 0)
        &&& post.bonds() == pre.bonds().insert(id, pre.min_bond_spec() as u128)
        &&& post.circulating() == pre.circulating()
    }

    /// Registers `id` against `attached` value: the registration bond is
    /// taken from the attachment and the rest is owed back to the caller.
    /// Rejected with `AlreadyRegistered` for a registered identity and with
    /// `InsufficientDeposit` when the attachment does not cover the bond (the
    /// whole attachment is then owed back); a rejected call changes nothing.
    pub fn register(&mut self, id: &AccountId, attached: u128) -> (r: Result<
        RegisterReceipt,
        TokenError,
    >)
        requires
            old(self).wf(),
        ensures
            final(self).wf(),
            final(self).supply() == old(self).supply(),
            final(self).burned_total() == old(self).burned_total(),
            final(self).min_bond_spec() == old(self).min_bond_spec(),
            old(self).registered(id@) ==> (r matches Err(e) && e == TokenError::AlreadyRegistered
                && *final(self) == *old(self)),
            !old(self).registered(id@) && attached < old(self).min_bond_spec() ==> (r matches Err(e)
                && e == TokenError::InsufficientDeposit && *final(self) == *old(self)),
            !old(self).registered(id@) && attached >= old(self).min_bond_spec() ==> (r matches Ok(
                rec,
            ) && Token::register_ok(*old(self), *final(self), id@, attached, rec)),
    {
        if self.ledger.contains(id) {
            return Err(TokenError::AlreadyRegistered);
        }
        let bond = storage_cost(self.account_storage_bytes);
        if attached < bond {
            return Err(TokenError::InsufficientDeposit);
        }
        self.registry.record(id.duplicate(), bond);
        self.ledger.create_account(id.duplicate());
        proof {
            assert(self.ledger@.dom() =~= self.registry@.dom());
        }
        Ok(RegisterReceipt { bond, refund: attached - bond })
    }

    /// What a completed unregistration of `id` settled to: both tables drop
    /// the account, the pre-close balance is burned, the released bond and
    /// the pre-close balance stand in the receipt, and the notifications are
    /// emitted in order — the burn first when one is due, then the close.
    pub open spec fn unregister_ok(
        pre: Token,
        post: Token,
        id: Seq<u8>,
        rec: UnregisterReceipt,
    ) -> bool {
        &&& rec.bond_refund == pre.min_bond_spec()
        &&& rec.closed_balance == pre.balances()[id]
        &&& post.balances() == pre.balances().remove(id)
        &&& post.bonds() == pre.bonds().remove(id)
        &&& post.burned_total() == pre.burned_total() + pre.balances()[id]
        &&& (pre.balances()[id] > 0 ==> {
            &&& rec.events@.len() == 2
            &&& (rec.events@[0] matches Event::TokensBurned { id: bid, amount } && bid@ == id
                && amount == pre.balances()[id])
            &&& (rec.events@[1] matches Event::AccountClosed { id: cid, balance } && cid@ == id
                && balance == pre.balances()[id])
        })
        &&& (pre.balances()[id] == 0 ==> {
            &&& rec.events@.len() == 1
            &&& (rec.events@[0] matches Event::AccountClosed { id: cid, balance } && cid@ == id
                && balance == 0)
        })
    }

    /// Unregisters `id`. Rejected with `NotRegistered` for an unknown
    /// identity; without `force`, rejected with `BalanceNotEmpty` while the
    /// balance is non-zero, protecting the holder from accidental loss. A
    /// forced close first burns the remaining balance — reported by a
    /// `TokensBurned` event — and then closes the account, reported by an
    /// `AccountClosed` event carrying the pre-close balance; the burn event,
    /// when one is due, comes first. The released bond is owed back to the
    /// holder. A rejected call changes nothing.
    pub fn unregister(&mut self, id: &AccountId, force: bool) -> (r: Result<
        UnregisterReceipt,
        TokenError,
    >)
        requires
            old(self).wf(),
        ensures
            final(self).wf(),
            final(self).supply() == old(self).supply(),
            final(self).min_bond_spec() == old(self).min_bond_spec(),
            !old(self).registered(id@) ==> (r matches Err(e) && e == TokenError::NotRegistered
                && *final(self) == *old(self)),
            old(self).registered(id@) && !force && old(self).balances()[id@] > 0 ==> (r matches Err(
                e,
            ) && e == TokenError::BalanceNotEmpty && *final(self) == *old(self)),
            old(self).registered(id@) && (force || old(self).balances()[id@] == 0) ==> (r matches
                Ok(rec) && Token::unregister_ok(*old(self), *final(self), id@, rec)),
    {
        let balance = match self.ledger.balance_of(id) {
            Ok(b) => b,
            Err(e) => {
                return Err(e);
            },
        };
        if !force && balance > 0 {
            return Err(TokenError::BalanceNotEmpty);
        }
        proof {
            self.ledger.lemma_balance_le_total(id@);
            self.ledger.lemma_total_nonneg();
        }
        let closed = self.ledger.drop_account(id);
        let bond = self.registry.release(id);
        self.burned = self.burned + closed;
        let mut events: Vec<Event> = Vec::new();
        if closed > 0 {
            events.push(Event::TokensBurned { id: id.duplicate(), amount: closed });
        }
        events.push(Event::AccountClosed { id: id.duplicate(), balance: closed });
        proof {
            assert(self.ledger@.dom() =~= self.registry@.dom());
        }
        Ok(UnregisterReceipt { bond_refund: bond, closed_balance: closed, events })
    }

    /// Moves `amount` from `from` to `to` in one atomic step. Rejected, with
    /// nothing changed, exactly as `transfer_error` says: a self-transfer, a
    /// zero amount, an unregistered party, or an uncovered amount.
    pub fn transfer(&mut self, from: &AccountId, to: &AccountId, amount: u128) -> (r: Result<
        (),
        TokenError,
    >)
        requires
            old(self).wf(),
        ensures
            final(self).wf(),
            final(self).supply() == old(self).supply(),
            final(self).burned_total() == old(self).burned_total(),
            final(self).min_bond_spec() == old(self).min_bond_spec(),
            final(self).bonds() == old(self).bonds(),
            transfer_error(old(self).balances(), from@, to@, amount) matches Some(e) ==> (r
                == Err::<(), TokenError>(e) && *final(self) == *old(self)),
            transfer_error(old(self).balances(), from@, to@, amount) is None ==> (r == Ok::<
                (),
                TokenError,
            >(()) && final(self).balances() == old(self).balances().insert(
                from@,
                (old(self).balances()[from@] - amount) as u128,
            ).insert(to@, (old(self).balances()[to@] + amount) as u128) && final(self).circulating()
                == old(self).circulating()),
    {
        proof {
            self.ledger.lemma_total_nonneg();
        }
        match self.ledger.transfer(from, to, amount) {
            Ok(()) => Ok(()),
            Err(e) => Err(e),
        }
    }

    /// The first phase of a transfer-and-call: the transfer itself, applied
    /// and durably recorded as a `PendingTransfer` before the receiver is
    /// asked anything. Rejected exactly as `transfer` is; no callback is to
    /// be attempted for a rejected call.
    pub fn transfer_call_begin(&mut self, from: &AccountId, to: &AccountId, amount: u128) -> (r:
        Result<PendingTransfer, TokenError>)
        requires
            old(self).wf(),
        ensures
            final(self).wf(),
            final(self).supply() == old(self).supply(),
            final(self).burned_total() == old(self).burned_total(),
            final(self).min_bond_spec() == old(self).min_bond_spec(),
            final(self).bonds() == old(self).bonds(),
            transfer_error(old(self).balances(), from@, to@, amount) matches Some(e) ==> (r matches
                Err(e2) && e2 == e && *final(self) == *old(self)),
            transfer_error(old(self).balances(), from@, to@, amount) is None ==> (r matches Ok(p)
                && p.sender@ == from@ && p.receiver@ == to@ && p.amount == amount
                && final(self).balances() == old(self).balances().insert(
                from@,
                (old(self).balances()[from@] - amount) as u128,
            ).insert(to@, (old(self).balances()[to@] + amount) as u128) && final(self).circulating()
                == old(self).circulating()),
    {
        match self.transfer(from, to, amount) {
            Ok(()) => Ok(
                PendingTransfer {
                    sender: from.duplicate(),
                    receiver: to.duplicate(),
                    amount,
                },
            ),
            Err(e) => Err(e),
        }
    }

    /// How much of a pending transfer flows back to the sender once the
    /// receiver answered: the unused amount it reported (clamped to the
    /// transferred amount, and the whole amount if it trapped), further
    /// clamped to whatever the receiver still holds — it may have spent what
    /// it received in the meantime — and zero if the receiver is gone.
    pub open spec fn resolve_refund_spec(
        pre: Token,
        p: PendingTransfer,
        outcome: CallbackOutcome,
    ) -> int {
        let unused = clamp_unused(outcome, p.amount);
        if !pre.registered(p.receiver@) {
            0
        } else if pre.balances()[p.receiver@] < unused {
            pre.balances()[p.receiver@] as int
        } else {
            unused as int
        }
    }

    /// What the settlement of a pending transfer did: the refund moved from
    /// the receiver back to the sender — or was burned, with a `TokensBurned`
    /// notification, if the sender is gone — the receipt reports what the
    /// receiver kept and the phase the exchange ended in, and nothing else
    /// changed.
    pub open spec fn resolve_ok(
        pre: Token,
        post: Token,
        p: PendingTransfer,
        outcome: CallbackOutcome,
        rec: ResolveReceipt,
    ) -> bool {
        let refund = Token::resolve_refund_spec(pre, p, outcome);
        &&& rec.used == p.amount - refund
        &&& rec.phase == (if refund == 0 {
            TransferPhase::Confirmed
        } else if refund == p.amount {
            TransferPhase::Reversed
        } else {
            TransferPhase::PartiallyReversed
        })
        &&& post.bonds() == pre.bonds()
        &&& (refund == 0 ==> post == pre && rec.events@.len() == 0)
        &&& (refund > 0 && pre.registered(p.sender@) ==> {
            &&& post.balances() == pre.balances().insert(
                p.receiver@,
                (pre.balances()[p.receiver@] - refund) as u128,
            ).insert(p.sender@, (pre.balances()[p.sender@] + refund) as u128)
            &&& post.burned_total() == pre.burned_total()
            &&& rec.events@.len() == 0
        })
        &&& (refund > 0 && !pre.registered(p.sender@) ==> {
            &&& post.balances() == pre.balances().insert(
                p.receiver@,
                (pre.balances()[p.receiver@] - refund) as u128,
            )
            &&& post.burned_total() == pre.burned_total() + refund
            &&& rec.events@.len() == 1
            &&& (rec.events@[0] matches Event::TokensBurned { id, amount } && id@ == p.sender@
                && amount == refund)
        })
    }

    /// The second phase of a transfer-and-call: settles a recorded pending
    /// transfer against the receiver's answer. Balances are re-read here, not
    /// taken from the first phase: the receiver may have moved funds before
    /// answering. This call never fails and never drives a balance negative,
    /// whatever the receiver answered and whether either party is still
    /// registered; a trap counts as full rejection, never as a failure of the
    /// outer call.
    pub fn transfer_call_resolve(&mut self, pending: &PendingTransfer, outcome: CallbackOutcome) -> (
    r: ResolveReceipt)
        requires
            old(self).wf(),
            pending.sender@ != pending.receiver@,
        ensures
            final(self).wf(),
            final(self).supply() == old(self).supply(),
            final(self).min_bond_spec() == old(self).min_bond_spec(),
            Token::resolve_ok(*old(self), *final(self), *pending, outcome, r),
    {
        let amount = pending.amount;
        let unused = match outcome {
            CallbackOutcome::Trapped => amount,
            CallbackOutcome::Returned(u) => if u > amount {
                amount
            } else {
                u
            },
        };
        let receiver_balance = match self.ledger.balance_of(&pending.receiver) {
            Ok(b) => b,
            Err(_) => 0,
        };
        let refund = if receiver_balance < unused {
            receiver_balance
        } else {
            unused
        };
        if refund == 0 {
            return ResolveReceipt {
                used: amount,
                phase: TransferPhase::Confirmed,
                events: Vec::new(),
            };
        }
        proof {
            self.ledger.lemma_total_nonneg();
            self.ledger.lemma_balance_le_total(pending.receiver@);
        }
        self.ledger.debit(&pending.receiver, refund);
        let phase = if refund == amount {
            TransferPhase::Reversed
        } else {
            TransferPhase::PartiallyReversed
        };
        if self.ledger.contains(&pending.sender) {
            proof {
                self.ledger.lemma_balance_le_total(pending.sender@);
            }
            self.ledger.credit(&pending.sender, refund);
            ResolveReceipt { used: amount - refund, phase, events: Vec::new() }
        } else {
            self.burned = self.burned + refund;
            let mut events: Vec<Event> = Vec::new();
            events.push(Event::TokensBurned { id: pending.sender.duplicate(), amount: refund });
            proof {
                assert(self.ledger@.dom() =~= self.registry@.dom());
            }
            ResolveReceipt { used: amount - refund, phase, events }
        }
    }
}

/// Conservation: in every well-formed state — and every operation here hands
/// well-formedness from state to state — the circulating balances and the
/// burned tokens together equal the supply fixed at genesis. Ordinary
/// operations neither mint nor destroy; only the burn paths move tokens from
/// circulation to the burned total, and the supply never moves at all.
pub proof fn lemma_conservation(t: Token)
    requires
        t.wf(),
    ensures
        t.circulating() + t.burned_total() == t.supply(),
{
}

/// No balance is negative, none exceeds what circulates, and none exceeds
/// the supply.
pub proof fn lemma_balance_bounds(t: Token, id: Seq<u8>)
    requires
        t.wf(),
        t.registered(id),
    ensures
        0 <= t.balances()[id],
        t.balances()[id] <= t.circulating(),
        t.balances()[id] <= t.supply(),
{
    t.ledger.lemma_balance_le_total(id);
}

/// Deposit exactness: registration settles precisely as the deposit escrow
/// settles a call that grew storage by one ledger entry. An attachment below
/// the minimum bond fails with `InsufficientDeposit`; the minimum or more is
/// charged exactly the bond, and exactly the excess flows back.
pub proof fn lemma_register_settles_like_escrow(t: Token, attached: u128, bytes_before: u64)
    requires
        bytes_before + t.entry_bytes() <= u64::MAX,
    ensures
        attached < t.min_bond_spec() ==> settle_spec(
            attached,
            bytes_before,
            (bytes_before + t.entry_bytes()) as u64,
        ) == Err::<Settlement, TokenError>(TokenError::InsufficientDeposit),
        attached >= t.min_bond_spec() ==> settle_spec(
            attached,
            bytes_before,
            (bytes_before + t.entry_bytes()) as u64,
        ) == Ok::<Settlement, TokenError>(
            Settlement {
                charged: t.min_bond_spec() as u128,
                refund: (attached - t.min_bond_spec()) as u128,
            },
        ),
{
    let after = (bytes_before + t.entry_bytes()) as u64;
    if t.entry_bytes() == 0 {
        assert(t.min_bond_spec() == 0);
    } else {
        assert((after - bytes_before) as u64 == t.entry_bytes());
    }
}

/// Every registered account holds a bond, and it is exactly the registration
/// bond: enough to cover its entry's storage, never more taken than asked.
pub proof fn lemma_bond_exact(t: Token, id: Seq<u8>)
    requires
        t.wf(),
        t.registered(id),
    ensures
        t.bonds().dom().contains(id),
        t.bonds()[id] == t.min_bond_spec(),
{
}

} // verus!
