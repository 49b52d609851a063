//! What holds of accounts whatever the events: stated over the mathematical
//! values of accounts and events, and proved.

use crate::account::{
    dispute_outcome, insert_outcome, lemma_chargeback_keeps_consistent,
    lemma_deposit_keeps_consistent, lemma_dispute_keeps_consistent, lemma_new_is_consistent,
    lemma_resolve_keeps_consistent, lemma_units_after_write, lemma_units_of_nothing, share,
    units_below, units_in, AccountView, ChargebackError, DepositError, DepositState, DepositView,
    Deposits, DisputeError, ResolveError, WithdrawError,
};
use crate::amount::{lemma_zero_units, AmountView};
use crate::engine::{
    account_of, all_consistent, applied, handled, outcome_of, replayed, Accounts,
};
use crate::event::{EventDataView, EventView};
use crate::TransactionId;
use vstd::prelude::*;

verus! {

/// An account after a sequence of events of its own, taken in order.
pub open spec fn after_all(account: AccountView, events: Seq<EventDataView>) -> AccountView
    decreases events.len(),
{
    if events.len() == 0 {
        account
    } else {
        applied(after_all(account, events.drop_last()), events.last())
    }
}

/// The events of one client among the events of all, in order.
pub open spec fn events_for(events: Seq<EventView>, client: u16) -> Seq<EventDataView>
    decreases events.len(),
{
    if events.len() == 0 {
        Seq::empty()
    } else if events.last().client == client {
        events_for(events.drop_last(), client).push(events.last().data)
    } else {
        events_for(events.drop_last(), client)
    }
}

/// The sum, in units, of the deposits that have not been charged back.
pub open spec fn standing(deposits: Deposits) -> int {
    units_in(deposits, DepositState::MaybeSettled) + units_in(deposits, DepositState::Disputed)
}

/// The sum, in units, of all the deposits on record, charged back or not.
pub open spec fn accepted(deposits: Deposits) -> int {
    standing(deposits) + units_in(deposits, DepositState::Reversed)
}

/// What an event withdraws from an account, in units: the amount of an
/// accepted withdrawal, and nothing otherwise.
pub open spec fn withdrawal(account: AccountView, data: EventDataView) -> int {
    match data {
        EventDataView::Withdrawal { tx, amount } => if account.withdraw_outcome(amount) is Ok {
            amount.units()
        } else {
            0
        },
        _ => 0,
    }
}

/// What a sequence of events withdraws from an account, in units.
pub open spec fn withdrawn(account: AccountView, events: Seq<EventDataView>) -> int
    decreases events.len(),
{
    if events.len() == 0 {
        0
    } else {
        withdrawn(account, events.drop_last()) + withdrawal(
            after_all(account, events.drop_last()),
            events.last(),
        )
    }
}

/// No balance is negative, and no deposit on record is.
pub open spec fn solvent(account: AccountView) -> bool {
    &&& account.available.units() >= 0
    &&& account.held.units() >= 0
    &&& forall|tx: u32|
        account.deposits.contains_key(tx) ==> (#[trigger] account.deposits[tx]).amount.units() >= 0
}

/// The events that cannot take a balance below zero: all but the deposit of
/// a negative amount, and the dispute that would hold more than is
/// available.
pub open spec fn covered(account: AccountView, data: EventDataView) -> bool {
    match data {
        EventDataView::Deposit { tx, amount } => amount.units() >= 0,
        EventDataView::Dispute { tx } => match dispute_outcome(account.deposits, tx) {
            Ok(amount) => amount.units() <= account.available.units(),
            Err(_) => true,
        },
        _ => true,
    }
}

/// Every event of the sequence is covered by the account as it stands when
/// the event arrives.
pub open spec fn all_covered(account: AccountView, events: Seq<EventDataView>) -> bool
    decreases events.len(),
{
    events.len() == 0 || (all_covered(account, events.drop_last()) && covered(
        after_all(account, events.drop_last()),
        events.last(),
    ))
}

/// Every event keeps an account consistent: the held funds stay the sum of
/// the deposits under dispute.
pub proof fn lemma_event_keeps_consistent(account: AccountView, data: EventDataView)
    requires
        account.consistent(),
    ensures
        applied(account, data).consistent(),
{
    match data {
        EventDataView::Deposit { tx, amount } => lemma_deposit_keeps_consistent(account, tx, amount),
        EventDataView::Withdrawal { tx, amount } => {},
        EventDataView::Dispute { tx } => lemma_dispute_keeps_consistent(account, tx),
        EventDataView::Resolve { tx } => lemma_resolve_keeps_consistent(account, tx),
        EventDataView::Chargeback { tx } => lemma_chargeback_keeps_consistent(account, tx),
    }
}

/// Every account that events can lead to is consistent.
pub proof fn lemma_reachable_is_consistent(events: Seq<EventDataView>)
    ensures
        after_all(AccountView::new(), events).consistent(),
    decreases events.len(),
{
    if events.len() == 0 {
        lemma_new_is_consistent();
    } else {
        lemma_reachable_is_consistent(events.drop_last());
        lemma_event_keeps_consistent(
            after_all(AccountView::new(), events.drop_last()),
            events.last(),
        );
    }
}

/// Where no deposit is negative, a partial sum of deposits is not negative
/// and holds the share of each deposit below the bound.
proof fn lemma_share_within_partial_sum(
    deposits: Deposits,
    state: DepositState,
    tx: u32,
    bound: nat,
)
    requires
        bound <= 0x1_0000_0000,
        forall|other: u32|
            deposits.contains_key(other) ==> (#[trigger] deposits[other]).amount.units() >= 0,
    ensures
        units_below(deposits, state, bound) >= 0,
        deposits.contains_key(tx) && tx < bound ==> units_below(deposits, state, bound) >= share(
            deposits[tx],
            state,
        ),
    decreases bound,
{
    if bound > 0 {
        lemma_share_within_partial_sum(deposits, state, tx, (bound - 1) as nat);
    }
}

/// Balances never go below zero: an event that is covered takes a solvent,
/// consistent account to a solvent one.
pub proof fn lemma_event_keeps_solvent(account: AccountView, data: EventDataView)
    requires
        account.consistent(),
        solvent(account),
        covered(account, data),
    ensures
        solvent(applied(account, data)),
{
    let after = applied(account, data);
    match data {
        EventDataView::Deposit { tx, amount } => {},
        EventDataView::Withdrawal { tx, amount } => {},
        EventDataView::Dispute { tx } => {},
        EventDataView::Resolve { tx } => {
            lemma_share_within_partial_sum(
                account.deposits,
                DepositState::Disputed,
                tx,
                0x1_0000_0000,
            );
        },
        EventDataView::Chargeback { tx } => {
            lemma_share_within_partial_sum(
                account.deposits,
                DepositState::Disputed,
                tx,
                0x1_0000_0000,
            );
        },
    }
    assert forall|tx: u32| after.deposits.contains_key(tx) implies (#[trigger] after.deposits[tx])
        .amount.units() >= 0 by {
        if account.deposits.contains_key(tx) {
            assert(account.deposits[tx].amount.units() >= 0);
        }
    }
}

/// Balances never go below zero: in every account that covered events lead
/// to, neither the available nor the held funds are negative.
pub proof fn lemma_reachable_is_solvent(events: Seq<EventDataView>)
    requires
        all_covered(AccountView::new(), events),
    ensures
        after_all(AccountView::new(), events).available.units() >= 0,
        after_all(AccountView::new(), events).held.units() >= 0,
        solvent(after_all(AccountView::new(), events)),
    decreases events.len(),
{
    if events.len() == 0 {
        lemma_zero_units();
    } else {
        lemma_reachable_is_solvent(events.drop_last());
        lemma_reachable_is_consistent(events.drop_last());
        lemma_event_keeps_solvent(after_all(AccountView::new(), events.drop_last()), events.last());
    }
}

/// The total funds follow the deposits: an event changes the total by what
/// it changes the standing deposits, less what it withdraws.
pub proof fn lemma_event_keeps_balance(account: AccountView, data: EventDataView)
    ensures
        applied(account, data).total_units() - standing(applied(account, data).deposits)
            == account.total_units() - standing(account.deposits) - withdrawal(account, data),
{
    match data {
        EventDataView::Deposit { tx, amount } => {
            let record = DepositView { state: DepositState::MaybeSettled, amount };
            lemma_units_after_write(account.deposits, tx, record, DepositState::MaybeSettled);
            lemma_units_after_write(account.deposits, tx, record, DepositState::Disputed);
        },
        EventDataView::Withdrawal { tx, amount } => {},
        EventDataView::Dispute { tx } => {
            let record = DepositView {
                state: DepositState::Disputed,
                amount: account.deposits[tx].amount,
            };
            lemma_units_after_write(account.deposits, tx, record, DepositState::MaybeSettled);
            lemma_units_after_write(account.deposits, tx, record, DepositState::Disputed);
        },
        EventDataView::Resolve { tx } => {
            let record = DepositView {
                state: DepositState::MaybeSettled,
                amount: account.deposits[tx].amount,
            };
            lemma_units_after_write(account.deposits, tx, record, DepositState::MaybeSettled);
            lemma_units_after_write(account.deposits, tx, record, DepositState::Disputed);
        },
        EventDataView::Chargeback { tx } => {
            let record = DepositView {
                state: DepositState::Reversed,
                amount: account.deposits[tx].amount,
            };
            lemma_units_after_write(account.deposits, tx, record, DepositState::MaybeSettled);
            lemma_units_after_write(account.deposits, tx, record, DepositState::Disputed);
        },
    }
}

/// The total funds of every account that events can lead to are the sum of
/// its deposits that have not been charged back, less what was withdrawn.
/// Said otherwise: all that it ever accepted, less what was withdrawn and
/// what was charged back.
pub proof fn lemma_total_is_deposits_less_withdrawals(events: Seq<EventDataView>)
    ensures
        after_all(AccountView::new(), events).total_units() == standing(
            after_all(AccountView::new(), events).deposits,
        ) - withdrawn(AccountView::new(), events),
        after_all(AccountView::new(), events).total_units() == accepted(
            after_all(AccountView::new(), events).deposits,
        ) - withdrawn(AccountView::new(), events) - units_in(
            after_all(AccountView::new(), events).deposits,
            DepositState::Reversed,
        ),
    decreases events.len(),
{
    if events.len() == 0 {
        lemma_units_of_nothing(DepositState::MaybeSettled, 0x1_0000_0000);
        lemma_units_of_nothing(DepositState::Disputed, 0x1_0000_0000);
        lemma_zero_units();
    } else {
        lemma_total_is_deposits_less_withdrawals(events.drop_last());
        lemma_event_keeps_balance(after_all(AccountView::new(), events.drop_last()), events.last());
    }
}

/// A rejected event changes nothing: not a balance, not a deposit, not the
/// lock.
pub proof fn lemma_rejected_event_changes_nothing(account: AccountView, data: EventDataView)
    requires
        outcome_of(account, data) is Err,
    ensures
        applied(account, data) == account,
{
}

/// The steps that the life cycle of a deposit allows: it may stay where it
/// is, go from `MaybeSettled` to `Disputed`, and from `Disputed` back to
/// `MaybeSettled` or on to `Reversed`.
pub open spec fn may_follow(before: DepositState, after: DepositState) -> bool {
    ||| after == before
    ||| before == DepositState::MaybeSettled && after == DepositState::Disputed
    ||| before == DepositState::Disputed && after == DepositState::MaybeSettled
    ||| before == DepositState::Disputed && after == DepositState::Reversed
}

/// Every event moves the deposits along their life cycle and no other way:
/// a deposit on record keeps its amount and takes a step that the life
/// cycle allows, and a deposit that comes on record is `MaybeSettled`.
pub proof fn lemma_event_follows_the_life_cycle(account: AccountView, data: EventDataView, tx: u32)
    requires
        applied(account, data).deposits.contains_key(tx),
    ensures
        account.deposits.contains_key(tx) ==> {
            &&& applied(account, data).deposits[tx].amount == account.deposits[tx].amount
            &&& may_follow(account.deposits[tx].state, applied(account, data).deposits[tx].state)
        },
        !account.deposits.contains_key(tx) ==> applied(account, data).deposits[tx].state
            == DepositState::MaybeSettled,
{
}

/// A locked account stays locked, whatever comes.
pub proof fn lemma_lock_is_permanent(account: AccountView, events: Seq<EventDataView>)
    requires
        account.locked,
    ensures
        after_all(account, events).locked,
    decreases events.len(),
{
    if events.len() > 0 {
        lemma_lock_is_permanent(account, events.drop_last());
    }
}

/// Once an account is locked, no later deposit or withdrawal succeeds: each
/// is rejected as `AccountLocked` and changes nothing.
pub proof fn lemma_locked_rejects_funds(
    account: AccountView,
    events: Seq<EventDataView>,
    tx: u32,
    amount: AmountView,
)
    requires
        account.locked,
    ensures
        after_all(account, events).deposit_outcome(tx, amount) == Err::<(), DepositError>(
            DepositError::AccountLocked,
        ),
        after_all(account, events).after_deposit(tx, amount) == after_all(account, events),
        after_all(account, events).withdraw_outcome(amount) == Err::<(), WithdrawError>(
            WithdrawError::AccountLocked,
        ),
        after_all(account, events).after_withdraw(amount) == after_all(account, events),
{
    lemma_lock_is_permanent(account, events);
}

/// Disputing a deposit that is under dispute fails as
/// `DepositAlreadyDisputed` and changes nothing, however often it is
/// repeated.
pub proof fn lemma_repeated_dispute_is_rejected(account: AccountView, tx: u32, times: nat)
    requires
        account.deposits.contains_key(tx),
        account.deposits[tx].state == DepositState::Disputed,
    ensures
        account.dispute_outcome(tx) == Err::<(), DisputeError>(
            DisputeError::DepositAlreadyDisputed,
        ),
        account.after_dispute(tx) == account,
        after_all(account, Seq::new(times, |i: int| EventDataView::Dispute { tx })) == account,
    decreases times,
{
    if times > 0 {
        lemma_repeated_dispute_is_rejected(account, tx, (times - 1) as nat);
        assert(Seq::new(times, |i: int| EventDataView::Dispute { tx }).drop_last() =~= Seq::new(
            (times - 1) as nat,
            |i: int| EventDataView::Dispute { tx },
        ));
    }
}

/// A deposit on record stays on record with its amount, whatever comes.
pub proof fn lemma_record_is_kept(account: AccountView, events: Seq<EventDataView>, tx: u32)
    requires
        account.deposits.contains_key(tx),
    ensures
        after_all(account, events).deposits.contains_key(tx),
        after_all(account, events).deposits[tx].amount == account.deposits[tx].amount,
    decreases events.len(),
{
    if events.len() > 0 {
        lemma_record_is_kept(account, events.drop_last(), tx);
    }
}

/// A deposit that has been charged back stays `Reversed`, whatever comes.
pub proof fn lemma_reversed_is_final(account: AccountView, events: Seq<EventDataView>, tx: u32)
    requires
        account.deposits.contains_key(tx),
        account.deposits[tx].state == DepositState::Reversed,
    ensures
        after_all(account, events).deposits.contains_key(tx),
        after_all(account, events).deposits[tx] == account.deposits[tx],
    decreases events.len(),
{
    if events.len() > 0 {
        lemma_reversed_is_final(account, events.drop_last(), tx);
    }
}

/// Once a deposit has been charged back, every later dispute, resolution
/// and chargeback of it fails as `DepositAlreadyReversed` and changes
/// nothing.
pub proof fn lemma_reversed_rejects_all(account: AccountView, events: Seq<EventDataView>, tx: u32)
    requires
        account.deposits.contains_key(tx),
        account.deposits[tx].state == DepositState::Reversed,
    ensures
        after_all(account, events).dispute_outcome(tx) == Err::<(), DisputeError>(
            DisputeError::DepositAlreadyReversed,
        ),
        after_all(account, events).resolve_outcome(tx) == Err::<(), ResolveError>(
            ResolveError::DepositAlreadyReversed,
        ),
        after_all(account, events).chargeback_outcome(tx) == Err::<(), ChargebackError>(
            ChargebackError::DepositAlreadyReversed,
        ),
        after_all(account, events).after_dispute(tx) == after_all(account, events),
        after_all(account, events).after_resolve(tx) == after_all(account, events),
        after_all(account, events).after_chargeback(tx) == after_all(account, events),
{
    lemma_reversed_is_final(account, events, tx);
}

/// A transaction id is used once: when a deposit is on record under it, in
/// whatever state, every later deposit under it is rejected and changes
/// nothing. The history refuses it as a duplicate; the account says so too,
/// unless it is locked and says that.
pub proof fn lemma_transaction_id_is_used_once(
    account: AccountView,
    events: Seq<EventDataView>,
    tx: u32,
    amount: AmountView,
)
    requires
        account.deposits.contains_key(tx),
    ensures
        insert_outcome(after_all(account, events).deposits, tx) == Err::<(), DepositError>(
            DepositError::DuplicateTransactionId(TransactionId(tx)),
        ),
        after_all(account, events).deposit_outcome(tx, amount) == Err::<(), DepositError>(
            if after_all(account, events).locked {
                DepositError::AccountLocked
            } else {
                DepositError::DuplicateTransactionId(TransactionId(tx))
            },
        ),
        after_all(account, events).after_deposit(tx, amount) == after_all(account, events),
{
    lemma_record_is_kept(account, events, tx);
}

/// Accounts do not touch each other: after any sequence of events, the
/// account of a client is what its own events alone make of it.
pub proof fn lemma_accounts_are_isolated(accounts: Accounts, events: Seq<EventView>, client: u16)
    ensures
        account_of(replayed(accounts, events), client) == after_all(
            account_of(accounts, client),
            events_for(events, client),
        ),
    decreases events.len(),
{
    if events.len() > 0 {
        lemma_accounts_are_isolated(accounts, events.drop_last(), client);
        if events.last().client == client {
            assert(events_for(events, client).drop_last() =~= events_for(
                events.drop_last(),
                client,
            ));
        }
    }
}

/// An event leaves every account but its client's as it was.
pub proof fn lemma_event_touches_one_account(accounts: Accounts, event: EventView, client: u16)
    requires
        client != event.client,
    ensures
        handled(accounts, event).contains_key(client) == accounts.contains_key(client),
        account_of(handled(accounts, event), client) == account_of(accounts, client),
{
}

/// Every event keeps all accounts consistent.
pub proof fn lemma_handled_keeps_consistent(accounts: Accounts, event: EventView)
    requires
        all_consistent(accounts),
    ensures
        all_consistent(handled(accounts, event)),
{
    lemma_new_is_consistent();
    lemma_event_keeps_consistent(account_of(accounts, event.client), event.data);
}

} // verus!
