//! One client's account: the dispute state of every deposit it has accepted,
//! and the available and held balances that follow from them.

use crate::amount::{lemma_zero_units, view_of, Amount, AmountView};
use crate::TransactionId;
use std::collections::HashMap;
use vstd::prelude::*;

verus! {

broadcast use vstd::std_specs::hash::group_hash_axioms;

/// Why a deposit was rejected.
#[derive(Debug, Clone, Copy, PartialEq, Eq, Structural)]
pub enum DepositError {
    /// The transaction id has been used by an earlier deposit.
    DuplicateTransactionId(TransactionId),
    /// The account is locked.
    AccountLocked,
    /// The new available balance is more than an amount can hold exactly.
    AmountOutOfRange,
}

/// Why a withdrawal was rejected.
#[derive(Debug, Clone, Copy, PartialEq, Eq, Structural)]
pub enum WithdrawError {
    /// The account is locked.
    AccountLocked,
    /// The available balance is smaller than the amount asked for.
    InsufficientFunds,
    /// The new available balance is more than an amount can hold exactly.
    AmountOutOfRange,
}

/// Why a dispute was rejected.
#[derive(Debug, Clone, Copy, PartialEq, Eq, Structural)]
pub enum DisputeError {
    /// No deposit with this transaction id is on record.
    DepositDoesNotExist,
    /// The deposit is under dispute already.
    DepositAlreadyDisputed,
    /// The deposit has been charged back.
    DepositAlreadyReversed,
    /// A new balance is more than an amount can hold exactly.
    AmountOutOfRange,
}

/// Why a resolution was rejected.
#[derive(Debug, Clone, Copy, PartialEq, Eq, Structural)]
pub enum ResolveError {
    /// No deposit with this transaction id is on record.
    DepositDoesNotExist,
    /// The deposit is not under dispute.
    DepositNotDisputed,
    /// The deposit has been charged back.
    DepositAlreadyReversed,
    /// A new balance is more than an amount can hold exactly.
    AmountOutOfRange,
}

/// Why a chargeback was rejected.
#[derive(Debug, Clone, Copy, PartialEq, Eq, Structural)]
pub enum ChargebackError {
    /// No deposit with this transaction id is on record.
    DepositDoesNotExist,
    /// The deposit is not under dispute.
    DepositNotDisputed,
    /// The deposit has been charged back.
    DepositAlreadyReversed,
    /// The new held balance is more than an amount can hold exactly.
    AmountOutOfRange,
}

/// Why an event was rejected by the account it was meant for.
#[derive(Debug, Clone, Copy, PartialEq, Eq, Structural)]
pub enum AccountError {
    Deposit(DepositError),
    Withdraw(WithdrawError),
    Dispute(DisputeError),
    Resolve(ResolveError),
    Chargeback(ChargebackError),
}

impl From<DepositError> for AccountError {
    fn from(error: DepositError) -> (wrapped: AccountError) {
        AccountError::Deposit(error)
    }
}

impl vstd::std_specs::convert::FromSpecImpl<DepositError> for AccountError {
    open spec fn obeys_from_spec() -> bool {
        true
    }

    open spec fn from_spec(error: DepositError) -> AccountError {
        AccountError::Deposit(error)
    }
}

impl From<WithdrawError> for AccountError {
    fn from(error: WithdrawError) -> (wrapped: AccountError) {
        AccountError::Withdraw(error)
    }
}

impl vstd::std_specs::convert::FromSpecImpl<WithdrawError> for AccountError {
    open spec fn obeys_from_spec() -> bool {
        true
    }

    open spec fn from_spec(error: WithdrawError) -> AccountError {
        AccountError::Withdraw(error)
    }
}

impl From<DisputeError> for AccountError {
    fn from(error: DisputeError) -> (wrapped: AccountError) {
        AccountError::Dispute(error)
    }
}

impl vstd::std_specs::convert::FromSpecImpl<DisputeError> for AccountError {
    open spec fn obeys_from_spec() -> bool {
        true
    }

    open spec fn from_spec(error: DisputeError) -> AccountError {
        AccountError::Dispute(error)
    }
}

impl From<ResolveError> for AccountError {
    fn from(error: ResolveError) -> (wrapped: AccountError) {
        AccountError::Resolve(error)
    }
}

impl vstd::std_specs::convert::FromSpecImpl<ResolveError> for AccountError {
    open spec fn obeys_from_spec() -> bool {
        true
    }

    open spec fn from_spec(error: ResolveError) -> AccountError {
        AccountError::Resolve(error)
    }
}

impl From<ChargebackError> for AccountError {
    fn from(error: ChargebackError) -> (wrapped: AccountError) {
        AccountError::Chargeback(error)
    }
}

impl vstd::std_specs::convert::FromSpecImpl<ChargebackError> for AccountError {
    open spec fn obeys_from_spec() -> bool {
        true
    }

    open spec fn from_spec(error: ChargebackError) -> AccountError {
        AccountError::Chargeback(error)
    }
}

/// Where a deposit stands in its dispute life cycle.
#[derive(Debug, Clone, Copy, PartialEq, Eq, Structural)]
pub enum DepositState {
    /// Accepted, and not under dispute.
    MaybeSettled,
    /// Under dispute: its amount is held.
    Disputed,
    /// Charged back. Nothing leads out of this state.
    Reversed,
}

/// A deposit on record, as a mathematical value.
pub struct DepositView {
    pub state: DepositState,
    pub amount: AmountView,
}

/// The deposits on record, by transaction id.
pub type Deposits = Map<u32, DepositView>;

/// A deposit on record.
#[derive(Debug, Clone, Copy)]
struct ProcessedDeposit {
    state: DepositState,
    amount: Amount,
}

impl View for ProcessedDeposit {
    type V = DepositView;

    closed spec fn view(&self) -> DepositView {
        DepositView { state: self.state, amount: self.amount@ }
    }
}

impl ProcessedDeposit {
    /// A deposit that has just been accepted.
    fn new(amount: Amount) -> (deposit: ProcessedDeposit)
        ensures
            deposit@ == (DepositView { state: DepositState::MaybeSettled, amount: amount@ }),
    {
        ProcessedDeposit { state: DepositState::MaybeSettled, amount }
    }
}

/// The record of a deposit after it has moved to another state.
pub open spec fn moved(deposits: Deposits, tx: u32, state: DepositState) -> Deposits {
    deposits.insert(tx, DepositView { state, amount: deposits[tx].amount })
}

/// Whether a deposit with this id can be put on record.
pub open spec fn insert_outcome(deposits: Deposits, tx: u32) -> Result<(), DepositError> {
    if deposits.contains_key(tx) {
        Err(DepositError::DuplicateTransactionId(TransactionId(tx)))
    } else {
        Ok(())
    }
}

/// The amount that a dispute of this deposit puts on hold, or why the
/// deposit cannot be disputed.
pub open spec fn dispute_outcome(deposits: Deposits, tx: u32) -> Result<AmountView, DisputeError> {
    if !deposits.contains_key(tx) {
        Err(DisputeError::DepositDoesNotExist)
    } else {
        match deposits[tx].state {
            DepositState::MaybeSettled => Ok(deposits[tx].amount),
            DepositState::Disputed => Err(DisputeError::DepositAlreadyDisputed),
            DepositState::Reversed => Err(DisputeError::DepositAlreadyReversed),
        }
    }
}

/// The amount that resolving the dispute of this deposit releases, or why
/// there is nothing to resolve.
pub open spec fn resolve_outcome(deposits: Deposits, tx: u32) -> Result<AmountView, ResolveError> {
    if !deposits.contains_key(tx) {
        Err(ResolveError::DepositDoesNotExist)
    } else {
        match deposits[tx].state {
            DepositState::MaybeSettled => Err(ResolveError::DepositNotDisputed),
            DepositState::Disputed => Ok(deposits[tx].amount),
            DepositState::Reversed => Err(ResolveError::DepositAlreadyReversed),
        }
    }
}

/// The amount that a chargeback of this deposit removes, or why it cannot be
/// charged back.
pub open spec fn chargeback_outcome(deposits: Deposits, tx: u32) -> Result<
    AmountView,
    ChargebackError,
> {
    if !deposits.contains_key(tx) {
        Err(ChargebackError::DepositDoesNotExist)
    } else {
        match deposits[tx].state {
            DepositState::MaybeSettled => Err(ChargebackError::DepositNotDisputed),
            DepositState::Disputed => Ok(deposits[tx].amount),
            DepositState::Reversed => Err(ChargebackError::DepositAlreadyReversed),
        }
    }
}

/// An outcome with the amount it carries as a mathematical value.
pub open spec fn outcome_view<E>(outcome: Result<Amount, E>) -> Result<AmountView, E> {
    match outcome {
        Ok(amount) => Ok(amount@),
        Err(error) => Err(error),
    }
}

/// The dispute state machines of all the deposits of one account.
#[derive(Debug, Default, Clone)]
pub struct DepositHistory {
    inner: HashMap<u32, ProcessedDeposit>,
}

impl View for DepositHistory {
    type V = Deposits;

    closed spec fn view(&self) -> Deposits {
        Map::new(|tx: u32| self.inner@.contains_key(tx), |tx: u32| self.inner@[tx]@)
    }
}

impl DepositHistory {
    /// A history without deposits.
    pub fn new() -> (history: DepositHistory)
        ensures
            history@ == Deposits::empty(),
    {
        let history = DepositHistory { inner: HashMap::new() };
        assert(history@ =~= Deposits::empty());
        history
    }

    /// The deposit on record under this id, if there is one.
    fn get(&self, transaction_id: TransactionId) -> (deposit: Option<ProcessedDeposit>)
        ensures
            deposit is Some == self@.contains_key(transaction_id.0),
            deposit matches Some(found) ==> found@ == self@[transaction_id.0],
    {
        match self.inner.get(&transaction_id.0) {
            Some(found) => Some(*found),
            None => None,
        }
    }

    /// Moves a deposit on record to another state.
    fn set_state(&mut self, transaction_id: TransactionId, deposit: ProcessedDeposit, state: DepositState)
        requires
            old(self)@.contains_key(transaction_id.0),
            old(self)@[transaction_id.0] == deposit@,
        ensures
            final(self)@ == moved(old(self)@, transaction_id.0, state),
    {
        self.inner.insert(transaction_id.0, ProcessedDeposit { state, amount: deposit.amount });
        assert(self@ =~= moved(old(self)@, transaction_id.0, state));
    }

    /// Whether a deposit with this id could be put on record, without
    /// changing anything.
    pub fn check_insert(&self, transaction_id: TransactionId) -> (outcome: Result<(), DepositError>)
        ensures
            outcome == insert_outcome(self@, transaction_id.0),
    {
        if self.inner.contains_key(&transaction_id.0) {
            Err(DepositError::DuplicateTransactionId(transaction_id))
        } else {
            Ok(())
        }
    }

    /// Puts a new deposit on record as `MaybeSettled`. An id that is on
    /// record already, in whatever state, is refused.
    pub fn insert(&mut self, transaction_id: TransactionId, amount: Amount) -> (outcome: Result<
        (),
        DepositError,
    >)
        ensures
            outcome == insert_outcome(old(self)@, transaction_id.0),
            outcome is Ok ==> final(self)@ == old(self)@.insert(
                transaction_id.0,
                DepositView { state: DepositState::MaybeSettled, amount: amount@ },
            ),
            outcome is Err ==> final(self)@ == old(self)@,
    {
        if self.inner.contains_key(&transaction_id.0) {
            return Err(DepositError::DuplicateTransactionId(transaction_id));
        }
        self.inner.insert(transaction_id.0, ProcessedDeposit::new(amount));
        assert(self@ =~= old(self)@.insert(
            transaction_id.0,
            DepositView { state: DepositState::MaybeSettled, amount: amount@ },
        ));
        Ok(())
    }

    /// What a dispute of this deposit would give, without changing anything.
    pub fn check_dispute(&self, transaction_id: TransactionId) -> (outcome: Result<
        Amount,
        DisputeError,
    >)
        ensures
            outcome_view(outcome) == dispute_outcome(self@, transaction_id.0),
    {
        match self.get(transaction_id) {
            None => Err(DisputeError::DepositDoesNotExist),
            Some(deposit) => match deposit.state {
                DepositState::MaybeSettled => Ok(deposit.amount),
                DepositState::Disputed => Err(DisputeError::DepositAlreadyDisputed),
                DepositState::Reversed => Err(DisputeError::DepositAlreadyReversed),
            },
        }
    }

    /// Opens a dispute: `MaybeSettled` becomes `Disputed`. Returns the
    /// deposit's amount.
    pub fn dispute(&mut self, transaction_id: TransactionId) -> (outcome: Result<
        Amount,
        DisputeError,
    >)
        ensures
            outcome_view(outcome) == dispute_outcome(old(self)@, transaction_id.0),
            outcome is Ok ==> final(self)@ == moved(
                old(self)@,
                transaction_id.0,
                DepositState::Disputed,
            ),
            outcome is Err ==> final(self)@ == old(self)@,
    {
        match self.get(transaction_id) {
            None => Err(DisputeError::DepositDoesNotExist),
            Some(deposit) => match deposit.state {
                DepositState::MaybeSettled => {
                    self.set_state(transaction_id, deposit, DepositState::Disputed);
                    Ok(deposit.amount)
                },
                DepositState::Disputed => Err(DisputeError::DepositAlreadyDisputed),
                DepositState::Reversed => Err(DisputeError::DepositAlreadyReversed),
            },
        }
    }

    /// What resolving the dispute of this deposit would give, without
    /// changing anything.
    pub fn check_resolve(&self, transaction_id: TransactionId) -> (outcome: Result<
        Amount,
        ResolveError,
    >)
        ensures
            outcome_view(outcome) == resolve_outcome(self@, transaction_id.0),
    {
        match self.get(transaction_id) {
            None => Err(ResolveError::DepositDoesNotExist),
            Some(deposit) => match deposit.state {
                DepositState::MaybeSettled => Err(ResolveError::DepositNotDisputed),
                DepositState::Disputed => Ok(deposit.amount),
                DepositState::Reversed => Err(ResolveError::DepositAlreadyReversed),
            },
        }
    }

    /// Resolves a dispute: `Disputed` becomes `MaybeSettled` again. Returns
    /// the deposit's amount.
    pub fn resolve(&mut self, transaction_id: TransactionId) -> (outcome: Result<
        Amount,
        ResolveError,
    >)
        ensures
            outcome_view(outcome) == resolve_outcome(old(self)@, transaction_id.0),
            outcome is Ok ==> final(self)@ == moved(
                old(self)@,
                transaction_id.0,
                DepositState::MaybeSettled,
            ),
            outcome is Err ==> final(self)@ == old(self)@,
    {
        match self.get(transaction_id) {
            None => Err(ResolveError::DepositDoesNotExist),
            Some(deposit) => match deposit.state {
                DepositState::MaybeSettled => Err(ResolveError::DepositNotDisputed),
                DepositState::Disputed => {
                    self.set_state(transaction_id, deposit, DepositState::MaybeSettled);
                    Ok(deposit.amount)
                },
                DepositState::Reversed => Err(ResolveError::DepositAlreadyReversed),
            },
        }
    }

    /// What a chargeback of this deposit would give, without changing
    /// anything.
    pub fn check_chargeback(&self, transaction_id: TransactionId) -> (outcome: Result<
        Amount,
        ChargebackError,
    >)
        ensures
            outcome_view(outcome) == chargeback_outcome(self@, transaction_id.0),
    {
        match self.get(transaction_id) {
            None => Err(ChargebackError::DepositDoesNotExist),
            Some(deposit) => match deposit.state {
                DepositState::MaybeSettled => Err(ChargebackError::DepositNotDisputed),
                DepositState::Disputed => Ok(deposit.amount),
                DepositState::Reversed => Err(ChargebackError::DepositAlreadyReversed),
            },
        }
    }

    /// Charges a disputed deposit back: `Disputed` becomes `Reversed`, for
    /// good. Returns the deposit's amount.
    pub fn chargeback(&mut self, transaction_id: TransactionId) -> (outcome: Result<
        Amount,
        ChargebackError,
    >)
        ensures
            outcome_view(outcome) == chargeback_outcome(old(self)@, transaction_id.0),
            outcome is Ok ==> final(self)@ == moved(
                old(self)@,
                transaction_id.0,
                DepositState::Reversed,
            ),
            outcome is Err ==> final(self)@ == old(self)@,
    {
        match self.get(transaction_id) {
            None => Err(ChargebackError::DepositDoesNotExist),
            Some(deposit) => match deposit.state {
                DepositState::MaybeSettled => Err(ChargebackError::DepositNotDisputed),
                DepositState::Disputed => {
                    self.set_state(transaction_id, deposit, DepositState::Reversed);
                    Ok(deposit.amount)
                },
                DepositState::Reversed => Err(ChargebackError::DepositAlreadyReversed),
            },
        }
    }
}

/// What one deposit adds to the sum of the deposits in `state`, in units.
pub open spec fn share(deposit: DepositView, state: DepositState) -> int {
    if deposit.state == state {
        deposit.amount.units()
    } else {
        0
    }
}

/// The sum, in units, of the amounts of the deposits in `state` whose
/// transaction id is below `bound`.
pub open spec fn units_below(deposits: Deposits, state: DepositState, bound: nat) -> int
    decreases bound,
{
    if bound == 0 {
        0
    } else {
        let tx = (bound - 1) as u32;
        units_below(deposits, state, (bound - 1) as nat) + if deposits.contains_key(tx) {
            share(deposits[tx], state)
        } else {
            0
        }
    }
}

/// The sum, in units, of the amounts of all the deposits in `state`.
pub open spec fn units_in(deposits: Deposits, state: DepositState) -> int {
    units_below(deposits, state, 0x1_0000_0000)
}

/// Writing one record changes a partial sum by what the record adds, less
/// what stood there before.
pub proof fn lemma_units_below_after_write(
    deposits: Deposits,
    tx: u32,
    record: DepositView,
    state: DepositState,
    bound: nat,
)
    requires
        bound <= 0x1_0000_0000,
    ensures
        units_below(deposits.insert(tx, record), state, bound) == units_below(
            deposits,
            state,
            bound,
        ) + if tx < bound {
            share(record, state) - if deposits.contains_key(tx) {
                share(deposits[tx], state)
            } else {
                0
            }
        } else {
            0
        },
    decreases bound,
{
    if bound > 0 {
        lemma_units_below_after_write(deposits, tx, record, state, (bound - 1) as nat);
    }
}

/// Writing one record changes the sum of the deposits in `state` by what
/// the record adds, less what stood there before.
pub proof fn lemma_units_after_write(
    deposits: Deposits,
    tx: u32,
    record: DepositView,
    state: DepositState,
)
    ensures
        units_in(deposits.insert(tx, record), state) == units_in(deposits, state) + share(
            record,
            state,
        ) - if deposits.contains_key(tx) {
            share(deposits[tx], state)
        } else {
            0
        },
{
    lemma_units_below_after_write(deposits, tx, record, state, 0x1_0000_0000);
}

/// Without deposits every sum is zero.
pub proof fn lemma_units_of_nothing(state: DepositState, bound: nat)
    ensures
        units_below(Deposits::empty(), state, bound) == 0,
    decreases bound,
{
    if bound > 0 {
        lemma_units_of_nothing(state, (bound - 1) as nat);
    }
}

/// An account, as a mathematical value.
pub struct AccountView {
    /// Funds that can be withdrawn.
    pub available: AmountView,
    /// Funds of deposits under dispute.
    pub held: AmountView,
    /// Whether a chargeback has locked the account.
    pub locked: bool,
    /// Every deposit that the account has accepted.
    pub deposits: Deposits,
}

impl AccountView {
    /// The account before its first event.
    pub open spec fn new() -> AccountView {
        AccountView {
            available: AmountView::zero(),
            held: AmountView::zero(),
            locked: false,
            deposits: Deposits::empty(),
        }
    }

    /// The held balance is the sum of the deposits under dispute.
    pub open spec fn consistent(self) -> bool {
        self.held.units() == units_in(self.deposits, DepositState::Disputed)
    }

    /// Available and held funds together, in units.
    pub open spec fn total_units(self) -> int {
        self.available.units() + self.held.units()
    }

    /// Whether a deposit is accepted, and if not, why.
    pub open spec fn deposit_outcome(self, tx: u32, amount: AmountView) -> Result<
        (),
        DepositError,
    > {
        if self.locked {
            Err(DepositError::AccountLocked)
        } else if self.deposits.contains_key(tx) {
            Err(DepositError::DuplicateTransactionId(TransactionId(tx)))
        } else if self.available.plus(amount) is None {
            Err(DepositError::AmountOutOfRange)
        } else {
            Ok(())
        }
    }

    /// The account after a deposit: where it is accepted, it is on record as
    /// `MaybeSettled` and its amount has been added to the available funds.
    pub open spec fn after_deposit(self, tx: u32, amount: AmountView) -> AccountView {
        if self.deposit_outcome(tx, amount) is Ok {
            AccountView {
                available: self.available.plus(amount).unwrap(),
                deposits: self.deposits.insert(
                    tx,
                    DepositView { state: DepositState::MaybeSettled, amount },
                ),
                ..self
            }
        } else {
            self
        }
    }

    /// Whether a withdrawal is accepted, and if not, why.
    pub open spec fn withdraw_outcome(self, amount: AmountView) -> Result<(), WithdrawError> {
        if self.locked {
            Err(WithdrawError::AccountLocked)
        } else if self.available.units() < amount.units() {
            Err(WithdrawError::InsufficientFunds)
        } else if self.available.minus(amount) is None {
            Err(WithdrawError::AmountOutOfRange)
        } else {
            Ok(())
        }
    }

    /// The account after a withdrawal: where it is accepted, its amount has
    /// been taken from the available funds.
    pub open spec fn after_withdraw(self, amount: AmountView) -> AccountView {
        if self.withdraw_outcome(amount) is Ok {
            AccountView { available: self.available.minus(amount).unwrap(), ..self }
        } else {
            self
        }
    }

    /// Whether a dispute is accepted, and if not, why.
    pub open spec fn dispute_outcome(self, tx: u32) -> Result<(), DisputeError> {
        match dispute_outcome(self.deposits, tx) {
            Err(error) => Err(error),
            Ok(amount) => if self.available.minus(amount) is None || self.held.plus(amount)
                is None {
                Err(DisputeError::AmountOutOfRange)
            } else {
                Ok(())
            },
        }
    }

    /// The account after a dispute: where it is accepted, the deposit is
    /// `Disputed` and its amount has moved from the available to the held
    /// funds.
    pub open spec fn after_dispute(self, tx: u32) -> AccountView {
        if self.dispute_outcome(tx) is Ok {
            let amount = self.deposits[tx].amount;
            AccountView {
                available: self.available.minus(amount).unwrap(),
                held: self.held.plus(amount).unwrap(),
                deposits: moved(self.deposits, tx, DepositState::Disputed),
                ..self
            }
        } else {
            self
        }
    }

    /// Whether a resolution is accepted, and if not, why.
    pub open spec fn resolve_outcome(self, tx: u32) -> Result<(), ResolveError> {
        match resolve_outcome(self.deposits, tx) {
            Err(error) => Err(error),
            Ok(amount) => if self.held.minus(amount) is None || self.available.plus(amount)
                is None {
                Err(ResolveError::AmountOutOfRange)
            } else {
                Ok(())
            },
        }
    }

    /// The account after a resolution: where it is accepted, the deposit is
    /// `MaybeSettled` again and its amount has moved from the held back to
    /// the available funds.
    pub open spec fn after_resolve(self, tx: u32) -> AccountView {
        if self.resolve_outcome(tx) is Ok {
            let amount = self.deposits[tx].amount;
            AccountView {
                available: self.available.plus(amount).unwrap(),
                held: self.held.minus(amount).unwrap(),
                deposits: moved(self.deposits, tx, DepositState::MaybeSettled),
                ..self
            }
        } else {
            self
        }
    }

    /// Whether a chargeback is accepted, and if not, why.
    pub open spec fn chargeback_outcome(self, tx: u32) -> Result<(), ChargebackError> {
        match chargeback_outcome(self.deposits, tx) {
            Err(error) => Err(error),
            Ok(amount) => if self.held.minus(amount) is None {
                Err(ChargebackError::AmountOutOfRange)
            } else {
                Ok(())
            },
        }
    }

    /// The account after a chargeback: where it is accepted, the deposit is
    /// `Reversed`, its amount has left the held funds, and the account is
    /// locked.
    pub open spec fn after_chargeback(self, tx: u32) -> AccountView {
        if self.chargeback_outcome(tx) is Ok {
            let amount = self.deposits[tx].amount;
            AccountView {
                held: self.held.minus(amount).unwrap(),
                locked: true,
                deposits: moved(self.deposits, tx, DepositState::Reversed),
                ..self
            }
        } else {
            self
        }
    }
}

/// A new account is consistent.
pub proof fn lemma_new_is_consistent()
    ensures
        AccountView::new().consistent(),
{
    lemma_units_of_nothing(DepositState::Disputed, 0x1_0000_0000);
    lemma_zero_units();
}

/// A deposit keeps an account consistent.
pub proof fn lemma_deposit_keeps_consistent(account: AccountView, tx: u32, amount: AmountView)
    requires
        account.consistent(),
    ensures
        account.after_deposit(tx, amount).consistent(),
{
    lemma_units_after_write(
        account.deposits,
        tx,
        DepositView { state: DepositState::MaybeSettled, amount },
        DepositState::Disputed,
    );
}

/// A dispute keeps an account consistent.
pub proof fn lemma_dispute_keeps_consistent(account: AccountView, tx: u32)
    requires
        account.consistent(),
    ensures
        account.after_dispute(tx).consistent(),
{
    lemma_units_after_write(
        account.deposits,
        tx,
        DepositView { state: DepositState::Disputed, amount: account.deposits[tx].amount },
        DepositState::Disputed,
    );
}

/// A resolution keeps an account consistent.
pub proof fn lemma_resolve_keeps_consistent(account: AccountView, tx: u32)
    requires
        account.consistent(),
    ensures
        account.after_resolve(tx).consistent(),
{
    lemma_units_after_write(
        account.deposits,
        tx,
        DepositView { state: DepositState::MaybeSettled, amount: account.deposits[tx].amount },
        DepositState::Disputed,
    );
}

/// A chargeback keeps an account consistent.
pub proof fn lemma_chargeback_keeps_consistent(account: AccountView, tx: u32)
    requires
        account.consistent(),
    ensures
        account.after_chargeback(tx).consistent(),
{
    lemma_units_after_write(
        account.deposits,
        tx,
        DepositView { state: DepositState::Reversed, amount: account.deposits[tx].amount },
        DepositState::Disputed,
    );
}

/// One client's account.
#[derive(Debug, Clone)]
pub struct Account {
    locked: bool,
    available_funds: Amount,
    held_funds: Amount,
    deposit_history: DepositHistory,
}

impl View for Account {
    type V = AccountView;

    closed spec fn view(&self) -> AccountView {
        AccountView {
            available: self.available_funds@,
            held: self.held_funds@,
            locked: self.locked,
            deposits: self.deposit_history@,
        }
    }
}

impl Account {
    /// What holds of every account: its held funds are the deposits under
    /// dispute.
    pub open spec fn wf(&self) -> bool {
        self@.consistent()
    }

    /// An unlocked account without funds or deposits.
    pub fn new() -> (account: Account)
        ensures
            account.wf(),
            account@ == AccountView::new(),
    {
        proof {
            lemma_new_is_consistent();
        }
        Account {
            locked: false,
            available_funds: Amount::zero(),
            held_funds: Amount::zero(),
            deposit_history: DepositHistory::new(),
        }
    }

    /// Whether a chargeback has locked the account.
    pub fn is_locked(&self) -> (locked: bool)
        ensures
            locked == self@.locked,
    {
        self.locked
    }

    /// The funds that can be withdrawn.
    pub fn available_funds(&self) -> (amount: Amount)
        ensures
            amount@ == self@.available,
    {
        self.available_funds
    }

    /// The funds of deposits under dispute.
    pub fn held_funds(&self) -> (amount: Amount)
        ensures
            amount@ == self@.held,
    {
        self.held_funds
    }

    /// Available and held funds together, where an amount can hold their
    /// exact sum.
    pub fn total_funds(&self) -> (amount: Option<Amount>)
        ensures
            view_of(amount) == self@.available.plus(self@.held),
            amount matches Some(total) ==> total@.units() == self@.total_units(),
    {
        self.available_funds.checked_add(self.held_funds)
    }

    /// Records a deposit and adds its amount to the available funds. A
    /// locked account accepts none, and a transaction id only once.
    pub fn deposit(&mut self, transaction_id: TransactionId, amount: Amount) -> (outcome: Result<
        (),
        DepositError,
    >)
        requires
            old(self).wf(),
        ensures
            final(self).wf(),
            outcome == old(self)@.deposit_outcome(transaction_id.0, amount@),
            final(self)@ == old(self)@.after_deposit(transaction_id.0, amount@),
            outcome is Err ==> final(self)@ == old(self)@,
    {
        if self.locked {
            return Err(DepositError::AccountLocked);
        }
        proof {
            lemma_deposit_keeps_consistent(self@, transaction_id.0, amount@);
        }
        match self.available_funds.checked_add(amount) {
            Some(available) => match self.deposit_history.insert(transaction_id, amount) {
                Ok(()) => {
                    self.available_funds = available;
                    Ok(())
                },
                Err(error) => Err(error),
            },
            None => match self.deposit_history.check_insert(transaction_id) {
                Ok(()) => Err(DepositError::AmountOutOfRange),
                Err(error) => Err(error),
            },
        }
    }

    /// Takes an amount from the available funds. A locked account pays
    /// nothing out, and no account more than it has available.
    pub fn withdraw(&mut self, amount: Amount) -> (outcome: Result<(), WithdrawError>)
        requires
            old(self).wf(),
        ensures
            final(self).wf(),
            outcome == old(self)@.withdraw_outcome(amount@),
            final(self)@ == old(self)@.after_withdraw(amount@),
            outcome is Err ==> final(self)@ == old(self)@,
    {
        if self.locked {
            return Err(WithdrawError::AccountLocked);
        }
        if self.available_funds.less_than(amount) {
            return Err(WithdrawError::InsufficientFunds);
        }
        match self.available_funds.checked_sub(amount) {
            Some(available) => {
                self.available_funds = available;
                Ok(())
            },
            None => Err(WithdrawError::AmountOutOfRange),
        }
    }

    /// Opens a dispute of a deposit: its amount moves from the available to
    /// the held funds.
    pub fn dispute(&mut self, transaction_id: TransactionId) -> (outcome: Result<(), DisputeError>)
        requires
            old(self).wf(),
        ensures
            final(self).wf(),
            outcome == old(self)@.dispute_outcome(transaction_id.0),
            final(self)@ == old(self)@.after_dispute(transaction_id.0),
            outcome is Err ==> final(self)@ == old(self)@,
    {
        let amount = match self.deposit_history.check_dispute(transaction_id) {
            Ok(amount) => amount,
            Err(error) => {
                return Err(error);
            },
        };
        proof {
            lemma_dispute_keeps_consistent(self@, transaction_id.0);
        }
        match (self.available_funds.checked_sub(amount), self.held_funds.checked_add(amount)) {
            (Some(available), Some(held)) => match self.deposit_history.dispute(transaction_id) {
                Ok(_) => {
                    self.available_funds = available;
                    self.held_funds = held;
                    Ok(())
                },
                Err(error) => Err(error),
            },
            _ => Err(DisputeError::AmountOutOfRange),
        }
    }

    /// Resolves the dispute of a deposit: its amount moves from the held
    /// back to the available funds. A locked account does not stand in the
    /// way.
    pub fn resolve(&mut self, transaction_id: TransactionId) -> (outcome: Result<(), ResolveError>)
        requires
            old(self).wf(),
        ensures
            final(self).wf(),
            outcome == old(self)@.resolve_outcome(transaction_id.0),
            final(self)@ == old(self)@.after_resolve(transaction_id.0),
            outcome is Err ==> final(self)@ == old(self)@,
    {
        let amount = match self.deposit_history.check_resolve(transaction_id) {
            Ok(amount) => amount,
            Err(error) => {
                return Err(error);
            },
        };
        proof {
            lemma_resolve_keeps_consistent(self@, transaction_id.0);
        }
        match (self.held_funds.checked_sub(amount), self.available_funds.checked_add(amount)) {
            (Some(held), Some(available)) => match self.deposit_history.resolve(transaction_id) {
                Ok(_) => {
                    self.available_funds = available;
                    self.held_funds = held;
                    Ok(())
                },
                Err(error) => Err(error),
            },
            _ => Err(ResolveError::AmountOutOfRange),
        }
    }

    /// Charges a disputed deposit back: its amount leaves the held funds
    /// for good, and the account is locked. A locked account does not stand
    /// in the way.
    pub fn chargeback(&mut self, transaction_id: TransactionId) -> (outcome: Result<
        (),
        ChargebackError,
    >)
        requires
            old(self).wf(),
        ensures
            final(self).wf(),
            outcome == old(self)@.chargeback_outcome(transaction_id.0),
            final(self)@ == old(self)@.after_chargeback(transaction_id.0),
            outcome is Err ==> final(self)@ == old(self)@,
    {
        let amount = match self.deposit_history.check_chargeback(transaction_id) {
            Ok(amount) => amount,
            Err(error) => {
                return Err(error);
            },
        };
        proof {
            lemma_chargeback_keeps_consistent(self@, transaction_id.0);
        }
        match self.held_funds.checked_sub(amount) {
            Some(held) => match self.deposit_history.chargeback(transaction_id) {
                Ok(_) => {
                    self.held_funds = held;
                    self.locked = true;
                    Ok(())
                },
                Err(error) => Err(error),
            },
            None => Err(ChargebackError::AmountOutOfRange),
        }
    }
}

impl Default for Account {
    fn default() -> (account: Account)
        ensures
            account.wf(),
            account@ == AccountView::new(),
    {
        Account::new()
    }
}

} // verus!
