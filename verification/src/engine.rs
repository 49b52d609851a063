//! The engine: every client's account, and the replay of an event log
//! against them.

use crate::account::{Account, AccountError, AccountView};
use crate::amount::{Amount, AmountView};
use crate::event::{
    fields_of, parsed_event, Event, EventData, EventDataView, EventError, EventErrorKind,
    EventView,
};
use std::collections::HashMap;
use vstd::prelude::*;

verus! {

broadcast use vstd::std_specs::hash::group_hash_axioms;

/// The error of reading or writing a stream.
#[verifier::external_type_specification]
#[verifier::external_body]
pub struct ExIoError(std::io::Error);

/// The error that `csv` reports for a malformed record stream.
#[verifier::external_type_specification]
#[verifier::external_body]
pub struct ExCsvError(csv::Error);

/// Why a run, or one step of it, failed.
#[derive(Debug)]
pub enum EngineError {
    /// The input could not be read, or the output not written.
    IoError(std::io::Error),
    /// The input is no stream of records.
    CsvError(csv::Error),
    /// A record is no event.
    EventError(EventError),
    /// An event was rejected by its account.
    AccountError(AccountError),
    /// The total funds of this client are more than an amount can hold
    /// exactly, so they cannot be reported.
    TotalOutOfRange(u16),
}

impl From<std::io::Error> for EngineError {
    fn from(error: std::io::Error) -> (wrapped: EngineError) {
        EngineError::IoError(error)
    }
}

impl vstd::std_specs::convert::FromSpecImpl<std::io::Error> for EngineError {
    open spec fn obeys_from_spec() -> bool {
        true
    }

    open spec fn from_spec(error: std::io::Error) -> EngineError {
        EngineError::IoError(error)
    }
}

impl From<csv::Error> for EngineError {
    fn from(error: csv::Error) -> (wrapped: EngineError) {
        EngineError::CsvError(error)
    }
}

impl vstd::std_specs::convert::FromSpecImpl<csv::Error> for EngineError {
    open spec fn obeys_from_spec() -> bool {
        true
    }

    open spec fn from_spec(error: csv::Error) -> EngineError {
        EngineError::CsvError(error)
    }
}

impl From<EventError> for EngineError {
    fn from(error: EventError) -> (wrapped: EngineError) {
        EngineError::EventError(error)
    }
}

impl vstd::std_specs::convert::FromSpecImpl<EventError> for EngineError {
    open spec fn obeys_from_spec() -> bool {
        true
    }

    open spec fn from_spec(error: EventError) -> EngineError {
        EngineError::EventError(error)
    }
}

impl From<AccountError> for EngineError {
    fn from(error: AccountError) -> (wrapped: EngineError) {
        EngineError::AccountError(error)
    }
}

impl vstd::std_specs::convert::FromSpecImpl<AccountError> for EngineError {
    open spec fn obeys_from_spec() -> bool {
        true
    }

    open spec fn from_spec(error: AccountError) -> EngineError {
        EngineError::AccountError(error)
    }
}

/// Why a run, or one step of it, failed, without what the readers said in
/// detail.
pub enum EngineErrorKind {
    Io,
    Csv,
    Event(EventErrorKind),
    Account(AccountError),
    TotalOutOfRange(u16),
}

impl View for EngineError {
    type V = EngineErrorKind;

    open spec fn view(&self) -> EngineErrorKind {
        match self {
            EngineError::IoError(_) => EngineErrorKind::Io,
            EngineError::CsvError(_) => EngineErrorKind::Csv,
            EngineError::EventError(error) => EngineErrorKind::Event(error@),
            EngineError::AccountError(error) => EngineErrorKind::Account(*error),
            EngineError::TotalOutOfRange(client) => EngineErrorKind::TotalOutOfRange(*client),
        }
    }
}

/// The accounts of all clients, by client id.
pub type Accounts = Map<u16, AccountView>;

/// Whether an account accepts an event, and if not, why.
pub open spec fn outcome_of(account: AccountView, data: EventDataView) -> Result<(), AccountError> {
    match data {
        EventDataView::Deposit { tx, amount } => match account.deposit_outcome(tx, amount) {
            Ok(_) => Ok(()),
            Err(error) => Err(AccountError::Deposit(error)),
        },
        EventDataView::Withdrawal { tx, amount } => match account.withdraw_outcome(amount) {
            Ok(_) => Ok(()),
            Err(error) => Err(AccountError::Withdraw(error)),
        },
        EventDataView::Dispute { tx } => match account.dispute_outcome(tx) {
            Ok(_) => Ok(()),
            Err(error) => Err(AccountError::Dispute(error)),
        },
        EventDataView::Resolve { tx } => match account.resolve_outcome(tx) {
            Ok(_) => Ok(()),
            Err(error) => Err(AccountError::Resolve(error)),
        },
        EventDataView::Chargeback { tx } => match account.chargeback_outcome(tx) {
            Ok(_) => Ok(()),
            Err(error) => Err(AccountError::Chargeback(error)),
        },
    }
}

/// An account after an event. A rejected event leaves it as it was.
pub open spec fn applied(account: AccountView, data: EventDataView) -> AccountView {
    match data {
        EventDataView::Deposit { tx, amount } => account.after_deposit(tx, amount),
        EventDataView::Withdrawal { tx, amount } => account.after_withdraw(amount),
        EventDataView::Dispute { tx } => account.after_dispute(tx),
        EventDataView::Resolve { tx } => account.after_resolve(tx),
        EventDataView::Chargeback { tx } => account.after_chargeback(tx),
    }
}

/// The account of a client: a new one, if the client has not been seen.
pub open spec fn account_of(accounts: Accounts, client: u16) -> AccountView {
    if accounts.contains_key(client) {
        accounts[client]
    } else {
        AccountView::new()
    }
}

/// The accounts after one event: the client's account, made on first
/// reference, has taken the event; no other account has changed.
pub open spec fn handled(accounts: Accounts, event: EventView) -> Accounts {
    accounts.insert(event.client, applied(account_of(accounts, event.client), event.data))
}

/// The accounts after a sequence of events, taken in order.
pub open spec fn replayed(accounts: Accounts, events: Seq<EventView>) -> Accounts
    decreases events.len(),
{
    if events.len() == 0 {
        accounts
    } else {
        handled(replayed(accounts, events.drop_last()), events.last())
    }
}

/// The events that a sequence of records denotes. A record that is no
/// event is passed over.
pub open spec fn events_of(records: Seq<Seq<Seq<char>>>) -> Seq<EventView>
    decreases records.len(),
{
    if records.len() == 0 {
        Seq::empty()
    } else {
        match parsed_event(records.last()) {
            Ok(event) => events_of(records.drop_last()).push(event),
            Err(_) => events_of(records.drop_last()),
        }
    }
}

/// The accounts after one record: after its event, if it denotes one.
pub open spec fn after_record(accounts: Accounts, fields: Seq<Seq<char>>) -> Accounts {
    match parsed_event(fields) {
        Ok(event) => handled(accounts, event),
        Err(_) => accounts,
    }
}

/// What handling one record reports.
pub open spec fn record_outcome(accounts: Accounts, fields: Seq<Seq<char>>) -> Result<
    (),
    EngineErrorKind,
> {
    match parsed_event(fields) {
        Ok(event) => match outcome_of(account_of(accounts, event.client), event.data) {
            Ok(_) => Ok(()),
            Err(error) => Err(EngineErrorKind::Account(error)),
        },
        Err(error) => Err(EngineErrorKind::Event(error)),
    }
}

/// An outcome of the engine, as a mathematical value.
pub open spec fn outcome_kind<T>(outcome: Result<T, EngineError>) -> Result<T, EngineErrorKind> {
    match outcome {
        Ok(value) => Ok(value),
        Err(error) => Err(error@),
    }
}

/// All accounts are consistent.
pub open spec fn all_consistent(accounts: Accounts) -> bool {
    forall|client: u16| accounts.contains_key(client) ==> (#[trigger] accounts[client]).consistent()
}

/// The records as plain texts.
pub open spec fn records_of(records: Seq<Vec<String>>) -> Seq<Seq<Seq<char>>> {
    Seq::new(records.len(), |i: int| fields_of(records[i]@))
}

/// What `csv` makes of an input: the records that its reader yields before
/// the first error, each as its fields, and whether an error ended them. The
/// reader takes the first line as headers, accepts records of any length
/// and trims every field.
pub uninterp spec fn csv_read(input: Seq<u8>) -> (Seq<Seq<Seq<char>>>, bool);

/// Reads records with `csv::Reader::records`, from a reader built by
/// `csv::ReaderBuilder` with headers, flexible record lengths and trimming
/// of all fields. Claimed of it: what it yields is a function of the input
/// alone, named `csv_read`.
#[verifier::external_body]
fn read_records(input: &[u8]) -> (outcome: (Vec<Vec<String>>, Option<csv::Error>))
    ensures
        records_of(outcome.0@) == csv_read(input@).0,
        outcome.1 is Some == csv_read(input@).1,
{
    let mut builder = csv::ReaderBuilder::new();
    builder.has_headers(true).flexible(true).trim(csv::Trim::All);
    let mut records = Vec::new();
    for record in builder.from_reader(input).records() {
        match record {
            Ok(record) => records.push(record.iter().map(String::from).collect()),
            Err(error) => return (records, Some(error)),
        }
    }
    (records, None)
}

/// Taking one more record adds its event, if it denotes one.
pub proof fn lemma_events_of_next(records: Seq<Seq<Seq<char>>>, done: int)
    requires
        0 <= done < records.len(),
    ensures
        events_of(records.take(done + 1)) == match parsed_event(records[done]) {
            Ok(event) => events_of(records.take(done)).push(event),
            Err(_) => events_of(records.take(done)),
        },
{
    assert(records.take(done + 1).drop_last() =~= records.take(done));
}

/// Replaying one more event is handling it after the others.
pub proof fn lemma_replayed_next(accounts: Accounts, events: Seq<EventView>, event: EventView)
    ensures
        replayed(accounts, events.push(event)) == handled(replayed(accounts, events), event),
{
    assert(events.push(event).drop_last() =~= events);
}

/// The first line of a report.
pub const HEADER: &'static str = "client,available,held,total,locked\n";

/// One decimal digit as a text.
pub open spec fn digit_text(digit: nat) -> Seq<char> {
    if digit == 0 {
        "0"@
    } else if digit == 1 {
        "1"@
    } else if digit == 2 {
        "2"@
    } else if digit == 3 {
        "3"@
    } else if digit == 4 {
        "4"@
    } else if digit == 5 {
        "5"@
    } else if digit == 6 {
        "6"@
    } else if digit == 7 {
        "7"@
    } else if digit == 8 {
        "8"@
    } else {
        "9"@
    }
}

/// A number in decimal notation, without leading zeros.
pub open spec fn number_text(number: nat) -> Seq<char>
    decreases number,
{
    if number < 10 {
        digit_text(number)
    } else {
        number_text(number / 10) + digit_text(number % 10)
    }
}

/// `true` or `false`.
pub open spec fn flag_text(flag: bool) -> Seq<char> {
    if flag {
        "true"@
    } else {
        "false"@
    }
}

/// The line of a report that states one account:
/// `client,available,held,total,locked`.
pub open spec fn line(client: u16, account: AccountView, total: AmountView) -> Seq<char> {
    number_text(client as nat) + ","@ + account.available.text() + ","@ + account.held.text()
        + ","@ + total.text() + ","@ + flag_text(account.locked) + "\n"@
}

/// The report on the clients below `bound`: the header, then one line for
/// each account, by ascending client id. No report can be made where the
/// total funds of an account are more than an amount can hold exactly; the
/// first such client is named.
pub open spec fn report_below(accounts: Accounts, bound: nat) -> Result<Seq<char>, EngineErrorKind>
    decreases bound,
{
    if bound == 0 {
        Ok(HEADER@)
    } else {
        let client = (bound - 1) as u16;
        match report_below(accounts, (bound - 1) as nat) {
            Err(error) => Err(error),
            Ok(text) => if accounts.contains_key(client) {
                match accounts[client].available.plus(accounts[client].held) {
                    Some(total) => Ok(text + line(client, accounts[client], total)),
                    None => Err(EngineErrorKind::TotalOutOfRange(client)),
                }
            } else {
                Ok(text)
            },
        }
    }
}

/// The report on all clients.
pub open spec fn report(accounts: Accounts) -> Result<Seq<char>, EngineErrorKind> {
    report_below(accounts, 0x1_0000)
}

/// An outcome that carries a text, as a mathematical value.
pub open spec fn text_outcome(outcome: Result<String, EngineError>) -> Result<
    Seq<char>,
    EngineErrorKind,
> {
    match outcome {
        Ok(text) => Ok(text@),
        Err(error) => Err(error@),
    }
}

/// One decimal digit as a text.
fn digit_word(digit: u16) -> (word: &'static str)
    requires
        digit < 10,
    ensures
        word@ == digit_text(digit as nat),
{
    if digit == 0 {
        "0"
    } else if digit == 1 {
        "1"
    } else if digit == 2 {
        "2"
    } else if digit == 3 {
        "3"
    } else if digit == 4 {
        "4"
    } else if digit == 5 {
        "5"
    } else if digit == 6 {
        "6"
    } else if digit == 7 {
        "7"
    } else if digit == 8 {
        "8"
    } else {
        "9"
    }
}

/// A client id in decimal notation.
fn client_text(client: u16) -> (text: String)
    ensures
        text@ == number_text(client as nat),
    decreases client,
{
    if client < 10 {
        digit_word(client).to_owned()
    } else {
        let mut text = client_text(client / 10);
        text.append(digit_word(client % 10));
        text
    }
}

/// Appends the line that states one account.
fn append_line(text: &mut String, client: u16, account: &Account, total: Amount)
    ensures
        final(text)@ == old(text)@ + line(client, account@, total@),
{
    text.append(client_text(client).as_str());
    text.append(",");
    text.append(account.available_funds().to_text().as_str());
    text.append(",");
    text.append(account.held_funds().to_text().as_str());
    text.append(",");
    text.append(total.to_text().as_str());
    text.append(",");
    text.append(if account.is_locked() { "true" } else { "false" });
    text.append("\n");
}

/// Orchestrates the accounts of all clients.
#[derive(Debug)]
pub struct Engine {
    accounts: HashMap<u16, Account>,
}

impl View for Engine {
    type V = Accounts;

    closed spec fn view(&self) -> Accounts {
        Map::new(
            |client: u16| self.accounts@.contains_key(client),
            |client: u16| self.accounts@[client]@,
        )
    }
}

impl Engine {
    /// What holds of every engine: each of its accounts is consistent.
    pub open spec fn wf(&self) -> bool {
        all_consistent(self@)
    }

    /// An engine without accounts.
    pub fn new() -> (engine: Engine)
        ensures
            engine.wf(),
            engine@ == Accounts::empty(),
    {
        let engine = Engine { accounts: HashMap::new() };
        assert(engine@ =~= Accounts::empty());
        engine
    }

    /// Hands an event to the account of its client, which is made on first
    /// reference. A rejected event changes nothing but that.
    pub fn handle_event(&mut self, event: Event) -> (outcome: Result<(), AccountError>)
        requires
            old(self).wf(),
        ensures
            final(self).wf(),
            outcome == outcome_of(account_of(old(self)@, event@.client), event@.data),
            final(self)@ == handled(old(self)@, event@),
    {
        let client = event.client.0;
        let mut account = match self.accounts.remove(&client) {
            Some(account) => account,
            None => Account::new(),
        };
        assert(account@ == account_of(old(self)@, client));
        let outcome = match event.data {
            EventData::Deposit { transaction_id, amount } => match account.deposit(
                transaction_id,
                amount,
            ) {
                Ok(_) => Ok(()),
                Err(error) => Err(AccountError::Deposit(error)),
            },
            EventData::Withdrawal { transaction_id: _, amount } => match account.withdraw(amount) {
                Ok(_) => Ok(()),
                Err(error) => Err(AccountError::Withdraw(error)),
            },
            EventData::Dispute { transaction_id } => match account.dispute(transaction_id) {
                Ok(_) => Ok(()),
                Err(error) => Err(AccountError::Dispute(error)),
            },
            EventData::Resolve { transaction_id } => match account.resolve(transaction_id) {
                Ok(_) => Ok(()),
                Err(error) => Err(AccountError::Resolve(error)),
            },
            EventData::Chargeback { transaction_id } => match account.chargeback(transaction_id) {
                Ok(_) => Ok(()),
                Err(error) => Err(AccountError::Chargeback(error)),
            },
        };
        self.accounts.insert(client, account);
        assert(self@ =~= handled(old(self)@, event@));
        outcome
    }

    /// Reads a record as an event and hands it on. A record that is no
    /// event, and an event that its account rejects, are reported and
    /// change nothing.
    pub fn handle_record(&mut self, record: &Vec<String>) -> (outcome: Result<(), EngineError>)
        requires
            old(self).wf(),
        ensures
            final(self).wf(),
            outcome_kind(outcome) == record_outcome(old(self)@, fields_of(record@)),
            final(self)@ == after_record(old(self)@, fields_of(record@)),
    {
        match Event::try_from(record) {
            Ok(event) => match self.handle_event(event) {
                Ok(_) => Ok(()),
                Err(error) => Err(EngineError::AccountError(error)),
            },
            Err(error) => Err(EngineError::EventError(error)),
        }
    }

    /// Replays an event log: reads the input as records and handles them
    /// in order. Records that are no events, and events that their account
    /// rejects, are passed over. A malformed input ends the replay with an
    /// error; the records before it have been handled.
    pub fn read_events(&mut self, input: &[u8]) -> (outcome: Result<(), EngineError>)
        requires
            old(self).wf(),
        ensures
            final(self).wf(),
            final(self)@ == replayed(old(self)@, events_of(csv_read(input@).0)),
            outcome is Err == csv_read(input@).1,
            outcome matches Err(error) ==> error@ == EngineErrorKind::Csv,
    {
        let ghost before = self@;
        let (records, failure) = read_records(input);
        let ghost texts = records_of(records@);
        let mut done: usize = 0;
        assert(texts.take(0) =~= Seq::empty());
        while done < records.len()
            invariant
                done <= records.len(),
                texts == records_of(records@),
                self.wf(),
                self@ == replayed(before, events_of(texts.take(done as int))),
            decreases records.len() - done,
        {
            proof {
                lemma_events_of_next(texts, done as int);
                if let Ok(event) = parsed_event(texts[done as int]) {
                    lemma_replayed_next(before, events_of(texts.take(done as int)), event);
                }
            }
            let _ = self.handle_record(&records[done]);
            done = done + 1;
        }
        assert(texts.take(done as int) =~= texts);
        match failure {
            Some(error) => Err(EngineError::CsvError(error)),
            None => Ok(()),
        }
    }

    /// The report on all accounts: the header, then one line for each
    /// account, by ascending client id.
    pub fn write_accounts_state(&self) -> (outcome: Result<String, EngineError>)
        ensures
            text_outcome(outcome) == report(self@),
    {
        let mut text = HEADER.to_owned();
        let mut next: u32 = 0;
        while next < 0x1_0000
            invariant
                next <= 0x1_0000,
                report_below(self@, next as nat) == Ok::<Seq<char>, EngineErrorKind>(text@),
            decreases 0x1_0000 - next,
        {
            let client = next as u16;
            match self.accounts.get(&client) {
                Some(account) => match account.total_funds() {
                    Some(total) => {
                        append_line(&mut text, client, account, total);
                    },
                    None => {
                        proof {
                            lemma_report_stays_failed(self@, (next + 1) as nat, 0x1_0000);
                        }
                        return Err(EngineError::TotalOutOfRange(client));
                    },
                },
                None => {},
            }
            next = next + 1;
        }
        Ok(text)
    }
}

impl Default for Engine {
    fn default() -> (engine: Engine)
        ensures
            engine.wf(),
            engine@ == Accounts::empty(),
    {
        Engine::new()
    }
}

/// Once no report can be made, none can be made on more clients either.
pub proof fn lemma_report_stays_failed(accounts: Accounts, failed: nat, bound: nat)
    requires
        failed <= bound,
        report_below(accounts, failed) is Err,
    ensures
        report_below(accounts, bound) == report_below(accounts, failed),
    decreases bound,
{
    if failed < bound {
        lemma_report_stays_failed(accounts, failed, (bound - 1) as nat);
    }
}

} // verus!
