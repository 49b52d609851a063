//! Events, and how a record of text fields is read as one.
//!
//! A record is `type, client, tx[, amount]`. The amount is required for
//! deposits and withdrawals and ignored for the other three types.

use crate::amount::{Amount, AmountView};
use crate::{ClientId, TransactionId};
use std::num::ParseIntError;
use vstd::prelude::*;

verus! {

/// The type of a deposit.
pub const DEPOSIT: &'static str = "deposit";

/// The type of a withdrawal.
pub const WITHDRAWAL: &'static str = "withdrawal";

/// The type of a dispute.
pub const DISPUTE: &'static str = "dispute";

/// The type of a resolution.
pub const RESOLVE: &'static str = "resolve";

/// The type of a chargeback.
pub const CHARGEBACK: &'static str = "chargeback";

/// The error that std reports for a text that is no integer of the type
/// asked for.
#[verifier::external_type_specification]
#[verifier::external_body]
pub struct ExParseIntError(ParseIntError);

/// Whether a character is one of `0` to `9`.
pub open spec fn is_digit(c: char) -> bool {
    '0' <= c <= '9'
}

/// The number that a sequence of digits denotes, read in base ten.
pub open spec fn digits_value(digits: Seq<char>) -> nat
    decreases digits.len(),
{
    if digits.len() == 0 {
        0
    } else {
        (digits_value(digits.drop_last()) * 10 + (digits.last() as u32 - '0' as u32)) as nat
    }
}

/// Whether a text is made of digits only.
pub open spec fn all_digits(text: Seq<char>) -> bool {
    forall|i: int| 0 <= i < text.len() ==> is_digit(#[trigger] text[i])
}

/// The number that a text of one or more digits denotes.
pub open spec fn digits_number(digits: Seq<char>) -> Option<nat> {
    if digits.len() > 0 && all_digits(digits) {
        Some(digits_value(digits))
    } else {
        None
    }
}

/// The number that a text denotes: one or more digits, after an optional
/// `+`. Nothing else is a number: no blanks, no `-`, no separators.
pub open spec fn unsigned_number(text: Seq<char>) -> Option<nat> {
    if text.len() > 0 && text[0] == '+' {
        digits_number(text.subrange(1, text.len() as int))
    } else {
        digits_number(text)
    }
}

/// The number below `limit` that a text denotes, if it denotes one.
pub open spec fn number_up_to(text: Seq<char>, limit: nat) -> Option<nat> {
    match unsigned_number(text) {
        Some(value) => if value <= limit {
            Some(value)
        } else {
            None
        },
        None => None,
    }
}

/// The number that came out of reading a text.
pub open spec fn number_read<N: Integer>(outcome: Result<N, ParseIntError>) -> Option<nat> {
    match outcome {
        Ok(value) => Some(value as nat),
        Err(_) => None,
    }
}

/// Reads a client id with std's `str::parse` for `u16`. Claimed of it, as
/// std documents: a text is accepted when it is an optional `+` followed by
/// digits only, at least one, and the number fits; the value is the number
/// that the digits denote.
#[verifier::external_body]
fn parse_u16(text: &str) -> (outcome: Result<u16, ParseIntError>)
    ensures
        number_read(outcome) == number_up_to(text@, 0xffff),
{
    text.parse::<u16>()
}

/// Reads a transaction id with std's `str::parse` for `u32`. Claimed of it,
/// as std documents: a text is accepted when it is an optional `+` followed
/// by digits only, at least one, and the number fits; the value is the
/// number that the digits denote.
#[verifier::external_body]
fn parse_u32(text: &str) -> (outcome: Result<u32, ParseIntError>)
    ensures
        number_read(outcome) == number_up_to(text@, 0xffff_ffff),
{
    text.parse::<u32>()
}

/// Why a record is no event.
#[derive(Debug)]
pub enum EventError {
    /// The type is none of the five known ones.
    UnknownType(String),
    /// The record is empty.
    MissingType,
    /// The record ends before the client id.
    MissingClientId,
    /// The record ends before the transaction id.
    MissingTransactionId,
    /// A deposit or withdrawal without an amount.
    MissingAmount,
    /// The client id is no 16-bit number.
    InvalidClientId(ParseIntError),
    /// The transaction id is no 32-bit number.
    InvalidTransactionId(ParseIntError),
    /// The amount is no decimal.
    InvalidAmount(rust_decimal::Error),
}

/// Why a record is no event, without what the parsers said in detail.
pub enum EventErrorKind {
    UnknownType(Seq<char>),
    MissingType,
    MissingClientId,
    MissingTransactionId,
    MissingAmount,
    InvalidClientId,
    InvalidTransactionId,
    InvalidAmount,
}

impl View for EventError {
    type V = EventErrorKind;

    open spec fn view(&self) -> EventErrorKind {
        match self {
            EventError::UnknownType(name) => EventErrorKind::UnknownType(name@),
            EventError::MissingType => EventErrorKind::MissingType,
            EventError::MissingClientId => EventErrorKind::MissingClientId,
            EventError::MissingTransactionId => EventErrorKind::MissingTransactionId,
            EventError::MissingAmount => EventErrorKind::MissingAmount,
            EventError::InvalidClientId(_) => EventErrorKind::InvalidClientId,
            EventError::InvalidTransactionId(_) => EventErrorKind::InvalidTransactionId,
            EventError::InvalidAmount(_) => EventErrorKind::InvalidAmount,
        }
    }
}

/// What an event asks for.
#[derive(Debug, Clone, Copy, PartialEq)]
pub enum EventData {
    Deposit { transaction_id: TransactionId, amount: Amount },
    Withdrawal { transaction_id: TransactionId, amount: Amount },
    Dispute { transaction_id: TransactionId },
    Resolve { transaction_id: TransactionId },
    Chargeback { transaction_id: TransactionId },
}

/// What an event asks for, as a mathematical value.
pub enum EventDataView {
    Deposit { tx: u32, amount: AmountView },
    Withdrawal { tx: u32, amount: AmountView },
    Dispute { tx: u32 },
    Resolve { tx: u32 },
    Chargeback { tx: u32 },
}

impl View for EventData {
    type V = EventDataView;

    open spec fn view(&self) -> EventDataView {
        match self {
            EventData::Deposit { transaction_id, amount } => EventDataView::Deposit {
                tx: transaction_id.0,
                amount: amount@,
            },
            EventData::Withdrawal { transaction_id, amount } => EventDataView::Withdrawal {
                tx: transaction_id.0,
                amount: amount@,
            },
            EventData::Dispute { transaction_id } => EventDataView::Dispute { tx: transaction_id.0 },
            EventData::Resolve { transaction_id } => EventDataView::Resolve { tx: transaction_id.0 },
            EventData::Chargeback { transaction_id } => EventDataView::Chargeback {
                tx: transaction_id.0,
            },
        }
    }
}

/// One event of one client.
#[derive(Debug, Clone, Copy, PartialEq)]
pub struct Event {
    pub client: ClientId,
    pub data: EventData,
}

/// One event of one client, as a mathematical value.
pub struct EventView {
    pub client: u16,
    pub data: EventDataView,
}

impl View for Event {
    type V = EventView;

    open spec fn view(&self) -> EventView {
        EventView { client: self.client.0, data: self.data@ }
    }
}

/// The fields of a record as plain texts.
pub open spec fn fields_of(record: Seq<String>) -> Seq<Seq<char>> {
    Seq::new(record.len(), |i: int| record[i]@)
}

/// What an event with this type, transaction and amount field asks for.
pub open spec fn parsed_data(name: Seq<char>, tx: u32, amount: Option<Seq<char>>) -> Result<
    EventDataView,
    EventErrorKind,
> {
    if name == DEPOSIT@ || name == WITHDRAWAL@ {
        match amount {
            None => Err(EventErrorKind::MissingAmount),
            Some(text) => match AmountView::parse(text) {
                None => Err(EventErrorKind::InvalidAmount),
                Some(amount) => if name == DEPOSIT@ {
                    Ok(EventDataView::Deposit { tx, amount })
                } else {
                    Ok(EventDataView::Withdrawal { tx, amount })
                },
            },
        }
    } else if name == DISPUTE@ {
        Ok(EventDataView::Dispute { tx })
    } else if name == RESOLVE@ {
        Ok(EventDataView::Resolve { tx })
    } else if name == CHARGEBACK@ {
        Ok(EventDataView::Chargeback { tx })
    } else {
        Err(EventErrorKind::UnknownType(name))
    }
}

/// The event that a record denotes, or the first thing that is wrong with
/// it: fields are looked at from left to right, and the type is judged
/// last, once client and transaction are known to be numbers.
pub open spec fn parsed_event(fields: Seq<Seq<char>>) -> Result<EventView, EventErrorKind> {
    if fields.len() < 1 {
        Err(EventErrorKind::MissingType)
    } else if fields.len() < 2 {
        Err(EventErrorKind::MissingClientId)
    } else if number_up_to(fields[1], 0xffff) is None {
        Err(EventErrorKind::InvalidClientId)
    } else if fields.len() < 3 {
        Err(EventErrorKind::MissingTransactionId)
    } else if number_up_to(fields[2], 0xffff_ffff) is None {
        Err(EventErrorKind::InvalidTransactionId)
    } else {
        let client = number_up_to(fields[1], 0xffff).unwrap() as u16;
        let tx = number_up_to(fields[2], 0xffff_ffff).unwrap() as u32;
        let amount = if fields.len() < 4 {
            None
        } else {
            Some(fields[3])
        };
        match parsed_data(fields[0], tx, amount) {
            Ok(data) => Ok(EventView { client, data }),
            Err(error) => Err(error),
        }
    }
}

/// An outcome of reading a record, as a mathematical value.
pub open spec fn event_outcome_view(outcome: Result<Event, EventError>) -> Result<
    EventView,
    EventErrorKind,
> {
    match outcome {
        Ok(event) => Ok(event@),
        Err(error) => Err(error@),
    }
}

/// Whether a field is the given word.
fn is_word(field: &String, word: &str) -> (same: bool)
    ensures
        same == (field@ == word@),
{
    *field == word.to_owned()
}

impl Event {
    /// Reads a record as an event.
    pub fn try_from(record: &Vec<String>) -> (outcome: Result<Event, EventError>)
        ensures
            event_outcome_view(outcome) == parsed_event(fields_of(record@)),
    {
        if record.len() < 1 {
            return Err(EventError::MissingType);
        }
        if record.len() < 2 {
            return Err(EventError::MissingClientId);
        }
        let client = match parse_u16(record[1].as_str()) {
            Ok(client) => client,
            Err(error) => {
                return Err(EventError::InvalidClientId(error));
            },
        };
        if record.len() < 3 {
            return Err(EventError::MissingTransactionId);
        }
        let transaction_id = match parse_u32(record[2].as_str()) {
            Ok(tx) => TransactionId(tx),
            Err(error) => {
                return Err(EventError::InvalidTransactionId(error));
            },
        };
        let name = &record[0];
        let data = if is_word(name, DEPOSIT) || is_word(name, WITHDRAWAL) {
            if record.len() < 4 {
                return Err(EventError::MissingAmount);
            }
            let amount = match Amount::parse(record[3].as_str()) {
                Ok(amount) => amount,
                Err(error) => {
                    return Err(EventError::InvalidAmount(error));
                },
            };
            if is_word(name, DEPOSIT) {
                EventData::Deposit { transaction_id, amount }
            } else {
                EventData::Withdrawal { transaction_id, amount }
            }
        } else if is_word(name, DISPUTE) {
            EventData::Dispute { transaction_id }
        } else if is_word(name, RESOLVE) {
            EventData::Resolve { transaction_id }
        } else if is_word(name, CHARGEBACK) {
            EventData::Chargeback { transaction_id }
        } else {
            return Err(EventError::UnknownType(name.clone()));
        };
        Ok(Event { client: ClientId(client), data })
    }
}

} // verus!
