use engine::account::{AccountError, DepositError, DisputeError, WithdrawError};
use engine::amount::{Amount, MAX_MANTISSA};
use engine::engine::{Engine, EngineError};
use engine::event::{Event, EventData, EventError};
use engine::{run, ClientId, TransactionId};

fn dec(text: &str) -> Amount {
    text.parse().unwrap()
}

fn record(fields: &[&str]) -> Vec<String> {
    fields.iter().map(|field| field.to_string()).collect()
}

fn deposit(client: u16, id: u32, amount: &str) -> Event {
    Event {
        client: ClientId::from(client),
        data: EventData::Deposit { transaction_id: TransactionId::from(id), amount: dec(amount) },
    }
}

fn withdrawal(client: u16, id: u32, amount: &str) -> Event {
    Event {
        client: ClientId::from(client),
        data: EventData::Withdrawal { transaction_id: TransactionId::from(id), amount: dec(amount) },
    }
}

fn dispute(client: u16, id: u32) -> Event {
    Event { client: ClientId::from(client), data: EventData::Dispute { transaction_id: TransactionId::from(id) } }
}

fn resolve(client: u16, id: u32) -> Event {
    Event { client: ClientId::from(client), data: EventData::Resolve { transaction_id: TransactionId::from(id) } }
}

fn chargeback(client: u16, id: u32) -> Event {
    Event {
        client: ClientId::from(client),
        data: EventData::Chargeback { transaction_id: TransactionId::from(id) },
    }
}

fn report(engine: &Engine) -> String {
    engine.write_accounts_state().unwrap()
}

#[test]
fn empty_engine_reports_the_header_only() {
    assert_eq!(report(&Engine::new()), "client,available,held,total,locked\n");
    assert_eq!(run(b"").unwrap(), "client,available,held,total,locked\n");
    assert_eq!(run(b"type,client,tx,amount\n").unwrap(), "client,available,held,total,locked\n");
}

#[test]
fn account_is_made_on_first_reference() {
    let mut engine = Engine::new();
    assert_eq!(
        engine.handle_event(dispute(5, 1)),
        Err(AccountError::Dispute(DisputeError::DepositDoesNotExist))
    );
    assert_eq!(report(&engine), "client,available,held,total,locked\n5,0,0,0,false\n");
}

#[test]
fn handle_event_wraps_the_error_of_each_operation() {
    let mut engine = Engine::new();
    assert_eq!(engine.handle_event(deposit(1, 1, "10")), Ok(()));
    assert_eq!(
        engine.handle_event(deposit(1, 1, "10")),
        Err(AccountError::Deposit(DepositError::DuplicateTransactionId(TransactionId::from(1))))
    );
    assert_eq!(
        engine.handle_event(withdrawal(1, 2, "11")),
        Err(AccountError::Withdraw(WithdrawError::InsufficientFunds))
    );
    assert!(matches!(engine.handle_event(resolve(1, 1)), Err(AccountError::Resolve(_))));
    assert!(matches!(engine.handle_event(chargeback(1, 1)), Err(AccountError::Chargeback(_))));
    assert_eq!(report(&engine), "client,available,held,total,locked\n1,10,0,10,false\n");
}

#[test]
fn transaction_ids_are_tracked_per_account() {
    let mut engine = Engine::new();
    assert_eq!(engine.handle_event(deposit(1, 1, "10")), Ok(()));
    assert_eq!(engine.handle_event(deposit(2, 1, "20")), Ok(()));
    assert_eq!(engine.handle_event(dispute(2, 1)), Ok(()));
    assert_eq!(
        report(&engine),
        "client,available,held,total,locked\n1,10,0,10,false\n2,0,20,20,false\n"
    );
}

#[test]
fn withdrawal_ignores_its_transaction_id() {
    let mut engine = Engine::new();
    assert_eq!(engine.handle_event(deposit(1, 1, "10")), Ok(()));
    assert_eq!(engine.handle_event(withdrawal(1, 1, "4")), Ok(()));
    assert_eq!(engine.handle_event(withdrawal(1, 1, "4")), Ok(()));
    assert_eq!(engine.handle_event(deposit(1, 2, "1")), Ok(()));
    assert_eq!(report(&engine), "client,available,held,total,locked\n1,3,0,3,false\n");
}

#[test]
fn accounts_are_isolated() {
    let mut both = Engine::new();
    let mut first = Engine::new();
    let mut second = Engine::new();
    let events = [
        deposit(1, 1, "101.291"),
        deposit(2, 4, "55.55"),
        deposit(1, 2, "101.291"),
        dispute(2, 4),
        dispute(1, 2),
        withdrawal(2, 5, "10"),
        chargeback(1, 2),
        resolve(2, 4),
        withdrawal(1, 6, "1"),
        withdrawal(2, 6, "10"),
        dispute(2, 1),
    ];
    for event in events {
        let outcome = both.handle_event(event);
        let alone = if event.client == ClientId::from(1) {
            first.handle_event(event)
        } else {
            second.handle_event(event)
        };
        assert_eq!(outcome, alone);
    }
    assert_eq!(report(&first), "client,available,held,total,locked\n1,101.291,0.000,101.291,true\n");
    assert_eq!(report(&second), "client,available,held,total,locked\n2,45.55,0.00,45.55,false\n");
    assert_eq!(
        report(&both),
        "client,available,held,total,locked\n1,101.291,0.000,101.291,true\n2,45.55,0.00,45.55,false\n"
    );
}

#[test]
fn report_lists_clients_in_ascending_order() {
    let mut engine = Engine::new();
    for client in [300u16, 2, 65535, 0, 41, 10] {
        engine.handle_event(deposit(client, 1, "1.5")).unwrap();
    }
    assert_eq!(
        report(&engine),
        "client,available,held,total,locked\n\
         0,1.5,0,1.5,false\n\
         2,1.5,0,1.5,false\n\
         10,1.5,0,1.5,false\n\
         41,1.5,0,1.5,false\n\
         300,1.5,0,1.5,false\n\
         65535,1.5,0,1.5,false\n"
    );
}

#[test]
fn report_fails_where_a_total_is_out_of_range() {
    let mut engine = Engine::new();
    engine.handle_event(deposit(3, 1, "1")).unwrap();
    engine.handle_event(deposit(7, 1, "1")).unwrap();
    engine.handle_event(dispute(7, 1)).unwrap();
    let largest = Amount::new(MAX_MANTISSA, 0).unwrap();
    let event = Event {
        client: ClientId::from(7),
        data: EventData::Deposit { transaction_id: TransactionId::from(2), amount: largest },
    };
    engine.handle_event(event).unwrap();
    assert!(matches!(engine.write_accounts_state(), Err(EngineError::TotalOutOfRange(7))));
    engine.handle_event(resolve(7, 1)).unwrap_err();
    engine.handle_event(withdrawal(7, 3, "1")).unwrap();
    assert_eq!(
        report(&engine),
        "client,available,held,total,locked\n\
         3,1,0,1,false\n\
         7,79228162514264337593543950334,1,79228162514264337593543950335,false\n"
    );
}

#[test]
fn handle_record_reports_what_is_wrong_and_changes_nothing() {
    let mut engine = Engine::new();
    assert!(engine.handle_record(&record(&["deposit", "1", "1", "10"])).is_ok());
    assert!(matches!(
        engine.handle_record(&record(&["deposit", "1", "2"])),
        Err(EngineError::EventError(EventError::MissingAmount))
    ));
    assert!(matches!(
        engine.handle_record(&record(&["refund", "2", "2", "1"])),
        Err(EngineError::EventError(EventError::UnknownType(_)))
    ));
    assert!(matches!(
        engine.handle_record(&record(&["withdrawal", "1", "2", "11"])),
        Err(EngineError::AccountError(AccountError::Withdraw(WithdrawError::InsufficientFunds)))
    ));
    assert_eq!(report(&engine), "client,available,held,total,locked\n1,10,0,10,false\n");
}

#[test]
fn read_events_passes_over_bad_records_and_rejected_events() {
    let mut engine = Engine::new();
    let input = "type,client,tx,amount\n\
                 deposit,1,1,10\n\
                 refund,1,2,5\n\
                 deposit,x,3,5\n\
                 deposit,1,4\n\
                 deposit,1,5,much\n\
                 withdrawal,1,6,100\n\
                 \n\
                 deposit,1,7,2.5\n";
    assert!(engine.read_events(input.as_bytes()).is_ok());
    assert_eq!(report(&engine), "client,available,held,total,locked\n1,12.5,0,12.5,false\n");
}

#[test]
fn read_events_takes_the_first_line_as_headers() {
    let mut engine = Engine::new();
    assert!(engine.read_events(b"deposit,1,1,10\ndeposit,1,2,5\n").is_ok());
    assert_eq!(report(&engine), "client,available,held,total,locked\n1,5,0,5,false\n");
}

#[test]
fn read_events_trims_fields_and_accepts_short_and_long_records() {
    let mut engine = Engine::new();
    let input = "type, client, tx, amount\n  deposit ,\t1 , 1 ,  10.50  \ndispute, 1, 1\nresolve,1,1,,,\n";
    assert!(engine.read_events(input.as_bytes()).is_ok());
    assert_eq!(report(&engine), "client,available,held,total,locked\n1,10.50,0.00,10.50,false\n");
}

#[test]
fn read_events_continues_from_the_state_it_finds() {
    let mut engine = Engine::new();
    assert!(engine.read_events(b"type,client,tx,amount\ndeposit,1,1,10\n").is_ok());
    assert!(engine.read_events(b"type,client,tx,amount\ndeposit,1,1,10\ndeposit,2,1,3\n").is_ok());
    assert_eq!(
        report(&engine),
        "client,available,held,total,locked\n1,10,0,10,false\n2,3,0,3,false\n"
    );
}

#[test]
fn read_events_stops_at_a_malformed_record() {
    let mut engine = Engine::new();
    let input = b"type,client,tx,amount\ndeposit,1,1,10\ndeposit,1,2,\xff\xfe\ndeposit,1,3,10\n";
    assert!(matches!(engine.read_events(input), Err(EngineError::CsvError(_))));
    assert_eq!(report(&engine), "client,available,held,total,locked\n1,10,0,10,false\n");
}

#[test]
fn run_fails_on_a_malformed_input() {
    let input = b"type,client,tx,amount\ndeposit,1,1,10\n\xff,1,2,3\n";
    assert!(matches!(run(input), Err(EngineError::CsvError(_))));
}

#[test]
fn run_reports_every_client_that_was_referred_to() {
    let input = "type,client,tx,amount\nwithdrawal,9,1,5\ndeposit,4,2,1.00\nchargeback,2,2\n";
    assert_eq!(
        run(input.as_bytes()).unwrap(),
        "client,available,held,total,locked\n2,0,0,0,false\n4,1.00,0,1.00,false\n9,0,0,0,false\n"
    );
}

#[test]
fn dispute_of_another_clients_deposit_finds_nothing() {
    let mut engine = Engine::new();
    assert_eq!(engine.handle_event(deposit(1, 1, "10")), Ok(()));
    assert_eq!(
        engine.handle_event(dispute(2, 1)),
        Err(AccountError::Dispute(DisputeError::DepositDoesNotExist))
    );
    assert!(matches!(engine.handle_event(resolve(2, 1)), Err(AccountError::Resolve(_))));
    assert!(matches!(engine.handle_event(chargeback(2, 1)), Err(AccountError::Chargeback(_))));
    assert_eq!(
        report(&engine),
        "client,available,held,total,locked\n1,10,0,10,false\n2,0,0,0,false\n"
    );
}

#[test]
fn events_take_effect_in_the_order_of_the_log() {
    let early = "type,client,tx,amount\ndispute,1,1\ndeposit,1,1,10\n";
    let late = "type,client,tx,amount\ndeposit,1,1,10\ndispute,1,1\n";
    assert_eq!(
        run(early.as_bytes()).unwrap(),
        "client,available,held,total,locked\n1,10,0,10,false\n"
    );
    assert_eq!(
        run(late.as_bytes()).unwrap(),
        "client,available,held,total,locked\n1,0,10,10,false\n"
    );
}
