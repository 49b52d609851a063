use engine::account::{
    AccountError, ChargebackError, DepositError, DisputeError, ResolveError, WithdrawError,
};
use engine::engine::{Engine, EngineError};
use engine::event::EventError;
use engine::{ClientId, TransactionId};

#[test]
fn ids_wrap_their_numbers() {
    assert_eq!(ClientId::from(7).0, 7);
    assert_eq!(TransactionId::from(4_000_000_000).0, 4_000_000_000);
    assert_eq!(ClientId::from(7), ClientId(7));
    assert_ne!(TransactionId::from(1), TransactionId::from(2));
    assert_eq!(ClientId::default(), ClientId(0));
    assert_eq!(TransactionId::default(), TransactionId(0));
}

#[test]
fn account_error_names_the_operation_that_failed() {
    assert_eq!(
        AccountError::from(DepositError::AccountLocked),
        AccountError::Deposit(DepositError::AccountLocked)
    );
    assert_eq!(
        AccountError::from(WithdrawError::InsufficientFunds),
        AccountError::Withdraw(WithdrawError::InsufficientFunds)
    );
    assert_eq!(
        AccountError::from(DisputeError::DepositAlreadyDisputed),
        AccountError::Dispute(DisputeError::DepositAlreadyDisputed)
    );
    assert_eq!(
        AccountError::from(ResolveError::DepositNotDisputed),
        AccountError::Resolve(ResolveError::DepositNotDisputed)
    );
    assert_eq!(
        AccountError::from(ChargebackError::DepositAlreadyReversed),
        AccountError::Chargeback(ChargebackError::DepositAlreadyReversed)
    );
}

#[test]
fn engine_error_names_where_a_run_failed() {
    assert!(matches!(
        EngineError::from(AccountError::Deposit(DepositError::AccountLocked)),
        EngineError::AccountError(AccountError::Deposit(DepositError::AccountLocked))
    ));
    assert!(matches!(
        EngineError::from(EventError::MissingAmount),
        EngineError::EventError(EventError::MissingAmount)
    ));
    let io = std::io::Error::new(std::io::ErrorKind::Other, "closed");
    assert!(matches!(EngineError::from(io), EngineError::IoError(_)));
    let io = std::io::Error::new(std::io::ErrorKind::Other, "closed");
    assert!(matches!(EngineError::from(csv::Error::from(io)), EngineError::CsvError(_)));
}

#[test]
fn default_engine_has_no_accounts() {
    assert_eq!(
        Engine::default().write_accounts_state().unwrap(),
        "client,available,held,total,locked\n"
    );
}
