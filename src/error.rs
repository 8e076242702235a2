use vstd::prelude::*;

use crate::command::AccountCommand;

verus! {

/// The failures of the account aggregate and of the services around it.
#[derive(Debug, Clone)]
pub enum AccountError {
    /// No account holds the given email.
    AccountNotExists(String),
    /// An account already holds the given email.
    AccountExists(String),
    /// No transition of the state machine accepted the command.
    StateMachineTransitionFail(AccountCommand),
    /// A consistency or storage failure.
    UnknownError,
}

} // verus!
