use vstd::prelude::*;

use crate::aggregate::AccountAggregate;
use crate::command::AccountCommand;
use crate::event::AccountEvent;

verus! {

/// The positions of the account state machine.
#[derive(Debug, Clone, Copy, PartialEq, Eq, Structural)]
pub enum States {
    New,
    Created,
}

/// Whether `e` is the creation event that `command` asks for: it records the
/// command's email, carries 26-character identifiers and schema version 0.0.1.
pub open spec fn is_creation_for(e: AccountEvent, command: AccountCommand) -> bool {
    match (e, command) {
        (
            AccountEvent::AccountCreated { id, email, event_version, event_id, .. },
            AccountCommand::CreateAccount(c),
        ) => {
            &&& email == c.email
            &&& id@.len() == 26
            &&& event_id@.len() == 26
            &&& event_version@ == "0.0.1"@
        },
    }
}

/// Whether `e` is the creation event with these values and schema version 0.0.1.
pub open spec fn is_event(
    e: AccountEvent,
    id: String,
    email: String,
    password_hash: String,
    created_at: i64,
    event_id: String,
) -> bool {
    match e {
        AccountEvent::AccountCreated {
            id: i,
            email: m,
            password_hash: h,
            created_at: t,
            event_version,
            event_id: ei,
        } => {
            &&& i == id
            &&& m == email
            &&& h == password_hash
            &&& t == created_at
            &&& ei == event_id
            &&& event_version@ == "0.0.1"@
        },
    }
}

/// The scratch space of one decision: the command in, the event or error out, the
/// aggregate's folded state.
#[derive(Debug)]
pub struct AccountContext {
    pub command: Option<AccountCommand>,
    pub event: Option<AccountEvent>,
    pub error: Option<String>,
    pub current_state: Option<AccountAggregate>,
}

impl AccountContext {
    /// What the exit hook of `New` leaves behind once the hash, the identifiers and
    /// the time are known.
    pub open spec fn exit_result(
        self,
        fin: Self,
        hashed: Result<String, String>,
        id: String,
        event_id: String,
        created_at: i64,
    ) -> bool {
        match (self.command, hashed) {
            (None, _) => fin == self,
            (Some(AccountCommand::CreateAccount(c)), Ok(h)) => {
                &&& fin.command == self.command
                &&& fin.current_state == self.current_state
                &&& fin.error == self.error
                &&& fin.event.is_some()
                &&& is_event(fin.event.unwrap(), id, c.email, h, created_at, event_id)
            },
            (Some(_), Err(_)) => {
                &&& fin.command == self.command
                &&& fin.current_state == self.current_state
                &&& fin.event == self.event
                &&& fin.error.is_some()
            },
        }
    }

    pub fn new(current_state: Option<AccountAggregate>) -> (r: Self)
        ensures
            r.command.is_none(),
            r.event.is_none(),
            r.error.is_none(),
            r.current_state == current_state,
    {
        AccountContext { command: None, event: None, error: None, current_state }
    }

    pub fn get_event(&self) -> (r: &Option<AccountEvent>)
        ensures
            *r == self.event,
    {
        &self.event
    }

    pub fn set_event(&mut self, event: AccountEvent)
        ensures
            *final(self) == (AccountContext { event: Some(event), ..*old(self) }),
    {
        self.event = Some(event);
    }

    pub fn get_command(&self) -> (r: &Option<AccountCommand>)
        ensures
            *r == self.command,
    {
        &self.command
    }

    pub fn set_command(&mut self, command: AccountCommand)
        ensures
            *final(self) == (AccountContext { command: Some(command), ..*old(self) }),
    {
        self.command = Some(command);
    }

    pub fn get_current_state(&self) -> (r: &Option<AccountAggregate>)
        ensures
            *r == self.current_state,
    {
        &self.current_state
    }

    pub fn get_error(&self) -> (r: &Option<String>)
        ensures
            *r == self.error,
    {
        &self.error
    }

    pub fn set_error(&mut self, error: String)
        ensures
            *final(self) == (AccountContext { error: Some(error), ..*old(self) }),
    {
        self.error = Some(error);
    }
}

/// The state in which no account exists yet.
pub struct New;

impl New {
    /// Runs when the machine enters `New`; it changes nothing.
    pub fn entry(&mut self, context: &mut AccountContext)
        ensures
            *final(context) == *old(context),
    {
    }

    /// Runs when the machine leaves `New`. The password's hash, drawn from the domain
    /// services, and the fresh identifiers and time come in as arguments: on a
    /// successful hash the creation event is recorded, on a failed one an error.
    pub fn exit(
        &mut self,
        context: &mut AccountContext,
        hashed: Result<String, String>,
        id: String,
        event_id: String,
        created_at: i64,
    )
        ensures
            old(context).exit_result(*final(context), hashed, id, event_id, created_at),
    {
        let email = match &context.command {
            Some(AccountCommand::CreateAccount(c)) => c.email.clone(),
            None => {
                return ;
            },
        };
        match hashed {
            Ok(h) => {
                context.set_event(
                    AccountEvent::AccountCreated {
                        id,
                        email,
                        password_hash: h,
                        created_at,
                        event_version: "0.0.1".to_string(),
                        event_id,
                    },
                );
            },
            Err(_) => {
                context.set_error("Failed to hash password".to_string());
            },
        }
    }

    /// Runs while the machine stays in `New`; it changes nothing.
    pub fn update(&mut self, context: &mut AccountContext)
        ensures
            *final(context) == *old(context),
    {
    }
}

/// The guard of the transition from `New` to `Created`: a command is present and it
/// is a `CreateAccount`.
pub fn create_guard(context: &AccountContext) -> (r: bool)
    ensures
        r == context.command.is_some(),
{
    match &context.command {
        Some(c) => c.to_string() == "CreateAccount".to_string(),
        None => false,
    }
}

/// The account state machine: its current position.
#[derive(Debug)]
pub struct AccountMachine {
    pub state: States,
}

/// A machine positioned at `initial_state`.
pub fn create_account_machine(initial_state: States) -> (r: AccountMachine)
    ensures
        r.state == initial_state,
{
    AccountMachine { state: initial_state }
}

impl AccountMachine {
    /// One decision: the current state's exit hook runs, then the first transition
    /// whose guard holds fires and its target's entry hook runs. `New` has one
    /// transition, to `Created`; `Created` has none, so there nothing happens.
    pub fn decide(
        &mut self,
        context: &mut AccountContext,
        hashed: Result<String, String>,
        id: String,
        event_id: String,
        created_at: i64,
    )
        ensures
            old(self).state == States::Created ==> {
                &&& final(self).state == States::Created
                &&& *final(context) == *old(context)
            },
            old(self).state == States::New ==> {
                &&& old(context).exit_result(*final(context), hashed, id, event_id, created_at)
                &&& final(self).state == (if old(context).command.is_some() {
                    States::Created
                } else {
                    States::New
                })
            },
    {
        match self.state {
            States::New => {
                let mut hook = New;
                hook.exit(context, hashed, id, event_id, created_at);
                if create_guard(context) {
                    self.state = States::Created;
                }
            },
            States::Created => {},
        }
    }
}

} // verus!
