use vstd::prelude::*;

verus! {

/// A request to create a new account.
#[derive(Debug, Clone)]
pub struct CreateAccountCommand {
    pub email: String,
    pub password: String,
}

/// The commands that the account aggregate accepts.
#[derive(Debug, Clone)]
pub enum AccountCommand {
    CreateAccount(CreateAccountCommand),
}

impl AccountCommand {
    /// The name of the command's variant.
    pub fn to_string(&self) -> (r: String)
        ensures
            r@ == "CreateAccount"@,
    {
        match self {
            AccountCommand::CreateAccount(_) => "CreateAccount".to_string(),
        }
    }

    /// A field-for-field copy of the command.
    pub fn cloned(&self) -> (r: Self)
        ensures
            r == *self,
    {
        match self {
            AccountCommand::CreateAccount(c) => AccountCommand::CreateAccount(
                CreateAccountCommand { email: c.email.clone(), password: c.password.clone() },
            ),
        }
    }
}

impl From<CreateAccountCommand> for AccountCommand {
    fn from(c: CreateAccountCommand) -> (r: AccountCommand) {
        AccountCommand::CreateAccount(c)
    }
}

impl vstd::std_specs::convert::FromSpecImpl<CreateAccountCommand> for AccountCommand {
    open spec fn obeys_from_spec() -> bool {
        true
    }

    open spec fn from_spec(c: CreateAccountCommand) -> AccountCommand {
        AccountCommand::CreateAccount(c)
    }
}

/// The input of the account-creation request, as a transport adapter receives it.
#[derive(Debug, Clone)]
pub struct GraphQLCreateAccountInput {
    pub email: String,
    pub password: String,
}

impl GraphQLCreateAccountInput {
    pub fn new(email: String, password: String) -> (r: Self)
        ensures
            r.email == email,
            r.password == password,
    {
        GraphQLCreateAccountInput { email, password }
    }
}

} // verus!
