use vstd::prelude::*;

use crate::command::AccountCommand;
use crate::error::AccountError;
use crate::event::AccountEvent;
use crate::ids::{new_ulid, now_timestamp};
use crate::machine::{create_account_machine, is_creation_for, is_event, AccountContext, States};
use crate::services::TAccountServices;

verus! {

/// How many events an aggregate folds in one process before it asks to be snapshotted.
pub const SNAPSHOT_THRESHOLD: u64 = 10;

/// The folded, in-memory state of one account.
#[derive(Debug, Clone, PartialEq, Eq)]
pub struct AccountAggregate {
    pub id: Option<String>,
    pub email: Option<String>,
    pub status: Option<String>,
    pub password_hash: Option<String>,
    /// Seconds since the Unix epoch.
    pub created_at: Option<i64>,
    /// The event folded in last; it fixes the state machine's position.
    pub last_event: Option<AccountEvent>,
    /// How many events this value has folded since it was made.
    pub applied_events: u64,
}

/// A point-in-time copy of an aggregate.
#[derive(Debug, Clone, PartialEq, Eq)]
pub struct AggregateSnapshot {
    pub aggregate_id: String,
    pub aggregate_type: String,
    pub payload: AccountAggregate,
    /// The sequence of the last event folded into `payload`.
    pub last_sequence: String,
    pub snapshot_id: String,
    /// Seconds since the Unix epoch.
    pub timestamp: i64,
}

/// A copy of an optional string.
fn clone_text(o: &Option<String>) -> (r: Option<String>)
    ensures
        r == *o,
{
    match o {
        Some(s) => Some(s.clone()),
        None => None,
    }
}

impl AccountAggregate {
    /// The aggregate before any event: nothing assigned, nothing counted.
    pub open spec fn initial() -> Self {
        AccountAggregate {
            id: None,
            email: None,
            status: None,
            password_hash: None,
            created_at: None,
            last_event: None,
            applied_events: 0,
        }
    }

    /// The aggregate after folding in one more event.
    pub open spec fn applied(self, e: AccountEvent) -> Self {
        match e {
            AccountEvent::AccountCreated { id, email, password_hash, created_at, .. } => {
                AccountAggregate {
                    id: Some(id),
                    email: Some(email),
                    password_hash: Some(password_hash),
                    created_at: Some(created_at),
                    last_event: Some(e),
                    applied_events: (self.applied_events + 1) as u64,
                    ..self
                }
            },
        }
    }

    /// The aggregate after folding in `events`, first to last.
    pub open spec fn folded(self, events: Seq<AccountEvent>) -> Self
        decreases events.len(),
    {
        if events.len() == 0 {
            self
        } else {
            self.folded(events.drop_last()).applied(events.last())
        }
    }

    /// The aggregate with its folded fields taken from `p`; the counter stays.
    pub open spec fn restored(self, p: AccountAggregate) -> Self {
        AccountAggregate { applied_events: self.applied_events, ..p }
    }

    /// Everything that folding decides: all fields but the counter.
    pub open spec fn state(self) -> (
        Option<String>,
        Option<String>,
        Option<String>,
        Option<String>,
        Option<i64>,
        Option<AccountEvent>,
    ) {
        (self.id, self.email, self.status, self.password_hash, self.created_at, self.last_event)
    }

    /// Whether `snapshot` hands out a snapshot of this aggregate.
    pub open spec fn snapshot_due(self) -> bool {
        &&& self.applied_events >= SNAPSHOT_THRESHOLD
        &&& self.id.is_some()
        &&& self.last_event.is_some()
    }

    /// The state machine's position that the last folded event stands for: none
    /// means `New`, an `AccountCreated` means `Created`.
    pub open spec fn position(self) -> States {
        match self.last_event {
            None => States::New,
            Some(AccountEvent::AccountCreated { .. }) => States::Created,
        }
    }

    /// The state machine's position, recovered from the last folded event.
    pub fn machine_state(&self) -> (r: States)
        ensures
            r == self.position(),
    {
        match &self.last_event {
            None => States::New,
            Some(AccountEvent::AccountCreated { .. }) => States::Created,
        }
    }

    /// Decides which events the command produces. In position `New` the password is
    /// hashed by the domain services (the one call out during a decision); fresh
    /// identifiers and the current time are drawn; then `handle_with` drives the
    /// machine. It fails with `StateMachineTransitionFail` when no event comes out:
    /// always from `Created`, and from `New` when hashing failed.
    pub fn handle<S: TAccountServices>(&self, command: AccountCommand, services: &S) -> (r: Result<
        Vec<AccountEvent>,
        AccountError,
    >)
        ensures
            self.last_event.is_some() ==> r == Err::<Vec<AccountEvent>, AccountError>(
                AccountError::StateMachineTransitionFail(command),
            ),
            self.last_event.is_none() ==> match r {
                Ok(v) => v@.len() == 1 && is_creation_for(v@[0], command),
                Err(e) => e == AccountError::StateMachineTransitionFail(command),
            },
    {
        let hashed = match (self.machine_state(), &command) {
            (States::New, AccountCommand::CreateAccount(c)) => services.hash_password(
                c.password.clone(),
            ),
            _ => Err(String::new()),
        };
        let id = new_ulid();
        let event_id = new_ulid();
        let created_at = now_timestamp();
        self.handle_with(command, hashed, id, event_id, created_at)
    }

    /// The decision once the hash, the identifiers and the time are known: from
    /// `New`, a successful hash gives exactly the creation event with these values
    /// and a failed one gives `StateMachineTransitionFail`; from `Created`, always
    /// `StateMachineTransitionFail`.
    pub fn handle_with(
        &self,
        command: AccountCommand,
        hashed: Result<String, String>,
        id: String,
        event_id: String,
        created_at: i64,
    ) -> (r: Result<Vec<AccountEvent>, AccountError>)
        ensures
            (self.last_event.is_some() || hashed.is_err()) ==> r == Err::<
                Vec<AccountEvent>,
                AccountError,
            >(AccountError::StateMachineTransitionFail(command)),
            self.last_event.is_none() ==> match (command, hashed) {
                (AccountCommand::CreateAccount(c), Ok(h)) => {
                    &&& r is Ok
                    &&& r->Ok_0@.len() == 1
                    &&& is_event(r->Ok_0@[0], id, c.email, h, created_at, event_id)
                },
                _ => true,
            },
    {
        let mut context = match &self.last_event {
            Some(_) => AccountContext::new(Some(self.cloned())),
            None => AccountContext::new(None),
        };
        let mut machine = create_account_machine(self.machine_state());
        context.set_command(command.cloned());
        machine.decide(&mut context, hashed, id, event_id, created_at);
        match context.event {
            Some(e) => {
                let mut v: Vec<AccountEvent> = Vec::new();
                v.push(e);
                Ok(v)
            },
            None => Err(AccountError::StateMachineTransitionFail(command)),
        }
    }

    /// The kind of aggregate, as stored with its snapshots.
    pub fn aggregate_type() -> (r: String)
        ensures
            r@ == "Account"@,
    {
        "Account".to_string()
    }

    /// The identity, once an event has assigned it.
    pub fn aggregate_id(&self) -> (r: Option<String>)
        ensures
            r == self.id,
    {
        clone_text(&self.id)
    }

    /// A field-for-field copy of the aggregate.
    pub fn cloned(&self) -> (r: Self)
        ensures
            r == *self,
    {
        AccountAggregate {
            id: clone_text(&self.id),
            email: clone_text(&self.email),
            status: clone_text(&self.status),
            password_hash: clone_text(&self.password_hash),
            created_at: self.created_at,
            last_event: match &self.last_event {
                Some(e) => Some(e.cloned()),
                None => None,
            },
            applied_events: self.applied_events,
        }
    }

    /// Folds one event into the aggregate and counts it.
    pub fn apply(&mut self, event: AccountEvent)
        requires
            old(self).applied_events < u64::MAX,
        ensures
            *final(self) == old(self).applied(event),
            final(self).applied_events == old(self).applied_events + 1,
    {
        self.applied_events = self.applied_events + 1;
        match &event {
            AccountEvent::AccountCreated { id, email, password_hash, created_at, .. } => {
                self.id = Some(id.clone());
                self.email = Some(email.clone());
                self.password_hash = Some(password_hash.clone());
                self.created_at = Some(*created_at);
            },
        }
        self.last_event = Some(event);
    }

    /// Replaces the folded fields with those of the snapshot; the counter stays.
    pub fn apply_snapshot(&mut self, snapshot: AggregateSnapshot)
        ensures
            *final(self) == old(self).restored(snapshot.payload),
    {
        let payload = snapshot.payload;
        self.id = payload.id;
        self.email = payload.email;
        self.password_hash = payload.password_hash;
        self.created_at = payload.created_at;
        self.last_event = payload.last_event;
        self.status = payload.status;
    }

    /// A snapshot of the aggregate once it has folded enough events, with a fresh
    /// identifier and the current time.
    pub fn snapshot(&mut self) -> (r: Option<AggregateSnapshot>)
        ensures
            *final(self) == *old(self),
            r.is_some() == old(self).snapshot_due(),
            r matches Some(s) ==> {
                &&& Some(s.aggregate_id) == old(self).id
                &&& s.aggregate_type@ == "Account"@
                &&& s.payload == *old(self)
                &&& s.last_sequence@ == old(self).last_event.unwrap().id_of()
                &&& s.snapshot_id@.len() == 26
            },
    {
        if self.applied_events >= SNAPSHOT_THRESHOLD {
            match (&self.id, &self.last_event) {
                (Some(id), Some(last)) => {
                    let snapshot = AggregateSnapshot {
                        aggregate_id: id.clone(),
                        aggregate_type: Self::aggregate_type(),
                        payload: self.cloned(),
                        last_sequence: last.event_id(),
                        snapshot_id: new_ulid(),
                        timestamp: now_timestamp(),
                    };
                    return Some(snapshot);
                },
                _ => {},
            }
        }
        None
    }
}

impl Default for AccountAggregate {
    fn default() -> (r: Self)
        ensures
            r == AccountAggregate::initial(),
    {
        AccountAggregate {
            id: None,
            email: None,
            status: None,
            password_hash: None,
            created_at: None,
            last_event: None,
            applied_events: 0,
        }
    }
}

/// Folding two runs of events one after the other is folding their concatenation.
pub proof fn lemma_folded_append(a: AccountAggregate, s1: Seq<AccountEvent>, s2: Seq<AccountEvent>)
    ensures
        a.folded(s1 + s2) == a.folded(s1).folded(s2),
    decreases s2.len(),
{
    if s2.len() == 0 {
        assert(s1 + s2 =~= s1);
    } else {
        assert((s1 + s2).drop_last() =~= s1 + s2.drop_last());
        assert((s1 + s2).last() == s2.last());
        lemma_folded_append(a, s1, s2.drop_last());
    }
}

/// Two aggregates that agree on their folded fields agree on them after folding the
/// same events, whatever their counters.
pub proof fn lemma_folded_state(a: AccountAggregate, b: AccountAggregate, s: Seq<AccountEvent>)
    requires
        a.state() == b.state(),
    ensures
        a.folded(s).state() == b.folded(s).state(),
    decreases s.len(),
{
    if s.len() > 0 {
        lemma_folded_state(a, b, s.drop_last());
    }
}

/// Snapshot threshold: an aggregate that has folded `n` events from the start counts
/// `n`, and `snapshot` hands out a snapshot exactly when `n` is at least 10.
pub proof fn lemma_snapshot_threshold(events: Seq<AccountEvent>)
    requires
        events.len() < u64::MAX,
    ensures
        AccountAggregate::initial().folded(events).applied_events == events.len(),
        AccountAggregate::initial().folded(events).snapshot_due() <==> events.len()
            >= SNAPSHOT_THRESHOLD,
    decreases events.len(),
{
    if events.len() > 0 {
        lemma_snapshot_threshold(events.drop_last());
    }
}

/// Replay equivalence: folding `events` from the start gives the same folded fields
/// as restoring a snapshot taken after the first `k` of them and folding the rest.
/// Only the counter differs: a restored aggregate counts what it folded itself.
pub proof fn lemma_replay_equivalence(events: Seq<AccountEvent>, k: int, snapshot: AggregateSnapshot)
    requires
        0 <= k < events.len(),
        snapshot.payload == AccountAggregate::initial().folded(events.take(k)),
    ensures
        AccountAggregate::initial().restored(snapshot.payload).folded(events.skip(k)).state()
            == AccountAggregate::initial().folded(events).state(),
{
    let start = AccountAggregate::initial();
    assert(events =~= events.take(k) + events.skip(k));
    lemma_folded_append(start, events.take(k), events.skip(k));
    lemma_folded_state(start.restored(snapshot.payload), snapshot.payload, events.skip(k));
}

} // verus!
