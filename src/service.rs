use vstd::prelude::*;

use crate::aggregate::AccountAggregate;
use crate::command::{AccountCommand, CreateAccountCommand};
use crate::error::AccountError;
use crate::event::{EnvelopeView, EventEnvelope};
use crate::ids::{new_ulid, now_timestamp};
use crate::machine::{is_creation_for, is_event};
use crate::repository::{
    email_taken, fits, queued, stored, views, without, AccountRepository, EventBus,
    InMemoryEventRepository,
};
use crate::services::TAccountServices;

verus! {

/// Whether `v` is the envelope that the command service writes for the creation
/// recorded in `a`: the aggregate's identity and kind, the event's own
/// identifier as sequence, the event itself, no metadata.
pub open spec fn is_envelope_for(v: EnvelopeView, a: AccountAggregate) -> bool {
    &&& a.id matches Some(id) && v.aggregate_id == id@
    &&& v.aggregate_type == "Account"@
    &&& a.last_event matches Some(e) && v.payload == e && v.sequence == e.id_of()
    &&& v.metadata.len() == 0
}

/// Runs account commands against an event store.
pub struct AccountService<S> {
    pub services: S,
    pub repository: InMemoryEventRepository,
}

impl<S: TAccountServices> AccountService<S> {
    pub fn new(services: S, repository: InMemoryEventRepository) -> (r: Self)
        ensures
            r.services == services,
            r.repository == repository,
    {
        AccountService { services, repository }
    }

    /// Creates an account. A taken email fails with `AccountExists` before anything
    /// else happens. Otherwise the password is hashed by the services, the aggregate
    /// decides the creation event with fresh identifiers and the current time, folds
    /// it, and its envelope is stored in the log and the outbox in one unit of work.
    /// Every failure leaves the store as it was.
    pub fn create_account(&mut self, command: CreateAccountCommand) -> (r: Result<
        AccountAggregate,
        AccountError,
    >)
        requires
            old(self).repository.wf(),
        ensures
            final(self).repository.wf(),
            final(self).repository.snapshot_log() == old(self).repository.snapshot_log(),
            final(self).repository.faulty() == old(self).repository.faulty(),
            email_taken(old(self).repository.log(), command.email@) ==> r == Err::<
                AccountAggregate,
                AccountError,
            >(AccountError::AccountExists(command.email)),
            !email_taken(old(self).repository.log(), command.email@) ==> !(r matches Err(
                AccountError::AccountExists(_),
            )),
            r.is_err() ==> {
                &&& final(self).repository.log() == old(self).repository.log()
                &&& final(self).repository.pending() == old(self).repository.pending()
            },
            r matches Err(e) ==> {
                ||| e == AccountError::AccountExists(command.email)
                ||| e == AccountError::StateMachineTransitionFail(
                    AccountCommand::CreateAccount(command),
                )
                ||| e == AccountError::UnknownError
            },
            r matches Ok(a) ==> {
                &&& !email_taken(old(self).repository.log(), command.email@)
                &&& a.email == Some(command.email)
                &&& a.applied_events == 1
                &&& a.id matches Some(id) && id@.len() == 26
                &&& a.last_event matches Some(e) && is_creation_for(
                    e,
                    AccountCommand::CreateAccount(command),
                )
                &&& final(self).repository.log().len() == old(self).repository.log().len() + 1
                &&& final(self).repository.log() == old(self).repository.log().push(
                    final(self).repository.log().last(),
                )
                &&& final(self).repository.pending() == old(self).repository.pending().push(
                    final(self).repository.log().last(),
                )
                &&& is_envelope_for(final(self).repository.log().last(), a)
            },
    {
        let email = command.email.clone();
        if self.repository.email_exists(&email) {
            return Err(AccountError::AccountExists(email));
        }
        let hashed = self.services.hash_password(command.password.clone());
        let id = new_ulid();
        let event_id = new_ulid();
        let created_at = now_timestamp();
        let timestamp = now_timestamp();
        self.create_account_with(command, hashed, id, event_id, created_at, timestamp)
    }

    /// `create_account` for an email that is free, once the password's hash, the
    /// identifiers and the times are known: `StateMachineTransitionFail` when the
    /// hash failed, else the account, stored exactly when its envelope fits the
    /// store, and `UnknownError` when it does not.
    pub fn create_account_with(
        &mut self,
        command: CreateAccountCommand,
        hashed: Result<String, String>,
        id: String,
        event_id: String,
        created_at: i64,
        timestamp: i64,
    ) -> (r: Result<AccountAggregate, AccountError>)
        requires
            old(self).repository.wf(),
            !email_taken(old(self).repository.log(), command.email@),
        ensures
            final(self).repository.wf(),
            final(self).repository.snapshot_log() == old(self).repository.snapshot_log(),
            final(self).repository.faulty() == old(self).repository.faulty(),
            hashed.is_err() ==> r == Err::<AccountAggregate, AccountError>(
                AccountError::StateMachineTransitionFail(AccountCommand::CreateAccount(command)),
            ),
            hashed.is_ok() ==> {
                &&& r.is_ok() <==> fits(
                    old(self).repository.log(),
                    old(self).repository.pending(),
                    old(self).repository.faulty(),
                    id@,
                    event_id@,
                )
                &&& r.is_err() ==> r == Err::<AccountAggregate, AccountError>(
                    AccountError::UnknownError,
                )
            },
            r.is_err() ==> {
                &&& final(self).repository.log() == old(self).repository.log()
                &&& final(self).repository.pending() == old(self).repository.pending()
            },
            r matches Ok(a) ==> {
                &&& hashed is Ok
                &&& a.id == Some(id)
                &&& a.email == Some(command.email)
                &&& a.password_hash == Some(hashed->Ok_0)
                &&& a.created_at == Some(created_at)
                &&& a.status.is_none()
                &&& a.applied_events == 1
                &&& a.last_event.is_some()
                &&& is_event(
                    a.last_event.unwrap(),
                    id,
                    command.email,
                    hashed->Ok_0,
                    created_at,
                    event_id,
                )
                &&& final(self).repository.log() == old(self).repository.log().push(
                    final(self).repository.log().last(),
                )
                &&& final(self).repository.pending() == old(self).repository.pending().push(
                    final(self).repository.log().last(),
                )
                &&& final(self).repository.log().last() == (EnvelopeView {
                    aggregate_type: "Account"@,
                    aggregate_id: id@,
                    sequence: event_id@,
                    payload: a.last_event.unwrap(),
                    metadata: Seq::empty(),
                    timestamp,
                })
            },
    {
        let mut aggregate = AccountAggregate::default();
        let events = match aggregate.handle_with(AccountCommand::from(command), hashed, id, event_id, created_at) {
            Ok(v) => v,
            Err(e) => {
                return Err(e);
            },
        };
        let mut i: usize = 0;
        while i < events.len()
            invariant
                events@.len() == 1,
                i <= 1,
                aggregate == AccountAggregate::initial().folded(events@.take(i as int)),
                aggregate.applied_events == i,
            decreases events@.len() - i,
        {
            assert(events@.take(i as int + 1).drop_last() =~= events@.take(i as int));
            aggregate.apply(events[i].cloned());
            i = i + 1;
        }
        let aggregate_id = match aggregate.aggregate_id() {
            Some(a) => a,
            None => {
                return Err(AccountError::UnknownError);
            },
        };
        let mut wrapped: Vec<EventEnvelope> = Vec::new();
        let mut k: usize = 0;
        while k < events.len()
            invariant
                events@.len() == 1,
                k <= 1,
                wrapped@.len() == k,
                forall|j: int|
                    0 <= j < k ==> {
                        &&& (#[trigger] wrapped@[j]).aggregate_id == aggregate_id
                        &&& wrapped@[j].aggregate_type@ == "Account"@
                        &&& wrapped@[j].payload == events@[j]
                        &&& wrapped@[j].sequence@ == events@[j].id_of()
                        &&& wrapped@[j].metadata@.len() == 0
                        &&& wrapped@[j].timestamp == timestamp
                    },
            decreases events@.len() - k,
        {
            let payload = events[k].cloned();
            wrapped.push(
                EventEnvelope {
                    aggregate_id: aggregate_id.clone(),
                    aggregate_type: AccountAggregate::aggregate_type(),
                    sequence: payload.event_id(),
                    payload,
                    metadata: Vec::new(),
                    timestamp,
                },
            );
            k = k + 1;
        }
        let ghost w = views(wrapped@);
        let ghost log0 = self.repository.log();
        let ghost out0 = self.repository.pending();
        let ghost fault = self.repository.faulty();
        proof {
            assert(w.drop_last() =~= Seq::<EnvelopeView>::empty());
            assert(w[0].metadata =~= Seq::<(String, String)>::empty());
            assert(stored(log0, out0, fault, w.drop_last()) == (log0, out0, true));
        }
        match self.repository.store_events(wrapped) {
            Ok(()) => {},
            Err(e) => {
                return Err(e);
            },
        }
        assert(events@.take(1) =~= events@);
        assert(aggregate.applied_events == 1);
        match aggregate.snapshot() {
            Some(s) => {
                match self.repository.store_snapshot(s) {
                    Ok(()) => {},
                    Err(e) => {
                        return Err(e);
                    },
                }
            },
            None => {},
        }
        Ok(aggregate)
    }
}

/// Uniqueness: once the envelope of a created account is in the log, its email is
/// taken there, so a second `create_account` with that email fails with
/// `AccountExists`.
pub proof fn lemma_created_email_taken(
    log: Seq<EnvelopeView>,
    v: EnvelopeView,
    a: AccountAggregate,
    command: CreateAccountCommand,
)
    requires
        is_envelope_for(v, a),
        a.last_event matches Some(e) && is_creation_for(e, AccountCommand::CreateAccount(command)),
    ensures
        email_taken(log.push(v), command.email@),
{
    assert(log.push(v)[log.len() as int] == v);
    assert(v.payload.email_of() == command.email@);
}

/// `without` leaves no row with the sequence it removes.
pub proof fn lemma_without_removes(p: Seq<EnvelopeView>, s: Seq<char>)
    ensures
        !queued(without(p, s), s),
    decreases p.len(),
{
    if p.len() > 0 {
        lemma_without_removes(p.drop_last(), s);
        let r = without(p.drop_last(), s);
        if p.last().sequence != s {
            assert forall|i: int| 0 <= i < r.push(p.last()).len() implies #[trigger] r.push(
                p.last(),
            )[i].sequence != s by {
                if i < r.len() {
                    assert(r.push(p.last())[i] == r[i]);
                }
            }
        }
    }
}

/// `without` adds no sequence that was not there.
pub proof fn lemma_without_keeps_absent(p: Seq<EnvelopeView>, s: Seq<char>, t: Seq<char>)
    requires
        !queued(p, t),
    ensures
        !queued(without(p, s), t),
    decreases p.len(),
{
    if p.len() > 0 {
        assert(!queued(p.drop_last(), t)) by {
            assert forall|i: int| 0 <= i < p.drop_last().len() implies #[trigger] p.drop_last()[
                i
            ].sequence != t by {
                assert(p.drop_last()[i] == p[i]);
            }
        }
        lemma_without_keeps_absent(p.drop_last(), s, t);
        let r = without(p.drop_last(), s);
        if p.last().sequence != s {
            assert(p.last() == p[p.len() - 1]);
            assert forall|i: int| 0 <= i < r.push(p.last()).len() implies #[trigger] r.push(
                p.last(),
            )[i].sequence != t by {
                if i < r.len() {
                    assert(r.push(p.last())[i] == r[i]);
                }
            }
        }
    }
}

/// The outbox after a relay pass over `rows` whose deliveries answered `outcomes`:
/// each accepted delivery removes the rows that carry its sequence.
pub open spec fn after_relay(
    outbox: Seq<EnvelopeView>,
    rows: Seq<EnvelopeView>,
    outcomes: Seq<Result<(), String>>,
) -> Seq<EnvelopeView>
    decreases outcomes.len(),
{
    if outcomes.len() == 0 || rows.len() == 0 {
        outbox
    } else {
        let rest = after_relay(outbox, rows.drop_last(), outcomes.drop_last());
        if outcomes.last() is Ok {
            without(rest, rows.last().sequence)
        } else {
            rest
        }
    }
}

/// Drains the outbox of an event store into an event bus.
pub struct AccountOutboxService<B> {
    pub bus: B,
}

impl<B: EventBus> AccountOutboxService<B> {
    pub fn new(bus: B) -> (r: Self)
        ensures
            r.bus == bus,
    {
        AccountOutboxService { bus }
    }

    /// The envelopes still to deliver.
    pub fn get_events(&self, repository: &InMemoryEventRepository) -> (r: Vec<EventEnvelope>)
        ensures
            views(r@) == repository.pending(),
    {
        repository.retrieve_outbox_events()
    }

    /// Delivers one envelope: published first, deleted from the outbox only after the
    /// bus accepted it.
    pub fn send_event(&mut self, repository: &mut InMemoryEventRepository, event: EventEnvelope) -> (r:
        Result<(), String>)
        requires
            old(repository).wf(),
        ensures
            final(repository).wf(),
            final(repository).log() == old(repository).log(),
            final(repository).snapshot_log() == old(repository).snapshot_log(),
            final(repository).faulty() == old(repository).faulty(),
            r.is_err() ==> final(repository).pending() == old(repository).pending(),
            r.is_ok() ==> final(repository).pending() == without(
                old(repository).pending(),
                event@.sequence,
            ),
    {
        repository.send_and_delete_outbox_event(event, &mut self.bus)
    }

    /// One pass of the relay: tries every pending envelope in order, publishing each
    /// and finishing its delivery with the bus's answer, and returns those answers.
    /// The rows whose publish the bus refused stay for a later pass.
    pub fn relay_pass(&mut self, repository: &mut InMemoryEventRepository) -> (r: Vec<
        Result<(), String>,
    >)
        requires
            old(repository).wf(),
        ensures
            final(repository).wf(),
            final(repository).log() == old(repository).log(),
            final(repository).snapshot_log() == old(repository).snapshot_log(),
            final(repository).faulty() == old(repository).faulty(),
            r@.len() == old(repository).pending().len(),
            final(repository).pending() == after_relay(
                old(repository).pending(),
                old(repository).pending(),
                r@,
            ),
            (forall|j: int| 0 <= j < r@.len() ==> #[trigger] r@[j] is Ok) ==> forall|j: int|
                0 <= j < old(repository).pending().len() ==> !queued(
                    final(repository).pending(),
                    #[trigger] old(repository).pending()[j].sequence,
                ),
    {
        let pending = repository.retrieve_outbox_events();
        let ghost start = views(pending@);
        let ghost log0 = repository.log();
        let ghost snaps = repository.snapshot_log();
        let ghost fault = repository.faulty();
        let mut outcomes: Vec<Result<(), String>> = Vec::new();
        let mut i: usize = 0;
        assert(start.take(0) =~= Seq::<EnvelopeView>::empty());
        while i < pending.len()
            invariant
                start == views(pending@),
                start.len() == pending@.len(),
                i <= pending@.len(),
                outcomes@.len() == i,
                repository.wf(),
                repository.log() == log0,
                repository.snapshot_log() == snaps,
                repository.faulty() == fault,
                repository.pending() == after_relay(start, start.take(i as int), outcomes@),
                (forall|j: int| 0 <= j < i ==> #[trigger] outcomes@[j] is Ok) ==> forall|j: int|
                    0 <= j < i ==> !queued(repository.pending(), #[trigger] start[j].sequence),
            decreases pending@.len() - i,
        {
            let envelope = pending[i].cloned();
            let sequence = envelope.sequence.clone();
            let ghost before = repository.pending();
            let ghost o0 = outcomes@;
            assert(sequence@ == start[i as int].sequence);
            let published = self.bus.publish(envelope);
            let outcome = repository.finish_delivery(&sequence, published);
            proof {
                if outcome is Ok {
                    lemma_without_removes(before, sequence@);
                    assert forall|j: int| 0 <= j < i && (forall|k: int| 0 <= k < i ==> #[trigger] o0[k] is Ok) implies !queued(
                        repository.pending(),
                        #[trigger] start[j].sequence,
                    ) by {
                        lemma_without_keeps_absent(before, sequence@, start[j].sequence);
                    }
                }
            }
            outcomes.push(outcome);
            proof {
                assert(start.take(i as int + 1).drop_last() =~= start.take(i as int));
                assert(start.take(i as int + 1).last() == start[i as int]);
                assert(outcomes@.drop_last() =~= o0);
                assert forall|k: int| 0 <= k < i implies outcomes@[k] == o0[k] by {}
            }
            i = i + 1;
        }
        assert(start.take(i as int) =~= start);
        outcomes
    }
}

} // verus!
