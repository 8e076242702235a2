use vstd::prelude::*;

use crate::aggregate::AggregateSnapshot;
use crate::error::AccountError;
use crate::event::{EnvelopeView, EventEnvelope};
use crate::order::{less_than, lemma_str_lt_irreflexive, lemma_str_lt_transitive, str_lt};

verus! {

/// The port through which stored events leave for their consumers.
pub trait EventBus {
    /// Hands one envelope to the bus; an error carries the bus's message.
    fn publish(&mut self, envelope: EventEnvelope) -> Result<(), String>;
}

/// The values of a run of envelopes.
pub open spec fn views(s: Seq<EventEnvelope>) -> Seq<EnvelopeView> {
    s.map_values(|e: EventEnvelope| e@)
}

/// Within each aggregate, the log's sequences rise strictly in the order of the rows.
pub open spec fn ordered(log: Seq<EnvelopeView>) -> bool {
    forall|i: int, j: int|
        0 <= i < j < log.len() && #[trigger] log[i].aggregate_id == #[trigger] log[j].aggregate_id
            ==> str_lt(log[i].sequence, log[j].sequence)
}

/// `e` comes after every row of its aggregate in the log.
pub open spec fn follows(log: Seq<EnvelopeView>, e: EnvelopeView) -> bool {
    forall|i: int|
        0 <= i < log.len() && #[trigger] log[i].aggregate_id == e.aggregate_id ==> str_lt(
            log[i].sequence,
            e.sequence,
        )
}

/// Some pending row carries the sequence.
pub open spec fn queued(outbox: Seq<EnvelopeView>, sequence: Seq<char>) -> bool {
    exists|i: int| 0 <= i < outbox.len() && #[trigger] outbox[i].sequence == sequence
}

/// Whether one unit of work stores `e`: it follows its aggregate's history, no
/// pending row has its sequence, and no outbox failure is being forced.
pub open spec fn accepts(
    log: Seq<EnvelopeView>,
    outbox: Seq<EnvelopeView>,
    fault: bool,
    e: EnvelopeView,
) -> bool {
    &&& follows(log, e)
    &&& !queued(outbox, e.sequence)
    &&& !fault
}

/// Whether an envelope with this aggregate and sequence would be stored: the same
/// test as `accepts`, stated over the two keys it reads.
pub open spec fn fits(
    log: Seq<EnvelopeView>,
    outbox: Seq<EnvelopeView>,
    fault: bool,
    aggregate_id: Seq<char>,
    sequence: Seq<char>,
) -> bool {
    &&& forall|i: int|
        0 <= i < log.len() && #[trigger] log[i].aggregate_id == aggregate_id ==> str_lt(
            log[i].sequence,
            sequence,
        )
    &&& !queued(outbox, sequence)
    &&& !fault
}

/// The log, the outbox and whether every envelope was stored, after storing
/// `envs` one unit of work each: an accepted envelope goes to both tables, any
/// other to neither.
pub open spec fn stored(
    log: Seq<EnvelopeView>,
    outbox: Seq<EnvelopeView>,
    fault: bool,
    envs: Seq<EnvelopeView>,
) -> (Seq<EnvelopeView>, Seq<EnvelopeView>, bool)
    decreases envs.len(),
{
    if envs.len() == 0 {
        (log, outbox, true)
    } else {
        let (l, o, ok) = stored(log, outbox, fault, envs.drop_last());
        if accepts(l, o, fault, envs.last()) {
            (l.push(envs.last()), o.push(envs.last()), ok)
        } else {
            (l, o, false)
        }
    }
}

/// The rows of `log` for one aggregate, in log order, after the given sequence
/// when there is one.
pub open spec fn selected(log: Seq<EnvelopeView>, id: Seq<char>, after: Option<String>) -> Seq<
    EnvelopeView,
>
    decreases log.len(),
{
    if log.len() == 0 {
        Seq::empty()
    } else {
        let rest = selected(log.drop_last(), id, after);
        let e = log.last();
        if e.aggregate_id == id && (after matches Some(a) ==> str_lt(a@, e.sequence)) {
            rest.push(e)
        } else {
            rest
        }
    }
}

/// `outbox` without the rows that carry `sequence`.
pub open spec fn without(outbox: Seq<EnvelopeView>, sequence: Seq<char>) -> Seq<EnvelopeView>
    decreases outbox.len(),
{
    if outbox.len() == 0 {
        Seq::empty()
    } else {
        let rest = without(outbox.drop_last(), sequence);
        if outbox.last().sequence == sequence {
            rest
        } else {
            rest.push(outbox.last())
        }
    }
}

/// Some row of the log records the email.
pub open spec fn email_taken(log: Seq<EnvelopeView>, email: Seq<char>) -> bool {
    exists|i: int| 0 <= i < log.len() && #[trigger] log[i].payload.email_of() == email
}

/// An event store kept in memory: the event log, the snapshot log and the outbox
/// of undelivered envelopes. A switch forces outbox inserts to fail.
pub struct InMemoryEventRepository {
    events: Vec<EventEnvelope>,
    snapshots: Vec<AggregateSnapshot>,
    outbox: Vec<EventEnvelope>,
    fail_outbox_inserts: bool,
}

impl InMemoryEventRepository {
    /// The event log, in the order of storing.
    pub closed spec fn log(&self) -> Seq<EnvelopeView> {
        views(self.events@)
    }

    /// The undelivered envelopes, in the order of storing.
    pub closed spec fn pending(&self) -> Seq<EnvelopeView> {
        views(self.outbox@)
    }

    /// The snapshot log, in the order of storing.
    pub closed spec fn snapshot_log(&self) -> Seq<AggregateSnapshot> {
        self.snapshots@
    }

    /// Whether outbox inserts are forced to fail.
    pub closed spec fn faulty(&self) -> bool {
        self.fail_outbox_inserts
    }

    /// Each aggregate's history is strictly ascending by sequence.
    pub open spec fn wf(&self) -> bool {
        ordered(self.log())
    }

    /// An empty store.
    pub fn new() -> (r: Self)
        ensures
            r.wf(),
            r.log() == Seq::<EnvelopeView>::empty(),
            r.pending() == Seq::<EnvelopeView>::empty(),
            r.snapshot_log() == Seq::<AggregateSnapshot>::empty(),
            !r.faulty(),
    {
        let r = InMemoryEventRepository {
            events: Vec::new(),
            snapshots: Vec::new(),
            outbox: Vec::new(),
            fail_outbox_inserts: false,
        };
        assert(r.log() =~= Seq::<EnvelopeView>::empty());
        assert(r.pending() =~= Seq::<EnvelopeView>::empty());
        r
    }

    /// Forces outbox inserts to fail, or stops forcing them.
    pub fn set_outbox_failure(&mut self, fail: bool)
        ensures
            final(self).faulty() == fail,
            final(self).log() == old(self).log(),
            final(self).pending() == old(self).pending(),
            final(self).snapshot_log() == old(self).snapshot_log(),
    {
        self.fail_outbox_inserts = fail;
    }

    /// Whether `e` comes after every logged row of its aggregate.
    fn follows_log(&self, e: &EventEnvelope) -> (r: bool)
        ensures
            r == follows(self.log(), e@),
    {
        let mut i: usize = 0;
        while i < self.events.len()
            invariant
                i <= self.events@.len(),
                forall|j: int|
                    0 <= j < i && #[trigger] self.log()[j].aggregate_id == e@.aggregate_id
                        ==> str_lt(self.log()[j].sequence, e@.sequence),
            decreases self.events@.len() - i,
        {
            let row = &self.events[i];
            if row.aggregate_id == e.aggregate_id && !less_than(&row.sequence, &e.sequence) {
                assert(self.log()[i as int] == row@);
                assert(self.log()[i as int].aggregate_id == e@.aggregate_id);
                assert(!str_lt(self.log()[i as int].sequence, e@.sequence));
                assert(!follows(self.log(), e@));
                return false;
            }
            assert(self.log()[i as int] == row@);
            i = i + 1;
        }
        true
    }

    /// Whether a pending row carries the sequence.
    fn queued_in_outbox(&self, sequence: &String) -> (r: bool)
        ensures
            r == queued(self.pending(), sequence@),
    {
        let mut i: usize = 0;
        while i < self.outbox.len()
            invariant
                i <= self.outbox@.len(),
                forall|j: int| 0 <= j < i ==> #[trigger] self.pending()[j].sequence != sequence@,
            decreases self.outbox@.len() - i,
        {
            assert(self.pending()[i as int] == self.outbox@[i as int]@);
            if self.outbox[i].sequence == *sequence {
                assert(self.pending()[i as int].sequence == sequence@);
                return true;
            }
            i = i + 1;
        }
        false
    }

    /// One unit of work: the log row, then the outbox row. When the second insert
    /// fails the first is rolled back, so the envelope lands in both tables or in
    /// neither.
    fn insert_one(&mut self, e: EventEnvelope) -> (r: bool)
        requires
            old(self).wf(),
        ensures
            final(self).wf(),
            final(self).snapshot_log() == old(self).snapshot_log(),
            final(self).faulty() == old(self).faulty(),
            r == accepts(old(self).log(), old(self).pending(), old(self).faulty(), e@),
            r ==> final(self).log() == old(self).log().push(e@) && final(self).pending() == old(
                self,
            ).pending().push(e@),
            !r ==> final(self).log() == old(self).log() && final(self).pending() == old(
                self,
            ).pending(),
    {
        if !self.follows_log(&e) {
            return false;
        }
        let ghost log0 = self.log();
        let copy = e.cloned();
        self.events.push(e);
        assert(self.log() =~= log0.push(copy@));
        if self.fail_outbox_inserts || self.queued_in_outbox(&copy.sequence) {
            self.events.pop();
            assert(self.log() =~= log0);
            return false;
        }
        let ghost out0 = self.pending();
        self.outbox.push(copy);
        assert(self.pending() =~= out0.push(copy@));
        true
    }

    /// Stores each envelope in its own unit of work, in order, and reports
    /// `UnknownError` when any of them was not stored.
    pub fn store_events(&mut self, envelopes: Vec<EventEnvelope>) -> (r: Result<(), AccountError>)
        requires
            old(self).wf(),
        ensures
            final(self).wf(),
            (final(self).log(), final(self).pending(), r.is_ok()) == stored(
                old(self).log(),
                old(self).pending(),
                old(self).faulty(),
                views(envelopes@),
            ),
            r.is_err() ==> r == Err::<(), AccountError>(AccountError::UnknownError),
            final(self).snapshot_log() == old(self).snapshot_log(),
            final(self).faulty() == old(self).faulty(),
    {
        let ghost all = views(envelopes@);
        let ghost log0 = self.log();
        let ghost out0 = self.pending();
        let ghost fault = self.faulty();
        let ghost snaps = self.snapshot_log();
        let mut rest = envelopes;
        let n = rest.len();
        let mut ok = true;
        let mut i: usize = 0;
        assert(all.take(0) =~= Seq::<EnvelopeView>::empty());
        while i < n
            invariant
                i <= n,
                n == all.len(),
                views(rest@) == all.skip(i as int),
                rest@.len() == n - i,
                self.wf(),
                self.snapshot_log() == snaps,
                self.faulty() == fault,
                (self.log(), self.pending(), ok) == stored(log0, out0, fault, all.take(i as int)),
            decreases n - i,
        {
            let ghost before = rest@;
            let e = rest.remove(0);
            proof {
                assert(all.skip(i as int)[0] == views(before)[0]);
                assert(views(rest@) =~= views(before).drop_first());
                assert(views(before).drop_first() =~= all.skip(i as int + 1));
                assert(all.take(i as int + 1).drop_last() =~= all.take(i as int));
                assert(all.take(i as int + 1).last() == e@);
            }
            let accepted = self.insert_one(e);
            ok = ok && accepted;
            i = i + 1;
        }
        assert(all.take(n as int) =~= all);
        if ok {
            Ok(())
        } else {
            Err(AccountError::UnknownError)
        }
    }

    /// The aggregate's history, in order; with `after`, only the rows whose
    /// sequence sorts after it.
    pub fn retrieve_events(&self, aggregate_id: &String, after: &Option<String>) -> (r: Vec<
        EventEnvelope,
    >)
        ensures
            views(r@) == selected(self.log(), aggregate_id@, *after),
    {
        let mut r: Vec<EventEnvelope> = Vec::new();
        let mut i: usize = 0;
        assert(self.log().take(0) =~= Seq::<EnvelopeView>::empty());
        while i < self.events.len()
            invariant
                i <= self.events@.len(),
                self.log().len() == self.events@.len(),
                views(r@) == selected(self.log().take(i as int), aggregate_id@, *after),
            decreases self.events@.len() - i,
        {
            let row = &self.events[i];
            assert(self.log().take(i as int + 1).drop_last() =~= self.log().take(i as int));
            assert(self.log().take(i as int + 1).last() == row@);
            let wanted = row.aggregate_id == *aggregate_id && match after {
                Some(a) => less_than(a, &row.sequence),
                None => true,
            };
            if wanted {
                let ghost r0 = r@;
                r.push(row.cloned());
                assert(views(r@) =~= views(r0).push(row@));
            }
            i = i + 1;
        }
        assert(self.log().take(i as int) =~= self.log());
        r
    }

    /// The undelivered envelopes, in the order of storing.
    pub fn retrieve_outbox_events(&self) -> (r: Vec<EventEnvelope>)
        ensures
            views(r@) == self.pending(),
    {
        let mut r: Vec<EventEnvelope> = Vec::new();
        let mut i: usize = 0;
        while i < self.outbox.len()
            invariant
                i <= self.outbox@.len(),
                views(r@) =~= views(self.outbox@.take(i as int)),
            decreases self.outbox@.len() - i,
        {
            let ghost r0 = r@;
            r.push(self.outbox[i].cloned());
            assert(self.outbox@.take(i as int + 1) =~= self.outbox@.take(i as int).push(
                self.outbox@[i as int],
            ));
            assert(views(r@) =~= views(r0).push(self.outbox@[i as int]@));
            i = i + 1;
        }
        assert(self.outbox@.take(i as int) =~= self.outbox@);
        r
    }

    /// Delivers one envelope: publishes it first, then hands the bus's answer to
    /// `finish_delivery`, so the rows are deleted only once the bus accepted it.
    pub fn send_and_delete_outbox_event<B: EventBus>(
        &mut self,
        event: EventEnvelope,
        bus: &mut B,
    ) -> (r: Result<(), String>)
        requires
            old(self).wf(),
        ensures
            final(self).wf(),
            final(self).log() == old(self).log(),
            final(self).snapshot_log() == old(self).snapshot_log(),
            final(self).faulty() == old(self).faulty(),
            r.is_err() ==> final(self).pending() == old(self).pending(),
            r.is_ok() ==> final(self).pending() == without(old(self).pending(), event@.sequence),
    {
        let sequence = event.sequence.clone();
        let published = bus.publish(event);
        self.finish_delivery(&sequence, published)
    }

    /// The rest of a delivery once the bus has answered: a refusal comes back as it
    /// was and leaves the outbox alone; an acceptance deletes the pending rows that
    /// carry the sequence (none, if another relay already did) and gives `Ok`.
    pub fn finish_delivery(&mut self, sequence: &String, published: Result<(), String>) -> (r:
        Result<(), String>)
        requires
            old(self).wf(),
        ensures
            final(self).wf(),
            final(self).log() == old(self).log(),
            final(self).snapshot_log() == old(self).snapshot_log(),
            final(self).faulty() == old(self).faulty(),
            published is Err ==> r == published && final(self).pending() == old(self).pending(),
            published is Ok ==> r is Ok && final(self).pending() == without(
                old(self).pending(),
                sequence@,
            ),
    {
        match published {
            Err(m) => {
                return Err(m);
            },
            Ok(()) => {},
        }
        let mut kept: Vec<EventEnvelope> = Vec::new();
        let mut i: usize = 0;
        assert(self.pending().take(0) =~= Seq::<EnvelopeView>::empty());
        while i < self.outbox.len()
            invariant
                i <= self.outbox@.len(),
                self.pending().len() == self.outbox@.len(),
                views(kept@) == without(self.pending().take(i as int), sequence@),
            decreases self.outbox@.len() - i,
        {
            let row = &self.outbox[i];
            assert(self.pending().take(i as int + 1).drop_last() =~= self.pending().take(i as int));
            assert(self.pending().take(i as int + 1).last() == row@);
            if row.sequence != *sequence {
                let ghost k0 = kept@;
                kept.push(row.cloned());
                assert(views(kept@) =~= views(k0).push(row@));
            }
            i = i + 1;
        }
        assert(self.pending().take(i as int) =~= self.pending());
        self.outbox = kept;
        Ok(())
    }

    /// Appends a snapshot; earlier ones stay.
    pub fn store_snapshot(&mut self, snapshot: AggregateSnapshot) -> (r: Result<(), AccountError>)
        ensures
            r.is_ok(),
            final(self).snapshot_log() == old(self).snapshot_log().push(snapshot),
            final(self).log() == old(self).log(),
            final(self).pending() == old(self).pending(),
            final(self).faulty() == old(self).faulty(),
    {
        self.snapshots.push(snapshot);
        Ok(())
    }

    /// The snapshot of the aggregate with the greatest `snapshot_id`, if it has any.
    pub fn retrieve_latest_snapshot(&self, aggregate_id: &String) -> (r: Option<AggregateSnapshot>)
        ensures
            r.is_none() <==> forall|i: int|
                0 <= i < self.snapshot_log().len() ==> (#[trigger] self.snapshot_log()[i]).aggregate_id@
                    != aggregate_id@,
            r matches Some(s) ==> {
                &&& s.aggregate_id@ == aggregate_id@
                &&& exists|i: int|
                    0 <= i < self.snapshot_log().len() && #[trigger] self.snapshot_log()[i] == s
                &&& forall|j: int|
                    0 <= j < self.snapshot_log().len() && (#[trigger] self.snapshot_log()[
                        j
                    ]).aggregate_id@ == aggregate_id@ ==> !str_lt(
                        s.snapshot_id@,
                        self.snapshot_log()[j].snapshot_id@,
                    )
            },
    {
        let ghost log = self.snapshots@;
        let mut best: Option<usize> = None;
        let mut i: usize = 0;
        while i < self.snapshots.len()
            invariant
                log == self.snapshots@,
                i <= log.len(),
                best.is_none() ==> forall|j: int|
                    0 <= j < i ==> (#[trigger] log[j]).aggregate_id@ != aggregate_id@,
                best matches Some(b) ==> {
                    &&& b < i
                    &&& log[b as int].aggregate_id@ == aggregate_id@
                    &&& forall|j: int|
                        0 <= j < i && (#[trigger] log[j]).aggregate_id@ == aggregate_id@ ==> !str_lt(
                            log[b as int].snapshot_id@,
                            log[j].snapshot_id@,
                        )
                },
            decreases log.len() - i,
        {
            let s = &self.snapshots[i];
            if s.aggregate_id == *aggregate_id {
                match best {
                    None => {
                        best = Some(i);
                    },
                    Some(b) => {
                        if less_than(&self.snapshots[b].snapshot_id, &s.snapshot_id) {
                            proof {
                                assert forall|j: int|
                                    0 <= j < i + 1 && (#[trigger] log[j]).aggregate_id@
                                        == aggregate_id@ implies !str_lt(
                                    log[i as int].snapshot_id@,
                                    log[j].snapshot_id@,
                                ) by {
                                    if j < i && str_lt(
                                        log[i as int].snapshot_id@,
                                        log[j].snapshot_id@,
                                    ) {
                                        lemma_str_lt_transitive(
                                            log[b as int].snapshot_id@,
                                            log[i as int].snapshot_id@,
                                            log[j].snapshot_id@,
                                        );
                                    }
                                    if j == i {
                                        lemma_str_lt_irreflexive(log[i as int].snapshot_id@);
                                    }
                                }
                            }
                            best = Some(i);
                        }
                    },
                }
            }
            i = i + 1;
        }
        match best {
            None => None,
            Some(b) => {
                proof {
                    assert(self.snapshot_log()[b as int] == log[b as int]);
                }
                let s = &self.snapshots[b];
                Some(
                    AggregateSnapshot {
                        aggregate_id: s.aggregate_id.clone(),
                        aggregate_type: s.aggregate_type.clone(),
                        payload: s.payload.cloned(),
                        last_sequence: s.last_sequence.clone(),
                        snapshot_id: s.snapshot_id.clone(),
                        timestamp: s.timestamp,
                    },
                )
            },
        }
    }
}

/// The lookups by email that account creation needs, over a store's event log.
pub trait AccountRepository {
    /// The event log that the lookups read.
    spec fn recorded(&self) -> Seq<EnvelopeView>;

    /// Whether some logged event records the email.
    fn email_exists(&self, email: &String) -> (r: bool)
        ensures
            r == email_taken(self.recorded(), email@),
    ;

    /// The aggregate that the most recently logged event recording the email belongs
    /// to; `AccountNotExists` when no logged event records it.
    fn retrieve_aggregate_id_for_email(&self, email: &String) -> (r: Result<String, AccountError>)
        ensures
            r.is_err() <==> !email_taken(self.recorded(), email@),
            r matches Err(e) ==> e == AccountError::AccountNotExists(*email),
            r matches Ok(id) ==> exists|i: int|
                0 <= i < self.recorded().len() && #[trigger] self.recorded()[i].payload.email_of()
                    == email@ && self.recorded()[i].aggregate_id == id@ && forall|j: int|
                    i < j < self.recorded().len() ==> #[trigger] self.recorded()[j].payload.email_of()
                        != email@,
    ;
}

impl AccountRepository for InMemoryEventRepository {
    open spec fn recorded(&self) -> Seq<EnvelopeView> {
        self.log()
    }

    fn email_exists(&self, email: &String) -> (r: bool)
    {
        let mut i: usize = 0;
        while i < self.events.len()
            invariant
                i <= self.events@.len(),
                self.log().len() == self.events@.len(),
                forall|j: int| 0 <= j < i ==> #[trigger] self.log()[j].payload.email_of() != email@,
            decreases self.events@.len() - i,
        {
            assert(self.log()[i as int] == self.events@[i as int]@);
            match &self.events[i].payload {
                crate::event::AccountEvent::AccountCreated { email: e, .. } => {
                    if *e == *email {
                        assert(self.log()[i as int].payload.email_of() == email@);
                        return true;
                    }
                },
            }
            i = i + 1;
        }
        false
    }

    fn retrieve_aggregate_id_for_email(&self, email: &String) -> (r: Result<String, AccountError>)
    {
        let n = self.events.len();
        let mut i: usize = n;
        while i > 0
            invariant
                i <= n,
                n == self.log().len(),
                n == self.events@.len(),
                forall|j: int| i <= j < n ==> #[trigger] self.log()[j].payload.email_of() != email@,
            decreases i,
        {
            let row = &self.events[i - 1];
            assert(self.log()[i - 1] == row@);
            match &row.payload {
                crate::event::AccountEvent::AccountCreated { email: e, .. } => {
                    if *e == *email {
                        assert(self.recorded()[i - 1].payload.email_of() == email@);
                        assert forall|j: int| i - 1 < j < self.recorded().len() implies #[trigger] self.recorded()[
                            j
                        ].payload.email_of() != email@ by {
                            assert(self.log()[j].payload.email_of() != email@);
                        }
                        return Ok(row.aggregate_id.clone());
                    }
                },
            }
            i = i - 1;
        }
        Err(AccountError::AccountNotExists(email.clone()))
    }
}

/// Every row that `selected` returns is a row of the log for that aggregate.
pub proof fn lemma_selected_rows(log: Seq<EnvelopeView>, id: Seq<char>, after: Option<String>)
    ensures
        forall|i: int|
            0 <= i < selected(log, id, after).len() ==> exists|j: int|
                0 <= j < log.len() && #[trigger] selected(log, id, after)[i] == log[j]
                    && log[j].aggregate_id == id,
    decreases log.len(),
{
    if log.len() > 0 {
        let rest = log.drop_last();
        lemma_selected_rows(rest, id, after);
        let sel = selected(log, id, after);
        assert forall|i: int| 0 <= i < sel.len() implies exists|j: int|
            0 <= j < log.len() && #[trigger] sel[i] == log[j] && log[j].aggregate_id == id by {
            if i < selected(rest, id, after).len() {
                let j = choose|j: int|
                    0 <= j < rest.len() && #[trigger] selected(rest, id, after)[i] == rest[j]
                        && rest[j].aggregate_id == id;
                assert(sel[i] == log[j]);
            } else {
                assert(sel[i] == log[log.len() - 1]);
            }
        }
    }
}

/// Sequencing: in a well-formed log, an aggregate's history comes back strictly
/// ascending by sequence, and holds rows of that aggregate alone.
pub proof fn lemma_history_ascending(log: Seq<EnvelopeView>, id: Seq<char>, after: Option<String>)
    requires
        ordered(log),
    ensures
        forall|i: int|
            0 <= i < selected(log, id, after).len() ==> (#[trigger] selected(
                log,
                id,
                after,
            )[i]).aggregate_id == id,
        forall|i: int, j: int|
            0 <= i < j < selected(log, id, after).len() ==> str_lt(
                #[trigger] selected(log, id, after)[i].sequence,
                #[trigger] selected(log, id, after)[j].sequence,
            ),
    decreases log.len(),
{
    lemma_selected_rows(log, id, after);
    if log.len() > 0 {
        let rest = log.drop_last();
        assert(ordered(rest)) by {
            assert forall|i: int, j: int|
                0 <= i < j < rest.len() && #[trigger] rest[i].aggregate_id
                    == #[trigger] rest[j].aggregate_id implies str_lt(
                rest[i].sequence,
                rest[j].sequence,
            ) by {
                assert(log[i] == rest[i] && log[j] == rest[j]);
            }
        }
        lemma_history_ascending(rest, id, after);
        lemma_selected_rows(rest, id, after);
        let sel = selected(log, id, after);
        let sr = selected(rest, id, after);
        assert forall|i: int, j: int| 0 <= i < j < sel.len() implies str_lt(
            #[trigger] sel[i].sequence,
            #[trigger] sel[j].sequence,
        ) by {
            if j < sr.len() {
                assert(sel[i] == sr[i] && sel[j] == sr[j]);
            } else {
                let k = choose|k: int|
                    0 <= k < rest.len() && #[trigger] sr[i] == rest[k] && rest[k].aggregate_id
                        == id;
                assert(sel[i] == log[k]);
                assert(sel[j] == log[log.len() - 1]);
                assert(log[k].aggregate_id == log[log.len() - 1].aggregate_id);
            }
        }
    }
}

/// Outbox atomicity: storing a batch adds the same rows, in the same order, to the
/// log and to the outbox, and keeps what both held; while outbox inserts are forced
/// to fail, a non-empty batch adds nothing to either and is reported as failed.
pub proof fn lemma_outbox_atomicity(
    log: Seq<EnvelopeView>,
    outbox: Seq<EnvelopeView>,
    fault: bool,
    envs: Seq<EnvelopeView>,
)
    ensures
        ({
            let (l, o, ok) = stored(log, outbox, fault, envs);
            &&& l.len() >= log.len()
            &&& o.len() >= outbox.len()
            &&& l.take(log.len() as int) == log
            &&& o.take(outbox.len() as int) == outbox
            &&& l.skip(log.len() as int) == o.skip(outbox.len() as int)
            &&& (fault && envs.len() > 0) ==> (l == log && o == outbox && !ok)
        }),
    decreases envs.len(),
{
    if envs.len() > 0 {
        lemma_outbox_atomicity(log, outbox, fault, envs.drop_last());
        let (l, o, ok) = stored(log, outbox, fault, envs.drop_last());
        let e = envs.last();
        if accepts(l, o, fault, e) {
            assert(l.push(e).take(log.len() as int) =~= l.take(log.len() as int));
            assert(o.push(e).take(outbox.len() as int) =~= o.take(outbox.len() as int));
            assert(l.push(e).skip(log.len() as int) =~= l.skip(log.len() as int).push(e));
            assert(o.push(e).skip(outbox.len() as int) =~= o.skip(outbox.len() as int).push(e));
        }
        if fault && envs.drop_last().len() == 0 {
            assert(stored(log, outbox, fault, envs.drop_last()) == (log, outbox, true));
        }
    } else {
        assert(log.take(log.len() as int) =~= log);
        assert(outbox.take(outbox.len() as int) =~= outbox);
        assert(log.skip(log.len() as int) =~= outbox.skip(outbox.len() as int));
    }
}

} // verus!
