use vstd::prelude::*;

verus! {

/// The events that the account aggregate records.
#[derive(Debug, Clone, PartialEq, Eq)]
pub enum AccountEvent {
    AccountCreated {
        id: String,
        email: String,
        password_hash: String,
        /// Seconds since the Unix epoch.
        created_at: i64,
        event_version: String,
        event_id: String,
    },
}

impl AccountEvent {
    /// The event's own identifier, which orders it within its aggregate.
    pub open spec fn id_of(self) -> Seq<char> {
        match self {
            AccountEvent::AccountCreated { event_id, .. } => event_id@,
        }
    }

    /// The email that the event records.
    pub open spec fn email_of(self) -> Seq<char> {
        match self {
            AccountEvent::AccountCreated { email, .. } => email@,
        }
    }

    /// The name of the event's variant.
    pub fn event_type(&self) -> (r: String)
        ensures
            r@ == "AccountCreated"@,
    {
        match self {
            AccountEvent::AccountCreated { .. } => "AccountCreated".to_string(),
        }
    }

    /// The version of the event's schema.
    pub fn event_version(&self) -> (r: String)
        ensures
            match *self {
                AccountEvent::AccountCreated { event_version, .. } => r == event_version,
            },
    {
        match self {
            AccountEvent::AccountCreated { event_version, .. } => event_version.clone(),
        }
    }

    /// The event's own identifier.
    pub fn event_id(&self) -> (r: String)
        ensures
            r@ == self.id_of(),
            match *self {
                AccountEvent::AccountCreated { event_id, .. } => r == event_id,
            },
    {
        match self {
            AccountEvent::AccountCreated { event_id, .. } => event_id.clone(),
        }
    }

    /// A field-for-field copy of the event.
    pub fn cloned(&self) -> (r: Self)
        ensures
            r == *self,
    {
        match self {
            AccountEvent::AccountCreated {
                id,
                email,
                password_hash,
                created_at,
                event_version,
                event_id,
            } => AccountEvent::AccountCreated {
                id: id.clone(),
                email: email.clone(),
                password_hash: password_hash.clone(),
                created_at: *created_at,
                event_version: event_version.clone(),
                event_id: event_id.clone(),
            },
        }
    }
}

/// One stored event with the identity, ordering and timing that travel with it.
#[derive(Debug, Clone, PartialEq, Eq)]
pub struct EventEnvelope {
    pub aggregate_type: String,
    pub aggregate_id: String,
    /// Orders the event within its aggregate's history.
    pub sequence: String,
    pub payload: AccountEvent,
    /// Key and value pairs; their order carries no meaning.
    pub metadata: Vec<(String, String)>,
    /// Seconds since the Unix epoch.
    pub timestamp: i64,
}

/// The values that an envelope holds.
pub struct EnvelopeView {
    pub aggregate_type: Seq<char>,
    pub aggregate_id: Seq<char>,
    pub sequence: Seq<char>,
    pub payload: AccountEvent,
    pub metadata: Seq<(String, String)>,
    pub timestamp: i64,
}

impl View for EventEnvelope {
    type V = EnvelopeView;

    open spec fn view(&self) -> EnvelopeView {
        EnvelopeView {
            aggregate_type: self.aggregate_type@,
            aggregate_id: self.aggregate_id@,
            sequence: self.sequence@,
            payload: self.payload,
            metadata: self.metadata@,
            timestamp: self.timestamp,
        }
    }
}

impl EventEnvelope {
    /// A field-for-field copy of the envelope.
    pub fn cloned(&self) -> (r: Self)
        ensures
            r@ == self@,
    {
        let mut metadata: Vec<(String, String)> = Vec::new();
        let mut i: usize = 0;
        while i < self.metadata.len()
            invariant
                i <= self.metadata@.len(),
                metadata@ == self.metadata@.take(i as int),
            decreases self.metadata@.len() - i,
        {
            let (k, v) = &self.metadata[i];
            metadata.push((k.clone(), v.clone()));
            assert(self.metadata@.take(i as int + 1) =~= self.metadata@.take(i as int).push(
                self.metadata@[i as int],
            ));
            i = i + 1;
        }
        assert(self.metadata@.take(i as int) =~= self.metadata@);
        EventEnvelope {
            aggregate_type: self.aggregate_type.clone(),
            aggregate_id: self.aggregate_id.clone(),
            sequence: self.sequence.clone(),
            payload: self.payload.cloned(),
            metadata,
            timestamp: self.timestamp,
        }
    }
}

} // verus!
