use account::aggregate::{AccountAggregate, AggregateSnapshot};
use account::command::CreateAccountCommand;
use account::error::AccountError;
use account::event::{AccountEvent, EventEnvelope};
use account::order::less_than;
use account::repository::{AccountRepository, EventBus, InMemoryEventRepository};
use account::service::{AccountOutboxService, AccountService};
use account::services::TAccountServices;

struct FakeHasher;

impl TAccountServices for FakeHasher {
    fn hash_password(&self, password: String) -> Result<String, String> {
        Ok(format!("hashed:{}", password))
    }
}

struct BrokenHasher;

impl TAccountServices for BrokenHasher {
    fn hash_password(&self, _password: String) -> Result<String, String> {
        Err("no entropy".to_string())
    }
}

/// Records every publish attempt and refuses the first `refuse` of them.
struct RecordingBus {
    refuse: usize,
    attempts: Vec<String>,
}

impl EventBus for RecordingBus {
    fn publish(&mut self, envelope: EventEnvelope) -> Result<(), String> {
        self.attempts.push(envelope.sequence.clone());
        if self.attempts.len() <= self.refuse {
            Err("bus unavailable".to_string())
        } else {
            Ok(())
        }
    }
}

fn envelope(aggregate: &str, sequence: &str) -> EventEnvelope {
    EventEnvelope {
        aggregate_type: "Account".to_string(),
        aggregate_id: aggregate.to_string(),
        sequence: sequence.to_string(),
        payload: AccountEvent::AccountCreated {
            id: aggregate.to_string(),
            email: format!("{}@x.com", aggregate),
            password_hash: "h".to_string(),
            created_at: 0,
            event_version: "0.0.1".to_string(),
            event_id: sequence.to_string(),
        },
        metadata: vec![],
        timestamp: 0,
    }
}

fn create(email: &str) -> CreateAccountCommand {
    CreateAccountCommand { email: email.to_string(), password: "p".to_string() }
}

#[test]
fn byte_order_of_strings() {
    assert!(less_than(&"a".to_string(), &"b".to_string()));
    assert!(less_than(&"ab".to_string(), &"abc".to_string()));
    assert!(!less_than(&"abc".to_string(), &"ab".to_string()));
    assert!(!less_than(&"same".to_string(), &"same".to_string()));
    assert!(!less_than(&"b".to_string(), &"a".to_string()));
    assert!(less_than(&"".to_string(), &"a".to_string()));
    assert!(!less_than(&"".to_string(), &"".to_string()));
}

#[test]
fn stored_events_reach_log_and_outbox() {
    let mut repo = InMemoryEventRepository::new();
    assert!(repo.store_events(vec![envelope("a", "01"), envelope("a", "02")]).is_ok());
    let history = repo.retrieve_events(&"a".to_string(), &None);
    assert_eq!(history, vec![envelope("a", "01"), envelope("a", "02")]);
    assert_eq!(repo.retrieve_outbox_events(), history);
}

#[test]
fn history_after_a_sequence() {
    let mut repo = InMemoryEventRepository::new();
    assert!(repo
        .store_events(vec![envelope("a", "01"), envelope("b", "02"), envelope("a", "03"), envelope("a", "05")])
        .is_ok());
    let after = repo.retrieve_events(&"a".to_string(), &Some("01".to_string()));
    assert_eq!(after, vec![envelope("a", "03"), envelope("a", "05")]);
    let after = repo.retrieve_events(&"a".to_string(), &Some("04".to_string()));
    assert_eq!(after, vec![envelope("a", "05")]);
    assert!(repo.retrieve_events(&"c".to_string(), &None).is_empty());
}

#[test]
fn out_of_order_sequence_is_refused() {
    let mut repo = InMemoryEventRepository::new();
    let r = repo.store_events(vec![envelope("a", "02"), envelope("a", "01"), envelope("a", "03")]);
    assert!(matches!(r, Err(AccountError::UnknownError)));
    let history = repo.retrieve_events(&"a".to_string(), &None);
    assert_eq!(history, vec![envelope("a", "02"), envelope("a", "03")]);
    assert_eq!(repo.retrieve_outbox_events(), history);
}

#[test]
fn repeated_sequence_is_refused() {
    let mut repo = InMemoryEventRepository::new();
    assert!(repo.store_events(vec![envelope("a", "01")]).is_ok());
    assert!(repo.store_events(vec![envelope("a", "01")]).is_err());
    assert!(repo.store_events(vec![envelope("b", "01")]).is_err());
    assert_eq!(repo.retrieve_outbox_events().len(), 1);
    assert_eq!(repo.retrieve_events(&"b".to_string(), &None).len(), 0);
}

#[test]
fn empty_batch_is_stored() {
    let mut repo = InMemoryEventRepository::new();
    assert!(repo.store_events(vec![]).is_ok());
    assert!(repo.retrieve_outbox_events().is_empty());
}

#[test]
fn failed_outbox_insert_leaves_no_orphan() {
    let mut repo = InMemoryEventRepository::new();
    repo.set_outbox_failure(true);
    let r = repo.store_events(vec![envelope("a", "01")]);
    assert!(matches!(r, Err(AccountError::UnknownError)));
    assert!(repo.retrieve_events(&"a".to_string(), &None).is_empty());
    assert!(repo.retrieve_outbox_events().is_empty());
    repo.set_outbox_failure(false);
    assert!(repo.store_events(vec![envelope("a", "01")]).is_ok());
    assert_eq!(repo.retrieve_events(&"a".to_string(), &None).len(), 1);
}

#[test]
fn refused_publish_keeps_the_row_until_delivery() {
    let mut repo = InMemoryEventRepository::new();
    assert!(repo.store_events(vec![envelope("a", "01")]).is_ok());
    let mut relay = AccountOutboxService::new(RecordingBus { refuse: 1, attempts: vec![] });
    let pending = relay.get_events(&repo);
    assert_eq!(pending.len(), 1);
    let first = relay.send_event(&mut repo, pending[0].clone());
    assert_eq!(first, Err("bus unavailable".to_string()));
    assert_eq!(relay.get_events(&repo).len(), 1);
    let second = relay.send_event(&mut repo, pending[0].clone());
    assert_eq!(second, Ok(()));
    assert!(relay.get_events(&repo).is_empty());
    assert_eq!(relay.bus.attempts, vec!["01".to_string(), "01".to_string()]);
    assert_eq!(repo.retrieve_events(&"a".to_string(), &None).len(), 1);
}

#[test]
fn relay_pass_attempts_every_row() {
    let mut repo = InMemoryEventRepository::new();
    assert!(repo.store_events(vec![envelope("a", "01"), envelope("b", "02"), envelope("c", "03")]).is_ok());
    let mut relay = AccountOutboxService::new(RecordingBus { refuse: 1, attempts: vec![] });
    assert_eq!(
        relay.relay_pass(&mut repo),
        vec![Err("bus unavailable".to_string()), Ok(()), Ok(())]
    );
    assert_eq!(relay.bus.attempts.len(), 3);
    assert_eq!(repo.retrieve_outbox_events(), vec![envelope("a", "01")]);
    assert_eq!(relay.relay_pass(&mut repo), vec![Ok(())]);
    assert!(repo.retrieve_outbox_events().is_empty());
    assert_eq!(relay.bus.attempts.len(), 4);
}

#[test]
fn latest_snapshot_has_greatest_id() {
    let mut repo = InMemoryEventRepository::new();
    assert!(repo.retrieve_latest_snapshot(&"a".to_string()).is_none());
    for (agg, id) in [("a", "02"), ("a", "05"), ("b", "09"), ("a", "03")] {
        let snapshot = AggregateSnapshot {
            aggregate_id: agg.to_string(),
            aggregate_type: "Account".to_string(),
            payload: AccountAggregate::default(),
            last_sequence: "x".to_string(),
            snapshot_id: id.to_string(),
            timestamp: 0,
        };
        assert!(repo.store_snapshot(snapshot).is_ok());
    }
    assert_eq!(repo.retrieve_latest_snapshot(&"a".to_string()).unwrap().snapshot_id, "05");
    assert_eq!(repo.retrieve_latest_snapshot(&"b".to_string()).unwrap().snapshot_id, "09");
    assert!(repo.retrieve_latest_snapshot(&"c".to_string()).is_none());
}

#[test]
fn email_lookups() {
    let mut repo = InMemoryEventRepository::new();
    assert!(repo.store_events(vec![envelope("a", "01"), envelope("b", "02")]).is_ok());
    assert!(repo.email_exists(&"b@x.com".to_string()));
    assert!(!repo.email_exists(&"z@x.com".to_string()));
    assert_eq!(repo.retrieve_aggregate_id_for_email(&"b@x.com".to_string()).ok(), Some("b".to_string()));
    match repo.retrieve_aggregate_id_for_email(&"z@x.com".to_string()) {
        Err(AccountError::AccountNotExists(e)) => assert_eq!(e, "z@x.com"),
        _ => panic!("expected AccountNotExists"),
    }
}

#[test]
fn second_creation_with_same_email_is_refused() {
    let mut service = AccountService::new(FakeHasher, InMemoryEventRepository::new());
    assert!(service.create_account(create("a@b.com")).is_ok());
    match service.create_account(create("a@b.com")) {
        Err(AccountError::AccountExists(e)) => assert_eq!(e, "a@b.com"),
        _ => panic!("expected AccountExists"),
    }
    assert_eq!(service.repository.retrieve_outbox_events().len(), 1);
}

#[test]
fn failed_decision_writes_nothing() {
    let mut service = AccountService::new(BrokenHasher, InMemoryEventRepository::new());
    let r = service.create_account(create("a@b.com"));
    assert!(matches!(r, Err(AccountError::StateMachineTransitionFail(_))));
    assert!(service.repository.retrieve_outbox_events().is_empty());
    assert!(!service.repository.email_exists(&"a@b.com".to_string()));
}

#[test]
fn storage_failure_is_reported() {
    let mut repo = InMemoryEventRepository::new();
    repo.set_outbox_failure(true);
    let mut service = AccountService::new(FakeHasher, repo);
    let r = service.create_account(create("a@b.com"));
    assert!(matches!(r, Err(AccountError::UnknownError)));
    assert!(!service.repository.email_exists(&"a@b.com".to_string()));
}

#[test]
fn distinct_creations_get_one_envelope_each() {
    let mut service = AccountService::new(FakeHasher, InMemoryEventRepository::new());
    let mut ids = vec![];
    for n in 0..5 {
        let a = service.create_account(create(&format!("u{}@x.com", n))).expect("created");
        ids.push(a.id.unwrap());
    }
    for id in &ids {
        assert_eq!(service.repository.retrieve_events(id, &None).len(), 1);
    }
}

#[test]
fn end_to_end_creation_and_relay() {
    let mut service =
        AccountService::new(account::services::AccountServices::new(), InMemoryEventRepository::new());
    let a = service.create_account(create("u@x.com")).expect("created");
    let id = a.id.clone().unwrap();
    assert!(!id.is_empty());
    assert_eq!(a.email, Some("u@x.com".to_string()));
    let history = service.repository.retrieve_events(&id, &None);
    assert_eq!(history.len(), 1);
    assert_eq!(history[0].payload.event_type(), "AccountCreated");
    assert_eq!(history[0].sequence, history[0].payload.event_id());
    assert_eq!(history[0].aggregate_type, "Account");
    assert_eq!(service.repository.retrieve_outbox_events(), history);
    let mut relay = AccountOutboxService::new(RecordingBus { refuse: 0, attempts: vec![] });
    assert_eq!(relay.relay_pass(&mut service.repository), vec![Ok(())]);
    assert!(service.repository.retrieve_outbox_events().is_empty());
    assert_eq!(service.repository.retrieve_events(&id, &None), history);
}

#[test]
fn creation_with_known_values() {
    let mut service = AccountService::new(FakeHasher, InMemoryEventRepository::new());
    let a = service
        .create_account_with(create("a@b.com"), Ok("h".to_string()), "A".to_string(), "B".to_string(), 5, 6)
        .expect("created");
    assert_eq!(a.id, Some("A".to_string()));
    assert_eq!(a.email, Some("a@b.com".to_string()));
    assert_eq!(a.password_hash, Some("h".to_string()));
    assert_eq!(a.created_at, Some(5));
    assert_eq!(a.applied_events, 1);
    let history = service.repository.retrieve_events(&"A".to_string(), &None);
    assert_eq!(history.len(), 1);
    assert_eq!(history[0].sequence, "B");
    assert_eq!(history[0].timestamp, 6);
    assert_eq!(history[0].aggregate_type, "Account");
    assert!(history[0].metadata.is_empty());
}

#[test]
fn creation_with_reused_sequence_fails_to_store() {
    let mut service = AccountService::new(FakeHasher, InMemoryEventRepository::new());
    assert!(service
        .create_account_with(create("a@b.com"), Ok("h".to_string()), "A".to_string(), "B".to_string(), 5, 6)
        .is_ok());
    let r = service.create_account_with(create("z@b.com"), Ok("h".to_string()), "C".to_string(), "B".to_string(), 5, 6);
    assert!(matches!(r, Err(AccountError::UnknownError)));
    assert!(!service.repository.email_exists(&"z@b.com".to_string()));
}

#[test]
fn creation_with_failed_hash() {
    let mut service = AccountService::new(FakeHasher, InMemoryEventRepository::new());
    let r = service.create_account_with(create("a@b.com"), Err("x".to_string()), "A".to_string(), "B".to_string(), 5, 6);
    assert!(matches!(r, Err(AccountError::StateMachineTransitionFail(_))));
    assert!(service.repository.retrieve_outbox_events().is_empty());
}

#[test]
fn finish_delivery_follows_the_bus_answer() {
    let mut repo = InMemoryEventRepository::new();
    assert!(repo.store_events(vec![envelope("a", "01"), envelope("b", "02")]).is_ok());
    let refused = repo.finish_delivery(&"01".to_string(), Err("down".to_string()));
    assert_eq!(refused, Err("down".to_string()));
    assert_eq!(repo.retrieve_outbox_events().len(), 2);
    assert_eq!(repo.finish_delivery(&"01".to_string(), Ok(())), Ok(()));
    assert_eq!(repo.retrieve_outbox_events(), vec![envelope("b", "02")]);
    assert_eq!(repo.finish_delivery(&"01".to_string(), Ok(())), Ok(()));
    assert_eq!(repo.retrieve_outbox_events(), vec![envelope("b", "02")]);
    assert_eq!(repo.retrieve_events(&"a".to_string(), &None).len(), 1);
}
