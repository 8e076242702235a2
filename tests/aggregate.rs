use account::aggregate::{AccountAggregate, AggregateSnapshot};
use account::command::{AccountCommand, CreateAccountCommand, GraphQLCreateAccountInput};
use account::error::AccountError;
use account::event::AccountEvent;
use account::machine::{
    create_account_machine, create_guard, AccountContext, New, States,
};
use account::services::TAccountServices;

struct FakeHasher;

impl TAccountServices for FakeHasher {
    fn hash_password(&self, password: String) -> Result<String, String> {
        Ok(format!("hashed:{}", password))
    }
}

struct BrokenHasher;

impl TAccountServices for BrokenHasher {
    fn hash_password(&self, _password: String) -> Result<String, String> {
        Err("no entropy".to_string())
    }
}

fn created(n: u32) -> AccountEvent {
    AccountEvent::AccountCreated {
        id: format!("id-{}", n),
        email: format!("user{}@x.com", n),
        password_hash: format!("hash-{}", n),
        created_at: 1_700_000_000 + n as i64,
        event_version: "0.0.1".to_string(),
        event_id: format!("ev-{:03}", n),
    }
}

fn command(email: &str) -> AccountCommand {
    AccountCommand::from(CreateAccountCommand {
        email: email.to_string(),
        password: "p".to_string(),
    })
}

#[test]
fn command_name_is_its_variant() {
    assert_eq!(command("a@b.com").to_string(), "CreateAccount");
}

#[test]
fn input_keeps_its_fields() {
    let input = GraphQLCreateAccountInput::new("a@b.com".to_string(), "pw".to_string());
    assert_eq!(input.email, "a@b.com");
    assert_eq!(input.password, "pw");
}

#[test]
fn event_accessors() {
    let e = created(7);
    assert_eq!(e.event_type(), "AccountCreated");
    assert_eq!(e.event_version(), "0.0.1");
    assert_eq!(e.event_id(), "ev-007");
    assert_eq!(e.cloned(), e);
}

#[test]
fn default_aggregate_is_empty() {
    let a = AccountAggregate::default();
    assert_eq!(a.aggregate_id(), None);
    assert_eq!(a.applied_events, 0);
    assert_eq!(a.machine_state(), States::New);
    assert_eq!(AccountAggregate::aggregate_type(), "Account");
}

#[test]
fn apply_folds_and_counts() {
    let mut a = AccountAggregate::default();
    a.apply(created(1));
    assert_eq!(a.id, Some("id-1".to_string()));
    assert_eq!(a.email, Some("user1@x.com".to_string()));
    assert_eq!(a.password_hash, Some("hash-1".to_string()));
    assert_eq!(a.created_at, Some(1_700_000_001));
    assert_eq!(a.last_event, Some(created(1)));
    assert_eq!(a.applied_events, 1);
    assert_eq!(a.machine_state(), States::Created);
    a.apply(created(2));
    assert_eq!(a.id, Some("id-2".to_string()));
    assert_eq!(a.applied_events, 2);
}

#[test]
fn snapshot_after_ten_events() {
    let mut a = AccountAggregate::default();
    for n in 1..=10 {
        a.apply(created(n));
    }
    let s = a.snapshot().expect("ten events call for a snapshot");
    assert_eq!(s.aggregate_id, "id-10");
    assert_eq!(s.aggregate_type, "Account");
    assert_eq!(s.last_sequence, "ev-010");
    assert_eq!(s.snapshot_id.len(), 26);
    assert_eq!(s.payload, a);
}

#[test]
fn no_snapshot_after_nine_events() {
    let mut a = AccountAggregate::default();
    for n in 1..=9 {
        a.apply(created(n));
    }
    assert!(a.snapshot().is_none());
    assert_eq!(a.applied_events, 9);
}

#[test]
fn no_snapshot_without_events() {
    let mut a = AccountAggregate::default();
    assert!(a.snapshot().is_none());
}

#[test]
fn replay_from_snapshot_matches_full_replay() {
    let events: Vec<AccountEvent> = (1..=4).map(created).collect();
    let mut full = AccountAggregate::default();
    for e in &events {
        full.apply(e.clone());
    }
    let mut first = AccountAggregate::default();
    first.apply(events[0].clone());
    let snapshot = AggregateSnapshot {
        aggregate_id: "id-1".to_string(),
        aggregate_type: "Account".to_string(),
        payload: first.clone(),
        last_sequence: "ev-001".to_string(),
        snapshot_id: "01HZZZZZZZZZZZZZZZZZZZZZZZ".to_string(),
        timestamp: 0,
    };
    let mut replayed = AccountAggregate::default();
    replayed.apply_snapshot(snapshot);
    for e in &events[1..] {
        replayed.apply(e.clone());
    }
    assert_eq!(replayed.id, full.id);
    assert_eq!(replayed.email, full.email);
    assert_eq!(replayed.status, full.status);
    assert_eq!(replayed.password_hash, full.password_hash);
    assert_eq!(replayed.created_at, full.created_at);
    assert_eq!(replayed.last_event, full.last_event);
    assert_eq!(replayed.applied_events, 3);
    assert_eq!(full.applied_events, 4);
}

#[test]
fn apply_snapshot_keeps_counter() {
    let mut a = AccountAggregate::default();
    a.apply(created(1));
    a.apply(created(2));
    let mut payload = AccountAggregate::default();
    payload.apply(created(5));
    payload.status = Some("active".to_string());
    let snapshot = AggregateSnapshot {
        aggregate_id: "id-5".to_string(),
        aggregate_type: "Account".to_string(),
        payload,
        last_sequence: "ev-005".to_string(),
        snapshot_id: "s".to_string(),
        timestamp: 0,
    };
    a.apply_snapshot(snapshot);
    assert_eq!(a.id, Some("id-5".to_string()));
    assert_eq!(a.status, Some("active".to_string()));
    assert_eq!(a.applied_events, 2);
}

#[test]
fn handle_from_new_emits_creation_event() {
    let a = AccountAggregate::default();
    let events = a.handle(command("a@b.com"), &FakeHasher).expect("creation succeeds");
    assert_eq!(events.len(), 1);
    match &events[0] {
        AccountEvent::AccountCreated { id, email, password_hash, event_version, event_id, .. } => {
            assert_eq!(email, "a@b.com");
            assert_eq!(password_hash, "hashed:p");
            assert_eq!(event_version, "0.0.1");
            assert_eq!(id.len(), 26);
            assert_eq!(event_id.len(), 26);
        }
    }
}

#[test]
fn handle_from_created_has_no_transition() {
    let mut a = AccountAggregate::default();
    a.apply(created(1));
    let r = a.handle(command("a@b.com"), &FakeHasher);
    match r {
        Err(AccountError::StateMachineTransitionFail(AccountCommand::CreateAccount(c))) => {
            assert_eq!(c.email, "a@b.com")
        }
        _ => panic!("expected a transition failure"),
    }
}

#[test]
fn handle_with_failing_hash_has_no_event() {
    let a = AccountAggregate::default();
    let r = a.handle(command("a@b.com"), &BrokenHasher);
    assert!(matches!(r, Err(AccountError::StateMachineTransitionFail(_))));
}

#[test]
fn exit_with_hash_sets_event() {
    let mut ctx = AccountContext::new(None);
    ctx.set_command(command("a@b.com"));
    New.exit(
        &mut ctx,
        Ok("h".to_string()),
        "id".to_string(),
        "ev".to_string(),
        42,
    );
    assert_eq!(
        ctx.get_event(),
        &Some(AccountEvent::AccountCreated {
            id: "id".to_string(),
            email: "a@b.com".to_string(),
            password_hash: "h".to_string(),
            created_at: 42,
            event_version: "0.0.1".to_string(),
            event_id: "ev".to_string(),
        })
    );
    assert!(ctx.get_error().is_none());
}

#[test]
fn exit_with_hash_failure_sets_error() {
    let mut ctx = AccountContext::new(None);
    ctx.set_command(command("a@b.com"));
    New.exit(&mut ctx, Err("bad".to_string()), "id".to_string(), "ev".to_string(), 42);
    assert!(ctx.get_event().is_none());
    assert_eq!(ctx.get_error(), &Some("Failed to hash password".to_string()));
}

#[test]
fn exit_without_command_changes_nothing() {
    let mut ctx = AccountContext::new(None);
    New.exit(&mut ctx, Ok("h".to_string()), "id".to_string(), "ev".to_string(), 1);
    assert!(ctx.get_event().is_none());
    assert!(ctx.get_error().is_none());
    assert!(ctx.get_command().is_none());
}

#[test]
fn guard_needs_a_command() {
    let mut ctx = AccountContext::new(None);
    assert!(!create_guard(&ctx));
    ctx.set_command(command("a@b.com"));
    assert!(create_guard(&ctx));
}

#[test]
fn machine_moves_from_new_to_created() {
    let mut machine = create_account_machine(States::New);
    let mut ctx = AccountContext::new(None);
    ctx.set_command(command("a@b.com"));
    machine.decide(&mut ctx, Ok("h".to_string()), "A".to_string(), "B".to_string(), 9);
    assert_eq!(machine.state, States::Created);
    assert!(ctx.get_event().is_some());
}

#[test]
fn machine_in_created_does_nothing() {
    let mut machine = create_account_machine(States::Created);
    let mut ctx = AccountContext::new(None);
    ctx.set_command(command("a@b.com"));
    machine.decide(&mut ctx, Ok("h".to_string()), "A".to_string(), "B".to_string(), 9);
    assert_eq!(machine.state, States::Created);
    assert!(ctx.get_event().is_none());
    assert!(ctx.get_error().is_none());
}

#[test]
fn argon2_hash_is_not_the_password() {
    let services = account::services::AccountServices::new();
    let h = services.hash_password("secret".to_string()).expect("hashing succeeds");
    assert_ne!(h, "secret");
    assert!(h.starts_with("$argon2"));
}

#[test]
fn handle_with_known_values() {
    let a = AccountAggregate::default();
    let events = a
        .handle_with(command("a@b.com"), Ok("h".to_string()), "A".to_string(), "B".to_string(), 9)
        .expect("creation succeeds");
    assert_eq!(
        events,
        vec![AccountEvent::AccountCreated {
            id: "A".to_string(),
            email: "a@b.com".to_string(),
            password_hash: "h".to_string(),
            created_at: 9,
            event_version: "0.0.1".to_string(),
            event_id: "B".to_string(),
        }]
    );
    let r = a.handle_with(command("a@b.com"), Err("x".to_string()), "A".to_string(), "B".to_string(), 9);
    assert!(matches!(r, Err(AccountError::StateMachineTransitionFail(_))));
}

#[test]
fn decide_from_created_with_known_values() {
    let mut machine = create_account_machine(States::Created);
    let mut ctx = AccountContext::new(None);
    ctx.set_command(command("a@b.com"));
    machine.decide(&mut ctx, Ok("h".to_string()), "A".to_string(), "B".to_string(), 9);
    assert_eq!(machine.state, States::Created);
    assert!(ctx.get_event().is_none());
}
