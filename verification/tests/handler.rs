use mo_app::HttpReply;
use mo_app::MyError;
use mo_app::RenderMode;
use mo_app::StoreOutcome;
use mo_app::User;
use mo_app::handler::complete_create;
use mo_app::handler::handle_create;
use mo_app::handler::reply_for_outcome;

fn user(first: &str, last: &str, email: &str) -> User {
    User {
        id: None,
        first_name: String::from(first),
        last_name: String::from(last),
        email: String::from(email),
    }
}

/// A store stub: it only counts how often the handler asked for an insert.
struct StoreStub {
    calls: usize,
    outcome_id: Option<String>,
    failure_text: String,
}

impl StoreStub {
    fn insert(&mut self) -> StoreOutcome {
        self.calls += 1;
        match &self.outcome_id {
            Some(id) => StoreOutcome::Inserted(id.clone()),
            None => StoreOutcome::Failed(self.failure_text.clone()),
        }
    }
}

fn run(payload: &User, store: &mut StoreStub, mode: RenderMode) -> HttpReply {
    match handle_create(payload) {
        Ok(record) => {
            assert!(record.id.is_none());
            let outcome = store.insert();
            reply_for_outcome(outcome, mode)
        }
        Err(kind) => {
            let time = String::from("2024-01-01T00:00:00.000000Z");
            mo_app::handler::render_error_at(kind, mode, time)
        }
    }
}

#[test]
fn valid_payload_and_successful_insert_yield_201_with_the_id() {
    let mut store = StoreStub {
        calls: 0,
        outcome_id: Some(String::from("abc123")),
        failure_text: String::new(),
    };
    let reply = run(
        &user("Ada", "Lovelace", "ada@example.com"),
        &mut store,
        RenderMode::Structured,
    );
    assert_eq!(reply.status, 201);
    assert!(reply.body.contains("abc123"));
    assert_eq!(reply.body, "\"abc123\"");
    assert_eq!(store.calls, 1);
}

#[test]
fn missing_field_yields_400_and_no_store_call() {
    let mut store = StoreStub {
        calls: 0,
        outcome_id: Some(String::from("abc123")),
        failure_text: String::new(),
    };
    let reply = run(&user("", "X", "x@x.com"), &mut store, RenderMode::Plain);
    assert_eq!(reply.status, 400);
    assert_eq!(reply.body, "Bad request");
    assert_eq!(store.calls, 0);
}

#[test]
fn each_invalid_shape_is_rejected_locally() {
    for u in [
        user("", "Lovelace", "ada@example.com"),
        user("Ada", "", "ada@example.com"),
        user("Ada", "Lovelace", ""),
        user("Ada", "Lovelace", "no-at-sign"),
    ] {
        assert!(matches!(handle_create(&u), Err(MyError::BadClientData)));
    }
}

#[test]
fn store_failure_yields_500_and_hides_the_driver_text() {
    let injected = "driver said: duplicate key at shard 7";
    let mut store = StoreStub {
        calls: 0,
        outcome_id: None,
        failure_text: String::from(injected),
    };
    let reply = run(
        &user("Ada", "Lovelace", "ada@example.com"),
        &mut store,
        RenderMode::Structured,
    );
    assert_eq!(reply.status, 500);
    assert_eq!(store.calls, 1);
    assert!(!reply.body.contains(injected));
    assert!(!reply.body.contains("duplicate key"));
    let v: serde_json::Value = serde_json::from_str(&reply.body).unwrap();
    assert_eq!(v["status_code"], serde_json::Value::from(500u16));
    assert_eq!(v["message"].as_str(), Some("Internal server error"));
    assert_eq!(
        v["debug_message"].as_str(),
        Some("Internal server error. Please try again later.")
    );
    assert!(v["time"].as_str().is_some());
    assert!(chrono::DateTime::parse_from_rfc3339(v["time"].as_str().unwrap()).is_ok());
}

#[test]
fn any_two_failures_classify_alike() {
    let a = complete_create(StoreOutcome::Failed(String::from("connection reset")));
    let b = complete_create(StoreOutcome::Failed(String::from("index violation")));
    assert_eq!(a, Err(MyError::InternalError));
    assert_eq!(b, Err(MyError::InternalError));
}

#[test]
fn successful_outcome_hands_back_the_assigned_id() {
    let r = complete_create(StoreOutcome::Inserted(String::from("65f0a2")));
    assert_eq!(r, Ok(String::from("65f0a2")));
}

#[test]
fn created_body_quotes_ids_that_need_escaping() {
    let reply = reply_for_outcome(
        StoreOutcome::Inserted(String::from("we\"ird\\id")),
        RenderMode::Plain,
    );
    assert_eq!(reply.status, 201);
    let v: serde_json::Value = serde_json::from_str(&reply.body).unwrap();
    assert_eq!(v.as_str(), Some("we\"ird\\id"));
}

#[test]
fn handler_clears_an_incoming_id() {
    let payload = User {
        id: Some(String::from("forged")),
        first_name: String::from("Ada"),
        last_name: String::from("Lovelace"),
        email: String::from("ada@example.com"),
    };
    let record = handle_create(&payload).unwrap();
    assert!(record.id.is_none());
    assert_eq!(record.first_name, "Ada");
}
