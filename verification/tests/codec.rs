use mo_app::User;

fn user(first: &str, last: &str, email: &str) -> User {
    User {
        id: None,
        first_name: String::from(first),
        last_name: String::from(last),
        email: String::from(email),
    }
}

#[test]
fn encode_is_exact() {
    let u = user("Ada", "Lovelace", "ada@example.com");
    assert_eq!(
        u.to_json(),
        "{\"first_name\":\"Ada\",\"last_name\":\"Lovelace\",\"email\":\"ada@example.com\"}"
    );
}

#[test]
fn encode_escapes_quotes_and_backslashes() {
    let u = user("A\"da", "Love\\lace", "ada@example.com");
    assert_eq!(
        u.to_json(),
        "{\"first_name\":\"A\\\"da\",\"last_name\":\"Love\\\\lace\",\"email\":\"ada@example.com\"}"
    );
}

#[test]
fn encode_is_real_json() {
    let u = user("A\"d\\a\n", "L\tove\r", "ada@example.com");
    let v: serde_json::Value = serde_json::from_str(&u.to_json()).unwrap();
    assert_eq!(v["first_name"].as_str(), Some("A\"d\\a\n"));
    assert_eq!(v["last_name"].as_str(), Some("L\tove\r"));
    assert_eq!(v["email"].as_str(), Some("ada@example.com"));
}

#[test]
fn round_trip_plain_fields() {
    let u = user("Ada", "Lovelace", "ada@example.com");
    let back = User::from_json(&u.to_json()).unwrap();
    assert!(back.id.is_none());
    assert_eq!(back.first_name, "Ada");
    assert_eq!(back.last_name, "Lovelace");
    assert_eq!(back.email, "ada@example.com");
}

#[test]
fn round_trip_fields_needing_escapes() {
    let cases = [
        ("A\"da", "Love\\lace", "a@b"),
        ("line\nbreak", "tab\there", "x@y.z"),
        ("\\", "\"", "a@\"weird\""),
        ("carriage\rreturn", "plain", "user@host"),
    ];
    for (f, l, e) in cases {
        let u = user(f, l, e);
        let back = User::from_json(&u.to_json()).unwrap();
        assert!(back.id.is_none());
        assert_eq!(back.first_name, f);
        assert_eq!(back.last_name, l);
        assert_eq!(back.email, e);
    }
}

#[test]
fn round_trip_unicode_fields() {
    let u = user("Éva", "Łukasiewicz", "éva@exämple.com");
    let back = User::from_json(&u.to_json()).unwrap();
    assert_eq!(back.first_name, "Éva");
    assert_eq!(back.last_name, "Łukasiewicz");
    assert_eq!(back.email, "éva@exämple.com");
}

#[test]
fn empty_fields_round_trip_but_fail_validation() {
    // Validation rejects these before any store call; the codec itself is
    // still total on them.
    let u = user("", "", "");
    assert!(!u.validate());
    let back = User::from_json(&u.to_json()).unwrap();
    assert_eq!(back.first_name, "");
    assert_eq!(back.last_name, "");
    assert_eq!(back.email, "");
}

#[test]
fn decode_rejects_malformed_payloads() {
    assert!(User::from_json("").is_none());
    assert!(User::from_json("{}").is_none());
    assert!(User::from_json("{\"first_name\":\"Ada\"}").is_none());
    assert!(User::from_json("{\"first_name\":\"Ada\",\"last_name\":\"L\",\"email\":\"a@b\"")
        .is_none());
    assert!(User::from_json(
        "{\"first_name\":\"Ada\",\"last_name\":\"L\",\"email\":\"a@b\"} trailing"
    )
    .is_none());
    assert!(User::from_json("{\"first_name\":\"Ada\\x\",\"last_name\":\"L\",\"email\":\"a@b\"}")
        .is_none());
}

#[test]
fn validation_checks_each_field() {
    assert!(user("Ada", "Lovelace", "ada@example.com").validate());
    assert!(!user("", "Lovelace", "ada@example.com").validate());
    assert!(!user("Ada", "", "ada@example.com").validate());
    assert!(!user("Ada", "Lovelace", "").validate());
    assert!(!user("Ada", "Lovelace", "ada.example.com").validate());
    assert!(user("A", "L", "@").validate());
}
