use betstream::encode::account_json;
use betstream::encode::bet_json;
use betstream::encode::bets_json;
use betstream::encode::event_json;
use betstream::encode::ping_frame;
use betstream::encode::sse_frame;
use betstream::event::Envelope;
use betstream::event::Event;
use betstream::event::broker_event_of;
use betstream::models::Account;
use betstream::models::BatchResponse;
use betstream::models::Bet;
use betstream::models::BetStatus;
use betstream::models::parse_status;

fn account() -> Account {
    Account {
        id: 1,
        name: "alice".to_string(),
        hostname: "host-a".to_string(),
        created_at: "2024-01-01T00:00:00Z".to_string(),
        updated_at: "2024-01-02T00:00:00Z".to_string(),
    }
}

fn bet(pid: i64, id: i64, selection: &str, status: BetStatus) -> Bet {
    Bet {
        pid,
        id,
        selection: selection.to_string(),
        stake: 10,
        cost: 2,
        status,
        batch_id: 1,
    }
}

#[test]
fn account_object_is_exact() {
    let out = account_json(&account());
    let expected = "{\"id\":1,\"name\":\"alice\",\"hostname\":\"host-a\",\"created_at\":\"2024-01-01T00:00:00Z\",\"updated_at\":\"2024-01-02T00:00:00Z\"}";
    assert_eq!(out, expected.as_bytes().to_vec());
}

#[test]
fn bet_object_is_exact() {
    let out = bet_json(&bet(5, 9, "X", BetStatus::Successful));
    let expected = "{\"pid\":5,\"id\":9,\"selection\":\"X\",\"stake\":10,\"cost\":2,\"status\":\"successful\",\"batch_id\":1}";
    assert_eq!(out, expected.as_bytes().to_vec());
}

#[test]
fn bet_array_is_comma_separated() {
    let bets = vec![bet(1, 2, "A", BetStatus::Pending), bet(3, 4, "B", BetStatus::Failed)];
    let out = bets_json(&bets);
    let expected = "[{\"pid\":1,\"id\":2,\"selection\":\"A\",\"stake\":10,\"cost\":2,\"status\":\"pending\",\"batch_id\":1},{\"pid\":3,\"id\":4,\"selection\":\"B\",\"stake\":10,\"cost\":2,\"status\":\"failed\",\"batch_id\":1}]";
    assert_eq!(out, expected.as_bytes().to_vec());
    assert_eq!(bets_json(&Vec::new()), b"[]".to_vec());
}

#[test]
fn strings_are_escaped() {
    let mut a = account();
    a.name = "a\"b\\c\nd\re\tf\u{1}g".to_string();
    let out = account_json(&a);
    let text = String::from_utf8(out).expect("encoder output is UTF-8");
    assert!(text.contains("\"name\":\"a\\\"b\\\\c\\nd\\re\\tf\\u0001g\""));
}

#[test]
fn multibyte_text_passes_through() {
    let mut a = account();
    a.name = "héllo☂".to_string();
    let out = account_json(&a);
    let text = String::from_utf8(out).expect("encoder output is UTF-8");
    assert!(text.contains("\"name\":\"héllo☂\""));
}

#[test]
fn negative_and_extreme_integers() {
    let mut t = bet(1, 2, "A", BetStatus::Pending);
    t.stake = -5;
    t.cost = i64::MIN;
    let out = bet_json(&t);
    let text = String::from_utf8(out).expect("encoder output is UTF-8");
    assert!(text.contains("\"stake\":-5"));
    assert!(text.contains("\"cost\":-9223372036854775808"));
}

#[test]
fn batch_object_embeds_meta_verbatim() {
    let batch = BatchResponse {
        id: 3,
        completed: false,
        created_at: "2024-01-01T00:00:00Z".to_string(),
        updated_at: "2024-01-01T00:00:00Z".to_string(),
        meta: "{\"k\":[1,2]}".to_string(),
        account_id: 1,
        bets: vec![bet(5, 9, "X", BetStatus::Pending)],
    };
    let out = betstream::encode::batch_json(&batch);
    let expected = "{\"id\":3,\"completed\":false,\"created_at\":\"2024-01-01T00:00:00Z\",\"updated_at\":\"2024-01-01T00:00:00Z\",\"meta\":{\"k\":[1,2]},\"account_id\":1,\"bets\":[{\"pid\":5,\"id\":9,\"selection\":\"X\",\"stake\":10,\"cost\":2,\"status\":\"pending\",\"batch_id\":1}]}";
    assert_eq!(out, expected.as_bytes().to_vec());
}

#[test]
fn bet_change_payload_names_the_account() {
    let out = event_json(
        &Event::BetStatusChanged { account_id: 1, bet: bet(5, 9, "X", BetStatus::Failed) },
    );
    let expected = "{\"account_id\":1,\"bet\":{\"pid\":5,\"id\":9,\"selection\":\"X\",\"stake\":10,\"cost\":2,\"status\":\"failed\",\"batch_id\":1}}";
    assert_eq!(out, expected.as_bytes().to_vec());
}

#[test]
fn bulk_update_payload_carries_the_wager_array() {
    let out = event_json(
        &Event::BatchBetsUpdated {
            batch_id: 2,
            account_id: 1,
            bets: vec![bet(5, 9, "X", BetStatus::Successful)],
        },
    );
    let expected = "{\"batch_id\":2,\"account_id\":1,\"bets\":[{\"pid\":5,\"id\":9,\"selection\":\"X\",\"stake\":10,\"cost\":2,\"status\":\"successful\",\"batch_id\":1}]}";
    assert_eq!(out, expected.as_bytes().to_vec());
}

#[test]
fn deletion_payload_carries_only_the_identifier() {
    let out = event_json(&Event::AccountDeleted { account_id: 1 });
    assert_eq!(out, b"{\"id\":1}".to_vec());
}

#[test]
fn completion_payload_names_batch_and_account() {
    let out = event_json(&Event::BatchCompleted { batch_id: 4, account_id: 1 });
    assert_eq!(out, b"{\"batch_id\":4,\"account_id\":1}".to_vec());
}

#[test]
fn frames_carry_the_variant_name() {
    let env = Envelope { seq: 1, event: Event::AccountCreated { account: account() } };
    let f = sse_frame(&env);
    assert_eq!(f.event, "account_created");
    assert_eq!(f.data, account_json(&account()));

    let env = Envelope { seq: 2, event: Event::AccountUpdated { account: account() } };
    assert_eq!(sse_frame(&env).event, "account_updated");
    let env = Envelope { seq: 3, event: Event::AccountDeleted { account_id: 1 } };
    assert_eq!(sse_frame(&env).event, "account_deleted");
    let env = Envelope { seq: 4, event: Event::BatchCompleted { batch_id: 1, account_id: 1 } };
    assert_eq!(sse_frame(&env).event, "batch_submitted");
    let env = Envelope {
        seq: 5,
        event: Event::BetStatusChanged { account_id: 1, bet: bet(1, 2, "A", BetStatus::Pending) },
    };
    assert_eq!(sse_frame(&env).event, "bet_status_updated");
    let env = Envelope {
        seq: 6,
        event: Event::BatchBetsUpdated { batch_id: 1, account_id: 1, bets: Vec::new() },
    };
    assert_eq!(sse_frame(&env).event, "batch_updated");
}

#[test]
fn ping_frame_carries_the_timestamp() {
    let f = ping_frame("2024-01-01T00:00:00+00:00");
    assert_eq!(f.event, "ping");
    assert_eq!(f.data, b"2024-01-01T00:00:00+00:00".to_vec());
}

#[test]
fn broker_event_header_fields() {
    let h = broker_event_of(&Event::AccountCreated { account: account() });
    assert_eq!(h.pk, Some(1));
    assert_eq!(h.id, Some(1));
    assert_eq!(h.name.as_deref(), Some("alice"));
    assert_eq!(h.hostname.as_deref(), Some("host-a"));
    assert_eq!(h.batch_id, None);
    assert_eq!(h.bet_id, None);
    assert_eq!(h.event, "account_created");

    let h = broker_event_of(
        &Event::BetStatusChanged { account_id: 1, bet: bet(5, 9, "X", BetStatus::Pending) },
    );
    assert_eq!(h.pk, Some(5));
    assert_eq!(h.id, Some(1));
    assert_eq!(h.batch_id, Some(1));
    assert_eq!(h.bet_id, Some(5));
    assert_eq!(h.event, "bet_status_updated");
}

#[test]
fn status_text_is_read_case_insensitively() {
    assert_eq!(parse_status("pending"), Some(BetStatus::Pending));
    assert_eq!(parse_status("PENDING"), Some(BetStatus::Pending));
    assert_eq!(parse_status("Successful"), Some(BetStatus::Successful));
    assert_eq!(parse_status("failed"), Some(BetStatus::Failed));
    assert_eq!(parse_status("FaIlEd"), Some(BetStatus::Failed));
    assert_eq!(parse_status(""), None);
    assert_eq!(parse_status("won"), None);
    assert_eq!(parse_status("pending "), None);
}
