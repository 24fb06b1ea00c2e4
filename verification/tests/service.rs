use betstream::broadcast::Broadcaster;
use betstream::event::Event;
use betstream::handlers::ApiError;
use betstream::handlers::AppState;
use betstream::handlers::account_batches;
use betstream::handlers::cancel_batch;
use betstream::handlers::create_account;
use betstream::handlers::create_app_state;
use betstream::handlers::create_batch;
use betstream::handlers::delete_account;
use betstream::handlers::get_account;
use betstream::handlers::get_accounts;
use betstream::handlers::next_outbound;
use betstream::handlers::submit_batch;
use betstream::handlers::update_account;
use betstream::handlers::update_account_batch_bet;
use betstream::handlers::update_account_batch_bets;
use betstream::models::BetStatus;
use betstream::models::BetUpdateRequest;
use betstream::models::CreateAccountRequest;
use betstream::models::CreateBatchRequest;
use betstream::models::CreateBetRequest;
use betstream::models::UpdateBetStatusRequest;
use betstream::store::Store;

const T1: &str = "2024-01-01T00:00:00Z";
const T2: &str = "2024-01-02T00:00:00Z";

fn fresh() -> AppState {
    create_app_state(Store::new())
}

fn acct_req(name: &str) -> CreateAccountRequest {
    CreateAccountRequest { name: name.to_string(), hostname: format!("{}-host", name) }
}

fn bet_req(id: i64, selection: &str, stake: i64, cost: i64) -> CreateBetRequest {
    CreateBetRequest { id, selection: selection.to_string(), stake, cost }
}

fn batch_req(bets: Vec<CreateBetRequest>) -> CreateBatchRequest {
    CreateBatchRequest { meta: "{}".to_string(), bets }
}

#[test]
fn accounts_roundtrip_newest_first() {
    let mut state = fresh();
    let a1 = create_account(&mut state, acct_req("alice"), T1);
    let a2 = create_account(&mut state, acct_req("bob"), T2);
    assert_eq!(a1.id, 1);
    assert_eq!(a2.id, 2);
    assert_eq!(a1.created_at, T1);
    assert_eq!(a1.updated_at, T1);
    let all = get_accounts(&state);
    assert_eq!(all.len(), 2);
    assert_eq!(all[0].name, "bob");
    assert_eq!(all[1].name, "alice");
    let one = get_account(&state, 1).expect("account 1 is live");
    assert_eq!(one.name, "alice");
    assert_eq!(one.hostname, "alice-host");
    assert_eq!(get_account(&state, 99).unwrap_err(), ApiError::NotFound);
}

#[test]
fn update_account_rewrites_and_keeps_creation_time() {
    let mut state = fresh();
    create_account(&mut state, acct_req("alice"), T1);
    let a = update_account(&mut state, 1, acct_req("carol"), T2).expect("account 1 is live");
    assert_eq!(a.name, "carol");
    assert_eq!(a.created_at, T1);
    assert_eq!(a.updated_at, T2);
    assert_eq!(
        update_account(&mut state, 9, acct_req("nobody"), T2).unwrap_err(),
        ApiError::NotFound,
    );
}

#[test]
fn create_batch_requires_a_live_account() {
    let mut state = fresh();
    let r = create_batch(&mut state, 7, batch_req(vec![bet_req(1, "X", 10, 2)]), T1);
    assert_eq!(r.unwrap_err(), ApiError::NotFound);
    assert!(account_batches(&state, 7).is_empty());
}

#[test]
fn batches_listed_newest_first_with_bets_sorted_by_client_id() {
    let mut state = fresh();
    create_account(&mut state, acct_req("alice"), T1);
    let b1 = create_batch(
        &mut state,
        1,
        batch_req(vec![bet_req(30, "C", 1, 1), bet_req(10, "A", 2, 1), bet_req(20, "B", 3, 1)]),
        T1,
    )
    .expect("batch under live account");
    let b2 = create_batch(&mut state, 1, batch_req(vec![bet_req(5, "D", 4, 1)]), T2)
        .expect("batch under live account");
    assert_eq!(b1.id, 1);
    assert_eq!(b2.id, 2);
    let listed = account_batches(&state, 1);
    assert_eq!(listed.len(), 2);
    assert_eq!(listed[0].id, 2);
    assert_eq!(listed[1].id, 1);
    let ids: Vec<i64> = listed[1].bets.iter().map(|t| t.id).collect();
    assert_eq!(ids, vec![10, 20, 30]);
    assert_eq!(listed[1].meta, "{}");
    assert!(!listed[1].completed);
}

#[test]
fn bulk_settlement_by_key_is_all_or_nothing() {
    let mut state = fresh();
    create_account(&mut state, acct_req("alice"), T1);
    let b = create_batch(&mut state, 1, batch_req(vec![bet_req(1, "A", 1, 1), bet_req(2, "B", 1, 1)]), T1)
        .expect("batch under live account");
    let good = b.bets[0].pid;
    let sub = state.event_sender.subscribe();
    let r = update_account_batch_bets(
        &mut state,
        1,
        b.id,
        vec![BetUpdateRequest { pid: good }, BetUpdateRequest { pid: 999 }],
    );
    assert_eq!(r.unwrap_err(), ApiError::NotFound);
    let listed = account_batches(&state, 1);
    assert!(listed[0].bets.iter().all(|t| t.status == BetStatus::Pending));
    assert!(
        state.event_sender.recv(sub).is_none(),
        "a refused settlement must publish nothing",
    );

    let r = update_account_batch_bets(
        &mut state,
        1,
        b.id,
        vec![BetUpdateRequest { pid: b.bets[0].pid }, BetUpdateRequest { pid: b.bets[1].pid }],
    )
    .expect("both wagers are live");
    assert_eq!(r.len(), 2);
    assert!(r.iter().all(|t| t.status == BetStatus::Successful));
    let listed = account_batches(&state, 1);
    assert!(listed[0].bets.iter().all(|t| t.status == BetStatus::Successful));
    let env = state.event_sender.recv(sub).expect("one settlement envelope");
    match &env.event {
        Event::BatchBetsUpdated { batch_id, account_id, bets } => {
            assert_eq!(*batch_id, b.id);
            assert_eq!(*account_id, 1);
            assert_eq!(bets.len(), 2);
            assert!(bets.iter().all(|t| t.status == BetStatus::Successful));
        },
        _ => panic!("expected BatchBetsUpdated"),
    }
    assert!(state.event_sender.recv(sub).is_none());
}

#[test]
fn submit_batch_settles_by_client_id_and_completes() {
    let mut state = fresh();
    create_account(&mut state, acct_req("alice"), T1);
    let b = create_batch(&mut state, 1, batch_req(vec![bet_req(9, "X", 10, 2), bet_req(9, "Y", 5, 1)]), T1)
        .expect("batch under live account");
    let sub = state.event_sender.subscribe();
    let r = submit_batch(&mut state, 1, b.id, vec![BetUpdateRequest { pid: 9 }], T2)
        .expect("client id 9 is live");
    match state.event_sender.recv(sub).expect("one completion envelope").event {
        Event::BatchCompleted { batch_id, account_id } => {
            assert_eq!(batch_id, b.id);
            assert_eq!(account_id, 1);
        },
        _ => panic!("expected BatchCompleted"),
    }
    assert_eq!(r.len(), 1);
    assert_eq!(r[0].status, BetStatus::Successful);
    let listed = account_batches(&state, 1);
    assert!(listed[0].completed);
    assert_eq!(listed[0].updated_at, T2);
    assert!(listed[0].bets.iter().all(|t| t.status == BetStatus::Successful));

    let r = submit_batch(&mut state, 1, b.id, vec![BetUpdateRequest { pid: 777 }], T2);
    assert_eq!(r.unwrap_err(), ApiError::NotFound);
}

#[test]
fn cancel_batch_fails_bets_but_leaves_the_batch_open() {
    let mut state = fresh();
    create_account(&mut state, acct_req("alice"), T1);
    let b = create_batch(&mut state, 1, batch_req(vec![bet_req(3, "A", 1, 1)]), T1)
        .expect("batch under live account");
    let r = cancel_batch(&mut state, 1, b.id, vec![BetUpdateRequest { pid: 3 }])
        .expect("client id 3 is live");
    assert_eq!(r[0].status, BetStatus::Failed);
    let listed = account_batches(&state, 1);
    assert!(!listed[0].completed);
    assert_eq!(listed[0].bets[0].status, BetStatus::Failed);
}

#[test]
fn single_bet_update_validates_the_status_text() {
    let mut state = fresh();
    create_account(&mut state, acct_req("alice"), T1);
    let b = create_batch(&mut state, 1, batch_req(vec![bet_req(9, "X", 10, 2)]), T1)
        .expect("batch under live account");
    let pid = b.bets[0].pid;
    let r = update_account_batch_bet(
        &mut state,
        1,
        b.id,
        pid,
        UpdateBetStatusRequest { status: "won".to_string() },
    );
    assert_eq!(r.unwrap_err(), ApiError::BadRequest);
    let r = update_account_batch_bet(
        &mut state,
        1,
        b.id,
        999,
        UpdateBetStatusRequest { status: "failed".to_string() },
    );
    assert_eq!(r.unwrap_err(), ApiError::NotFound);
    let t = update_account_batch_bet(
        &mut state,
        1,
        b.id,
        pid,
        UpdateBetStatusRequest { status: "SUCCESSFUL".to_string() },
    )
    .expect("wager is live and status text is known");
    assert_eq!(t.status, BetStatus::Successful);
}

#[test]
fn end_to_end_stream_scenario() {
    let mut state = fresh();
    let a = create_account(&mut state, acct_req("alice"), T1);
    assert_eq!(a.id, 1);
    let sub = state.event_sender.subscribe();

    let resp = create_batch(&mut state, 1, batch_req(vec![bet_req(9, "X", 10, 2)]), T1)
        .expect("batch under live account");
    let env = state.event_sender.recv(sub).expect("one BatchCreated envelope");
    match &env.event {
        Event::BatchCreated { batch } => {
            assert_eq!(batch.account_id, 1);
            assert_eq!(batch.bets.len(), 1);
            assert_eq!(batch.bets[0].id, 9);
            assert_eq!(batch.bets[0].selection, "X");
            assert_eq!(batch.bets[0].stake, 10);
            assert_eq!(batch.bets[0].cost, 2);
            assert_eq!(batch.bets[0].status, BetStatus::Pending);
        },
        other => panic!("expected BatchCreated, got {:?} header", betstream::event::broker_event_of(other).event),
    }
    assert!(state.event_sender.recv(sub).is_none());

    let pid = resp.bets[0].pid;
    update_account_batch_bet(
        &mut state,
        1,
        resp.id,
        pid,
        UpdateBetStatusRequest { status: "successful".to_string() },
    )
    .expect("wager is live");
    let env = state.event_sender.recv(sub).expect("one BetStatusChanged envelope");
    match &env.event {
        Event::BetStatusChanged { account_id, bet } => {
            assert_eq!(*account_id, 1);
            assert_eq!(bet.status, BetStatus::Successful);
            assert_eq!(bet.id, 9);
        },
        _ => panic!("expected BetStatusChanged"),
    }

    delete_account(&mut state, 1);
    let env = state.event_sender.recv(sub).expect("one AccountDeleted envelope");
    match &env.event {
        Event::AccountDeleted { account_id } => assert_eq!(*account_id, 1),
        _ => panic!("expected AccountDeleted"),
    }
    assert!(
        state.event_sender.recv(sub).is_none(),
        "the cascade must not raise envelopes for the removed batches and wagers",
    );
    assert!(get_accounts(&state).is_empty());
    assert!(account_batches(&state, 1).is_empty());
}

#[test]
fn subscriber_connected_before_everything_sees_commit_order() {
    let mut state = fresh();
    let sub = state.event_sender.subscribe();
    create_account(&mut state, acct_req("alice"), T1);
    create_account(&mut state, acct_req("bob"), T1);
    update_account(&mut state, 1, acct_req("carol"), T2).expect("account 1 is live");
    let names: Vec<String> = std::iter::from_fn(|| state.event_sender.recv(sub))
        .map(|env| betstream::event::broker_event_of(&env.event).event)
        .collect();
    assert_eq!(names, vec!["account_created", "account_created", "account_updated"]);
}

#[test]
fn merge_step_lets_a_due_heartbeat_outrank_events() {
    let mut state = fresh();
    let sub = state.event_sender.subscribe();
    create_account(&mut state, acct_req("alice"), T1);
    let f = next_outbound(&mut state.event_sender, sub, true, T2).expect("a ping is due");
    assert_eq!(f.event, "ping");
    assert_eq!(f.data, T2.as_bytes().to_vec());
    let f = next_outbound(&mut state.event_sender, sub, false, T2).expect("an event is queued");
    assert_eq!(f.event, "account_created");
    assert!(next_outbound(&mut state.event_sender, sub, false, T2).is_none());
    state.event_sender.unsubscribe(sub);
    assert_eq!(state.event_sender.subs.len(), 0);
}

#[test]
fn heartbeats_survive_a_saturated_event_queue() {
    let mut state = AppState { store: Store::new(), event_sender: Broadcaster::new(1) };
    let sub = state.event_sender.subscribe();
    create_account(&mut state, acct_req("a"), T1);
    create_account(&mut state, acct_req("b"), T1);
    let f = next_outbound(&mut state.event_sender, sub, true, T2)
        .expect("a ping is due even under queue pressure");
    assert_eq!(f.event, "ping");
    let f = next_outbound(&mut state.event_sender, sub, false, T2).expect("an event is queued");
    assert_eq!(f.event, "account_created");
}

#[test]
fn deleting_a_missing_account_changes_nothing_and_publishes_nothing() {
    let mut state = fresh();
    create_account(&mut state, acct_req("alice"), T1);
    let sub = state.event_sender.subscribe();
    delete_account(&mut state, 42);
    assert!(
        state.event_sender.recv(sub).is_none(),
        "no state transition happened, so nothing may be published",
    );
    assert_eq!(get_accounts(&state).len(), 1);
}

#[test]
fn overflow_in_the_service_keeps_the_newest_events() {
    let mut state = AppState { store: Store::new(), event_sender: Broadcaster::new(2) };
    let sub = state.event_sender.subscribe();
    create_account(&mut state, acct_req("a"), T1);
    create_account(&mut state, acct_req("b"), T1);
    create_account(&mut state, acct_req("c"), T1);
    let mut names = Vec::new();
    while let Some(env) = state.event_sender.recv(sub) {
        match env.event {
            Event::AccountCreated { account } => names.push(account.name),
            _ => panic!("expected AccountCreated"),
        }
    }
    assert_eq!(names, vec!["b".to_string(), "c".to_string()]);
}
