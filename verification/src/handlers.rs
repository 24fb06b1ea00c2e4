//! The request operations, each the computing half of one endpoint: mutate
//! the store, hydrate an envelope from the state the commit produced, and
//! hand it to the broadcaster — in that order, so a snapshot is taken
//! synchronously inside the operation and can never be stale relative to the
//! commit it describes. Publishing is fire-and-forget: it never fails the
//! operation, and with no subscribers it has no observable effect beyond the
//! sequence counter.
//!
//! The transport shell around these operations supplies the commit timestamp
//! text, performs the wire I/O, and drives the per-subscriber merge step
//! [`next_outbound`].

use vstd::prelude::*;
use vstd::string::StringSliceAdditionalSpecFns;
use vstd::utf8::encode_utf8;

use crate::broadcast::Broadcaster;
use crate::broadcast::has_sub;
use crate::broadcast::published_one;
use crate::broadcast::sub_index;
use crate::encode::SseFrame;
use crate::encode::event_data;
use crate::encode::ping_frame;
use crate::encode::sse_frame;
use crate::event::Event;
use crate::event::EventView;
use crate::event::event_type;
use crate::models::Account;
use crate::models::AccountView;
use crate::models::Batch;
use crate::models::BatchResponse;
use crate::models::BatchResponseView;
use crate::models::BatchView;
use crate::models::Bet;
use crate::models::BetStatus;
use crate::models::BetView;
use crate::models::CreateAccountRequest;
use crate::models::CreateBatchRequest;
use crate::models::BetUpdateRequest;
use crate::models::CreateBetRequest;
use crate::models::CreateBetRequestView;
use crate::models::UpdateBetStatusRequest;
use crate::models::parse_status;
use crate::models::spec_parse_status;
use crate::store::Store;
use crate::store::account_index;
use crate::store::bet_pid_index;
use crate::store::has_account;
use crate::store::has_bet_cid;
use crate::store::has_bet_pid;
use crate::store::set_status_by_cid;
use crate::store::with_status;

verus! {

/// Why an operation was refused: the entity addressed is not live, or the
/// request itself is malformed.
#[derive(Clone, Copy, Debug, PartialEq, Eq, Structural)]
pub enum ApiError {
    NotFound,
    BadRequest,
}

/// Per-subscriber queue capacity of the application's broadcaster.
pub const EVENT_QUEUE_CAPACITY: usize = 1000;

/// Everything an operation needs: the entity store and the broadcast bus,
/// passed explicitly to every operation rather than reached as an ambient
/// singleton.
pub struct AppState {
    pub store: Store,
    pub event_sender: Broadcaster,
}

impl AppState {
    pub open spec fn wf(&self) -> bool {
        &&& self.store.wf()
        &&& self.event_sender.wf()
    }
}

/// Assembles the application state around a store: a fresh broadcaster with
/// no subscribers and the standard queue capacity.
pub fn create_app_state(store: Store) -> (r: AppState)
    requires
        store.wf(),
    ensures
        r.wf(),
        r.store == store,
        r.event_sender@.subs.len() == 0,
        r.event_sender@.next_seq == 1,
        r.event_sender@.next_sub_id == 1,
        r.event_sender@.cap == EVENT_QUEUE_CAPACITY as int,
{
    AppState { store, event_sender: Broadcaster::new(EVENT_QUEUE_CAPACITY) }
}

/// Lists all accounts, newest first.
pub fn get_accounts(state: &AppState) -> (r: Vec<Account>)
    ensures
        r@.map_values(|a: Account| a@) == state.store@.accounts.reverse(),
{
    state.store.accounts_desc()
}

/// Looks one account up by key; `NotFound` when it is not live.
pub fn get_account(state: &AppState, id: i64) -> (r: Result<Account, ApiError>)
    requires
        state.wf(),
    ensures
        match r {
            Result::Ok(a) => has_account(state.store@.accounts, id as int) && a@
                == state.store@.accounts[account_index(state.store@.accounts, id as int)],
            Result::Err(e) => !has_account(state.store@.accounts, id as int) && e
                == ApiError::NotFound,
        },
{
    match state.store.account_by_id(id) {
        Option::Some(a) => Result::Ok(a),
        Option::None => Result::Err(ApiError::NotFound),
    }
}

/// Creates an account and publishes `AccountCreated` carrying the new
/// record exactly as committed.
pub fn create_account(state: &mut AppState, payload: CreateAccountRequest, now: &str) -> (r:
    Account)
    requires
        old(state).wf(),
        old(state).store@.next_account_id < i64::MAX,
        old(state).event_sender@.next_seq < u64::MAX,
    ensures
        final(state).wf(),
        r@ == (AccountView {
            id: old(state).store@.next_account_id,
            name: payload.name@,
            hostname: payload.hostname@,
            created_at: now@,
            updated_at: now@,
        }),
        final(state).store@.accounts == old(state).store@.accounts.push(r@),
        final(state).store@.batches == old(state).store@.batches,
        final(state).store@.bets == old(state).store@.bets,
        final(state).store@.next_account_id == old(state).store@.next_account_id + 1,
        final(state).store@.next_batch_id == old(state).store@.next_batch_id,
        final(state).store@.next_bet_pid == old(state).store@.next_bet_pid,
        published_one(
            old(state).event_sender@,
            final(state).event_sender@,
            EventView::AccountCreated { account: r@ },
        ),
{
    let a = state.store.insert_account(payload.name, payload.hostname, now);
    let r = a.duplicate();
    state.event_sender.publish(Event::AccountCreated { account: a });
    r
}

/// Rewrites an account's name and hostname and publishes `AccountUpdated`
/// carrying the record exactly as committed; `NotFound` (no change, no
/// event) when the account is not live.
pub fn update_account(
    state: &mut AppState,
    account_id: i64,
    payload: CreateAccountRequest,
    now: &str,
) -> (r: Result<Account, ApiError>)
    requires
        old(state).wf(),
        old(state).event_sender@.next_seq < u64::MAX,
    ensures
        final(state).wf(),
        final(state).store@.batches == old(state).store@.batches,
        final(state).store@.bets == old(state).store@.bets,
        final(state).store@.next_account_id == old(state).store@.next_account_id,
        final(state).store@.next_batch_id == old(state).store@.next_batch_id,
        final(state).store@.next_bet_pid == old(state).store@.next_bet_pid,
        !has_account(old(state).store@.accounts, account_id as int) ==> {
            &&& r matches Result::Err(e)
            &&& e == ApiError::NotFound
            &&& final(state).store@ == old(state).store@
            &&& final(state).event_sender@ == old(state).event_sender@
        },
        has_account(old(state).store@.accounts, account_id as int) ==> {
            let i = account_index(old(state).store@.accounts, account_id as int);
            let a1 = AccountView {
                id: account_id as int,
                name: payload.name@,
                hostname: payload.hostname@,
                created_at: old(state).store@.accounts[i].created_at,
                updated_at: now@,
            };
            &&& r matches Result::Ok(a)
            &&& a@ == a1
            &&& final(state).store@.accounts == old(state).store@.accounts.update(i, a1)
            &&& published_one(
                old(state).event_sender@,
                final(state).event_sender@,
                EventView::AccountUpdated { account: a1 },
            )
        },
{
    match state.store.update_account_record(account_id, payload.name, payload.hostname, now) {
        Option::None => Result::Err(ApiError::NotFound),
        Option::Some(a) => {
            let r = a.duplicate();
            state.event_sender.publish(Event::AccountUpdated { account: a });
            Result::Ok(r)
        },
    }
}

/// Deletes an account with everything under it — its batches and their
/// wagers go in the same commit — and publishes `AccountDeleted` carrying
/// only the identifier, the entity being gone. The event is published
/// exactly once per successful state transition: deleting an account that is
/// not live changes nothing and publishes nothing. The cascade itself
/// publishes nothing either. The operation always succeeds.
pub fn delete_account(state: &mut AppState, account_id: i64)
    requires
        old(state).wf(),
        old(state).event_sender@.next_seq < u64::MAX,
    ensures
        final(state).wf(),
        !has_account(final(state).store@.accounts, account_id as int),
        !has_account(old(state).store@.accounts, account_id as int) ==> {
            &&& final(state).store@ == old(state).store@
            &&& final(state).event_sender@ == old(state).event_sender@
        },
        has_account(old(state).store@.accounts, account_id as int) ==> {
            &&& final(state).store@.accounts == old(state).store@.accounts.filter(
                crate::store::acc_keep(account_id as int),
            )
            &&& final(state).store@.batches == old(state).store@.batches.filter(
                crate::store::batch_keep(account_id as int),
            )
            &&& final(state).store@.bets == old(state).store@.bets.filter(
                crate::store::bet_keep(old(state).store@.batches, account_id as int),
            )
            &&& final(state).store@.next_account_id == old(state).store@.next_account_id
            &&& final(state).store@.next_batch_id == old(state).store@.next_batch_id
            &&& final(state).store@.next_bet_pid == old(state).store@.next_bet_pid
            &&& published_one(
                old(state).event_sender@,
                final(state).event_sender@,
                EventView::AccountDeleted { account_id: account_id as int },
            )
        },
{
    if state.store.account_by_id(account_id).is_none() {
        return;
    }
    state.store.remove_account_cascade(account_id);
    state.event_sender.publish(Event::AccountDeleted { account_id });
}

/// The wager record that one line of a batch-creation payload commits: the
/// requested fields under the next store key, pending, in the new batch.
pub open spec fn created_bet(req: CreateBetRequestView, pid: int, batch_id: int) -> BetView {
    BetView {
        pid,
        id: req.id,
        selection: req.selection,
        stake: req.stake,
        cost: req.cost,
        status: BetStatus::Pending,
        batch_id,
    }
}

/// The wager records a whole batch-creation payload commits, keyed
/// consecutively from `first_pid`, in payload order.
pub open spec fn created_bets(
    reqs: Seq<CreateBetRequestView>,
    first_pid: int,
    batch_id: int,
) -> Seq<BetView> {
    Seq::new(reqs.len(), |j: int| created_bet(reqs[j], first_pid + j, batch_id))
}

/// Records a batch with all of its wagers in one commit and publishes
/// `BatchCreated` carrying the full hydrated batch — every wager included —
/// exactly as committed; `NotFound` (no change, no event) when the account
/// is not live.
pub fn create_batch(
    state: &mut AppState,
    account_id: i64,
    payload: CreateBatchRequest,
    now: &str,
) -> (r: Result<BatchResponse, ApiError>)
    requires
        old(state).wf(),
        old(state).event_sender@.next_seq < u64::MAX,
        old(state).store@.next_batch_id < i64::MAX,
        old(state).store@.next_bet_pid + payload.bets@.len() <= i64::MAX,
    ensures
        final(state).wf(),
        !has_account(old(state).store@.accounts, account_id as int) ==> {
            &&& r matches Result::Err(e)
            &&& e == ApiError::NotFound
            &&& final(state).store@ == old(state).store@
            &&& final(state).event_sender@ == old(state).event_sender@
        },
        has_account(old(state).store@.accounts, account_id as int) ==> {
            let bid = old(state).store@.next_batch_id;
            let nbets = created_bets(
                payload.bets@.map_values(|q: CreateBetRequest| q@),
                old(state).store@.next_bet_pid,
                bid,
            );
            let rv = BatchResponseView {
                id: bid,
                completed: false,
                created_at: now@,
                updated_at: now@,
                meta: payload.meta@,
                account_id: account_id as int,
                bets: nbets,
            };
            &&& r matches Result::Ok(resp)
            &&& resp@ == rv
            &&& final(state).store@.accounts == old(state).store@.accounts
            &&& final(state).store@.batches == old(state).store@.batches.push(
                BatchView {
                    id: bid,
                    completed: false,
                    created_at: now@,
                    updated_at: now@,
                    meta: payload.meta@,
                    account_id: account_id as int,
                },
            )
            &&& final(state).store@.bets == old(state).store@.bets + nbets
            &&& final(state).store@.next_account_id == old(state).store@.next_account_id
            &&& final(state).store@.next_batch_id == bid + 1
            &&& final(state).store@.next_bet_pid == old(state).store@.next_bet_pid
                + payload.bets@.len()
            &&& published_one(
                old(state).event_sender@,
                final(state).event_sender@,
                EventView::BatchCreated { batch: rv },
            )
        },
{
    if state.store.account_by_id(account_id).is_none() {
        return Result::Err(ApiError::NotFound);
    }
    let ghost reqs = payload.bets@.map_values(|q: CreateBetRequest| q@);
    let ghost first_pid = old(state).store@.next_bet_pid;
    let batch = state.store.insert_batch(account_id, payload.meta, now);
    let ghost bview = batch@;
    let ghost bid = old(state).store@.next_batch_id;
    let mut bets: Vec<Bet> = Vec::new();
    let nb = payload.bets.len();
    let mut i: usize = 0;
    while i < nb
        invariant
            i <= nb,
            nb == reqs.len(),
            reqs == payload.bets@.map_values(|q: CreateBetRequest| q@),
            state.wf(),
            batch@ == bview,
            bview == (BatchView {
                id: bid,
                completed: false,
                created_at: now@,
                updated_at: now@,
                meta: payload.meta@,
                account_id: account_id as int,
            }),
            bid == old(state).store@.next_batch_id,
            first_pid == old(state).store@.next_bet_pid,
            first_pid + nb <= i64::MAX,
            state.store@.accounts == old(state).store@.accounts,
            state.store@.batches == old(state).store@.batches.push(bview),
            state.store@.bets == old(state).store@.bets + created_bets(
                reqs.take(i as int),
                first_pid,
                bid,
            ),
            state.store@.next_account_id == old(state).store@.next_account_id,
            state.store@.next_batch_id == bid + 1,
            state.store@.next_bet_pid == first_pid + i,
            bets@.map_values(|t: Bet| t@) == created_bets(reqs.take(i as int), first_pid, bid),
            state.event_sender == old(state).event_sender,
            crate::store::has_batch(state.store@.batches, bid),
        decreases nb - i,
    {
        let req = &payload.bets[i];
        proof {
            assert(reqs[i as int] == payload.bets@[i as int]@);
        }
        let b = state.store.insert_bet(batch.id, req.id, req.selection.clone(), req.stake, req.cost);
        bets.push(b);
        proof {
            let gi = i as int;
            assert(created_bets(reqs.take(gi + 1), first_pid, bid) =~= created_bets(
                reqs.take(gi),
                first_pid,
                bid,
            ).push(created_bet(reqs[gi], first_pid + gi, bid)));
            assert(b@ == created_bet(reqs[gi], first_pid + gi, bid));
            assert(bets@.map_values(|t: Bet| t@) =~= created_bets(
                reqs.take(gi + 1),
                first_pid,
                bid,
            ));
            assert(state.store@.bets =~= old(state).store@.bets + created_bets(
                reqs.take(gi + 1),
                first_pid,
                bid,
            ));
        }
        i = i + 1;
    }
    proof {
        assert(reqs.take(nb as int) =~= reqs);
    }
    let resp = BatchResponse {
        id: batch.id,
        completed: batch.completed,
        created_at: batch.created_at,
        updated_at: batch.updated_at,
        meta: batch.meta,
        account_id: batch.account_id,
        bets,
    };
    let dup = resp.duplicate();
    proof {
        assert(resp@ =~~= (BatchResponseView {
            id: bid,
            completed: false,
            created_at: now@,
            updated_at: now@,
            meta: payload.meta@,
            account_id: account_id as int,
            bets: created_bets(reqs, first_pid, bid),
        }));
    }
    state.event_sender.publish(Event::BatchCreated { batch: dup });
    Result::Ok(resp)
}

/// Lists one account's batches, newest first, each hydrated with its wagers
/// ordered by client-supplied id; empty when the account is unknown.
pub fn account_batches(state: &AppState, account_id: i64) -> (r: Vec<BatchResponse>)
    requires
        state.wf(),
    ensures
        ({
            let fb = state.store@.batches.filter(
                crate::store::batch_of_account(account_id as int),
            ).reverse();
            &&& r@.len() == fb.len()
            &&& forall|j: int|
                0 <= j < fb.len() ==> {
                    let rv = (#[trigger] r@[j])@;
                    &&& rv.id == fb[j].id
                    &&& rv.completed == fb[j].completed
                    &&& rv.created_at == fb[j].created_at
                    &&& rv.updated_at == fb[j].updated_at
                    &&& rv.meta == fb[j].meta
                    &&& rv.account_id == fb[j].account_id
                    &&& crate::store::sorted_by_cid(rv.bets)
                    &&& rv.bets.to_multiset() == state.store@.bets.filter(
                        crate::store::bet_of_batch(fb[j].id),
                    ).to_multiset()
                }
        }),
{
    let ghost fb = state.store@.batches.filter(
        crate::store::batch_of_account(account_id as int),
    ).reverse();
    let bs = state.store.batches_of_account_desc(account_id);
    let n = bs.len();
    let mut out: Vec<BatchResponse> = Vec::new();
    let mut j: usize = 0;
    while j < n
        invariant
            j <= n,
            n == fb.len(),
            state.wf(),
            bs@.map_values(|b: Batch| b@) == fb,
            out@.len() == j,
            forall|k: int|
                0 <= k < j ==> {
                    let rv = (#[trigger] out@[k])@;
                    &&& rv.id == fb[k].id
                    &&& rv.completed == fb[k].completed
                    &&& rv.created_at == fb[k].created_at
                    &&& rv.updated_at == fb[k].updated_at
                    &&& rv.meta == fb[k].meta
                    &&& rv.account_id == fb[k].account_id
                    &&& crate::store::sorted_by_cid(rv.bets)
                    &&& rv.bets.to_multiset() == state.store@.bets.filter(
                        crate::store::bet_of_batch(fb[k].id),
                    ).to_multiset()
                },
        decreases n - j,
    {
        proof {
            assert(bs@[j as int]@ == fb[j as int]);
        }
        let bets = state.store.bets_of_batch_sorted(bs[j].id);
        let resp = BatchResponse {
            id: bs[j].id,
            completed: bs[j].completed,
            created_at: bs[j].created_at.clone(),
            updated_at: bs[j].updated_at.clone(),
            meta: bs[j].meta.clone(),
            account_id: bs[j].account_id,
            bets,
        };
        out.push(resp);
        j = j + 1;
    }
    out
}

/// The keys named by a bulk settlement payload, in payload order.
pub open spec fn req_pids(reqs: Seq<BetUpdateRequest>) -> Seq<int> {
    reqs.map_values(|q: BetUpdateRequest| q.pid as int)
}

/// Whether every named store key is live in the batch.
pub open spec fn all_pids_present(bets: Seq<BetView>, pids: Seq<int>, batch_id: int) -> bool {
    forall|j: int| 0 <= j < pids.len() ==> has_bet_pid(bets, #[trigger] pids[j], batch_id)
}

/// Whether every named client id is live in the batch.
pub open spec fn all_cids_present(bets: Seq<BetView>, cids: Seq<int>, batch_id: int) -> bool {
    forall|j: int| 0 <= j < cids.len() ==> has_bet_cid(bets, batch_id, #[trigger] cids[j])
}

/// Every wager of the batch whose store key is named set to status `st`; all
/// other wagers untouched.
pub open spec fn set_pids_status(
    bets: Seq<BetView>,
    pids: Seq<int>,
    batch_id: int,
    st: BetStatus,
) -> Seq<BetView> {
    bets.map_values(
        |t: BetView|
            if t.batch_id == batch_id && pids.contains(t.pid) {
                with_status(t, st)
            } else {
                t
            },
    )
}

/// Every wager of the batch whose client id is named set to status `st`;
/// all other wagers untouched.
pub open spec fn set_cids_status(
    bets: Seq<BetView>,
    cids: Seq<int>,
    batch_id: int,
    st: BetStatus,
) -> Seq<BetView> {
    bets.map_values(
        |t: BetView|
            if t.batch_id == batch_id && cids.contains(t.id) {
                with_status(t, st)
            } else {
                t
            },
    )
}

/// Settles every wager a payload names by store key to `successful`, all or
/// nothing, and publishes `BatchBetsUpdated` carrying the updated wager
/// snapshots; when any named wager is missing from the batch nothing is
/// changed, nothing is published, and the operation reports `NotFound` —
/// the transactional behaviour of the commit it models.
pub fn update_account_batch_bets(
    state: &mut AppState,
    account_id: i64,
    batch_id: i64,
    bets: Vec<BetUpdateRequest>,
) -> (r: Result<Vec<Bet>, ApiError>)
    requires
        old(state).wf(),
        old(state).event_sender@.next_seq < u64::MAX,
    ensures
        final(state).wf(),
        final(state).store@.accounts == old(state).store@.accounts,
        final(state).store@.batches == old(state).store@.batches,
        final(state).store@.next_account_id == old(state).store@.next_account_id,
        final(state).store@.next_batch_id == old(state).store@.next_batch_id,
        final(state).store@.next_bet_pid == old(state).store@.next_bet_pid,
        !all_pids_present(old(state).store@.bets, req_pids(bets@), batch_id as int) ==> {
            &&& r matches Result::Err(e)
            &&& e == ApiError::NotFound
            &&& final(state).store@ == old(state).store@
            &&& final(state).event_sender@ == old(state).event_sender@
        },
        all_pids_present(old(state).store@.bets, req_pids(bets@), batch_id as int) ==> {
            let pids = req_pids(bets@);
            &&& r matches Result::Ok(list)
            &&& list@.len() == pids.len()
            &&& forall|j: int|
                0 <= j < pids.len() ==> (#[trigger] list@[j])@ == with_status(
                    old(state).store@.bets[bet_pid_index(
                        old(state).store@.bets,
                        pids[j],
                        batch_id as int,
                    )],
                    BetStatus::Successful,
                )
            &&& final(state).store@.bets == set_pids_status(
                old(state).store@.bets,
                pids,
                batch_id as int,
                BetStatus::Successful,
            )
            &&& published_one(
                old(state).event_sender@,
                final(state).event_sender@,
                EventView::BatchBetsUpdated {
                    batch_id: batch_id as int,
                    account_id: account_id as int,
                    bets: list@.map_values(|t: Bet| t@),
                },
            )
        },
{
    let ghost pids = req_pids(bets@);
    let ghost tv0 = old(state).store@.bets;
    let n = bets.len();
    let mut i: usize = 0;
    while i < n
        invariant
            i <= n,
            n == pids.len(),
            pids == req_pids(bets@),
            old(state).wf(),
            state == old(state),
            forall|k: int| 0 <= k < i ==> has_bet_pid(tv0, #[trigger] pids[k], batch_id as int),
            tv0 == old(state).store@.bets,
        decreases n - i,
    {
        proof {
            assert(pids[i as int] == bets@[i as int].pid as int);
        }
        if !state.store.bet_exists(bets[i].pid, batch_id) {
            proof {
                assert(!has_bet_pid(tv0, pids[i as int], batch_id as int));
            }
            return Result::Err(ApiError::NotFound);
        }
        i = i + 1;
    }
    let mut updated: Vec<Bet> = Vec::new();
    let mut i: usize = 0;
    while i < n
        invariant
            i <= n,
            n == pids.len(),
            pids == req_pids(bets@),
            old(state).wf(),
            state.wf(),
            tv0 == old(state).store@.bets,
            all_pids_present(tv0, pids, batch_id as int),
            state.store@.accounts == old(state).store@.accounts,
            state.store@.batches == old(state).store@.batches,
            state.store@.next_account_id == old(state).store@.next_account_id,
            state.store@.next_batch_id == old(state).store@.next_batch_id,
            state.store@.next_bet_pid == old(state).store@.next_bet_pid,
            state.store@.bets == set_pids_status(
                tv0,
                pids.take(i as int),
                batch_id as int,
                BetStatus::Successful,
            ),
            updated@.len() == i,
            forall|j: int|
                0 <= j < i ==> (#[trigger] updated@[j])@ == with_status(
                    tv0[bet_pid_index(tv0, pids[j], batch_id as int)],
                    BetStatus::Successful,
                ),
            state.event_sender == old(state).event_sender,
        decreases n - i,
    {
        let ghost gi = i as int;
        let ghost cur = state.store@.bets;
        proof {
            assert(pids[gi] == bets@[gi].pid as int);
            lemma_status_map_preserves_keys(tv0, pids.take(gi), batch_id as int);
            let j = bet_pid_index(tv0, pids[gi], batch_id as int);
            assert(has_bet_pid(tv0, pids[gi], batch_id as int));
            assert(0 <= j < tv0.len() && tv0[j].pid == pids[gi] && tv0[j].batch_id
                == batch_id as int);
            assert(has_bet_pid(cur, pids[gi], batch_id as int)) by {
                assert(cur[j].pid == tv0[j].pid && cur[j].batch_id == tv0[j].batch_id);
            }
        }
        let b = match state.store.set_bet_status_by_pid(bets[i].pid, batch_id, BetStatus::Successful) {
            Option::Some(b) => b,
            Option::None => {
                proof {
                    assert(false);
                }
                return Result::Err(ApiError::NotFound);
            },
        };
        proof {
            let j0 = bet_pid_index(tv0, pids[gi], batch_id as int);
            let jc = bet_pid_index(cur, pids[gi], batch_id as int);
            assert(0 <= jc < cur.len() && cur[jc].pid == pids[gi]);
            assert(jc == j0) by {
                assert(cur[j0].pid == tv0[j0].pid);
                if jc != j0 {
                    assert(tv0[jc].pid != tv0[j0].pid);
                    assert(cur[jc].pid == tv0[jc].pid);
                }
            }
            assert(cur[j0] == tv0[j0] || cur[j0] == with_status(tv0[j0], BetStatus::Successful));
            assert(b@ == with_status(tv0[j0], BetStatus::Successful));
            assert(state.store@.bets =~= set_pids_status(
                tv0,
                pids.take(gi + 1),
                batch_id as int,
                BetStatus::Successful,
            )) by {
                assert forall|k: int| 0 <= k < tv0.len() implies state.store@.bets[k]
                    == set_pids_status(tv0, pids.take(gi + 1), batch_id as int,
                    BetStatus::Successful,
                )[k] by {
                    assert(pids.take(gi + 1) =~= pids.take(gi).push(pids[gi]));
                    assert(cur[k] == set_pids_status(tv0, pids.take(gi), batch_id as int,
                        BetStatus::Successful,
                    )[k]);
                    if k != j0 {
                        assert(state.store@.bets[k] == cur[k]);
                        if tv0[k].pid == pids[gi] && tv0[k].batch_id == batch_id as int {
                            assert(has_bet_pid(tv0, pids[gi], batch_id as int));
                            if k != j0 {
                                assert(tv0[k].pid != tv0[j0].pid);
                            }
                        }
                        let t0 = pids.take(gi);
                        let t1 = pids.take(gi + 1);
                        assert(t1.contains(tv0[k].pid) && tv0[k].batch_id == batch_id as int
                            ==> t0.contains(tv0[k].pid)) by {
                            if t1.contains(tv0[k].pid) && !t0.contains(tv0[k].pid) {
                                let w = choose|w: int|
                                    0 <= w < t1.len() && #[trigger] t1[w] == tv0[k].pid;
                                assert(w == gi);
                            }
                        }
                        assert(t0.contains(tv0[k].pid) ==> t1.contains(tv0[k].pid)) by {
                            if t0.contains(tv0[k].pid) {
                                let w = choose|w: int|
                                    0 <= w < t0.len() && #[trigger] t0[w] == tv0[k].pid;
                                assert(t1[w] == tv0[k].pid);
                            }
                        }
                    } else {
                        assert(state.store@.bets[k] == with_status(cur[k], BetStatus::Successful));
                        assert(pids.take(gi + 1)[gi] == tv0[j0].pid);
                        assert(pids.take(gi + 1).contains(tv0[j0].pid));
                    }
                }
            }
        }
        updated.push(b);
        i = i + 1;
    }
    proof {
        assert(pids.take(n as int) =~= pids);
    }
    let snapshots = crate::models::duplicate_bets(&updated);
    state.event_sender.publish(
        Event::BatchBetsUpdated { batch_id, account_id, bets: snapshots },
    );
    Result::Ok(updated)
}

/// A settlement pass keeps every wager's keys and batch, touching only
/// statuses.
proof fn lemma_status_map_preserves_keys(tv: Seq<BetView>, pids: Seq<int>, batch_id: int)
    ensures
        set_pids_status(tv, pids, batch_id, BetStatus::Successful).len() == tv.len(),
        forall|k: int|
            0 <= k < tv.len() ==> {
                let m = #[trigger] set_pids_status(tv, pids, batch_id, BetStatus::Successful)[k];
                m.pid == tv[k].pid && m.batch_id == tv[k].batch_id && m.id == tv[k].id
            },
{
}

/// Changes one wager's settlement status and publishes `BetStatusChanged`
/// carrying the wager exactly as committed. The status text is read without
/// regard to ASCII case; anything but the three known statuses is
/// `BadRequest`, and a wager not live in the batch is `NotFound` — in either
/// case nothing changes and nothing is published. The wager is addressed by
/// its store key.
pub fn update_account_batch_bet(
    state: &mut AppState,
    account_id: i64,
    batch_id: i64,
    bet_id: i64,
    payload: UpdateBetStatusRequest,
) -> (r: Result<Bet, ApiError>)
    requires
        old(state).wf(),
        old(state).event_sender@.next_seq < u64::MAX,
    ensures
        final(state).wf(),
        final(state).store@.accounts == old(state).store@.accounts,
        final(state).store@.batches == old(state).store@.batches,
        final(state).store@.next_account_id == old(state).store@.next_account_id,
        final(state).store@.next_batch_id == old(state).store@.next_batch_id,
        final(state).store@.next_bet_pid == old(state).store@.next_bet_pid,
        spec_parse_status(encode_utf8(payload.status@)) is None ==> {
            &&& r matches Result::Err(e)
            &&& e == ApiError::BadRequest
            &&& final(state).store@ == old(state).store@
            &&& final(state).event_sender@ == old(state).event_sender@
        },
        spec_parse_status(encode_utf8(payload.status@)) matches Option::Some(st) ==> {
            let present = has_bet_pid(old(state).store@.bets, bet_id as int, batch_id as int);
            &&& !present ==> {
                &&& r matches Result::Err(e)
                &&& e == ApiError::NotFound
                &&& final(state).store@ == old(state).store@
                &&& final(state).event_sender@ == old(state).event_sender@
            }
            &&& present ==> {
                let j = bet_pid_index(old(state).store@.bets, bet_id as int, batch_id as int);
                let b1 = with_status(old(state).store@.bets[j], st);
                &&& r matches Result::Ok(b)
                &&& b@ == b1
                &&& final(state).store@.bets == old(state).store@.bets.update(j, b1)
                &&& published_one(
                    old(state).event_sender@,
                    final(state).event_sender@,
                    EventView::BetStatusChanged { account_id: account_id as int, bet: b1 },
                )
            }
        },
{
    let st = match parse_status(payload.status.as_str()) {
        Option::None => {
            return Result::Err(ApiError::BadRequest);
        },
        Option::Some(st) => st,
    };
    match state.store.set_bet_status_by_pid(bet_id, batch_id, st) {
        Option::None => Result::Err(ApiError::NotFound),
        Option::Some(b) => {
            let r = b.duplicate();
            state.event_sender.publish(
                Event::BetStatusChanged { account_id, bet: b },
            );
            Result::Ok(r)
        },
    }
}

/// Whether `b` is some wager of batch `batch_id` with client id `cid`, as it
/// stood in `tv0`, with its status set to `st`.
pub open spec fn settled_from(
    tv0: Seq<BetView>,
    batch_id: int,
    cid: int,
    b: BetView,
    st: BetStatus,
) -> bool {
    exists|w: int|
        0 <= w < tv0.len() && (#[trigger] tv0[w]).batch_id == batch_id && tv0[w].id == cid && b
            == with_status(tv0[w], st)
}

/// Settles every wager a payload names by client id to status `st`, all or
/// nothing, publishing nothing itself: when any named id is missing from the
/// batch, nothing changes and the operation reports `NotFound`.
fn settle_batch_bets(
    state: &mut AppState,
    batch_id: i64,
    bets: &Vec<BetUpdateRequest>,
    status: BetStatus,
) -> (r: Result<Vec<Bet>, ApiError>)
    requires
        old(state).wf(),
    ensures
        final(state).wf(),
        final(state).event_sender == old(state).event_sender,
        final(state).store@.accounts == old(state).store@.accounts,
        final(state).store@.batches == old(state).store@.batches,
        final(state).store@.next_account_id == old(state).store@.next_account_id,
        final(state).store@.next_batch_id == old(state).store@.next_batch_id,
        final(state).store@.next_bet_pid == old(state).store@.next_bet_pid,
        !all_cids_present(old(state).store@.bets, req_pids(bets@), batch_id as int) ==> {
            &&& r matches Result::Err(e)
            &&& e == ApiError::NotFound
            &&& final(state).store@ == old(state).store@
        },
        all_cids_present(old(state).store@.bets, req_pids(bets@), batch_id as int) ==> {
            let cids = req_pids(bets@);
            let tv0 = old(state).store@.bets;
            &&& r matches Result::Ok(list)
            &&& list@.len() == cids.len()
            &&& forall|j: int|
                0 <= j < cids.len() ==> settled_from(
                    tv0,
                    batch_id as int,
                    cids[j],
                    (#[trigger] list@[j])@,
                    status,
                )
            &&& final(state).store@.bets == set_cids_status(tv0, cids, batch_id as int, status)
        },
{
    let ghost cids = req_pids(bets@);
    let ghost tv0 = old(state).store@.bets;
    let n = bets.len();
    let mut i: usize = 0;
    while i < n
        invariant
            i <= n,
            n == cids.len(),
            cids == req_pids(bets@),
            old(state).wf(),
            state == old(state),
            forall|k: int| 0 <= k < i ==> has_bet_cid(tv0, batch_id as int, #[trigger] cids[k]),
            tv0 == old(state).store@.bets,
        decreases n - i,
    {
        proof {
            assert(cids[i as int] == bets@[i as int].pid as int);
        }
        if !state.store.bet_exists_cid(batch_id, bets[i].pid) {
            proof {
                assert(!has_bet_cid(tv0, batch_id as int, cids[i as int]));
            }
            return Result::Err(ApiError::NotFound);
        }
        i = i + 1;
    }
    let mut updated: Vec<Bet> = Vec::new();
    let mut i: usize = 0;
    while i < n
        invariant
            i <= n,
            n == cids.len(),
            cids == req_pids(bets@),
            old(state).wf(),
            state.wf(),
            tv0 == old(state).store@.bets,
            all_cids_present(tv0, cids, batch_id as int),
            state.store@.accounts == old(state).store@.accounts,
            state.store@.batches == old(state).store@.batches,
            state.store@.next_account_id == old(state).store@.next_account_id,
            state.store@.next_batch_id == old(state).store@.next_batch_id,
            state.store@.next_bet_pid == old(state).store@.next_bet_pid,
            state.store@.bets == set_cids_status(tv0, cids.take(i as int), batch_id as int, status),
            updated@.len() == i,
            forall|j: int|
                0 <= j < i ==> settled_from(
                    tv0,
                    batch_id as int,
                    cids[j],
                    (#[trigger] updated@[j])@,
                    status,
                ),
            state.event_sender == old(state).event_sender,
        decreases n - i,
    {
        let ghost gi = i as int;
        let ghost cur = state.store@.bets;
        proof {
            assert(cids[gi] == bets@[gi].pid as int);
            assert(has_bet_cid(tv0, batch_id as int, cids[gi]));
            let w0 = choose|w: int|
                0 <= w < tv0.len() && (#[trigger] tv0[w]).batch_id == batch_id as int && tv0[w].id
                    == cids[gi];
            assert(has_bet_cid(cur, batch_id as int, cids[gi])) by {
                assert(cur[w0].batch_id == tv0[w0].batch_id && cur[w0].id == tv0[w0].id);
            }
        }
        let b = match state.store.set_bets_status_by_client_id(batch_id, bets[i].pid, status) {
            Option::Some(b) => b,
            Option::None => {
                proof {
                    assert(false);
                }
                return Result::Err(ApiError::NotFound);
            },
        };
        proof {
            let wc = choose|w: int|
                0 <= w < cur.len() && (#[trigger] cur[w]).batch_id == batch_id as int && cur[w].id
                    == cids[gi] && b@ == with_status(cur[w], status);
            assert(tv0[wc].batch_id == batch_id as int && tv0[wc].id == cids[gi]);
            assert(cur[wc] == tv0[wc] || cur[wc] == with_status(tv0[wc], status));
            assert(b@ == with_status(tv0[wc], status));
            assert(settled_from(tv0, batch_id as int, cids[gi], b@, status));
            assert(state.store@.bets =~= set_cids_status(
                tv0,
                cids.take(gi + 1),
                batch_id as int,
                status,
            )) by {
                assert forall|k: int| 0 <= k < tv0.len() implies state.store@.bets[k]
                    == set_cids_status(tv0, cids.take(gi + 1), batch_id as int, status)[k] by {
                    let t0 = cids.take(gi);
                    let t1 = cids.take(gi + 1);
                    assert(t1 =~= t0.push(cids[gi]));
                    assert(cur[k] == set_cids_status(tv0, t0, batch_id as int, status)[k]);
                    assert(state.store@.bets[k] == set_status_by_cid(
                        cur,
                        batch_id as int,
                        cids[gi],
                        status,
                    )[k]);
                    assert(t1.contains(tv0[k].id) && tv0[k].id != cids[gi] ==> t0.contains(
                        tv0[k].id,
                    )) by {
                        if t1.contains(tv0[k].id) && !t0.contains(tv0[k].id) {
                            let w = choose|w: int|
                                0 <= w < t1.len() && #[trigger] t1[w] == tv0[k].id;
                            assert(w == gi);
                        }
                    }
                    assert(t0.contains(tv0[k].id) ==> t1.contains(tv0[k].id)) by {
                        if t0.contains(tv0[k].id) {
                            let w = choose|w: int| 0 <= w < t0.len() && #[trigger] t0[w]
                                == tv0[k].id;
                            assert(t1[w] == tv0[k].id);
                        }
                    }
                    assert(tv0[k].id == cids[gi] ==> t1.contains(tv0[k].id)) by {
                        if tv0[k].id == cids[gi] {
                            assert(t1[gi] == tv0[k].id);
                        }
                    }
                }
            }
        }
        updated.push(b);
        i = i + 1;
    }
    proof {
        assert(cids.take(n as int) =~= cids);
    }
    Result::Ok(updated)
}

/// Settles every wager the payload names (by client id) to `successful`,
/// marks the batch completed, and publishes `BatchCompleted` naming the
/// batch and its account, all or nothing: when any named wager is missing
/// from the batch, nothing changes, nothing is published, and the operation
/// reports `NotFound`.
pub fn submit_batch(
    state: &mut AppState,
    account_id: i64,
    batch_id: i64,
    bets: Vec<BetUpdateRequest>,
    now: &str,
) -> (r: Result<Vec<Bet>, ApiError>)
    requires
        old(state).wf(),
        old(state).event_sender@.next_seq < u64::MAX,
    ensures
        final(state).wf(),
        final(state).store@.accounts == old(state).store@.accounts,
        final(state).store@.next_account_id == old(state).store@.next_account_id,
        final(state).store@.next_batch_id == old(state).store@.next_batch_id,
        final(state).store@.next_bet_pid == old(state).store@.next_bet_pid,
        !all_cids_present(old(state).store@.bets, req_pids(bets@), batch_id as int) ==> {
            &&& r matches Result::Err(e)
            &&& e == ApiError::NotFound
            &&& final(state).store@ == old(state).store@
            &&& final(state).event_sender@ == old(state).event_sender@
        },
        all_cids_present(old(state).store@.bets, req_pids(bets@), batch_id as int) ==> {
            let cids = req_pids(bets@);
            let tv0 = old(state).store@.bets;
            let bv0 = old(state).store@.batches;
            &&& r matches Result::Ok(list)
            &&& list@.len() == cids.len()
            &&& forall|j: int|
                0 <= j < cids.len() ==> settled_from(
                    tv0,
                    batch_id as int,
                    cids[j],
                    (#[trigger] list@[j])@,
                    BetStatus::Successful,
                )
            &&& final(state).store@.bets == set_cids_status(
                tv0,
                cids,
                batch_id as int,
                BetStatus::Successful,
            )
            &&& !crate::store::batch_owned_by(bv0, batch_id as int, account_id as int) ==> final(state).store@.batches == bv0
            &&& crate::store::batch_owned_by(bv0, batch_id as int, account_id as int) ==> final(state).store@.batches == bv0.update(
                crate::store::batch_index(bv0, batch_id as int),
                BatchView {
                    completed: true,
                    updated_at: now@,
                    ..bv0[crate::store::batch_index(bv0, batch_id as int)]
                },
            )
            &&& published_one(
                old(state).event_sender@,
                final(state).event_sender@,
                EventView::BatchCompleted {
                    batch_id: batch_id as int,
                    account_id: account_id as int,
                },
            )
        },
{
    let list = match settle_batch_bets(state, batch_id, &bets, BetStatus::Successful) {
        Result::Err(e) => {
            return Result::Err(e);
        },
        Result::Ok(list) => list,
    };
    state.store.complete_batch(batch_id, account_id, now);
    state.event_sender.publish(Event::BatchCompleted { batch_id, account_id });
    Result::Ok(list)
}

/// Settles every wager the payload names (by client id) to `failed` and
/// publishes `BatchBetsUpdated` carrying the updated wager snapshots, all or
/// nothing; the batch itself stays open. When any named wager is missing
/// from the batch, nothing changes, nothing is published, and the operation
/// reports `NotFound`.
pub fn cancel_batch(
    state: &mut AppState,
    account_id: i64,
    batch_id: i64,
    bets: Vec<BetUpdateRequest>,
) -> (r: Result<Vec<Bet>, ApiError>)
    requires
        old(state).wf(),
        old(state).event_sender@.next_seq < u64::MAX,
    ensures
        final(state).wf(),
        final(state).store@.accounts == old(state).store@.accounts,
        final(state).store@.batches == old(state).store@.batches,
        final(state).store@.next_account_id == old(state).store@.next_account_id,
        final(state).store@.next_batch_id == old(state).store@.next_batch_id,
        final(state).store@.next_bet_pid == old(state).store@.next_bet_pid,
        !all_cids_present(old(state).store@.bets, req_pids(bets@), batch_id as int) ==> {
            &&& r matches Result::Err(e)
            &&& e == ApiError::NotFound
            &&& final(state).store@ == old(state).store@
            &&& final(state).event_sender@ == old(state).event_sender@
        },
        all_cids_present(old(state).store@.bets, req_pids(bets@), batch_id as int) ==> {
            let cids = req_pids(bets@);
            let tv0 = old(state).store@.bets;
            &&& r matches Result::Ok(list)
            &&& list@.len() == cids.len()
            &&& forall|j: int|
                0 <= j < cids.len() ==> settled_from(
                    tv0,
                    batch_id as int,
                    cids[j],
                    (#[trigger] list@[j])@,
                    BetStatus::Failed,
                )
            &&& final(state).store@.bets == set_cids_status(
                tv0,
                cids,
                batch_id as int,
                BetStatus::Failed,
            )
            &&& published_one(
                old(state).event_sender@,
                final(state).event_sender@,
                EventView::BatchBetsUpdated {
                    batch_id: batch_id as int,
                    account_id: account_id as int,
                    bets: list@.map_values(|t: Bet| t@),
                },
            )
        },
{
    let list = match settle_batch_bets(state, batch_id, &bets, BetStatus::Failed) {
        Result::Err(e) => {
            return Result::Err(e);
        },
        Result::Ok(list) => list,
    };
    let snapshots = crate::models::duplicate_bets(&list);
    state.event_sender.publish(
        Event::BatchBetsUpdated { batch_id, account_id, bets: snapshots },
    );
    Result::Ok(list)
}

/// One step of the per-subscriber stream merger. A due heartbeat outranks
/// queued envelopes: ticks bypass the lossy event queue entirely and are
/// generated straight into the merged output, so a subscriber whose queue is
/// saturated by event traffic still receives its liveness signal on time.
/// Otherwise the oldest queued envelope is framed for the wire, and with
/// neither a tick due nor an envelope queued the step yields nothing,
/// letting the consumer suspend.
pub fn next_outbound(b: &mut Broadcaster, sub: u64, heartbeat_due: bool, now: &str) -> (r: Option<
    SseFrame,
>)
    requires
        old(b).wf(),
    ensures
        final(b).wf(),
        final(b)@.next_seq == old(b)@.next_seq,
        final(b)@.next_sub_id == old(b)@.next_sub_id,
        final(b)@.cap == old(b)@.cap,
        heartbeat_due ==> {
            &&& r matches Option::Some(f)
            &&& f@.event == "ping"@
            &&& f@.data == now.spec_bytes()
            &&& final(b)@ == old(b)@
        },
        !heartbeat_due ==> {
            let present = has_sub(old(b)@.subs, sub as int);
            let i = sub_index(old(b)@.subs, sub as int);
            if present && old(b)@.subs[i].queue.len() > 0 {
                let env = old(b)@.subs[i].queue[0];
                &&& r matches Option::Some(f)
                &&& f@.event == event_type(env.event)
                &&& f@.data == event_data(env.event)
                &&& env.seq > old(b)@.subs[i].last_seq
                &&& final(b)@.subs[i].queue == old(b)@.subs[i].queue.drop_first()
                &&& final(b)@.subs[i].last_seq == env.seq
            } else {
                &&& r is None
                &&& final(b)@ == old(b)@
            }
        },
{
    if heartbeat_due {
        return Option::Some(ping_frame(now));
    }
    match b.recv(sub) {
        Option::Some(env) => Option::Some(sse_frame(&env)),
        Option::None => Option::None,
    }
}

} // verus!
