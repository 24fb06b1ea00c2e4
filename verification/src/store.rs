//! The in-memory entity store: the transactional source of truth the
//! notification core reads its snapshots from.
//!
//! Records live in insertion order; keys are assigned from monotone counters,
//! so listing in reverse insertion order is listing newest-first. The store
//! keeps referential integrity as an invariant — every batch belongs to a
//! live account and every wager to a live batch — and deleting an account
//! cascades to its batches and their wagers in one step, exactly like the
//! commit that a delete operation publishes an event for.

use vstd::prelude::*;

use crate::models::Account;
use crate::models::AccountView;
use crate::models::Batch;
use crate::models::BatchView;
use crate::models::Bet;
use crate::models::BetStatus;
use crate::models::BetView;

verus! {

pub open spec fn has_account(accs: Seq<AccountView>, id: int) -> bool {
    exists|i: int| 0 <= i < accs.len() && accs[i].id == id
}

pub open spec fn account_index(accs: Seq<AccountView>, id: int) -> int {
    choose|i: int| 0 <= i < accs.len() && accs[i].id == id
}

pub open spec fn has_batch(batches: Seq<BatchView>, id: int) -> bool {
    exists|i: int| 0 <= i < batches.len() && batches[i].id == id
}

pub open spec fn batch_index(batches: Seq<BatchView>, id: int) -> int {
    choose|i: int| 0 <= i < batches.len() && batches[i].id == id
}

/// Whether the batch `batch_id` exists and belongs to account `account_id`.
pub open spec fn batch_owned_by(batches: Seq<BatchView>, batch_id: int, account_id: int) -> bool {
    exists|i: int|
        0 <= i < batches.len() && batches[i].id == batch_id && batches[i].account_id == account_id
}

/// Whether a wager with store key `pid` exists in batch `batch_id`.
pub open spec fn has_bet_pid(bets: Seq<BetView>, pid: int, batch_id: int) -> bool {
    exists|i: int| 0 <= i < bets.len() && bets[i].pid == pid && bets[i].batch_id == batch_id
}

pub open spec fn bet_pid_index(bets: Seq<BetView>, pid: int, batch_id: int) -> int {
    choose|i: int| 0 <= i < bets.len() && bets[i].pid == pid && bets[i].batch_id == batch_id
}

/// Whether a wager with client-supplied id `cid` exists in batch `batch_id`.
pub open spec fn has_bet_cid(bets: Seq<BetView>, batch_id: int, cid: int) -> bool {
    exists|i: int| 0 <= i < bets.len() && bets[i].batch_id == batch_id && bets[i].id == cid
}

/// Keep an account that is not the one being deleted.
pub open spec fn acc_keep(id: int) -> spec_fn(AccountView) -> bool {
    |a: AccountView| a.id != id
}

/// Keep a batch that does not belong to the account being deleted.
pub open spec fn batch_keep(id: int) -> spec_fn(BatchView) -> bool {
    |b: BatchView| b.account_id != id
}

/// Keep a wager whose batch does not belong to the account being deleted.
pub open spec fn bet_keep(batches: Seq<BatchView>, id: int) -> spec_fn(BetView) -> bool {
    |t: BetView| !batch_owned_by(batches, t.batch_id, id)
}

/// Select the batches of one account.
pub open spec fn batch_of_account(id: int) -> spec_fn(BatchView) -> bool {
    |b: BatchView| b.account_id == id
}

/// Select the wagers of one batch.
pub open spec fn bet_of_batch(id: int) -> spec_fn(BetView) -> bool {
    |t: BetView| t.batch_id == id
}

/// A wager with its settlement status replaced.
pub open spec fn with_status(t: BetView, st: BetStatus) -> BetView {
    BetView { status: st, ..t }
}

/// Every wager of batch `batch_id` with client id `cid` set to status `st`;
/// all other wagers untouched.
pub open spec fn set_status_by_cid(
    bets: Seq<BetView>,
    batch_id: int,
    cid: int,
    st: BetStatus,
) -> Seq<BetView> {
    bets.map_values(
        |t: BetView|
            if t.batch_id == batch_id && t.id == cid {
                with_status(t, st)
            } else {
                t
            },
    )
}

/// Wagers ordered by their client-supplied id.
pub open spec fn sorted_by_cid(s: Seq<BetView>) -> bool {
    forall|a: int, b: int| 0 <= a < b < s.len() ==> s[a].id <= s[b].id
}

/// One filtering step: filtering one more element appends it when the
/// predicate keeps it.
proof fn lemma_filter_take_step<A>(s: Seq<A>, pred: spec_fn(A) -> bool, i: int)
    requires
        0 <= i < s.len(),
    ensures
        s.take(i + 1).filter(pred) == (if pred(s[i]) {
            s.take(i).filter(pred).push(s[i])
        } else {
            s.take(i).filter(pred)
        }),
{
    reveal(Seq::filter);
    assert(s.take(i + 1).drop_last() =~= s.take(i));
    assert(s.take(i + 1).last() == s[i]);
}

/// Every element of a filtered sequence is an element of the original.
proof fn lemma_filter_elements<A>(s: Seq<A>, pred: spec_fn(A) -> bool)
    ensures
        forall|i: int|
            0 <= i < s.filter(pred).len() ==> s.contains(#[trigger] s.filter(pred)[i]),
    decreases s.len(),
{
    reveal(Seq::filter);
    if s.len() > 0 {
        lemma_filter_elements(s.drop_last(), pred);
        let f = s.filter(pred);
        let f0 = s.drop_last().filter(pred);
        assert forall|i: int| 0 <= i < f.len() implies s.contains(#[trigger] f[i]) by {
            if i < f0.len() {
                assert(f[i] == f0[i]);
                assert(s.drop_last().contains(f0[i]));
                let j = choose|j: int| 0 <= j < s.drop_last().len() && s.drop_last()[j] == f0[i];
                assert(s[j] == f[i]);
            } else {
                assert(f[i] == s.last());
                assert(s[s.len() - 1] == f[i]);
            }
        }
    }
}

/// Filtering keeps a family of distinct keys distinct.
proof fn lemma_filter_distinct_keys<A>(s: Seq<A>, pred: spec_fn(A) -> bool, key: spec_fn(A) -> int)
    requires
        forall|i: int, j: int| 0 <= i < j < s.len() ==> key(s[i]) != key(s[j]),
    ensures
        forall|i: int, j: int|
            0 <= i < j < s.filter(pred).len() ==> key(#[trigger] s.filter(pred)[i]) != key(
                #[trigger] s.filter(pred)[j],
            ),
    decreases s.len(),
{
    reveal(Seq::filter);
    if s.len() > 0 {
        let d = s.drop_last();
        assert forall|i: int, j: int| 0 <= i < j < d.len() implies key(d[i]) != key(d[j]) by {
            assert(d[i] == s[i] && d[j] == s[j]);
        }
        lemma_filter_distinct_keys(d, pred, key);
        lemma_filter_elements(d, pred);
        let f = s.filter(pred);
        let f0 = d.filter(pred);
        assert forall|i: int, j: int| 0 <= i < j < f.len() implies key(#[trigger] f[i]) != key(
            #[trigger] f[j],
        ) by {
            if j < f0.len() {
                assert(f[i] == f0[i] && f[j] == f0[j]);
            } else if pred(s.last()) && j == f0.len() {
                assert(f[j] == s.last());
                assert(f[i] == f0[i]);
                assert(d.contains(f0[i]));
                let m = choose|m: int| 0 <= m < d.len() && d[m] == f0[i];
                assert(s[m] == f[i]);
                assert(key(s[m]) != key(s[s.len() - 1]));
            }
        }
    }
}

#[verifier::ext_equal]
pub ghost struct StoreView {
    pub accounts: Seq<AccountView>,
    pub batches: Seq<BatchView>,
    pub bets: Seq<BetView>,
    pub next_account_id: int,
    pub next_batch_id: int,
    pub next_bet_pid: int,
}

/// The entity records, in insertion order, with the key counters.
pub struct Store {
    pub accounts: Vec<Account>,
    pub batches: Vec<Batch>,
    pub bets: Vec<Bet>,
    pub next_account_id: i64,
    pub next_batch_id: i64,
    pub next_bet_pid: i64,
}

impl View for Store {
    type V = StoreView;

    open spec fn view(&self) -> StoreView {
        StoreView {
            accounts: self.accounts@.map_values(|a: Account| a@),
            batches: self.batches@.map_values(|b: Batch| b@),
            bets: self.bets@.map_values(|t: Bet| t@),
            next_account_id: self.next_account_id as int,
            next_batch_id: self.next_batch_id as int,
            next_bet_pid: self.next_bet_pid as int,
        }
    }
}

/// Well-formedness of the store: keys are positive, below their counters and
/// distinct, every batch belongs to a live account and every wager to a live
/// batch.
pub open spec fn store_wf(s: StoreView) -> bool {
    &&& 1 <= s.next_account_id
    &&& 1 <= s.next_batch_id
    &&& 1 <= s.next_bet_pid
    &&& forall|i: int|
        0 <= i < s.accounts.len() ==> 1 <= (#[trigger] s.accounts[i]).id < s.next_account_id
    &&& forall|i: int, j: int|
        0 <= i < j < s.accounts.len() ==> s.accounts[i].id != s.accounts[j].id
    &&& forall|i: int|
        0 <= i < s.batches.len() ==> 1 <= (#[trigger] s.batches[i]).id < s.next_batch_id
    &&& forall|i: int, j: int| 0 <= i < j < s.batches.len() ==> s.batches[i].id != s.batches[j].id
    &&& forall|i: int|
        0 <= i < s.batches.len() ==> has_account(s.accounts, (#[trigger] s.batches[i]).account_id)
    &&& forall|i: int| 0 <= i < s.bets.len() ==> 1 <= (#[trigger] s.bets[i]).pid < s.next_bet_pid
    &&& forall|i: int, j: int| 0 <= i < j < s.bets.len() ==> s.bets[i].pid != s.bets[j].pid
    &&& forall|i: int|
        0 <= i < s.bets.len() ==> has_batch(s.batches, (#[trigger] s.bets[i]).batch_id)
}

impl Store {
    pub open spec fn wf(&self) -> bool {
        store_wf(self@)
    }

    /// An empty store, issuing keys from 1.
    pub fn new() -> (r: Store)
        ensures
            r.wf(),
            r@.accounts.len() == 0,
            r@.batches.len() == 0,
            r@.bets.len() == 0,
            r@.next_account_id == 1,
            r@.next_batch_id == 1,
            r@.next_bet_pid == 1,
    {
        let r = Store {
            accounts: Vec::new(),
            batches: Vec::new(),
            bets: Vec::new(),
            next_account_id: 1,
            next_batch_id: 1,
            next_bet_pid: 1,
        };
        proof {
            assert(r@.accounts =~= Seq::<AccountView>::empty());
            assert(r@.batches =~= Seq::<BatchView>::empty());
            assert(r@.bets =~= Seq::<BetView>::empty());
        }
        r
    }

    /// The position of the account with key `id`, if it is live.
    fn find_account(&self, id: i64) -> (r: Option<usize>)
        requires
            self.wf(),
        ensures
            match r {
                Option::Some(i) => {
                    &&& i < self@.accounts.len()
                    &&& self@.accounts[i as int].id == id as int
                    &&& account_index(self@.accounts, id as int) == i as int
                    &&& has_account(self@.accounts, id as int)
                },
                Option::None => !has_account(self@.accounts, id as int),
            },
    {
        let mut i: usize = 0;
        let n = self.accounts.len();
        while i < n
            invariant
                i <= n,
                n == self@.accounts.len(),
                self.wf(),
                forall|k: int| 0 <= k < i ==> self@.accounts[k].id != id as int,
            decreases n - i,
        {
            if self.accounts[i].id == id {
                proof {
                    let gi = i as int;
                    assert(has_account(self@.accounts, id as int)) by {
                        assert(0 <= gi < self@.accounts.len() && self@.accounts[gi].id
                            == id as int);
                    }
                    let j = account_index(self@.accounts, id as int);
                    assert(0 <= j < self@.accounts.len() && self@.accounts[j].id == id as int);
                    if j != gi {
                        assert(self@.accounts[j].id != self@.accounts[gi].id);
                    }
                }
                return Option::Some(i);
            }
            i = i + 1;
        }
        Option::None
    }

    /// The position of the batch with key `id`, if it is live.
    fn find_batch(&self, id: i64) -> (r: Option<usize>)
        requires
            self.wf(),
        ensures
            match r {
                Option::Some(i) => {
                    &&& i < self@.batches.len()
                    &&& self@.batches[i as int].id == id as int
                    &&& batch_index(self@.batches, id as int) == i as int
                    &&& has_batch(self@.batches, id as int)
                },
                Option::None => !has_batch(self@.batches, id as int),
            },
    {
        let mut i: usize = 0;
        let n = self.batches.len();
        while i < n
            invariant
                i <= n,
                n == self@.batches.len(),
                self.wf(),
                forall|k: int| 0 <= k < i ==> self@.batches[k].id != id as int,
            decreases n - i,
        {
            if self.batches[i].id == id {
                proof {
                    let gi = i as int;
                    assert(has_batch(self@.batches, id as int)) by {
                        assert(0 <= gi < self@.batches.len() && self@.batches[gi].id == id as int);
                    }
                    let j = batch_index(self@.batches, id as int);
                    assert(0 <= j < self@.batches.len() && self@.batches[j].id == id as int);
                    if j != gi {
                        assert(self@.batches[j].id != self@.batches[gi].id);
                    }
                }
                return Option::Some(i);
            }
            i = i + 1;
        }
        Option::None
    }

    /// A copy of the account with key `id`, if it is live.
    pub fn account_by_id(&self, id: i64) -> (r: Option<Account>)
        requires
            self.wf(),
        ensures
            match r {
                Option::Some(a) => {
                    &&& has_account(self@.accounts, id as int)
                    &&& a@ == self@.accounts[account_index(self@.accounts, id as int)]
                    &&& a@.id == id as int
                },
                Option::None => !has_account(self@.accounts, id as int),
            },
    {
        match self.find_account(id) {
            Option::Some(i) => Option::Some(self.accounts[i].duplicate()),
            Option::None => Option::None,
        }
    }

    /// Copies of all live accounts, newest first (reverse insertion order).
    pub fn accounts_desc(&self) -> (r: Vec<Account>)
        ensures
            r@.map_values(|a: Account| a@) == self@.accounts.reverse(),
    {
        let n = self.accounts.len();
        let mut out: Vec<Account> = Vec::new();
        let mut i: usize = n;
        while i > 0
            invariant
                i <= n,
                n == self@.accounts.len(),
                out@.len() == n - i,
                forall|k: int|
                    0 <= k < n - i ==> (#[trigger] out@[k])@ == self@.accounts[n - 1 - k],
            decreases i,
        {
            i = i - 1;
            out.push(self.accounts[i].duplicate());
        }
        proof {
            assert(out@.map_values(|a: Account| a@) =~= self@.accounts.reverse());
        }
        out
    }

    /// Records a new account: assigns it the next key and stamps both of its
    /// timestamps with the caller's commit time.
    pub fn insert_account(&mut self, name: String, hostname: String, now: &str) -> (r: Account)
        requires
            old(self).wf(),
            old(self)@.next_account_id < i64::MAX,
        ensures
            final(self).wf(),
            r@ == (AccountView {
                id: old(self)@.next_account_id,
                name: name@,
                hostname: hostname@,
                created_at: now@,
                updated_at: now@,
            }),
            final(self)@.accounts == old(self)@.accounts.push(r@),
            final(self)@.batches == old(self)@.batches,
            final(self)@.bets == old(self)@.bets,
            final(self)@.next_account_id == old(self)@.next_account_id + 1,
            final(self)@.next_batch_id == old(self)@.next_batch_id,
            final(self)@.next_bet_pid == old(self)@.next_bet_pid,
            has_account(final(self)@.accounts, r@.id),
    {
        let id = self.next_account_id;
        self.next_account_id = self.next_account_id + 1;
        let a = Account {
            id,
            name,
            hostname,
            created_at: now.to_owned(),
            updated_at: now.to_owned(),
        };
        let r = a.duplicate();
        self.accounts.push(a);
        proof {
            let n = old(self)@.accounts.len() as int;
            assert(self@.accounts =~~= old(self)@.accounts.push(r@));
            assert(self@.batches =~= old(self)@.batches);
            assert(self@.bets =~= old(self)@.bets);
            assert(self@.accounts[n].id == id as int);
            assert forall|i: int| 0 <= i < self@.batches.len() implies has_account(
                self@.accounts,
                (#[trigger] self@.batches[i]).account_id,
            ) by {
                assert(has_account(old(self)@.accounts, old(self)@.batches[i].account_id));
                let j = account_index(old(self)@.accounts, old(self)@.batches[i].account_id);
                assert(self@.accounts[j].id == self@.batches[i].account_id);
            }
        }
        r
    }

    /// Rewrites the name and hostname of the account with key `id` and stamps
    /// its update time, returning the new record; `None` (and no change) when
    /// no such account is live.
    pub fn update_account_record(
        &mut self,
        id: i64,
        name: String,
        hostname: String,
        now: &str,
    ) -> (r: Option<Account>)
        requires
            old(self).wf(),
        ensures
            final(self).wf(),
            final(self)@.batches == old(self)@.batches,
            final(self)@.bets == old(self)@.bets,
            final(self)@.next_account_id == old(self)@.next_account_id,
            final(self)@.next_batch_id == old(self)@.next_batch_id,
            final(self)@.next_bet_pid == old(self)@.next_bet_pid,
            !has_account(old(self)@.accounts, id as int) ==> r is None && final(self)@.accounts
                == old(self)@.accounts,
            has_account(old(self)@.accounts, id as int) ==> {
                let i = account_index(old(self)@.accounts, id as int);
                let a1 = AccountView {
                    id: id as int,
                    name: name@,
                    hostname: hostname@,
                    created_at: old(self)@.accounts[i].created_at,
                    updated_at: now@,
                };
                &&& r matches Option::Some(a)
                &&& a@ == a1
                &&& final(self)@.accounts == old(self)@.accounts.update(i, a1)
            },
    {
        let idx = self.find_account(id);
        match idx {
            Option::None => Option::None,
            Option::Some(i) => {
                let ghost a0 = old(self)@.accounts[i as int];
                let a = Account {
                    id,
                    name,
                    hostname,
                    created_at: self.accounts[i].created_at.clone(),
                    updated_at: now.to_owned(),
                };
                let r = a.duplicate();
                self.accounts[i] = a;
                proof {
                    let gi = i as int;
                    assert(self@.accounts =~~= old(self)@.accounts.update(gi, r@));
                    assert forall|k: int| 0 <= k < self@.accounts.len() implies 1 <= (
                    #[trigger] self@.accounts[k]).id < self@.next_account_id by {
                        if k != gi {
                            assert(self@.accounts[k] == old(self)@.accounts[k]);
                        } else {
                            assert(old(self)@.accounts[gi].id == id as int);
                        }
                    }
                    assert forall|k: int, l: int| 0 <= k < l < self@.accounts.len() implies self@.accounts[k].id
                        != self@.accounts[l].id by {
                        assert(self@.accounts[k].id == old(self)@.accounts[k].id);
                        assert(self@.accounts[l].id == old(self)@.accounts[l].id);
                    }
                    assert forall|k: int| 0 <= k < self@.batches.len() implies has_account(
                        self@.accounts,
                        (#[trigger] self@.batches[k]).account_id,
                    ) by {
                        assert(has_account(old(self)@.accounts, old(self)@.batches[k].account_id));
                        let j = account_index(
                            old(self)@.accounts,
                            old(self)@.batches[k].account_id,
                        );
                        assert(self@.accounts[j].id == self@.batches[k].account_id);
                    }
                    assert(self@.batches =~= old(self)@.batches);
                    assert(self@.bets =~= old(self)@.bets);
                    assert(store_wf(self@));
                }
                Option::Some(r)
            },
        }
    }

    /// Records a new, uncompleted batch under a live account, stamping both
    /// timestamps with the caller's commit time.
    pub fn insert_batch(&mut self, account_id: i64, meta: String, now: &str) -> (r: Batch)
        requires
            old(self).wf(),
            old(self)@.next_batch_id < i64::MAX,
            has_account(old(self)@.accounts, account_id as int),
        ensures
            final(self).wf(),
            r@ == (BatchView {
                id: old(self)@.next_batch_id,
                completed: false,
                created_at: now@,
                updated_at: now@,
                meta: meta@,
                account_id: account_id as int,
            }),
            final(self)@.batches == old(self)@.batches.push(r@),
            final(self)@.accounts == old(self)@.accounts,
            final(self)@.bets == old(self)@.bets,
            final(self)@.next_batch_id == old(self)@.next_batch_id + 1,
            final(self)@.next_account_id == old(self)@.next_account_id,
            final(self)@.next_bet_pid == old(self)@.next_bet_pid,
            has_batch(final(self)@.batches, r@.id),
    {
        let id = self.next_batch_id;
        self.next_batch_id = self.next_batch_id + 1;
        let b = Batch {
            id,
            completed: false,
            created_at: now.to_owned(),
            updated_at: now.to_owned(),
            meta,
            account_id,
        };
        let r = b.duplicate();
        self.batches.push(b);
        proof {
            let n = old(self)@.batches.len() as int;
            assert(self@.batches =~~= old(self)@.batches.push(r@));
            assert(self@.accounts =~= old(self)@.accounts);
            assert(self@.bets =~= old(self)@.bets);
            assert(self@.batches[n].id == id as int);
            assert forall|i: int| 0 <= i < self@.batches.len() implies has_account(
                self@.accounts,
                (#[trigger] self@.batches[i]).account_id,
            ) by {
                if i < n {
                    assert(has_account(old(self)@.accounts, old(self)@.batches[i].account_id));
                }
            }
            assert forall|i: int| 0 <= i < self@.bets.len() implies has_batch(
                self@.batches,
                (#[trigger] self@.bets[i]).batch_id,
            ) by {
                assert(has_batch(old(self)@.batches, old(self)@.bets[i].batch_id));
                let j = batch_index(old(self)@.batches, old(self)@.bets[i].batch_id);
                assert(self@.batches[j].id == self@.bets[i].batch_id);
            }
        }
        r
    }

    /// Records a new wager in a live batch, assigning it the next store key;
    /// it starts out pending.
    pub fn insert_bet(
        &mut self,
        batch_id: i64,
        id: i64,
        selection: String,
        stake: i64,
        cost: i64,
    ) -> (r: Bet)
        requires
            old(self).wf(),
            old(self)@.next_bet_pid < i64::MAX,
            has_batch(old(self)@.batches, batch_id as int),
        ensures
            final(self).wf(),
            r@ == (BetView {
                pid: old(self)@.next_bet_pid,
                id: id as int,
                selection: selection@,
                stake: stake as int,
                cost: cost as int,
                status: BetStatus::Pending,
                batch_id: batch_id as int,
            }),
            final(self)@.bets == old(self)@.bets.push(r@),
            final(self)@.accounts == old(self)@.accounts,
            final(self)@.batches == old(self)@.batches,
            final(self)@.next_bet_pid == old(self)@.next_bet_pid + 1,
            final(self)@.next_account_id == old(self)@.next_account_id,
            final(self)@.next_batch_id == old(self)@.next_batch_id,
    {
        let pid = self.next_bet_pid;
        self.next_bet_pid = self.next_bet_pid + 1;
        let t = Bet { pid, id, selection, stake, cost, status: BetStatus::Pending, batch_id };
        let r = t.duplicate();
        self.bets.push(t);
        proof {
            let n = old(self)@.bets.len() as int;
            assert(self@.bets =~~= old(self)@.bets.push(r@));
            assert(self@.accounts =~= old(self)@.accounts);
            assert(self@.batches =~= old(self)@.batches);
            assert forall|i: int| 0 <= i < self@.bets.len() implies has_batch(
                self@.batches,
                (#[trigger] self@.bets[i]).batch_id,
            ) by {
                if i < n {
                    assert(has_batch(old(self)@.batches, old(self)@.bets[i].batch_id));
                }
            }
            assert forall|i: int| 0 <= i < self@.batches.len() implies has_account(
                self@.accounts,
                (#[trigger] self@.batches[i]).account_id,
            ) by {
                assert(has_account(old(self)@.accounts, old(self)@.batches[i].account_id));
            }
        }
        r
    }

    /// Sets the status of the single wager with store key `pid` in batch
    /// `batch_id`, returning the updated record; `None` (and no change) when
    /// no such wager is live.
    pub fn set_bet_status_by_pid(&mut self, pid: i64, batch_id: i64, status: BetStatus) -> (r:
        Option<Bet>)
        requires
            old(self).wf(),
        ensures
            final(self).wf(),
            final(self)@.accounts == old(self)@.accounts,
            final(self)@.batches == old(self)@.batches,
            final(self)@.next_account_id == old(self)@.next_account_id,
            final(self)@.next_batch_id == old(self)@.next_batch_id,
            final(self)@.next_bet_pid == old(self)@.next_bet_pid,
            !has_bet_pid(old(self)@.bets, pid as int, batch_id as int) ==> r is None && final(self)@.bets == old(self)@.bets,
            has_bet_pid(old(self)@.bets, pid as int, batch_id as int) ==> {
                let j = bet_pid_index(old(self)@.bets, pid as int, batch_id as int);
                &&& r matches Option::Some(b)
                &&& b@ == with_status(old(self)@.bets[j], status)
                &&& final(self)@.bets == old(self)@.bets.update(
                    j,
                    with_status(old(self)@.bets[j], status),
                )
            },
    {
        let n = self.bets.len();
        let mut i: usize = 0;
        while i < n
            invariant
                i <= n,
                self == old(self),
                n == self@.bets.len(),
                self.wf(),
                forall|k: int|
                    0 <= k < i ==> !((#[trigger] self@.bets[k]).pid == pid as int
                        && self@.bets[k].batch_id == batch_id as int),
            decreases n - i,
        {
            if self.bets[i].pid == pid && self.bets[i].batch_id == batch_id {
                let ghost bv0 = self@.bets;
                let ghost b0 = self@.bets[i as int];
                proof {
                    let gi = i as int;
                    assert(has_bet_pid(bv0, pid as int, batch_id as int)) by {
                        assert(0 <= gi < bv0.len() && bv0[gi].pid == pid as int
                            && bv0[gi].batch_id == batch_id as int);
                    }
                    let j = bet_pid_index(bv0, pid as int, batch_id as int);
                    assert(0 <= j < bv0.len() && bv0[j].pid == pid as int);
                    if j != gi {
                        assert(bv0[j].pid != bv0[gi].pid);
                    }
                }
                let mut nb = self.bets[i].duplicate();
                nb.status = status;
                let r = nb.duplicate();
                self.bets[i] = nb;
                proof {
                    let gi = i as int;
                    assert(self@.bets =~~= bv0.update(gi, with_status(b0, status)));
                    assert(self@.accounts =~= old(self)@.accounts);
                    assert(self@.batches =~= old(self)@.batches);
                    assert forall|k: int| 0 <= k < self@.bets.len() implies 1 <= (
                    #[trigger] self@.bets[k]).pid < self@.next_bet_pid by {
                        if k != gi {
                            assert(self@.bets[k] == bv0[k]);
                        }
                    }
                    assert forall|k: int, l: int| 0 <= k < l < self@.bets.len() implies self@.bets[k].pid
                        != self@.bets[l].pid by {
                        assert(self@.bets[k].pid == bv0[k].pid);
                        assert(self@.bets[l].pid == bv0[l].pid);
                    }
                    assert forall|k: int| 0 <= k < self@.bets.len() implies has_batch(
                        self@.batches,
                        (#[trigger] self@.bets[k]).batch_id,
                    ) by {
                        assert(self@.bets[k].batch_id == bv0[k].batch_id);
                        assert(has_batch(old(self)@.batches, bv0[k].batch_id));
                    }
                    assert(store_wf(self@));
                }
                return Option::Some(r);
            }
            i = i + 1;
        }
        Option::None
    }

    /// Sets the status of every wager of batch `batch_id` whose
    /// client-supplied id is `cid`, returning one of the updated records;
    /// `None` (and no change) when the batch holds no such wager.
    pub fn set_bets_status_by_client_id(&mut self, batch_id: i64, cid: i64, status: BetStatus) -> (r:
        Option<Bet>)
        requires
            old(self).wf(),
        ensures
            final(self).wf(),
            final(self)@.accounts == old(self)@.accounts,
            final(self)@.batches == old(self)@.batches,
            final(self)@.next_account_id == old(self)@.next_account_id,
            final(self)@.next_batch_id == old(self)@.next_batch_id,
            final(self)@.next_bet_pid == old(self)@.next_bet_pid,
            final(self)@.bets == set_status_by_cid(
                old(self)@.bets,
                batch_id as int,
                cid as int,
                status,
            ),
            r is None <==> !has_bet_cid(old(self)@.bets, batch_id as int, cid as int),
            r matches Option::Some(b) ==> exists|j: int|
                0 <= j < old(self)@.bets.len() && (#[trigger] old(self)@.bets[j]).batch_id
                    == batch_id as int && old(self)@.bets[j].id == cid as int && b@ == with_status(
                    old(self)@.bets[j],
                    status,
                ),
    {
        let n = self.bets.len();
        let mut found: Option<Bet> = Option::None;
        let mut i: usize = 0;
        while i < n
            invariant
                i <= n,
                n == self@.bets.len(),
                n == old(self)@.bets.len(),
                self@.accounts == old(self)@.accounts,
                self@.batches == old(self)@.batches,
                self@.next_account_id == old(self)@.next_account_id,
                self@.next_batch_id == old(self)@.next_batch_id,
                self@.next_bet_pid == old(self)@.next_bet_pid,
                store_wf(old(self)@),
                forall|k: int|
                    0 <= k < i ==> #[trigger] self@.bets[k] == (
                    if old(self)@.bets[k].batch_id == batch_id as int && old(self)@.bets[k].id
                        == cid as int {
                        with_status(old(self)@.bets[k], status)
                    } else {
                        old(self)@.bets[k]
                    }),
                forall|k: int| i <= k < n ==> #[trigger] self@.bets[k] == old(self)@.bets[k],
                found is None <==> !has_bet_cid(
                    old(self)@.bets.take(i as int),
                    batch_id as int,
                    cid as int,
                ),
                found matches Option::Some(b) ==> exists|j: int|
                    0 <= j < old(self)@.bets.len() && (#[trigger] old(self)@.bets[j]).batch_id
                        == batch_id as int && old(self)@.bets[j].id == cid as int && b@
                        == with_status(old(self)@.bets[j], status),
            decreases n - i,
        {
            let ghost prev = self@.bets;
            let ghost prev_raw = self.bets@;
            proof {
                assert(self@.bets[i as int] == old(self)@.bets[i as int]);
            }
            if self.bets[i].batch_id == batch_id && self.bets[i].id == cid {
                let mut nb = self.bets[i].duplicate();
                nb.status = status;
                let b = nb.duplicate();
                self.bets[i] = nb;
                proof {
                    let gi = i as int;
                    assert(prev[gi] == old(self)@.bets[gi]);
                    assert(self@.bets[gi] == with_status(old(self)@.bets[gi], status));
                    assert(b@ == with_status(old(self)@.bets[gi], status));
                }
                if found.is_none() {
                    found = Option::Some(b);
                }
            }
            proof {
                let gi = i as int;
                assert forall|m: int| 0 <= m < n && m != gi implies #[trigger] self@.bets[m]
                    == prev[m] by {
                    assert(self.bets@[m] == prev_raw[m]);
                }
                let t0 = old(self)@.bets.take(gi);
                let t1 = old(self)@.bets.take(gi + 1);
                assert(t1.len() == gi + 1 && t0.len() == gi);
                if !(old(self)@.bets[gi].batch_id == batch_id as int && old(self)@.bets[gi].id
                    == cid as int) {
                    assert(has_bet_cid(t1, batch_id as int, cid as int) <==> has_bet_cid(
                        t0,
                        batch_id as int,
                        cid as int,
                    )) by {
                        if has_bet_cid(t1, batch_id as int, cid as int) {
                            let j = choose|j: int|
                                0 <= j < t1.len() && (#[trigger] t1[j]).batch_id == batch_id as int
                                    && t1[j].id == cid as int;
                            assert(t1[j] == old(self)@.bets[j]);
                            assert(j != gi);
                            assert(t0[j].batch_id == batch_id as int && t0[j].id == cid as int);
                        }
                        if has_bet_cid(t0, batch_id as int, cid as int) {
                            let j = choose|j: int|
                                0 <= j < t0.len() && (#[trigger] t0[j]).batch_id == batch_id as int
                                    && t0[j].id == cid as int;
                            assert(t1[j].batch_id == batch_id as int && t1[j].id == cid as int);
                        }
                    }
                } else {
                    assert(has_bet_cid(t1, batch_id as int, cid as int)) by {
                        assert(t1[gi].batch_id == batch_id as int && t1[gi].id == cid as int);
                    }
                }
                assert(found is None <==> !has_bet_cid(
                    old(self)@.bets.take(gi + 1),
                    batch_id as int,
                    cid as int,
                ));
            }
            i = i + 1;
        }
        proof {
            assert(old(self)@.bets.take(n as int) =~= old(self)@.bets);
            assert(self@.bets =~~= set_status_by_cid(
                old(self)@.bets,
                batch_id as int,
                cid as int,
                status,
            ));
            assert forall|k: int| 0 <= k < self@.bets.len() implies 1 <= (
            #[trigger] self@.bets[k]).pid < self@.next_bet_pid && has_batch(
                self@.batches,
                self@.bets[k].batch_id,
            ) by {
                assert(self@.bets[k].pid == old(self)@.bets[k].pid);
                assert(self@.bets[k].batch_id == old(self)@.bets[k].batch_id);
                assert(has_batch(old(self)@.batches, old(self)@.bets[k].batch_id));
            }
            assert forall|k: int, l: int| 0 <= k < l < self@.bets.len() implies self@.bets[k].pid
                != self@.bets[l].pid by {
                assert(self@.bets[k].pid == old(self)@.bets[k].pid);
                assert(self@.bets[l].pid == old(self)@.bets[l].pid);
            }
            assert(store_wf(self@));
        }
        found
    }

    /// Marks the batch `batch_id` of account `account_id` completed and
    /// stamps its update time; nothing changes when no such batch is live or
    /// it belongs to another account.
    pub fn complete_batch(&mut self, batch_id: i64, account_id: i64, now: &str)
        requires
            old(self).wf(),
        ensures
            final(self).wf(),
            final(self)@.accounts == old(self)@.accounts,
            final(self)@.bets == old(self)@.bets,
            final(self)@.next_account_id == old(self)@.next_account_id,
            final(self)@.next_batch_id == old(self)@.next_batch_id,
            final(self)@.next_bet_pid == old(self)@.next_bet_pid,
            !batch_owned_by(old(self)@.batches, batch_id as int, account_id as int) ==> final(self)@.batches == old(self)@.batches,
            batch_owned_by(old(self)@.batches, batch_id as int, account_id as int) ==> {
                let j = batch_index(old(self)@.batches, batch_id as int);
                final(self)@.batches == old(self)@.batches.update(
                    j,
                    BatchView {
                        completed: true,
                        updated_at: now@,
                        ..old(self)@.batches[j]
                    },
                )
            },
    {
        let idx = self.find_batch(batch_id);
        match idx {
            Option::None => {
                proof {
                    if batch_owned_by(old(self)@.batches, batch_id as int, account_id as int) {
                        let j = choose|j: int|
                            0 <= j < old(self)@.batches.len() && old(self)@.batches[j].id
                                == batch_id as int && old(self)@.batches[j].account_id
                                == account_id as int;
                        assert(has_batch(old(self)@.batches, batch_id as int)) by {
                            assert(old(self)@.batches[j].id == batch_id as int);
                        }
                    }
                }
            },
            Option::Some(i) => {
                if self.batches[i].account_id != account_id {
                    proof {
                        let gi = i as int;
                        if batch_owned_by(old(self)@.batches, batch_id as int, account_id as int) {
                            let j = choose|j: int|
                                0 <= j < old(self)@.batches.len() && old(self)@.batches[j].id
                                    == batch_id as int && old(self)@.batches[j].account_id
                                    == account_id as int;
                            if j != gi {
                                assert(old(self)@.batches[j].id != old(self)@.batches[gi].id);
                            }
                        }
                    }
                } else {
                    let ghost b0 = self@.batches[i as int];
                    proof {
                        let gi = i as int;
                        assert(batch_owned_by(
                            old(self)@.batches,
                            batch_id as int,
                            account_id as int,
                        )) by {
                            assert(old(self)@.batches[gi].id == batch_id as int && old(self)@.batches[gi].account_id == account_id as int);
                        }
                    }
                    self.batches[i].completed = true;
                    self.batches[i].updated_at = now.to_owned();
                    proof {
                        let gi = i as int;
                        assert(self@.batches =~~= old(self)@.batches.update(
                            gi,
                            BatchView { completed: true, updated_at: now@, ..b0 },
                        ));
                        assert(self@.accounts =~= old(self)@.accounts);
                        assert(self@.bets =~= old(self)@.bets);
                        assert forall|k: int| 0 <= k < self@.batches.len() implies 1 <= (
                        #[trigger] self@.batches[k]).id < self@.next_batch_id && has_account(
                            self@.accounts,
                            self@.batches[k].account_id,
                        ) by {
                            assert(self@.batches[k].id == old(self)@.batches[k].id);
                            assert(self@.batches[k].account_id == old(self)@.batches[k].account_id);
                            assert(has_account(
                                old(self)@.accounts,
                                old(self)@.batches[k].account_id,
                            ));
                        }
                        assert forall|k: int, l: int|
                            0 <= k < l < self@.batches.len() implies self@.batches[k].id
                            != self@.batches[l].id by {
                            assert(self@.batches[k].id == old(self)@.batches[k].id);
                            assert(self@.batches[l].id == old(self)@.batches[l].id);
                        }
                        assert forall|k: int| 0 <= k < self@.bets.len() implies has_batch(
                            self@.batches,
                            (#[trigger] self@.bets[k]).batch_id,
                        ) by {
                            assert(has_batch(old(self)@.batches, old(self)@.bets[k].batch_id));
                            let j = batch_index(old(self)@.batches, old(self)@.bets[k].batch_id);
                            assert(self@.batches[j].id == self@.bets[k].batch_id);
                        }
                        assert(store_wf(self@));
                    }
                }
            },
        }
    }

    /// Whether a wager with store key `pid` is live in batch `batch_id`.
    pub fn bet_exists(&self, pid: i64, batch_id: i64) -> (r: bool)
        ensures
            r == has_bet_pid(self@.bets, pid as int, batch_id as int),
    {
        let n = self.bets.len();
        let mut i: usize = 0;
        while i < n
            invariant
                i <= n,
                n == self@.bets.len(),
                forall|k: int|
                    0 <= k < i ==> !((#[trigger] self@.bets[k]).pid == pid as int
                        && self@.bets[k].batch_id == batch_id as int),
            decreases n - i,
        {
            if self.bets[i].pid == pid && self.bets[i].batch_id == batch_id {
                proof {
                    let gi = i as int;
                    assert(has_bet_pid(self@.bets, pid as int, batch_id as int)) by {
                        assert(self@.bets[gi].pid == pid as int && self@.bets[gi].batch_id
                            == batch_id as int);
                    }
                }
                return true;
            }
            i = i + 1;
        }
        false
    }

    /// Whether a wager with client-supplied id `cid` is live in batch
    /// `batch_id`.
    pub fn bet_exists_cid(&self, batch_id: i64, cid: i64) -> (r: bool)
        ensures
            r == has_bet_cid(self@.bets, batch_id as int, cid as int),
    {
        let n = self.bets.len();
        let mut i: usize = 0;
        while i < n
            invariant
                i <= n,
                n == self@.bets.len(),
                forall|k: int|
                    0 <= k < i ==> !((#[trigger] self@.bets[k]).batch_id == batch_id as int
                        && self@.bets[k].id == cid as int),
            decreases n - i,
        {
            if self.bets[i].batch_id == batch_id && self.bets[i].id == cid {
                proof {
                    let gi = i as int;
                    assert(has_bet_cid(self@.bets, batch_id as int, cid as int)) by {
                        assert(self@.bets[gi].batch_id == batch_id as int && self@.bets[gi].id
                            == cid as int);
                    }
                }
                return true;
            }
            i = i + 1;
        }
        false
    }

    /// Whether batch `batch_id` is live and belongs to account `account_id`.
    pub fn batch_owned(&self, batch_id: i64, account_id: i64) -> (r: bool)
        ensures
            r == batch_owned_by(self@.batches, batch_id as int, account_id as int),
    {
        let n = self.batches.len();
        let mut i: usize = 0;
        while i < n
            invariant
                i <= n,
                n == self@.batches.len(),
                forall|k: int|
                    0 <= k < i ==> !((#[trigger] self@.batches[k]).id == batch_id as int
                        && self@.batches[k].account_id == account_id as int),
            decreases n - i,
        {
            if self.batches[i].id == batch_id && self.batches[i].account_id == account_id {
                proof {
                    let gi = i as int;
                    assert(batch_owned_by(self@.batches, batch_id as int, account_id as int)) by {
                        assert(self@.batches[gi].id == batch_id as int
                            && self@.batches[gi].account_id == account_id as int);
                    }
                }
                return true;
            }
            i = i + 1;
        }
        false
    }

    /// Deletes the account with key `id` together with all of its batches and
    /// their wagers, in one step; deleting an unknown account changes
    /// nothing. No record referring to the account survives.
    pub fn remove_account_cascade(&mut self, id: i64)
        requires
            old(self).wf(),
        ensures
            final(self).wf(),
            final(self)@.next_account_id == old(self)@.next_account_id,
            final(self)@.next_batch_id == old(self)@.next_batch_id,
            final(self)@.next_bet_pid == old(self)@.next_bet_pid,
            final(self)@.accounts == old(self)@.accounts.filter(acc_keep(id as int)),
            final(self)@.batches == old(self)@.batches.filter(batch_keep(id as int)),
            final(self)@.bets == old(self)@.bets.filter(bet_keep(old(self)@.batches, id as int)),
            !has_account(final(self)@.accounts, id as int),
    {
        let ghost av = old(self)@.accounts;
        let ghost bv = old(self)@.batches;
        let ghost tv = old(self)@.bets;
        let mut kept_bets: Vec<Bet> = Vec::new();
        let nt = self.bets.len();
        let mut i: usize = 0;
        while i < nt
            invariant
                i <= nt,
                self == old(self),
                old(self).wf(),
                nt == tv.len(),
                tv == self@.bets,
                bv == self@.batches,
                kept_bets@.map_values(|t: Bet| t@) == tv.take(i as int).filter(
                    bet_keep(bv, id as int),
                ),
            decreases nt - i,
        {
            let keep = !self.batch_owned(self.bets[i].batch_id, id);
            proof {
                lemma_filter_take_step(tv, bet_keep(bv, id as int), i as int);
            }
            if keep {
                kept_bets.push(self.bets[i].duplicate());
                proof {
                    assert(kept_bets@.map_values(|t: Bet| t@) =~= tv.take(i as int + 1).filter(
                        bet_keep(bv, id as int),
                    ));
                }
            }
            i = i + 1;
        }
        let mut kept_batches: Vec<Batch> = Vec::new();
        let nb = self.batches.len();
        let mut j: usize = 0;
        while j < nb
            invariant
                j <= nb,
                self == old(self),
                old(self).wf(),
                nb == bv.len(),
                bv == self@.batches,
                kept_batches@.map_values(|b: Batch| b@) == bv.take(j as int).filter(
                    batch_keep(id as int),
                ),
            decreases nb - j,
        {
            proof {
                lemma_filter_take_step(bv, batch_keep(id as int), j as int);
            }
            if self.batches[j].account_id != id {
                kept_batches.push(self.batches[j].duplicate());
                proof {
                    assert(kept_batches@.map_values(|b: Batch| b@) =~= bv.take(j as int + 1).filter(
                        batch_keep(id as int),
                    ));
                }
            }
            j = j + 1;
        }
        let mut kept_accounts: Vec<Account> = Vec::new();
        let na = self.accounts.len();
        let mut k: usize = 0;
        while k < na
            invariant
                k <= na,
                self == old(self),
                old(self).wf(),
                na == av.len(),
                av == self@.accounts,
                kept_accounts@.map_values(|a: Account| a@) == av.take(k as int).filter(
                    acc_keep(id as int),
                ),
            decreases na - k,
        {
            proof {
                lemma_filter_take_step(av, acc_keep(id as int), k as int);
            }
            if self.accounts[k].id != id {
                kept_accounts.push(self.accounts[k].duplicate());
                proof {
                    assert(kept_accounts@.map_values(|a: Account| a@) =~= av.take(
                        k as int + 1,
                    ).filter(acc_keep(id as int)));
                }
            }
            k = k + 1;
        }
        self.bets = kept_bets;
        self.batches = kept_batches;
        self.accounts = kept_accounts;
        proof {
            broadcast use vstd::seq_lib::group_filter_ensures;

            assert(av.take(na as int) =~= av);
            assert(bv.take(nb as int) =~= bv);
            assert(tv.take(nt as int) =~= tv);
            let fa = av.filter(acc_keep(id as int));
            let fb = bv.filter(batch_keep(id as int));
            let ft = tv.filter(bet_keep(bv, id as int));
            assert(self@.accounts == fa && self@.batches == fb && self@.bets == ft);
            lemma_filter_elements(av, acc_keep(id as int));
            lemma_filter_elements(bv, batch_keep(id as int));
            lemma_filter_elements(tv, bet_keep(bv, id as int));
            lemma_filter_distinct_keys(av, acc_keep(id as int), |a: AccountView| a.id);
            lemma_filter_distinct_keys(bv, batch_keep(id as int), |b: BatchView| b.id);
            lemma_filter_distinct_keys(tv, bet_keep(bv, id as int), |t: BetView| t.pid);

            assert forall|m: int| 0 <= m < fa.len() implies 1 <= (#[trigger] fa[m]).id
                < self@.next_account_id by {
                assert(av.contains(fa[m]));
                let w = choose|w: int| 0 <= w < av.len() && av[w] == fa[m];
                assert(1 <= av[w].id < old(self)@.next_account_id);
            }
            assert forall|m: int| 0 <= m < fb.len() implies 1 <= (#[trigger] fb[m]).id
                < self@.next_batch_id && has_account(self@.accounts, fb[m].account_id) by {
                assert(bv.contains(fb[m]));
                let w = choose|w: int| 0 <= w < bv.len() && bv[w] == fb[m];
                assert(1 <= bv[w].id < old(self)@.next_batch_id);
                assert(has_account(av, bv[w].account_id));
                let x = account_index(av, bv[w].account_id);
                assert(acc_keep(id as int)(av[x])) by {
                    assert(batch_keep(id as int)(fb[m]));
                }
                assert(fa.contains(av[x]));
                let y = choose|y: int| 0 <= y < fa.len() && fa[y] == av[x];
                assert(fa[y].id == fb[m].account_id);
            }
            assert forall|m: int| 0 <= m < ft.len() implies 1 <= (#[trigger] ft[m]).pid
                < self@.next_bet_pid && has_batch(self@.batches, ft[m].batch_id) by {
                assert(tv.contains(ft[m]));
                let w = choose|w: int| 0 <= w < tv.len() && tv[w] == ft[m];
                assert(1 <= tv[w].pid < old(self)@.next_bet_pid);
                assert(has_batch(bv, tv[w].batch_id));
                let x = batch_index(bv, tv[w].batch_id);
                assert(batch_keep(id as int)(bv[x])) by {
                    assert(bet_keep(bv, id as int)(ft[m]));
                    if bv[x].account_id == id as int {
                        assert(batch_owned_by(bv, ft[m].batch_id, id as int)) by {
                            assert(bv[x].id == ft[m].batch_id && bv[x].account_id == id as int);
                        }
                    }
                }
                assert(fb.contains(bv[x]));
                let y = choose|y: int| 0 <= y < fb.len() && fb[y] == bv[x];
                assert(fb[y].id == ft[m].batch_id);
            }
            assert(store_wf(self@));
            if has_account(self@.accounts, id as int) {
                let w = account_index(self@.accounts, id as int);
                assert(acc_keep(id as int)(fa[w]));
            }
        }
    }

    /// Copies of the batches of one account, newest first (reverse insertion
    /// order); empty when the account is unknown or has none.
    pub fn batches_of_account_desc(&self, account_id: i64) -> (r: Vec<Batch>)
        ensures
            r@.map_values(|b: Batch| b@) == self@.batches.filter(
                batch_of_account(account_id as int),
            ).reverse(),
    {
        let ghost bv = self@.batches;
        let mut kept: Vec<Batch> = Vec::new();
        let n = self.batches.len();
        let mut i: usize = 0;
        while i < n
            invariant
                i <= n,
                n == bv.len(),
                bv == self@.batches,
                kept@.map_values(|b: Batch| b@) == bv.take(i as int).filter(
                    batch_of_account(account_id as int),
                ),
            decreases n - i,
        {
            proof {
                lemma_filter_take_step(bv, batch_of_account(account_id as int), i as int);
            }
            if self.batches[i].account_id == account_id {
                kept.push(self.batches[i].duplicate());
                proof {
                    assert(kept@.map_values(|b: Batch| b@) =~= bv.take(i as int + 1).filter(
                        batch_of_account(account_id as int),
                    ));
                }
            }
            i = i + 1;
        }
        proof {
            assert(bv.take(n as int) =~= bv);
        }
        let m = kept.len();
        let mut out: Vec<Batch> = Vec::new();
        let mut j: usize = m;
        while j > 0
            invariant
                j <= m,
                m == kept@.len(),
                kept@.map_values(|b: Batch| b@) == bv.filter(batch_of_account(account_id as int)),
                out@.len() == m - j,
                forall|k: int| 0 <= k < m - j ==> (#[trigger] out@[k])@ == kept@[m - 1 - k]@,
            decreases j,
        {
            j = j - 1;
            out.push(kept[j].duplicate());
        }
        proof {
            assert(out@.map_values(|b: Batch| b@) =~= kept@.map_values(
                |b: Batch| b@,
            ).reverse());
        }
        out
    }

    /// Copies of the wagers of one batch, ordered by client-supplied id (ties
    /// in unspecified order); empty when the batch is unknown or has none.
    pub fn bets_of_batch_sorted(&self, batch_id: i64) -> (r: Vec<Bet>)
        ensures
            sorted_by_cid(r@.map_values(|t: Bet| t@)),
            r@.map_values(|t: Bet| t@).to_multiset() == self@.bets.filter(
                bet_of_batch(batch_id as int),
            ).to_multiset(),
    {
        broadcast use vstd::seq_lib::group_to_multiset_ensures;

        let ghost tv = self@.bets;
        let mut kept: Vec<Bet> = Vec::new();
        let n = self.bets.len();
        let mut i: usize = 0;
        while i < n
            invariant
                i <= n,
                n == tv.len(),
                tv == self@.bets,
                kept@.map_values(|t: Bet| t@) == tv.take(i as int).filter(
                    bet_of_batch(batch_id as int),
                ),
            decreases n - i,
        {
            proof {
                lemma_filter_take_step(tv, bet_of_batch(batch_id as int), i as int);
            }
            if self.bets[i].batch_id == batch_id {
                kept.push(self.bets[i].duplicate());
                proof {
                    assert(kept@.map_values(|t: Bet| t@) =~= tv.take(i as int + 1).filter(
                        bet_of_batch(batch_id as int),
                    ));
                }
            }
            i = i + 1;
        }
        proof {
            assert(tv.take(n as int) =~= tv);
        }
        let m = kept.len();
        let mut out: Vec<Bet> = Vec::new();
        let mut j: usize = 0;
        while j < m
            invariant
                j <= m,
                m == kept@.len(),
                sorted_by_cid(out@.map_values(|t: Bet| t@)),
                out@.map_values(|t: Bet| t@).to_multiset() == kept@.map_values(
                    |t: Bet| t@,
                ).take(j as int).to_multiset(),
            decreases m - j,
        {
            insert_sorted(&mut out, kept[j].duplicate());
            proof {
                broadcast use vstd::seq_lib::group_to_multiset_ensures;

                let kv = kept@.map_values(|t: Bet| t@);
                assert(kv.take(j as int + 1) =~= kv.take(j as int).push(kv[j as int]));
                assert(kv.take(j as int).push(kv[j as int]).to_multiset() =~= kv.take(
                    j as int,
                ).to_multiset().insert(kv[j as int]));
            }
            j = j + 1;
        }
        proof {
            let kv = kept@.map_values(|t: Bet| t@);
            assert(kv.take(m as int) =~= kv);
        }
        out
    }
}

/// Inserts one wager into a list kept ordered by client id, preserving the
/// order and adding exactly that wager.
fn insert_sorted(v: &mut Vec<Bet>, bet: Bet)
    requires
        sorted_by_cid(old(v)@.map_values(|t: Bet| t@)),
    ensures
        sorted_by_cid(final(v)@.map_values(|t: Bet| t@)),
        final(v)@.map_values(|t: Bet| t@).to_multiset() == old(v)@.map_values(
            |t: Bet| t@,
        ).to_multiset().insert(bet@),
        final(v)@.len() == old(v)@.len() + 1,
{
    broadcast use vstd::seq_lib::group_to_multiset_ensures;

    let ghost v0 = old(v)@.map_values(|t: Bet| t@);
    let n = v.len();
    let mut pos: usize = 0;
    while pos < n && v[pos].id <= bet.id
        invariant
            pos <= n,
            v == old(v),
            n == v@.len(),
            forall|k: int| 0 <= k < pos ==> (#[trigger] v@[k])@.id <= bet@.id,
        decreases n - pos,
    {
        pos = pos + 1;
    }
    let ghost gpos = pos as int;
    proof {
        assert forall|k: int| gpos <= k < n implies (#[trigger] v@[k])@.id > bet@.id by {
            if gpos < n {
                assert(v0[gpos].id > bet@.id);
                assert(v0[gpos] == v@[gpos]@);
                if k > gpos {
                    assert(v0[gpos].id <= v0[k].id);
                }
            }
        }
    }
    v.insert(pos, bet);
    proof {
        let v1 = v@.map_values(|t: Bet| t@);
        assert(v1 =~= v0.insert(gpos, v@[gpos]@)) by {
            assert forall|k: int| 0 <= k < v1.len() implies v1[k] == v0.insert(
                gpos,
                v@[gpos]@,
            )[k] by {
                if k < gpos {
                    assert(v@[k] == old(v)@[k]);
                } else if k > gpos {
                    assert(v@[k] == old(v)@[k - 1]);
                }
            }
        }
        let b = v@[gpos]@;
        assert(b == bet@);
        assert forall|a: int, c: int| 0 <= a < c < v1.len() implies v1[a].id <= v1[c].id by {
            if c < gpos {
                assert(v1[a] == v0[a] && v1[c] == v0[c]);
            } else if a > gpos {
                assert(v1[a] == v0[a - 1] && v1[c] == v0[c - 1]);
            } else if a < gpos && c == gpos {
                assert(v1[a] == v0[a]);
                assert(v0[a].id <= bet@.id);
            } else if a < gpos && c > gpos {
                assert(v1[a] == v0[a] && v1[c] == v0[c - 1]);
                if c - 1 >= gpos {
                    assert(v0[c - 1].id > bet@.id);
                    assert(v0[a].id <= bet@.id);
                }
            } else if a == gpos {
                assert(v1[c] == v0[c - 1]);
                assert(v0[c - 1].id > bet@.id);
            }
        }
        assert(v1.remove(gpos) =~= v0);
        assert(v1.remove(gpos).to_multiset() =~= v1.to_multiset().remove(b));
        assert(v1.contains(b)) by {
            assert(v1[gpos] == b);
        }
        assert(v1.to_multiset().count(b) > 0);
        assert(v1.to_multiset() =~= v0.to_multiset().insert(b));
    }
}

} // verus!
