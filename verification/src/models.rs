//! Entity records and request payloads.
//!
//! Each executable type has a mathematical view (`@`) over `int` and
//! `Seq<char>`, and a `duplicate` method that produces a value with the same
//! view, so that fan-out can hand independent copies to every subscriber.
//! Timestamps are carried as text supplied by the caller at commit time;
//! `meta` is carried as opaque JSON text produced by the request layer.

use vstd::prelude::*;
use vstd::string::StringSliceAdditionalSpecFns;

verus! {

/// Settlement status of a single wager.
#[derive(Clone, Copy, Debug, PartialEq, Eq, Structural)]
pub enum BetStatus {
    Pending,
    Successful,
    Failed,
}

/// The wire name of a settlement status.
pub open spec fn status_name(s: BetStatus) -> Seq<char> {
    match s {
        BetStatus::Pending => "pending"@,
        BetStatus::Successful => "successful"@,
        BetStatus::Failed => "failed"@,
    }
}

impl BetStatus {
    /// The wire name of this status.
    pub fn as_str(&self) -> (r: &'static str)
        ensures
            r@ == status_name(*self),
    {
        match self {
            BetStatus::Pending => "pending",
            BetStatus::Successful => "successful",
            BetStatus::Failed => "failed",
        }
    }
}

/// An ASCII upper-case letter folded to lower case; any other byte is kept.
pub open spec fn lower_byte(b: u8) -> u8 {
    if 65 <= b <= 90 {
        (b + 32) as u8
    } else {
        b
    }
}

/// A byte sequence with its ASCII letters folded to lower case.
pub open spec fn lower_bytes(s: Seq<u8>) -> Seq<u8> {
    s.map_values(|b: u8| lower_byte(b))
}

/// Which status a piece of request text names, compared without regard to
/// ASCII case; `None` for anything else.
pub open spec fn spec_parse_status(s: Seq<u8>) -> Option<BetStatus> {
    if lower_bytes(s) == "pending".spec_bytes() {
        Option::Some(BetStatus::Pending)
    } else if lower_bytes(s) == "successful".spec_bytes() {
        Option::Some(BetStatus::Successful)
    } else if lower_bytes(s) == "failed".spec_bytes() {
        Option::Some(BetStatus::Failed)
    } else {
        Option::None
    }
}

/// Folds one byte to ASCII lower case.
fn lower_u8(b: u8) -> (r: u8)
    ensures
        r == lower_byte(b),
{
    if 65 <= b && b <= 90 {
        b + 32
    } else {
        b
    }
}

/// Whether `s`, folded to ASCII lower case, spells exactly `w`.
fn eq_lower(s: &[u8], w: &str) -> (r: bool)
    ensures
        r == (lower_bytes(s@) == w.spec_bytes()),
{
    let wb = w.as_bytes();
    if s.len() != wb.len() {
        proof {
            assert(lower_bytes(s@).len() == s@.len());
        }
        return false;
    }
    let n = s.len();
    let mut i: usize = 0;
    while i < n
        invariant
            i <= n,
            n == s@.len(),
            n == wb@.len(),
            wb@ == w.spec_bytes(),
            forall|k: int| 0 <= k < i ==> lower_byte(s@[k]) == wb@[k],
        decreases n - i,
    {
        if lower_u8(s[i]) != wb[i] {
            proof {
                assert(lower_bytes(s@)[i as int] != w.spec_bytes()[i as int]);
            }
            return false;
        }
        i = i + 1;
    }
    proof {
        assert(lower_bytes(s@) =~= w.spec_bytes());
    }
    true
}

/// Reads the status named by a piece of request text, without regard to
/// ASCII case; `None` for anything else.
pub fn parse_status(s: &str) -> (r: Option<BetStatus>)
    ensures
        r == spec_parse_status(s.spec_bytes()),
{
    let b = s.as_bytes();
    if eq_lower(b, "pending") {
        Option::Some(BetStatus::Pending)
    } else if eq_lower(b, "successful") {
        Option::Some(BetStatus::Successful)
    } else if eq_lower(b, "failed") {
        Option::Some(BetStatus::Failed)
    } else {
        Option::None
    }
}

#[verifier::ext_equal]
pub ghost struct AccountView {
    pub id: int,
    pub name: Seq<char>,
    pub hostname: Seq<char>,
    pub created_at: Seq<char>,
    pub updated_at: Seq<char>,
}

/// A betting account record.
#[derive(Debug)]
pub struct Account {
    pub id: i64,
    pub name: String,
    pub hostname: String,
    pub created_at: String,
    pub updated_at: String,
}

impl View for Account {
    type V = AccountView;

    open spec fn view(&self) -> AccountView {
        AccountView {
            id: self.id as int,
            name: self.name@,
            hostname: self.hostname@,
            created_at: self.created_at@,
            updated_at: self.updated_at@,
        }
    }
}

impl Account {
    /// An independent copy with the same view.
    pub fn duplicate(&self) -> (r: Account)
        ensures
            r@ == self@,
    {
        Account {
            id: self.id,
            name: self.name.clone(),
            hostname: self.hostname.clone(),
            created_at: self.created_at.clone(),
            updated_at: self.updated_at.clone(),
        }
    }
}

#[verifier::ext_equal]
pub ghost struct BetView {
    pub pid: int,
    pub id: int,
    pub selection: Seq<char>,
    pub stake: int,
    pub cost: int,
    pub status: BetStatus,
    pub batch_id: int,
}

/// A single wager. `pid` is the store-assigned key; `id` is supplied by the
/// client when the wager's batch is created. Stakes and costs are kept in
/// minor units.
#[derive(Debug)]
pub struct Bet {
    pub pid: i64,
    pub id: i64,
    pub selection: String,
    pub stake: i64,
    pub cost: i64,
    pub status: BetStatus,
    pub batch_id: i64,
}

impl View for Bet {
    type V = BetView;

    open spec fn view(&self) -> BetView {
        BetView {
            pid: self.pid as int,
            id: self.id as int,
            selection: self.selection@,
            stake: self.stake as int,
            cost: self.cost as int,
            status: self.status,
            batch_id: self.batch_id as int,
        }
    }
}

impl Bet {
    /// An independent copy with the same view.
    pub fn duplicate(&self) -> (r: Bet)
        ensures
            r@ == self@,
    {
        Bet {
            pid: self.pid,
            id: self.id,
            selection: self.selection.clone(),
            stake: self.stake,
            cost: self.cost,
            status: self.status,
            batch_id: self.batch_id,
        }
    }
}

#[verifier::ext_equal]
pub ghost struct BatchView {
    pub id: int,
    pub completed: bool,
    pub created_at: Seq<char>,
    pub updated_at: Seq<char>,
    pub meta: Seq<char>,
    pub account_id: int,
}

/// A group of wagers recorded together. `meta` is opaque JSON text.
#[derive(Debug)]
pub struct Batch {
    pub id: i64,
    pub completed: bool,
    pub created_at: String,
    pub updated_at: String,
    pub meta: String,
    pub account_id: i64,
}

impl View for Batch {
    type V = BatchView;

    open spec fn view(&self) -> BatchView {
        BatchView {
            id: self.id as int,
            completed: self.completed,
            created_at: self.created_at@,
            updated_at: self.updated_at@,
            meta: self.meta@,
            account_id: self.account_id as int,
        }
    }
}

impl Batch {
    /// An independent copy with the same view.
    pub fn duplicate(&self) -> (r: Batch)
        ensures
            r@ == self@,
    {
        Batch {
            id: self.id,
            completed: self.completed,
            created_at: self.created_at.clone(),
            updated_at: self.updated_at.clone(),
            meta: self.meta.clone(),
            account_id: self.account_id,
        }
    }
}

#[verifier::ext_equal]
pub ghost struct BatchResponseView {
    pub id: int,
    pub completed: bool,
    pub created_at: Seq<char>,
    pub updated_at: Seq<char>,
    pub meta: Seq<char>,
    pub account_id: int,
    pub bets: Seq<BetView>,
}

/// A batch together with every one of its wagers: the fully hydrated shape
/// handed back to clients and embedded in change notifications.
#[derive(Debug)]
pub struct BatchResponse {
    pub id: i64,
    pub completed: bool,
    pub created_at: String,
    pub updated_at: String,
    pub meta: String,
    pub account_id: i64,
    pub bets: Vec<Bet>,
}

impl View for BatchResponse {
    type V = BatchResponseView;

    open spec fn view(&self) -> BatchResponseView {
        BatchResponseView {
            id: self.id as int,
            completed: self.completed,
            created_at: self.created_at@,
            updated_at: self.updated_at@,
            meta: self.meta@,
            account_id: self.account_id as int,
            bets: self.bets@.map_values(|b: Bet| b@),
        }
    }
}

/// An independent copy of a list of wagers, with the same view.
pub fn duplicate_bets(bets: &Vec<Bet>) -> (r: Vec<Bet>)
    ensures
        r@.map_values(|b: Bet| b@) == bets@.map_values(|b: Bet| b@),
{
    let mut out: Vec<Bet> = Vec::new();
    let mut i: usize = 0;
    while i < bets.len()
        invariant
            i <= bets.len(),
            out@.len() == i as int,
            forall|k: int| 0 <= k < i ==> out@[k]@ == bets@[k]@,
        decreases bets.len() - i,
    {
        out.push(bets[i].duplicate());
        i = i + 1;
    }
    proof {
        assert(out@.map_values(|b: Bet| b@) =~= bets@.map_values(|b: Bet| b@));
    }
    out
}

impl BatchResponse {
    /// An independent copy with the same view.
    pub fn duplicate(&self) -> (r: BatchResponse)
        ensures
            r@ == self@,
    {
        BatchResponse {
            id: self.id,
            completed: self.completed,
            created_at: self.created_at.clone(),
            updated_at: self.updated_at.clone(),
            meta: self.meta.clone(),
            account_id: self.account_id,
            bets: duplicate_bets(&self.bets),
        }
    }
}

#[verifier::ext_equal]
pub ghost struct CreateAccountRequestView {
    pub name: Seq<char>,
    pub hostname: Seq<char>,
}

/// Payload for creating or updating an account.
pub struct CreateAccountRequest {
    pub name: String,
    pub hostname: String,
}

impl View for CreateAccountRequest {
    type V = CreateAccountRequestView;

    open spec fn view(&self) -> CreateAccountRequestView {
        CreateAccountRequestView { name: self.name@, hostname: self.hostname@ }
    }
}

/// Identifies one wager, by store key, in a bulk settlement request.
pub struct BetUpdateRequest {
    pub pid: i64,
}

/// Payload for changing one wager's settlement status.
pub struct UpdateBetStatusRequest {
    pub status: String,
}

/// A wager key together with the status text to set it to.
pub struct UpdateBetStatus {
    pub pid: i64,
    pub status: String,
}

#[verifier::ext_equal]
pub ghost struct CreateBetRequestView {
    pub id: int,
    pub selection: Seq<char>,
    pub stake: int,
    pub cost: int,
}

/// One wager in a batch-creation payload.
pub struct CreateBetRequest {
    pub id: i64,
    pub selection: String,
    pub stake: i64,
    pub cost: i64,
}

impl View for CreateBetRequest {
    type V = CreateBetRequestView;

    open spec fn view(&self) -> CreateBetRequestView {
        CreateBetRequestView {
            id: self.id as int,
            selection: self.selection@,
            stake: self.stake as int,
            cost: self.cost as int,
        }
    }
}

#[verifier::ext_equal]
pub ghost struct CreateBatchRequestView {
    pub meta: Seq<char>,
    pub bets: Seq<CreateBetRequestView>,
}

/// Payload for recording a batch of wagers. `meta` is opaque JSON text.
pub struct CreateBatchRequest {
    pub meta: String,
    pub bets: Vec<CreateBetRequest>,
}

impl View for CreateBatchRequest {
    type V = CreateBatchRequestView;

    open spec fn view(&self) -> CreateBatchRequestView {
        CreateBatchRequestView {
            meta: self.meta@,
            bets: self.bets@.map_values(|b: CreateBetRequest| b@),
        }
    }
}

/// Batch fields of an upload, without its wagers.
pub struct BatchData {
    pub meta: String,
}

/// One wager of an upload.
pub struct BetData {
    pub id: i64,
    pub selection: String,
    pub stake: i64,
    pub cost: i64,
}

/// A batch upload: batch fields plus the wagers recorded with them.
pub struct BatchUpload {
    pub batch: BatchData,
    pub bets: Vec<BetData>,
}

} // verus!
