//! Change-notification envelopes.
//!
//! An [`Event`] is one of a closed set of variants, one per state transition
//! the service recognizes. Every variant that refers to a live entity embeds
//! that entity's complete state as of the commit that raised the event, so a
//! subscriber never has to re-query the store (and can never observe state
//! newer or older than the one the event describes). Deletion carries only the
//! identifier of the entity that is gone.
//!
//! An [`Envelope`] is an event stamped with the strictly increasing sequence
//! number the broadcaster assigned at publish time; the number exists for
//! ordering diagnostics only, never for replay.

use vstd::prelude::*;

use crate::models::Account;
use crate::models::AccountView;
use crate::models::BatchResponse;
use crate::models::BatchResponseView;
use crate::models::Bet;
use crate::models::BetView;
use crate::models::duplicate_bets;

verus! {

#[verifier::ext_equal]
pub ghost enum EventView {
    AccountCreated { account: AccountView },
    AccountUpdated { account: AccountView },
    AccountDeleted { account_id: int },
    BatchCreated { batch: BatchResponseView },
    BatchCompleted { batch_id: int, account_id: int },
    BetStatusChanged { account_id: int, bet: BetView },
    BatchBetsUpdated { batch_id: int, account_id: int, bets: Seq<BetView> },
}

/// One state transition, carrying the affected entity's state at commit time.
pub enum Event {
    AccountCreated { account: Account },
    AccountUpdated { account: Account },
    AccountDeleted { account_id: i64 },
    BatchCreated { batch: BatchResponse },
    BatchCompleted { batch_id: i64, account_id: i64 },
    BetStatusChanged { account_id: i64, bet: Bet },
    BatchBetsUpdated { batch_id: i64, account_id: i64, bets: Vec<Bet> },
}

impl View for Event {
    type V = EventView;

    open spec fn view(&self) -> EventView {
        match self {
            Event::AccountCreated { account } => EventView::AccountCreated { account: account@ },
            Event::AccountUpdated { account } => EventView::AccountUpdated { account: account@ },
            Event::AccountDeleted { account_id } => EventView::AccountDeleted {
                account_id: *account_id as int,
            },
            Event::BatchCreated { batch } => EventView::BatchCreated { batch: batch@ },
            Event::BatchCompleted { batch_id, account_id } => EventView::BatchCompleted {
                batch_id: *batch_id as int,
                account_id: *account_id as int,
            },
            Event::BetStatusChanged { account_id, bet } => EventView::BetStatusChanged {
                account_id: *account_id as int,
                bet: bet@,
            },
            Event::BatchBetsUpdated { batch_id, account_id, bets } => EventView::BatchBetsUpdated {
                batch_id: *batch_id as int,
                account_id: *account_id as int,
                bets: bets@.map_values(|b: Bet| b@),
            },
        }
    }
}

impl Event {
    /// An independent copy with the same view.
    pub fn duplicate(&self) -> (r: Event)
        ensures
            r@ == self@,
    {
        match self {
            Event::AccountCreated { account } => Event::AccountCreated {
                account: account.duplicate(),
            },
            Event::AccountUpdated { account } => Event::AccountUpdated {
                account: account.duplicate(),
            },
            Event::AccountDeleted { account_id } => Event::AccountDeleted {
                account_id: *account_id,
            },
            Event::BatchCreated { batch } => Event::BatchCreated { batch: batch.duplicate() },
            Event::BatchCompleted { batch_id, account_id } => Event::BatchCompleted {
                batch_id: *batch_id,
                account_id: *account_id,
            },
            Event::BetStatusChanged { account_id, bet } => Event::BetStatusChanged {
                account_id: *account_id,
                bet: bet.duplicate(),
            },
            Event::BatchBetsUpdated { batch_id, account_id, bets } => Event::BatchBetsUpdated {
                batch_id: *batch_id,
                account_id: *account_id,
                bets: duplicate_bets(bets),
            },
        }
    }
}

/// The wire name of an event's variant, used as the outbound message's type
/// tag.
pub open spec fn event_type(e: EventView) -> Seq<char> {
    match e {
        EventView::AccountCreated { .. } => "account_created"@,
        EventView::AccountUpdated { .. } => "account_updated"@,
        EventView::AccountDeleted { .. } => "account_deleted"@,
        EventView::BatchCreated { .. } => "batch_created"@,
        EventView::BatchCompleted { .. } => "batch_submitted"@,
        EventView::BetStatusChanged { .. } => "bet_status_updated"@,
        EventView::BatchBetsUpdated { .. } => "batch_updated"@,
    }
}

impl Event {
    /// The wire name of this event's variant.
    pub fn wire_name(&self) -> (r: &'static str)
        ensures
            r@ == event_type(self@),
    {
        match self {
            Event::AccountCreated { .. } => "account_created",
            Event::AccountUpdated { .. } => "account_updated",
            Event::AccountDeleted { .. } => "account_deleted",
            Event::BatchCreated { .. } => "batch_created",
            Event::BatchCompleted { .. } => "batch_submitted",
            Event::BetStatusChanged { .. } => "bet_status_updated",
            Event::BatchBetsUpdated { .. } => "batch_updated",
        }
    }
}

#[verifier::ext_equal]
pub ghost struct BrokerEventView {
    pub pk: Option<int>,
    pub id: Option<int>,
    pub name: Option<Seq<char>>,
    pub hostname: Option<Seq<char>>,
    pub batch_id: Option<int>,
    pub bet_id: Option<int>,
    pub event: Seq<char>,
}

/// The flat identity header of an event: the keys it concerns plus its type
/// name, for diagnostics and compact wire clients.
pub struct BrokerEvent {
    pub pk: Option<i64>,
    pub id: Option<i64>,
    pub name: Option<String>,
    pub hostname: Option<String>,
    pub batch_id: Option<i64>,
    pub bet_id: Option<i64>,
    pub event: String,
}

pub open spec fn opt_i64_view(o: Option<i64>) -> Option<int> {
    match o {
        Option::Some(v) => Option::Some(v as int),
        Option::None => Option::None,
    }
}

pub open spec fn opt_string_view(o: Option<String>) -> Option<Seq<char>> {
    match o {
        Option::Some(s) => Option::Some(s@),
        Option::None => Option::None,
    }
}

impl View for BrokerEvent {
    type V = BrokerEventView;

    open spec fn view(&self) -> BrokerEventView {
        BrokerEventView {
            pk: opt_i64_view(self.pk),
            id: opt_i64_view(self.id),
            name: opt_string_view(self.name),
            hostname: opt_string_view(self.hostname),
            batch_id: opt_i64_view(self.batch_id),
            bet_id: opt_i64_view(self.bet_id),
            event: self.event@,
        }
    }
}

/// The identity header that belongs to an event: which keys it concerns, the
/// account snapshot fields where the event carries one, and its type name.
pub open spec fn broker_event_view_of(e: EventView) -> BrokerEventView {
    match e {
        EventView::AccountCreated { account } => BrokerEventView {
            pk: Option::Some(account.id),
            id: Option::Some(account.id),
            name: Option::Some(account.name),
            hostname: Option::Some(account.hostname),
            batch_id: Option::None,
            bet_id: Option::None,
            event: "account_created"@,
        },
        EventView::AccountUpdated { account } => BrokerEventView {
            pk: Option::Some(account.id),
            id: Option::Some(account.id),
            name: Option::Some(account.name),
            hostname: Option::Some(account.hostname),
            batch_id: Option::None,
            bet_id: Option::None,
            event: "account_updated"@,
        },
        EventView::AccountDeleted { account_id } => BrokerEventView {
            pk: Option::Some(account_id),
            id: Option::Some(account_id),
            name: Option::None,
            hostname: Option::None,
            batch_id: Option::None,
            bet_id: Option::None,
            event: "account_deleted"@,
        },
        EventView::BatchCreated { batch } => BrokerEventView {
            pk: Option::Some(batch.id),
            id: Option::Some(batch.account_id),
            name: Option::None,
            hostname: Option::None,
            batch_id: Option::Some(batch.id),
            bet_id: Option::None,
            event: "batch_created"@,
        },
        EventView::BatchCompleted { batch_id, account_id } => BrokerEventView {
            pk: Option::None,
            id: Option::Some(account_id),
            name: Option::None,
            hostname: Option::None,
            batch_id: Option::Some(batch_id),
            bet_id: Option::None,
            event: "batch_submitted"@,
        },
        EventView::BetStatusChanged { account_id, bet } => BrokerEventView {
            pk: Option::Some(bet.pid),
            id: Option::Some(account_id),
            name: Option::None,
            hostname: Option::None,
            batch_id: Option::Some(bet.batch_id),
            bet_id: Option::Some(bet.pid),
            event: "bet_status_updated"@,
        },
        EventView::BatchBetsUpdated { batch_id, account_id, .. } => BrokerEventView {
            pk: Option::Some(batch_id),
            id: Option::Some(account_id),
            name: Option::None,
            hostname: Option::None,
            batch_id: Option::Some(batch_id),
            bet_id: Option::None,
            event: "batch_updated"@,
        },
    }
}

/// Builds the identity header of an event.
pub fn broker_event_of(e: &Event) -> (r: BrokerEvent)
    ensures
        r@ == broker_event_view_of(e@),
{
    match e {
        Event::AccountCreated { account } => BrokerEvent {
            pk: Option::Some(account.id),
            id: Option::Some(account.id),
            name: Option::Some(account.name.clone()),
            hostname: Option::Some(account.hostname.clone()),
            batch_id: Option::None,
            bet_id: Option::None,
            event: e.wire_name().to_owned(),
        },
        Event::AccountUpdated { account } => BrokerEvent {
            pk: Option::Some(account.id),
            id: Option::Some(account.id),
            name: Option::Some(account.name.clone()),
            hostname: Option::Some(account.hostname.clone()),
            batch_id: Option::None,
            bet_id: Option::None,
            event: e.wire_name().to_owned(),
        },
        Event::AccountDeleted { account_id } => BrokerEvent {
            pk: Option::Some(*account_id),
            id: Option::Some(*account_id),
            name: Option::None,
            hostname: Option::None,
            batch_id: Option::None,
            bet_id: Option::None,
            event: e.wire_name().to_owned(),
        },
        Event::BatchCreated { batch } => BrokerEvent {
            pk: Option::Some(batch.id),
            id: Option::Some(batch.account_id),
            name: Option::None,
            hostname: Option::None,
            batch_id: Option::Some(batch.id),
            bet_id: Option::None,
            event: e.wire_name().to_owned(),
        },
        Event::BatchCompleted { batch_id, account_id } => BrokerEvent {
            pk: Option::None,
            id: Option::Some(*account_id),
            name: Option::None,
            hostname: Option::None,
            batch_id: Option::Some(*batch_id),
            bet_id: Option::None,
            event: e.wire_name().to_owned(),
        },
        Event::BetStatusChanged { account_id, bet } => BrokerEvent {
            pk: Option::Some(bet.pid),
            id: Option::Some(*account_id),
            name: Option::None,
            hostname: Option::None,
            batch_id: Option::Some(bet.batch_id),
            bet_id: Option::Some(bet.pid),
            event: e.wire_name().to_owned(),
        },
        Event::BatchBetsUpdated { batch_id, account_id, .. } => BrokerEvent {
            pk: Option::Some(*batch_id),
            id: Option::Some(*account_id),
            name: Option::None,
            hostname: Option::None,
            batch_id: Option::Some(*batch_id),
            bet_id: Option::None,
            event: e.wire_name().to_owned(),
        },
    }
}

#[verifier::ext_equal]
pub ghost struct EnvelopeView {
    pub seq: int,
    pub event: EventView,
}

/// An event stamped with the broadcaster-assigned sequence number.
pub struct Envelope {
    pub seq: u64,
    pub event: Event,
}

impl View for Envelope {
    type V = EnvelopeView;

    open spec fn view(&self) -> EnvelopeView {
        EnvelopeView { seq: self.seq as int, event: self.event@ }
    }
}

impl Envelope {
    /// An independent copy with the same view.
    pub fn duplicate(&self) -> (r: Envelope)
        ensures
            r@ == self@,
    {
        Envelope { seq: self.seq, event: self.event.duplicate() }
    }
}

} // verus!
