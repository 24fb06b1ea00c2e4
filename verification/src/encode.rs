//! Wire framing of outbound messages.
//!
//! Every outbound item is a frame: a type tag (the event's variant name, or
//! `"ping"` for a heartbeat) and a JSON payload. The JSON text produced for
//! each payload is pinned down byte for byte by the `json_*` specification
//! functions: objects with the fields in declaration order, strings escaped
//! as JSON demands (quote, backslash and control characters; other bytes pass
//! through as UTF-8), integers in decimal. A batch's `meta` field is already
//! JSON text and is embedded verbatim.

use vstd::prelude::*;
use vstd::string::StringSliceAdditionalSpecFns;
use vstd::utf8::encode_utf8;

use crate::event::Envelope;
use crate::event::Event;
use crate::event::EventView;
use crate::event::event_type;
use crate::models::Account;
use crate::models::AccountView;
use crate::models::BatchResponse;
use crate::models::BatchResponseView;
use crate::models::Bet;
use crate::models::BetView;
use crate::models::status_name;

verus! {

/// The bytes of one hexadecimal digit, lower case.
pub open spec fn hex_digit(d: int) -> u8 {
    if d < 10 {
        (48 + d) as u8
    } else {
        (87 + d) as u8
    }
}

/// How one byte of a string appears inside a JSON string literal.
pub open spec fn esc_byte(b: u8) -> Seq<u8> {
    if b == 34 {
        seq![92u8, 34u8]
    } else if b == 92 {
        seq![92u8, 92u8]
    } else if b == 10 {
        seq![92u8, 110u8]
    } else if b == 13 {
        seq![92u8, 114u8]
    } else if b == 9 {
        seq![92u8, 116u8]
    } else if b < 32 {
        seq![92u8, 117u8, 48u8, 48u8, hex_digit(b as int / 16), hex_digit(b as int % 16)]
    } else {
        seq![b]
    }
}

/// A byte sequence escaped for use inside a JSON string literal.
pub open spec fn escaped(s: Seq<u8>) -> Seq<u8>
    decreases s.len(),
{
    if s.len() == 0 {
        Seq::empty()
    } else {
        esc_byte(s[0]) + escaped(s.drop_first())
    }
}

/// A JSON string literal: quotes around the escaped UTF-8 bytes of the text.
pub open spec fn json_str(s: Seq<char>) -> Seq<u8> {
    seq![34u8] + escaped(encode_utf8(s)) + seq![34u8]
}

/// The decimal digits of a non-negative number.
pub open spec fn dec_digits(n: nat) -> Seq<u8>
    decreases n,
{
    if n < 10 {
        seq![(48 + n) as u8]
    } else {
        dec_digits(n / 10) + seq![(48 + n % 10) as u8]
    }
}

/// A JSON integer, with a leading minus sign when negative.
pub open spec fn json_int(n: int) -> Seq<u8> {
    if n >= 0 {
        dec_digits(n as nat)
    } else {
        seq![45u8] + dec_digits((-n) as nat)
    }
}

pub open spec fn json_bool(b: bool) -> Seq<u8> {
    if b {
        "true".spec_bytes()
    } else {
        "false".spec_bytes()
    }
}

/// The JSON object for an account snapshot.
pub open spec fn json_account(a: AccountView) -> Seq<u8> {
    "{\"id\":".spec_bytes() + json_int(a.id) + ",\"name\":".spec_bytes() + json_str(a.name)
        + ",\"hostname\":".spec_bytes() + json_str(a.hostname) + ",\"created_at\":".spec_bytes()
        + json_str(a.created_at) + ",\"updated_at\":".spec_bytes() + json_str(a.updated_at)
        + "}".spec_bytes()
}

/// The JSON object for a wager snapshot.
pub open spec fn json_bet(t: BetView) -> Seq<u8> {
    "{\"pid\":".spec_bytes() + json_int(t.pid) + ",\"id\":".spec_bytes() + json_int(t.id)
        + ",\"selection\":".spec_bytes() + json_str(t.selection) + ",\"stake\":".spec_bytes()
        + json_int(t.stake) + ",\"cost\":".spec_bytes() + json_int(t.cost)
        + ",\"status\":".spec_bytes() + json_str(status_name(t.status))
        + ",\"batch_id\":".spec_bytes() + json_int(t.batch_id) + "}".spec_bytes()
}

/// The comma-separated wager objects of a JSON array.
pub open spec fn json_bet_items(s: Seq<BetView>) -> Seq<u8>
    decreases s.len(),
{
    if s.len() == 0 {
        Seq::empty()
    } else if s.len() == 1 {
        json_bet(s[0])
    } else {
        json_bet_items(s.drop_last()) + seq![44u8] + json_bet(s.last())
    }
}

/// The JSON array of wager snapshots.
pub open spec fn json_bets(s: Seq<BetView>) -> Seq<u8> {
    seq![91u8] + json_bet_items(s) + seq![93u8]
}

/// The JSON object for a hydrated batch: its fields plus every one of its
/// wagers. `meta` is embedded verbatim, being JSON text already.
pub open spec fn json_batch(b: BatchResponseView) -> Seq<u8> {
    "{\"id\":".spec_bytes() + json_int(b.id) + ",\"completed\":".spec_bytes() + json_bool(
        b.completed,
    ) + ",\"created_at\":".spec_bytes() + json_str(b.created_at) + ",\"updated_at\":".spec_bytes()
        + json_str(b.updated_at) + ",\"meta\":".spec_bytes() + encode_utf8(b.meta)
        + ",\"account_id\":".spec_bytes() + json_int(b.account_id) + ",\"bets\":".spec_bytes()
        + json_bets(b.bets) + "}".spec_bytes()
}

/// The JSON payload carried by each event variant.
pub open spec fn event_data(e: EventView) -> Seq<u8> {
    match e {
        EventView::AccountCreated { account } => json_account(account),
        EventView::AccountUpdated { account } => json_account(account),
        EventView::AccountDeleted { account_id } => "{\"id\":".spec_bytes() + json_int(account_id)
            + "}".spec_bytes(),
        EventView::BatchCreated { batch } => json_batch(batch),
        EventView::BatchCompleted { batch_id, account_id } => "{\"batch_id\":".spec_bytes()
            + json_int(batch_id) + ",\"account_id\":".spec_bytes() + json_int(account_id)
            + "}".spec_bytes(),
        EventView::BetStatusChanged { account_id, bet } => "{\"account_id\":".spec_bytes()
            + json_int(account_id) + ",\"bet\":".spec_bytes() + json_bet(bet) + "}".spec_bytes(),
        EventView::BatchBetsUpdated { batch_id, account_id, bets } => "{\"batch_id\":".spec_bytes()
            + json_int(batch_id) + ",\"account_id\":".spec_bytes() + json_int(account_id)
            + ",\"bets\":".spec_bytes() + json_bets(bets) + "}".spec_bytes(),
    }
}

/// Appends a literal chunk of wire text.
fn push_lit(out: &mut Vec<u8>, s: &str)
    ensures
        final(out)@ == old(out)@ + s.spec_bytes(),
{
    out.extend_from_slice(s.as_bytes());
    proof {
        assert(out@ =~= old(out)@ + s.spec_bytes());
    }
}

/// Appends the decimal digits of `n`.
fn push_u64(out: &mut Vec<u8>, n: u64)
    ensures
        final(out)@ == old(out)@ + dec_digits(n as nat),
    decreases n,
{
    if n < 10 {
        out.push(48 + n as u8);
        proof {
            assert(out@ =~= old(out)@ + dec_digits(n as nat));
        }
    } else {
        push_u64(out, n / 10);
        out.push(48 + (n % 10) as u8);
        proof {
            assert(out@ =~= old(out)@ + (dec_digits(n as nat / 10) + seq![
                (48 + n as nat % 10) as u8,
            ]));
        }
    }
}

/// Appends a JSON integer.
fn push_i64(out: &mut Vec<u8>, n: i64)
    ensures
        final(out)@ == old(out)@ + json_int(n as int),
{
    if n >= 0 {
        push_u64(out, n as u64);
    } else {
        out.push(45);
        let m: u64 = (-(n as i128)) as u64;
        proof {
            assert(m as nat == (-(n as int)) as nat);
        }
        push_u64(out, m);
        proof {
            assert(out@ =~= old(out)@ + (seq![45u8] + dec_digits((-(n as int)) as nat)));
        }
    }
}

/// Escaping one more byte appends its escape sequence.
proof fn lemma_escaped_push(s: Seq<u8>, x: u8)
    ensures
        escaped(s.push(x)) == escaped(s) + esc_byte(x),
    decreases s.len(),
{
    if s.len() == 0 {
        assert(s.push(x).drop_first() =~= s);
        assert(escaped(s.push(x)) =~= escaped(s) + esc_byte(x));
    } else {
        assert(s.push(x).drop_first() =~= s.drop_first().push(x));
        lemma_escaped_push(s.drop_first(), x);
        assert(s.push(x)[0] == s[0]);
        assert(esc_byte(s[0]) + (escaped(s.drop_first()) + esc_byte(x)) =~= (esc_byte(s[0])
            + escaped(s.drop_first())) + esc_byte(x));
    }
}

/// Appends the escape sequence of one byte.
fn push_escaped_byte(out: &mut Vec<u8>, b: u8)
    ensures
        final(out)@ == old(out)@ + esc_byte(b),
{
    if b == 34 {
        out.push(92);
        out.push(34);
    } else if b == 92 {
        out.push(92);
        out.push(92);
    } else if b == 10 {
        out.push(92);
        out.push(110);
    } else if b == 13 {
        out.push(92);
        out.push(114);
    } else if b == 9 {
        out.push(92);
        out.push(116);
    } else if b < 32 {
        out.push(92);
        out.push(117);
        out.push(48);
        out.push(48);
        let hi = b / 16;
        let lo = b % 16;
        out.push(if hi < 10 { 48 + hi } else { 87 + hi });
        out.push(if lo < 10 { 48 + lo } else { 87 + lo });
    } else {
        out.push(b);
    }
    proof {
        assert(out@ =~= old(out)@ + esc_byte(b));
    }
}

/// Appends a JSON string literal for the text `s`.
fn push_json_str(out: &mut Vec<u8>, s: &str)
    ensures
        final(out)@ == old(out)@ + json_str(s@),
{
    let ghost base = old(out)@;
    out.push(34);
    let bytes = s.as_bytes();
    let n = bytes.len();
    let mut i: usize = 0;
    while i < n
        invariant
            i <= n,
            n == bytes@.len(),
            bytes@ == s.spec_bytes(),
            out@ == base + seq![34u8] + escaped(bytes@.take(i as int)),
        decreases n - i,
    {
        proof {
            assert(bytes@.take(i as int).push(bytes@[i as int]) =~= bytes@.take(i as int + 1));
            lemma_escaped_push(bytes@.take(i as int), bytes@[i as int]);
        }
        push_escaped_byte(out, bytes[i]);
        proof {
            assert(out@ =~= base + seq![34u8] + escaped(bytes@.take(i as int + 1)));
        }
        i = i + 1;
    }
    out.push(34);
    proof {
        assert(bytes@.take(n as int) =~= bytes@);
        assert(s.spec_bytes() == encode_utf8(s@));
        assert(out@ =~= base + (seq![34u8] + escaped(encode_utf8(s@)) + seq![34u8]));
    }
}

/// The JSON object for an account snapshot.
pub fn account_json(a: &Account) -> (r: Vec<u8>)
    ensures
        r@ == json_account(a@),
{
    let mut out: Vec<u8> = Vec::new();
    push_lit(&mut out, "{\"id\":");
    push_i64(&mut out, a.id);
    push_lit(&mut out, ",\"name\":");
    push_json_str(&mut out, a.name.as_str());
    push_lit(&mut out, ",\"hostname\":");
    push_json_str(&mut out, a.hostname.as_str());
    push_lit(&mut out, ",\"created_at\":");
    push_json_str(&mut out, a.created_at.as_str());
    push_lit(&mut out, ",\"updated_at\":");
    push_json_str(&mut out, a.updated_at.as_str());
    push_lit(&mut out, "}");
    proof {
        assert(out@ =~= json_account(a@));
    }
    out
}

/// The JSON object for a wager snapshot.
pub fn bet_json(t: &Bet) -> (r: Vec<u8>)
    ensures
        r@ == json_bet(t@),
{
    let mut out: Vec<u8> = Vec::new();
    push_lit(&mut out, "{\"pid\":");
    push_i64(&mut out, t.pid);
    push_lit(&mut out, ",\"id\":");
    push_i64(&mut out, t.id);
    push_lit(&mut out, ",\"selection\":");
    push_json_str(&mut out, t.selection.as_str());
    push_lit(&mut out, ",\"stake\":");
    push_i64(&mut out, t.stake);
    push_lit(&mut out, ",\"cost\":");
    push_i64(&mut out, t.cost);
    push_lit(&mut out, ",\"status\":");
    push_json_str(&mut out, t.status.as_str());
    push_lit(&mut out, ",\"batch_id\":");
    push_i64(&mut out, t.batch_id);
    push_lit(&mut out, "}");
    proof {
        assert(out@ =~= json_bet(t@));
    }
    out
}

/// The JSON array of wager snapshots.
pub fn bets_json(bets: &Vec<Bet>) -> (r: Vec<u8>)
    ensures
        r@ == json_bets(bets@.map_values(|t: Bet| t@)),
{
    let ghost tv = bets@.map_values(|t: Bet| t@);
    let mut out: Vec<u8> = Vec::new();
    out.push(91);
    let n = bets.len();
    let mut i: usize = 0;
    while i < n
        invariant
            i <= n,
            n == tv.len(),
            tv == bets@.map_values(|t: Bet| t@),
            out@ == seq![91u8] + json_bet_items(tv.take(i as int)),
        decreases n - i,
    {
        if i > 0 {
            out.push(44);
        }
        let mut item = bet_json(&bets[i]);
        out.append(&mut item);
        proof {
            let t1 = tv.take(i as int + 1);
            assert(t1.drop_last() =~= tv.take(i as int));
            assert(t1.last() == tv[i as int]);
            assert(tv[i as int] == bets@[i as int]@);
            if i == 0 {
                assert(out@ =~= seq![91u8] + json_bet_items(t1));
            } else {
                assert(out@ =~= seq![91u8] + (json_bet_items(tv.take(i as int)) + seq![44u8]
                    + json_bet(tv[i as int])));
            }
        }
        i = i + 1;
    }
    out.push(93);
    proof {
        assert(tv.take(n as int) =~= tv);
        assert(out@ =~= seq![91u8] + json_bet_items(tv) + seq![93u8]);
    }
    out
}

/// The JSON object for a hydrated batch.
pub fn batch_json(b: &BatchResponse) -> (r: Vec<u8>)
    ensures
        r@ == json_batch(b@),
{
    let mut out: Vec<u8> = Vec::new();
    push_lit(&mut out, "{\"id\":");
    push_i64(&mut out, b.id);
    push_lit(&mut out, ",\"completed\":");
    if b.completed {
        push_lit(&mut out, "true");
    } else {
        push_lit(&mut out, "false");
    }
    push_lit(&mut out, ",\"created_at\":");
    push_json_str(&mut out, b.created_at.as_str());
    push_lit(&mut out, ",\"updated_at\":");
    push_json_str(&mut out, b.updated_at.as_str());
    push_lit(&mut out, ",\"meta\":");
    out.extend_from_slice(b.meta.as_str().as_bytes());
    push_lit(&mut out, ",\"account_id\":");
    push_i64(&mut out, b.account_id);
    push_lit(&mut out, ",\"bets\":");
    let mut arr = bets_json(&b.bets);
    out.append(&mut arr);
    push_lit(&mut out, "}");
    proof {
        assert(out@ =~= json_batch(b@));
    }
    out
}

/// The JSON payload of one event.
pub fn event_json(e: &Event) -> (r: Vec<u8>)
    ensures
        r@ == event_data(e@),
{
    match e {
        Event::AccountCreated { account } => account_json(account),
        Event::AccountUpdated { account } => account_json(account),
        Event::AccountDeleted { account_id } => {
            let mut out: Vec<u8> = Vec::new();
            push_lit(&mut out, "{\"id\":");
            push_i64(&mut out, *account_id);
            push_lit(&mut out, "}");
            proof {
                assert(out@ =~= event_data(e@));
            }
            out
        },
        Event::BatchCreated { batch } => batch_json(batch),
        Event::BatchCompleted { batch_id, account_id } => {
            let mut out: Vec<u8> = Vec::new();
            push_lit(&mut out, "{\"batch_id\":");
            push_i64(&mut out, *batch_id);
            push_lit(&mut out, ",\"account_id\":");
            push_i64(&mut out, *account_id);
            push_lit(&mut out, "}");
            proof {
                assert(out@ =~= event_data(e@));
            }
            out
        },
        Event::BetStatusChanged { account_id, bet } => {
            let mut out: Vec<u8> = Vec::new();
            push_lit(&mut out, "{\"account_id\":");
            push_i64(&mut out, *account_id);
            push_lit(&mut out, ",\"bet\":");
            let mut obj = bet_json(bet);
            out.append(&mut obj);
            push_lit(&mut out, "}");
            proof {
                assert(out@ =~= event_data(e@));
            }
            out
        },
        Event::BatchBetsUpdated { batch_id, account_id, bets } => {
            let mut out: Vec<u8> = Vec::new();
            push_lit(&mut out, "{\"batch_id\":");
            push_i64(&mut out, *batch_id);
            push_lit(&mut out, ",\"account_id\":");
            push_i64(&mut out, *account_id);
            push_lit(&mut out, ",\"bets\":");
            let mut arr = bets_json(bets);
            out.append(&mut arr);
            push_lit(&mut out, "}");
            proof {
                assert(out@ =~= event_data(e@));
            }
            out
        },
    }
}

#[verifier::ext_equal]
pub ghost struct SseFrameView {
    pub event: Seq<char>,
    pub data: Seq<u8>,
}

/// One framed outbound message: the type tag and the payload bytes the
/// transport writes out.
pub struct SseFrame {
    pub event: String,
    pub data: Vec<u8>,
}

impl View for SseFrame {
    type V = SseFrameView;

    open spec fn view(&self) -> SseFrameView {
        SseFrameView { event: self.event@, data: self.data@ }
    }
}

/// Frames one envelope's event: the variant's wire name as the type tag and
/// its JSON payload as the data.
pub fn sse_frame(env: &Envelope) -> (r: SseFrame)
    ensures
        r@.event == event_type(env@.event),
        r@.data == event_data(env@.event),
{
    SseFrame { event: env.event.wire_name().to_owned(), data: event_json(&env.event) }
}

/// Frames one heartbeat tick carrying the caller's timestamp text; the tick
/// bypasses every event queue.
pub fn ping_frame(now: &str) -> (r: SseFrame)
    ensures
        r@.event == "ping"@,
        r@.data == now.spec_bytes(),
{
    let mut data: Vec<u8> = Vec::new();
    data.extend_from_slice(now.as_bytes());
    proof {
        assert(data@ =~= now.spec_bytes());
    }
    SseFrame { event: "ping".to_owned(), data }
}

} // verus!
