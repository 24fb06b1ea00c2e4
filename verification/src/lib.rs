//! A record-keeping service core for betting accounts: entities (accounts,
//! batches, bets), a change-notification broadcaster with bounded drop-oldest
//! subscriber queues, envelopes hydrated at commit time, and the wire framing
//! of outbound messages.

pub mod broadcast;
pub mod encode;
pub mod event;
pub mod handlers;
pub mod models;
pub mod store;
