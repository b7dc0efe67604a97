//! Visitor accounting engine for a web ring of member domains.
//!
//! The library tracks deduplicated visits (badge, card, icon, favicon
//! impressions and referrals) per member, scores each member's current
//! "tendency" against the network-wide daily average, plans the periodic
//! flush of counters to durable storage, detects calendar-day rollover,
//! and broadcasts masked visit events to subscribers.

pub mod clock;
pub mod context;
pub mod counters;
pub mod dedup;
pub mod events;
pub mod laws;
pub mod mask;
pub mod member;
pub mod model;
pub mod rank;
pub mod referrer;
pub mod score;
