//! Real-time market price synchronisation: symbol catalogs, the subscribe and
//! heartbeat wire protocol, inbound frame routing, the price store and the
//! display price resolver.
pub mod catalog;
pub mod clock;
pub mod counter;
pub mod decimal;
pub mod entities;
pub mod layout;
pub mod protocol;
pub mod resolver;
pub mod store;
pub mod symbol_map;
