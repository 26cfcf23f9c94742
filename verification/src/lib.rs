//! A local calendar store: calendars hold events bucketed by the local day on
//! which they start, and a change log records what was created, updated or
//! deleted.

pub mod calendar;
pub mod event;
pub mod ident;
pub mod index;
pub mod laws;
pub mod log;
pub mod time;

pub use calendar::{Account, Calendar};
pub use event::Event;
pub use log::{EntryType, EventLogEntry};
pub use time::{Day, Span, Timestamp};
