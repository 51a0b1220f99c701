//! Background coordination for a clinic desktop application: deciding when
//! medication reminders, missed-dose alerts and daily summaries are due, and
//! keeping a bounded, duplicate-free queue of records awaiting upload.
pub mod clock;
pub mod models;
pub mod notification;
pub mod sync;
