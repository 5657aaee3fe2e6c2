//! A typed layer between application code and a document datastore:
//! a value model, a parameter binder, query preparation and completion,
//! and a decoder that turns raw responses back into records.

pub mod binder;
pub mod decode;
pub mod error;
pub mod query;
pub mod record;
pub mod task;
pub mod value;
