//! Request handling for object-storage front doors that speak the Azure Blob
//! and Google Cloud Storage dialects over one shared namespace of buckets.
//!
//! Every handler is a function of the request, the moment it is served and the
//! replies that storage has given so far. It answers with the next thing to ask
//! of storage, or with the response.

pub mod azure;
pub mod clock;
pub mod codec;
pub mod dispatch;
pub mod faults;
pub mod gcs;
pub mod http;
pub mod json;
pub mod number;
pub mod order;
pub mod ownership;
pub mod readings;
pub mod registry;
pub mod store;
pub mod table;
pub mod text;
pub mod views;
pub mod world;
pub mod xml;
