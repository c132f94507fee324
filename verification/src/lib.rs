//! A verified core of a TDS (Tabular Data Stream) client: readers for the
//! little-endian fields of the wire format, token spans, row framing,
//! bulk-load encoding and the decisions of the session state machine.

pub mod alt_metadata;
pub mod bulk_load;
pub mod colmetadata;
pub mod data_classification;
pub mod decode;
pub mod env_change;
pub mod error;
pub mod fed_auth;
pub mod fed_auth_info;
pub mod prelogin;
pub mod rows;
pub mod session;
pub mod session_status;
pub mod sql_batch;
pub mod sspi;
pub mod stream;
pub mod text;
pub mod token;
pub mod utils;
pub mod vector;
