//! Coordination logic of a distributed data-exchange fabric: the registry of
//! running queries, the coordinators of queries and fragments, the routing of
//! row batches and their form on the wire; and, beside it, the timestamp and
//! object types of columns with their readers.

pub mod binary;
pub mod channel;
pub mod coordinator;
pub mod data_type;
pub mod date;
pub mod date_time;
pub mod error;
pub mod fragment;
pub mod load;
pub mod manager;
pub mod nullable;
pub mod packet;
pub mod params;
pub mod pipeline;
pub mod pipeline_builder;
pub mod s3;
pub mod scatter;
pub mod table;
pub mod text;
pub mod timestamp;
pub mod variant;
pub mod wire;
