use vstd::prelude::*;

pub mod ack_registry;
pub mod cache;
pub mod cluster_storage;
pub mod config;
pub mod envelope;
pub mod group_offset;
pub mod keyed;
pub mod message_log;
pub mod metadata;
pub mod packet;
pub mod pkid;
pub mod push_worker;
pub mod qos;
pub mod qos_protocol;
pub mod response_packet;
pub mod subscription_table;
pub mod supervisor;

verus! {

} // verus!
