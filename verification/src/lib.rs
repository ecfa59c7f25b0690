//! Core state and admission logic of an RTPS (Real-Time Publish-Subscribe)
//! protocol engine: sequence-number bookkeeping for matched remote readers,
//! history-cache retention, event-loop dispatch decisions, and the
//! access-control admission layer.

pub mod access_control;
pub mod bit_set;
pub mod event_loop;
pub mod guid;
pub mod history_cache;
pub mod locator;
pub mod qos;
pub mod rtps_reader_proxy;
pub mod sequence_number;
pub mod submessage;
