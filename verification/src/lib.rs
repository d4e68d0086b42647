//! Verified core logic of the anime library manager: text primitives,
//! domain records, media naming rules, remote gateway parsing and
//! scheduling decisions.

pub mod text;
pub mod gateway;
pub mod contracts;
pub mod domain;
pub mod discovery;
pub mod remote_media;
pub mod sidecar;
pub mod player;
pub mod scan;
pub mod media;
pub mod downloads;
pub mod dyadic;
pub mod rpc;
pub mod redaction;
pub mod selection;
pub mod transcode;
pub mod playable;
pub mod automation;
pub mod model_pipeline;
