//! Core library for the BUTION distributed local AI cluster.
use vstd::prelude::*;

pub mod addresses;
pub mod chat;
pub mod cluster;
pub mod control;
pub mod discovery;
pub mod hardware;
pub mod hub;
pub mod llama;
pub mod locale;
pub mod models;
pub mod network;
pub mod optimizer;
pub mod processes;
pub mod runtime;
pub mod security;
pub mod storage;
pub mod text;
pub mod tui;
pub mod update;

verus! {

/// Protocol version advertised over discovery and checked during pairing.
pub const PROTOCOL_VERSION: u16 = 1;

} // verus!
