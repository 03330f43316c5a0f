//! A society of autonomous agents: identities, delegated capabilities, mutual
//! credit, task markets, and a signed event log replayed into a social graph.
#![allow(unused_imports)]

pub mod advice;
pub mod anchor;
pub mod authority;
pub mod base58;
pub mod bearings;
pub mod capability;
pub mod chains;
pub mod chronicle;
pub mod compaction;
pub mod confidential;
pub mod credit;
pub mod dealings;
pub mod delivery;
pub mod did;
pub mod documents;
pub mod event_log;
pub mod facts;
pub mod identity;
pub mod journal;
pub mod ledger;
pub mod legacy;
pub mod listings;
pub mod manifest;
pub mod market;
pub mod memory;
pub mod order;
pub mod outside;
pub mod protocol;
pub mod reach;
pub mod recommend;
pub mod recovery;
pub mod registry;
pub mod resume;
pub mod settlement;
pub mod society;
pub mod table;
pub mod task;
pub mod task_market;
pub mod text;
pub mod track_record;
pub mod trust;
pub mod twin;
pub mod types;
pub mod wire;
