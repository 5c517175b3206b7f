//! A small election library: phase-gated poll coordination, a pluggable
//! tally engine (plurality and approval voting), and the line-oriented wire
//! protocol that the poll server and its voter clients speak.

pub mod poll;
pub mod protocol;
pub mod voting_system;
