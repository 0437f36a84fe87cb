//! Verified core of a cognitive runtime: the eight-gate output state
//! machine, the language pipeline, memory injection and retrieval indexes,
//! causal graph structure and cycle removal, the message-bus protocol and
//! subscription table, emergence indicators and windows, the hypothesis
//! bank, the value-anchor seal and audit trail, growth stages, self
//! reflection and the two-layer memory.

pub mod bus;
pub mod causal;
pub mod clock;
pub mod dag;
pub mod dual;
pub mod error;
pub mod existential;
pub mod gates;
pub mod genuine;
pub mod history;
pub mod hypothesis;
pub mod index;
pub mod indicators;
pub mod memory;
pub mod motivation;
pub mod nlp;
pub mod nlu_keywords;
pub mod reflection;
pub mod text;
