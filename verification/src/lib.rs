//! Call screening: the lifecycle of an inbound call, the routing policy,
//! callback scheduling and the screening pipeline, with machine-checked
//! contracts.
//!
//! - [`lifecycle`] keeps the calls and is the authority on their status;
//! - [`routing`] decides what becomes of a call when an action is asked for;
//! - [`scheduler`] keeps the callbacks;
//! - [`orchestrator`] writes what the transcriber and the classifier found
//!   into the calls;
//! - [`handlers`] answers the requests of the outside, one function each;
//! - [`services`] makes ready what is asked of the collaborators, and reads
//!   what they answer;
//! - [`models`] holds the records and messages, [`score`], [`timestamp`],
//!   [`identity`], [`listing`], [`text`] and [`json`] what they are made of.
//!
//! Every function says in its contract what it answers and what it changes.
//! Whatever can fail reports a [`error::ScreeningError`] and then leaves
//! every record as it was.

pub mod error;
pub mod handlers;
pub mod identity;
pub mod json;
pub mod lifecycle;
pub mod listing;
pub mod models;
pub mod orchestrator;
pub mod routing;
pub mod scheduler;
pub mod score;
pub mod services;
pub mod text;
pub mod timestamp;
