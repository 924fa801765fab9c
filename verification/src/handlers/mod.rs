//! The requests that the library answers, one function for each.

pub mod call;
pub mod callback;
pub mod health;
pub mod voice;
