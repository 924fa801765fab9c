//! What is made ready for, and made of the answers of, the services that
//! speak and classify.

pub mod elevenlabs;
pub mod openai;
