//! Linguistic core of a phonetic input method for the Tamil script.
//!
//! The crate turns a stream of key tokens into composed syllabic text:
//! a character classifier groups Tamil letters by phonetic class, a
//! layout resolver composes pending consonants with incoming vowels, a
//! dictionary offers frequency- and recency-ranked completions, a sandhi
//! engine proposes joined forms at word boundaries, and a keyboard state
//! machine sequences all of them.

pub mod dictionary;
pub mod engine;
pub mod layout;
pub mod ranking;
pub mod sandhi;
pub mod tamil;
mod text;

pub use dictionary::Dictionary;
pub use engine::KeyboardEngine;
pub use sandhi::AdhanSandhi;
