//! A card-dealing library for a spaced-repetition service.
//!
//! The heart of the library is the leveled allocation algorithm
//! ([`dealer::get_user_cards`]): given a pool of cards, each carrying a
//! mastery level from 1 to 5, it selects a bounded subset that honours fixed
//! per-level quotas, carrying any shortfall forward and padding from the
//! highest levels downward. Around it stand the positional-argument builder
//! used for batch inserts ([`argumenter::Argumenter`]), the validation and
//! statement planning for stored answers ([`answers`]), and the decay
//! scheduler's decisions ([`ranker`]): configuration validation, cutoff
//! arithmetic and the bulk demotion rule.

pub mod argumenter;
pub mod answers;
pub mod config;
pub mod dealer;
pub mod decimal;
pub mod ranker;
