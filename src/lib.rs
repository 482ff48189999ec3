//! Leaderboard backend core: keyset pagination over games and scores,
//! cursor tokens, sort resolution, and the validation rules of the models.

pub mod pagination;
pub mod text;
pub mod record;
pub mod cursor;
pub mod layout;
pub mod keyset;
pub mod models;
pub mod error;
pub mod auth;
pub mod repository;
