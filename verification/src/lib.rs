//! A season-ticket allocation engine.
//!
//! A fixed pool of seats is expanded into one ticket per home game; members ask
//! for seats to a game, and an administrator binds available tickets to them.
//! Every operation is an executable function whose effect on the store is stated
//! as a contract over sequences of rows and proved.

pub mod auth;
pub mod config;
pub mod error;
pub mod feed;
pub mod games;
pub mod laws;
pub mod models;
pub mod promotions;
pub mod requests;
pub mod seats;
pub mod seqs;
pub mod sorting;
pub mod store;
pub mod text;
pub mod tickets;
pub mod users;
