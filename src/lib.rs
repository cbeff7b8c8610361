//! Activity ingestion, credential caching and team statistics for a club
//! running competition, with every decision stated and proved.

pub mod activity_controller;
pub mod auth_controller;
pub mod calendar;
pub mod error;
pub mod health;
pub mod identity;
pub mod models;
pub mod oauth;
pub mod roster;
pub mod stats;
pub mod text;
pub mod trigger;
