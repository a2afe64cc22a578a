//! A verified library for a desktop file organizer: scanning decisions,
//! classification, plan building, plan validation, execution bookkeeping,
//! rollback, user habit rules and AI request sanitizing.

pub mod text;
pub mod path;
pub mod clock;
pub mod ids;
pub mod model;
pub mod classifier;
pub mod skill_engine;
pub mod platform;
pub mod planner;
pub mod hashing;
pub mod ai_gateway;
pub mod json;
pub mod executor;
pub mod rollback;
pub mod provider_http;
pub mod suggestion;
pub mod keys;
pub mod plan_dto;
pub mod batch_dto;
pub mod storage;
pub mod scanner;
pub mod commands;
pub mod laws;
