//! A bot that plays by rules rather than by weights, and the pieces of a
//! client that show what it is doing.

pub mod aim;
pub mod beat;
pub mod bot;
pub mod breed;
pub mod builds;
pub mod catalog;
pub mod dice;
pub mod doing;
pub mod field;
pub mod fiend;
pub mod forest;
pub mod lane;
pub mod memory;
pub mod mind;
pub mod ask;
pub mod numbers;
pub mod plan;
pub mod shop;
pub mod slots;
pub mod study;
pub mod swiss;
pub mod sylla;
pub mod policy;
pub mod proto;
pub mod replay;
pub mod want;
