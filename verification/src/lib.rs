//! Message-forwarding bridge between chat platforms: the verified core.

pub mod bridge;
pub mod clip;
pub mod config;
pub mod controller;
pub mod cq;
pub mod decision_laws;
pub mod discord;
pub mod error;
pub mod fanout;
pub mod laws;
pub mod matrix;
pub mod message;
pub mod num;
pub mod onebot;
pub mod outgoing;
pub mod panel;
pub mod recall;
pub mod store;
pub mod telegram;
pub mod text;
