//! The rules of an ADS-B relay: it polls a service for the aircraft around a point, follows where
//! each aircraft was, tells which are about to enter a restricted area, and sends what it has to
//! its clients.
//!
//! Numbers that are doubles are carried as their bit patterns (`ieee`), and JSON values as
//! `json::Record`. Floating-point arithmetic, the network and the clock are the caller's.

pub mod aircraft;
pub mod alert;
pub mod alert_laws;
pub mod feed;
pub mod history;
pub mod history_laws;
pub mod ieee;
pub mod json;
pub mod poll;
pub mod sim;
pub mod text;
pub mod trail_laws;
