//! A terminal dashboard for Alerta alerts.
//!
//! The library holds the verified core of the dashboard: the alert data
//! model and its urgency ordering, the sort applied after every fetch, the
//! JSON decoder for the Alerta response body, and the construction of the
//! full terminal frame that one poll cycle writes. The surrounding binary
//! performs the HTTP request, writes the frame to the terminal, and sleeps
//! between cycles.
pub mod alerts;
pub mod json;
pub mod poll;
pub mod render;
pub mod term;
