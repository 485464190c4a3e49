//! Verified core of an HTTP uptime checker: request validation, check
//! bookkeeping, alert composition and the text formats it emits.

pub mod text;
pub mod time;
pub mod models;
pub mod utils;
pub mod api;
pub mod checker;
pub mod user;
