//! The decisions behind Supabase's authentication and realtime services, verified.
//!
//! `credentials`, `auth` and `token` decide who a request comes from and what becomes of it.
//! `realtime`, `client` and `queue` keep the subscriptions of a realtime connection and say what
//! it sends. The modules that end in `_laws` state what holds of either as a whole.

pub mod auth;
pub mod auth_laws;
pub mod client;
pub mod credentials;
pub mod credentials_laws;
pub mod delivery_laws;
pub mod message_laws;
pub mod operation_laws;
pub mod queue;
pub mod realtime;
pub mod realtime_laws;
pub mod reference_laws;
pub mod text;
pub mod text_laws;
pub mod token;
