//! FanClash: the rules of a football fan-betting service, verified.
//!
//! The crate holds the decisions of the service: how phone numbers are
//! normalised and validated, how PINs are checked, how votes are counted and
//! scored, how bets and pledges are validated and settled, how channel
//! payouts and activity scores are derived, how fixtures move between
//! statuses, and how list endpoints paginate. Storage, HTTP and messaging
//! live outside the crate and hand it plain values.

pub mod text;
pub mod config;
pub mod errors;
pub mod votes;
pub mod money;
pub mod bets;
pub mod ids;
pub mod wagers;
pub mod pledges;
pub mod sub_fixture;
pub mod posts;
pub mod likes;
pub mod channels;
pub mod auth;
pub mod mpesa;
pub mod games;
pub mod lineups;
pub mod order;
pub mod comments;
pub mod comrades;
pub mod bet_queries;
pub mod direct_chat;
pub mod timeline;
