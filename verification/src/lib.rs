//! The decision-making core of matrixHook, a webhook bridge for Matrix.
//!
//! Any user on the homeserver can send the bot a direct message, create a named
//! **hook**, and receive its id. Posting to `…/<id>` (or `…/<id>/<message>`) then
//! delivers that message into the Matrix room where the hook was created.
//!
//! The crate performs no input or output. It holds what the service (`hookd`), the
//! bootstrap tool (`hook-admin`) and the end-to-end self-test (`fake-human`) decide
//! and compute:
//! - [`command`], [`bot`]: the chat commands, and how each is carried out;
//! - [`web`]: what the webhost answers;
//! - [`clients`], [`sender`], [`client`]: the users that hooks deliver as;
//! - [`store`], [`query`], [`notes`]: hooks and notes;
//! - [`appservice`], [`admin`], [`embed`], [`http`]: the requests sent to other
//!   servers, and the judgement of their replies; [`request_laws`] says what they hold;
//! - [`config`], [`retry`], [`selftest`]: settings, schedules, and the self-test;
//! - [`id`], [`matrix_id`], [`text`], [`table`]: what the others are made of.
//!
//! Work that alternates with input and output is a state machine: a function from
//! a phase and an event to the next step. What holds of every run of such a machine
//! is stated in the proof functions named `law_…`.
//!
//! Many types take a parameter `S` for their texts. It is `String` in running code;
//! with `Seq<char>` in its place the same type is its own mathematical model.

pub mod admin;
pub mod appservice;
pub mod bot;
pub mod bot_laws;
pub mod client;
pub mod clients;
pub mod clients_laws;
pub mod command;
pub mod config;
pub mod embed;
pub mod http;
pub mod id;
pub mod matrix_id;
pub mod notes;
pub mod query;
pub mod request_laws;
pub mod retry;
pub mod selftest;
pub mod sender;
pub mod store;
pub mod store_laws;
pub mod table;
pub mod text;
pub mod web;

pub use appservice::AppService;
pub use command::{webhook_url, Command};
pub use config::Config;
pub use store::{Hook, Store};
