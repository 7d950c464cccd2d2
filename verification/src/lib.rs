//! The library behind splicefeed, a daemon that turns DI.FM shows into
//! podcast feeds.
//!
//! Everything that decides something lives here, with its contract: what a
//! configuration means, which upstream requests are made and what the
//! answers say, which episodes are fetched and which are pruned, how the
//! state of an episode evolves, what a feed holds, and what the command
//! line, the HTTP server, the control socket and the live view show of it.
//! Reading, writing, sending and waiting are the program's business: it
//! hands the library plain values and acts on the plain values it gets
//! back.
//!
//! The modules, from the bottom up:
//!
//! - [`text`], [`order`], [`paths`]: texts, orders and paths.
//! - [`timestamp`], [`weburl`], [`digest`], [`human`], [`xml`]: instants,
//!   URLs, digests, readable quantities and XML documents, on top of the
//!   crates that know how.
//! - [`domain`], [`config`]: shows, episodes, credentials and their
//!   configuration.
//! - [`storage`], [`rows`]: what is known of shows and episodes, and how it
//!   is laid out in database rows.
//! - [`providers`], [`difm`], [`v1`], [`quarantine`]: the upstream API.
//! - [`download`], [`retention`], [`library`]: fetching, keeping and
//!   syncing.
//! - [`rss`], [`opml`]: feeds and the list of feeds.
//! - [`report`], [`style`], [`cli`], [`tui`]: what people get to see.
//! - [`scheduler`], [`ops`], [`reload`], [`server`], [`telemetry`],
//!   [`control`], [`ipc`]: what the daemon decides while it runs.

pub mod cli;
pub mod config;
pub mod control;
pub mod difm;
pub mod digest;
pub mod domain;
pub mod download;
pub mod human;
pub mod ipc;
pub mod library;
pub mod ops;
pub mod opml;
pub mod order;
pub mod paths;
pub mod providers;
pub mod quarantine;
pub mod reload;
pub mod report;
pub mod retention;
pub mod rows;
pub mod rss;
pub mod scheduler;
pub mod server;
pub mod storage;
pub mod style;
pub mod telemetry;
pub mod text;
pub mod timestamp;
pub mod tui;
pub mod v1;
pub mod weburl;
pub mod xml;
