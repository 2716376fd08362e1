//! A small forum, comment and voting engine, with the decisions of the
//! service around it.
//!
//! The heart is the store ([`db`]): users, comments, threads, replies and the
//! vote ledger, each a table with its invariant. Votes toggle and switch
//! ([`votes`]); scores are never stored but summed from the live votes
//! whenever something is shown; thread listings come in pages of twenty
//! ([`pagination`]). Free text is sanitised before it is judged or stored
//! ([`sanitize`]).
//!
//! Around the store stand the request handlers ([`auth`], [`comments`],
//! [`forum`], [`votes`]), which resolve the bearer of a request and map every
//! failure to one of five kinds ([`error`]); the figures about a source
//! repository with their one-hour cache ([`github_stats`]); and what the
//! browser widget decides on its own ([`client`]).
//!
//! Every function states what it returns and what it changes over
//! mathematical views of the data, and is proved against that statement. The
//! few calls into other crates and into the system clock stand in small
//! functions of their own, whose statements are taken on trust; each says
//! so.

pub mod auth;
pub mod client;
pub mod comments;
pub mod db;
pub mod error;
pub mod forum;
pub mod github_stats;
pub mod pagination;
pub mod sanitize;
pub mod scan;
pub mod shared;
pub mod state;
pub mod table;
pub mod text;
pub mod users;
pub mod votes;
