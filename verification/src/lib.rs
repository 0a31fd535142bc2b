//! The logic of a small service that receives image-update notifications
//! from a monitoring agent, keeps the latest known state of each image and
//! shows that state to a dashboard.
//!
//! The library decides; it performs no input or output. A request comes in
//! as plain values, and goes out as a [`reply::Reply`] and a change to the
//! [`store::RecordStore`]. Durable storage and the HTTP server belong to the
//! program around the library, which reports the outcome of each write.
//!
//! - [`auth`]: the bearer-token guard on protected routes.
//! - [`record`]: notifications, records and the columns of a stored row.
//! - [`table`]: the table of records as a finite map, and what a listing is.
//! - [`store`]: the record store, with one record per image.
//! - [`handler`]: what each request is answered with.
//! - [`reply`]: the answers.
//! - [`text`]: equality and order of text.
//! - [`json`], [`clock`]: what is taken on trust from `serde_json` and
//!   `chrono`.

pub mod auth;
pub mod clock;
pub mod handler;
pub mod json;
pub mod record;
pub mod reply;
pub mod store;
pub mod table;
pub mod text;
