//! Core of a console radar for ADS-B traffic.
//!
//! - `ingest`: from a line of the feed to the payload worth decoding.
//! - `track`: the store of aircraft tracks: creation, updates, pruning.
//! - `geo`: projection of geographic points onto the plot.
//! - `view`: tabs, pan and zoom, row selection, and what each key does.
//! - `render`: the draw instructions of each tab.
//! - `session`: the state of one session and the steps of each tick.
//! - `city`: reference landmarks and the text that configures them.
//! - `text`: the text of the numbers shown.
//!
//! Angles are fixed-point integers in microdegrees (one millionth of a
//! degree), the zoom scale is the number of microdegrees of latitude that
//! span one display radius, and plot coordinates are whole plot units. Time
//! is a counter of milliseconds that the caller supplies.

pub mod city;
pub mod geo;
pub mod ingest;
pub mod render;
pub mod session;
pub mod text;
pub mod track;
pub mod view;
