//! A newsboat-inspired feed viewer for video channels: the rules that decide
//! which channels are refreshed, how fetched videos are merged into the known
//! ones, how a channel's videos are ordered, and how the two-pane terminal
//! interface reacts to key presses.

pub mod date;
pub mod internal;
pub mod order;
pub mod url_file;
pub mod fetch;
pub mod feed;
pub mod ui;
