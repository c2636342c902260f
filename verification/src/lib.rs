use vstd::prelude::*;

pub mod numbers;
pub mod strings;
pub mod ids;
pub mod model;
pub mod xml;
pub mod http;
pub mod auth;
pub mod paths;
pub mod catalog;
pub mod listing;
pub mod subsonic;
pub mod player;
pub mod matcher;
pub mod library;
pub mod playlist;
pub mod net;
pub mod pairing;
pub mod jobs;
pub mod exportify;
pub mod downloads;
pub mod tracklist;
pub mod view;
pub mod util;

verus! {
} // verus!
