//! Verified core of a terminal client for the NetEase Cloud Music web API:
//! request construction, cookie handling, the application's navigation state
//! and the data model of the service's responses.
#![allow(non_snake_case)]

pub mod text;
pub mod params;
pub mod model;
pub mod api;
pub mod http;
pub mod player;
pub mod downloader;
pub mod state;
pub mod login;
pub mod weapi;
