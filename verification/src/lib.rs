//! The verified core of a desktop video downloader built around yt-dlp.
//!
//! - `text`: strings as sequences of characters
//! - `errors`: what a failed download is explained by
//! - `cookies`: the names, files and list of cookie profiles
//! - `matching`: which cookie profile applies to a URL
//! - `json`: parsed documents
//! - `metadata`: how a URL is described
//! - `engine`: which engine runs, and how it is updated
//! - `jobs`: the table of running jobs
//! - `pluck`: what a job does as its process goes on

pub mod cookies;
pub mod engine;
pub mod errors;
pub mod jobs;
pub mod json;
pub mod matching;
pub mod metadata;
pub mod pluck;
pub mod text;
