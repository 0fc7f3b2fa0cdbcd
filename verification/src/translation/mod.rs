//! Translation pipeline: the Google Translate client and the transcript helpers.

pub mod client;
pub mod helpers;
pub mod translation_task;
