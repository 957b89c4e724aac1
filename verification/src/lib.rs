//! Verified decision logic of the profile feature endpoints.

pub mod archive;
pub mod alive;
pub mod asks;
pub mod capsule;
pub mod draw;
pub mod drawings;
pub mod guestbook;
pub mod helpers;
pub mod hits;
pub mod json;
pub mod moon;
pub mod neighbours;
pub mod night;
pub mod outside;
pub mod rejection;
pub mod reverse;
pub mod secret;
pub mod tally;
pub mod text;
