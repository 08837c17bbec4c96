//! The decisions of a small chat client: reading the lines of the server,
//! keeping messages for people who are away, and finding the addresses and
//! titles of pages that come up in the conversation. Nothing here touches a
//! socket or a file; the program around it does what these functions ask for.

pub mod json;
pub mod laws;
pub mod order;
pub mod parse;
pub mod pattern;
pub mod session;
pub mod tells;
pub mod text;
pub mod title;
