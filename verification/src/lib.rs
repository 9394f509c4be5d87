//! The rules of a batch upload client for an image board: what the
//! companions of a media file say about it, how that is reconciled with
//! the posts that the server already holds, and how long to keep trying.
//!
//! Nothing here touches a file or the network. The caller reads and
//! sends; these modules decide:
//!
//! - [`sidecar`] builds the draft of a post from a tag list and a JSON
//!   descriptor, [`draft`] holds the draft;
//! - [`resolve`] chooses between updating the post with the same content
//!   and creating a new one, [`merge`] merges tags, relations and sources;
//! - [`batch`] and [`post_merge`] drive the work file by file and pair by
//!   pair, [`retry`] bounds the attempts of a single request;
//! - [`media`], [`order`] and [`pairs`] read directory listings and the
//!   list of posts to merge; [`auth`] builds the authentication header;
//! - [`text`] and [`json`] are what the others stand on.

pub mod auth;
pub mod batch;
pub mod draft;
pub mod json;
pub mod media;
pub mod merge;
pub mod order;
pub mod pairs;
pub mod post_merge;
pub mod resolve;
pub mod retry;
pub mod sidecar;
pub mod tag;
pub mod text;
