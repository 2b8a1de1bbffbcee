//! The request logic of a web front end that serves, edits and uploads pages
//! kept as linkspace packets.
use vstd::prelude::*;

pub mod hash;
pub mod html;
pub mod listing;
pub mod path;
pub mod pkt;
pub mod quarantine;
pub mod query;
pub mod read;
pub mod routes;
pub mod text;
pub mod upload;
pub mod views;

verus! {

/// The state the server keeps for its routes: a handle through which each
/// thread reaches its own linkspace instance.
pub struct Lk;

} // verus!
