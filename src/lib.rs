// Upload text to paste services and fetch it back, through one set of
// operations that each backend supports in part.
//
// range: the file-range syntax (`0`, `0-2`, `2-0,3`) and range sets.
// paste: local files, fetched pastes and their URLs.
// orchestrator: which files to show, and how an upload is carried.
// hastebin, gist: the backends; engines: the registry that picks one.
// wire: the calls into url, serde_json and rustc-serialize.
use vstd::prelude::*;

pub mod engines;
pub mod error;
pub mod gist;
pub mod hastebin;
pub mod orchestrator;
pub mod paste;
pub mod range;
pub mod wire;

verus! {

} // verus!
