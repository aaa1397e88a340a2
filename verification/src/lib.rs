use vstd::prelude::*;

pub mod text;
pub mod paths;
pub mod version_manager;
pub mod digests;
pub mod json;
pub mod professional;
pub mod auth;
pub mod launch;
pub mod launcher;

verus! {
} // verus!
