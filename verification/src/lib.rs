use vstd::prelude::*;

pub mod text;
pub mod paths;
pub mod archive;
pub mod manifest;
pub mod catalog;
pub mod progress;
pub mod runners;
pub mod environment;
pub mod remote_update;
pub mod download;
pub mod install;
pub mod verification;
pub mod managed;
pub mod settings;
pub mod launch;
pub mod storage;

verus! {

} // verus!
