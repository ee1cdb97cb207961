//! A client that sends image-generation jobs to a remote service, pass after pass,
//! and saves the returned images. The library holds the decisions: the configuration
//! model, the file names and decoded bytes of each result's images, and the steps of
//! the driver loop.
use vstd::prelude::*;

pub mod model;
pub mod naming;
pub mod persist;
pub mod run_loop;

verus! {

} // verus!
