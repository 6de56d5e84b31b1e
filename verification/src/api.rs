//! State shared by the HTTP API's handlers.

use std::sync::Arc;
use vstd::prelude::*;

verus! {

/// The file the API reads the chain from.
#[derive(Clone)]
pub struct ApiState {
    pub blockchain_file: Arc<String>,
}

} // verus!
