//! Deterministic flows: a fixed action sequence run without the model.
//! Loading and executing flow files is an outer concern.

use vstd::prelude::*;

verus! {

/// A deterministic flow: a display name, an optional app to launch first,
/// and an optional description.
pub struct Flow {
    pub name: String,
    pub app_id: Option<String>,
    pub description: Option<String>,
}

} // verus!
