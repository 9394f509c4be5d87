//! Tag records as the server lists them.

use vstd::prelude::*;

verus! {

/// A tag with its category and its relations to other tags.
#[derive(Debug, Clone)]
pub struct Tag {
    pub name: String,
    pub category: String,
    pub aliases: Vec<String>,
    pub implications: Vec<String>,
    pub suggested: Vec<String>,
}

} // verus!
