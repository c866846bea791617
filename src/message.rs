use vstd::prelude::*;

use std::collections::HashMap;

verus! {

/// Tags to set on envelopes, grouped by account: account id to envelope ids.
#[derive(Clone, Debug, Default, PartialEq, Eq)]
pub struct UpdateTagsRequest {
    pub updates: HashMap<u64, Vec<u64>>,
    pub tags: Vec<String>,
}

/// How many envelopes carry a tag.
#[derive(Clone, Debug, Default, PartialEq, Eq)]
pub struct TagCount {
    pub tag: String,
    pub count: u64,
}

} // verus!
