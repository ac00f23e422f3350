//! The parts of a catalog answer that carry no ratings.

use vstd::prelude::*;

verus! {

/// A tag of a pack.
#[derive(Debug, Clone, PartialEq, Eq)]
pub struct Tag {
    pub tag_type: String,
    pub name: String,
}

/// The links from one page of the catalog to others.
#[derive(Debug, Clone, PartialEq, Eq)]
pub struct PackLinks {
    pub first: String,
    pub last: String,
    pub prev: Option<String>,
    pub next: Option<String>,
}

/// Where a page stands in the catalog.
#[derive(Debug, Clone, PartialEq, Eq)]
pub struct PackMeta {
    pub current_page: u64,
    pub from: u64,
    pub last_page: u64,
    pub links: Vec<PackMetaLink>,
    pub path: String,
    pub per_page: u64,
    pub to: u64,
    pub total: u64,
}

/// A link of the page navigation.
#[derive(Debug, Clone, PartialEq, Eq)]
pub struct PackMetaLink {
    pub url: Option<String>,
    pub label: String,
    pub active: bool,
}

} // verus!
