use vstd::prelude::*;
use crate::span::{CodeArea, Span};

verus! {

#[verifier::external_type_specification]
#[verifier::external_body]
pub struct ExDefaultKey(slotmap::DefaultKey);

/// The stable identifier of a registered source.
pub type SourceKey = slotmap::DefaultKey;

/// Every source of a session, by identifier. Sources are only ever added, so
/// an identifier once handed out stays valid.
#[verifier::external_body]
pub struct SourceMap {
    map: slotmap::SlotMap<SourceKey, Source>,
}

/// One named source text.
#[derive(Debug)]
pub struct Source {
    pub path: String,
    pub content: String,
}

impl Source {
    pub fn new(path: String, content: String) -> (r: Source)
        ensures
            r.path == path,
            r.content == content,
    {
        Source { path, content }
    }
}

/// What a source map holds.
pub uninterp spec fn stored(m: SourceMap) -> Map<SourceKey, Source>;

/// How many sources a source map holds.
pub uninterp spec fn stored_count(m: SourceMap) -> nat;

impl SourceMap {
    /// Relies on SlotMap::new: a new map holds nothing.
    #[verifier::external_body]
    pub fn new() -> (r: SourceMap)
        ensures
            stored(r) =~= Map::empty(),
            stored_count(r) == 0,
    {
        SourceMap { map: slotmap::SlotMap::new() }
    }

    /// Relies on SlotMap::insert: the value is stored under a key that the map
    /// did not hold. A new map keeps one sentinel slot, and insertion panics
    /// once the slots reach u32::MAX, that is when the map already holds
    /// u32::MAX - 1 values.
    #[verifier::external_body]
    pub fn insert(&mut self, s: Source) -> (k: SourceKey)
        requires
            stored_count(*old(self)) < 4294967294,
        ensures
            !stored(*old(self)).contains_key(k),
            stored(*final(self)) == stored(*old(self)).insert(k, s),
            stored_count(*final(self)) == stored_count(*old(self)) + 1,
    {
        self.map.insert(s)
    }

    /// Relies on SlotMap's indexing: it returns the value stored under the key
    /// and panics on a key that the map does not hold.
    #[verifier::external_body]
    pub fn get(&self, k: SourceKey) -> (r: &Source)
        requires
            stored(*self).contains_key(k),
        ensures
            *r == stored(*self)[k],
    {
        &self.map[k]
    }
}

/// Relies on the derived equality of slotmap keys, which compares their fields.
pub assume_specification[ <slotmap::DefaultKey as core::cmp::PartialEq>::eq ](
    a: &slotmap::DefaultKey,
    b: &slotmap::DefaultKey,
) -> (r: bool)
    ensures
        r == (*a == *b),
;

impl Span {
    pub fn to_area(self, src: SourceKey) -> (r: CodeArea)
        ensures
            r.span == self,
            r.src == src,
    {
        CodeArea { span: self, src }
    }
}

} // verus!
