//! Tags attached to a resource, and the view of a tag list as a set of keys.

use vstd::prelude::*;

verus! {

/// One key/value tag of a resource.
#[derive(Debug, Clone)]
pub struct ResourceTag {
    pub key: String,
    pub value: String,
}

impl PartialEq for ResourceTag {
    fn eq(&self, other: &ResourceTag) -> (r: bool) {
        self.key == other.key && self.value == other.value
    }
}

impl vstd::std_specs::cmp::PartialEqSpecImpl for ResourceTag {
    open spec fn obeys_eq_spec() -> bool {
        true
    }

    open spec fn eq_spec(&self, other: &ResourceTag) -> bool {
        self.key@ == other.key@ && self.value@ == other.value@
    }
}

impl ResourceTag {
    /// A copy of this tag.
    pub fn duplicate(&self) -> (r: ResourceTag)
        ensures
            r == *self,
    {
        ResourceTag { key: self.key.clone(), value: self.value.clone() }
    }
}

/// Whether some tag of `tags` has key `k`.
pub open spec fn has_key(tags: Seq<ResourceTag>, k: Seq<char>) -> bool {
    exists|i: int| 0 <= i < tags.len() && #[trigger] tags[i].key@ == k
}

/// Whether some tag of `tags` has key `k` and value `v`.
pub open spec fn has_pair(tags: Seq<ResourceTag>, k: Seq<char>, v: Seq<char>) -> bool {
    exists|i: int| 0 <= i < tags.len() && #[trigger] tags[i].key@ == k && tags[i].value@ == v
}

/// Whether `tags` holds a tag with key `key`.
pub fn contains_key(tags: &[ResourceTag], key: &String) -> (r: bool)
    ensures
        r == has_key(tags@, key@),
{
    let mut i: usize = 0;
    while i < tags.len()
        invariant
            0 <= i <= tags.len(),
            forall|j: int| 0 <= j < i ==> tags@[j].key@ != key@,
        decreases tags.len() - i,
    {
        if tags[i].key == *key {
            return true;
        }
        i = i + 1;
    }
    false
}

/// Whether `tags` holds a tag with key `key` and value `value`.
pub fn contains_pair(tags: &[ResourceTag], key: &String, value: &String) -> (r: bool)
    ensures
        r == has_pair(tags@, key@, value@),
{
    let mut i: usize = 0;
    while i < tags.len()
        invariant
            0 <= i <= tags.len(),
            forall|j: int| 0 <= j < i ==> !(tags@[j].key@ == key@ && tags@[j].value@ == value@),
        decreases tags.len() - i,
    {
        if tags[i].key == *key && tags[i].value == *value {
            return true;
        }
        i = i + 1;
    }
    false
}

} // verus!
