//! Widget identity. A widget has no handle: its id is a hash of its
//! parent's id and of a key that tells it from its siblings, so the same
//! place in the interface gets the same id in every frame.

use vstd::prelude::*;
use vstd::bytes::{spec_u64_to_le_bytes, u64_to_le_bytes};
use vstd::std_specs::hash::DefaultHasherAdditionalSpecFns;
use vstd::utf8::encode_utf8;
use std::collections::hash_map::DefaultHasher;
use std::hash::Hasher;

verus! {

/// What tells one widget from all others, in this frame and the next.
pub type Id = u64;

/// The byte that closes a key, so that no key is a prefix of another.
pub open spec fn key_end() -> Seq<u8> {
    seq![0xffu8]
}

/// The id of the child of `parent` that goes by `key`: the hash of the
/// parent's id followed by the key.
pub open spec fn spec_child_id(parent: Id, key: Seq<u8>) -> Id {
    DefaultHasher::spec_finish(seq![spec_u64_to_le_bytes(parent), key, key_end()])
}

/// The id of the `index`-th of several children of `parent` that share `key`.
pub open spec fn spec_indexed_child_id(parent: Id, key: Seq<u8>, index: u64) -> Id {
    DefaultHasher::spec_finish(
        seq![spec_u64_to_le_bytes(parent), key, key_end(), spec_u64_to_le_bytes(index)],
    )
}

/// The key that a text stands for.
pub open spec fn text_key(text: Seq<char>) -> Seq<u8> {
    encode_utf8(text)
}

/// The id of the child of `parent` that goes by `key`.
pub fn child_id(parent: Id, key: &[u8]) -> (id: Id)
    ensures
        id == spec_child_id(parent, key@),
{
    let mut hasher = DefaultHasher::new();
    let parent_bytes = u64_to_le_bytes(parent);
    let mut end: Vec<u8> = Vec::new();
    end.push(0xff);
    assert(end@ =~= key_end());
    hasher.write(parent_bytes.as_slice());
    hasher.write(key);
    hasher.write(end.as_slice());
    assert(hasher@ =~= seq![spec_u64_to_le_bytes(parent), key@, key_end()]);
    hasher.finish()
}

/// The id of the `index`-th of several children of `parent` that share `key`.
pub fn indexed_child_id(parent: Id, key: &[u8], index: u64) -> (id: Id)
    ensures
        id == spec_indexed_child_id(parent, key@, index),
{
    let mut hasher = DefaultHasher::new();
    let parent_bytes = u64_to_le_bytes(parent);
    let index_bytes = u64_to_le_bytes(index);
    let mut end: Vec<u8> = Vec::new();
    end.push(0xff);
    assert(end@ =~= key_end());
    hasher.write(parent_bytes.as_slice());
    hasher.write(key);
    hasher.write(end.as_slice());
    hasher.write(index_bytes.as_slice());
    assert(hasher@ =~= seq![
        spec_u64_to_le_bytes(parent),
        key@,
        key_end(),
        spec_u64_to_le_bytes(index),
    ]);
    hasher.finish()
}

/// The id of the child of `parent` that `text` names.
pub fn text_child_id(parent: Id, text: &str) -> (id: Id)
    ensures
        id == spec_child_id(parent, text_key(text@)),
{
    child_id(parent, text.as_bytes())
}

} // verus!
