//! The hashed collections behind a cache.
//!
//! Shaped paragraphs are `glyphon::Buffer` values, kept in a
//! `rustc_hash::FxHashMap` under their fingerprints; the fingerprints touched
//! since the last trim are kept in a `rustc_hash::FxHashSet`. Both are the
//! standard library's hash collections with `rustc_hash::FxHasher` in place
//! of the default hasher. What is known of the standard collections with the
//! default hasher is not known of them with another one, so each operation
//! that a cache performs is stated here, over the map or set that the
//! collection stands for. An empty map or set comes from `Default`, and
//! `clear` and `is_empty` do not depend on the hasher.

use glyphon::Buffer;
use rustc_hash::FxHashMap;
use rustc_hash::FxHashSet;
use rustc_hash::FxHasher;
use std::hash::BuildHasherDefault;
use vstd::prelude::*;

verus! {

/// A shaped paragraph, `glyphon::Buffer`. Nothing is known of its contents.
#[verifier::external_type_specification]
#[verifier::external_body]
pub struct ExBuffer(Buffer);

/// The hasher of the collections, `rustc_hash::FxHasher`.
#[verifier::external_type_specification]
#[verifier::external_body]
pub struct ExFxHasher(FxHasher);

/// `std::hash::BuildHasherDefault`, which makes a hasher from its `Default`.
#[verifier::external_type_specification]
#[verifier::external_body]
#[verifier::reject_recursive_types(H)]
pub struct ExBuildHasherDefault<H>(BuildHasherDefault<H>);

/// `HashMap::get` on a map hashed by `FxHasher`.
///
/// Trusted: the result is the value stored under `hash`, and `None` exactly
/// when nothing is stored under it.
#[verifier::external_body]
pub(crate) fn entries_get<'a>(entries: &'a FxHashMap<u64, Buffer>, hash: u64) -> (found: Option<
    &'a Buffer,
>)
    ensures
        match found {
            Some(buffer) => entries@.contains_key(hash) && *buffer == entries@[hash],
            None => !entries@.contains_key(hash),
        },
{
    entries.get(&hash)
}

/// `HashMap::insert` on a map hashed by `FxHasher`.
///
/// Trusted: afterwards `hash` maps to `buffer` and every other key is as it
/// was; the result is the value that `hash` mapped to before, if any.
#[verifier::external_body]
pub(crate) fn entries_insert(
    entries: &mut FxHashMap<u64, Buffer>,
    hash: u64,
    buffer: Buffer,
) -> (previous: Option<Buffer>)
    ensures
        final(entries)@ == old(entries)@.insert(hash, buffer),
        previous == if old(entries)@.contains_key(hash) {
            Some(old(entries)@[hash])
        } else {
            None
        },
{
    entries.insert(hash, buffer)
}

/// `HashSet::insert` on a set hashed by `FxHasher`.
///
/// Trusted: afterwards the set holds `hash` besides what it held; the result
/// says whether `hash` is new to it.
#[verifier::external_body]
pub(crate) fn marks_insert(marks: &mut FxHashSet<u64>, hash: u64) -> (fresh: bool)
    ensures
        final(marks)@ == old(marks)@.insert(hash),
        fresh == !old(marks)@.contains(hash),
{
    marks.insert(hash)
}

/// `HashSet::contains` on a set hashed by `FxHasher`.
///
/// Trusted: the result says whether the set holds `hash`.
#[verifier::external_body]
pub(crate) fn marks_contains(marks: &FxHashSet<u64>, hash: u64) -> (held: bool)
    ensures
        held == marks@.contains(hash),
{
    marks.contains(&hash)
}

/// Whether an entry under `hash` outlives a trim: whether `hash` is marked.
pub(crate) fn survives(marks: &FxHashSet<u64>, hash: u64) -> (kept: bool)
    ensures
        kept == marks@.contains(hash),
{
    marks_contains(marks, hash)
}

/// `HashMap::retain` on a map hashed by `FxHasher`, keeping the entries
/// whose key [`survives`].
///
/// Trusted: `retain` drops exactly the entries for which the closure gives
/// `false` and leaves the others as they were.
#[verifier::external_body]
pub(crate) fn entries_retain(entries: &mut FxHashMap<u64, Buffer>, marks: &FxHashSet<u64>)
    ensures
        final(entries)@ == old(entries)@.restrict(marks@),
{
    entries.retain(|hash, _| survives(marks, *hash));
}

} // verus!
