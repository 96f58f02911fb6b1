//! The cache orchestrator.
//!
//! A request is answered in two steps. First the store is consulted
//! under the input's fingerprint; a hit is returned as stored and the
//! scoring engine is never touched. On a miss the caller runs the
//! engine, and the winning class is resolved, formatted and written
//! back under the same fingerprint before it is returned.
//!
//! The remote transport is outside this module: its replies come in as
//! plain values and are judged here, so that a transport failure is
//! kept distinct from a genuine miss and a damaged record is never
//! passed off as one.

use crate::digest::{fingerprint, spec_fingerprint};
use crate::format::{format_result, message_chars};
use crate::labels::LabelTable;
use crate::scoring::{select_class, spec_argmax};
use crate::store::{CacheEntry, Store};
use vstd::prelude::*;

verus! {

/// Why a request failed. Every failure is terminal for its request.
#[derive(Clone, Copy, PartialEq, Eq, Structural, Debug)]
pub enum ClassifyError {
    /// The remote store could not be reached for a lookup or a write.
    StoreUnavailable,
    /// The input bytes are not a decodable image.
    DecodeError,
    /// The scoring graph failed to load or to execute.
    ModelError,
    /// The model produced a class index with no label: the model and
    /// the label table do not match.
    LookupError,
    /// A record exists under the fingerprint but not in the two-field
    /// shape; treating it as a miss would hide the damage.
    MalformedStoreRecord,
}

/// The configuration the orchestrator is constructed with; supplied by
/// the surrounding environment, never read from ambient state.
pub struct Config {
    pub store_account: String,
    pub store_key: String,
    pub database: String,
    pub collection: String,
    pub model_path: String,
    pub label_path: String,
}

/// What consulting the cache decided: the stored value, or the
/// fingerprint to compute and write under.
pub enum CacheOutcome {
    Hit(String),
    Miss(String),
}

/// The fast path. Fingerprints the input and consults the store: a hit
/// returns exactly the stored value, and a miss hands back the key so
/// that the caller scores the input and completes the request with
/// `predict_and_write`. Only on a miss is the scoring engine ever run.
pub fn check_cache(store: &Store, bytes: &Vec<u8>) -> (r: CacheOutcome)
    ensures
        match r {
            CacheOutcome::Hit(v) => store@.contains_key(spec_fingerprint(bytes@)) && v@
                == store@[spec_fingerprint(bytes@)],
            CacheOutcome::Miss(k) => !store@.contains_key(spec_fingerprint(bytes@)) && k@
                == spec_fingerprint(bytes@),
        },
{
    let key = fingerprint(bytes);
    match store.lookup(&key) {
        Some(v) => CacheOutcome::Hit(v),
        None => CacheOutcome::Miss(key),
    }
}

/// The miss path. Takes the score vector the engine produced, selects
/// the winning class, resolves its label, formats the result line,
/// writes it back under the key, and returns it. On any failure the
/// store is left untouched: an empty score vector is a model fault,
/// and a winning index beyond the table is a label mismatch.
pub fn predict_and_write(
    store: &mut Store,
    key: &String,
    scores: &Vec<u32>,
    labels: &LabelTable,
) -> (r: Result<String, ClassifyError>)
    requires
        forall|j: int| 0 <= j < scores@.len() ==> scores@[j] <= 10000,
    ensures
        r is Ok <==> (scores@.len() > 0 && spec_argmax(scores@) < labels@.len()),
        match r {
            Ok(v) => {
                &&& v@ == message_chars(
                    labels@[spec_argmax(scores@)],
                    scores@[spec_argmax(scores@)] as int,
                )
                &&& final(store)@ == old(store)@.insert(key@, v@)
            },
            Err(e) => {
                &&& final(store)@ == old(store)@
                &&& (e == ClassifyError::ModelError <==> scores@.len() == 0)
                &&& (scores@.len() > 0 ==> e == ClassifyError::LookupError)
            },
        },
{
    let selected = match select_class(scores) {
        Ok(s) => s,
        Err(e) => {
            return Err(e);
        },
    };
    let (class_index, confidence) = selected;
    let label = match labels.resolve(class_index) {
        Ok(l) => l,
        Err(e) => {
            return Err(e);
        },
    };
    let result = format_result(&label, confidence);
    store.insert(key.clone(), result.clone());
    Ok(result)
}

/// What the remote transport handed back for an equality query,
/// already parsed into plain values: the matching records in order,
/// each either the two-field record or nothing where a record was not
/// in that shape; or no reply at all.
pub enum StoreReply {
    Records(Vec<Option<CacheEntry>>),
    Unreachable,
}

/// Judges the reply to a remote write-back. The result of the request
/// was already computed when the write was attempted, but a failed
/// write is still a hard failure for the request: it is reported as a
/// store outage rather than silently leaving the cache cold.
pub fn interpret_insert(written: bool) -> (r: Result<(), ClassifyError>)
    ensures
        written ==> r == Ok::<(), ClassifyError>(()),
        !written ==> r == Err::<(), ClassifyError>(ClassifyError::StoreUnavailable),
{
    if written {
        Ok(())
    } else {
        Err(ClassifyError::StoreUnavailable)
    }
}

/// Judges a remote lookup reply. No reply is a store outage, never a
/// miss; no matching record is a miss; a damaged first record is
/// surfaced as such; otherwise the first record's value is the hit.
pub fn interpret_lookup(reply: &StoreReply) -> (r: Result<Option<String>, ClassifyError>)
    ensures
        reply is Unreachable ==> r == Err::<Option<String>, ClassifyError>(
            ClassifyError::StoreUnavailable,
        ),
        reply matches StoreReply::Records(recs) ==> {
            &&& recs@.len() == 0 ==> r == Ok::<Option<String>, ClassifyError>(None)
            &&& (recs@.len() > 0 && recs@[0] is None) ==> r == Err::<Option<String>, ClassifyError>(
                ClassifyError::MalformedStoreRecord,
            )
            &&& (recs@.len() > 0 && recs@[0] is Some) ==> (r matches Ok(o) && o matches Some(v)
                && v@ == recs@[0]->Some_0.value@)
        },
{
    match reply {
        StoreReply::Unreachable => Err(ClassifyError::StoreUnavailable),
        StoreReply::Records(recs) => {
            if recs.len() == 0 {
                Ok(None)
            } else {
                match &recs[0] {
                    Some(entry) => Ok(Some(entry.value.clone())),
                    None => Err(ClassifyError::MalformedStoreRecord),
                }
            }
        },
    }
}

} // verus!
