//! The cache store: decoding a cache file's text into records, looking
//! records up by identifier, and producing the text to persist.
//!
//! The store itself never touches the disk: callers hand it the file's
//! contents (or the fact that there were none) and write back the payloads it
//! returns.

use vstd::prelude::*;

use crate::codec::{parse_entries, serialize_entries, sp_parse, spec_serialize};
use crate::entry::{EntryModel, ImageUrl, models};

verus! {

/// What loading the cache file yields: the decoded records, and whether the
/// file must be rewritten because it was absent or undecodable.
pub struct LoadOutcome {
    pub entries: Vec<ImageUrl>,
    pub reset: bool,
}

/// Turns the cache file's contents into records. An absent file (`None`) or
/// one that does not decode yields an empty store marked for a destructive
/// reset: the caller discards the old contents and writes the empty array.
pub fn decode_store(contents: Option<&str>) -> (r: LoadOutcome)
    ensures
        match contents {
            Some(s) => match sp_parse(s@) {
                Some(es) => models(r.entries@) == es && !r.reset,
                None => r.entries@.len() == 0 && r.reset,
            },
            None => r.entries@.len() == 0 && r.reset,
        },
{
    match contents {
        Some(s) => match parse_entries(s) {
            Some(entries) => LoadOutcome { entries, reset: false },
            None => LoadOutcome { entries: Vec::new(), reset: true },
        },
        None => LoadOutcome { entries: Vec::new(), reset: true },
    }
}

/// The text that an empty store persists as.
pub fn empty_store_payload() -> (r: String)
    ensures
        r@ == spec_serialize(Seq::<EntryModel>::empty()),
{
    let empty: Vec<ImageUrl> = Vec::new();
    proof {
        assert(models(empty@) =~= Seq::<EntryModel>::empty());
    }
    serialize_entries(&empty)
}

/// The position of the first record with the given identifier.
pub open spec fn spec_find(es: Seq<EntryModel>, id: Seq<char>) -> Option<int>
    decreases es.len(),
{
    if es.len() == 0 {
        None
    } else if es[0].id == id {
        Some(0)
    } else {
        match spec_find(es.drop_first(), id) {
            Some(j) => Some(j + 1),
            None => None,
        }
    }
}

/// What `spec_find` returns is the first match, and `None` means no match.
pub proof fn lemma_find_first(es: Seq<EntryModel>, id: Seq<char>)
    ensures
        match spec_find(es, id) {
            Some(i) => 0 <= i < es.len() && es[i].id == id
                && forall|k: int| 0 <= k < i ==> (#[trigger] es[k]).id != id,
            None => forall|k: int| 0 <= k < es.len() ==> (#[trigger] es[k]).id != id,
        },
    decreases es.len(),
{
    if es.len() == 0 {
    } else if es[0].id == id {
    } else {
        lemma_find_first(es.drop_first(), id);
        assert forall|k: int| 1 <= k < es.len() implies es[k] == es.drop_first()[k - 1] by {}
    }
}

/// Linear scan for the first record whose identifier equals `id`.
pub fn find_entry(entries: &Vec<ImageUrl>, id: &String) -> (r: Option<usize>)
    ensures
        match r {
            Some(i) => spec_find(models(entries@), id@) == Some(i as int),
            None => spec_find(models(entries@), id@) is None,
        },
{
    let ghost es = models(entries@);
    let n = entries.len();
    let mut i: usize = 0;
    while i < n
        invariant
            i <= n,
            n == entries@.len(),
            es == models(entries@),
            forall|k: int| 0 <= k < i ==> (#[trigger] es[k]).id != id@,
        decreases n - i,
    {
        if entries[i].id == *id {
            proof {
                lemma_find_first(es, id@);
                assert(es[i as int].id == id@);
                match spec_find(es, id@) {
                    Some(j) => {
                        if j < i as int {
                            assert(es[j].id != id@);
                        }
                        if j > i as int {
                            assert(es[i as int].id != id@);
                        }
                    },
                    None => {
                        assert(es[i as int].id != id@);
                    },
                }
            }
            return Some(i);
        }
        i = i + 1;
    }
    proof {
        lemma_find_first(es, id@);
        match spec_find(es, id@) {
            Some(j) => { assert(es[j].id != id@); },
            None => {},
        }
    }
    None
}

} // verus!
