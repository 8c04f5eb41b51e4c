//! The resolution decisions: whether a cached artwork URL may be reused,
//! which stale record to drop, and what to persist after a fresh upload.
//!
//! Callers drive the surrounding input and output: they load the cache file,
//! ask [`consult`] for a decision, perform the upload only when told to, and
//! write back exactly the payload that [`record_upload`] hands them. A failed
//! upload therefore never changes the persisted cache.

use vstd::prelude::*;

use crate::codec::{serialize_entries, spec_serialize};
use crate::entry::{EntryModel, ImageUrl, models};
use crate::store::{spec_find, lemma_find_first, find_entry};

verus! {

/// Failures surfaced by the resolution decisions themselves.
#[derive(Clone, Copy, Debug, PartialEq, Eq, Structural)]
pub enum CacheError {
    /// The new expiry instant does not fit the stored integer.
    ExpiryOverflow,
    /// A URL string did not parse as a URL.
    InvalidUrl,
}

/// The URL a lookup may reuse: the first record for `id`, provided it has not
/// expired. A record expires strictly after its expiry instant, so one whose
/// `expiration` equals `now` is still served.
pub open spec fn spec_hit(es: Seq<EntryModel>, id: Seq<char>, now: int) -> Option<Seq<char>> {
    match spec_find(es, id) {
        Some(i) => if es[i].expiration >= now {
            Some(es[i].url)
        } else {
            None
        },
        None => None,
    }
}

/// The records left in memory after a lookup: unchanged, except that a found
/// but expired record is removed.
pub open spec fn spec_after_lookup(es: Seq<EntryModel>, id: Seq<char>, now: int) -> Seq<EntryModel> {
    match spec_find(es, id) {
        Some(i) => if es[i].expiration < now {
            es.remove(i)
        } else {
            es
        },
        None => es,
    }
}

proof fn lemma_models_remove(s: Seq<ImageUrl>, i: int)
    requires
        0 <= i < s.len(),
    ensures
        models(s.remove(i)) == models(s).remove(i),
{
    assert(models(s.remove(i)) =~= models(s).remove(i));
}

proof fn lemma_models_push(s: Seq<ImageUrl>, e: ImageUrl)
    ensures
        models(s.push(e)) == models(s).push(e@),
{
    assert(models(s.push(e)) =~= models(s).push(e@));
}

/// Looks the item up in the loaded records. On a usable record the URL is
/// returned and nothing changes; a found but expired record is removed from
/// the in-memory records and `None` asks the caller to upload afresh.
pub fn consult(entries: &mut Vec<ImageUrl>, id: &String, now_unix_seconds: usize) -> (r: Option<String>)
    ensures
        match spec_hit(models(old(entries)@), id@, now_unix_seconds as int) {
            Some(u) => r matches Some(ru) && ru@ == u && final(entries)@ == old(entries)@,
            None => r is None,
        },
        models(final(entries)@) == spec_after_lookup(
            models(old(entries)@), id@, now_unix_seconds as int),
{
    match find_entry(entries, id) {
        Some(i) => {
            proof {
                lemma_find_first(models(entries@), id@);
            }
            if entries[i].expiration_from_unix_seconds < now_unix_seconds {
                entries.remove(i);
                proof {
                    lemma_models_remove(old(entries)@, i as int);
                }
                None
            } else {
                Some(entries[i].url.clone())
            }
        },
        None => None,
    }
}

/// Appends the record of a fresh upload, expiring a full time-to-live after
/// `now`, and returns the exact text to persist. An expiry instant beyond the
/// stored integer's range is surfaced as an error and changes nothing.
pub fn record_upload(
    entries: &mut Vec<ImageUrl>,
    id: &String,
    url: &String,
    now_unix_seconds: usize,
    ttl_seconds: usize,
) -> (r: Result<String, CacheError>)
    ensures
        match r {
            Ok(payload) => {
                &&& now_unix_seconds + ttl_seconds <= usize::MAX
                &&& models(final(entries)@) == models(old(entries)@).push(
                    EntryModel {
                        id: id@,
                        url: url@,
                        expiration: now_unix_seconds + ttl_seconds,
                    })
                &&& payload@ == spec_serialize(models(final(entries)@))
            },
            Err(e) => {
                &&& now_unix_seconds + ttl_seconds > usize::MAX
                &&& e == CacheError::ExpiryOverflow
                &&& final(entries)@ == old(entries)@
            },
        },
{
    match now_unix_seconds.checked_add(ttl_seconds) {
        Some(expiry) => {
            let entry = ImageUrl::new(id.clone(), url.clone(), expiry);
            proof {
                lemma_models_push(entries@, entry);
            }
            entries.push(entry);
            let payload = serialize_entries(entries);
            Ok(payload)
        },
        None => Err(CacheError::ExpiryOverflow),
    }
}

// ---------------------------------------------------------------------------
// Laws of the lookup
// ---------------------------------------------------------------------------

/// No two records share an identifier.
pub open spec fn unique_ids(es: Seq<EntryModel>) -> bool {
    forall|j: int, k: int| 0 <= j < k < es.len()
        ==> (#[trigger] es[j]).id != (#[trigger] es[k]).id
}

/// Law: when the records' identifiers are unique and a lookup asks for an
/// upload, no record for the identifier is left: the replacement appended
/// afterwards is the only one.
pub proof fn lemma_upload_path_clears_id(es: Seq<EntryModel>, id: Seq<char>, now: int)
    requires
        unique_ids(es),
        spec_hit(es, id, now) is None,
    ensures
        spec_find(spec_after_lookup(es, id, now), id) is None,
        unique_ids(spec_after_lookup(es, id, now)),
{
    lemma_find_first(es, id);
    let after = spec_after_lookup(es, id, now);
    match spec_find(es, id) {
        Some(i) => {
            assert(es[i].expiration < now);
            assert(after == es.remove(i));
            assert forall|k: int| 0 <= k < after.len()
                implies (#[trigger] after[k]).id != id by {
                if k < i {
                    assert(after[k] == es[k]);
                } else {
                    assert(after[k] == es[k + 1]);
                }
            }
            lemma_find_first(after, id);
            match spec_find(after, id) {
                Some(j) => { assert(after[j].id != id); },
                None => {},
            }
            assert forall|j: int, k: int| 0 <= j < k < after.len()
                implies (#[trigger] after[j]).id != (#[trigger] after[k]).id by {
                let j2: int = if j < i { j } else { j + 1 };
                let k2: int = if k < i { k } else { k + 1 };
                assert(after[j] == es[j2]);
                assert(after[k] == es[k2]);
            }
        },
        None => {
            lemma_find_first(after, id);
            match spec_find(after, id) {
                Some(j) => { assert(after[j].id != id); },
                None => {},
            }
        },
    }
}

/// Law: once the record of a fresh upload is appended to records that hold no
/// record for the identifier, every lookup up to and including the recorded
/// expiry instant is a pure hit on the fresh URL and changes nothing.
pub proof fn lemma_second_resolution_hits(
    es: Seq<EntryModel>,
    id: Seq<char>,
    url: Seq<char>,
    expiration: int,
    later: int,
)
    requires
        spec_find(es, id) is None,
        later <= expiration,
    ensures
        spec_hit(es.push(EntryModel { id, url, expiration }), id, later) == Some(url),
        spec_after_lookup(es.push(EntryModel { id, url, expiration }), id, later)
            == es.push(EntryModel { id, url, expiration }),
    decreases es.len(),
{
    let e = EntryModel { id, url, expiration };
    let full = es.push(e);
    if es.len() == 0 {
        assert(full[0] == e);
        assert(spec_find(full, id) == Some(0int));
    } else {
        assert(es[0].id != id) by {
            lemma_find_first(es, id);
        }
        assert(spec_find(es.drop_first(), id) is None) by {
            lemma_find_first(es, id);
            lemma_find_first(es.drop_first(), id);
            match spec_find(es.drop_first(), id) {
                Some(j) => { assert(es.drop_first()[j] == es[j + 1]); },
                None => {},
            }
        }
        lemma_second_resolution_hits(es.drop_first(), id, url, expiration, later);
        let d = es.drop_first().push(e);
        assert(full.drop_first() =~= d);
        assert(full[0] == es[0]);
        assert(spec_hit(d, id, later) == Some(url));
        assert(spec_find(d, id) is Some);
        lemma_find_first(d, id);
        let i2 = spec_find(d, id)->Some_0;
        assert(d[i2].expiration >= later && d[i2].url == url);
        assert(spec_find(full, id) == Some(i2 + 1));
        assert(full[i2 + 1] == d[i2]);
        assert(spec_hit(full, id, later) == Some(url));
        assert(spec_after_lookup(full, id, later) == full);
    }
}

/// Law: appending the record of a fresh upload to records that hold no
/// record for its identifier keeps the identifiers unique, so the store's
/// intended invariant — at most one valid record per identifier — survives a
/// full miss-upload-persist cycle.
pub proof fn lemma_fresh_entry_keeps_unique(
    es: Seq<EntryModel>,
    id: Seq<char>,
    url: Seq<char>,
    expiration: int,
)
    requires
        unique_ids(es),
        spec_find(es, id) is None,
    ensures
        unique_ids(es.push(EntryModel { id, url, expiration })),
{
    let full = es.push(EntryModel { id, url, expiration });
    lemma_find_first(es, id);
    assert forall|j: int, k: int| 0 <= j < k < full.len()
        implies (#[trigger] full[j]).id != (#[trigger] full[k]).id by {
        if k < es.len() {
            assert(full[j] == es[j] && full[k] == es[k]);
        } else {
            assert(full[j] == es[j]);
            assert(full[k].id == id);
            assert(es[j].id != id);
        }
    }
}

/// Law: the expiry comparison is strict. A record found for the identifier is
/// served at any instant up to and including its expiry instant, and asks for
/// a fresh upload at any later instant.
pub proof fn lemma_expiry_boundary(es: Seq<EntryModel>, id: Seq<char>, now: int)
    requires
        spec_find(es, id) is Some,
    ensures
        es[spec_find(es, id)->Some_0].expiration >= now
            ==> spec_hit(es, id, now) == Some(es[spec_find(es, id)->Some_0].url)
                && spec_after_lookup(es, id, now) == es,
        es[spec_find(es, id)->Some_0].expiration < now
            ==> spec_hit(es, id, now) is None
                && spec_after_lookup(es, id, now) == es.remove(spec_find(es, id)->Some_0),
{
}

} // verus!
