//! Verified string helpers used by the configuration: splitting a
//! comma-separated list, substituting the version placeholder, and forcing a
//! trailing slash on the server URL.

use vstd::prelude::*;

use crate::codec::{match_at_exec, push_char};

verus! {

/// The views of a sequence of strings, element by element.
pub open spec fn views_of(ss: Seq<String>) -> Seq<Seq<char>> {
    ss.map_values(|s: String| s@)
}

// ---------------------------------------------------------------------------
// Splitting at commas
// ---------------------------------------------------------------------------

/// The position of the first comma, if any.
pub open spec fn first_comma(s: Seq<char>) -> Option<int>
    decreases s.len(),
{
    if s.len() == 0 {
        None
    } else if s[0] == ',' {
        Some(0)
    } else {
        match first_comma(s.drop_first()) {
            Some(j) => Some(j + 1),
            None => None,
        }
    }
}

proof fn lemma_first_comma(s: Seq<char>)
    ensures
        match first_comma(s) {
            Some(i) => 0 <= i < s.len() && s[i] == ','
                && forall|k: int| 0 <= k < i ==> s[k] != ',',
            None => forall|k: int| 0 <= k < s.len() ==> s[k] != ',',
        },
    decreases s.len(),
{
    if s.len() == 0 {
    } else if s[0] == ',' {
    } else {
        lemma_first_comma(s.drop_first());
        assert forall|k: int| 1 <= k < s.len() implies s[k] == s.drop_first()[k - 1] by {}
    }
}

/// The pieces of a string between its commas, in order. A string without a
/// comma is one piece; every comma separates two pieces.
pub open spec fn spec_split(s: Seq<char>) -> Seq<Seq<char>>
    decreases s.len(),
{
    match first_comma(s) {
        Some(i) => if 0 <= i < s.len() {
            seq![s.take(i)] + spec_split(s.skip(i + 1))
        } else {
            seq![s]
        },
        None => seq![s],
    }
}

fn split_from(s: &str, len: usize, i: usize) -> (r: Vec<String>)
    requires
        len == s@.len(),
        i <= len,
    ensures
        views_of(r@) == spec_split(s@.skip(i as int)),
    decreases len - i,
{
    let ghost tail = s@.skip(i as int);
    let mut j: usize = i;
    while j < len && s.get_char(j) != ','
        invariant
            i <= j <= len,
            len == s@.len(),
            forall|k: int| i <= k < j ==> s@[k] != ',',
        decreases len - j,
    {
        j = j + 1;
    }
    proof {
        lemma_first_comma(tail);
        assert forall|k: int| 0 <= k < tail.len() implies tail[k] == s@[i + k] by {}
        if j < len {
            assert(s@[j as int] == ',');
            assert(tail[j - i] == ',');
            match first_comma(tail) {
                Some(fc) => {
                    if fc < j - i {
                        assert(tail[fc] != ',');
                    }
                    if fc > j - i {
                        assert(tail[j - i] != ',');
                    }
                },
                None => {
                    assert(tail[j - i] != ',');
                },
            }
            assert(first_comma(tail) == Some(j - i));
        } else {
            match first_comma(tail) {
                Some(fc) => {
                    assert(tail[fc] != ',');
                },
                None => {},
            }
            assert(first_comma(tail) is None);
        }
    }
    let piece = String::from_str(s.substring_char(i, j));
    proof {
        assert(piece@ =~= tail.take(j - i));
    }
    if j < len {
        let mut rest = split_from(s, len, j + 1);
        proof {
            assert(s@.skip(j + 1 as int) =~= tail.skip(j - i + 1));
        }
        rest.insert(0, piece);
        proof {
            assert(views_of(rest@) =~= seq![tail.take(j - i)] + spec_split(tail.skip(j - i + 1)));
        }
        rest
    } else {
        let mut one: Vec<String> = Vec::new();
        one.push(piece);
        proof {
            assert(tail.take(j - i) =~= tail);
            assert(views_of(one@) =~= seq![tail]);
        }
        one
    }
}

/// Splits a string at every comma. The result holds one piece more than the
/// string holds commas; a string without a comma is returned whole.
pub fn split_commas(s: &str) -> (r: Vec<String>)
    ensures
        views_of(r@) == spec_split(s@),
{
    let len: usize = s.unicode_len();
    let r = split_from(s, len, 0);
    proof {
        assert(s@.skip(0) =~= s@);
    }
    r
}

// ---------------------------------------------------------------------------
// Substituting the version placeholder
// ---------------------------------------------------------------------------

/// The placeholder that user-supplied status text may carry.
pub open spec fn pat_version() -> Seq<char> {
    seq!['{', 'v', 'e', 'r', 's', 'i', 'o', 'n', '}']
}

/// `s` with every occurrence of `pat` replaced by `rep`, scanning left to
/// right and never rescanning replaced text.
pub open spec fn spec_replace(s: Seq<char>, pat: Seq<char>, rep: Seq<char>) -> Seq<char>
    recommends pat.len() > 0,
    decreases s.len(),
{
    if pat.len() > 0 && pat.len() <= s.len() && s.take(pat.len() as int) == pat {
        rep + spec_replace(s.skip(pat.len() as int), pat, rep)
    } else if s.len() == 0 {
        Seq::<char>::empty()
    } else {
        seq![s[0]] + spec_replace(s.drop_first(), pat, rep)
    }
}

/// Replaces every `{version}` in `s` by `rep`, as the status text formatting
/// does to user-supplied text.
pub fn replace_version(s: &str, rep: &str) -> (r: String)
    ensures
        r@ == spec_replace(s@, pat_version(), rep@),
{
    proof {
        reveal_strlit("{version}");
        assert("{version}"@ =~= pat_version());
    }
    let len: usize = s.unicode_len();
    let mut out = String::new();
    let mut i: usize = 0;
    proof {
        assert(s@.skip(0) =~= s@);
        assert(out@ + spec_replace(s@, pat_version(), rep@)
            =~= spec_replace(s@, pat_version(), rep@));
    }
    while i < len
        invariant
            i <= len,
            len == s@.len(),
            spec_replace(s@, pat_version(), rep@)
                == out@ + spec_replace(s@.skip(i as int), pat_version(), rep@),
        decreases len - i,
    {
        proof {
            reveal_strlit("{version}");
            assert("{version}"@ =~= pat_version());
        }
        let ghost tail = s@.skip(i as int);
        if match_at_exec(s, len, i, "{version}") {
            out.append(rep);
            proof {
                assert(tail.take(pat_version().len() as int)
                    =~= s@.subrange(i as int, i + pat_version().len()));
                assert(spec_replace(tail, pat_version(), rep@)
                    == rep@ + spec_replace(tail.skip(pat_version().len() as int), pat_version(), rep@));
                assert(s@.skip(i + 9 as int) =~= tail.skip(pat_version().len() as int));
            }
            i = i + 9;
        } else {
            push_char(&mut out, s.get_char(i));
            proof {
                assert(tail.len() > 0);
                assert(tail[0] == s@[i as int]);
                if pat_version().len() <= tail.len() {
                    assert(tail.take(pat_version().len() as int)
                        =~= s@.subrange(i as int, i + pat_version().len()));
                    assert(tail.take(pat_version().len() as int) != pat_version());
                }
                assert(spec_replace(tail, pat_version(), rep@)
                    == seq![tail[0]] + spec_replace(tail.drop_first(), pat_version(), rep@));
                assert(s@.skip(i + 1 as int) =~= tail.drop_first());
            }
            i = i + 1;
        }
    }
    proof {
        assert(s@.skip(len as int) =~= Seq::<char>::empty());
        assert(spec_replace(Seq::<char>::empty(), pat_version(), rep@) =~= Seq::<char>::empty());
        assert(out@ =~= spec_replace(s@, pat_version(), rep@));
    }
    out
}

// ---------------------------------------------------------------------------
// Trailing slash
// ---------------------------------------------------------------------------

/// Appends a slash unless the string already ends with one, as the server
/// URL is normalized. An empty string becomes a single slash.
pub fn ensure_trailing_slash(s: String) -> (r: String)
    ensures
        s@.len() > 0 && s@.last() == '/' ==> r@ == s@,
        !(s@.len() > 0 && s@.last() == '/') ==> r@ == s@.push('/'),
{
    let len: usize = s.as_str().unicode_len();
    if len > 0 && s.as_str().get_char(len - 1) == '/' {
        s
    } else {
        let mut r = s;
        push_char(&mut r, '/');
        r
    }
}

} // verus!
