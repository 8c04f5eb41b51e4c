//! Encoding and decoding of the cache file.
//!
//! The cache is persisted as a JSON array of objects, each holding the three
//! fields of an [`ImageUrl`](crate::entry::ImageUrl). The writer emits the
//! compact canonical form; the reader accepts exactly that form and reports
//! anything else as undecodable, which the store layer answers with a
//! destructive reset to the empty array.

use vstd::prelude::*;

use crate::entry::{EntryModel, ImageUrl, models};

verus! {

// ---------------------------------------------------------------------------
// Characters and digits
// ---------------------------------------------------------------------------

/// The decimal value of a digit character, or -1 for any other character.
pub open spec fn digit_of(c: char) -> int {
    if c == '0' { 0 } else if c == '1' { 1 } else if c == '2' { 2 }
    else if c == '3' { 3 } else if c == '4' { 4 } else if c == '5' { 5 }
    else if c == '6' { 6 } else if c == '7' { 7 } else if c == '8' { 8 }
    else if c == '9' { 9 } else { -1 }
}

/// The digit character for a value in 0..=9 (and '0' outside that range).
pub open spec fn digit_char(d: int) -> char {
    if d == 1 { '1' } else if d == 2 { '2' } else if d == 3 { '3' }
    else if d == 4 { '4' } else if d == 5 { '5' } else if d == 6 { '6' }
    else if d == 7 { '7' } else if d == 8 { '8' } else if d == 9 { '9' }
    else { '0' }
}

/// Decimal notation of a non-negative integer, most significant digit first,
/// without leading zeros.
pub open spec fn spec_digits(n: int) -> Seq<char>
    recommends n >= 0,
    decreases n,
{
    if n < 10 {
        seq![digit_char(n)]
    } else {
        spec_digits(n / 10) + seq![digit_char(n % 10)]
    }
}

/// How one character of a stored string is written: quotes and backslashes
/// get a backslash escape, every other character stands for itself.
pub open spec fn esc_char(c: char) -> Seq<char> {
    if c == '"' || c == '\\' { seq!['\\', c] } else { seq![c] }
}

/// The escaped form of a whole string.
pub open spec fn spec_escape(s: Seq<char>) -> Seq<char>
    decreases s.len(),
{
    if s.len() == 0 {
        Seq::<char>::empty()
    } else {
        esc_char(s[0]) + spec_escape(s.drop_first())
    }
}

// ---------------------------------------------------------------------------
// The canonical text of a record and of a whole store
// ---------------------------------------------------------------------------

/// The opening of a record, up to and including the quote of the id value.
pub open spec fn lbl_id() -> Seq<char> {
    seq!['{', '"', 'i', 'd', '"', ':', '"']
}

/// The text between the id value's closing quote and the url value.
pub open spec fn lbl_url() -> Seq<char> {
    seq![',', '"', 'u', 'r', 'l', '"', ':', '"']
}

/// The text between the url value's closing quote and the expiry number.
pub open spec fn lbl_exp() -> Seq<char> {
    seq![',', '"', 'e', 'x', 'p', 'i', 'r', 'a', 't', 'i', 'o', 'n', '_',
         'f', 'r', 'o', 'm', '_', 'u', 'n', 'i', 'x', '_',
         's', 'e', 'c', 'o', 'n', 'd', 's', '"', ':']
}

/// The canonical text of one record.
pub open spec fn spec_entry_text(e: EntryModel) -> Seq<char> {
    lbl_id() + spec_escape(e.id) + seq!['"']
        + lbl_url() + spec_escape(e.url) + seq!['"']
        + lbl_exp() + spec_digits(e.expiration) + seq!['}']
}

/// The canonical text of the records of a store, separated by commas.
pub open spec fn spec_items_text(es: Seq<EntryModel>) -> Seq<char>
    decreases es.len(),
{
    if es.len() == 0 {
        Seq::<char>::empty()
    } else if es.len() == 1 {
        spec_entry_text(es[0])
    } else {
        spec_entry_text(es[0]) + seq![','] + spec_items_text(es.drop_first())
    }
}

/// The canonical text of a whole store: a JSON array.
pub open spec fn spec_serialize(es: Seq<EntryModel>) -> Seq<char> {
    seq!['['] + spec_items_text(es) + seq![']']
}

// ---------------------------------------------------------------------------
// Trusted edge: appending one character to a String
// ---------------------------------------------------------------------------

/// Relies on std's `String::push`: appends exactly one character.
#[verifier::external_body]
pub(crate) fn push_char(s: &mut String, c: char)
    ensures
        final(s)@ == old(s)@.push(c),
{
    s.push(c);
}

// ---------------------------------------------------------------------------
// Writer
// ---------------------------------------------------------------------------

proof fn lemma_escape_app(a: Seq<char>, b: Seq<char>)
    ensures
        spec_escape(a + b) == spec_escape(a) + spec_escape(b),
    decreases a.len(),
{
    if a.len() == 0 {
        assert(a + b =~= b);
        assert(spec_escape(a) + spec_escape(b) =~= spec_escape(b));
    } else {
        assert((a + b).drop_first() =~= a.drop_first() + b);
        lemma_escape_app(a.drop_first(), b);
        assert(spec_escape(a + b) =~= spec_escape(a) + spec_escape(b));
    }
}

fn digit_char_exec(d: usize) -> (c: char)
    requires
        d < 10,
    ensures
        c == digit_char(d as int),
{
    if d == 1 { '1' } else if d == 2 { '2' } else if d == 3 { '3' }
    else if d == 4 { '4' } else if d == 5 { '5' } else if d == 6 { '6' }
    else if d == 7 { '7' } else if d == 8 { '8' } else if d == 9 { '9' }
    else { '0' }
}

fn write_escaped(out: &mut String, s: &str)
    ensures
        final(out)@ == old(out)@ + spec_escape(s@),
{
    let len: usize = s.unicode_len();
    let mut i: usize = 0;
    while i < len
        invariant
            i <= len,
            len == s@.len(),
            out@ == old(out)@ + spec_escape(s@.take(i as int)),
        decreases len - i,
    {
        let c = s.get_char(i);
        if c == '"' || c == '\\' {
            push_char(out, '\\');
            push_char(out, c);
        } else {
            push_char(out, c);
        }
        proof {
            assert(s@.take(i + 1 as int) =~= s@.take(i as int) + seq![s@[i as int]]);
            lemma_escape_app(s@.take(i as int), seq![s@[i as int]]);
            let cs = seq![s@[i as int]];
            assert(cs.len() == 1);
            assert(cs.drop_first() =~= Seq::<char>::empty());
            assert(spec_escape(cs) == esc_char(cs[0]) + spec_escape(cs.drop_first()));
            assert(spec_escape(Seq::<char>::empty()) == Seq::<char>::empty());
            assert(spec_escape(cs) =~= esc_char(s@[i as int]));
            assert(out@ =~= old(out)@ + spec_escape(s@.take(i + 1 as int)));
        }
        i = i + 1;
    }
    proof {
        assert(s@.take(len as int) =~= s@);
    }
}

fn write_number(out: &mut String, n: usize)
    ensures
        final(out)@ == old(out)@ + spec_digits(n as int),
    decreases n,
{
    if n < 10 {
        push_char(out, digit_char_exec(n));
        proof {
            assert(old(out)@.push(digit_char(n as int)) =~= old(out)@ + spec_digits(n as int));
        }
    } else {
        write_number(out, n / 10);
        push_char(out, digit_char_exec(n % 10));
        proof {
            assert(old(out)@ + spec_digits((n / 10) as int) + seq![digit_char((n % 10) as int)]
                =~= old(out)@ + spec_digits(n as int));
        }
    }
}

fn write_entry(out: &mut String, e: &ImageUrl)
    ensures
        final(out)@ == old(out)@ + spec_entry_text(e@),
{
    out.append("{\"id\":\"");
    proof {
        reveal_strlit("{\"id\":\"");
        assert("{\"id\":\""@ =~= lbl_id());
    }
    write_escaped(out, e.id.as_str());
    push_char(out, '"');
    out.append(",\"url\":\"");
    proof {
        reveal_strlit(",\"url\":\"");
        assert(",\"url\":\""@ =~= lbl_url());
    }
    write_escaped(out, e.url.as_str());
    push_char(out, '"');
    out.append(",\"expiration_from_unix_seconds\":");
    proof {
        reveal_strlit(",\"expiration_from_unix_seconds\":");
        assert(",\"expiration_from_unix_seconds\":"@ =~= lbl_exp());
    }
    write_number(out, e.expiration_from_unix_seconds);
    push_char(out, '}');
    proof {
        assert(out@ =~= old(out)@ + spec_entry_text(e@));
    }
}

proof fn lemma_items_text_snoc(es: Seq<EntryModel>, e: EntryModel)
    ensures
        spec_items_text(es.push(e)) == if es.len() == 0 {
            spec_entry_text(e)
        } else {
            spec_items_text(es) + seq![','] + spec_entry_text(e)
        },
    decreases es.len(),
{
    if es.len() == 0 {
        assert(es.push(e)[0] == e);
        assert(spec_items_text(es.push(e)) == spec_entry_text(e));
    } else {
        assert(es.push(e).drop_first() =~= es.drop_first().push(e));
        lemma_items_text_snoc(es.drop_first(), e);
        if es.len() == 1 {
            assert(spec_items_text(es.push(e))
                =~= spec_items_text(es) + seq![','] + spec_entry_text(e));
        } else {
            assert(spec_items_text(es.push(e))
                =~= spec_items_text(es) + seq![','] + spec_entry_text(e));
        }
    }
}

/// Writes the whole store in its canonical form.
pub fn serialize_entries(entries: &Vec<ImageUrl>) -> (r: String)
    ensures
        r@ == spec_serialize(models(entries@)),
{
    let mut out = String::new();
    push_char(&mut out, '[');
    let n = entries.len();
    let mut i: usize = 0;
    while i < n
        invariant
            i <= n,
            n == entries@.len(),
            out@ == seq!['['] + spec_items_text(models(entries@).take(i as int)),
        decreases n - i,
    {
        if i > 0 {
            push_char(&mut out, ',');
        }
        write_entry(&mut out, &entries[i]);
        proof {
            assert(models(entries@).take(i + 1 as int)
                =~= models(entries@).take(i as int).push(entries@[i as int]@));
            lemma_items_text_snoc(models(entries@).take(i as int), entries@[i as int]@);
            assert(out@ =~= seq!['['] + spec_items_text(models(entries@).take(i + 1 as int)));
        }
        i = i + 1;
    }
    push_char(&mut out, ']');
    proof {
        assert(models(entries@).take(n as int) =~= models(entries@));
        assert(out@ =~= spec_serialize(models(entries@)));
    }
    out
}

// ---------------------------------------------------------------------------
// Reader: the grammar, at the specification level
// ---------------------------------------------------------------------------

/// Whether `pat` occurs in `s` starting at position `i`.
pub open spec fn match_at(s: Seq<char>, i: int, pat: Seq<char>) -> bool {
    0 <= i && i + pat.len() <= s.len() && s.subrange(i, i + pat.len()) == pat
}

/// Reads a string value from position `i` up to and including its closing
/// quote. A backslash takes the next character literally.
pub open spec fn sp_string(s: Seq<char>, i: int) -> Option<(Seq<char>, int)>
    recommends 0 <= i,
    decreases s.len() - i,
{
    if 0 <= i && i < s.len() {
        if s[i] == '"' {
            Some((Seq::<char>::empty(), i + 1))
        } else if s[i] == '\\' {
            if i + 1 < s.len() {
                match sp_string(s, i + 2) {
                    Some(p) => Some((seq![s[i + 1]] + p.0, p.1)),
                    None => None,
                }
            } else {
                None
            }
        } else {
            match sp_string(s, i + 1) {
                Some(p) => Some((seq![s[i]] + p.0, p.1)),
                None => None,
            }
        }
    } else {
        None
    }
}

/// Folds decimal digits from position `i`, starting from `acc`, and stops at
/// the first non-digit. A value beyond `usize::MAX` is a decode failure.
pub open spec fn sp_num_loop(s: Seq<char>, i: int, acc: int) -> Option<(int, int)>
    recommends 0 <= i,
    decreases s.len() - i,
{
    if 0 <= i && i < s.len() && digit_of(s[i]) >= 0 {
        if acc * 10 + digit_of(s[i]) > usize::MAX as int {
            None
        } else {
            sp_num_loop(s, i + 1, acc * 10 + digit_of(s[i]))
        }
    } else {
        Some((acc, i))
    }
}

/// Reads a number: at least one digit, folded by `sp_num_loop`.
pub open spec fn sp_number(s: Seq<char>, i: int) -> Option<(int, int)> {
    if 0 <= i && i < s.len() && digit_of(s[i]) >= 0 {
        sp_num_loop(s, i, 0)
    } else {
        None
    }
}

/// Reads one record object starting at position `i`.
pub open spec fn sp_entry(s: Seq<char>, i: int) -> Option<(EntryModel, int)> {
    if match_at(s, i, lbl_id()) {
        match sp_string(s, i + lbl_id().len()) {
            Some(idp) => if match_at(s, idp.1, lbl_url()) {
                match sp_string(s, idp.1 + lbl_url().len()) {
                    Some(urlp) => if match_at(s, urlp.1, lbl_exp()) {
                        match sp_number(s, urlp.1 + lbl_exp().len()) {
                            Some(nump) => if nump.1 < s.len() && s[nump.1] == '}' {
                                Some((
                                    EntryModel { id: idp.0, url: urlp.0, expiration: nump.0 },
                                    nump.1 + 1,
                                ))
                            } else {
                                None
                            },
                            None => None,
                        }
                    } else {
                        None
                    },
                    None => None,
                }
            } else {
                None
            },
            None => None,
        }
    } else {
        None
    }
}

/// Reads a non-empty comma-separated list of records starting at `i`.
pub open spec fn sp_items(s: Seq<char>, i: int) -> Option<(Seq<EntryModel>, int)>
    recommends 0 <= i,
    decreases s.len() - i,
{
    match sp_entry(s, i) {
        Some(ep) => if ep.1 < s.len() && s[ep.1] == ',' {
            if i < ep.1 {
                match sp_items(s, ep.1 + 1) {
                    Some(esp) => Some((seq![ep.0] + esp.0, esp.1)),
                    None => None,
                }
            } else {
                None
            }
        } else {
            Some((seq![ep.0], ep.1))
        },
        None => None,
    }
}

/// Decodes a whole store: a JSON array covering the entire text.
pub open spec fn sp_parse(s: Seq<char>) -> Option<Seq<EntryModel>> {
    if s.len() >= 2 && s[0] == '[' {
        if s[1] == ']' {
            if s.len() == 2 {
                Some(Seq::<EntryModel>::empty())
            } else {
                None
            }
        } else {
            match sp_items(s, 1) {
                Some(esp) => if esp.1 + 1 == s.len() && esp.1 < s.len() && s[esp.1] == ']' {
                    Some(esp.0)
                } else {
                    None
                },
                None => None,
            }
        }
    } else {
        None
    }
}

// ---------------------------------------------------------------------------
// Reader: executable
// ---------------------------------------------------------------------------

fn digit_val(c: char) -> (r: Option<usize>)
    ensures
        match r {
            Some(d) => digit_of(c) == d && d < 10,
            None => digit_of(c) < 0,
        },
{
    if c == '0' { Some(0) } else if c == '1' { Some(1) } else if c == '2' { Some(2) }
    else if c == '3' { Some(3) } else if c == '4' { Some(4) } else if c == '5' { Some(5) }
    else if c == '6' { Some(6) } else if c == '7' { Some(7) } else if c == '8' { Some(8) }
    else if c == '9' { Some(9) } else { None }
}

fn parse_string_at(s: &str, len: usize, i: usize) -> (r: Option<(String, usize)>)
    requires
        len == s@.len(),
        i <= len,
    ensures
        match r {
            Some(p) => p.1 <= len && sp_string(s@, i as int) == Some((p.0@, p.1 as int)),
            None => sp_string(s@, i as int) is None,
        },
    decreases len - i,
{
    if i >= len {
        return None;
    }
    let c = s.get_char(i);
    if c == '"' {
        Some((String::new(), i + 1))
    } else if c == '\\' {
        if i + 1 < len {
            let c2 = s.get_char(i + 1);
            match parse_string_at(s, len, i + 2) {
                Some((t, j)) => {
                    let mut piece = String::new();
                    push_char(&mut piece, c2);
                    piece.append(t.as_str());
                    proof {
                        assert(piece@ =~= seq![s@[i + 1 as int]] + t@);
                    }
                    Some((piece, j))
                },
                None => None,
            }
        } else {
            None
        }
    } else {
        match parse_string_at(s, len, i + 1) {
            Some((t, j)) => {
                let mut piece = String::new();
                push_char(&mut piece, c);
                piece.append(t.as_str());
                proof {
                    assert(piece@ =~= seq![s@[i as int]] + t@);
                }
                Some((piece, j))
            },
            None => None,
        }
    }
}

fn parse_num_loop(s: &str, len: usize, i: usize, acc: usize) -> (r: Option<(usize, usize)>)
    requires
        len == s@.len(),
        i <= len,
    ensures
        match r {
            Some(p) => p.1 <= len && sp_num_loop(s@, i as int, acc as int)
                == Some((p.0 as int, p.1 as int)),
            None => sp_num_loop(s@, i as int, acc as int) is None,
        },
    decreases len - i,
{
    if i < len {
        let c = s.get_char(i);
        match digit_val(c) {
            Some(d) => {
                match acc.checked_mul(10) {
                    Some(m) => match m.checked_add(d) {
                        Some(v) => parse_num_loop(s, len, i + 1, v),
                        None => None,
                    },
                    None => None,
                }
            },
            None => Some((acc, i)),
        }
    } else {
        Some((acc, i))
    }
}

fn parse_number_at(s: &str, len: usize, i: usize) -> (r: Option<(usize, usize)>)
    requires
        len == s@.len(),
        i <= len,
    ensures
        match r {
            Some(p) => p.1 <= len && sp_number(s@, i as int) == Some((p.0 as int, p.1 as int)),
            None => sp_number(s@, i as int) is None,
        },
{
    if i < len {
        let c = s.get_char(i);
        match digit_val(c) {
            Some(_) => parse_num_loop(s, len, i, 0),
            None => None,
        }
    } else {
        None
    }
}

/// Compares `pat` against `s` at position `i`, character by character.
pub(crate) fn match_at_exec(s: &str, len: usize, i: usize, pat: &str) -> (b: bool)
    requires
        len == s@.len(),
        i <= len,
    ensures
        b == match_at(s@, i as int, pat@),
{
    let plen: usize = pat.unicode_len();
    if plen > len - i {
        proof {
            assert(!match_at(s@, i as int, pat@));
        }
        return false;
    }
    let mut j: usize = 0;
    while j < plen
        invariant
            j <= plen,
            len == s@.len(),
            plen == pat@.len(),
            i + plen <= len,
            forall|k: int| 0 <= k < j ==> s@[i + k] == pat@[k],
        decreases plen - j,
    {
        if s.get_char(i + j) != pat.get_char(j) {
            proof {
                assert(s@.subrange(i as int, i + pat@.len()) != pat@) by {
                    assert(s@.subrange(i as int, i + pat@.len())[j as int] != pat@[j as int]);
                }
            }
            return false;
        }
        j = j + 1;
    }
    proof {
        assert(s@.subrange(i as int, i + pat@.len()) =~= pat@);
    }
    true
}

fn parse_entry_at(s: &str, len: usize, i: usize) -> (r: Option<(ImageUrl, usize)>)
    requires
        len == s@.len(),
        i <= len,
    ensures
        match r {
            Some(p) => p.1 <= len && sp_entry(s@, i as int) == Some((p.0@, p.1 as int)),
            None => sp_entry(s@, i as int) is None,
        },
{
    proof {
        reveal_strlit("{\"id\":\"");
        assert("{\"id\":\""@ =~= lbl_id());
        reveal_strlit(",\"url\":\"");
        assert(",\"url\":\""@ =~= lbl_url());
        reveal_strlit(",\"expiration_from_unix_seconds\":");
        assert(",\"expiration_from_unix_seconds\":"@ =~= lbl_exp());
    }
    if !match_at_exec(s, len, i, "{\"id\":\"") {
        return None;
    }
    let (id, j) = match parse_string_at(s, len, i + 7) {
        Some(p) => p,
        None => { return None; },
    };
    if !match_at_exec(s, len, j, ",\"url\":\"") {
        return None;
    }
    let (url, k) = match parse_string_at(s, len, j + 8) {
        Some(p) => p,
        None => { return None; },
    };
    if !match_at_exec(s, len, k, ",\"expiration_from_unix_seconds\":") {
        return None;
    }
    let (num, m) = match parse_number_at(s, len, k + 32) {
        Some(p) => p,
        None => { return None; },
    };
    if m < len && s.get_char(m) == '}' {
        Some((ImageUrl { id, url, expiration_from_unix_seconds: num }, m + 1))
    } else {
        None
    }
}

fn parse_items_at(s: &str, len: usize, i: usize) -> (r: Option<(Vec<ImageUrl>, usize)>)
    requires
        len == s@.len(),
        i <= len,
    ensures
        match r {
            Some(p) => p.1 <= len && sp_items(s@, i as int) == Some((models(p.0@), p.1 as int)),
            None => sp_items(s@, i as int) is None,
        },
    decreases len - i,
{
    let (e, j) = match parse_entry_at(s, len, i) {
        Some(p) => p,
        None => { return None; },
    };
    if j < len && s.get_char(j) == ',' {
        if i < j {
            match parse_items_at(s, len, j + 1) {
                Some((mut rest, k)) => {
                    rest.insert(0, e);
                    proof {
                        assert(models(rest@) =~= seq![rest@[0]@] + models(rest@.drop_first()));
                    }
                    Some((rest, k))
                },
                None => None,
            }
        } else {
            None
        }
    } else {
        let mut one: Vec<ImageUrl> = Vec::new();
        let ghost ev = e@;
        one.push(e);
        proof {
            assert(models(one@) =~= seq![ev]);
        }
        Some((one, j))
    }
}

/// Decodes the canonical text of a store. Returns `None` for any text that is
/// not a canonical store encoding.
pub fn parse_entries(s: &str) -> (r: Option<Vec<ImageUrl>>)
    ensures
        match r {
            Some(v) => sp_parse(s@) == Some(models(v@)),
            None => sp_parse(s@) is None,
        },
{
    let len: usize = s.unicode_len();
    if len >= 2 && s.get_char(0) == '[' {
        if s.get_char(1) == ']' {
            if len == 2 {
                let empty: Vec<ImageUrl> = Vec::new();
                proof {
                    assert(models(empty@) =~= Seq::<EntryModel>::empty());
                }
                Some(empty)
            } else {
                None
            }
        } else {
            match parse_items_at(s, len, 1) {
                Some((v, j)) => {
                    if j < len && j + 1 == len && s.get_char(j) == ']' {
                        Some(v)
                    } else {
                        None
                    }
                },
                None => None,
            }
        }
    } else {
        None
    }
}

// ---------------------------------------------------------------------------
// Round trip: decoding a canonical encoding recovers the records
// ---------------------------------------------------------------------------

proof fn lemma_subrange_piece(s: Seq<char>, i: int, t: Seq<char>, o: int, p: Seq<char>)
    requires
        0 <= i,
        i + t.len() <= s.len(),
        s.subrange(i, i + t.len()) == t,
        0 <= o,
        o + p.len() <= t.len(),
        t.subrange(o, o + p.len()) == p,
    ensures
        s.subrange(i + o, i + o + p.len()) == p,
{
    assert forall|k: int| 0 <= k < p.len() implies s[i + o + k] == p[k] by {
        assert(s.subrange(i, i + t.len())[o + k] == s[i + o + k]);
        assert(t.subrange(o, o + p.len())[k] == t[o + k]);
    }
    assert(s.subrange(i + o, i + o + p.len()) =~= p);
}

proof fn lemma_sp_string_round(s: Seq<char>, i: int, t: Seq<char>)
    requires
        0 <= i,
        i + spec_escape(t).len() + 1 <= s.len(),
        s.subrange(i, i + spec_escape(t).len()) == spec_escape(t),
        s[i + spec_escape(t).len()] == '"',
    ensures
        sp_string(s, i) == Some((t, i + spec_escape(t).len() + 1)),
    decreases t.len(),
{
    if t.len() == 0 {
        assert(spec_escape(t).len() == 0);
        assert(s[i] == '"');
    } else {
        let c = t[0];
        let t2 = t.drop_first();
        assert(spec_escape(t) == esc_char(c) + spec_escape(t2));
        let el = spec_escape(t).len() as int;
        assert forall|k: int| 0 <= k < el implies s[i + k] == spec_escape(t)[k] by {
            assert(s.subrange(i, i + el)[k] == s[i + k]);
        }
        if c == '"' || c == '\\' {
            assert(spec_escape(t)[0] == '\\');
            assert(spec_escape(t)[1] == c);
            assert(s[i] == '\\');
            assert(s[i + 1] == c);
            assert(s.subrange(i + 2, i + 2 + spec_escape(t2).len())
                =~= spec_escape(t2)) by {
                assert forall|k: int| 0 <= k < spec_escape(t2).len()
                    implies s[i + 2 + k] == spec_escape(t2)[k] by {
                    assert(spec_escape(t)[2 + k] == spec_escape(t2)[k]);
                }
            }
            lemma_sp_string_round(s, i + 2, t2);
            assert(seq![s[i + 1]] + t2 =~= t);
        } else {
            assert(spec_escape(t)[0] == c);
            assert(s[i] == c);
            assert(s.subrange(i + 1, i + 1 + spec_escape(t2).len())
                =~= spec_escape(t2)) by {
                assert forall|k: int| 0 <= k < spec_escape(t2).len()
                    implies s[i + 1 + k] == spec_escape(t2)[k] by {
                    assert(spec_escape(t)[1 + k] == spec_escape(t2)[k]);
                }
            }
            lemma_sp_string_round(s, i + 1, t2);
            assert(seq![s[i]] + t2 =~= t);
        }
    }
}

/// Folding decimal digits from an accumulator, as the reader does.
spec fn fold_val(acc: int, ds: Seq<char>) -> int
    decreases ds.len(),
{
    if ds.len() == 0 {
        acc
    } else {
        fold_val(acc * 10 + digit_of(ds[0]), ds.drop_first())
    }
}

spec fn all_digits(ds: Seq<char>) -> bool {
    forall|k: int| 0 <= k < ds.len() ==> digit_of(#[trigger] ds[k]) >= 0
}

proof fn lemma_fold_val_lower(acc: int, ds: Seq<char>)
    requires
        acc >= 0,
        all_digits(ds),
    ensures
        fold_val(acc, ds) >= acc,
    decreases ds.len(),
{
    if ds.len() > 0 {
        assert(digit_of(ds[0]) >= 0);
        assert(all_digits(ds.drop_first())) by {
            assert forall|k: int| 0 <= k < ds.drop_first().len()
                implies digit_of(#[trigger] ds.drop_first()[k]) >= 0 by {
                assert(ds.drop_first()[k] == ds[k + 1]);
            }
        }
        lemma_fold_val_lower(acc * 10 + digit_of(ds[0]), ds.drop_first());
    }
}

proof fn lemma_consume_digits(s: Seq<char>, i: int, acc: int, ds: Seq<char>)
    requires
        0 <= i,
        acc >= 0,
        all_digits(ds),
        i + ds.len() <= s.len(),
        s.subrange(i, i + ds.len()) == ds,
        i + ds.len() == s.len() || digit_of(s[i + ds.len()]) < 0,
        fold_val(acc, ds) <= usize::MAX as int,
    ensures
        sp_num_loop(s, i, acc) == Some((fold_val(acc, ds), i + ds.len())),
    decreases ds.len(),
{
    if ds.len() == 0 {
        assert(i == s.len() || digit_of(s[i]) < 0);
    } else {
        assert forall|k: int| 0 <= k < ds.len() implies s[i + k] == ds[k] by {
            assert(s.subrange(i, i + ds.len())[k] == s[i + k]);
        }
        let d = digit_of(ds[0]);
        assert(d >= 0);
        assert(s[i] == ds[0]);
        let acc2 = acc * 10 + d;
        let ds2 = ds.drop_first();
        assert(all_digits(ds2)) by {
            assert forall|k: int| 0 <= k < ds2.len()
                implies digit_of(#[trigger] ds2[k]) >= 0 by {
                assert(ds2[k] == ds[k + 1]);
            }
        }
        assert(fold_val(acc, ds) == fold_val(acc2, ds2));
        lemma_fold_val_lower(acc2, ds2);
        assert(acc2 <= usize::MAX as int);
        assert(s.subrange(i + 1, i + 1 + ds2.len()) =~= ds2) by {
            assert forall|k: int| 0 <= k < ds2.len() implies s[i + 1 + k] == ds2[k] by {
                assert(ds2[k] == ds[k + 1]);
            }
        }
        lemma_consume_digits(s, i + 1, acc2, ds2);
    }
}

proof fn lemma_fold_app(acc: int, a: Seq<char>, b: Seq<char>)
    ensures
        fold_val(acc, a + b) == fold_val(fold_val(acc, a), b),
    decreases a.len(),
{
    if a.len() == 0 {
        assert(a + b =~= b);
    } else {
        assert((a + b).drop_first() =~= a.drop_first() + b);
        assert((a + b)[0] == a[0]);
        lemma_fold_app(acc * 10 + digit_of(a[0]), a.drop_first(), b);
    }
}

proof fn lemma_fold_digits(n: int)
    requires
        n >= 0,
    ensures
        fold_val(0, spec_digits(n)) == n,
        all_digits(spec_digits(n)),
        spec_digits(n).len() >= 1,
    decreases n,
{
    if n < 10 {
        assert(digit_of(digit_char(n)) == n);
        assert(spec_digits(n) == seq![digit_char(n)]);
        assert(spec_digits(n).drop_first() =~= Seq::<char>::empty());
        assert(spec_digits(n)[0] == digit_char(n));
        assert(fold_val(0, spec_digits(n))
            == fold_val(0 * 10 + digit_of(spec_digits(n)[0]), spec_digits(n).drop_first()));
        assert(fold_val(n, Seq::<char>::empty()) == n);
    } else {
        lemma_fold_digits(n / 10);
        let hi = spec_digits(n / 10);
        let lo = seq![digit_char(n % 10)];
        assert(digit_of(digit_char(n % 10)) == n % 10);
        lemma_fold_app(0, hi, lo);
        assert(lo.drop_first() =~= Seq::<char>::empty());
        assert(lo[0] == digit_char(n % 10));
        assert(fold_val(n / 10, lo)
            == fold_val((n / 10) * 10 + digit_of(lo[0]), lo.drop_first()));
        assert(fold_val((n / 10) * 10 + (n % 10), Seq::<char>::empty())
            == (n / 10) * 10 + n % 10);
        assert(fold_val(n / 10, lo) == (n / 10) * 10 + n % 10);
        assert((n / 10) * 10 + n % 10 == n) by {
            vstd::arithmetic::div_mod::lemma_fundamental_div_mod(n, 10);
        }
        assert(all_digits(hi + lo)) by {
            assert forall|k: int| 0 <= k < (hi + lo).len()
                implies digit_of(#[trigger] (hi + lo)[k]) >= 0 by {
                if k < hi.len() {
                    assert((hi + lo)[k] == hi[k]);
                } else {
                    assert((hi + lo)[k] == digit_char(n % 10));
                }
            }
        }
    }
}

proof fn lemma_sp_number_round(s: Seq<char>, i: int, n: int)
    requires
        0 <= i,
        0 <= n <= usize::MAX as int,
        i + spec_digits(n).len() <= s.len(),
        s.subrange(i, i + spec_digits(n).len()) == spec_digits(n),
        i + spec_digits(n).len() == s.len() || digit_of(s[i + spec_digits(n).len()]) < 0,
    ensures
        sp_number(s, i) == Some((n, i + spec_digits(n).len())),
{
    lemma_fold_digits(n);
    assert(s[i] == spec_digits(n)[0]) by {
        assert(s.subrange(i, i + spec_digits(n).len())[0] == s[i]);
    }
    assert(digit_of(s[i]) >= 0);
    lemma_consume_digits(s, i, 0, spec_digits(n));
}

proof fn lemma_sp_entry_round(s: Seq<char>, i: int, e: EntryModel)
    requires
        0 <= i,
        0 <= e.expiration <= usize::MAX as int,
        i + spec_entry_text(e).len() <= s.len(),
        s.subrange(i, i + spec_entry_text(e).len()) == spec_entry_text(e),
    ensures
        sp_entry(s, i) == Some((e, i + spec_entry_text(e).len())),
{
    let t = spec_entry_text(e);
    let eid = spec_escape(e.id);
    let eurl = spec_escape(e.url);
    let nd = spec_digits(e.expiration);
    let o1 = 7 as int;
    let o2 = o1 + eid.len();
    let o3 = o2 + 1;
    let o4 = o3 + 8;
    let o5 = o4 + eurl.len();
    let o6 = o5 + 1;
    let o7 = o6 + 32;
    let o8 = o7 + nd.len();
    assert(lbl_id().len() == 7);
    assert(lbl_url().len() == 8);
    assert(lbl_exp().len() == 32);
    assert(t.len() == o8 + 1);
    assert(t.subrange(0, 7) =~= lbl_id());
    assert(t.subrange(o1, o2) =~= eid);
    assert(t[o2] == '"');
    assert(t.subrange(o2 + 1, o2 + 1 + 8) =~= lbl_url());
    assert(t.subrange(o4, o5) =~= eurl);
    assert(t[o5] == '"');
    assert(t.subrange(o5 + 1, o5 + 1 + 32) =~= lbl_exp());
    assert(t.subrange(o7, o8) =~= nd);
    assert(t[o8] == '}');
    assert forall|k: int| 0 <= k < t.len() implies s[i + k] == t[k] by {
        assert(s.subrange(i, i + t.len())[k] == s[i + k]);
    }
    lemma_subrange_piece(s, i, t, 0, lbl_id());
    assert(match_at(s, i, lbl_id()));
    lemma_subrange_piece(s, i, t, o1, eid);
    assert(s[i + o2] == '"');
    lemma_sp_string_round(s, i + o1, e.id);
    lemma_subrange_piece(s, i, t, o2 + 1, lbl_url());
    assert(match_at(s, i + o3, lbl_url()));
    lemma_subrange_piece(s, i, t, o4, eurl);
    assert(s[i + o5] == '"');
    lemma_sp_string_round(s, i + o4, e.url);
    lemma_subrange_piece(s, i, t, o5 + 1, lbl_exp());
    assert(match_at(s, i + o6, lbl_exp()));
    lemma_subrange_piece(s, i, t, o7, nd);
    assert(s[i + o8] == '}');
    assert(digit_of('}') < 0);
    lemma_sp_number_round(s, i + o7, e.expiration);
    assert(sp_entry(s, i) == Some((e, i + t.len())));
}

pub open spec fn valid_expirations(es: Seq<EntryModel>) -> bool {
    forall|k: int| 0 <= k < es.len()
        ==> 0 <= (#[trigger] es[k]).expiration <= usize::MAX as int
}

proof fn lemma_sp_items_round(s: Seq<char>, i: int, es: Seq<EntryModel>)
    requires
        0 <= i,
        es.len() >= 1,
        valid_expirations(es),
        i + spec_items_text(es).len() < s.len(),
        s.subrange(i, i + spec_items_text(es).len()) == spec_items_text(es),
        s[i + spec_items_text(es).len()] == ']',
    ensures
        sp_items(s, i) == Some((es, i + spec_items_text(es).len())),
    decreases es.len(),
{
    let t = spec_items_text(es);
    let e0 = spec_entry_text(es[0]);
    assert forall|k: int| 0 <= k < t.len() implies s[i + k] == t[k] by {
        assert(s.subrange(i, i + t.len())[k] == s[i + k]);
    }
    if es.len() == 1 {
        assert(t == e0);
        lemma_sp_entry_round(s, i, es[0]);
        let j = i + e0.len();
        assert(s[j] == ']');
        assert(!(j < s.len() && s[j] == ','));
        assert(seq![es[0]] =~= es);
    } else {
        let rest = es.drop_first();
        let rt = spec_items_text(rest);
        assert(t == e0 + seq![','] + rt);
        assert(t.subrange(0, e0.len() as int) =~= e0);
        lemma_subrange_piece(s, i, t, 0, e0);
        lemma_sp_entry_round(s, i, es[0]);
        let j = i + e0.len();
        assert(t[e0.len() as int] == ',');
        assert(s[j] == ',');
        assert(e0.len() > 0);
        assert(t.subrange(e0.len() + 1 as int, t.len() as int) =~= rt);
        lemma_subrange_piece(s, i, t, e0.len() + 1 as int, rt);
        assert(valid_expirations(rest)) by {
            assert forall|k: int| 0 <= k < rest.len()
                implies 0 <= (#[trigger] rest[k]).expiration <= usize::MAX as int by {
                assert(rest[k] == es[k + 1]);
            }
        }
        assert(s[j + 1 + rt.len()] == ']');
        lemma_sp_items_round(s, j + 1, rest);
        assert(seq![es[0]] + rest =~= es);
    }
}

/// The expiry instants of real records always fit the stored integer.
pub proof fn lemma_models_valid(es: Seq<ImageUrl>)
    ensures
        valid_expirations(models(es)),
{
    assert forall|k: int| 0 <= k < models(es).len()
        implies 0 <= (#[trigger] models(es)[k]).expiration <= usize::MAX as int by {
        assert(models(es)[k] == es[k]@);
    }
}

/// Law: decoding the canonical encoding of any records recovers exactly the
/// records that were written, in order — writing a store then loading it
/// loses nothing and invents nothing, whatever the identifiers and URLs
/// contain.
pub proof fn lemma_store_round_trip(es: Seq<ImageUrl>)
    ensures
        sp_parse(spec_serialize(models(es))) == Some(models(es)),
{
    lemma_models_valid(es);
    lemma_round_trip(models(es));
}

/// Law: decoding a canonical encoding recovers exactly the records that were
/// written, in order — writing then loading loses nothing and invents
/// nothing, whatever the identifiers and URLs contain.
pub proof fn lemma_round_trip(es: Seq<EntryModel>)
    requires
        valid_expirations(es),
    ensures
        sp_parse(spec_serialize(es)) == Some(es),
{
    let s = spec_serialize(es);
    let t = spec_items_text(es);
    assert(s.len() == t.len() + 2);
    assert(s[0] == '[');
    assert(s[s.len() - 1] == ']');
    if es.len() == 0 {
        assert(t.len() == 0);
        assert(s.len() == 2);
        assert(s[1] == ']');
        assert(sp_parse(s) == Some(Seq::<EntryModel>::empty()));
        assert(Seq::<EntryModel>::empty() =~= es);
    } else {
        assert(t[0] == '{') by {
            assert(t[0] == spec_entry_text(es[0])[0]);
            assert(spec_entry_text(es[0])[0] == lbl_id()[0]);
        }
        assert(s[1] == t[0]);
        assert(s[1] != ']');
        assert(s.subrange(1, t.len() + 1 as int) =~= t);
        assert(s[t.len() + 1 as int] == ']');
        lemma_sp_items_round(s, 1, es);
    }
}

} // verus!
