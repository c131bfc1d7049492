//! Ordered query strings: declarative parameters with per-parameter
//! inclusion policies, an emitter, a parser, and the proof that parsing
//! an emitted query string gives back exactly the emitted pairs.

use vstd::prelude::*;
use vstd::string::StringSliceAdditionalSpecFns;
use crate::encode::encoded;
use crate::encode::decoded;
use crate::encode::is_encoded_output_byte;
use crate::encode::lemma_encoded_bytes_wf;
use crate::encode::lemma_decoded_encoded;

verus! {

/// When a declared query parameter is written into the query string:
/// unconditionally, or only when its raw value is non-empty.
#[derive(Clone, Copy, PartialEq, Eq, Structural)]
pub enum IncludePolicy {
    Always,
    IfNonEmpty,
}

/// One declared query parameter: name, raw value, inclusion policy.
pub struct QueryParam {
    pub name: Vec<u8>,
    pub value: Vec<u8>,
    pub policy: IncludePolicy,
}

/// Whether a parameter's policy admits it into the query string.
pub open spec fn param_included(p: QueryParam) -> bool {
    p.policy == IncludePolicy::Always || p.value@.len() > 0
}

/// `name=value` with both sides percent-encoded.
pub open spec fn pair_bytes(p: (Seq<u8>, Seq<u8>)) -> Seq<u8> {
    encoded(p.0) + seq![crate::encode::B_EQ] + encoded(p.1)
}

/// The emitted query string for an ordered list of (name, value) pairs:
/// the encoded pairs joined by `&`, in the given order.
pub open spec fn emit_pairs(ps: Seq<(Seq<u8>, Seq<u8>)>) -> Seq<u8>
    decreases ps.len(),
{
    if ps.len() == 0 {
        Seq::empty()
    } else if ps.len() == 1 {
        pair_bytes(ps[0])
    } else {
        pair_bytes(ps[0]) + seq![crate::encode::B_AMP] + emit_pairs(ps.drop_first())
    }
}

/// The (name, value) pairs that the policies admit, in declaration order.
pub open spec fn included_pairs(ps: Seq<QueryParam>) -> Seq<(Seq<u8>, Seq<u8>)>
    decreases ps.len(),
{
    if ps.len() == 0 {
        Seq::empty()
    } else {
        (if param_included(ps[0]) {
            seq![(ps[0].name@, ps[0].value@)]
        } else {
            Seq::empty()
        }) + included_pairs(ps.drop_first())
    }
}

/// The full query string of an ordered parameter list.
pub open spec fn query_string(ps: Seq<QueryParam>) -> Seq<u8> {
    emit_pairs(included_pairs(ps))
}

/// Index of the first occurrence of `c` in `s`, or `s.len()` if absent.
pub open spec fn find_byte(s: Seq<u8>, c: u8) -> int
    decreases s.len(),
{
    if s.len() == 0 {
        0
    } else if s[0] == c {
        0
    } else {
        1 + find_byte(s.drop_first(), c)
    }
}

/// One parsed pair: split at the first `=`, percent-decode both sides;
/// a pair without `=` is a name with an empty value.
pub open spec fn parse_pair(p: Seq<u8>) -> (Seq<u8>, Seq<u8>) {
    let j = find_byte(p, crate::encode::B_EQ);
    if 0 <= j && j < p.len() {
        (decoded(p.take(j)), decoded(p.skip(j + 1)))
    } else {
        (decoded(p), Seq::empty())
    }
}

/// The pairs of a query string: split on `&`, parse each piece.
pub open spec fn parse_pairs(s: Seq<u8>) -> Seq<(Seq<u8>, Seq<u8>)>
    decreases s.len(),
{
    if s.len() == 0 {
        Seq::empty()
    } else {
        let i = find_byte(s, crate::encode::B_AMP);
        if 0 <= i && i < s.len() {
            seq![parse_pair(s.take(i))] + parse_pairs(s.skip(i + 1))
        } else {
            seq![parse_pair(s)]
        }
    }
}

proof fn lemma_find_byte_is_first(s: Seq<u8>, c: u8, n: int)
    requires
        0 <= n <= s.len(),
        forall|k: int| 0 <= k < n ==> s[k] != c,
        n == s.len() || s[n] == c,
    ensures
        find_byte(s, c) == n,
    decreases n,
{
    if n == 0 {
    } else {
        assert(s[0] != c);
        lemma_find_byte_is_first(s.drop_first(), c, n - 1);
    }
}

/// No byte of an encoded string is `&` or `=`.
proof fn lemma_encoded_no_separator(s: Seq<u8>)
    ensures
        forall|k: int|
            0 <= k < encoded(s).len() ==> encoded(s)[k] != crate::encode::B_AMP && encoded(s)[k]
                != crate::encode::B_EQ,
{
    lemma_encoded_bytes_wf(s);
    assert forall|k: int|
        0 <= k < encoded(s).len() implies encoded(s)[k] != crate::encode::B_AMP && encoded(s)[k]
        != crate::encode::B_EQ by {
        assert(is_encoded_output_byte(encoded(s)[k]));
        assert(!is_encoded_output_byte(crate::encode::B_AMP));
        assert(!is_encoded_output_byte(crate::encode::B_EQ));
    }
}

/// Parsing one emitted pair gives the pair back.
proof fn lemma_parse_pair_of_pair_bytes(p: (Seq<u8>, Seq<u8>))
    ensures
        parse_pair(pair_bytes(p)) == p,
{
    let s = pair_bytes(p);
    let n = encoded(p.0).len() as int;
    lemma_encoded_no_separator(p.0);
    lemma_encoded_no_separator(p.1);
    assert(s[n] == crate::encode::B_EQ);
    assert forall|k: int| 0 <= k < n implies s[k] != crate::encode::B_EQ by {
        assert(s[k] == encoded(p.0)[k]);
    }
    lemma_find_byte_is_first(s, crate::encode::B_EQ, n);
    assert(s.take(n) =~= encoded(p.0));
    assert(s.skip(n + 1) =~= encoded(p.1));
    lemma_decoded_encoded(p.0);
    lemma_decoded_encoded(p.1);
    assert(parse_pair(s).0 == p.0);
    assert(parse_pair(s).1 == p.1);
}

/// An emitted pair contains no `&`.
proof fn lemma_pair_bytes_no_amp(p: (Seq<u8>, Seq<u8>))
    ensures
        forall|k: int| 0 <= k < pair_bytes(p).len() ==> pair_bytes(p)[k] != crate::encode::B_AMP,
{
    let s = pair_bytes(p);
    lemma_encoded_no_separator(p.0);
    lemma_encoded_no_separator(p.1);
    assert forall|k: int| 0 <= k < s.len() implies s[k] != crate::encode::B_AMP by {
        let n = encoded(p.0).len() as int;
        if k < n {
            assert(s[k] == encoded(p.0)[k]);
        } else if k == n {
            assert(s[k] == crate::encode::B_EQ);
        } else {
            assert(s[k] == encoded(p.1)[k - n - 1]);
        }
    }
}

proof fn lemma_emit_parse(pairs: Seq<(Seq<u8>, Seq<u8>)>)
    ensures
        parse_pairs(emit_pairs(pairs)) == pairs,
    decreases pairs.len(),
{
    if pairs.len() == 0 {
        assert(parse_pairs(emit_pairs(pairs)) =~= pairs);
    } else if pairs.len() == 1 {
        let s = emit_pairs(pairs);
        assert(s == pair_bytes(pairs[0]));
        assert(s.len() > encoded(pairs[0].0).len());
        lemma_pair_bytes_no_amp(pairs[0]);
        lemma_find_byte_is_first(s, crate::encode::B_AMP, s.len() as int);
        lemma_parse_pair_of_pair_bytes(pairs[0]);
        assert(parse_pairs(s) == seq![parse_pair(s)]);
        assert(parse_pairs(s) =~= pairs);
    } else {
        let p0 = pairs[0];
        let rest = pairs.drop_first();
        let s = emit_pairs(pairs);
        let n = pair_bytes(p0).len() as int;
        assert(s == pair_bytes(p0) + seq![crate::encode::B_AMP] + emit_pairs(rest));
        lemma_pair_bytes_no_amp(p0);
        assert forall|k: int| 0 <= k < n implies s[k] != crate::encode::B_AMP by {
            assert(s[k] == pair_bytes(p0)[k]);
        }
        assert(s[n] == crate::encode::B_AMP);
        lemma_find_byte_is_first(s, crate::encode::B_AMP, n);
        assert(s.take(n) =~= pair_bytes(p0));
        assert(s.skip(n + 1) =~= emit_pairs(rest));
        lemma_parse_pair_of_pair_bytes(p0);
        lemma_emit_parse(rest);
        assert(parse_pairs(s) == seq![parse_pair(s.take(n))] + parse_pairs(s.skip(n + 1)));
        assert(parse_pairs(s) =~= pairs);
    }
}

/// Law: re-parsing an emitted query string yields exactly the (name, value)
/// pairs that the parameters' inclusion policies admitted, in declaration
/// order.
pub proof fn lemma_query_round_trip(params: Seq<QueryParam>)
    ensures
        parse_pairs(query_string(params)) == included_pairs(params),
{
    lemma_emit_parse(included_pairs(params));
}

proof fn lemma_emit_pairs_push(q: Seq<(Seq<u8>, Seq<u8>)>, x: (Seq<u8>, Seq<u8>))
    ensures
        emit_pairs(q.push(x)) == if q.len() == 0 {
            pair_bytes(x)
        } else {
            emit_pairs(q) + seq![crate::encode::B_AMP] + pair_bytes(x)
        },
    decreases q.len(),
{
    let p = q.push(x);
    assert(p.len() == q.len() + 1);
    if q.len() == 0 {
        assert(p[0] == x);
        assert(emit_pairs(p) =~= pair_bytes(x));
    } else {
        assert(p[0] == q[0]);
        assert(p.drop_first() =~= q.drop_first().push(x));
        lemma_emit_pairs_push(q.drop_first(), x);
        if q.len() == 1 {
            assert(emit_pairs(p) =~= emit_pairs(q) + seq![crate::encode::B_AMP] + pair_bytes(x));
        } else {
            assert(emit_pairs(p) =~= emit_pairs(q) + seq![crate::encode::B_AMP] + pair_bytes(x));
        }
    }
}

proof fn lemma_emit_pairs_len(q: Seq<(Seq<u8>, Seq<u8>)>)
    ensures
        q.len() > 0 ==> emit_pairs(q).len() > 0,
{
    if q.len() > 0 {
        assert(pair_bytes(q[0]).len() > 0);
    }
}

proof fn lemma_included_pairs_push(s: Seq<QueryParam>, p: QueryParam)
    ensures
        included_pairs(s.push(p)) == included_pairs(s) + (if param_included(p) {
            seq![(p.name@, p.value@)]
        } else {
            Seq::<(Seq<u8>, Seq<u8>)>::empty()
        }),
    decreases s.len(),
{
    let t = s.push(p);
    assert(t.len() == s.len() + 1);
    if s.len() == 0 {
        assert(t[0] == p);
        assert(t.drop_first() =~= Seq::<QueryParam>::empty());
        assert(included_pairs(Seq::<QueryParam>::empty()) == Seq::<(Seq<u8>, Seq<u8>)>::empty());
        assert(included_pairs(t) == (if param_included(p) {
            seq![(p.name@, p.value@)]
        } else {
            Seq::<(Seq<u8>, Seq<u8>)>::empty()
        }) + included_pairs(t.drop_first()));
        assert(included_pairs(t) =~= included_pairs(s) + (if param_included(p) {
            seq![(p.name@, p.value@)]
        } else {
            Seq::<(Seq<u8>, Seq<u8>)>::empty()
        }));
    } else {
        assert(t[0] == s[0]);
        assert(t.drop_first() =~= s.drop_first().push(p));
        lemma_included_pairs_push(s.drop_first(), p);
        assert(included_pairs(t) =~= included_pairs(s) + (if param_included(p) {
            seq![(p.name@, p.value@)]
        } else {
            Seq::<(Seq<u8>, Seq<u8>)>::empty()
        }));
    }
}


/// A pair present only when the raw value is non-empty.
pub open spec fn opt_pair(name: Seq<u8>, value: Seq<u8>) -> Seq<(Seq<u8>, Seq<u8>)> {
    if value.len() > 0 {
        seq![(name, value)]
    } else {
        Seq::empty()
    }
}

/// A pair present only when the flag is set, carrying the value `true`.
pub open spec fn flag_pair(name: Seq<u8>, set: bool) -> Seq<(Seq<u8>, Seq<u8>)> {
    if set {
        seq![(name, "true".spec_bytes())]
    } else {
        Seq::empty()
    }
}

/// The parts joined by the separator, in order.
pub open spec fn joined_bytes(parts: Seq<Seq<u8>>, sep: u8) -> Seq<u8>
    decreases parts.len(),
{
    if parts.len() == 0 {
        Seq::empty()
    } else if parts.len() == 1 {
        parts[0]
    } else {
        parts[0] + seq![sep] + joined_bytes(parts.drop_first(), sep)
    }
}

proof fn lemma_joined_bytes_push(parts: Seq<Seq<u8>>, sep: u8, x: Seq<u8>)
    ensures
        joined_bytes(parts.push(x), sep) == if parts.len() == 0 {
            x
        } else {
            joined_bytes(parts, sep) + seq![sep] + x
        },
    decreases parts.len(),
{
    let t = parts.push(x);
    assert(t.len() == parts.len() + 1);
    if parts.len() == 0 {
        assert(t[0] == x);
        assert(joined_bytes(t, sep) == x);
    } else {
        assert(t[0] == parts[0]);
        assert(t.drop_first() =~= parts.drop_first().push(x));
        lemma_joined_bytes_push(parts.drop_first(), sep, x);
        assert(joined_bytes(t, sep) =~= joined_bytes(parts, sep) + seq![sep] + x);
    }
}

/// The UTF-8 bytes of a string.
pub open spec fn string_bytes(s: String) -> Seq<u8> {
    vstd::utf8::encode_utf8(s@)
}

/// The UTF-8 bytes of each string, in order.
pub open spec fn strings_bytes(parts: Seq<String>) -> Seq<Seq<u8>> {
    parts.map_values(|s: String| string_bytes(s))
}

/// Join strings with a one-byte separator.
pub fn join_strings(parts: &[String], sep: u8) -> (r: Vec<u8>)
    ensures
        r@ == joined_bytes(strings_bytes(parts@), sep),
{
    let mut r: Vec<u8> = Vec::new();
    let mut i: usize = 0;
    proof {
        assert(strings_bytes(parts@.take(0)) =~= Seq::<Seq<u8>>::empty());
    }
    while i < parts.len()
        invariant
            0 <= i <= parts.len(),
            r@ == joined_bytes(strings_bytes(parts@.take(i as int)), sep),
            strings_bytes(parts@.take(i as int)).len() == i,
        decreases parts.len() - i,
    {
        proof {
            assert(strings_bytes(parts@.take(i + 1 as int)) =~= strings_bytes(
                parts@.take(i as int),
            ).push(string_bytes(parts@[i as int])));
            lemma_joined_bytes_push(
                strings_bytes(parts@.take(i as int)),
                sep,
                string_bytes(parts@[i as int]),
            );
        }
        if i > 0 {
            r.push(sep);
        }
        r.extend_from_slice(parts[i].as_str().as_bytes());
        proof {
            assert(r@ =~= joined_bytes(strings_bytes(parts@.take(i + 1 as int)), sep));
        }
        i = i + 1;
    }
    proof {
        assert(parts@.take(parts@.len() as int) =~= parts@);
    }
    r
}

/// Incrementally builds a query string; records in ghost state the pairs
/// written so far, in order.
pub struct QueryBuilder {
    buf: Vec<u8>,
    pairs: Ghost<Seq<(Seq<u8>, Seq<u8>)>>,
}

impl QueryBuilder {
    /// The (name, value) pairs written so far.
    pub closed spec fn pairs(self) -> Seq<(Seq<u8>, Seq<u8>)> {
        self.pairs@
    }

    pub closed spec fn wf(self) -> bool {
        self.buf@ == emit_pairs(self.pairs@)
    }

    pub fn new() -> (r: Self)
        ensures
            r.wf(),
            r.pairs() == Seq::<(Seq<u8>, Seq<u8>)>::empty(),
    {
        QueryBuilder { buf: Vec::new(), pairs: Ghost(Seq::empty()) }
    }

    /// Write one pair, percent-encoding name and value.
    pub fn push(&mut self, name: &[u8], value: &[u8])
        requires
            old(self).wf(),
        ensures
            final(self).wf(),
            final(self).pairs() == old(self).pairs().push((name@, value@)),
    {
        proof {
            lemma_emit_pairs_push(self.pairs@, (name@, value@));
            lemma_emit_pairs_len(self.pairs@);
        }
        if self.buf.len() > 0 {
            self.buf.push(crate::encode::B_AMP);
        } else {
            assert(self.pairs@.len() == 0);
        }
        let mut en = crate::encode::percent_encode(name);
        self.buf.append(&mut en);
        self.buf.push(crate::encode::B_EQ);
        let mut ev = crate::encode::percent_encode(value);
        self.buf.append(&mut ev);
        proof {
            self.pairs@ = self.pairs@.push((name@, value@));
            assert(self.buf@ =~= emit_pairs(self.pairs@));
        }
    }

    /// Write the pair only when the raw value is non-empty.
    pub fn push_if_nonempty(&mut self, name: &[u8], value: &[u8])
        requires
            old(self).wf(),
        ensures
            final(self).wf(),
            final(self).pairs() == old(self).pairs() + (if value@.len() > 0 {
                seq![(name@, value@)]
            } else {
                Seq::<(Seq<u8>, Seq<u8>)>::empty()
            }),
    {
        if value.len() > 0 {
            self.push(name, value);
            assert(self.pairs() =~= old(self).pairs() + seq![(name@, value@)]);
        } else {
            assert(self.pairs() =~= old(self).pairs() + Seq::<(Seq<u8>, Seq<u8>)>::empty());
        }
    }


    /// Write `name=true` only when the flag is set.
    pub fn push_flag(&mut self, name: &[u8], set: bool)
        requires
            old(self).wf(),
        ensures
            final(self).wf(),
            final(self).pairs() == old(self).pairs() + flag_pair(name@, set),
    {
        if set {
            self.push(name, "true".as_bytes());
            assert(self.pairs() =~= old(self).pairs() + flag_pair(name@, set));
        } else {
            assert(self.pairs() =~= old(self).pairs() + flag_pair(name@, set));
        }
    }

    /// The finished query string.
    pub fn into_query(self) -> (r: Vec<u8>)
        requires
            self.wf(),
        ensures
            r@ == emit_pairs(self.pairs()),
    {
        self.buf
    }
}

/// Emit the query string for a declarative parameter list.
pub fn emit_query(params: &Vec<QueryParam>) -> (r: Vec<u8>)
    ensures
        r@ == query_string(params@),
{
    let mut qb = QueryBuilder::new();
    let mut i: usize = 0;
    proof {
        assert(params@.take(0) =~= Seq::<QueryParam>::empty());
    }
    while i < params.len()
        invariant
            0 <= i <= params.len(),
            qb.wf(),
            qb.pairs() == included_pairs(params@.take(i as int)),
        decreases params.len() - i,
    {
        let p = &params[i];
        proof {
            assert(params@.take(i as int).push(params@[i as int]) =~= params@.take(i + 1 as int));
            lemma_included_pairs_push(params@.take(i as int), params@[i as int]);
        }
        let selected = match p.policy {
            IncludePolicy::Always => true,
            IncludePolicy::IfNonEmpty => p.value.len() > 0,
        };
        if selected {
            qb.push(p.name.as_slice(), p.value.as_slice());
            assert(qb.pairs() =~= included_pairs(params@.take(i + 1 as int)));
        } else {
            assert(qb.pairs() =~= included_pairs(params@.take(i + 1 as int)));
        }
        i = i + 1;
    }
    proof {
        assert(params@.take(params@.len() as int) =~= params@);
    }
    qb.into_query()
}

/// Index of the first occurrence of `c` in `s`, or `s.len()` if absent.
pub fn find_byte_index(s: &[u8], c: u8) -> (r: usize)
    ensures
        r as int == find_byte(s@, c),
        r <= s.len(),
{
    let mut i: usize = 0;
    while i < s.len()
        invariant
            0 <= i <= s.len(),
            forall|k: int| 0 <= k < i ==> s@[k] != c,
        decreases s.len() - i,
    {
        if s[i] == c {
            proof {
                lemma_find_byte_is_first(s@, c, i as int);
            }
            return i;
        }
        i = i + 1;
    }
    proof {
        lemma_find_byte_is_first(s@, c, s@.len() as int);
    }
    i
}

/// The views of a vector of parsed pairs.
pub open spec fn pairs_view(ps: Seq<(Vec<u8>, Vec<u8>)>) -> Seq<(Seq<u8>, Seq<u8>)> {
    ps.map_values(|p: (Vec<u8>, Vec<u8>)| (p.0@, p.1@))
}

fn parse_pair_exec(p: &[u8]) -> (r: (Vec<u8>, Vec<u8>))
    ensures
        (r.0@, r.1@) == parse_pair(p@),
{
    let j = find_byte_index(p, crate::encode::B_EQ);
    if j < p.len() {
        let name = crate::encode::percent_decode(&p[0..j]);
        let value = crate::encode::percent_decode(&p[j + 1..p.len()]);
        proof {
            assert(p@.subrange(0, j as int) =~= p@.take(j as int));
            assert(p@.subrange(j + 1 as int, p@.len() as int) =~= p@.skip(j + 1));
        }
        (name, value)
    } else {
        let name = crate::encode::percent_decode(p);
        (name, Vec::new())
    }
}

/// Parse a query string into its (name, value) pairs.
pub fn parse_query(s: &[u8]) -> (r: Vec<(Vec<u8>, Vec<u8>)>)
    ensures
        pairs_view(r@) == parse_pairs(s@),
    decreases s@.len(),
{
    let mut r: Vec<(Vec<u8>, Vec<u8>)> = Vec::new();
    if s.len() == 0 {
        assert(pairs_view(r@) =~= parse_pairs(s@));
        return r;
    }
    let i = find_byte_index(s, crate::encode::B_AMP);
    if i < s.len() {
        let pair = parse_pair_exec(&s[0..i]);
        r.push(pair);
        let mut rest = parse_query(&s[i + 1..s.len()]);
        r.append(&mut rest);
        proof {
            assert(s@.subrange(0, i as int) =~= s@.take(i as int));
            assert(s@.subrange(i + 1 as int, s@.len() as int) =~= s@.skip(i + 1));
            assert(pairs_view(r@) =~= parse_pairs(s@));
        }
    } else {
        let pair = parse_pair_exec(s);
        r.push(pair);
        assert(pairs_view(r@) =~= parse_pairs(s@));
    }
    r
}

} // verus!
