//! Path templates with named placeholders: rendering substitutes each
//! placeholder by its percent-encoded value, and fails before any network
//! call when a required substitution is missing.

use vstd::prelude::*;
use crate::encode::encoded;
use crate::encode::is_unreserved;
use crate::encode::is_encoded_output_byte;
use crate::encode::lemma_encoded_bytes_wf;
use crate::encode::percent_encode;
use crate::encode::bytes_eq;
use crate::http::EncodeError;

verus! {

/// One piece of a path template: a literal run of bytes, or a named
/// placeholder to be substituted.
pub enum PathPart {
    Lit(Vec<u8>),
    Param(Vec<u8>),
}

/// A path template with named placeholders.
pub struct PathTemplate {
    pub parts: Vec<PathPart>,
}

/// First value bound to `name` in the substitution list.
pub open spec fn lookup(subs: Seq<(Vec<u8>, Vec<u8>)>, name: Seq<u8>) -> Option<Seq<u8>>
    decreases subs.len(),
{
    if subs.len() == 0 {
        None
    } else if subs[0].0@ == name {
        Some(subs[0].1@)
    } else {
        lookup(subs.drop_first(), name)
    }
}

/// Every placeholder of the template has a substitution.
pub open spec fn all_params_bound(parts: Seq<PathPart>, subs: Seq<(Vec<u8>, Vec<u8>)>) -> bool {
    forall|i: int|
        0 <= i < parts.len() ==> ((#[trigger] parts[i]) matches PathPart::Param(n) ==> lookup(
            subs,
            n@,
        ) is Some)
}

/// What one template part contributes to the rendered path.
pub open spec fn part_piece(part: PathPart, subs: Seq<(Vec<u8>, Vec<u8>)>) -> Seq<u8> {
    match part {
        PathPart::Lit(l) => l@,
        PathPart::Param(n) => match lookup(subs, n@) {
            Some(v) => encoded(v),
            None => Seq::empty(),
        },
    }
}

/// The rendered path: literals verbatim, substituted values
/// percent-encoded. Meaningful under `all_params_bound`.
pub open spec fn rendered(parts: Seq<PathPart>, subs: Seq<(Vec<u8>, Vec<u8>)>) -> Seq<u8>
    decreases parts.len(),
{
    if parts.len() == 0 {
        Seq::empty()
    } else {
        part_piece(parts[0], subs) + rendered(parts.drop_first(), subs)
    }
}

proof fn lemma_rendered_push(parts: Seq<PathPart>, subs: Seq<(Vec<u8>, Vec<u8>)>, p: PathPart)
    ensures
        rendered(parts.push(p), subs) == rendered(parts, subs) + part_piece(p, subs),
    decreases parts.len(),
{
    let t = parts.push(p);
    assert(t.len() == parts.len() + 1);
    if parts.len() == 0 {
        assert(t[0] == p);
        assert(t.drop_first() =~= Seq::<PathPart>::empty());
        assert(rendered(Seq::<PathPart>::empty(), subs) == Seq::<u8>::empty());
        assert(rendered(t, subs) =~= rendered(parts, subs) + part_piece(p, subs));
    } else {
        assert(t[0] == parts[0]);
        assert(t.drop_first() =~= parts.drop_first().push(p));
        lemma_rendered_push(parts.drop_first(), subs, p);
        assert(rendered(t, subs) =~= rendered(parts, subs) + part_piece(p, subs));
    }
}

/// Literal template bytes that may stand unencoded in a path: unreserved
/// bytes and the segment separator.
pub open spec fn lit_path_safe(l: Seq<u8>) -> bool {
    forall|k: int| 0 <= k < l.len() ==> is_unreserved(#[trigger] l[k]) || l[k]
        == crate::encode::B_SLASH
}

/// A template whose literal parts hold only path-safe bytes.
pub open spec fn template_path_safe(parts: Seq<PathPart>) -> bool {
    forall|i: int|
        0 <= i < parts.len() ==> ((#[trigger] parts[i]) matches PathPart::Lit(l) ==> lit_path_safe(
            l@,
        ))
}

/// Law: a rendered path contains no unencoded reserved byte beyond the
/// template's own `/` separators, and no unresolved placeholder: every
/// byte is unreserved, `/`, or part of a percent escape, so in particular
/// no placeholder delimiter `{` or `}` survives rendering.
pub proof fn lemma_rendered_path_safe(parts: Seq<PathPart>, subs: Seq<(Vec<u8>, Vec<u8>)>)
    requires
        template_path_safe(parts),
    ensures
        forall|k: int|
            0 <= k < rendered(parts, subs).len() ==> (is_unreserved(
                #[trigger] rendered(parts, subs)[k],
            ) || rendered(parts, subs)[k] == crate::encode::B_SLASH || rendered(parts, subs)[k]
                == crate::encode::B_PERCENT || crate::encode::is_hex_digit(
                rendered(parts, subs)[k],
            )),
        forall|k: int|
            0 <= k < rendered(parts, subs).len() ==> #[trigger] rendered(parts, subs)[k]
                != crate::encode::B_LBRACE && rendered(parts, subs)[k] != crate::encode::B_RBRACE,
    decreases parts.len(),
{
    if parts.len() > 0 {
        assert(parts[0] == parts[0]);
        assert(forall|i: int|
            0 <= i < parts.drop_first().len() ==> parts.drop_first()[i] == parts[i + 1]);
        lemma_rendered_path_safe(parts.drop_first(), subs);
        let head = part_piece(parts[0], subs);
        assert(forall|k: int|
            0 <= k < head.len() ==> (is_unreserved(#[trigger] head[k]) || head[k]
                == crate::encode::B_SLASH || head[k] == crate::encode::B_PERCENT
                || crate::encode::is_hex_digit(head[k]))) by {
            match parts[0] {
                PathPart::Lit(l) => {
                    assert(lit_path_safe(l@));
                },
                PathPart::Param(n) => {
                    match lookup(subs, n@) {
                        Some(v) => {
                            lemma_encoded_bytes_wf(v);
                            assert(forall|k: int|
                                0 <= k < head.len() ==> is_encoded_output_byte(#[trigger] head[k]));
                        },
                        None => {},
                    }
                },
            }
        }
        assert forall|k: int| 0 <= k < rendered(parts, subs).len() implies (is_unreserved(
            #[trigger] rendered(parts, subs)[k],
        ) || rendered(parts, subs)[k] == crate::encode::B_SLASH || rendered(parts, subs)[k]
            == crate::encode::B_PERCENT || crate::encode::is_hex_digit(
            rendered(parts, subs)[k],
        )) by {
            if k < head.len() {
                assert(rendered(parts, subs)[k] == head[k]);
            } else {
                assert(rendered(parts, subs)[k] == rendered(parts.drop_first(), subs)[k
                    - head.len()]);
            }
        }
    }
}

fn lookup_value(subs: &Vec<(Vec<u8>, Vec<u8>)>, name: &[u8]) -> (r: Option<Vec<u8>>)
    ensures
        match r {
            Some(v) => lookup(subs@, name@) == Some(v@),
            None => lookup(subs@, name@) is None,
        },
{
    let mut i: usize = 0;
    proof {
        assert(subs@.skip(0) =~= subs@);
    }
    while i < subs.len()
        invariant
            0 <= i <= subs.len(),
            lookup(subs@, name@) == lookup(subs@.skip(i as int), name@),
        decreases subs.len() - i,
    {
        let ghost rest = subs@.skip(i as int);
        assert(rest[0] == subs@[i as int]);
        if bytes_eq(subs[i].0.as_slice(), name) {
            return Some(crate::client::copy_bytes(subs[i].1.as_slice()));
        }
        proof {
            assert(rest.drop_first() =~= subs@.skip(i + 1 as int));
        }
        i = i + 1;
    }
    None
}

/// Render a template against a substitution list. Fails with
/// `MissingPlaceholder` exactly when some placeholder has no substitution;
/// no placeholder is ever left unsubstituted in a returned path.
pub fn render(template: &PathTemplate, subs: &Vec<(Vec<u8>, Vec<u8>)>) -> (r: Result<
    Vec<u8>,
    EncodeError,
>)
    ensures
        r matches Ok(v) ==> v@ == rendered(template.parts@, subs@),
        r is Ok <==> all_params_bound(template.parts@, subs@),
        r matches Err(e) ==> (e matches EncodeError::MissingPlaceholder(n) && lookup(subs@, n@)
            is None),
{
    let parts_len = template.parts.len();
    let mut out: Vec<u8> = Vec::new();
    let mut i: usize = 0;
    proof {
        assert(template.parts@.take(0) =~= Seq::<PathPart>::empty());
    }
    while i < parts_len
        invariant
            0 <= i <= parts_len,
            parts_len == template.parts@.len(),
            out@ == rendered(template.parts@.take(i as int), subs@),
            all_params_bound(template.parts@.take(i as int), subs@),
        decreases parts_len - i,
    {
        proof {
            assert(template.parts@.take(i as int).push(template.parts@[i as int]) =~= template.parts@.take(
                i + 1 as int,
            ));
            lemma_rendered_push(template.parts@.take(i as int), subs@, template.parts@[i as int]);
        }
        match &template.parts[i] {
            PathPart::Lit(l) => {
                out.extend_from_slice(l.as_slice());
            },
            PathPart::Param(n) => {
                match lookup_value(subs, n.as_slice()) {
                    Some(v) => {
                        let mut e = percent_encode(v.as_slice());
                        out.append(&mut e);
                    },
                    None => {
                        let missing = crate::client::copy_bytes(n.as_slice());
                        assert(template.parts@[i as int] matches PathPart::Param(m) && lookup(
                            subs@,
                            m@,
                        ) is None);
                        return Err(EncodeError::MissingPlaceholder(missing));
                    },
                }
            },
        }
        proof {
            assert(out@ =~= rendered(template.parts@.take(i + 1 as int), subs@));
            assert forall|k: int| 0 <= k < i + 1 implies ((#[trigger] template.parts@.take(
                i + 1 as int,
            )[k]) matches PathPart::Param(n) ==> lookup(subs@, n@) is Some) by {
                assert(template.parts@.take(i + 1 as int)[k] == template.parts@.take(i as int)[k]
                    || k == i);
            }
        }
        i = i + 1;
    }
    proof {
        assert(template.parts@.take(parts_len as int) =~= template.parts@);
    }
    Ok(out)
}

} // verus!
