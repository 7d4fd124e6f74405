//! The deep-link router: parsing `hearth://` URLs into navigation payloads.
//!
//! A deep link is `hearth://` followed by slash-separated path segments and
//! an optional `?key=value&...` query. The first segment names the action,
//! the second (when present) the target; query pairs land in the parameter
//! table, percent-decoded, with the last occurrence of a key winning. A
//! `server` link with a third segment carries that segment as the `channel`
//! parameter, overriding any query-supplied one. Anything else — a foreign
//! scheme, or a scheme with no segments at all — is simply not a deep link.

use vstd::prelude::*;
use vstd::string::StrSliceExecFns;
use crate::params::ParamMap;
use crate::text::find_char;
use crate::text::find_ix;
use crate::text::lemma_find_ix_bounds;
use crate::text::lemma_nonempty_of_nonempty;
use crate::text::nonempty_of;
use crate::text::nonempty_strings;
use crate::text::spec_trim;
use crate::text::split_on;
use crate::text::split_str;
use crate::text::str_eq;
use crate::text::trim_str;

verus! {

/// What `urlencoding::decode` yields on this text: `Some` of the decoded
/// characters, or `None` when the decoded bytes are not valid UTF-8.
pub uninterp spec fn percent_decoded(s: Seq<char>) -> Option<Seq<char>>;

/// Relies on `urlencoding::decode`: the result is a function of the input
/// characters alone, and an input without `%` comes back unchanged.
#[verifier::external_body]
fn percent_decode(s: &str) -> (r: Option<String>)
    ensures
        percent_decoded(s@) == (match r {
            Some(d) => Some(d@),
            None => None::<Seq<char>>,
        }),
        (forall|i: int| 0 <= i < s@.len() ==> s@[i] != '%') ==> (match r {
            Some(d) => d@ == s@,
            None => false,
        }),
{
    match urlencoding::decode(s) {
        Ok(d) => Some(d.into_owned()),
        Err(_) => None,
    }
}

/// The decoded text, or empty when decoding fails: a bad percent sequence
/// degrades to an empty string rather than rejecting the whole link.
pub open spec fn decoded_or_empty(s: Seq<char>) -> Seq<char> {
    match percent_decoded(s) {
        Some(d) => d,
        None => Seq::empty(),
    }
}

fn percent_decode_or_empty(s: &str) -> (r: String)
    ensures
        r@ == decoded_or_empty(s@),
{
    match percent_decode(s) {
        Some(d) => d,
        None => String::new(),
    }
}

/// The key/value a query pair contributes: split at the first `=`, both
/// sides percent-decoded; a pair without `=` contributes nothing.
pub open spec fn pair_of(p: Seq<char>) -> Option<(Seq<char>, Seq<char>)> {
    let e = find_ix(p, '=');
    if e < p.len() {
        Some((decoded_or_empty(p.take(e)), decoded_or_empty(p.skip(e + 1))))
    } else {
        None
    }
}

/// The parameter map a list of query pairs denotes, later pairs winning.
pub open spec fn params_of(pieces: Seq<Seq<char>>) -> Map<Seq<char>, Seq<char>>
    decreases pieces.len(),
{
    if pieces.len() == 0 {
        Map::empty()
    } else {
        let m = params_of(pieces.drop_last());
        match pair_of(pieces.last()) {
            Some(kv) => m.insert(kv.0, kv.1),
            None => m,
        }
    }
}

/// Whether `t` begins with the literal scheme prefix `hearth://`.
pub open spec fn has_scheme(t: Seq<char>) -> bool {
    t.len() >= 9 && t.take(9) == "hearth://"@
}

/// The mathematical shape of a parsed deep link.
pub ghost struct LinkModel {
    /// First path segment, verbatim.
    pub action: Seq<char>,
    /// Second path segment, when the link has one.
    pub target: Option<Seq<char>>,
    /// Query parameters, plus the synthesized `channel` entry of a
    /// three-segment `server` link.
    pub params: Map<Seq<char>, Seq<char>>,
}

/// What parsing yields on any URL text: the reference for `parse_deep_link`.
pub open spec fn spec_parse(s: Seq<char>) -> Option<LinkModel> {
    let t = spec_trim(s);
    if !has_scheme(t) {
        None
    } else {
        let rest = t.skip(9);
        let q = find_ix(rest, '?');
        let base = if q < rest.len() {
            params_of(split_on(rest.skip(q + 1), '&'))
        } else {
            Map::<Seq<char>, Seq<char>>::empty()
        };
        let segs = nonempty_of(split_on(rest.take(q), '/'));
        if segs.len() == 0 {
            None
        } else {
            Some(
                LinkModel {
                    action: segs[0],
                    target: if segs.len() >= 2 {
                        Some(segs[1])
                    } else {
                        None
                    },
                    params: if segs[0] == "server"@ && segs.len() >= 3 {
                        base.insert("channel"@, segs[2])
                    } else {
                        base
                    },
                },
            )
        }
    }
}

/// A parsed deep link: the action, the optional target, and the parameters.
#[derive(Debug, Clone, PartialEq)]
pub struct DeepLinkPayload {
    /// The action token (`chat`, `room`, `server`, ...), never empty.
    pub action: String,
    /// The primary identifier after the action, when the link has one.
    pub target: Option<String>,
    /// Additional key/value data from the query and the `server` path rule.
    pub params: ParamMap,
}

impl View for DeepLinkPayload {
    type V = LinkModel;

    open spec fn view(&self) -> LinkModel {
        LinkModel {
            action: self.action@,
            target: match self.target {
                Some(t) => Some(t@),
                None => None,
            },
            params: self.params@,
        }
    }
}

impl DeepLinkPayload {
    /// The parameter table binds no key twice.
    pub open spec fn wf(&self) -> bool {
        self.params.wf()
    }
}

fn has_scheme_str(t: &str) -> (r: bool)
    ensures
        r == has_scheme(t@),
{
    let n = t.unicode_len();
    if n < 9 {
        return false;
    }
    let ok = t.get_char(0) == 'h' && t.get_char(1) == 'e' && t.get_char(2) == 'a' && t.get_char(3)
        == 'r' && t.get_char(4) == 't' && t.get_char(5) == 'h' && t.get_char(6) == ':'
        && t.get_char(7) == '/' && t.get_char(8) == '/';
    proof {
        reveal_strlit("hearth://");
        if ok {
            assert(t@.take(9) =~= "hearth://"@);
        }
        if t@.take(9) == "hearth://"@ {
            assert(t@[0] == t@.take(9)[0]);
            assert(t@[1] == t@.take(9)[1]);
            assert(t@[2] == t@.take(9)[2]);
            assert(t@[3] == t@.take(9)[3]);
            assert(t@[4] == t@.take(9)[4]);
            assert(t@[5] == t@.take(9)[5]);
            assert(t@[6] == t@.take(9)[6]);
            assert(t@[7] == t@.take(9)[7]);
            assert(t@[8] == t@.take(9)[8]);
        }
    }
    ok
}

/// Parse a `hearth://` URL into a payload, or decide it is no deep link.
///
/// The input is trimmed first; the trimmed text must begin with the scheme
/// and carry at least one path segment, else the result is `None`.
pub fn parse_deep_link(url: &str) -> (r: Option<DeepLinkPayload>)
    ensures
        match r {
            Some(p) => spec_parse(url@) == Some(p@) && p.wf() && p.action@.len() > 0,
            None => spec_parse(url@) is None,
        },
{
    let t = trim_str(url);
    if !has_scheme_str(t) {
        return None;
    }
    let tn = t.unicode_len();
    let rest = t.substring_char(9, tn);
    proof {
        assert(rest@ =~= t@.skip(9));
    }
    let rn = rest.unicode_len();
    let q = find_char(rest, '?');
    proof {
        lemma_find_ix_bounds(rest@, '?');
    }
    let path = rest.substring_char(0, q);
    proof {
        assert(path@ =~= rest@.take(q as int));
    }
    let mut params = ParamMap::new();
    if q < rn {
        let qs = rest.substring_char(q + 1, rn);
        proof {
            assert(qs@ =~= rest@.skip(q + 1));
        }
        let pieces = split_str(qs, '&');
        let m = pieces.len();
        let ghost pv = pieces.deep_view();
        let mut i: usize = 0;
        while i < m
            invariant
                i <= m,
                m == pieces@.len(),
                pv == pieces.deep_view(),
                params.wf(),
                params@ == params_of(pv.take(i as int)),
            decreases m - i,
        {
            let piece = &pieces[i];
            let pn = piece.as_str().unicode_len();
            let e = find_char(piece.as_str(), '=');
            proof {
                lemma_find_ix_bounds(piece@, '=');
                assert(pv.take(i + 1).drop_last() =~= pv.take(i as int));
                assert(pv.take(i + 1).last() == pv[i as int]);
                assert(pv[i as int] == piece@);
            }
            if e < pn {
                let k = piece.as_str().substring_char(0, e);
                let v = piece.as_str().substring_char(e + 1, pn);
                let dk = percent_decode_or_empty(k);
                let dv = percent_decode_or_empty(v);
                proof {
                    assert(k@ =~= piece@.take(e as int));
                    assert(v@ =~= piece@.skip(e + 1));
                    assert(pair_of(piece@) == Some((dk@, dv@)));
                }
                params.insert(dk, dv);
            }
            i = i + 1;
        }
        proof {
            assert(pv.take(m as int) =~= pv);
        }
    }
    let raw_segs = split_str(path, '/');
    let segs = nonempty_strings(raw_segs);
    proof {
        lemma_nonempty_of_nonempty(split_on(path@, '/'));
    }
    if segs.len() == 0 {
        proof {
            assert(nonempty_of(split_on(rest@.take(q as int), '/')).len() == 0);
        }
        return None;
    }
    let ghost sv = segs.deep_view();
    let action = segs[0].clone();
    let target = if segs.len() >= 2 {
        Some(segs[1].clone())
    } else {
        None
    };
    if str_eq(action.as_str(), "server") && segs.len() >= 3 {
        let chan = segs[2].clone();
        params.insert("channel".to_owned(), chan);
    }
    let payload = DeepLinkPayload { action, target, params };
    proof {
        assert(payload@.action == sv[0]);
        assert(spec_parse(url@) == Some(payload@));
    }
    Some(payload)
}

/// Parsing is a pure function of the URL text: one string, one payload.
/// Parsing the same string twice therefore yields equal payloads.
pub proof fn lemma_parse_deterministic(a: Seq<char>, b: Seq<char>)
    requires
        a == b,
    ensures
        spec_parse(a) == spec_parse(b),
{
}

/// A URL whose trimmed text does not begin with `hearth://` is no deep
/// link, whatever else it holds.
pub proof fn lemma_rejects_foreign_scheme(s: Seq<char>)
    requires
        !has_scheme(spec_trim(s)),
    ensures
        spec_parse(s) is None,
{
}

/// When several query pairs bind the same key, the value of the last such
/// pair stands in the parameter map: the later occurrence wins.
pub proof fn lemma_last_pair_wins(pieces: Seq<Seq<char>>, j: int, k: Seq<char>, v: Seq<char>)
    requires
        0 <= j < pieces.len(),
        pair_of(pieces[j]) == Some((k, v)),
        forall|l: int|
            j < l < pieces.len() ==> match #[trigger] pair_of(pieces[l]) {
                Some(kv) => kv.0 != k,
                None => true,
            },
    ensures
        params_of(pieces).contains_key(k),
        params_of(pieces)[k] == v,
    decreases pieces.len(),
{
    if j < pieces.len() - 1 {
        let rest = pieces.drop_last();
        assert(rest[j] == pieces[j]);
        assert forall|l: int|
            j < l < rest.len() implies match #[trigger] pair_of(rest[l]) {
            Some(kv) => kv.0 != k,
            None => true,
        } by {
            assert(rest[l] == pieces[l]);
        }
        lemma_last_pair_wins(rest, j, k, v);
        assert(pair_of(pieces.last()) == pair_of(pieces[pieces.len() - 1]));
    }
}

/// Every payload that parsing yields names its action: the first path
/// segment exists and is nonempty.
pub proof fn lemma_action_nonempty(s: Seq<char>)
    requires
        spec_parse(s) is Some,
    ensures
        spec_parse(s) matches Some(m) && m.action.len() > 0,
{
    let t = spec_trim(s);
    let rest = t.skip(9);
    let q = find_ix(rest, '?');
    lemma_nonempty_of_nonempty(split_on(rest.take(q), '/'));
}

} // verus!
