//! Character-level string utilities shared by the deep-link parser.
//!
//! Everything here works on `&str` through its `Seq<char>` view, so the
//! executable helpers can be proved against small recursive spec functions:
//! whitespace trimming, first-occurrence search, and separator splitting.

use vstd::prelude::*;
use vstd::string::StrSliceExecFns;

verus! {

/// Unicode `White_Space` characters, the set that `str::trim` removes.
pub open spec fn is_space(c: char) -> bool {
    ||| c == ' '
    ||| c == '\t'
    ||| c == '\n'
    ||| c == '\u{000B}'
    ||| c == '\u{000C}'
    ||| c == '\r'
    ||| c == '\u{0085}'
    ||| c == '\u{00A0}'
    ||| c == '\u{1680}'
    ||| ('\u{2000}' <= c && c <= '\u{200A}')
    ||| c == '\u{2028}'
    ||| c == '\u{2029}'
    ||| c == '\u{202F}'
    ||| c == '\u{205F}'
    ||| c == '\u{3000}'
}

/// Executable check for [`is_space`].
pub fn is_space_char(c: char) -> (r: bool)
    ensures
        r == is_space(c),
{
    c == ' ' || c == '\t' || c == '\n' || c == '\u{000B}' || c == '\u{000C}' || c == '\r'
        || c == '\u{0085}' || c == '\u{00A0}' || c == '\u{1680}' || ('\u{2000}' <= c && c
        <= '\u{200A}') || c == '\u{2028}' || c == '\u{2029}' || c == '\u{202F}' || c == '\u{205F}'
        || c == '\u{3000}'
}

/// Character-wise string equality, proved against the `Seq<char>` views.
pub fn str_eq(a: &str, b: &str) -> (r: bool)
    ensures
        r == (a@ == b@),
{
    let n = a.unicode_len();
    if n != b.unicode_len() {
        return false;
    }
    let mut i: usize = 0;
    while i < n
        invariant
            n == a@.len(),
            n == b@.len(),
            i <= n,
            forall|k: int| 0 <= k < i ==> a@[k] == b@[k],
        decreases n - i,
    {
        if a.get_char(i) != b.get_char(i) {
            return false;
        }
        i = i + 1;
    }
    proof {
        assert(a@ =~= b@);
    }
    true
}

/// What remains of `s` after the leading whitespace is dropped.
pub open spec fn trim_front(s: Seq<char>) -> Seq<char>
    decreases s.len(),
{
    if s.len() > 0 && is_space(s[0]) {
        trim_front(s.drop_first())
    } else {
        s
    }
}

/// What remains of `s` after the trailing whitespace is dropped.
pub open spec fn trim_back(s: Seq<char>) -> Seq<char>
    decreases s.len(),
{
    if s.len() > 0 && is_space(s[s.len() - 1]) {
        trim_back(s.drop_last())
    } else {
        s
    }
}

/// `s` without leading and trailing whitespace, as `str::trim` leaves it.
pub open spec fn spec_trim(s: Seq<char>) -> Seq<char> {
    trim_back(trim_front(s))
}

proof fn lemma_trim_front_skip(s: Seq<char>, lo: int)
    requires
        0 <= lo <= s.len(),
        forall|k: int| 0 <= k < lo ==> is_space(s[k]),
        lo < s.len() ==> !is_space(s[lo]),
    ensures
        trim_front(s) == s.skip(lo),
    decreases lo,
{
    if lo == 0 {
        assert(s.skip(0) =~= s);
    } else {
        let t = s.drop_first();
        assert forall|k: int| 0 <= k < lo - 1 implies is_space(t[k]) by {
            assert(t[k] == s[k + 1]);
        }
        lemma_trim_front_skip(t, lo - 1);
        assert(t.skip(lo - 1) =~= s.skip(lo));
    }
}

proof fn lemma_trim_back_take(s: Seq<char>, hi: int)
    requires
        0 <= hi <= s.len(),
        forall|k: int| hi <= k < s.len() ==> is_space(s[k]),
        hi > 0 ==> !is_space(s[hi - 1]),
    ensures
        trim_back(s) == s.take(hi),
    decreases s.len(),
{
    if hi == s.len() {
        assert(s.take(hi) =~= s);
    } else {
        let t = s.drop_last();
        assert(is_space(s[s.len() - 1]));
        lemma_trim_back_take(t, hi);
        assert(t.take(hi) =~= s.take(hi));
    }
}

/// Trim leading and trailing whitespace; the verified face of `str::trim`.
pub fn trim_str<'a>(s: &'a str) -> (r: &'a str)
    ensures
        r@ == spec_trim(s@),
{
    let n = s.unicode_len();
    let mut lo: usize = 0;
    while lo < n && is_space_char(s.get_char(lo))
        invariant
            lo <= n,
            n == s@.len(),
            forall|k: int| 0 <= k < lo ==> is_space(s@[k]),
        decreases n - lo,
    {
        lo = lo + 1;
    }
    proof {
        lemma_trim_front_skip(s@, lo as int);
    }
    if lo == n {
        let r = s.substring_char(n, n);
        proof {
            assert(r@ =~= s@.skip(lo as int));
        }
        return r;
    }
    let mut hi: usize = n;
    while hi > lo && is_space_char(s.get_char(hi - 1))
        invariant
            lo < n,
            lo <= hi <= n,
            n == s@.len(),
            !is_space(s@[lo as int]),
            forall|k: int| hi <= k < n ==> is_space(s@[k]),
        decreases hi,
    {
        hi = hi - 1;
    }
    proof {
        let t = s@.skip(lo as int);
        assert forall|k: int| hi - lo <= k < t.len() implies is_space(t[k]) by {
            assert(t[k] == s@[k + lo]);
        }
        assert(hi > lo);
        assert(t[hi - lo - 1] == s@[hi - 1]);
        lemma_trim_back_take(t, hi - lo);
        assert(t.take(hi - lo) =~= s@.subrange(lo as int, hi as int));
    }
    s.substring_char(lo, hi)
}

/// Index of the first `sep` in `s`, or `s.len()` when none occurs.
pub open spec fn find_ix(s: Seq<char>, sep: char) -> int
    decreases s.len(),
{
    if s.len() == 0 {
        0
    } else if s[0] == sep {
        0
    } else {
        1 + find_ix(s.drop_first(), sep)
    }
}

pub proof fn lemma_find_ix_bounds(s: Seq<char>, sep: char)
    ensures
        0 <= find_ix(s, sep) <= s.len(),
        forall|k: int| 0 <= k < find_ix(s, sep) ==> s[k] != sep,
        find_ix(s, sep) < s.len() ==> s[find_ix(s, sep)] == sep,
    decreases s.len(),
{
    if s.len() > 0 && s[0] != sep {
        let t = s.drop_first();
        lemma_find_ix_bounds(t, sep);
        let i = find_ix(s, sep);
        assert forall|k: int| 0 <= k < i implies s[k] != sep by {
            if k > 0 {
                assert(t[k - 1] == s[k]);
            }
        }
        if i < s.len() {
            assert(t[i - 1] == s[i]);
        }
    }
}

proof fn lemma_find_ix_is(s: Seq<char>, sep: char, i: int)
    requires
        0 <= i <= s.len(),
        forall|k: int| 0 <= k < i ==> s[k] != sep,
        i < s.len() ==> s[i] == sep,
    ensures
        find_ix(s, sep) == i,
    decreases s.len(),
{
    if s.len() == 0 {
    } else if s[0] == sep {
        assert(i == 0);
    } else {
        let t = s.drop_first();
        assert(i > 0);
        assert forall|k: int| 0 <= k < i - 1 implies t[k] != sep by {
            assert(t[k] == s[k + 1]);
        }
        if i - 1 < t.len() {
            assert(t[i - 1] == s[i]);
        }
        lemma_find_ix_is(t, sep, i - 1);
    }
}

/// Index of the first `sep` in `s`, or the character length when none occurs.
pub fn find_char(s: &str, sep: char) -> (i: usize)
    ensures
        i as int == find_ix(s@, sep),
{
    let n = s.unicode_len();
    let mut j: usize = 0;
    while j < n && s.get_char(j) != sep
        invariant
            j <= n,
            n == s@.len(),
            forall|k: int| 0 <= k < j ==> s@[k] != sep,
        decreases n - j,
    {
        j = j + 1;
    }
    proof {
        lemma_find_ix_is(s@, sep, j as int);
    }
    j
}

/// The pieces of `s` between occurrences of `sep`: one more piece than
/// there are separators, in order, possibly empty.
pub open spec fn split_on(s: Seq<char>, sep: char) -> Seq<Seq<char>>
    decreases s.len(),
{
    if s.len() == 0 {
        seq![Seq::<char>::empty()]
    } else if s[0] == sep {
        seq![Seq::<char>::empty()] + split_on(s.drop_first(), sep)
    } else {
        let rest = split_on(s.drop_first(), sep);
        seq![seq![s[0]] + rest[0]] + rest.drop_first()
    }
}

proof fn lemma_split_on_len(s: Seq<char>, sep: char)
    ensures
        split_on(s, sep).len() >= 1,
    decreases s.len(),
{
    if s.len() > 0 {
        lemma_split_on_len(s.drop_first(), sep);
    }
}

/// Splitting peels off everything up to the first separator, then splits
/// the remainder; with no separator the whole string is the one piece.
proof fn lemma_split_on_step(s: Seq<char>, sep: char)
    ensures
        find_ix(s, sep) == s.len() ==> split_on(s, sep) == seq![s],
        find_ix(s, sep) < s.len() ==> split_on(s, sep) == seq![s.take(find_ix(s, sep))]
            + split_on(s.skip(find_ix(s, sep) + 1), sep),
    decreases s.len(),
{
    lemma_find_ix_bounds(s, sep);
    if s.len() == 0 {
        assert(split_on(s, sep) =~~= seq![s]);
    } else if s[0] == sep {
        assert(s.skip(1) =~= s.drop_first());
        assert(s.take(0) =~= Seq::<char>::empty());
        assert(split_on(s, sep) =~~= seq![s.take(0)] + split_on(s.skip(1), sep));
    } else {
        let t = s.drop_first();
        let i = find_ix(s, sep);
        let j = find_ix(t, sep);
        lemma_find_ix_bounds(t, sep);
        lemma_split_on_step(t, sep);
        lemma_split_on_len(t, sep);
        let rest = split_on(t, sep);
        if j == t.len() {
            assert(rest == seq![t]);
            assert(seq![s[0]] + rest[0] =~= s);
            assert(rest.drop_first() =~= Seq::<Seq<char>>::empty());
            assert(split_on(s, sep) =~~= seq![s]);
        } else {
            assert(rest == seq![t.take(j)] + split_on(t.skip(j + 1), sep));
            assert(rest[0] == t.take(j));
            assert(seq![s[0]] + t.take(j) =~= s.take(i));
            assert(rest.drop_first() =~= split_on(t.skip(j + 1), sep));
            assert(t.skip(j + 1) =~= s.skip(i + 1));
            assert(split_on(s, sep) =~~= seq![s.take(i)] + split_on(s.skip(i + 1), sep));
        }
    }
}

/// Split `s` at every occurrence of `sep`, keeping empty pieces.
pub fn split_str(s: &str, sep: char) -> (r: Vec<String>)
    ensures
        r.deep_view() == split_on(s@, sep),
{
    let n = s.unicode_len();
    let mut r: Vec<String> = Vec::new();
    let mut pos: usize = 0;
    proof {
        assert(r.deep_view() =~= Seq::<Seq<char>>::empty());
        assert(s@.skip(0) =~= s@);
        assert(split_on(s@, sep) =~= r.deep_view() + split_on(s@.skip(0), sep));
    }
    loop
        invariant_except_break
            pos <= n,
            n == s@.len(),
            split_on(s@, sep) == r.deep_view() + split_on(s@.skip(pos as int), sep),
        ensures
            r.deep_view() == split_on(s@, sep),
        decreases n - pos,
    {
        let mut j: usize = pos;
        while j < n && s.get_char(j) != sep
            invariant
                pos <= j <= n,
                n == s@.len(),
                forall|k: int| pos <= k < j ==> s@[k] != sep,
            decreases n - j,
        {
            j = j + 1;
        }
        let ghost tail = s@.skip(pos as int);
        proof {
            assert forall|k: int| 0 <= k < j - pos implies tail[k] != sep by {
                assert(tail[k] == s@[k + pos]);
            }
            if j < n {
                assert(tail[j - pos] == s@[j as int]);
            }
            lemma_find_ix_is(tail, sep, j - pos);
            lemma_split_on_step(tail, sep);
        }
        let piece = s.substring_char(pos, j);
        let ghost old_r = r.deep_view();
        r.push(piece.to_owned());
        proof {
            assert(r.deep_view() =~= old_r.push(piece@));
            assert(piece@ =~= tail.take(j - pos));
        }
        if j == n {
            proof {
                assert(piece@ =~= tail);
                assert(split_on(tail, sep) == seq![tail]);
                assert(r.deep_view() =~= old_r + seq![tail]);
            }
            break;
        }
        proof {
            assert(split_on(tail, sep) == seq![tail.take(j - pos)] + split_on(
                tail.skip(j - pos + 1),
                sep,
            ));
            assert(tail.skip(j - pos + 1) =~= s@.skip(j + 1));
            assert(r.deep_view() + split_on(s@.skip(j + 1), sep) =~~= old_r + split_on(
                tail,
                sep,
            ));
        }
        pos = j + 1;
    }
    r
}

/// The nonempty pieces of a split, in order: empty path segments collapse.
pub open spec fn nonempty_of(pieces: Seq<Seq<char>>) -> Seq<Seq<char>>
    decreases pieces.len(),
{
    if pieces.len() == 0 {
        Seq::empty()
    } else {
        let rest = nonempty_of(pieces.drop_last());
        if pieces.last().len() > 0 {
            rest.push(pieces.last())
        } else {
            rest
        }
    }
}

/// Every piece that [`nonempty_of`] keeps is nonempty.
pub proof fn lemma_nonempty_of_nonempty(pieces: Seq<Seq<char>>)
    ensures
        forall|k: int| 0 <= k < nonempty_of(pieces).len() ==> nonempty_of(pieces)[k].len() > 0,
    decreases pieces.len(),
{
    if pieces.len() > 0 {
        let rest = nonempty_of(pieces.drop_last());
        lemma_nonempty_of_nonempty(pieces.drop_last());
        assert forall|k: int| 0 <= k < nonempty_of(pieces).len() implies nonempty_of(
            pieces,
        )[k].len() > 0 by {
            if pieces.last().len() > 0 {
                assert(nonempty_of(pieces) == rest.push(pieces.last()));
                if k < rest.len() {
                    assert(nonempty_of(pieces)[k] == rest[k]);
                }
            }
        }
    }
}

/// Keep only the nonempty strings, in order.
pub fn nonempty_strings(pieces: Vec<String>) -> (r: Vec<String>)
    ensures
        r.deep_view() == nonempty_of(pieces.deep_view()),
{
    let mut r: Vec<String> = Vec::new();
    let n = pieces.len();
    let mut i: usize = 0;
    while i < n
        invariant
            i <= n,
            n == pieces@.len(),
            r.deep_view() == nonempty_of(pieces.deep_view().take(i as int)),
        decreases n - i,
    {
        let ghost old_r = r.deep_view();
        let piece = &pieces[i];
        if piece.as_str().unicode_len() > 0 {
            r.push(piece.clone());
        }
        proof {
            let pv = pieces.deep_view();
            assert(pv.take(i + 1).drop_last() =~= pv.take(i as int));
            assert(pv.take(i + 1).last() == pv[i as int]);
            assert(pv[i as int] == piece@);
            if piece@.len() > 0 {
                assert(r.deep_view() =~= old_r.push(piece@));
            }
        }
        i = i + 1;
    }
    proof {
        assert(pieces.deep_view().take(n as int) =~= pieces.deep_view());
    }
    r
}


/// Whether `needle` occurs contiguously inside `hay`.
pub open spec fn is_substring(hay: Seq<char>, needle: Seq<char>) -> bool {
    exists|k: int|
        0 <= k <= hay.len() - needle.len() && #[trigger] hay.subrange(k, k + needle.len())
            == needle
}

fn match_at(hay: &str, needle: &str, k: usize) -> (r: bool)
    requires
        k + needle@.len() <= hay@.len(),
    ensures
        r == (hay@.subrange(k as int, k + needle@.len()) == needle@),
{
    let hn = hay.unicode_len();
    let nn = needle.unicode_len();
    let mut j: usize = 0;
    while j < nn
        invariant
            j <= nn,
            nn == needle@.len(),
            hn == hay@.len(),
            k + nn <= hay@.len(),
            forall|t: int| 0 <= t < j ==> hay@[k + t] == needle@[t],
        decreases nn - j,
    {
        if hay.get_char(k + j) != needle.get_char(j) {
            proof {
                assert(hay@.subrange(k as int, k + nn)[j as int] == hay@[k + j]);
            }
            return false;
        }
        j = j + 1;
    }
    proof {
        assert(hay@.subrange(k as int, k + nn) =~= needle@);
    }
    true
}

/// Substring search, proved against [`is_substring`].
pub fn contains_str(hay: &str, needle: &str) -> (r: bool)
    ensures
        r == is_substring(hay@, needle@),
{
    let hn = hay.unicode_len();
    let nn = needle.unicode_len();
    if nn > hn {
        return false;
    }
    if nn == 0 {
        proof {
            assert(hay@.subrange(0, 0 + needle@.len() as int) =~= needle@);
        }
        return true;
    }
    let mut k: usize = 0;
    while k <= hn - nn
        invariant
            0 < nn <= hn,
            hn == hay@.len(),
            nn == needle@.len(),
            k <= hn - nn + 1,
            forall|k2: int| 0 <= k2 < k ==> #[trigger] hay@.subrange(k2, k2 + nn) != needle@,
        decreases hn - nn - k + 1,
    {
        if match_at(hay, needle, k) {
            return true;
        }
        k = k + 1;
    }
    false
}

} // verus!
