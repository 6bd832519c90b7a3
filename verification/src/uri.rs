//! Matching of resource URIs against registered URI patterns.
//!
//! A pattern is matched byte by byte against a URI (both are UTF-8 text):
//! the exact text matches itself; `prefix/**` matches `prefix` itself and
//! every URI under `prefix/`; `prefix/*` matches a URI that is `prefix/`
//! followed by one segment without `/`; any other pattern that holds `*` is a
//! glob whose pieces between the stars must occur in the URI in order, the
//! first piece beginning it and the last ending it.
use vstd::prelude::*;
use vstd::string::StringSliceAdditionalSpecFns;
use vstd::utf8::encode_utf8;

verus! {

/// `s` begins with `pre`.
pub open spec fn starts_with(s: Seq<u8>, pre: Seq<u8>) -> bool {
    pre.len() <= s.len() && s.subrange(0, pre.len() as int) == pre
}

/// `s` ends with `suf`.
pub open spec fn ends_with(s: Seq<u8>, suf: Seq<u8>) -> bool {
    suf.len() <= s.len() && s.subrange(s.len() - suf.len(), s.len() as int) == suf
}

/// The bytes of `/**`.
pub open spec fn deep_wildcard() -> Seq<u8> {
    seq![0x2fu8, 0x2au8, 0x2au8]
}

/// The bytes of `/*`.
pub open spec fn single_wildcard() -> Seq<u8> {
    seq![0x2fu8, 0x2au8]
}

/// `needle` occurs in `hay` at byte offset `k`.
pub open spec fn occurs_at(hay: Seq<u8>, needle: Seq<u8>, k: int) -> bool {
    0 <= k && k + needle.len() <= hay.len() && hay.subrange(k, k + needle.len()) == needle
}

/// The first offset at or after `k` where `needle` occurs in `hay`.
pub open spec fn find_from(hay: Seq<u8>, needle: Seq<u8>, k: int) -> Option<int>
    decreases hay.len() + 1 - k,
{
    if k < 0 || k + needle.len() > hay.len() {
        None
    } else if occurs_at(hay, needle, k) {
        Some(k)
    } else {
        find_from(hay, needle, k + 1)
    }
}

/// The first offset where `needle` occurs in `hay` (what `str::find` returns).
pub open spec fn find_first(hay: Seq<u8>, needle: Seq<u8>) -> Option<int> {
    find_from(hay, needle, 0)
}

/// Offset of the first byte `b` of `s` at or after `k`, or `s.len()` where there is none.
pub open spec fn index_of_byte(s: Seq<u8>, b: u8, k: int) -> int
    decreases s.len() - k,
{
    if k < 0 || k >= s.len() {
        s.len() as int
    } else if s[k] == b {
        k
    } else {
        index_of_byte(s, b, k + 1)
    }
}

/// The byte of `*`.
pub open spec fn star() -> u8 {
    0x2au8
}

/// The byte of `/`.
pub open spec fn slash() -> u8 {
    0x2fu8
}

/// How a glob pattern continues from `rest`, the pattern text after the last
/// star handled so far, where `pos` bytes of `uri` are already consumed and
/// `first` tells whether `rest` begins the pattern. The piece before the next
/// star is handled thus: an empty piece is skipped; a first piece must begin
/// the URI; a later piece is searched for in the URI from `pos` on and the
/// search resumes after its first occurrence. The last piece (after the last
/// star) must end the URI, after what is consumed; where the pattern holds no
/// star at all, the piece must be the whole URI.
pub open spec fn glob_from(rest: Seq<u8>, first: bool, uri: Seq<u8>, pos: int) -> bool
    decreases rest.len(),
{
    let k = index_of_byte(rest, star(), 0);
    let piece = rest.subrange(0, k);
    if k >= rest.len() {
        if piece.len() == 0 {
            true
        } else if first {
            uri == piece
        } else {
            ends_with(uri, piece) && pos + piece.len() <= uri.len()
        }
    } else {
        let next: Option<int> = if piece.len() == 0 {
            Some(pos)
        } else if first {
            if starts_with(uri, piece) {
                Some(piece.len() as int)
            } else {
                None
            }
        } else {
            match find_first(uri.subrange(pos, uri.len() as int), piece) {
                Some(f) => Some(pos + f + piece.len()),
                None => None,
            }
        };
        match next {
            None => false,
            Some(np) => {
                proof {
                    lemma_index_of_byte_bounds(rest, star(), 0);
                }
                glob_from(rest.subrange(k + 1, rest.len() as int), false, uri, np)
            },
        }
    }
}

/// The piece of `rest` after its last star (all of `rest` where it holds none).
pub open spec fn last_piece(rest: Seq<u8>) -> Seq<u8>
    decreases rest.len(),
{
    let k = index_of_byte(rest, star(), 0);
    if k >= rest.len() {
        rest
    } else {
        proof {
            lemma_index_of_byte_bounds(rest, star(), 0);
        }
        last_piece(rest.subrange(k + 1, rest.len() as int))
    }
}

/// Whether the URI `u` matches the pattern `p` (both as UTF-8 bytes).
pub open spec fn pattern_matches(p: Seq<u8>, u: Seq<u8>) -> bool {
    if p == u {
        true
    } else if ends_with(p, deep_wildcard()) {
        u == p.subrange(0, p.len() - 3) || starts_with(u, p.subrange(0, p.len() - 2))
    } else if ends_with(p, single_wildcard()) {
        let n = p.len() - 1;
        starts_with(u, p.subrange(0, n)) && !u.subrange(n, u.len() as int).contains(slash())
    } else if p.contains(star()) {
        glob_from(p, true, u, 0)
    } else {
        false
    }
}

pub proof fn lemma_index_of_byte_bounds(s: Seq<u8>, b: u8, k: int)
    requires
        0 <= k,
    ensures
        k <= index_of_byte(s, b, k) <= s.len() || (k > s.len() && index_of_byte(s, b, k)
            == s.len()),
        index_of_byte(s, b, k) < s.len() ==> s[index_of_byte(s, b, k)] == b,
    decreases s.len() - k,
{
    if k < s.len() && s[k] != b {
        lemma_index_of_byte_bounds(s, b, k + 1);
    }
}

/// What `find_from` returns is an occurrence at or after `k`.
pub proof fn lemma_find_from_occurs(hay: Seq<u8>, needle: Seq<u8>, k: int)
    ensures
        find_from(hay, needle, k) matches Some(f) ==> k <= f && occurs_at(hay, needle, f),
    decreases hay.len() + 1 - k,
{
    if !(k < 0 || k + needle.len() > hay.len()) && !occurs_at(hay, needle, k) {
        lemma_find_from_occurs(hay, needle, k + 1);
    }
}

/// `index_of_byte` is the first `b` at or after `k`.
proof fn lemma_index_of_byte_is(s: Seq<u8>, b: u8, k: int, r: int)
    requires
        0 <= k <= r <= s.len(),
        forall|j: int| k <= j < r ==> s[j] != b,
        r == s.len() || s[r] == b,
    ensures
        index_of_byte(s, b, k) == r,
    decreases r - k,
{
    if k < r {
        lemma_index_of_byte_is(s, b, k + 1, r);
    }
}

/// Whether `p[a..b]` occurs in `u` at offset `off`.
fn piece_at(u: &[u8], off: usize, p: &[u8], a: usize, b: usize) -> (r: bool)
    requires
        a <= b <= p@.len(),
    ensures
        r == occurs_at(u@, p@.subrange(a as int, b as int), off as int),
{
    let n = b - a;
    if off > u.len() || n > u.len() - off {
        return false;
    }
    let ulen = u.len();
    let ghost us = u@.subrange(off as int, off + n);
    let ghost ps = p@.subrange(a as int, b as int);
    let mut i: usize = 0;
    while i < n
        invariant
            a <= b <= p@.len(),
            n == b - a,
            off + n <= u@.len(),
            ulen == u@.len(),
            i <= n,
            us == u@.subrange(off as int, off + n),
            ps == p@.subrange(a as int, b as int),
            forall|j: int| 0 <= j < i ==> #[trigger] us[j] == ps[j],
        decreases n - i,
    {
        assert(us[i as int] == u@[off + i] && ps[i as int] == p@[a + i]);
        if u[off + i] != p[a + i] {
            return false;
        }
        i = i + 1;
    }
    assert(us =~= ps);
    true
}

/// The first offset, counted from `pos`, at which `p[a..b]` occurs in `u[pos..]`.
pub(crate) fn find_piece(u: &[u8], pos: usize, p: &[u8], a: usize, b: usize) -> (r: Option<usize>)
    requires
        pos <= u@.len(),
        a < b <= p@.len(),
    ensures
        match r {
            Some(f) => find_first(u@.subrange(pos as int, u@.len() as int), p@.subrange(a as int, b as int))
                == Some(f as int),
            None => find_first(u@.subrange(pos as int, u@.len() as int), p@.subrange(a as int, b as int))
                is None,
        },
{
    let ghost hay = u@.subrange(pos as int, u@.len() as int);
    let ghost needle = p@.subrange(a as int, b as int);
    let n = b - a;
    let room = u.len() - pos;
    if n > room {
        return None;
    }
    let mut k: usize = 0;
    while k <= room - n
        invariant
            room == hay.len(),
            pos + room == u@.len(),
            u@.len() <= usize::MAX,
            0 < n <= room,
            pos <= u@.len(),
            a < b <= p@.len(),
            n == b - a,
            hay == u@.subrange(pos as int, u@.len() as int),
            needle == p@.subrange(a as int, b as int),
            needle.len() == n,
            k <= hay.len() - n + 1,
            find_first(hay, needle) == find_from(hay, needle, k as int),
        decreases hay.len() - n + 1 - k,
    {
        let hit = piece_at(u, pos + k, p, a, b);
        assert(occurs_at(u@, needle, pos + k) == occurs_at(hay, needle, k as int)) by {
            if k + n <= hay.len() {
                assert(u@.subrange(pos + k, pos + k + n) =~= hay.subrange(k as int, k + n));
            }
        }
        if hit {
            return Some(k);
        }
        k = k + 1;
    }
    None
}

/// Offset of the first `*` in `p` at or after `start`, or `p.len()`.
fn next_star(p: &[u8], start: usize) -> (k: usize)
    requires
        start <= p@.len(),
    ensures
        start <= k <= p@.len(),
        k - start == index_of_byte(p@.subrange(start as int, p@.len() as int), star(), 0),
{
    let mut k = start;
    while k < p.len() && p[k] != 0x2a
        invariant
            start <= k <= p@.len(),
            forall|j: int| start <= j < k ==> p@[j] != star(),
        decreases p@.len() - k,
    {
        k = k + 1;
    }
    let ghost rest = p@.subrange(start as int, p@.len() as int);
    proof {
        lemma_index_of_byte_is(rest, star(), 0, k - start);
    }
    k
}

/// Whether `s[from..]` holds the byte `b`.
fn holds_byte_from(s: &[u8], from: usize, b: u8) -> (r: bool)
    requires
        from <= s@.len(),
    ensures
        r == s@.subrange(from as int, s@.len() as int).contains(b),
{
    let ghost rest = s@.subrange(from as int, s@.len() as int);
    let mut k = from;
    while k < s.len()
        invariant
            from <= k <= s@.len(),
            rest == s@.subrange(from as int, s@.len() as int),
            forall|j: int| from <= j < k ==> s@[j] != b,
        decreases s@.len() - k,
    {
        if s[k] == b {
            assert(rest[k - from] == b);
            return true;
        }
        k = k + 1;
    }
    assert forall|j: int| 0 <= j < rest.len() implies rest[j] != b by {
        assert(rest[j] == s@[from + j]);
    }
    false
}

/// Whether `a` and `b` hold the same bytes.
pub fn same_bytes(a: &[u8], b: &[u8]) -> (r: bool)
    ensures
        r == (a@ == b@),
{
    if a.len() != b.len() {
        return false;
    }
    let r = piece_at(a, 0, b, 0, b.len());
    proof {
        assert(b@.subrange(0, b@.len() as int) =~= b@);
        if r {
            assert(a@.subrange(0, a@.len() as int) =~= a@);
        }
    }
    r
}


/// Whether `p` ends with `/**`.
fn ends_with_deep(p: &[u8]) -> (r: bool)
    ensures
        r == ends_with(p@, deep_wildcard()),
{
    let n = p.len();
    if n < 3 {
        return false;
    }
    let r = p[n - 3] == 0x2f && p[n - 2] == 0x2a && p[n - 1] == 0x2a;
    proof {
        let tail = p@.subrange(n - 3, n as int);
        assert(tail[0] == p@[n - 3] && tail[1] == p@[n - 2] && tail[2] == p@[n - 1]);
        if r {
            assert(tail =~= deep_wildcard());
        }
    }
    r
}

/// Whether `p` ends with `/*`.
fn ends_with_single(p: &[u8]) -> (r: bool)
    ensures
        r == ends_with(p@, single_wildcard()),
{
    let n = p.len();
    if n < 2 {
        return false;
    }
    let r = p[n - 2] == 0x2f && p[n - 1] == 0x2a;
    proof {
        let tail = p@.subrange(n - 2, n as int);
        assert(tail[0] == p@[n - 2] && tail[1] == p@[n - 1]);
        if r {
            assert(tail =~= single_wildcard());
        }
    }
    r
}

/// The glob case of [`uri_matches`]: `p` holds a `*`.
fn glob_matches(p: &[u8], u: &[u8]) -> (r: bool)
    ensures
        r == glob_from(p@, true, u@, 0),
{
    let pl = p.len();
    let ul = u.len();
    let mut start: usize = 0;
    let mut first = true;
    let mut pos: usize = 0;
    assert(p@.subrange(0, pl as int) =~= p@);
    loop
        invariant
            pl == p@.len(),
            ul == u@.len(),
            start <= pl,
            pos <= u@.len(),
            u@.len() <= usize::MAX,
            glob_from(p@, true, u@, 0) == glob_from(
                p@.subrange(start as int, pl as int),
                first,
                u@,
                pos as int,
            ),
        decreases pl - start,
    {
        let ghost rest = p@.subrange(start as int, pl as int);
        let k = next_star(p, start);
        let n = k - start;
        assert(rest.subrange(0, n as int) =~= p@.subrange(start as int, k as int));
        if k >= pl {
            if n == 0 {
                return true;
            }
            if first {
                let whole = n == ul && piece_at(u, 0, p, start, k);
                proof {
                    if ul == n {
                        assert(u@.subrange(0, n as int) =~= u@);
                    }
                    if u@ == p@.subrange(start as int, k as int) {
                        assert(u@.subrange(0, n as int) =~= u@);
                    }
                }
                return whole;
            }
            if n > ul - pos {
                return false;
            }
            let hit = piece_at(u, ul - n, p, start, k);
            assert(hit == ends_with(u@, p@.subrange(start as int, k as int)));
            return hit;
        }
        if n == 0 {
        } else if first {
            if !piece_at(u, 0, p, start, k) {
                return false;
            }
            pos = n;
        } else {
            match find_piece(u, pos, p, start, k) {
                None => {
                    return false;
                },
                Some(f) => {
                    proof {
                        lemma_find_from_occurs(
                            u@.subrange(pos as int, u@.len() as int),
                            p@.subrange(start as int, k as int),
                            0,
                        );
                    }
                    pos = pos + f + n;
                },
            }
        }
        assert(rest.subrange(n + 1, rest.len() as int) =~= p@.subrange(k + 1, pl as int));
        start = k + 1;
        first = false;
    }
}

/// Whether the URI `uri` matches the resource pattern `pattern`.
///
/// A pattern matches the identical URI; `prefix/**` matches `prefix` itself
/// and every URI that begins with `prefix/`; `prefix/*` matches a URI that
/// begins with `prefix/` and holds no `/` after it; another pattern with a
/// `*` is a glob: its pieces between the stars occur in the URI in order,
/// the first piece at its start and the last at its end; a pattern without
/// `*` matches only the identical URI.
pub fn uri_matches(pattern: &str, uri: &str) -> (r: bool)
    ensures
        r == pattern_matches(pattern.spec_bytes(), uri.spec_bytes()),
{
    let p = pattern.as_bytes();
    let u = uri.as_bytes();
    if same_bytes(p, u) {
        return true;
    }
    let pl = p.len();
    if ends_with_deep(p) {
        let base = pl - 3;
        let whole = u.len() == base && piece_at(u, 0, p, 0, base);
        proof {
            if u@.len() == base {
                assert(u@.subrange(0, base as int) =~= u@);
            }
            if u@ == p@.subrange(0, base as int) {
                assert(u@.subrange(0, base as int) =~= u@);
            }
        }
        return whole || piece_at(u, 0, p, 0, pl - 2);
    }
    if ends_with_single(p) {
        let n = pl - 1;
        if !piece_at(u, 0, p, 0, n) {
            return false;
        }
        return !holds_byte_from(u, n, 0x2f);
    }
    let starred = holds_byte_from(p, 0, 0x2a);
    assert(p@.subrange(0, pl as int) =~= p@);
    if starred {
        return glob_matches(p, u);
    }
    false
}

/// Whether `uri` matches `pattern`, both given as text.
pub open spec fn text_matches(pattern: Seq<char>, uri: Seq<char>) -> bool {
    pattern_matches(encode_utf8(pattern), encode_utf8(uri))
}

/// None of the first `n` patterns matches `uri`.
pub open spec fn passed_over(patterns: Seq<Seq<char>>, uri: Seq<char>, n: int) -> bool {
    forall|j: int| 0 <= j < n ==> !text_matches(#[trigger] patterns[j], uri)
}

/// The outcome of looking for the pattern that a URI matches.
#[derive(PartialEq, Eq, Structural)]
pub enum PatternLookup {
    /// The pattern at this index is the first that matches.
    Matched(usize),
    /// No pattern matches.
    NoMatch,
}

/// The outcome of going through `patterns` from index `i` on (see
/// [`find_resource_pattern`]).
pub open spec fn lookup_from(patterns: Seq<Seq<char>>, uri: Seq<char>, i: int) -> PatternLookup
    decreases patterns.len() - i,
{
    if i < 0 || i >= patterns.len() {
        PatternLookup::NoMatch
    } else if text_matches(patterns[i], uri) {
        PatternLookup::Matched(i as usize)
    } else {
        lookup_from(patterns, uri, i + 1)
    }
}

/// Goes through `patterns` in order and reports the first that `uri` matches.
pub fn find_resource_pattern(patterns: &Vec<String>, uri: &str) -> (r: PatternLookup)
    ensures
        r == lookup_from(patterns@.map_values(|s: String| s@), uri@, 0),
        ({
            let ps = patterns@.map_values(|s: String| s@);
            match r {
                PatternLookup::Matched(i) => i < ps.len() && passed_over(ps, uri@, i as int)
                    && text_matches(ps[i as int], uri@),
                PatternLookup::NoMatch => passed_over(ps, uri@, ps.len() as int),
            }
        }),
{
    let ghost ps = patterns@.map_values(|s: String| s@);
    let mut i: usize = 0;
    while i < patterns.len()
        invariant
            i <= patterns@.len(),
            ps == patterns@.map_values(|s: String| s@),
            passed_over(ps, uri@, i as int),
            lookup_from(ps, uri@, 0) == lookup_from(ps, uri@, i as int),
        decreases patterns@.len() - i,
    {
        let pattern = patterns[i].as_str();
        assert(ps[i as int] == pattern@);
        if uri_matches(pattern, uri) {
            return PatternLookup::Matched(i);
        }
        i = i + 1;
    }
    PatternLookup::NoMatch
}

/// Every pattern matches the URI that is the same text.
pub proof fn law_pattern_matches_itself(p: Seq<u8>)
    ensures
        pattern_matches(p, p),
{
}

/// A pattern `prefix/**` matches `prefix` itself and every URI `prefix/` + `rest`.
pub proof fn law_deep_wildcard_matches_below(prefix: Seq<u8>, rest: Seq<u8>)
    ensures
        pattern_matches(prefix + deep_wildcard(), prefix),
        pattern_matches(prefix + deep_wildcard(), prefix + seq![slash()] + rest),
{
    let p = prefix + deep_wildcard();
    let n = prefix.len() as int;
    assert(p.subrange(p.len() - 3, p.len() as int) =~= deep_wildcard());
    assert(p.subrange(0, n) =~= prefix);
    assert(p.subrange(0, n + 1) =~= prefix + seq![slash()]);
    let u = prefix + seq![slash()] + rest;
    assert(u.subrange(0, n + 1) =~= prefix + seq![slash()]);
}

/// A pattern `prefix/**` matches nothing outside `prefix`: a URI that it
/// matches is `prefix` itself, begins with `prefix/`, or is the pattern's own text.
pub proof fn law_deep_wildcard_stays_below(prefix: Seq<u8>, u: Seq<u8>)
    requires
        pattern_matches(prefix + deep_wildcard(), u),
    ensures
        u == prefix || starts_with(u, prefix + seq![slash()]) || u == prefix + deep_wildcard(),
{
    let p = prefix + deep_wildcard();
    let n = prefix.len() as int;
    assert(p.subrange(p.len() - 3, p.len() as int) =~= deep_wildcard());
    assert(p.subrange(0, n) =~= prefix);
    assert(p.subrange(0, n + 1) =~= prefix + seq![slash()]);
}

/// A pattern `prefix/*` matches a URI `prefix/` + `rest` when `rest` holds no `/`.
pub proof fn law_single_wildcard_matches_segment(prefix: Seq<u8>, rest: Seq<u8>)
    requires
        !rest.contains(slash()),
    ensures
        pattern_matches(prefix + single_wildcard(), prefix + seq![slash()] + rest),
{
    let p = prefix + single_wildcard();
    let u = prefix + seq![slash()] + rest;
    if p != u {
        let n = prefix.len() + 1int;
        let tail = p.subrange(p.len() - 3, p.len() as int);
        if p.len() >= 3 {
            assert(tail[1] == slash());
            assert(tail[1] != deep_wildcard()[1]);
        }
        assert(p.subrange(p.len() - 2, p.len() as int) =~= single_wildcard());
        assert(p.subrange(0, n) =~= prefix + seq![slash()]);
        assert(u.subrange(0, n) =~= prefix + seq![slash()]);
        assert(u.subrange(n, u.len() as int) =~= rest);
    }
}

/// A pattern `prefix/*` matches nothing but `prefix/` followed by one
/// segment without `/` (or the pattern's own text): URIs shorter than
/// `prefix/` and URIs deeper down do not match.
pub proof fn law_single_wildcard_stays_in_segment(prefix: Seq<u8>, u: Seq<u8>)
    requires
        pattern_matches(prefix + single_wildcard(), u),
    ensures
        u == prefix + single_wildcard() || exists|rest: Seq<u8>|
            !rest.contains(slash()) && u == prefix + seq![slash()] + rest,
{
    let p = prefix + single_wildcard();
    if u != p {
        let n = prefix.len() + 1int;
        if p.len() >= 3 {
            let tail = p.subrange(p.len() - 3, p.len() as int);
            assert(tail[1] == slash());
            assert(tail[1] != deep_wildcard()[1]);
        }
        assert(p.subrange(p.len() - 2, p.len() as int) =~= single_wildcard());
        assert(p.subrange(0, n) =~= prefix + seq![slash()]);
        let rest = u.subrange(n, u.len() as int);
        assert(u =~= prefix + seq![slash()] + rest) by {
            assert(u.subrange(0, n) =~= prefix + seq![slash()]);
        }
    }
}

/// A `prefix/*` pattern does not match a URI `prefix/` + `rest` where `rest`
/// holds a `/` (unless the URI is the pattern's own text).
pub proof fn law_single_wildcard_stops_at_slash(prefix: Seq<u8>, rest: Seq<u8>)
    requires
        rest.contains(slash()),
        prefix + single_wildcard() != prefix + seq![slash()] + rest,
    ensures
        !pattern_matches(prefix + single_wildcard(), prefix + seq![slash()] + rest),
{
    let p = prefix + single_wildcard();
    let u = prefix + seq![slash()] + rest;
    let n = prefix.len() + 1int;
    if p.len() >= 3 {
        let tail = p.subrange(p.len() - 3, p.len() as int);
        assert(tail[1] == slash());
        assert(tail[1] != deep_wildcard()[1]);
    }
    assert(p.subrange(p.len() - 2, p.len() as int) =~= single_wildcard());
    assert(u.subrange(n, u.len() as int) =~= rest);
}

/// A glob that matches `uri` has its last piece at the end of `uri`.
proof fn lemma_glob_ends_with_last_piece(rest: Seq<u8>, first: bool, uri: Seq<u8>, pos: int)
    requires
        glob_from(rest, first, uri, pos),
    ensures
        ends_with(uri, last_piece(rest)),
    decreases rest.len(),
{
    let k = index_of_byte(rest, star(), 0);
    lemma_index_of_byte_bounds(rest, star(), 0);
    if k >= rest.len() {
        assert(rest.subrange(0, k) =~= rest);
        if rest.len() == 0 {
            assert(uri.subrange(uri.len() as int, uri.len() as int) =~= rest);
        } else if first {
            assert(uri.subrange(0, uri.len() as int) =~= uri);
        }
    } else {
        let piece = rest.subrange(0, k);
        let next: Option<int> = if piece.len() == 0 {
            Some(pos)
        } else if first {
            if starts_with(uri, piece) {
                Some(piece.len() as int)
            } else {
                None
            }
        } else {
            match find_first(uri.subrange(pos, uri.len() as int), piece) {
                Some(f) => Some(pos + f + piece.len()),
                None => None,
            }
        };
        if let Some(np) = next {
            lemma_glob_ends_with_last_piece(rest.subrange(k + 1, rest.len() as int), false, uri, np);
        }
    }
}

/// A glob pattern (one that holds `*` and ends neither in `/**` nor in `/*`)
/// is anchored at both ends: a URI that it matches, other than its own
/// text, begins with the piece before its first `*` and ends with the piece
/// after its last `*`.
pub proof fn law_glob_is_anchored_at_both_ends(p: Seq<u8>, u: Seq<u8>)
    requires
        p.contains(star()),
        !ends_with(p, deep_wildcard()),
        !ends_with(p, single_wildcard()),
        p != u,
        pattern_matches(p, u),
    ensures
        starts_with(u, p.subrange(0, index_of_byte(p, star(), 0))),
        ends_with(u, last_piece(p)),
{
    lemma_index_of_byte_bounds(p, star(), 0);
    let k = index_of_byte(p, star(), 0);
    assert(k < p.len()) by {
        let j = choose|j: int| 0 <= j < p.len() && p[j] == star();
        lemma_index_of_byte_first(p, star(), 0, j);
    }
    lemma_glob_ends_with_last_piece(p, true, u, 0);
    if k == 0 {
        assert(u.subrange(0, 0) =~= p.subrange(0, 0));
    }
}

/// A pattern `a*b`, where neither `a` nor `b` holds `*` and `b` is not
/// empty, matches exactly the URIs that begin with `a` and end with `b`,
/// the two not overlapping (and its own text).
pub proof fn law_two_piece_glob(a: Seq<u8>, b: Seq<u8>, u: Seq<u8>)
    requires
        !a.contains(star()),
        !b.contains(star()),
        b.len() > 0,
    ensures
        pattern_matches(a + seq![star()] + b, u) <==> (u == a + seq![star()] + b || (
        starts_with(u, a) && ends_with(u, b) && a.len() + b.len() <= u.len())),
{
    let p = a + seq![star()] + b;
    let n = a.len() as int;
    assert(p[n] == star());
    assert(p.contains(star()));
    assert(p[p.len() - 1] == b[b.len() - 1]);
    assert(b[b.len() - 1] != star()) by {
        if b[b.len() - 1] == star() {
            assert(b.contains(star()));
        }
    }
    if p.len() >= 2 {
        assert(p.subrange(p.len() - 2, p.len() as int)[1] == p[p.len() - 1]);
        assert(!ends_with(p, single_wildcard()));
    }
    if p.len() >= 3 {
        assert(p.subrange(p.len() - 3, p.len() as int)[2] == p[p.len() - 1]);
        assert(!ends_with(p, deep_wildcard()));
    }
    assert forall|j: int| 0 <= j < n implies p[j] != star() by {
        assert(p[j] == a[j]);
        if a[j] == star() {
            assert(a.contains(star()));
        }
    }
    lemma_index_of_byte_is(p, star(), 0, n);
    assert(p.subrange(0, n) =~= a);
    let rest = p.subrange(n + 1, p.len() as int);
    assert(rest =~= b);
    assert forall|j: int| 0 <= j < b.len() implies b[j] != star() by {
        if b[j] == star() {
            assert(b.contains(star()));
        }
    }
    lemma_index_of_byte_is(b, star(), 0, b.len() as int);
    assert(b.subrange(0, b.len() as int) =~= b);
    assert forall|pos: int| #[trigger] glob_from(b, false, u, pos) == (ends_with(u, b) && pos
        + b.len() <= u.len()) by {}
    if n == 0 {
        assert(glob_from(p, true, u, 0) == glob_from(b, false, u, 0));
        assert(u.subrange(0, 0) =~= a);
    } else {
        assert(glob_from(p, true, u, 0) == (starts_with(u, a) && glob_from(b, false, u, n)));
    }
}

/// A glob `a*b*c` (no `*` in `a`, `b`, `c`; `b` not empty; not a `/*` or
/// `/**` pattern) matches a URI other than its own text only where `a`
/// begins the URI, `c` ends it, and `b` occurs between them, overlapping
/// neither: every piece occurs, in order.
pub proof fn law_three_piece_glob_finds_middle(a: Seq<u8>, b: Seq<u8>, c: Seq<u8>, u: Seq<u8>)
    requires
        !a.contains(star()),
        !b.contains(star()),
        !c.contains(star()),
        b.len() > 0,
        !ends_with(a + seq![star()] + b + seq![star()] + c, deep_wildcard()),
        !ends_with(a + seq![star()] + b + seq![star()] + c, single_wildcard()),
        u != a + seq![star()] + b + seq![star()] + c,
        pattern_matches(a + seq![star()] + b + seq![star()] + c, u),
    ensures
        starts_with(u, a),
        ends_with(u, c),
        exists|i: int|
            a.len() <= i && i + b.len() + c.len() <= u.len() && #[trigger] occurs_at(u, b, i),
{
    let p = a + seq![star()] + b + seq![star()] + c;
    let n = a.len() as int;
    assert(p[n] == star());
    assert(p.contains(star()));
    assert forall|j: int| 0 <= j < n implies p[j] != star() by {
        assert(p[j] == a[j]);
        if a[j] == star() {
            assert(a.contains(star()));
        }
    }
    lemma_index_of_byte_is(p, star(), 0, n);
    assert(p.subrange(0, n) =~= a);
    let r1 = p.subrange(n + 1, p.len() as int);
    assert(r1 =~= b + seq![star()] + c);
    let m = b.len() as int;
    assert(r1[m] == star());
    assert forall|j: int| 0 <= j < m implies r1[j] != star() by {
        assert(r1[j] == b[j]);
        if b[j] == star() {
            assert(b.contains(star()));
        }
    }
    lemma_index_of_byte_is(r1, star(), 0, m);
    assert(r1.subrange(0, m) =~= b);
    let r2 = r1.subrange(m + 1, r1.len() as int);
    assert(r2 =~= c);
    assert forall|j: int| 0 <= j < c.len() implies c[j] != star() by {
        if c[j] == star() {
            assert(c.contains(star()));
        }
    }
    lemma_index_of_byte_is(c, star(), 0, c.len() as int);
    assert(c.subrange(0, c.len() as int) =~= c);
    let pos: int = if n == 0 { 0 } else { n };
    if n == 0 {
        assert(u.subrange(0, 0) =~= a);
        assert(glob_from(p, true, u, 0) == glob_from(r1, false, u, 0));
    } else {
        assert(glob_from(p, true, u, 0) == (starts_with(u, a) && glob_from(r1, false, u, n)));
    }
    let hay = u.subrange(pos, u.len() as int);
    lemma_find_from_occurs(hay, b, 0);
    let f = find_first(hay, b)->0;
    assert(glob_from(r1, false, u, pos) == glob_from(c, false, u, pos + f + m));
    let i = pos + f;
    assert(hay.subrange(f, f + m) =~= u.subrange(i, i + m));
    assert(occurs_at(u, b, i));
    if c.len() == 0 {
        assert(u.subrange(u.len() as int, u.len() as int) =~= c);
    }
}

/// No `b` comes before `index_of_byte`, so it is at most any offset that holds `b`.
proof fn lemma_index_of_byte_first(s: Seq<u8>, b: u8, k: int, j: int)
    requires
        0 <= k <= j < s.len(),
        s[j] == b,
    ensures
        index_of_byte(s, b, k) <= j,
    decreases j - k,
{
    if s[k] != b {
        lemma_index_of_byte_first(s, b, k + 1, j);
    }
}

/// A pattern without `*` matches only its own text.
pub proof fn law_plain_pattern_is_exact(p: Seq<u8>, u: Seq<u8>)
    requires
        !p.contains(star()),
    ensures
        pattern_matches(p, u) <==> p == u,
{
    if p.len() >= 3 && ends_with(p, deep_wildcard()) {
        assert(p.subrange(p.len() - 3, p.len() as int)[2] == p[p.len() - 1]);
        assert(p.contains(star()));
    }
    if p.len() >= 2 && ends_with(p, single_wildcard()) {
        assert(p.subrange(p.len() - 2, p.len() as int)[1] == p[p.len() - 1]);
        assert(p.contains(star()));
    }
}


/// A pattern `prefix*`, where `prefix` holds no `*` and does not end with
/// `/`, matches every URI that begins with `prefix`.
pub proof fn law_trailing_star_matches_prefix(prefix: Seq<u8>, rest: Seq<u8>)
    requires
        !prefix.contains(star()),
        prefix.len() > 0 ==> prefix[prefix.len() - 1] != slash(),
    ensures
        pattern_matches(prefix.push(star()), prefix + rest),
{
    let p = prefix.push(star());
    let u = prefix + rest;
    let n = prefix.len() as int;
    if p != u {
        assert(p[n] == star());
        assert(p.contains(star()));
        if p.len() >= 2 {
            let tail = p.subrange(p.len() - 2, p.len() as int);
            assert(tail[0] == p[n - 1]);
            assert(tail[0] != single_wildcard()[0]);
            assert(!ends_with(p, single_wildcard()));
        }
        if p.len() >= 3 {
            let tail = p.subrange(p.len() - 3, p.len() as int);
            assert(tail[1] == p[n - 1]);
            assert(tail[1] != deep_wildcard()[1]);
            assert(!ends_with(p, deep_wildcard()));
        }
        assert forall|j: int| 0 <= j < n implies p[j] != star() by {
            assert(p[j] == prefix[j]);
        }
        lemma_index_of_byte_is(p, star(), 0, n);
        assert(p.subrange(0, n) =~= prefix);
        assert(u.subrange(0, n) =~= prefix);
        let empty = p.subrange(n + 1, p.len() as int);
        assert(empty.len() == 0);
        lemma_index_of_byte_is(empty, star(), 0, 0);
        assert(empty.subrange(0, 0).len() == 0);
        assert(glob_from(empty, false, u, n));
    }
}

}
