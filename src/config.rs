//! Settings of the server that take the form of small lists in text.
use vstd::prelude::*;
use vstd::string::*;
use vstd::utf8::encode_utf8;
use crate::metadata::str_views;
use crate::names::{contains_char, first_index};

verus! {

/// `s` cut at every `c`; pieces may be empty.
#[verifier::opaque]
pub open spec fn split_on(s: Seq<char>, c: char) -> Seq<Seq<char>>
    decreases s.len(),
{
    if contains_char(s, c) {
        let k = first_index(s, c);
        if 0 <= k < s.len() {
            seq![s.subrange(0, k)] + split_on(s.subrange(k + 1, s.len() as int), c)
        } else {
            seq![s]
        }
    } else {
        seq![s]
    }
}

/// As `split_on`, without the last piece where it is empty.
pub open spec fn split_terminator(s: Seq<char>, c: char) -> Seq<Seq<char>> {
    let p = split_on(s, c);
    if p.last().len() == 0 {
        p.drop_last()
    } else {
        p
    }
}

proof fn lemma_first_index(s: Seq<char>, c: char, i: int)
    requires
        0 <= i < s.len(),
        s[i] == c,
        forall|j: int| 0 <= j < i ==> s[j] != c,
    ensures
        contains_char(s, c),
        first_index(s, c) == i,
{
    assert(contains_char(s, c));
    let k = first_index(s, c);
    if k < i {
        assert(s[k] != c);
    } else if k > i {
        assert(s[i] != c);
    }
}

proof fn lemma_split_step(rest: Seq<char>, c: char, k: int)
    requires
        0 <= k < rest.len(),
        rest[k] == c,
        forall|j: int| 0 <= j < k ==> rest[j] != c,
    ensures
        split_on(rest, c) == seq![rest.subrange(0, k)] + split_on(rest.subrange(k + 1, rest.len() as int), c),
{
    lemma_first_index(rest, c, k);
    reveal(split_on);
}

proof fn lemma_split_last(rest: Seq<char>, c: char)
    requires
        !contains_char(rest, c),
    ensures
        split_on(rest, c) == seq![rest],
{
    reveal(split_on);
}

proof fn lemma_split_nonempty(s: Seq<char>, c: char)
    ensures
        split_on(s, c).len() > 0,
    decreases s.len(),
{
    reveal(split_on);
    if contains_char(s, c) {
        let k = first_index(s, c);
        if 0 <= k < s.len() {
            lemma_split_nonempty(s.subrange(k + 1, s.len() as int), c);
        }
    }
}

/// The pieces of `s` between the characters `c`, as slices of `s`.
pub fn split_str<'a>(s: &'a str, c: char) -> (r: Vec<&'a str>)
    ensures
        str_views(r@) == split_on(s@, c),
{
    let n = s.unicode_len();
    let mut r: Vec<&'a str> = Vec::new();
    let mut start: usize = 0;
    let mut i: usize = 0;
    assert(str_views(r@) =~= seq![]);
    assert(s@.subrange(0, n as int) =~= s@);
    assert(seq![] + split_on(s@, c) =~= split_on(s@, c));
    while i < n
        invariant
            n == s@.len(),
            start <= i <= n,
            forall|j: int| start <= j < i ==> s@[j] != c,
            str_views(r@) + split_on(s@.subrange(start as int, n as int), c) == split_on(s@, c),
        decreases n - i,
    {
        if s.get_char(i) == c {
            let ghost rest = s@.subrange(start as int, n as int);
            let ghost before = str_views(r@);
            let piece = s.substring_char(start, i);
            proof {
                lemma_split_step(rest, c, i - start);
                assert(rest.subrange(0, i - start) =~= piece@);
                assert(rest.subrange(i - start + 1, rest.len() as int) =~= s@.subrange(i as int + 1, n as int));
            }
            r.push(piece);
            proof {
                assert(str_views(r@) =~= before.push(piece@));
                assert(before.push(piece@) + split_on(s@.subrange(i as int + 1, n as int), c) =~= before + (seq![piece@] + split_on(s@.subrange(i as int + 1, n as int), c)));
            }
            start = i + 1;
        }
        i += 1;
    }
    let ghost rest = s@.subrange(start as int, n as int);
    let ghost before = str_views(r@);
    assert(!contains_char(rest, c));
    proof {
        lemma_split_last(rest, c);
    }
    let piece = s.substring_char(start, n);
    r.push(piece);
    assert(str_views(r@) =~= before.push(piece@));
    assert(before.push(piece@) =~= before + seq![rest]);
    r
}

/// `o` is pattern `p` cut at its first `=`.
pub open spec fn cut_at_eq(p: Seq<char>, o: (&str, &str)) -> bool {
    &&& contains_char(p, '=')
    &&& o.0@ == p.subrange(0, first_index(p, '='))
    &&& o.1@ == p.subrange(first_index(p, '=') + 1, p.len() as int)
}

/// Reads a list of blocked-traffic patterns, `HEADER=VALUE_ENV_VAR`
/// separated by commas; a trailing comma is allowed. Each pattern is cut at
/// its first `=`. A pattern with no `=` is returned as the error.
pub fn parse_traffic_patterns<'a>(patterns: &'a str) -> (r: Result<Vec<(&'a str, &'a str)>, &'a str>)
    ensures
        match r {
            Ok(v) => v@.len() == split_terminator(patterns@, ',').len() && forall|i: int|
                0 <= i < v@.len() ==> cut_at_eq(split_terminator(patterns@, ',')[i], #[trigger] v@[i]),
            Err(bad) => exists|i: int|
                0 <= i < split_terminator(patterns@, ',').len() && (#[trigger] split_terminator(patterns@, ',')[i]) == bad@
                    && !contains_char(bad@, '='),
        },
{
    let mut pieces = split_str(patterns, ',');
    let ghost all = split_on(patterns@, ',');
    proof {
        lemma_split_nonempty(patterns@, ',');
    }
    assert(pieces@.len() == all.len());
    let last = pieces.len() - 1;
    assert(str_views(pieces@)[last as int] == pieces@[last as int]@);
    if pieces[last].unicode_len() == 0 {
        pieces.pop();
        assert(str_views(pieces@) =~= all.drop_last());
    }
    assert(str_views(pieces@) == split_terminator(patterns@, ','));
    assert forall|i: int| 0 <= i < pieces@.len() implies (#[trigger] pieces@[i])@ == split_terminator(patterns@, ',')[i] by {
        assert(str_views(pieces@)[i] == pieces@[i]@);
    }
    let mut out: Vec<(&'a str, &'a str)> = Vec::new();
    let mut i: usize = 0;
    while i < pieces.len()
        invariant
            i <= pieces@.len(),
            pieces@.len() == split_terminator(patterns@, ',').len(),
            forall|j: int| 0 <= j < pieces@.len() ==> (#[trigger] pieces@[j])@ == split_terminator(patterns@, ',')[j],
            out@.len() == i,
            forall|j: int| 0 <= j < i ==> cut_at_eq(split_terminator(patterns@, ',')[j], #[trigger] out@[j]),
        decreases pieces@.len() - i,
    {
        let p = pieces[i];
        let n = p.unicode_len();
        let mut k: usize = 0;
        while k < n && p.get_char(k) != '='
            invariant
                n == p@.len(),
                k <= n,
                forall|j: int| 0 <= j < k ==> p@[j] != '=',
            decreases n - k,
        {
            k += 1;
        }
        if k == n {
            assert(split_terminator(patterns@, ',')[i as int] == p@);
            return Err(p);
        }
        proof {
            lemma_first_index(p@, '=', k as int);
        }
        let pair = (p.substring_char(0, k), p.substring_char(k + 1, n));
        assert(cut_at_eq(split_terminator(patterns@, ',')[i as int], pair));
        out.push(pair);
        i += 1;
    }
    Ok(out)
}

/// Whether a CIDR block of a page-offset blocklist is narrow enough: a host
/// prefix of at least 16 bits for IPv4 and 64 bits for IPv6.
pub fn cidr_prefix_allowed(is_ipv4: bool, prefix: u8) -> (r: bool)
    ensures
        r == (prefix >= if is_ipv4 {
            16u8
        } else {
            64u8
        }),
{
    let host_prefix: u8 = if is_ipv4 {
        16
    } else {
        64
    };
    prefix >= host_prefix
}

/// The origins that may make cross-origin requests.
#[derive(Clone, Debug, Default)]
pub struct AllowedOrigins(pub Vec<String>);

impl AllowedOrigins {
    /// The origins of a comma-separated list.
    pub fn parse(list: &str) -> (r: AllowedOrigins)
        ensures
            r.0@.len() == split_on(list@, ',').len(),
            forall|i: int| 0 <= i < r.0@.len() ==> (#[trigger] r.0@[i])@ == split_on(list@, ',')[i],
    {
        let pieces = split_str(list, ',');
        assert(forall|i: int| 0 <= i < pieces@.len() ==> str_views(pieces@)[i] == (#[trigger] pieces@[i])@);
        let mut v: Vec<String> = Vec::new();
        let mut i: usize = 0;
        while i < pieces.len()
            invariant
                i <= pieces@.len(),
                v@.len() == i,
                forall|j: int| 0 <= j < i ==> (#[trigger] v@[j])@ == pieces@[j]@,
            decreases pieces@.len() - i,
        {
            v.push(String::from_str(pieces[i]));
            i += 1;
        }
        AllowedOrigins(v)
    }

    /// Whether `value`, the bytes of a header, is one of the origins.
    pub fn contains(&self, value: &[u8]) -> (r: bool)
        ensures
            r == exists|i: int| 0 <= i < self.0@.len() && encode_utf8(#[trigger] self.0@[i]@) == value@,
    {
        let mut i: usize = 0;
        while i < self.0.len()
            invariant
                i <= self.0@.len(),
                forall|j: int| 0 <= j < i ==> encode_utf8(#[trigger] self.0@[j]@) != value@,
            decreases self.0@.len() - i,
        {
            let b = self.0[i].as_str().as_bytes();
            if b.len() == value.len() {
                let mut k: usize = 0;
                while k < b.len() && b[k] == value[k]
                    invariant
                        b@.len() == value@.len(),
                        k <= b@.len(),
                        forall|j: int| 0 <= j < k ==> b@[j] == value@[j],
                    decreases b@.len() - k,
                {
                    k += 1;
                }
                if k == b.len() {
                    assert(b@ =~= value@);
                    return true;
                }
            }
            i += 1;
        }
        false
    }
}

} // verus!
