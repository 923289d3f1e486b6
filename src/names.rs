//! The grammars for crate names, dependency names, features and keywords, and
//! the canonical form under which two crate names are the same.
use vstd::prelude::*;
use vstd::string::*;

verus! {

/// The longest crate name, in characters.
pub const MAX_NAME_LENGTH: usize = 64;

pub open spec fn is_alpha(c: char) -> bool {
    (65 <= c as u32 <= 90) || (97 <= c as u32 <= 122)
}

pub open spec fn is_digit(c: char) -> bool {
    48 <= c as u32 <= 57
}

pub open spec fn is_alnum(c: char) -> bool {
    is_alpha(c) || is_digit(c)
}

/// A character of a crate name or of the part before `/` in a feature.
pub open spec fn is_ident_char(c: char) -> bool {
    is_alnum(c) || c == '_' || c == '-'
}

/// A character of a feature name or keyword.
pub open spec fn is_feature_char(c: char) -> bool {
    is_alnum(c) || c == '_' || c == '-' || c == '+'
}

/// Non-empty, and only letters, digits, `_` and `-`.
pub open spec fn valid_ident_chars(s: Seq<char>) -> bool {
    s.len() > 0 && forall|i: int| 0 <= i < s.len() ==> is_ident_char(#[trigger] s[i])
}

/// A crate name: starts with a letter, holds only letters, digits, `_` and
/// `-`, and has at most `MAX_NAME_LENGTH` characters.
pub open spec fn valid_crate_name(s: Seq<char>) -> bool {
    valid_ident_chars(s) && is_alpha(s[0]) && s.len() <= MAX_NAME_LENGTH
}

/// The name a dependency has in its manifest: as a crate name, but it may
/// also start with `_`.
pub open spec fn valid_dependency_name(s: Seq<char>) -> bool {
    valid_ident_chars(s) && (is_alpha(s[0]) || s[0] == '_') && s.len() <= MAX_NAME_LENGTH
}

/// A feature name: non-empty, only letters, digits, `_`, `-` and `+`.
pub open spec fn valid_feature_name(s: Seq<char>) -> bool {
    s.len() > 0 && forall|i: int| 0 <= i < s.len() ==> is_feature_char(#[trigger] s[i])
}

/// Whether `c` occurs in `s`.
pub open spec fn contains_char(s: Seq<char>, c: char) -> bool {
    exists|i: int| 0 <= i < s.len() && s[i] == c
}

/// The index of the first `c` in `s`, where there is one.
pub open spec fn first_index(s: Seq<char>, c: char) -> int
    recommends
        contains_char(s, c),
{
    choose|i: int| 0 <= i < s.len() && s[i] == c && forall|j: int| 0 <= j < i ==> s[j] != c
}

/// `s` without one trailing `?`.
pub open spec fn strip_question(s: Seq<char>) -> Seq<char> {
    if s.len() > 0 && s.last() == '?' {
        s.drop_last()
    } else {
        s
    }
}

/// `s` without a leading `dep:`.
pub open spec fn strip_dep_prefix(s: Seq<char>) -> Seq<char> {
    if s.len() >= 4 && s.subrange(0, 4) == seq!['d', 'e', 'p', ':'] {
        s.subrange(4, s.len() as int)
    } else {
        s
    }
}

/// An entry of a feature's list: `dep/feat` and `dep?/feat` name a feature
/// of a dependency, `dep:name` a dependency, anything else a feature.
pub open spec fn valid_feature(s: Seq<char>) -> bool {
    if contains_char(s, '/') {
        let k = first_index(s, '/');
        valid_ident_chars(strip_question(s.subrange(0, k))) && valid_feature_name(
            s.subrange(k + 1, s.len() as int),
        )
    } else {
        valid_feature_name(strip_dep_prefix(s))
    }
}

/// A keyword: starts with a letter or digit, then only letters, digits,
/// `_`, `-` and `+`.
pub open spec fn valid_keyword(s: Seq<char>) -> bool {
    s.len() > 0 && is_alnum(s[0]) && forall|i: int| 0 <= i < s.len() ==> is_feature_char(#[trigger] s[i])
}

/// One character of a name in canonical form: ASCII letters lowercased, `-`
/// read as `_`.
pub open spec fn canon_code(c: char) -> u32 {
    if 65 <= c as u32 <= 90 {
        (c as u32 + 32) as u32
    } else if c == '-' {
        '_' as u32
    } else {
        c as u32
    }
}

/// The canonical form of a crate name, under which two names are the same crate.
pub open spec fn canon(s: Seq<char>) -> Seq<u32> {
    Seq::new(s.len(), |i: int| canon_code(s[i]))
}

fn char_is_alpha(c: char) -> (r: bool)
    ensures
        r == is_alpha(c),
{
    let n = c as u32;
    (65 <= n && n <= 90) || (97 <= n && n <= 122)
}

fn char_is_alnum(c: char) -> (r: bool)
    ensures
        r == is_alnum(c),
{
    let n = c as u32;
    char_is_alpha(c) || (48 <= n && n <= 57)
}

fn char_is_ident(c: char) -> (r: bool)
    ensures
        r == is_ident_char(c),
{
    char_is_alnum(c) || c == '_' || c == '-'
}

fn char_is_feature(c: char) -> (r: bool)
    ensures
        r == is_feature_char(c),
{
    char_is_alnum(c) || c == '_' || c == '-' || c == '+'
}

fn char_canon(c: char) -> (r: u32)
    ensures
        r == canon_code(c),
{
    let n = c as u32;
    if 65 <= n && n <= 90 {
        n + 32
    } else if c == '-' {
        95
    } else {
        n
    }
}

fn ident_chars_ok(s: &str) -> (r: bool)
    ensures
        r == valid_ident_chars(s@),
{
    let n = s.unicode_len();
    if n == 0 {
        return false;
    }
    let mut i: usize = 0;
    while i < n
        invariant
            n == s@.len(),
            i <= n,
            forall|j: int| 0 <= j < i ==> is_ident_char(#[trigger] s@[j]),
        decreases n - i,
    {
        if !char_is_ident(s.get_char(i)) {
            return false;
        }
        i += 1;
    }
    true
}

/// Whether `s` is a valid crate name.
pub fn is_valid_crate_name(s: &str) -> (r: bool)
    ensures
        r == valid_crate_name(s@),
{
    ident_chars_ok(s) && char_is_alpha(s.get_char(0)) && s.unicode_len() <= MAX_NAME_LENGTH
}

/// Whether `s` is a valid name for a dependency in a manifest.
pub fn is_valid_dependency_name(s: &str) -> (r: bool)
    ensures
        r == valid_dependency_name(s@),
{
    ident_chars_ok(s) && (char_is_alpha(s.get_char(0)) || s.get_char(0) == '_')
        && s.unicode_len() <= MAX_NAME_LENGTH
}

/// Whether `s` is a valid feature name.
pub fn is_valid_feature_name(s: &str) -> (r: bool)
    ensures
        r == valid_feature_name(s@),
{
    let n = s.unicode_len();
    if n == 0 {
        return false;
    }
    let mut i: usize = 0;
    while i < n
        invariant
            n == s@.len(),
            i <= n,
            forall|j: int| 0 <= j < i ==> is_feature_char(#[trigger] s@[j]),
        decreases n - i,
    {
        if !char_is_feature(s.get_char(i)) {
            return false;
        }
        i += 1;
    }
    true
}

/// The index of the first `c` in `s`, or `None`.
fn find_char(s: &str, c: char) -> (r: Option<usize>)
    ensures
        match r {
            Some(k) => contains_char(s@, c) && k == first_index(s@, c) && k < s@.len(),
            None => !contains_char(s@, c),
        },
{
    let n = s.unicode_len();
    let mut i: usize = 0;
    while i < n
        invariant
            n == s@.len(),
            i <= n,
            forall|j: int| 0 <= j < i ==> s@[j] != c,
        decreases n - i,
    {
        if s.get_char(i) == c {
            assert(contains_char(s@, c));
            let ghost k = first_index(s@, c);
            assert(0 <= i < s@.len() && s@[i as int] == c && forall|j: int| 0 <= j < i ==> s@[j] != c);
            assert(k == i) by {
                if k < i {
                    assert(s@[k] != c);
                } else if k > i {
                    assert(s@[i as int] != c);
                }
            }
            return Some(i);
        }
        i += 1;
    }
    None
}

/// Whether `s` is a valid entry of a feature's list.
pub fn is_valid_feature(s: &str) -> (r: bool)
    ensures
        r == valid_feature(s@),
{
    let n = s.unicode_len();
    match find_char(s, '/') {
        Some(k) => {
            let dep = s.substring_char(0, k);
            let feat = s.substring_char(k + 1, n);
            let dep = if k > 0 && dep.get_char(k - 1) == '?' {
                dep.substring_char(0, k - 1)
            } else {
                dep
            };
            assert(dep@ == strip_question(s@.subrange(0, k as int))) by {
                let d = s@.subrange(0, k as int);
                if k > 0 && d.last() == '?' {
                    assert(d.drop_last() =~= d.subrange(0, k - 1));
                }
            }
            ident_chars_ok(dep) && is_valid_feature_name(feat)
        },
        None => {
            if n >= 4 && s.get_char(0) == 'd' && s.get_char(1) == 'e' && s.get_char(2) == 'p'
                && s.get_char(3) == ':' {
                assert(s@.subrange(0, 4) =~= seq!['d', 'e', 'p', ':']);
                is_valid_feature_name(s.substring_char(4, n))
            } else {
                assert(!(s@.len() >= 4 && s@.subrange(0, 4) == seq!['d', 'e', 'p', ':'])) by {
                    if s@.len() >= 4 && s@.subrange(0, 4) == seq!['d', 'e', 'p', ':'] {
                        assert(s@[0] == s@.subrange(0, 4)[0]);
                        assert(s@[1] == s@.subrange(0, 4)[1]);
                        assert(s@[2] == s@.subrange(0, 4)[2]);
                        assert(s@[3] == s@.subrange(0, 4)[3]);
                    }
                }
                is_valid_feature_name(s)
            }
        },
    }
}

/// Whether `s` is a valid keyword.
pub fn is_valid_keyword(s: &str) -> (r: bool)
    ensures
        r == valid_keyword(s@),
{
    let n = s.unicode_len();
    n > 0 && char_is_alnum(s.get_char(0)) && is_valid_feature_name(s)
}

/// Whether two names denote the same crate.
pub fn same_canonical_name(a: &str, b: &str) -> (r: bool)
    ensures
        r == (canon(a@) == canon(b@)),
{
    let n = a.unicode_len();
    if n != b.unicode_len() {
        assert(canon(a@).len() != canon(b@).len());
        return false;
    }
    let mut i: usize = 0;
    while i < n
        invariant
            n == a@.len() == b@.len(),
            i <= n,
            forall|j: int| 0 <= j < i ==> canon_code(a@[j]) == canon_code(b@[j]),
        decreases n - i,
    {
        if char_canon(a.get_char(i)) != char_canon(b.get_char(i)) {
            assert(canon(a@)[i as int] != canon(b@)[i as int]);
            return false;
        }
        i += 1;
    }
    assert(canon(a@) =~= canon(b@));
    true
}

} // verus!
