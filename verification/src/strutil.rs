//! Verified string helpers: equality and prefix tests over character views,
//! dotted configuration paths, and route path joining under a scope prefix.

use vstd::prelude::*;

verus! {

/// `p` is a prefix of `s`, character for character.
pub open spec fn is_prefix_of(p: Seq<char>, s: Seq<char>) -> bool {
    p.len() <= s.len() && s.subrange(0, p.len() as int) == p
}

/// The dotted path of a field `name` under `prefix`: `prefix.name`, or the
/// bare name when the prefix is empty.
pub open spec fn spec_join_dotted(prefix: Seq<char>, name: Seq<char>) -> Seq<char> {
    if prefix.len() == 0 {
        name
    } else {
        prefix + seq!['.'] + name
    }
}

/// A route path under a scope prefix: the prefix is prepended, with exactly
/// one separator kept where the two sides meet.
pub open spec fn spec_scope_path(prefix: Seq<char>, path: Seq<char>) -> Seq<char> {
    if prefix.len() == 0 {
        path
    } else if path.len() == 0 {
        prefix
    } else if prefix.last() == '/' && path.first() == '/' {
        prefix + path.skip(1)
    } else if prefix.last() != '/' && path.first() != '/' {
        prefix + seq!['/'] + path
    } else {
        prefix + path
    }
}

/// Two adjacent separators occur somewhere in `s`.
pub open spec fn has_duplicate_separator(s: Seq<char>) -> bool {
    exists|i: int| 0 <= i && i + 1 < s.len() && (#[trigger] s[i]) == '/' && s[i + 1] == '/'
}

/// Character-for-character equality of two string slices.
pub fn str_eq(a: &str, b: &str) -> (r: bool)
    ensures
        r == (a@ == b@),
{
    let alen = a.unicode_len();
    let blen = b.unicode_len();
    if alen != blen {
        assert(a@ != b@) by {
            assert(a@.len() != b@.len());
        }
        return false;
    }
    let mut i: usize = 0;
    while i < alen
        invariant
            alen == a@.len(),
            alen == b@.len(),
            i <= alen,
            forall|j: int| 0 <= j < i ==> a@[j] == b@[j],
        decreases alen - i,
    {
        if a.get_char(i) != b.get_char(i) {
            return false;
        }
        i += 1;
    }
    proof {
        assert(a@ =~= b@);
    }
    true
}

/// `p` is a prefix of `s`.
pub fn str_starts_with(s: &str, p: &str) -> (r: bool)
    ensures
        r == is_prefix_of(p@, s@),
{
    let plen = p.unicode_len();
    let slen = s.unicode_len();
    if plen > slen {
        return false;
    }
    let mut i: usize = 0;
    while i < plen
        invariant
            plen == p@.len(),
            slen == s@.len(),
            plen <= slen,
            i <= plen,
            forall|j: int| 0 <= j < i ==> s@[j] == p@[j],
        decreases plen - i,
    {
        if s.get_char(i) != p.get_char(i) {
            assert(s@.subrange(0, p@.len() as int)[i as int] != p@[i as int]);
            return false;
        }
        i += 1;
    }
    proof {
        assert(s@.subrange(0, p@.len() as int) =~= p@);
    }
    true
}

/// The dotted path of `name` under `prefix`.
pub fn join_dotted(prefix: &str, name: &str) -> (r: String)
    ensures
        r@ == spec_join_dotted(prefix@, name@),
{
    if prefix.unicode_len() == 0 {
        let r = prefix.to_owned().concat(name);
        assert(r@ =~= name@);
        r
    } else {
        let r = prefix.to_owned().concat(".").concat(name);
        proof {
            reveal_strlit(".");
            assert("."@ =~= seq!['.']);
            assert(r@ =~= prefix@ + seq!['.'] + name@);
        }
        r
    }
}

/// `path` placed under the scope `prefix`, with exactly one separator where
/// the two sides meet.
pub fn scope_path(prefix: &str, path: &str) -> (r: String)
    ensures
        r@ == spec_scope_path(prefix@, path@),
{
    let plen = prefix.unicode_len();
    let xlen = path.unicode_len();
    if plen == 0 {
        let r = path.to_owned();
        assert(r@ =~= spec_scope_path(prefix@, path@));
        r
    } else if xlen == 0 {
        let r = prefix.to_owned();
        assert(r@ =~= spec_scope_path(prefix@, path@));
        r
    } else {
        let pe = prefix.get_char(plen - 1);
        let xf = path.get_char(0);
        if pe == '/' && xf == '/' {
            let tail = path.substring_char(1, xlen);
            let r = prefix.to_owned().concat(tail);
            assert(r@ =~= prefix@ + path@.skip(1));
            r
        } else if pe != '/' && xf != '/' {
            let r = prefix.to_owned().concat("/").concat(path);
            proof {
                reveal_strlit("/");
                assert("/"@ =~= seq!['/']);
                assert(r@ =~= prefix@ + seq!['/'] + path@);
            }
            r
        } else {
            let r = prefix.to_owned().concat(path);
            assert(r@ =~= prefix@ + path@);
            r
        }
    }
}

/// Scoping never manufactures a duplicated separator: when neither the prefix
/// nor the path contains two adjacent separators, neither does the joined
/// path.
pub proof fn lemma_scope_no_duplicate_separator(prefix: Seq<char>, path: Seq<char>)
    requires
        !has_duplicate_separator(prefix),
        !has_duplicate_separator(path),
    ensures
        !has_duplicate_separator(spec_scope_path(prefix, path)),
{
    let joined = spec_scope_path(prefix, path);
    if prefix.len() == 0 || path.len() == 0 {
    } else if prefix.last() == '/' && path.first() == '/' {
        let tail = path.skip(1);
        assert forall|i: int| 0 <= i && i + 1 < joined.len() implies !((#[trigger] joined[i]) == '/'
            && joined[i + 1] == '/') by {
            if i + 1 < prefix.len() {
                assert(joined[i] == prefix[i] && joined[i + 1] == prefix[i + 1]);
            } else if i + 1 == prefix.len() {
                if joined[i] == '/' && joined[i + 1] == '/' {
                    assert(joined[i + 1] == tail[0]);
                    assert(path[0] == '/' && path[1] == '/');
                    assert(has_duplicate_separator(path));
                }
            } else {
                let k = i - prefix.len();
                assert(joined[i] == tail[k] && joined[i + 1] == tail[k + 1]);
                if joined[i] == '/' && joined[i + 1] == '/' {
                    assert(path[k + 1] == '/' && path[k + 2] == '/');
                    assert(has_duplicate_separator(path));
                }
            }
        }
    } else if prefix.last() != '/' && path.first() != '/' {
        assert forall|i: int| 0 <= i && i + 1 < joined.len() implies !((#[trigger] joined[i]) == '/'
            && joined[i + 1] == '/') by {
            if i + 1 < prefix.len() {
                assert(joined[i] == prefix[i] && joined[i + 1] == prefix[i + 1]);
            } else if i + 1 == prefix.len() {
                assert(joined[i] == prefix[prefix.len() - 1]);
                assert(prefix[prefix.len() - 1] == prefix.last());
            } else if i == prefix.len() {
                assert(joined[i + 1] == path[0]);
            } else {
                let k = i - prefix.len() - 1;
                assert(joined[i] == path[k] && joined[i + 1] == path[k + 1]);
                if joined[i] == '/' && joined[i + 1] == '/' {
                    assert(has_duplicate_separator(path));
                }
            }
        }
    } else {
        assert forall|i: int| 0 <= i && i + 1 < joined.len() implies !((#[trigger] joined[i]) == '/'
            && joined[i + 1] == '/') by {
            if i + 1 < prefix.len() {
                assert(joined[i] == prefix[i] && joined[i + 1] == prefix[i + 1]);
            } else if i + 1 == prefix.len() {
                if joined[i] == '/' && joined[i + 1] == '/' {
                    assert(joined[i] == prefix[prefix.len() - 1]);
                    assert(joined[i + 1] == path[0]);
                    assert(prefix.last() == '/' && path.first() == '/');
                }
            } else {
                let k = i - prefix.len();
                assert(joined[i] == path[k] && joined[i + 1] == path[k + 1]);
                if joined[i] == '/' && joined[i + 1] == '/' {
                    assert(has_duplicate_separator(path));
                }
            }
        }
    }
}

} // verus!
