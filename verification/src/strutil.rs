//! Character-level string helpers used by the route matcher and the
//! dispatcher: prefix tests, ASCII-case-insensitive comparison, and joining an
//! endpoint with a request path.
use vstd::prelude::*;
use vstd::string::StrSliceExecFns;
use vstd::string::StringExecFns;

verus! {

/// ASCII lower-casing of one character, as a code point.
pub open spec fn lower_code(c: char) -> u32 {
    if 65 <= c as u32 && c as u32 <= 90 {
        (c as u32 + 32) as u32
    } else {
        c as u32
    }
}

/// Case-insensitive equality of two characters (ASCII folding only).
pub open spec fn char_eq_ci(a: char, b: char) -> bool {
    lower_code(a) == lower_code(b)
}

/// Case-insensitive equality of two strings (ASCII folding only).
pub open spec fn seq_eq_ci(a: Seq<char>, b: Seq<char>) -> bool {
    a.len() == b.len() && forall|i: int| 0 <= i < a.len() ==> char_eq_ci(a[i], b[i])
}

/// Whether `p` is a character-wise prefix of `s`.
pub fn has_prefix(s: &str, p: &str) -> (r: bool)
    ensures
        r == p@.is_prefix_of(s@),
{
    let sn: usize = s.unicode_len();
    let pn: usize = p.unicode_len();
    if pn > sn {
        assert(!p@.is_prefix_of(s@));
        return false;
    }
    let mut i: usize = 0;
    while i < pn
        invariant
            i <= pn <= sn,
            sn == s@.len(),
            pn == p@.len(),
            forall|j: int| 0 <= j < i ==> s@[j] == p@[j],
        decreases pn - i,
    {
        if s.get_char(i) != p.get_char(i) {
            assert(!p@.is_prefix_of(s@));
            return false;
        }
        i = i + 1;
    }
    assert(p@ =~= s@.subrange(0, pn as int));
    true
}

/// Character-wise string equality.
pub fn str_eq(a: &str, b: &str) -> (r: bool)
    ensures
        r == (a@ == b@),
{
    let an: usize = a.unicode_len();
    let bn: usize = b.unicode_len();
    if an != bn {
        return false;
    }
    let mut i: usize = 0;
    while i < an
        invariant
            i <= an,
            an == a@.len(),
            an == b@.len(),
            forall|j: int| 0 <= j < i ==> a@[j] == b@[j],
        decreases an - i,
    {
        if a.get_char(i) != b.get_char(i) {
            assert(a@[i as int] != b@[i as int]);
            return false;
        }
        i = i + 1;
    }
    assert(a@ =~= b@);
    true
}

/// Case-insensitive string equality (ASCII folding only).
pub fn eq_ignore_ascii_case(a: &str, b: &str) -> (r: bool)
    ensures
        r == seq_eq_ci(a@, b@),
{
    let an: usize = a.unicode_len();
    let bn: usize = b.unicode_len();
    if an != bn {
        return false;
    }
    let mut i: usize = 0;
    while i < an
        invariant
            i <= an,
            an == a@.len(),
            an == b@.len(),
            forall|j: int| 0 <= j < i ==> char_eq_ci(a@[j], b@[j]),
        decreases an - i,
    {
        let ca = a.get_char(i);
        let cb = b.get_char(i);
        let la: u32 = if ca as u32 >= 65 && ca as u32 <= 90 {
            ca as u32 + 32
        } else {
            ca as u32
        };
        let lb: u32 = if cb as u32 >= 65 && cb as u32 <= 90 {
            cb as u32 + 32
        } else {
            cb as u32
        };
        if la != lb {
            return false;
        }
        i = i + 1;
    }
    true
}

/// The suffix of `s` after removing its first `n` characters.
pub fn suffix_from(s: &str, n: usize) -> (r: &str)
    requires
        n <= s@.len(),
    ensures
        r@ == s@.skip(n as int),
{
    let sn: usize = s.unicode_len();
    let r = s.substring_char(n, sn);
    assert(r@ =~= s@.skip(n as int));
    r
}

/// An endpoint joined with a request path: a single `/` separates the two
/// unless the path already brings its own.
pub open spec fn spec_join(endpoint: Seq<char>, path: Seq<char>) -> Seq<char> {
    if path.len() > 0 && path[0] == '/' {
        endpoint + path
    } else {
        endpoint + seq!['/'] + path
    }
}

/// Joins an endpoint with a request path.
pub fn join_endpoint(endpoint: &str, path: &str) -> (r: String)
    ensures
        r@ == spec_join(endpoint@, path@),
{
    let mut out = String::from_str(endpoint);
    if !(path.unicode_len() > 0 && path.get_char(0) == '/') {
        out.append("/");
        proof {
            reveal_strlit("/");
            assert(out@ =~= endpoint@ + seq!['/']);
        }
    }
    out.append(path);
    proof {
        if path@.len() > 0 && path@[0] == '/' {
        } else {
            assert(out@ =~= endpoint@ + seq!['/'] + path@);
        }
    }
    out
}

} // verus!
