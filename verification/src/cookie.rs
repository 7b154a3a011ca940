//! The session cookie on the wire: extracting the auth token from an
//! inbound cookie header (exact match on the fixed cookie name; malformed or
//! missing yields the empty string, never an error), and assembling the
//! outbound directive that sets it.

use vstd::prelude::*;
use crate::session::auth_cookie_name;

verus! {

/// First position of `c` in `s` at or after `from`, or the length.
pub open spec fn spec_find_from(s: Seq<char>, c: char, from: int) -> int
    decreases s.len() - from,
{
    if from < 0 || from >= s.len() {
        s.len() as int
    } else if s[from] == c {
        from
    } else {
        spec_find_from(s, c, from + 1)
    }
}

/// The whitespace the cookie parser strips around each cookie pair: the
/// space and horizontal tab that HTTP field values may carry around their
/// separators. This deliberately stops short of the full Unicode whitespace
/// set; a cookie header has no business carrying any other kind.
pub open spec fn spec_is_space(c: char) -> bool {
    c == ' ' || c == '\t'
}

pub open spec fn spec_trim_front(s: Seq<char>) -> Seq<char>
    decreases s.len(),
{
    if s.len() > 0 && spec_is_space(s[0]) {
        spec_trim_front(s.drop_first())
    } else {
        s
    }
}

pub open spec fn spec_trim_back(s: Seq<char>) -> Seq<char>
    decreases s.len(),
{
    if s.len() > 0 && spec_is_space(s.last()) {
        spec_trim_back(s.drop_last())
    } else {
        s
    }
}

/// Surrounding spaces and tabs removed.
pub open spec fn spec_trim_ascii(s: Seq<char>) -> Seq<char> {
    spec_trim_back(spec_trim_front(s))
}

/// The value of the first cookie named `name` in the header tail starting
/// at `start`: cookies split on `;`, each trimmed and split at its first
/// `=`. No match yields the empty sequence.
pub open spec fn spec_cookie_value_from(h: Seq<char>, name: Seq<char>, start: int) -> Seq<char>
    decreases h.len() - start,
    via spec_cookie_value_from_decreases
{
    if start < 0 || start > h.len() {
        Seq::empty()
    } else {
        let end = spec_find_from(h, ';', start);
        let seg = spec_trim_ascii(h.subrange(start, end));
        let eq = spec_find_from(seg, '=', 0);
        if eq < seg.len() && seg.subrange(0, eq) == name {
            seg.subrange(eq + 1, seg.len() as int)
        } else if end >= h.len() {
            Seq::empty()
        } else {
            spec_cookie_value_from(h, name, end + 1)
        }
    }
}

#[via_fn]
proof fn spec_cookie_value_from_decreases(h: Seq<char>, name: Seq<char>, start: int) {
    if 0 <= start <= h.len() {
        lemma_find_from_range(h, ';', start);
    }
}

/// `spec_find_from` stays within `[from, len]`.
proof fn lemma_find_from_range(s: Seq<char>, c: char, from: int)
    requires
        0 <= from <= s.len(),
    ensures
        from <= spec_find_from(s, c, from) <= s.len(),
    decreases s.len() - from,
{
    if from < s.len() && s[from] != c {
        lemma_find_from_range(s, c, from + 1);
    }
}

/// The session token an inbound cookie header carries, or empty.
pub open spec fn spec_auth_token_of_header(h: Seq<char>) -> Seq<char> {
    spec_cookie_value_from(h, "best_doggo_auth_token"@, 0)
}

/// Relies on std `String::push`: appends exactly one character.
#[verifier::external_body]
fn string_push(s: &mut String, c: char)
    ensures
        final(s)@ == old(s)@ + seq![c],
{
    s.push(c);
}

/// The characters of `s`, as a vector.
fn chars_vec(s: &str) -> (v: Vec<char>)
    ensures
        v@ == s@,
{
    let n = s.unicode_len();
    let mut v: Vec<char> = Vec::new();
    let mut i: usize = 0;
    while i < n
        invariant
            i <= n,
            n == s@.len(),
            v@ == s@.subrange(0, i as int),
        decreases n - i,
    {
        v.push(s.get_char(i));
        proof {
            assert(v@ =~= s@.subrange(0, i + 1));
        }
        i += 1;
    }
    proof {
        assert(s@.subrange(0, n as int) =~= s@);
    }
    v
}

/// First position of `c` at or after `from`.
fn find_from(v: &Vec<char>, c: char, from: usize) -> (r: usize)
    requires
        from <= v@.len(),
    ensures
        r == spec_find_from(v@, c, from as int),
        from <= r <= v@.len(),
        r < v@.len() ==> v@[r as int] == c,
{
    let mut i = from;
    while i < v.len()
        invariant
            from <= i <= v@.len(),
            spec_find_from(v@, c, from as int) == spec_find_from(v@, c, i as int),
        decreases v@.len() - i,
    {
        if v[i] == c {
            return i;
        }
        i += 1;
    }
    i
}

/// The copied slice `v[a..b]`.
fn sub_vec(v: &Vec<char>, a: usize, b: usize) -> (r: Vec<char>)
    requires
        a <= b <= v@.len(),
    ensures
        r@ == v@.subrange(a as int, b as int),
{
    let mut r: Vec<char> = Vec::new();
    let mut i = a;
    while i < b
        invariant
            a <= i <= b <= v@.len(),
            r@ == v@.subrange(a as int, i as int),
        decreases b - i,
    {
        r.push(v[i]);
        proof {
            assert(r@ =~= v@.subrange(a as int, i + 1));
        }
        i += 1;
    }
    r
}

/// The bounds of the trimmed segment `v[start..end]`.
fn trim_bounds(v: &Vec<char>, start: usize, end: usize) -> (r: (usize, usize))
    requires
        start <= end <= v@.len(),
    ensures
        start <= r.0 <= r.1 <= end,
        v@.subrange(r.0 as int, r.1 as int) == spec_trim_ascii(v@.subrange(
            start as int,
            end as int,
        )),
{
    let mut a = start;
    while a < end && (v[a] == ' ' || v[a] == '\t')
        invariant
            start <= a <= end <= v@.len(),
            spec_trim_front(v@.subrange(start as int, end as int)) == spec_trim_front(
                v@.subrange(a as int, end as int),
            ),
        decreases end - a,
    {
        proof {
            assert(v@.subrange(a as int, end as int).drop_first() =~= v@.subrange(
                a + 1,
                end as int,
            ));
        }
        a += 1;
    }
    proof {
        assert(spec_trim_front(v@.subrange(a as int, end as int)) == v@.subrange(
            a as int,
            end as int,
        ));
    }
    let mut b = end;
    while b > a && (v[b - 1] == ' ' || v[b - 1] == '\t')
        invariant
            a <= b <= end <= v@.len(),
            spec_trim_back(v@.subrange(a as int, end as int)) == spec_trim_back(
                v@.subrange(a as int, b as int),
            ),
        decreases b,
    {
        proof {
            assert(v@.subrange(a as int, b as int).drop_last() =~= v@.subrange(a as int, b - 1));
        }
        b -= 1;
    }
    proof {
        assert(spec_trim_back(v@.subrange(a as int, b as int)) == v@.subrange(a as int, b as int));
    }
    (a, b)
}

/// Whether the two character sequences are equal.
fn chars_eq(a: &Vec<char>, b: &Vec<char>) -> (r: bool)
    ensures
        r == (a@ == b@),
{
    if a.len() != b.len() {
        proof {
            assert(a@.len() != b@.len());
        }
        return false;
    }
    let mut i: usize = 0;
    while i < a.len()
        invariant
            i <= a@.len(),
            a@.len() == b@.len(),
            forall|j: int| 0 <= j < i ==> a@[j] == b@[j],
        decreases a@.len() - i,
    {
        if a[i] != b[i] {
            return false;
        }
        i += 1;
    }
    proof {
        assert(a@ =~= b@);
    }
    true
}

/// A string holding exactly these characters.
fn chars_to_string(v: &Vec<char>, a: usize, b: usize) -> (s: String)
    requires
        a <= b <= v@.len(),
    ensures
        s@ == v@.subrange(a as int, b as int),
{
    let mut s = String::new();
    let mut i = a;
    while i < b
        invariant
            a <= i <= b <= v@.len(),
            s@ == v@.subrange(a as int, i as int),
        decreases b - i,
    {
        string_push(&mut s, v[i]);
        proof {
            assert(s@ =~= v@.subrange(a as int, i + 1));
        }
        i += 1;
    }
    s
}

/// Extracts the session token from an inbound cookie header: the value of
/// the cookie with the fixed session-cookie name. A malformed or missing
/// header yields the empty string, never an error.
pub fn extract_auth_token(cookie_header: &str) -> (token: String)
    ensures
        token@ == spec_auth_token_of_header(cookie_header@),
{
    let v = chars_vec(cookie_header);
    let name = chars_vec(auth_cookie_name());
    let mut start: usize = 0;
    loop
        invariant
            start <= v@.len(),
            v@ == cookie_header@,
            name@ == "best_doggo_auth_token"@,
            spec_auth_token_of_header(cookie_header@) == spec_cookie_value_from(
                v@,
                name@,
                start as int,
            ),
        decreases v@.len() - start,
    {
        let end = find_from(&v, ';', start);
        let (a, b) = trim_bounds(&v, start, end);
        let seg = sub_vec(&v, a, b);
        let eq = find_from(&seg, '=', 0);
        if eq < seg.len() {
            let seg_name = sub_vec(&seg, 0, eq);
            if chars_eq(&seg_name, &name) {
                let token = chars_to_string(&seg, eq + 1, seg.len());
                proof {
                    assert(seg@.subrange(0, eq as int) == name@);
                }
                return token;
            }
        }
        if end >= v.len() {
            return String::new();
        }
        start = end + 1;
    }
}

/// The outbound directive that binds the session cookie to `token`: rooted
/// at the whole site, HTTP-only, secure, same-site strict, with the given
/// expiry date.
pub fn create_new_auth_cookie(token: &str, expires: &str) -> (c: String)
    ensures
        c@ == "best_doggo_auth_token"@ + "="@ + token@
            + "; Path=/; HttpOnly; Secure; SameSite=Strict; Expires="@ + expires@,
{
    let mut c = String::new();
    c.append(auth_cookie_name());
    c.append("=");
    c.append(token);
    c.append("; Path=/; HttpOnly; Secure; SameSite=Strict; Expires=");
    c.append(expires);
    proof {
        assert(c@ =~= "best_doggo_auth_token"@ + "="@ + token@
            + "; Path=/; HttpOnly; Secure; SameSite=Strict; Expires="@ + expires@);
    }
    c
}

} // verus!
