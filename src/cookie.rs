use vstd::prelude::*;

verus! {

/// A `"; "` separator between two cookies starts at `k`.
pub open spec fn separator_at(s: Seq<u8>, k: int) -> bool {
    0 <= k && k + 1 < s.len() && s[k] == 59u8 && s[k + 1] == 32u8
}

/// A cookie starts at `p`: at the start of the header or right after a separator.
pub open spec fn cookie_start(s: Seq<u8>, p: int) -> bool {
    p == 0 || (p >= 2 && separator_at(s, p - 2))
}

/// `token=`
pub open spec fn token_prefix() -> Seq<u8> {
    seq![116u8, 111u8, 107u8, 101u8, 110u8, 61u8]
}

/// The cookie that starts at `p` is named `token`.
pub open spec fn token_cookie_at(s: Seq<u8>, p: int) -> bool {
    cookie_start(s, p) && p + 6 <= s.len() && s.subrange(p, p + 6) == token_prefix()
}

pub open spec fn first_token_cookie(s: Seq<u8>, p: int) -> bool {
    token_cookie_at(s, p) && forall|q: int| 0 <= q < p ==> !token_cookie_at(s, q)
}

/// `e` ends the cookie whose value starts at `from`: the next separator, or the header's end.
pub open spec fn cookie_end(s: Seq<u8>, from: int, e: int) -> bool {
    &&& from <= e <= s.len()
    &&& (e == s.len() || separator_at(s, e))
    &&& forall|k: int| from <= k < e ==> !separator_at(s, k)
}

/// The value of the first cookie named `token` in a `Cookie` header whose cookies are
/// separated by `"; "`.
pub open spec fn cookie_token(s: Seq<u8>) -> Option<Seq<u8>> {
    if exists|p: int| first_token_cookie(s, p) {
        let p = choose|p: int| first_token_cookie(s, p);
        let e = choose|e: int| #[trigger] cookie_end(s, p + 6, e);
        Some(s.subrange(p + 6, e))
    } else {
        None
    }
}

fn is_token_cookie_at(header: &[u8], p: usize) -> (r: bool)
    ensures
        r == token_cookie_at(header@, p as int),
{
    let n = header.len();
    if p > n {
        return false;
    }
    let starts = p == 0 || (p >= 2 && header[p - 2] == 59u8 && header[p - 1] == 32u8);
    if !starts || n - p < 6 {
        return false;
    }
    let named = header[p] == 116u8 && header[p + 1] == 111u8 && header[p + 2] == 107u8 && header[p + 3] == 101u8
        && header[p + 4] == 110u8 && header[p + 5] == 61u8;
    proof {
        let sub = header@.subrange(p as int, p + 6);
        if named {
            assert(sub =~= token_prefix());
        } else {
            if sub == token_prefix() {
                assert(sub[0] == 116u8 && sub[1] == 111u8 && sub[2] == 107u8 && sub[3] == 101u8 && sub[4] == 110u8
                    && sub[5] == 61u8);
            }
        }
    }
    named
}

/// The value of the first cookie named `token` in a `Cookie` header.
pub fn token_from_cookie_header(header: &[u8]) -> (r: Option<Vec<u8>>)
    ensures
        r matches Some(v) ==> cookie_token(header@) == Some(v@),
        r is None ==> cookie_token(header@) is None,
{
    let n = header.len();
    let ghost s = header@;
    let mut p: usize = 0;
    while p < n
        invariant
            0 <= p <= n,
            n == s.len(),
            s == header@,
            forall|q: int| 0 <= q < p ==> !token_cookie_at(s, q),
        decreases n - p,
    {
        if is_token_cookie_at(header, p) {
            let start = p + 6;
            let mut e: usize = start;
            while e < n && !(e + 1 < n && header[e] == 59u8 && header[e + 1] == 32u8)
                invariant
                    start <= e <= n,
                    n == s.len(),
                    s == header@,
                    forall|k: int| start <= k < e ==> !separator_at(s, k),
                decreases n - e,
            {
                e += 1;
            }
            let mut value: Vec<u8> = Vec::new();
            let mut i: usize = start;
            while i < e
                invariant
                    start <= i <= e <= n,
                    n == s.len(),
                    s == header@,
                    value@ == s.subrange(start as int, i as int),
                decreases e - i,
            {
                value.push(header[i]);
                proof {
                    assert(value@ =~= s.subrange(start as int, i + 1));
                }
                i += 1;
            }
            proof {
                assert(first_token_cookie(s, p as int));
                let q_first = choose|q: int| first_token_cookie(s, q);
                if q_first < p {
                    assert(!token_cookie_at(s, q_first));
                } else if q_first > p {
                    assert(!token_cookie_at(s, p as int));
                }
                assert(cookie_end(s, start as int, e as int));
                let e_first = choose|k: int| #[trigger] cookie_end(s, start as int, k);
                if e_first < e {
                    assert(!separator_at(s, e_first));
                } else if e_first > e {
                    assert(!separator_at(s, e as int));
                }
            }
            return Some(value);
        }
        p += 1;
    }
    proof {
        if exists|q: int| first_token_cookie(s, q) {
            let q = choose|q: int| first_token_cookie(s, q);
            assert(token_cookie_at(s, q));
        }
    }
    None
}

} // verus!
