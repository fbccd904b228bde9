//! Locating the GGA sentence inside a burst of NMEA text.
//!
//! A GGA sentence starts with `$`, has up to two talker characters before
//! the literal `GGA`, runs for at most two hundred further characters
//! without a line feed, and ends with a carriage return and a line feed.
//! The scanner returns the leftmost such sentence, preferring a longer
//! talker prefix and then a longer body, exactly as a backtracking
//! pattern match would.

use vstd::prelude::*;

verus! {

/// The pattern matches at position `i` with a talker prefix of `k`
/// characters and a body of `m` characters.
pub open spec fn gga_match_at(s: Seq<char>, i: int, k: int, m: int) -> bool {
    &&& 0 <= i
    &&& 0 <= k <= 2
    &&& 0 <= m <= 200
    &&& i + 6 + k + m <= s.len()
    &&& s[i] == '$'
    &&& forall|t: int| i + 1 <= t < i + 1 + k ==> s[t] != '\n'
    &&& s[i + 1 + k] == 'G'
    &&& s[i + 2 + k] == 'G'
    &&& s[i + 3 + k] == 'A'
    &&& forall|t: int| i + 4 + k <= t < i + 4 + k + m ==> s[t] != '\n'
    &&& s[i + 4 + k + m] == '\r'
    &&& s[i + 5 + k + m] == '\n'
}

/// Some talker prefix and body match at position `i`.
pub open spec fn gga_match_from(s: Seq<char>, i: int) -> bool {
    exists|k: int, m: int| gga_match_at(s, i, k, m)
}

/// The scanner's choice: the match at `i` is leftmost, its talker prefix
/// is the longest that admits any match there, and its body is the
/// longest for that prefix.
pub open spec fn gga_choice(s: Seq<char>, i: int, k: int, m: int) -> bool {
    &&& gga_match_at(s, i, k, m)
    &&& forall|i2: int| 0 <= i2 < i ==> !gga_match_from(s, i2)
    &&& forall|k2: int, m2: int| k < k2 <= 2 ==> !gga_match_at(s, i, k2, m2)
    &&& forall|m2: int| m < m2 <= 200 ==> !gga_match_at(s, i, k, m2)
}

/// Whether every character of `cs` in `[from, to)` is other than a line
/// feed.
fn window_clean(cs: &Vec<char>, from: usize, to: usize) -> (r: bool)
    requires
        from <= to <= cs@.len(),
    ensures
        r == (forall|t: int| from <= t < to ==> cs@[t] != '\n'),
{
    let mut t: usize = from;
    while t < to
        invariant
            from <= t <= to <= cs@.len(),
            forall|t2: int| from <= t2 < t ==> cs@[t2] != '\n',
        decreases to - t,
    {
        if cs[t] == '\n' {
            return false;
        }
        t += 1;
    }
    true
}

/// The longest matching body at `(i, k)`, if any: `Some(m)` exactly when
/// the pattern matches there with body length `m` and with no longer one;
/// `None` exactly when no body length works.
fn best_body(cs: &Vec<char>, i: usize, k: usize) -> (r: Option<usize>)
    requires
        k <= 2,
        i + 6 + k <= cs@.len(),
        cs@[i as int] == '$',
        forall|t: int| i + 1 <= t < i + 1 + k ==> cs@[t] != '\n',
        cs@[i + 1 + k] == 'G',
        cs@[i + 2 + k] == 'G',
        cs@[i + 3 + k] == 'A',
    ensures
        match r {
            Some(m) => {
                &&& gga_match_at(cs@, i as int, k as int, m as int)
                &&& forall|m2: int| m < m2 <= 200 ==> !gga_match_at(cs@, i as int, k as int, m2)
            },
            None => forall|m2: int| !gga_match_at(cs@, i as int, k as int, m2),
        },
{
    let n = cs.len();
    let cap = n - (i + 6 + k);
    let m_max = if cap > 200 {
        200
    } else {
        cap
    };
    proof {
        assert forall|m2: int| m_max < m2 <= 200
            implies !gga_match_at(cs@, i as int, k as int, m2) by {
            assert(i + 6 + k + m2 > cs@.len());
        }
    }
    let mut m: usize = m_max;
    loop
        invariant
            n == cs@.len(),
            cap == n - (i + 6 + k),
            k <= 2,
            m <= m_max,
            m_max == if cap > 200 { 200int } else { cap as int },
            i + 6 + k <= cs@.len(),
            cs@[i as int] == '$',
            forall|t: int| i + 1 <= t < i + 1 + k ==> cs@[t] != '\n',
            cs@[i + 1 + k] == 'G',
            cs@[i + 2 + k] == 'G',
            cs@[i + 3 + k] == 'A',
            forall|m2: int| m < m2 <= 200 ==> !gga_match_at(cs@, i as int, k as int, m2),
        decreases m,
    {
        let e = i + 4 + k + m;
        if cs[e] == '\r' && cs[e + 1] == '\n' && window_clean(cs, i + 4 + k, e) {
            proof {
                assert(gga_match_at(cs@, i as int, k as int, m as int));
            }
            return Some(m);
        }
        proof {
            assert(!gga_match_at(cs@, i as int, k as int, m as int));
        }
        if m == 0 {
            return None;
        }
        m -= 1;
    }
}

/// Returns the GGA sentence contained in the given text, if any: the
/// leftmost, longest match of the pattern, complete with its trailing
/// line break.
pub fn extract_gga_sentence(s: &str) -> (r: Option<String>)
    ensures
        match r {
            Some(out) => exists|i: int, k: int, m: int|
                (#[trigger] gga_choice(s@, i, k, m)) && out@ == s@.subrange(i, i + 6 + k + m),
            None => forall|i: int| !gga_match_from(s@, i),
        },
{
    let n = s.unicode_len();
    let mut cs: Vec<char> = Vec::new();
    let mut t: usize = 0;
    while t < n
        invariant
            n == s@.len(),
            t <= n,
            cs@.len() == t,
            forall|t2: int| 0 <= t2 < t ==> cs@[t2] == s@[t2],
        decreases n - t,
    {
        cs.push(s.get_char(t));
        t += 1;
    }
    proof {
        assert(cs@ =~= s@);
    }
    let mut i: usize = 0;
    while i < n
        invariant
            n == s@.len(),
            cs@ == s@,
            i <= n,
            forall|i2: int| 0 <= i2 < i ==> !gga_match_from(s@, i2),
        decreases n - i,
    {
        if cs[i] == '$' && n - i >= 6 {
            let mut kk: usize = 3;
            let mut found: Option<(usize, usize)> = None;
            while kk > 0 && found.is_none()
                invariant
                    n == s@.len(),
                    cs@ == s@,
                    i < n,
                    i + 6 <= n,
                    cs@[i as int] == '$',
                    kk <= 3,
                    match found {
                        Some((fk, fm)) => {
                            &&& gga_match_at(s@, i as int, fk as int, fm as int)
                            &&& forall|k2: int, m2: int|
                                fk < k2 <= 2 ==> !gga_match_at(s@, i as int, k2, m2)
                            &&& forall|m2: int|
                                fm < m2 <= 200 ==> !gga_match_at(s@, i as int, fk as int, m2)
                        },
                        None => forall|k2: int, m2: int|
                            kk <= k2 <= 2 ==> !gga_match_at(s@, i as int, k2, m2),
                    },
                decreases kk,
            {
                let k = kk - 1;
                let prefix_ok = n - i >= 6 + k && window_clean(&cs, i + 1, i + 1 + k)
                    && cs[i + 1 + k] == 'G' && cs[i + 2 + k] == 'G' && cs[i + 3 + k] == 'A';
                if prefix_ok {
                    match best_body(&cs, i, k) {
                        Some(m) => {
                            found = Some((k, m));
                        },
                        None => {
                            proof {
                                assert forall|m2: int|
                                    !gga_match_at(s@, i as int, k as int, m2) by {}
                            }
                        },
                    }
                } else {
                    proof {
                        assert forall|m2: int| !gga_match_at(s@, i as int, k as int, m2) by {}
                    }
                }
                kk -= 1;
            }
            match found {
                Some((k, m)) => {
                    proof {
                        assert(gga_choice(s@, i as int, k as int, m as int));
                    }
                    let piece = s.substring_char(i, i + 6 + k + m);
                    let out = String::from_str(piece);
                    return Some(out);
                },
                None => {
                    proof {
                        assert forall|k2: int, m2: int|
                            !(#[trigger] gga_match_at(s@, i as int, k2, m2)) by {
                            if 0 <= k2 <= 2 {
                                assert(!gga_match_at(s@, i as int, k2, m2));
                            }
                        }
                        assert(!gga_match_from(s@, i as int));
                    }
                },
            }
        } else {
            proof {
                assert forall|k2: int, m2: int|
                    !(#[trigger] gga_match_at(s@, i as int, k2, m2)) by {}
                assert(!gga_match_from(s@, i as int));
            }
        }
        i += 1;
    }
    None
}

} // verus!
