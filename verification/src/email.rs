//! The accepted shape of an email address, and the extraction of the
//! longest such prefix from raw user input.
//!
//! The shape: a local part of lower-case letters, digits, `_`, `+` and
//! inner dots, neither starting nor ending with a dot; an `@`; a domain of
//! lower-case alphanumeric labels joined by single `-` or `.`; and a final
//! dot followed by two to six lower-case letters. What the user typed
//! beyond that prefix is ignored; input whose head does not fit is
//! rejected.

use vstd::prelude::*;
use vstd::string::StrSliceExecFns;

verus! {

/// A lower-case letter.
pub open spec fn is_lower(c: char) -> bool {
    97 <= c as u32 && c as u32 <= 122
}

/// A decimal digit.
pub open spec fn is_digit(c: char) -> bool {
    48 <= c as u32 && c as u32 <= 57
}

/// A lower-case letter or a digit.
pub open spec fn is_alnum(c: char) -> bool {
    is_lower(c) || is_digit(c)
}

/// A character that may start or end the local part: letter, digit, `_`, `+`.
pub open spec fn is_local_start(c: char) -> bool {
    is_alnum(c) || c as u32 == 95 || c as u32 == 43
}

/// A character allowed anywhere inside the local part: the above or a dot.
pub open spec fn is_local_mid(c: char) -> bool {
    is_local_start(c) || c as u32 == 46
}

/// A domain label separator: `-` or `.`.
pub open spec fn is_sep(c: char) -> bool {
    c as u32 == 45 || c as u32 == 46
}

/// A dot.
pub open spec fn is_dot(c: char) -> bool {
    c as u32 == 46
}

/// A character allowed in the domain body.
pub open spec fn is_domain_char(c: char) -> bool {
    is_alnum(c) || is_sep(c)
}

/// The `@` sign.
pub open spec fn is_at(c: char) -> bool {
    c as u32 == 64
}

/// A well-formed local part.
pub open spec fn valid_local(s: Seq<char>) -> bool {
    s.len() >= 1 && is_local_start(s[0]) && is_local_start(s[s.len() - 1]) && (forall|i: int|
        0 <= i < s.len() ==> is_local_mid(#[trigger] s[i]))
}

/// A well-formed domain body: alphanumeric runs joined by single separators.
pub open spec fn valid_body(s: Seq<char>) -> bool {
    s.len() >= 1 && is_alnum(s[0]) && is_alnum(s[s.len() - 1]) && (forall|i: int|
        0 <= i < s.len() ==> is_domain_char(#[trigger] s[i])) && (forall|i: int|
        0 <= i < s.len() - 1 ==> !(is_sep(#[trigger] s[i]) && is_sep(s[i + 1])))
}

/// A well-formed domain: a body, a dot, and a two-to-six-letter ending.
pub open spec fn valid_domain(s: Seq<char>) -> bool {
    exists|k: int|
        0 < k < s.len() && is_dot(#[trigger] s[k]) && valid_body(s.subrange(0, k)) && 2 <= s.len()
            - k - 1 <= 6 && (forall|j: int| k < j < s.len() ==> is_lower(#[trigger] s[j]))
}

/// A well-formed email address.
pub open spec fn is_email(s: Seq<char>) -> bool {
    exists|a: int|
        0 < a < s.len() && is_at(#[trigger] s[a]) && valid_local(s.subrange(0, a)) && valid_domain(
            s.subrange(a + 1, s.len() as int),
        )
}

/// The positions `d0..k` of `s` could begin a domain body: an alphanumeric
/// start, only domain characters, and no two adjacent separators.
pub open spec fn good_partial(s: Seq<char>, d0: int, k: int) -> bool {
    (k > d0 ==> is_alnum(s[d0])) && (forall|i: int|
        d0 <= i < k ==> is_domain_char(#[trigger] s[i])) && (forall|i: int|
        d0 <= i < k - 1 ==> !(is_sep(#[trigger] s[i]) && is_sep(s[i + 1])))
}

/// The positions `d0..k` of `s` form a complete, well-formed domain body.
pub open spec fn body_ok(s: Seq<char>, d0: int, k: int) -> bool {
    good_partial(s, d0, k) && k > d0 && is_alnum(s[k - 1])
}

/// A well-formed domain stands in `s` from `d0` to `e`, with its final dot
/// at `kd`.
pub open spec fn domain_at(s: Seq<char>, d0: int, kd: int, e: int) -> bool {
    0 <= d0 < kd < e <= s.len() && is_dot(s[kd]) && body_ok(s, d0, kd) && 2 <= e - kd - 1 <= 6 && (
    forall|j: int| kd < j < e ==> is_lower(#[trigger] s[j]))
}

/// The body of a subrange is well-formed exactly when the range is.
proof fn lemma_body_equiv(s: Seq<char>, d0: int, k: int)
    requires
        0 <= d0 <= k <= s.len(),
    ensures
        valid_body(s.subrange(d0, k)) <==> body_ok(s, d0, k),
{
    let t = s.subrange(d0, k);
    if k == d0 {
        assert(t.len() == 0);
    } else {
        assert(t.len() == k - d0);
        if valid_body(t) {
            assert forall|i: int| d0 <= i < k implies is_domain_char(#[trigger] s[i]) by {
                assert(t[i - d0] == s[i]);
                assert(is_domain_char(t[i - d0]));
            }
            assert forall|i: int| d0 <= i < k - 1 implies !(is_sep(#[trigger] s[i]) && is_sep(
                s[i + 1],
            )) by {
                assert(t[i - d0] == s[i]);
                assert(t[i - d0 + 1] == s[i + 1]);
                assert(!(is_sep(t[i - d0]) && is_sep(t[i - d0 + 1])));
            }
            assert(t[0] == s[d0]);
            assert(t[t.len() - 1] == s[k - 1]);
            assert(body_ok(s, d0, k));
        }
        if body_ok(s, d0, k) {
            assert forall|i: int| 0 <= i < t.len() implies is_domain_char(#[trigger] t[i]) by {
                assert(t[i] == s[d0 + i]);
            }
            assert forall|i: int| 0 <= i < t.len() - 1 implies !(is_sep(#[trigger] t[i]) && is_sep(
                t[i + 1],
            )) by {
                assert(t[i] == s[d0 + i]);
                assert(t[i + 1] == s[d0 + i + 1]);
                assert(!(is_sep(s[d0 + i]) && is_sep(s[d0 + i + 1])));
            }
            assert(t[0] == s[d0]);
            assert(t[t.len() - 1] == s[k - 1]);
            assert(valid_body(t));
        }
    }
}

/// A subrange holds a well-formed domain exactly when a final dot stands
/// somewhere in the range.
proof fn lemma_domain_equiv(s: Seq<char>, d0: int, e: int)
    requires
        0 <= d0 <= e <= s.len(),
    ensures
        valid_domain(s.subrange(d0, e)) <==> exists|kd: int| domain_at(s, d0, kd, e),
{
    let t = s.subrange(d0, e);
    if valid_domain(t) {
        let k = choose|k: int|
            0 < k < t.len() && is_dot(#[trigger] t[k]) && valid_body(t.subrange(0, k)) && 2
                <= t.len() - k - 1 <= 6 && (forall|j: int| k < j < t.len() ==> is_lower(t[j]));
        let kd = d0 + k;
        assert(t.subrange(0, k) =~= s.subrange(d0, kd));
        lemma_body_equiv(s, d0, kd);
        assert(t[k] == s[kd]);
        assert forall|j: int| kd < j < e implies is_lower(#[trigger] s[j]) by {
            assert(t[j - d0] == s[j]);
            assert(is_lower(t[j - d0]));
        }
        assert(domain_at(s, d0, kd, e));
    }
    if exists|kd: int| domain_at(s, d0, kd, e) {
        let kd = choose|kd: int| domain_at(s, d0, kd, e);
        let k = kd - d0;
        assert(t.subrange(0, k) =~= s.subrange(d0, kd));
        lemma_body_equiv(s, d0, kd);
        assert(t[k] == s[kd]);
        assert forall|j: int| k < j < t.len() implies is_lower(#[trigger] t[j]) by {
            assert(t[j] == s[d0 + j]);
            assert(is_lower(s[d0 + j]));
        }
        assert(0 < k < t.len() && is_dot(t[k]) && valid_body(t.subrange(0, k)) && 2 <= t.len() - k
            - 1 <= 6);
        assert(valid_domain(t));
    }
}

/// Against the maximal run `0..m` of local characters, a prefix of length
/// `l` is an email exactly when the `@` stands at `m`, the run forms a
/// well-formed local part, and a well-formed domain follows up to `l`.
proof fn lemma_email_shape(s: Seq<char>, m: int, l: int)
    requires
        0 <= m <= s.len(),
        forall|k: int| 0 <= k < m ==> is_local_mid(#[trigger] s[k]),
        m == s.len() || !is_local_mid(s[m]),
        0 < l <= s.len(),
    ensures
        is_email(s.subrange(0, l)) <==> (1 <= m && m < s.len() && is_at(s[m]) && is_local_start(
            s[0],
        ) && is_local_start(s[m - 1]) && m + 1 < l && valid_domain(s.subrange(m + 1, l))),
{
    let e = s.subrange(0, l);
    assert(e.len() == l);
    assert forall|i: int| 0 <= i < l implies e[i] == s[i] by {}
    if is_email(e) {
        let a = choose|a: int|
            0 < a < e.len() && is_at(#[trigger] e[a]) && valid_local(e.subrange(0, a))
                && valid_domain(e.subrange(a + 1, e.len() as int));
        let loc = e.subrange(0, a);
        assert(loc =~= s.subrange(0, a));
        if a < m {
            assert(is_local_mid(s[a]));
            assert(is_at(s[a]));
            assert(false);
        }
        if a > m {
            assert(m < s.len());
            assert(loc[m] == s[m]);
            assert(is_local_mid(loc[m]));
            assert(false);
        }
        assert(a == m);
        assert(loc.len() == m);
        assert(loc[0] == s[0]);
        assert(loc[m - 1] == s[m - 1]);
        assert(e.subrange(m + 1, e.len() as int) =~= s.subrange(m + 1, l));
    }
    if 1 <= m && m < s.len() && is_at(s[m]) && is_local_start(s[0]) && is_local_start(s[m - 1]) && m
        + 1 < l && valid_domain(s.subrange(m + 1, l)) {
        let loc = e.subrange(0, m);
        assert(loc =~= s.subrange(0, m));
        assert forall|i: int| 0 <= i < loc.len() implies is_local_mid(#[trigger] loc[i]) by {
            assert(loc[i] == s[i]);
        }
        assert(loc[0] == s[0]);
        assert(loc[m - 1] == s[m - 1]);
        assert(valid_local(loc));
        assert(e.subrange(m + 1, e.len() as int) =~= s.subrange(m + 1, l));
        assert(e[m] == s[m]);
        assert(0 < m < e.len() && is_at(e[m]) && valid_local(e.subrange(0, m)) && valid_domain(
            e.subrange(m + 1, e.len() as int),
        ));
        assert(is_email(e));
    }
}

fn is_lower_exec(c: char) -> (r: bool)
    ensures
        r == is_lower(c),
{
    let u = c as u32;
    97 <= u && u <= 122
}

fn is_alnum_exec(c: char) -> (r: bool)
    ensures
        r == is_alnum(c),
{
    let u = c as u32;
    (97 <= u && u <= 122) || (48 <= u && u <= 57)
}

fn is_sep_exec(c: char) -> (r: bool)
    ensures
        r == is_sep(c),
{
    let u = c as u32;
    u == 45 || u == 46
}

fn is_dot_exec(c: char) -> (r: bool)
    ensures
        r == is_dot(c),
{
    c as u32 == 46
}

fn is_at_exec(c: char) -> (r: bool)
    ensures
        r == is_at(c),
{
    c as u32 == 64
}

fn is_local_start_exec(c: char) -> (r: bool)
    ensures
        r == is_local_start(c),
{
    let u = c as u32;
    (97 <= u && u <= 122) || (48 <= u && u <= 57) || u == 95 || u == 43
}

fn is_local_mid_exec(c: char) -> (r: bool)
    ensures
        r == is_local_mid(c),
{
    let u = c as u32;
    (97 <= u && u <= 122) || (48 <= u && u <= 57) || u == 95 || u == 43 || u == 46
}

/// Extract the longest prefix of `s` that is a well-formed email address.
/// `None` exactly when no prefix of `s` is one; `Some(e)` is that prefix,
/// an email, and no longer prefix of `s` is an email.
pub fn extract_email(s: &str) -> (r: Option<String>)
    ensures
        r matches Some(e) ==> 0 < e@.len() <= s@.len() && e@ == s@.subrange(0, e@.len() as int)
            && is_email(e@) && (forall|l: int|
            e@.len() < l <= s@.len() ==> !is_email(#[trigger] s@.subrange(0, l))),
        r is None ==> forall|l: int| 0 < l <= s@.len() ==> !is_email(#[trigger] s@.subrange(0, l)),
{
    let n = s.unicode_len();
    let mut m: usize = 0;
    loop
        invariant
            m <= n,
            n == s@.len(),
            forall|k: int| 0 <= k < m ==> is_local_mid(#[trigger] s@[k]),
        ensures
            m <= n,
            n == s@.len(),
            forall|k: int| 0 <= k < m ==> is_local_mid(#[trigger] s@[k]),
            m == n || !is_local_mid(s@[m as int]),
        decreases n - m,
    {
        if m >= n {
            break ;
        }
        let c = s.get_char(m);
        if !is_local_mid_exec(c) {
            break ;
        }
        m = m + 1;
    }
    if m == 0 || m >= n {
        proof {
            assert forall|l: int| 0 < l <= s@.len() implies !is_email(
                #[trigger] s@.subrange(0, l),
            ) by {
                lemma_email_shape(s@, m as int, l);
            }
        }
        return None;
    }
    let head_ok = is_local_start_exec(s.get_char(0)) && is_local_start_exec(s.get_char(m - 1))
        && is_at_exec(s.get_char(m));
    if !head_ok {
        proof {
            assert forall|l: int| 0 < l <= s@.len() implies !is_email(
                #[trigger] s@.subrange(0, l),
            ) by {
                lemma_email_shape(s@, m as int, l);
            }
        }
        return None;
    }
    let d0 = m + 1;
    let mut best: Option<usize> = None;
    let mut k: usize = d0;
    let mut prev_alnum: bool = false;
    let mut prev_sep: bool = false;
    loop
        invariant
            d0 <= k <= n,
            n == s@.len(),
            d0 == m + 1,
            good_partial(s@, d0 as int, k as int),
            k > d0 ==> prev_alnum == is_alnum(s@[k - 1]) && prev_sep == is_sep(s@[k - 1]),
            best matches Some(b) ==> d0 < b <= n && (exists|kd: int|
                domain_at(s@, d0 as int, kd, b as int)),
            forall|kd: int, e: int|
                kd < k && #[trigger] domain_at(s@, d0 as int, kd, e) ==> (best matches Some(b) && e
                    <= b),
        ensures
            n == s@.len(),
            best matches Some(b) ==> d0 < b <= n && (exists|kd: int|
                domain_at(s@, d0 as int, kd, b as int)),
            forall|kd: int, e: int|
                #[trigger] domain_at(s@, d0 as int, kd, e) ==> (best matches Some(b) && e <= b),
        decreases n - k,
    {
        if k >= n {
            proof {
                assert forall|kd: int, e: int|
                    #[trigger] domain_at(s@, d0 as int, kd, e) implies kd < k by {}
            }
            break ;
        }
        let c = s.get_char(k);
        let c_alnum = is_alnum_exec(c);
        let c_sep = is_sep_exec(c);
        let c_dot = is_dot_exec(c);
        if !c_alnum && !c_sep {
            proof {
                assert forall|kd: int, e: int|
                    #[trigger] domain_at(s@, d0 as int, kd, e) implies kd < k by {
                    if kd == k {
                        assert(is_dot(s@[kd]));
                    }
                    if kd > k {
                        assert(is_domain_char(s@[k as int]));
                    }
                }
            }
            break ;
        }
        if c_sep && (k == d0 || prev_sep) {
            proof {
                assert forall|kd: int, e: int|
                    #[trigger] domain_at(s@, d0 as int, kd, e) implies kd < k by {
                    if k == d0 {
                        if kd == k {
                            assert(body_ok(s@, d0 as int, kd));
                        }
                        if kd > k {
                            assert(is_alnum(s@[d0 as int]));
                        }
                    } else {
                        if kd == k {
                            assert(is_alnum(s@[k - 1]));
                        }
                        if kd > k {
                            assert(!(is_sep(s@[k - 1]) && is_sep(s@[k as int])));
                        }
                    }
                }
            }
            break ;
        }
        if c_dot {
            proof {
                assert(k > d0);
                assert(is_alnum(s@[k - 1]));
            }
            let mut t: usize = 0;
            loop
                invariant
                    t <= 6,
                    k + 1 + t <= n,
                    n == s@.len(),
                    k < n,
                    forall|j: int| k < j < k + 1 + t ==> is_lower(#[trigger] s@[j]),
                ensures
                    t <= 6,
                    k + 1 + t <= n,
                    forall|j: int| k < j < k + 1 + t ==> is_lower(#[trigger] s@[j]),
                    t == 6 || k + 1 + t == n || !is_lower(s@[(k + 1 + t) as int]),
                decreases 6 - t,
            {
                if t >= 6 {
                    break ;
                }
                if k + 1 + t >= n {
                    break ;
                }
                if !is_lower_exec(s.get_char(k + 1 + t)) {
                    break ;
                }
                t = t + 1;
            }
            proof {
                assert forall|e: int|
                    #[trigger] domain_at(s@, d0 as int, k as int, e) implies e <= k + 1 + t by {
                    if e > k + 1 + t {
                        assert(is_lower(s@[(k + 1 + t) as int]));
                    }
                }
            }
            if t >= 2 {
                let e0 = k + 1 + t;
                proof {
                    assert(domain_at(s@, d0 as int, k as int, e0 as int));
                }
                best = match best {
                    None => Some(e0),
                    Some(b) => if b < e0 {
                        Some(e0)
                    } else {
                        Some(b)
                    },
                };
            } else {
                proof {
                    assert forall|e: int| !(#[trigger] domain_at(
                        s@,
                        d0 as int,
                        k as int,
                        e,
                    )) by {
                        if domain_at(s@, d0 as int, k as int, e) {
                            assert(e >= k + 3);
                            assert(is_lower(s@[k + 1]));
                            assert(is_lower(s@[k + 2]));
                            assert(e <= k + 1 + t);
                        }
                    }
                }
            }
        } else {
            proof {
                assert forall|e: int| !(#[trigger] domain_at(s@, d0 as int, k as int, e)) by {
                    if domain_at(s@, d0 as int, k as int, e) {
                        assert(is_dot(s@[k as int]));
                    }
                }
            }
        }
        prev_alnum = c_alnum;
        prev_sep = c_sep;
        k = k + 1;
    }
    match best {
        None => {
            proof {
                assert forall|l: int| 0 < l <= s@.len() implies !is_email(
                    #[trigger] s@.subrange(0, l),
                ) by {
                    lemma_email_shape(s@, m as int, l);
                    if is_email(s@.subrange(0, l)) {
                        lemma_domain_equiv(s@, d0 as int, l);
                    }
                }
            }
            None
        },
        Some(b) => {
            proof {
                lemma_domain_equiv(s@, d0 as int, b as int);
                lemma_email_shape(s@, m as int, b as int);
                assert(is_email(s@.subrange(0, b as int)));
                assert forall|l: int| b < l <= s@.len() implies !is_email(
                    #[trigger] s@.subrange(0, l),
                ) by {
                    lemma_email_shape(s@, m as int, l);
                    if is_email(s@.subrange(0, l)) {
                        lemma_domain_equiv(s@, d0 as int, l);
                    }
                }
            }
            let sub = s.substring_char(0, b);
            let owned: String = sub.to_owned();
            Some(owned)
        },
    }
}

} // verus!
