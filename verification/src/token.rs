//! The session-token grammar and its parser.
//!
//! A token names a user and carries an expiration part and a signature
//! part: `user-<digits>.<expiration>.<signature>`. The digits are the
//! user identifier and must fit in 64 bits; the expiration part may
//! itself contain dots, so the signature is everything after the last
//! dot; both parts are non-empty. The parser works on the token's
//! characters, handed over as plain values.

use vstd::prelude::*;

verus! {

/// Why authentication was refused.
#[derive(Clone, Copy, PartialEq, Eq, Structural, Debug)]
pub enum AuthError {
    NoAuthTokenCookie,
    TokenWrongFormat,
    CtxNotInRequestExt,
}

/// Whether a failed context resolution should clear the auth cookie: a
/// bad token is removed so the client re-authenticates, but a missing
/// cookie leaves nothing to remove.
pub fn should_remove_cookie(err: &AuthError) -> (b: bool)
    ensures
        b == (*err != AuthError::NoAuthTokenCookie),
{
    match err {
        AuthError::NoAuthTokenCookie => false,
        _ => true,
    }
}

/// Whether `c` is a decimal digit.
pub open spec fn is_digit(c: char) -> bool {
    48 <= (c as u32) && (c as u32) <= 57
}

/// The number the digit sequence `s` denotes in decimal.
pub open spec fn digits_value(s: Seq<char>) -> int
    decreases s.len(),
{
    if s.len() == 0 {
        0
    } else {
        digits_value(s.drop_last()) * 10 + ((s.last() as u32) - 48)
    }
}

/// Length of the longest run of digits at the head of `s`.
pub open spec fn digit_run_len(s: Seq<char>) -> int
    decreases s.len(),
{
    if s.len() == 0 || !is_digit(s[0]) {
        0
    } else {
        1 + digit_run_len(s.drop_first())
    }
}

/// Index of the last dot in `s`, or -1 when `s` has none.
pub open spec fn last_dot(s: Seq<char>) -> int
    decreases s.len(),
{
    if s.len() == 0 {
        -1
    } else if s.last() == '.' {
        s.len() - 1
    } else {
        last_dot(s.drop_last())
    }
}

/// The fixed head of every token.
pub open spec fn token_prefix() -> Seq<char> {
    "user-"@
}

/// The digit run naming the user.
pub open spec fn token_digits(t: Seq<char>) -> Seq<char> {
    t.subrange(5, 5 + digit_run_len(t.skip(5)))
}

/// What follows the dot after the digits.
pub open spec fn token_body(t: Seq<char>) -> Seq<char> {
    t.skip(6 + digit_run_len(t.skip(5)))
}

/// The expiration part: the body up to its last dot.
pub open spec fn token_exp(t: Seq<char>) -> Seq<char> {
    token_body(t).take(last_dot(token_body(t)))
}

/// The signature part: the body after its last dot.
pub open spec fn token_sig(t: Seq<char>) -> Seq<char> {
    token_body(t).skip(last_dot(token_body(t)) + 1)
}

/// The token grammar: the prefix, a non-empty digit run, a dot, then a
/// body whose last dot splits a non-empty expiration from a non-empty
/// signature.
pub open spec fn token_wf(t: Seq<char>) -> bool {
    let d = digit_run_len(t.skip(5));
    let body = token_body(t);
    let ld = last_dot(body);
    &&& t.len() >= 5
    &&& t.take(5) == token_prefix()
    &&& d >= 1
    &&& 5 + d < t.len() && t[5 + d] == '.'
    &&& ld >= 1
    &&& ld <= body.len() - 2
}

/// A token the parser accepts: well formed, with a user identifier that
/// fits in 64 bits.
pub open spec fn token_accepted(t: Seq<char>) -> bool {
    token_wf(t) && digits_value(token_digits(t)) <= u64::MAX
}

/// `digit_run_len` is exactly the scan that stops at the first
/// non-digit.
proof fn lemma_digit_run_len(s: Seq<char>, k: int)
    requires
        0 <= k <= s.len(),
        forall|j: int| 0 <= j < k ==> is_digit(#[trigger] s[j]),
        k < s.len() ==> !is_digit(s[k]),
    ensures
        digit_run_len(s) == k,
    decreases s.len(),
{
    if k == 0 {
    } else {
        let rest = s.drop_first();
        assert(forall|j: int| 0 <= j < rest.len() ==> rest[j] == s[j + 1]);
        lemma_digit_run_len(rest, k - 1);
    }
}

/// `last_dot` restricted to a prefix grows exactly with the scan that
/// remembers the last dot seen.
proof fn lemma_last_dot_extend(s: Seq<char>, m: int)
    requires
        0 <= m < s.len(),
    ensures
        last_dot(s.take(m + 1)) == (if s[m] == '.' {
            m
        } else {
            last_dot(s.take(m))
        }),
{
    assert(s.take(m + 1).drop_last() =~= s.take(m));
    assert(s.take(m + 1).last() == s[m]);
}

/// A digit sequence denotes a non-negative number, and extending it can
/// only increase the number.
proof fn lemma_digits_value_bounds(s: Seq<char>, m: int)
    requires
        0 <= m <= s.len(),
        forall|j: int| 0 <= j < s.len() ==> is_digit(#[trigger] s[j]),
    ensures
        digits_value(s) >= 0,
        digits_value(s) >= digits_value(s.take(m)),
    decreases s.len(),
{
    if s.len() == 0 {
        assert(s.take(m) =~= s);
    } else {
        let prefix = s.drop_last();
        assert(forall|j: int| 0 <= j < prefix.len() ==> prefix[j] == s[j]);
        if m <= prefix.len() {
            lemma_digits_value_bounds(prefix, m);
            assert(prefix.take(m) =~= s.take(m));
        } else {
            lemma_digits_value_bounds(prefix, prefix.len() as int);
            assert(s.take(m) =~= s);
        }
        assert(is_digit(s.last()));
    }
}

/// Whether `c` is a decimal digit.
fn char_is_digit(c: char) -> (b: bool)
    ensures
        b == is_digit(c),
{
    let u = c as u32;
    48 <= u && u <= 57
}

/// Parse a session token into its user identifier, expiration part and
/// signature part. Returns `Ok` exactly on tokens the grammar accepts
/// whose user identifier fits in 64 bits, and `TokenWrongFormat`
/// otherwise.
pub fn parse_token(token: &Vec<char>) -> (r: Result<(u64, Vec<char>, Vec<char>), AuthError>)
    ensures
        r is Ok <==> token_accepted(token@),
        r matches Ok(p) ==> ({
            &&& p.0 == digits_value(token_digits(token@))
            &&& p.1@ == token_exp(token@)
            &&& p.2@ == token_sig(token@)
        }),
        r matches Err(e) ==> e == AuthError::TokenWrongFormat,
{
    let ghost t = token@;
    let n = token.len();
    proof {
        reveal_strlit("user-");
    }
    if n < 5 {
        return Err(AuthError::TokenWrongFormat);
    }
    if !(token[0] == 'u' && token[1] == 's' && token[2] == 'e' && token[3] == 'r' && token[4]
        == '-') {
        proof {
            if t.take(5) == token_prefix() {
                assert(t.take(5)[0] == 'u' && t.take(5)[1] == 's' && t.take(5)[2] == 'e'
                    && t.take(5)[3] == 'r' && t.take(5)[4] == '-');
                assert(t[0] == 'u' && t[1] == 's' && t[2] == 'e' && t[3] == 'r' && t[4] == '-');
            }
            assert(t.take(5) != token_prefix());
        }
        return Err(AuthError::TokenWrongFormat);
    }
    proof {
        assert(t.take(5) =~= token_prefix());
    }
    // scan the digit run after the prefix
    let mut i: usize = 5;
    while i < n && char_is_digit(token[i])
        invariant
            5 <= i <= n,
            n == token@.len(),
            t == token@,
            forall|j: int| 5 <= j < i ==> is_digit(#[trigger] t[j]),
        decreases n - i,
    {
        i = i + 1;
    }
    proof {
        let run = t.skip(5);
        assert(forall|j: int| 0 <= j < run.len() ==> run[j] == t[j + 5]);
        lemma_digit_run_len(run, i - 5);
    }
    let ghost d = digit_run_len(t.skip(5));
    if i == 5 {
        return Err(AuthError::TokenWrongFormat);
    }
    if i == n {
        return Err(AuthError::TokenWrongFormat);
    }
    if !(token[i] == '.') {
        return Err(AuthError::TokenWrongFormat);
    }
    // the body after the dot, and its last dot
    let ghost body = token_body(t);
    proof {
        assert(body =~= t.skip(i as int + 1));
        assert(forall|j: int| 0 <= j < body.len() ==> body[j] == t[j + i + 1]);
    }
    let blen = n - (i + 1);
    let mut m: usize = 0;
    let mut ld: usize = 0;
    let mut seen_dot: bool = false;
    while m < blen
        invariant
            0 <= m <= blen,
            blen == body.len(),
            i + 1 + blen == n,
            5 <= i < n,
            n == token@.len(),
            t == token@,
            body == token_body(t),
            body =~= t.skip(i as int + 1),
            forall|j: int| 0 <= j < body.len() ==> body[j] == t[j + i + 1],
            !seen_dot ==> last_dot(body.take(m as int)) == -1,
            seen_dot ==> ld < m && last_dot(body.take(m as int)) == ld,
        decreases blen - m,
    {
        proof {
            lemma_last_dot_extend(body, m as int);
        }
        if token[i + 1 + m] == '.' {
            ld = m;
            seen_dot = true;
        }
        m = m + 1;
    }
    proof {
        assert(body.take(blen as int) =~= body);
    }
    if !seen_dot {
        return Err(AuthError::TokenWrongFormat);
    }
    if ld < 1 {
        return Err(AuthError::TokenWrongFormat);
    }
    if ld + 2 > blen {
        return Err(AuthError::TokenWrongFormat);
    }
    proof {
        assert(token_wf(t));
    }
    // the digits as a 64-bit number, refusing overflow
    let mut acc: u64 = 0;
    let mut k: usize = 5;
    while k < i
        invariant
            5 <= k <= i <= n,
            n == token@.len(),
            t == token@,
            forall|j: int| 5 <= j < i ==> is_digit(#[trigger] t[j]),
            acc == digits_value(t.subrange(5, k as int)),
            token_wf(t),
            i == 5 + digit_run_len(t.skip(5)),
        decreases i - k,
    {
        let c = token[k];
        let dv = (c as u32 - 48) as u64;
        proof {
            assert(t.subrange(5, k as int + 1).drop_last() =~= t.subrange(5, k as int));
            assert(t.subrange(5, k as int + 1).last() == t[k as int]);
        }
        let step = match acc.checked_mul(10) {
            Some(a) => a.checked_add(dv),
            None => None,
        };
        match step {
            Some(a) => {
                acc = a;
            },
            None => {
                proof {
                    let digits = token_digits(t);
                    assert(forall|j: int| 0 <= j < digits.len() ==> digits[j] == t[j + 5]);
                    lemma_digits_value_bounds(digits, k as int + 1 - 5);
                    assert(digits.take(k as int + 1 - 5) =~= t.subrange(5, k as int + 1));
                    assert(digits_value(t.subrange(5, k as int + 1)) > u64::MAX);
                }
                return Err(AuthError::TokenWrongFormat);
            },
        }
        k = k + 1;
    }
    proof {
        assert(t.subrange(5, i as int) =~= token_digits(t));
    }
    // copy out the expiration and signature parts
    let mut exp: Vec<char> = Vec::new();
    let mut p: usize = 0;
    while p < ld
        invariant
            0 <= p <= ld,
            ld < blen,
            blen == body.len(),
            i + 1 + blen == n,
            5 <= i < n,
            n == token@.len(),
            t == token@,
            forall|j: int| 0 <= j < body.len() ==> body[j] == t[j + i + 1],
            exp@ == body.take(p as int),
        decreases ld - p,
    {
        exp.push(token[i + 1 + p]);
        proof {
            assert(exp@ =~= body.take(p as int + 1));
        }
        p = p + 1;
    }
    let mut sig: Vec<char> = Vec::new();
    let mut q: usize = ld + 1;
    while q < blen
        invariant
            ld + 1 <= q <= blen,
            blen == body.len(),
            i + 1 + blen == n,
            5 <= i < n,
            n == token@.len(),
            t == token@,
            forall|j: int| 0 <= j < body.len() ==> body[j] == t[j + i + 1],
            sig@ == body.subrange(ld as int + 1, q as int),
        decreases blen - q,
    {
        sig.push(token[i + 1 + q]);
        proof {
            assert(sig@ =~= body.subrange(ld as int + 1, q as int + 1));
        }
        q = q + 1;
    }
    proof {
        assert(exp@ =~= token_exp(t));
        assert(sig@ =~= token_sig(t));
    }
    Ok((acc, exp, sig))
}

} // verus!
