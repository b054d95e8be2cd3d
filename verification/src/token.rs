//! The credential format: an auth token is the string
//! `user-<id>.<signature>.sign`, where `<id>` is a decimal user id, the
//! signature placeholder is a non-empty run of characters without a dot, and
//! the last dot-separated component is literally `sign`. Parsing here only
//! checks the shape; no cryptographic verification takes place.

use vstd::prelude::*;
use vstd::string::StringExecFns;

use crate::error::Error;
use crate::error::TicketResult;

verus! {

/// A decimal digit character.
pub open spec fn is_digit(c: char) -> bool {
    48 <= c as int && c as int <= 57
}

/// The numeric value of a digit character.
pub open spec fn digit_val(c: char) -> int {
    c as int - 48
}

/// The digit character for a value below ten.
pub open spec fn digit_char(d: int) -> char {
    ((48 + d) as u8) as char
}

/// Every character of `s` is a decimal digit.
pub open spec fn all_digits(s: Seq<char>) -> bool {
    forall|i: int| 0 <= i < s.len() ==> is_digit(s[i])
}

/// The number denoted by a digit run, most significant digit first.
pub open spec fn digits_value(s: Seq<char>) -> int
    decreases s.len(),
{
    if s.len() == 0 {
        0
    } else {
        digits_value(s.drop_last()) * 10 + digit_val(s.last())
    }
}

/// The index of the first occurrence of `c` in `s` at or after `from`, or
/// `s.len()` if there is none.
pub open spec fn find_char(s: Seq<char>, c: char, from: int) -> int
    decreases s.len() - from,
{
    if !(0 <= from && from < s.len()) {
        s.len() as int
    } else if s[from] == c {
        from
    } else {
        find_char(s, c, from + 1)
    }
}

/// The canonical decimal representation of a non-negative number.
pub open spec fn dec_digits(n: int) -> Seq<char>
    recommends
        n >= 0,
    decreases n,
{
    if n < 10 {
        seq![digit_char(n)]
    } else {
        dec_digits(n / 10).push(digit_char(n % 10))
    }
}

/// What a token string means: `Some(id)` exactly when the string has the
/// shape `user-<digits>.<signature>.sign` with a non-empty digit run whose
/// value fits in a `u64` and a non-empty signature component, `None`
/// otherwise.
pub open spec fn spec_parse_token(s: Seq<char>) -> Option<u64> {
    let d1 = find_char(s, '.', 5);
    let d2 = find_char(s, '.', d1 + 1);
    if s.len() > 5 && s.subrange(0, 5) == "user-"@ && 5 < d1 && d1 < s.len() && all_digits(
        s.subrange(5, d1),
    ) && digits_value(s.subrange(5, d1)) <= u64::MAX && d1 + 1 < d2 && d2 < s.len()
        && s.subrange(d2 + 1, s.len() as int) == "sign"@ {
        Some(digits_value(s.subrange(5, d1)) as u64)
    } else {
        None
    }
}

/// The token issued for a user id and a signature placeholder.
pub open spec fn spec_make_token(id: u64, sig: Seq<char>) -> Seq<char> {
    "user-"@ + dec_digits(id as int) + "."@ + sig + ".sign"@
}

/// `find_char` returns the first occurrence: nothing before it matches, and
/// the character there (if within bounds) is the one sought.
pub proof fn lemma_find_char_props(s: Seq<char>, c: char, from: int)
    requires
        0 <= from <= s.len(),
    ensures
        from <= find_char(s, c, from) <= s.len(),
        find_char(s, c, from) < s.len() ==> s[find_char(s, c, from)] == c,
        forall|j: int| from <= j < find_char(s, c, from) ==> s[j] != c,
    decreases s.len() - from,
{
    if from < s.len() && s[from] != c {
        lemma_find_char_props(s, c, from + 1);
    }
}

/// A digit run denotes a non-negative number.
pub proof fn lemma_digits_value_nonneg(s: Seq<char>)
    requires
        all_digits(s),
    ensures
        digits_value(s) >= 0,
    decreases s.len(),
{
    if s.len() > 0 {
        assert(all_digits(s.drop_last()));
        lemma_digits_value_nonneg(s.drop_last());
    }
}

/// Extending a digit run can only increase its value.
pub proof fn lemma_digits_value_prefix_le(s: Seq<char>, i: int)
    requires
        all_digits(s),
        0 <= i <= s.len(),
    ensures
        digits_value(s.subrange(0, i)) <= digits_value(s),
    decreases s.len() - i,
{
    if i == s.len() {
        assert(s.subrange(0, i) =~= s);
    } else {
        let t = s.subrange(0, i + 1);
        assert(t.drop_last() =~= s.subrange(0, i));
        assert(all_digits(t));
        lemma_digits_value_nonneg(s.subrange(0, i));
        lemma_digits_value_prefix_le(s, i + 1);
    }
}

/// Parse an auth token. Returns the embedded user id exactly when the token
/// is well-formed per `spec_parse_token`, and the wrong-format error
/// otherwise.
pub fn parse_token(token: &str) -> (r: TicketResult<u64>)
    ensures
        match spec_parse_token(token@) {
            Some(id) => r == Ok::<u64, Error>(id),
            None => r == Err::<u64, Error>(Error::AuthFailTokenWrongFormat),
        },
{
    let ghost s = token@;
    proof {
        reveal_strlit("user-");
        reveal_strlit("sign");
    }
    let n = token.unicode_len();
    if n <= 5 {
        return Err(Error::AuthFailTokenWrongFormat);
    }
    if token.get_char(0) != 'u' || token.get_char(1) != 's' || token.get_char(2) != 'e'
        || token.get_char(3) != 'r' || token.get_char(4) != '-' {
        proof {
            assert(s.subrange(0, 5)[0] == s[0]);
            assert(s.subrange(0, 5)[1] == s[1]);
            assert(s.subrange(0, 5)[2] == s[2]);
            assert(s.subrange(0, 5)[3] == s[3]);
            assert(s.subrange(0, 5)[4] == s[4]);
            assert(s.subrange(0, 5) != "user-"@);
        }
        return Err(Error::AuthFailTokenWrongFormat);
    }
    proof {
        assert(s.subrange(0, 5) =~= "user-"@);
    }
    let ghost d1 = find_char(s, '.', 5);

    // Scan the digit run up to the first dot.
    let mut i: usize = 5;
    loop
        invariant
            5 <= i <= n,
            n == s.len(),
            token@ == s,
            forall|j: int| 5 <= j < i ==> s[j] != '.' && is_digit(s[j]),
        ensures
            5 <= i < n,
            s[i as int] == '.',
            forall|j: int| 5 <= j < i ==> s[j] != '.' && is_digit(s[j]),
        decreases n - i,
    {
        if i == n {
            // No dot at all: the token has no signature component.
            proof {
                lemma_find_char_props(s, '.', 5);
                assert(find_char(s, '.', 5) == s.len());
            }
            return Err(Error::AuthFailTokenWrongFormat);
        }
        let c = token.get_char(i);
        if c == '.' {
            break ;
        }
        let cv = c as u32;
        if cv < 48 || cv > 57 {
            // A non-digit before the first dot: the id run is malformed.
            proof {
                lemma_find_char_props(s, '.', 5);
                let f = find_char(s, '.', 5);
                if f < s.len() {
                    assert(f > i);
                    assert(s.subrange(5, f)[i - 5] == s[i as int]);
                    assert(!all_digits(s.subrange(5, f)));
                }
            }
            return Err(Error::AuthFailTokenWrongFormat);
        }
        i += 1;
    }
    proof {
        lemma_find_char_props(s, '.', 5);
        assert(d1 == i);
    }
    if i == 5 {
        // Empty digit run.
        return Err(Error::AuthFailTokenWrongFormat);
    }
    let dot1 = i;
    let ghost digits = s.subrange(5, d1);
    proof {
        assert(all_digits(digits));
    }

    // Accumulate the id value, watching for overflow.
    let mut v: u64 = 0;
    let mut k: usize = 5;
    while k < dot1
        invariant
            5 <= k <= dot1 == d1 < n,
            n == s.len(),
            token@ == s,
            d1 == find_char(s, '.', 5),
            digits == s.subrange(5, d1),
            all_digits(digits),
            v == digits_value(s.subrange(5, k as int)),
        decreases dot1 - k,
    {
        let c = token.get_char(k);
        proof {
            assert(s.subrange(5, d1)[k - 5] == s[k as int]);
            assert(is_digit(s[k as int]));
        }
        let d = (c as u32 - 48) as u64;
        let ghost prev = s.subrange(5, k as int);
        let ghost cur = s.subrange(5, k + 1int);
        proof {
            assert(cur.drop_last() =~= prev);
            assert(cur.last() == s[k as int]);
        }
        let step = match v.checked_mul(10) {
            Some(x) => x.checked_add(d),
            None => None,
        };
        match step {
            Some(x) => {
                v = x;
            },
            None => {
                // The digit run denotes a value beyond u64::MAX.
                proof {
                    assert(digits_value(cur) > u64::MAX);
                    assert(cur =~= digits.subrange(0, k + 1 - 5));
                    lemma_digits_value_prefix_le(digits, k + 1 - 5);
                }
                return Err(Error::AuthFailTokenWrongFormat);
            },
        }
        k += 1;
    }
    proof {
        assert(s.subrange(5, k as int) =~= digits);
    }

    // Find the second dot; the signature component must be non-empty.
    let mut j: usize = dot1 + 1;
    loop
        invariant
            d1 + 1 <= j <= n,
            n == s.len(),
            token@ == s,
            d1 == dot1,
            d1 == find_char(s, '.', 5),
            forall|t: int| d1 + 1 <= t < j ==> s[t] != '.',
        ensures
            d1 + 1 <= j < n,
            s[j as int] == '.',
            forall|t: int| d1 + 1 <= t < j ==> s[t] != '.',
        decreases n - j,
    {
        proof {
            lemma_find_char_props(s, '.', d1 + 1);
        }
        if j == n {
            // Only one dot: no trailing `sign` component.
            return Err(Error::AuthFailTokenWrongFormat);
        }
        if token.get_char(j) == '.' {
            break ;
        }
        j += 1;
    }
    proof {
        lemma_find_char_props(s, '.', d1 + 1);
        assert(find_char(s, '.', d1 + 1) == j);
    }
    let ghost d2 = find_char(s, '.', d1 + 1);
    if j == dot1 + 1 {
        // Empty signature component.
        return Err(Error::AuthFailTokenWrongFormat);
    }

    // The remainder after the second dot must be exactly `sign`.
    if n - (j + 1) != 4 {
        proof {
            assert(s.subrange(d2 + 1, s.len() as int).len() != "sign"@.len());
        }
        return Err(Error::AuthFailTokenWrongFormat);
    }
    if token.get_char(j + 1) != 's' || token.get_char(j + 2) != 'i' || token.get_char(j + 3) != 'g'
        || token.get_char(j + 4) != 'n' {
        proof {
            assert(s.subrange(d2 + 1, s.len() as int)[0] == s[d2 + 1]);
            assert(s.subrange(d2 + 1, s.len() as int)[1] == s[d2 + 2]);
            assert(s.subrange(d2 + 1, s.len() as int)[2] == s[d2 + 3]);
            assert(s.subrange(d2 + 1, s.len() as int)[3] == s[d2 + 4]);
            assert(s.subrange(d2 + 1, s.len() as int) != "sign"@);
        }
        return Err(Error::AuthFailTokenWrongFormat);
    }
    proof {
        assert(s.subrange(d2 + 1, s.len() as int) =~= "sign"@);
        assert(spec_parse_token(s) == Some(v));
    }
    Ok(v)
}

/// The one-character string for a digit value.
fn digit_str(d: u64) -> (r: &'static str)
    requires
        d < 10,
    ensures
        r@ == seq![digit_char(d as int)],
{
    let r: &'static str = match d {
        0 => "0",
        1 => "1",
        2 => "2",
        3 => "3",
        4 => "4",
        5 => "5",
        6 => "6",
        7 => "7",
        8 => "8",
        _ => "9",
    };
    proof {
        reveal_strlit("0");
        reveal_strlit("1");
        reveal_strlit("2");
        reveal_strlit("3");
        reveal_strlit("4");
        reveal_strlit("5");
        reveal_strlit("6");
        reveal_strlit("7");
        reveal_strlit("8");
        reveal_strlit("9");
        assert(r@ =~= seq![digit_char(d as int)]);
    }
    r
}

/// Render a number in decimal, most significant digit first.
pub fn u64_to_dec(n: u64) -> (r: String)
    ensures
        r@ == dec_digits(n as int),
    decreases n,
{
    if n < 10 {
        digit_str(n).to_owned()
    } else {
        let mut s = u64_to_dec(n / 10);
        s.append(digit_str(n % 10));
        proof {
            assert(s@ =~= dec_digits((n / 10) as int).push(digit_char((n % 10) as int)));
        }
        s
    }
}

/// The decimal representation of a non-negative number consists of digits
/// and is never empty.
pub proof fn lemma_dec_digits_shape(n: int)
    requires
        n >= 0,
    ensures
        all_digits(dec_digits(n)),
        dec_digits(n).len() >= 1,
    decreases n,
{
    if n < 10 {
        assert(is_digit(digit_char(n)));
    } else {
        lemma_dec_digits_shape(n / 10);
        let d = dec_digits(n / 10);
        assert forall|i: int| 0 <= i < dec_digits(n).len() implies is_digit(
            #[trigger] dec_digits(n)[i],
        ) by {
            if i < d.len() {
                assert(dec_digits(n)[i] == d[i]);
            } else {
                assert(dec_digits(n)[i] == digit_char(n % 10));
                assert(is_digit(digit_char(n % 10)));
            }
        }
    }
}

/// The decimal representation reads back to the number it was made from.
pub proof fn lemma_dec_digits_value(n: int)
    requires
        n >= 0,
    ensures
        digits_value(dec_digits(n)) == n,
    decreases n,
{
    if n < 10 {
        let l = dec_digits(n);
        assert(l.drop_last() =~= Seq::<char>::empty());
        assert(digits_value(Seq::<char>::empty()) == 0);
        assert(digit_val(digit_char(n)) == n);
    } else {
        lemma_dec_digits_value(n / 10);
        let d = dec_digits(n / 10);
        let l = dec_digits(n);
        assert(l == d.push(digit_char(n % 10)));
        assert(l.drop_last() =~= d);
        assert(l.last() == digit_char(n % 10));
        assert(digit_val(digit_char(n % 10)) == n % 10);
        assert(digits_value(l) == (n / 10) * 10 + n % 10);
    }
}

/// Parsing inverts token construction: the token built for a user id and a
/// dot-free, non-empty signature placeholder parses back to exactly that
/// user id.
pub proof fn lemma_token_round_trip(id: u64, sig: Seq<char>)
    requires
        sig.len() > 0,
        forall|i: int| 0 <= i < sig.len() ==> sig[i] != '.',
    ensures
        spec_parse_token(spec_make_token(id, sig)) == Some(id),
{
    reveal_strlit("user-");
    reveal_strlit(".");
    reveal_strlit(".sign");
    reveal_strlit("sign");
    let s = spec_make_token(id, sig);
    let d = dec_digits(id as int);
    lemma_dec_digits_shape(id as int);
    lemma_dec_digits_value(id as int);
    let dl = d.len() as int;
    let sl = sig.len() as int;
    assert(s.len() == 11 + dl + sl);
    assert(s.subrange(0, 5) =~= "user-"@);
    // Character regions of the concatenation.
    assert forall|j: int| 5 <= j < 5 + dl implies s[j] == d[j - 5] by {}
    assert(s[5 + dl] == '.');
    assert forall|j: int| 5 + dl + 1 <= j < 6 + dl + sl implies s[j] == sig[j - 6 - dl] by {}
    assert forall|j: int| 6 + dl + sl <= j < s.len() implies s[j] == ".sign"@[j - 6 - dl - sl] by {}
    // The first dot is right after the digit run.
    lemma_find_char_props(s, '.', 5);
    let d1 = find_char(s, '.', 5);
    assert forall|j: int| 5 <= j < 5 + dl implies s[j] != '.' by {
        assert(is_digit(d[j - 5]));
    }
    assert(d1 == 5 + dl);
    // The second dot is right after the signature placeholder.
    lemma_find_char_props(s, '.', d1 + 1);
    let d2 = find_char(s, '.', d1 + 1);
    assert forall|j: int| 5 + dl + 1 <= j < 6 + dl + sl implies s[j] != '.' by {
        assert(s[j] == sig[j - 6 - dl]);
    }
    assert(s[6 + dl + sl] == ".sign"@[0]);
    assert(d2 == 6 + dl + sl);
    assert(s.subrange(5, d1) =~= d);
    assert(s.subrange(d2 + 1, s.len() as int) =~= "sign"@);
    assert(spec_parse_token(s) == Some(id));
}

/// Build the token issued for a user id: `user-<id>.<signature>.sign`.
/// The signature placeholder must be non-empty and free of dots, so that the
/// result is a well-formed credential.
pub fn make_token(user_id: u64, signature: &str) -> (r: String)
    requires
        signature@.len() > 0,
        forall|i: int| 0 <= i < signature@.len() ==> signature@[i] != '.',
    ensures
        r@ == spec_make_token(user_id, signature@),
{
    let mut s = "user-".to_owned();
    s.append(u64_to_dec(user_id).as_str());
    s.append(".");
    s.append(signature);
    s.append(".sign");
    proof {
        assert(s@ =~= spec_make_token(user_id, signature@));
    }
    s
}

} // verus!
