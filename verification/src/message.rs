use vstd::prelude::*;
use vstd::string::StrSliceExecFns;

verus! {

/// The notification payload accepted by the dispatcher is the one-action
/// message `{"action":{"amount":N}}`: an object with the single key
/// `action`, whose value is an object with the single key `amount`, whose
/// value is an unsigned decimal integer without leading zeros that fits in
/// 128 bits. Whitespace (space, tab, line feed, carriage return) is allowed
/// between tokens; anything else, including unknown keys, fails the parse.
pub open spec fn spec_parse_message(s: Seq<char>) -> Option<u128> {
    let i0 = skip_ws(s, 0);
    if !(i0 < s.len() && s[i0] == '{') {
        None
    } else {
        let i1 = skip_ws(s, i0 + 1);
        if !match_lit(s, i1, action_key()) {
            None
        } else {
            let i2 = skip_ws(s, i1 + action_key().len());
            if !(i2 < s.len() && s[i2] == ':') {
                None
            } else {
                let i3 = skip_ws(s, i2 + 1);
                if !(i3 < s.len() && s[i3] == '{') {
                    None
                } else {
                    let i4 = skip_ws(s, i3 + 1);
                    if !match_lit(s, i4, amount_key()) {
                        None
                    } else {
                        let i5 = skip_ws(s, i4 + amount_key().len());
                        if !(i5 < s.len() && s[i5] == ':') {
                            None
                        } else {
                            let i6 = skip_ws(s, i5 + 1);
                            let e = digits_end(s, i6);
                            if !(i6 < e && (s[i6] != '0' || e == i6 + 1) && digits_value(s, i6, e)
                                <= u128::MAX) {
                                None
                            } else {
                                let i7 = skip_ws(s, e);
                                if !(i7 < s.len() && s[i7] == '}') {
                                    None
                                } else {
                                    let i8 = skip_ws(s, i7 + 1);
                                    if !(i8 < s.len() && s[i8] == '}') {
                                        None
                                    } else {
                                        let i9 = skip_ws(s, i8 + 1);
                                        if i9 == s.len() {
                                            Some(digits_value(s, i6, e) as u128)
                                        } else {
                                            None
                                        }
                                    }
                                }
                            }
                        }
                    }
                }
            }
        }
    }
}

/// The quoted key that introduces the action object.
pub open spec fn action_key() -> Seq<char> {
    "\"action\""@
}

/// The quoted key that introduces the amount field.
pub open spec fn amount_key() -> Seq<char> {
    "\"amount\""@
}

/// JSON inter-token whitespace.
pub open spec fn is_json_ws(c: char) -> bool {
    c == ' ' || c == '\t' || c == '\n' || c == '\r'
}

/// The first index at or after `i` that does not hold whitespace.
pub open spec fn skip_ws(s: Seq<char>, i: int) -> int
    decreases s.len() - i,
{
    if 0 <= i && i < s.len() && is_json_ws(s[i]) {
        skip_ws(s, i + 1)
    } else {
        i
    }
}

/// The literal `lit` occurs in `s` at position `i`.
pub open spec fn match_lit(s: Seq<char>, i: int, lit: Seq<char>) -> bool {
    &&& 0 <= i
    &&& i + lit.len() <= s.len()
    &&& forall|j: int| 0 <= j < lit.len() ==> s[i + j] == lit[j]
}

/// A decimal digit.
pub open spec fn is_dec_digit(c: char) -> bool {
    ('0' as u32) <= (c as u32) && (c as u32) <= ('9' as u32)
}

/// The numeric value of a decimal digit.
pub open spec fn digit_val(c: char) -> int {
    (c as u32) - ('0' as u32)
}

/// The first index at or after `i` that does not hold a decimal digit.
pub open spec fn digits_end(s: Seq<char>, i: int) -> int
    decreases s.len() - i,
{
    if 0 <= i && i < s.len() && is_dec_digit(s[i]) {
        digits_end(s, i + 1)
    } else {
        i
    }
}

/// The value of the decimal digits `s[i .. j)`.
pub open spec fn digits_value(s: Seq<char>, i: int, j: int) -> int
    decreases j - i,
{
    if i < j {
        digits_value(s, i, j - 1) * 10 + digit_val(s[j - 1])
    } else {
        0
    }
}

proof fn lemma_digits_end_bounds(s: Seq<char>, i: int)
    requires
        0 <= i <= s.len(),
    ensures
        i <= digits_end(s, i) <= s.len(),
        forall|m: int| i <= m < digits_end(s, i) ==> is_dec_digit(s[m]),
    decreases s.len() - i,
{
    if i < s.len() && is_dec_digit(s[i]) {
        lemma_digits_end_bounds(s, i + 1);
    }
}

proof fn lemma_digits_value_nonneg(s: Seq<char>, i: int, j: int)
    requires
        forall|m: int| i <= m < j ==> is_dec_digit(s[m]),
    ensures
        digits_value(s, i, j) >= 0,
    decreases j - i,
{
    if i < j {
        lemma_digits_value_nonneg(s, i, j - 1);
        assert(is_dec_digit(s[j - 1]));
    }
}

proof fn lemma_digits_value_mono(s: Seq<char>, i: int, j: int, k: int)
    requires
        i <= j <= k,
        forall|m: int| i <= m < k ==> is_dec_digit(s[m]),
    ensures
        digits_value(s, i, k) >= digits_value(s, i, j),
    decreases k - j,
{
    if j < k {
        lemma_digits_value_mono(s, i, j, k - 1);
        lemma_digits_value_nonneg(s, i, k - 1);
        assert(is_dec_digit(s[k - 1]));
    }
}

fn is_json_ws_exec(c: char) -> (r: bool)
    ensures
        r == is_json_ws(c),
{
    c == ' ' || c == '\t' || c == '\n' || c == '\r'
}

fn is_dec_digit_exec(c: char) -> (r: bool)
    ensures
        r == is_dec_digit(c),
{
    let u = c as u32;
    ('0' as u32) <= u && u <= ('9' as u32)
}

fn chars_of(s: &str) -> (v: Vec<char>)
    ensures
        v@ == s@,
{
    let n = s.unicode_len();
    let mut v: Vec<char> = Vec::new();
    let mut i: usize = 0;
    while i < n
        invariant
            i <= n,
            n == s@.len(),
            v@.len() == i,
            forall|j: int| 0 <= j < i ==> v@[j] == s@[j],
        decreases n - i,
    {
        v.push(s.get_char(i));
        i += 1;
    }
    assert(v@ =~= s@);
    v
}

fn skip_ws_at(v: &Vec<char>, i: usize) -> (r: usize)
    requires
        i <= v@.len(),
    ensures
        i <= r <= v@.len(),
        r == skip_ws(v@, i as int),
{
    let mut j = i;
    while j < v.len() && is_json_ws_exec(v[j])
        invariant
            i <= j <= v@.len(),
            skip_ws(v@, j as int) == skip_ws(v@, i as int),
        decreases v@.len() - j,
    {
        assert(skip_ws(v@, j as int) == skip_ws(v@, j + 1));
        j += 1;
    }
    assert(skip_ws(v@, j as int) == j);
    j
}

fn match_key(v: &Vec<char>, i: usize, key: &str) -> (r: bool)
    requires
        i <= v@.len(),
    ensures
        r == match_lit(v@, i as int, key@),
{
    let n = key.unicode_len();
    if n > v.len() - i {
        return false;
    }
    let mut j: usize = 0;
    while j < n
        invariant
            j <= n,
            i + n <= v@.len(),
            i + n <= usize::MAX,
            n == key@.len(),
            forall|k: int| 0 <= k < j ==> v@[i + k] == key@[k],
        decreases n - j,
    {
        if v[i + j] != key.get_char(j) {
            assert(v@[i + j] != key@[j as int]);
            return false;
        }
        j += 1;
    }
    true
}

fn parse_digits(v: &Vec<char>, i: usize) -> (r: Option<(u128, usize)>)
    requires
        i <= v@.len(),
    ensures
        ({
            let e = digits_end(v@, i as int);
            match r {
                Some(p) => i < e <= v@.len() && p.1 == e && (v@[i as int] != '0' || e == i + 1)
                    && digits_value(v@, i as int, e) == p.0,
                None => !(i < e && (v@[i as int] != '0' || e == i + 1) && digits_value(
                    v@,
                    i as int,
                    e,
                ) <= u128::MAX),
            }
        }),
{
    proof {
        lemma_digits_end_bounds(v@, i as int);
    }
    let mut j = i;
    let mut acc: u128 = 0;
    while j < v.len() && is_dec_digit_exec(v[j])
        invariant
            i <= j <= v@.len(),
            digits_end(v@, j as int) == digits_end(v@, i as int),
            forall|m: int| i <= m < j ==> is_dec_digit(v@[m]),
            acc == digits_value(v@, i as int, j as int),
        decreases v@.len() - j,
    {
        assert(digits_end(v@, j as int) == digits_end(v@, j + 1));
        let d: u32 = (v[j] as u32) - ('0' as u32);
        let widened = match acc.checked_mul(10) {
            Some(w) => w,
            None => {
                proof {
                    lemma_overflow_means_reject(v@, i as int, j as int, digits_end(v@, i as int));
                }
                return None;
            },
        };
        let grown = match widened.checked_add(d as u128) {
            Some(g) => g,
            None => {
                proof {
                    lemma_overflow_means_reject(v@, i as int, j as int, digits_end(v@, i as int));
                }
                return None;
            },
        };
        acc = grown;
        j += 1;
        assert(acc == digits_value(v@, i as int, j as int));
    }
    assert(digits_end(v@, j as int) == j);
    if j == i {
        return None;
    }
    if v[i] == '0' && j > i + 1 {
        return None;
    }
    Some((acc, j))
}

/// When the accumulated value of the digits read so far no longer fits in
/// 128 bits, the value of the whole digit run does not either.
proof fn lemma_overflow_means_reject(s: Seq<char>, i: int, j: int, e: int)
    requires
        0 <= i <= j < s.len(),
        is_dec_digit(s[j]),
        forall|m: int| i <= m < j ==> is_dec_digit(s[m]),
        e == digits_end(s, i),
        digits_end(s, j) == e,
        digits_value(s, i, j) * 10 + digit_val(s[j]) > u128::MAX,
    ensures
        digits_value(s, i, e) > u128::MAX,
{
    assert(digits_end(s, j) == digits_end(s, j + 1));
    lemma_digits_end_bounds(s, j + 1);
    assert(e >= j + 1);
    assert(forall|m: int| i <= m < e ==> is_dec_digit(s[m])) by {
        lemma_digits_end_bounds(s, j + 1);
    }
    assert(digits_value(s, i, j + 1) == digits_value(s, i, j) * 10 + digit_val(s[j]));
    lemma_digits_value_mono(s, i, j + 1, e);
}

/// Parses a notification payload; returns the declared amount exactly when
/// the payload is a well-formed action message (see `spec_parse_message`).
pub fn parse_message(msg: &str) -> (r: Option<u128>)
    ensures
        r == spec_parse_message(msg@),
{
    let v = chars_of(msg);
    let n = v.len();
    let i0 = skip_ws_at(&v, 0);
    if !(i0 < n && v[i0] == '{') {
        return None;
    }
    let i1 = skip_ws_at(&v, i0 + 1);
    if !match_key(&v, i1, "\"action\"") {
        return None;
    }
    let klen = "\"action\"".unicode_len();
    let i2 = skip_ws_at(&v, i1 + klen);
    if !(i2 < n && v[i2] == ':') {
        return None;
    }
    let i3 = skip_ws_at(&v, i2 + 1);
    if !(i3 < n && v[i3] == '{') {
        return None;
    }
    let i4 = skip_ws_at(&v, i3 + 1);
    if !match_key(&v, i4, "\"amount\"") {
        return None;
    }
    let alen = "\"amount\"".unicode_len();
    let i5 = skip_ws_at(&v, i4 + alen);
    if !(i5 < n && v[i5] == ':') {
        return None;
    }
    let i6 = skip_ws_at(&v, i5 + 1);
    let parsed = match parse_digits(&v, i6) {
        Some(p) => p,
        None => {
            return None;
        },
    };
    let i7 = skip_ws_at(&v, parsed.1);
    if !(i7 < n && v[i7] == '}') {
        return None;
    }
    let i8 = skip_ws_at(&v, i7 + 1);
    if !(i8 < n && v[i8] == '}') {
        return None;
    }
    let i9 = skip_ws_at(&v, i8 + 1);
    if i9 != n {
        return None;
    }
    Some(parsed.0)
}

} // verus!
