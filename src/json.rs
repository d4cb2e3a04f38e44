//! JSON values as the library reads them, and the few pieces of JSON text it
//! writes. Parsing and string escaping are serde_json's.
use vstd::prelude::*;

verus! {

#[verifier::external_type_specification]
#[verifier::external_body]
pub struct ExValue(serde_json::Value);

/// A parsed JSON value. A number keeps the text that serde_json prints for
/// it, so an unsigned integer is a run of decimal digits.
pub enum Json {
    Null,
    Bool(bool),
    Number(String),
    Text(String),
    Array(Vec<Json>),
    Object(Vec<(String, Json)>),
}

/// The value that serde_json reads from `b`, or `None` where `b` is not one
/// JSON document.
pub uninterp spec fn parsed_json(b: Seq<u8>) -> Option<Json>;

/// The JSON string literal, quotes and escapes included, that serde_json
/// writes for `s`.
pub uninterp spec fn json_quoted(s: Seq<char>) -> Seq<char>;

/// Relies on serde_json's `Value` enum: moves each variant into the
/// matching one of `Json`, printing numbers with `Number`'s `Display`.
#[verifier::external_body]
fn json_of(v: serde_json::Value) -> Json {
    match v {
        serde_json::Value::Null => Json::Null,
        serde_json::Value::Bool(b) => Json::Bool(b),
        serde_json::Value::Number(n) => Json::Number(n.to_string()),
        serde_json::Value::String(s) => Json::Text(s),
        serde_json::Value::Array(a) => Json::Array(a.into_iter().map(json_of).collect()),
        serde_json::Value::Object(m) => Json::Object(m.into_iter().map(|(k, x)| (k, json_of(x))).collect()),
    }
}

/// Relies on `serde_json::from_slice::<Value>`: the document in `b`, or an
/// error where `b` is not valid JSON.
#[verifier::external_body]
pub(crate) fn parse_json(b: &[u8]) -> (r: Option<Json>)
    ensures
        r == parsed_json(b@),
{
    serde_json::from_slice::<serde_json::Value>(b).ok().map(json_of)
}

/// Relies on serde_json's `Display` for a string `Value`: the escaped,
/// quoted literal.
#[verifier::external_body]
pub(crate) fn quote_json(s: &str) -> (r: String)
    ensures
        r@ == json_quoted(s@),
{
    serde_json::Value::from(s).to_string()
}

pub open spec fn digit_char(d: nat) -> char {
    if d == 0 { '0' }
    else if d == 1 { '1' }
    else if d == 2 { '2' }
    else if d == 3 { '3' }
    else if d == 4 { '4' }
    else if d == 5 { '5' }
    else if d == 6 { '6' }
    else if d == 7 { '7' }
    else if d == 8 { '8' }
    else { '9' }
}

/// The decimal digits of `n`, without leading zeros.
pub open spec fn decimal(n: nat) -> Seq<char>
    decreases n,
{
    if n < 10 {
        seq![digit_char(n)]
    } else {
        decimal(n / 10) + seq![digit_char(n % 10)]
    }
}

/// Relies on serde_json's `Display` for a number `Value`, which prints an
/// unsigned integer in decimal.
#[verifier::external_body]
pub(crate) fn number_json(n: u64) -> (r: String)
    ensures
        r@ == decimal(n as nat),
{
    serde_json::Value::from(n).to_string()
}

pub open spec fn is_digit(c: char) -> bool {
    '0' <= c && c <= '9'
}

/// The number that a run of decimal digits stands for.
pub open spec fn digits_value(t: Seq<char>) -> nat
    decreases t.len(),
{
    if t.len() == 0 {
        0
    } else {
        digits_value(t.drop_last()) * 10 + ((t.last() as u32 - '0' as u32) as nat)
    }
}

/// The unsigned integer that number text `t` denotes, where it is one that
/// fits in 64 bits.
pub open spec fn uint_of_text(t: Seq<char>) -> Option<u64> {
    if t.len() > 0 && (forall|i: int| 0 <= i < t.len() ==> is_digit(#[trigger] t[i]))
        && digits_value(t) <= u64::MAX {
        Some(digits_value(t) as u64)
    } else {
        None
    }
}

/// Reads number text as an unsigned 64-bit integer.
pub fn uint_of_number(t: &String) -> (r: Option<u64>)
    ensures
        r == uint_of_text(t@),
{
    let s = t.as_str();
    let n = s.unicode_len();
    if n == 0 {
        return None;
    }
    let mut acc: u64 = 0;
    let mut i: usize = 0;
    while i < n
        invariant
            n == t@.len(),
            s@ == t@,
            0 <= i <= n,
            forall|k: int| 0 <= k < i ==> is_digit(#[trigger] t@[k]),
            acc as nat == digits_value(t@.subrange(0, i as int)),
        decreases n - i,
    {
        let c = s.get_char(i);
        if !('0' <= c && c <= '9') {
            assert(!is_digit(t@[i as int]));
            return None;
        }
        let d: u64 = (c as u32 - '0' as u32) as u64;
        let ghost prefix = t@.subrange(0, i as int + 1);
        assert(prefix.drop_last() =~= t@.subrange(0, i as int));
        assert(digits_value(prefix) == digits_value(t@.subrange(0, i as int)) * 10 + d);
        if acc > 1844674407370955161 || (acc == 1844674407370955161 && d > 5) {
            proof {
                lemma_digits_grow(t@, i as int + 1, n as int);
            }
            return None;
        }
        acc = acc * 10 + d;
        i = i + 1;
    }
    assert(t@.subrange(0, n as int) =~= t@);
    Some(acc)
}

/// A longer run of digits never stands for a smaller number.
proof fn lemma_digits_grow(t: Seq<char>, i: int, n: int)
    requires
        0 <= i <= n,
        n == t.len(),
    ensures
        digits_value(t.subrange(0, i)) <= digits_value(t),
    decreases n - i,
{
    if i < n {
        lemma_digits_grow(t, i + 1, n);
        let p = t.subrange(0, i + 1);
        assert(p.drop_last() =~= t.subrange(0, i));
    } else {
        assert(t.subrange(0, n) =~= t);
    }
}

/// Reading the decimal text of `n` gives `n` back.
pub(crate) proof fn lemma_uint_of_decimal(n: nat)
    requires
        n <= u64::MAX,
    ensures
        uint_of_text(decimal(n)) == Some(n as u64),
{
    lemma_decimal_digits(n);
}

proof fn lemma_decimal_digits(n: nat)
    ensures
        decimal(n).len() > 0,
        forall|i: int| 0 <= i < decimal(n).len() ==> is_digit(#[trigger] decimal(n)[i]),
        digits_value(decimal(n)) == n,
    decreases n,
{
    let d = n % 10;
    assert((digit_char(d) as u32 - '0' as u32) as nat == d && is_digit(digit_char(d)));
    if n >= 10 {
        lemma_decimal_digits(n / 10);
        let t = decimal(n);
        assert(t.drop_last() =~= decimal(n / 10));
        assert(t.last() == digit_char(d));
        assert(digits_value(t) == (n / 10) * 10 + d);
        assert forall|i: int| 0 <= i < t.len() implies is_digit(#[trigger] t[i]) by {
            if i < t.len() - 1 {
                assert(t[i] == decimal(n / 10)[i]);
            }
        }
    } else {
        let t = decimal(n);
        assert(t.drop_last() =~= Seq::<char>::empty());
        assert(t.last() == digit_char(d));
        assert(digits_value(t) == digits_value(Seq::<char>::empty()) * 10 + d);
    }
}

} // verus!
