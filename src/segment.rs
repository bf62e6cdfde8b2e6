use vstd::prelude::*;

use crate::error::{Error, Unexpected};

verus! {

/// Query parameter that selects one segment of a sequenced rendition.
pub const SEQ_PARAM: &'static str = "sq";

/// Response header of the first segment that gives the number of segments.
pub const SEGMENT_COUNT_HEADER: &'static str = "Segment-Count";

const DIGITS: &'static str = "0123456789";

pub open spec fn digit_char(d: nat) -> char {
    seq!['0', '1', '2', '3', '4', '5', '6', '7', '8', '9'][d as int]
}

/// The decimal digits of `n`, most significant first, without leading zeros.
pub open spec fn decimal(n: nat) -> Seq<char>
    decreases n,
{
    if n < 10 {
        seq![digit_char(n)]
    } else {
        decimal(n / 10).push(digit_char(n % 10))
    }
}

/// The query that requests segment `sq`: the base query with `sq=<sq>` appended
/// as one more form pair.
pub open spec fn spec_seq_query(base: Seq<char>, sq: nat) -> Seq<char> {
    let pair = SEQ_PARAM@ + seq!['='] + decimal(sq);
    if base.len() == 0 {
        pair
    } else {
        base + seq!['&'] + pair
    }
}

/// Renders `n` in decimal.
pub fn decimal_string(n: u64) -> (r: String)
    ensures
        r@ == decimal(n as nat),
    decreases n,
{
    proof {
        reveal_strlit("0123456789");
        assert(DIGITS@ =~= seq!['0', '1', '2', '3', '4', '5', '6', '7', '8', '9']);
    }
    if n < 10 {
        let d = n as usize;
        String::from_str(DIGITS.substring_char(d, d + 1))
    } else {
        let d = (n % 10) as usize;
        let head = decimal_string(n / 10);
        let r = head.concat(DIGITS.substring_char(d, d + 1));
        proof {
            assert(r@ =~= decimal(n as nat));
        }
        r
    }
}

/// Characters that form encoding leaves unchanged.
pub open spec fn form_plain(c: char) -> bool {
    c == '*' || c == '-' || c == '.' || ('0' <= c && c <= '9') || ('A' <= c && c <= 'Z') || c
        == '_' || ('a' <= c && c <= 'z')
}

pub open spec fn all_form_plain(s: Seq<char>) -> bool {
    forall|i: int| 0 <= i < s.len() ==> form_plain(#[trigger] s[i])
}

/// Relies on url::form_urlencoded::Serializer::append_pair (with `new` and
/// `finish`): a name and a value of characters that form encoding leaves
/// unchanged are appended as `name=value`, after an `&` when the query is not
/// empty.
#[verifier::external_body]
fn append_pair(query: String, name: &str, value: &str) -> (r: String)
    requires
        all_form_plain(name@),
        all_form_plain(value@),
    ensures
        r@ == if query@.len() == 0 {
            name@ + seq!['='] + value@
        } else {
            query@ + seq!['&'] + name@ + seq!['='] + value@
        },
{
    url::form_urlencoded::Serializer::new(query).append_pair(name, value).finish()
}

proof fn lemma_decimal_plain(n: nat)
    ensures
        all_form_plain(decimal(n)),
    decreases n,
{
    if n >= 10 {
        lemma_decimal_plain(n / 10);
        assert(forall|i: int| 0 <= i < decimal(n / 10).len() ==> #[trigger] decimal(n)[i] == decimal(n / 10)[i]);
    }
}

/// Appends the segment selector `sq=<sq>` to a base query.
pub fn seq_query(base: &String, sq: u64) -> (r: String)
    ensures
        r@ == spec_seq_query(base@, sq as nat),
{
    proof {
        reveal_strlit("sq");
        lemma_decimal_plain(sq as nat);
    }
    let digits = decimal_string(sq);
    let r = append_pair(base.clone(), SEQ_PARAM, digits.as_str());
    proof {
        assert(r@ =~= spec_seq_query(base@, sq as nat));
    }
    r
}

pub open spec fn is_digit(b: u8) -> bool {
    48 <= b <= 57
}

/// The number that a string of decimal digit bytes denotes.
pub open spec fn digits_value(s: Seq<u8>) -> nat
    decreases s.len(),
{
    if s.len() == 0 {
        0
    } else {
        digits_value(s.drop_last()) * 10 + (s.last() - 48) as nat
    }
}

/// Bytes that a header value may hold to be read as text: visible ASCII or tab.
pub open spec fn visible_ascii(s: Seq<u8>) -> bool {
    forall|i: int| 0 <= i < s.len() ==> (s[i] == 9 || (32 <= #[trigger] s[i] && s[i] < 127))
}

/// The digits of an unsigned integer literal: an optional leading `+` is dropped.
pub open spec fn unsigned_digits(s: Seq<u8>) -> Seq<u8> {
    if s.len() > 0 && s[0] == 43 {
        s.drop_first()
    } else {
        s
    }
}

/// Whether `s` is the text of an unsigned 64-bit integer.
pub open spec fn is_u64_text(s: Seq<u8>) -> bool {
    let d = unsigned_digits(s);
    &&& d.len() > 0
    &&& forall|i: int| 0 <= i < d.len() ==> is_digit(#[trigger] d[i])
    &&& digits_value(d) <= u64::MAX
}

/// The segment count that the first segment's response header announces.
pub open spec fn spec_segment_count(header: Option<Seq<u8>>) -> Result<u64, Unexpected> {
    match header {
        None => Err(Unexpected::MissingSegmentCount),
        Some(b) => if !visible_ascii(b) {
            Err(Unexpected::SegmentCountNotText)
        } else if !is_u64_text(b) {
            Err(Unexpected::SegmentCountNotInteger)
        } else {
            Ok(digits_value(unsigned_digits(b)) as u64)
        },
    }
}

pub open spec fn header_view(h: Option<Vec<u8>>) -> Option<Seq<u8>> {
    match h {
        Some(v) => Some(v@),
        None => None,
    }
}

proof fn lemma_digits_take(s: Seq<u8>, i: int)
    requires
        0 <= i < s.len(),
    ensures
        digits_value(s.take(i + 1)) == digits_value(s.take(i)) * 10 + (s[i] - 48) as nat,
{
    assert(s.take(i + 1).drop_last() =~= s.take(i));
}

proof fn lemma_digits_grow(s: Seq<u8>, i: int, j: int)
    requires
        0 <= i <= j <= s.len(),
        forall|k: int| 0 <= k < s.len() ==> is_digit(#[trigger] s[k]),
    ensures
        digits_value(s.take(i)) <= digits_value(s.take(j)),
    decreases j - i,
{
    if i < j {
        lemma_digits_grow(s, i, j - 1);
        lemma_digits_take(s, j - 1);
    }
}

proof fn lemma_overflow(d: Seq<u8>, i: int)
    requires
        0 <= i < d.len(),
        digits_value(d.take(i + 1)) > u64::MAX,
    ensures
        !(forall|k: int| 0 <= k < d.len() ==> is_digit(#[trigger] d[k]))
            || digits_value(d) > u64::MAX,
{
    if forall|k: int| 0 <= k < d.len() ==> is_digit(#[trigger] d[k]) {
        lemma_digits_grow(d, i + 1, d.len() as int);
        assert(d.take(d.len() as int) =~= d);
    }
}

fn is_visible_ascii(b: &Vec<u8>) -> (r: bool)
    ensures
        r == visible_ascii(b@),
{
    let mut i: usize = 0;
    while i < b.len()
        invariant
            i <= b@.len(),
            visible_ascii(b@.take(i as int)),
        decreases b@.len() - i,
    {
        let c = b[i];
        if !(c == 9 || (32 <= c && c < 127)) {
            assert(!visible_ascii(b@)) by {
                assert(b@[i as int] == c);
            }
            return false;
        }
        assert(b@.take(i + 1) =~= b@.take(i as int).push(c));
        i += 1;
    }
    assert(b@.take(i as int) =~= b@);
    true
}

fn parse_u64(b: &Vec<u8>) -> (r: Option<u64>)
    ensures
        match r {
            Some(v) => is_u64_text(b@) && v as nat == digits_value(unsigned_digits(b@)),
            None => !is_u64_text(b@),
        },
{
    let start: usize = if b.len() > 0 && b[0] == 43 { 1 } else { 0 };
    let ghost d = unsigned_digits(b@);
    assert(d =~= b@.subrange(start as int, b@.len() as int));
    if start >= b.len() {
        return None;
    }
    let mut acc: u64 = 0;
    let mut i: usize = start;
    while i < b.len()
        invariant
            start <= i <= b@.len(),
            d == b@.subrange(start as int, b@.len() as int),
            d == unsigned_digits(b@),
            forall|k: int| 0 <= k < i - start ==> is_digit(#[trigger] d[k]),
            acc as nat == digits_value(d.take(i - start)),
        decreases b@.len() - i,
    {
        let c = b[i];
        assert(d[i - start] == c);
        if !(48 <= c && c <= 57) {
            assert(!is_digit(d[i - start]));
            return None;
        }
        proof {
            lemma_digits_take(d, i - start);
        }
        match acc.checked_mul(10) {
            Some(m) => match m.checked_add((c - 48) as u64) {
                Some(v) => {
                    acc = v;
                },
                None => {
                    proof {
                        lemma_overflow(d, i - start);
                    }
                    return None;
                },
            },
            None => {
                proof {
                    lemma_overflow(d, i - start);
                }
                return None;
            },
        }
        i += 1;
    }
    assert(d.take(i - start) =~= d);
    Some(acc)
}

/// Reads the number of segments from the `Segment-Count` header value, if any.
pub fn extract_segment_count(header: &Option<Vec<u8>>) -> (r: Result<u64, Error>)
    ensures
        match spec_segment_count(header_view(*header)) {
            Ok(n) => r == Ok::<u64, Error>(n),
            Err(u) => r == Err::<u64, Error>(Error::UnexpectedResponse(u)),
        },
{
    match header {
        None => Err(Error::UnexpectedResponse(Unexpected::MissingSegmentCount)),
        Some(b) => {
            if !is_visible_ascii(b) {
                Err(Error::UnexpectedResponse(Unexpected::SegmentCountNotText))
            } else {
                match parse_u64(b) {
                    Some(n) => Ok(n),
                    None => Err(Error::UnexpectedResponse(Unexpected::SegmentCountNotInteger)),
                }
            }
        },
    }
}

} // verus!
