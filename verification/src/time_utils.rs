//! Timestamps: the stored UTC form `YYYY-MM-DDTHH:MM:SS.mmmZ`, its parsing, and the local
//! display form.

use vstd::prelude::*;

use crate::text::{append_str, decimal_text, digit_char, string_from_chars};
use vstd::utf8::{encode_utf8, is_ascii_chars, is_ascii_chars_encode_utf8};

verus! {

/// The calendar and clock fields of a point in time.
#[derive(Clone, Copy, Debug, PartialEq, Eq, Default, Structural)]
pub struct TimeFields {
    pub year: u16,
    pub month: u16,
    pub day: u16,
    pub hour: u16,
    pub minute: u16,
    pub second: u16,
    pub milliseconds: u16,
}

pub open spec fn is_digit_byte(b: u8) -> bool {
    48 <= b <= 57
}

/// How many digits `bytes` starts with.
pub open spec fn leading_digit_count(bytes: Seq<u8>) -> nat
    decreases bytes.len(),
{
    if bytes.len() > 0 && is_digit_byte(bytes[0]) {
        1 + leading_digit_count(bytes.drop_first())
    } else {
        0
    }
}

/// The number written by the ASCII digits `bytes`.
pub open spec fn byte_decimal(bytes: Seq<u8>) -> nat
    decreases bytes.len(),
{
    if bytes.len() == 0 {
        0
    } else {
        byte_decimal(bytes.drop_last()) * 10 + (bytes.last() - 48) as nat
    }
}

/// The decimal value of `value` when it is all ASCII digits.
pub open spec fn spec_parse_decimal(value: Seq<u8>) -> Option<u16> {
    if forall|i: int| 0 <= i < value.len() ==> is_digit_byte(#[trigger] value[i]) {
        Some(byte_decimal(value) as u16)
    } else {
        None
    }
}

proof fn lemma_leading_digits(bytes: Seq<u8>, i: int)
    requires
        0 <= i <= bytes.len(),
        forall|k: int| 0 <= k < i ==> is_digit_byte(#[trigger] bytes[k]),
    ensures
        leading_digit_count(bytes) >= i,
    decreases i,
{
    if i > 0 {
        let t = bytes.drop_first();
        assert forall|k: int| 0 <= k < i - 1 implies is_digit_byte(#[trigger] t[k]) by {
            assert(t[k] == bytes[k + 1]);
        }
        lemma_leading_digits(t, i - 1);
    }
}

proof fn lemma_byte_decimal_grows(bytes: Seq<u8>, i: int, j: int)
    requires
        0 <= i <= j <= bytes.len(),
        forall|k: int| 0 <= k < j ==> is_digit_byte(#[trigger] bytes[k]),
    ensures
        byte_decimal(bytes.take(i)) <= byte_decimal(bytes.take(j)),
    decreases j - i,
{
    if i < j {
        lemma_byte_decimal_grows(bytes, i, j - 1);
        assert(bytes.take(j).drop_last() =~= bytes.take(j - 1));
    }
}

/// Reads ASCII digits as a decimal number; `None` at the first byte that is not a digit.
pub fn parse_decimal(value: &[u8]) -> (r: Option<u16>)
    requires
        byte_decimal(value@.take(leading_digit_count(value@) as int)) <= 65535,
    ensures
        r == spec_parse_decimal(value@),
{
    let mut result: u16 = 0;
    for i in 0..value.len()
        invariant
            byte_decimal(value@.take(leading_digit_count(value@) as int)) <= 65535,
            forall|k: int| 0 <= k < i ==> is_digit_byte(#[trigger] value@[k]),
            result == byte_decimal(value@.take(i as int)),
    {
        let b = value[i];
        if !(48 <= b && b <= 57) {
            assert(!is_digit_byte(value@[i as int]));
            return None;
        }
        proof {
            lemma_leading_digits(value@, i + 1);
            lemma_digit_prefix_bounded(value@, i + 1);
            assert(value@.take(i + 1).drop_last() =~= value@.take(i as int));
        }
        result = result * 10 + (b - 48) as u16;
    }
    assert(value@.take(value.len() as int) =~= value@);
    Some(result)
}

proof fn lemma_digit_prefix_bounded(bytes: Seq<u8>, i: int)
    requires
        0 <= i <= leading_digit_count(bytes),
        i <= bytes.len(),
        forall|k: int| 0 <= k < i ==> is_digit_byte(#[trigger] bytes[k]),
        byte_decimal(bytes.take(leading_digit_count(bytes) as int)) <= 65535,
    ensures
        byte_decimal(bytes.take(i)) <= 65535,
{
    lemma_leading_count_digits(bytes);
    lemma_leading_count_bound(bytes);
    lemma_byte_decimal_grows(bytes, i, leading_digit_count(bytes) as int);
}

proof fn lemma_leading_count_bound(bytes: Seq<u8>)
    ensures
        leading_digit_count(bytes) <= bytes.len(),
    decreases bytes.len(),
{
    if bytes.len() > 0 && is_digit_byte(bytes[0]) {
        lemma_leading_count_bound(bytes.drop_first());
    }
}

proof fn lemma_leading_count_digits(bytes: Seq<u8>)
    ensures
        forall|k: int| 0 <= k < leading_digit_count(bytes) ==> is_digit_byte(#[trigger] bytes[k]),
    decreases bytes.len(),
{
    if bytes.len() > 0 && is_digit_byte(bytes[0]) {
        let t = bytes.drop_first();
        lemma_leading_count_digits(t);
        lemma_leading_count_bound(bytes);
        assert forall|k: int| 0 <= k < leading_digit_count(bytes) implies is_digit_byte(
            #[trigger] bytes[k],
        ) by {
            if k > 0 {
                assert(bytes[k] == t[k - 1]);
            }
        }
    }
}

/// The fields of a stored `YYYY-MM-DDTHH:MM:SS...` timestamp (milliseconds are not read).
pub open spec fn spec_parse_utc_time(b: Seq<u8>) -> Option<TimeFields> {
    if b.len() < 19 || b[4] != 45 || b[7] != 45 || b[10] != 84 || b[13] != 58 || b[16] != 58 {
        None
    } else {
        match (
            spec_parse_decimal(b.subrange(0, 4)),
            spec_parse_decimal(b.subrange(5, 7)),
            spec_parse_decimal(b.subrange(8, 10)),
            spec_parse_decimal(b.subrange(11, 13)),
            spec_parse_decimal(b.subrange(14, 16)),
            spec_parse_decimal(b.subrange(17, 19)),
        ) {
            (Some(year), Some(month), Some(day), Some(hour), Some(minute), Some(second)) => Some(
                TimeFields { year, month, day, hour, minute, second, milliseconds: 0 },
            ),
            _ => None,
        }
    }
}

proof fn lemma_short_field_fits(bytes: Seq<u8>)
    requires
        bytes.len() <= 4,
    ensures
        byte_decimal(bytes.take(leading_digit_count(bytes) as int)) <= 65535,
{
    lemma_leading_count_bound(bytes);
    lemma_leading_count_digits(bytes);
    let n = leading_digit_count(bytes) as int;
    let p = bytes.take(n);
    assert forall|k: int| 0 <= k < p.len() implies is_digit_byte(#[trigger] p[k]) by {
        assert(p[k] == bytes[k]);
    }
    lemma_digits_below_power(p);
}

proof fn lemma_digits_below_power(p: Seq<u8>)
    requires
        p.len() <= 4,
        forall|k: int| 0 <= k < p.len() ==> is_digit_byte(#[trigger] p[k]),
    ensures
        byte_decimal(p) <= 9999,
        p.len() <= 3 ==> byte_decimal(p) <= 999,
        p.len() <= 2 ==> byte_decimal(p) <= 99,
        p.len() <= 1 ==> byte_decimal(p) <= 9,
        p.len() == 0 ==> byte_decimal(p) == 0,
    decreases p.len(),
{
    if p.len() > 0 {
        let q = p.drop_last();
        assert forall|k: int| 0 <= k < q.len() implies is_digit_byte(#[trigger] q[k]) by {
            assert(q[k] == p[k]);
        }
        lemma_digits_below_power(q);
        assert(is_digit_byte(p[p.len() - 1]));
    }
}

fn field(bytes: &[u8], lo: usize, hi: usize) -> (r: Option<u16>)
    requires
        lo <= hi <= bytes@.len(),
        hi - lo <= 4,
    ensures
        r == spec_parse_decimal(bytes@.subrange(lo as int, hi as int)),
{
    let mut part: Vec<u8> = Vec::new();
    let mut k: usize = lo;
    while k < hi
        invariant
            lo <= k <= hi,
            hi <= bytes@.len(),
            part@ =~= bytes@.subrange(lo as int, k as int),
        decreases hi - k,
    {
        part.push(bytes[k]);
        k = k + 1;
    }
    proof {
        lemma_short_field_fits(part@);
    }
    parse_decimal(part.as_slice())
}

pub fn parse_utc_system_time(value: &str) -> (r: Option<TimeFields>)
    ensures
        r == spec_parse_utc_time(vstd::utf8::encode_utf8(value@)),
{
    let b = value.as_bytes();
    if b.len() < 19 || b[4] != 45 || b[7] != 45 || b[10] != 84 || b[13] != 58 || b[16] != 58 {
        return None;
    }
    let year = match field(b, 0, 4) {
        Some(v) => v,
        None => return None,
    };
    let month = match field(b, 5, 7) {
        Some(v) => v,
        None => return None,
    };
    let day = match field(b, 8, 10) {
        Some(v) => v,
        None => return None,
    };
    let hour = match field(b, 11, 13) {
        Some(v) => v,
        None => return None,
    };
    let minute = match field(b, 14, 16) {
        Some(v) => v,
        None => return None,
    };
    let second = match field(b, 17, 19) {
        Some(v) => v,
        None => return None,
    };
    Some(TimeFields { year, month, day, hour, minute, second, milliseconds: 0 })
}

/// The decimal numeral of `n`, padded with zeros on the left to at least `width` digits.
pub open spec fn padded(n: nat, width: nat) -> Seq<char> {
    let d = decimal_text(n);
    if d.len() < width {
        Seq::new((width - d.len()) as nat, |i: int| '0') + d
    } else {
        d
    }
}

fn push_padded(out: &mut Vec<char>, n: u16, width: usize)
    requires
        width <= 4,
    ensures
        final(out)@ == old(out)@ + padded(n as nat, width as nat),
{
    let mut digits: Vec<char> = Vec::new();
    crate::text::push_decimal(&mut digits, n as u32);
    assert(digits@ =~= decimal_text(n as nat));
    let mut pad: Vec<char> = Vec::new();
    if digits.len() < width {
        let count = width - digits.len();
        let mut i: usize = 0;
        while i < count
            invariant
                i <= count,
                pad@ =~= Seq::new(i as nat, |k: int| '0'),
            decreases count - i,
        {
            pad.push('0');
            i = i + 1;
        }
    }
    crate::text::append_chars(out, &pad);
    crate::text::append_chars(out, &digits);
    proof {
        if digits.len() < width {
            assert(old(out)@ + pad@ + digits@ =~= old(out)@ + padded(n as nat, width as nat));
        } else {
            assert(pad@ =~= Seq::<char>::empty());
            assert(old(out)@ + pad@ + digits@ =~= old(out)@ + padded(n as nat, width as nat));
        }
    }
}

/// `YYYY-MM-DDTHH:MM:SS.mmmZ`.
pub open spec fn spec_utc_text(t: TimeFields) -> Seq<char> {
    padded(t.year as nat, 4) + "-"@ + padded(t.month as nat, 2) + "-"@ + padded(t.day as nat, 2)
        + "T"@ + padded(t.hour as nat, 2) + ":"@ + padded(t.minute as nat, 2) + ":"@ + padded(
        t.second as nat,
        2,
    ) + "."@ + padded(t.milliseconds as nat, 3) + "Z"@
}

/// `YYYY-MM-DD HH:MM:SS`.
pub open spec fn spec_local_text(t: TimeFields) -> Seq<char> {
    padded(t.year as nat, 4) + "-"@ + padded(t.month as nat, 2) + "-"@ + padded(t.day as nat, 2)
        + " "@ + padded(t.hour as nat, 2) + ":"@ + padded(t.minute as nat, 2) + ":"@ + padded(
        t.second as nat,
        2,
    )
}

pub fn format_utc_rfc3339(t: TimeFields) -> (r: String)
    ensures
        r@ == spec_utc_text(t),
{
    let mut out: Vec<char> = Vec::new();
    push_padded(&mut out, t.year, 4);
    append_str(&mut out, "-");
    push_padded(&mut out, t.month, 2);
    append_str(&mut out, "-");
    push_padded(&mut out, t.day, 2);
    append_str(&mut out, "T");
    push_padded(&mut out, t.hour, 2);
    append_str(&mut out, ":");
    push_padded(&mut out, t.minute, 2);
    append_str(&mut out, ":");
    push_padded(&mut out, t.second, 2);
    append_str(&mut out, ".");
    push_padded(&mut out, t.milliseconds, 3);
    append_str(&mut out, "Z");
    assert(out@ =~= spec_utc_text(t));
    string_from_chars(&out)
}

pub fn format_local_time(t: TimeFields) -> (r: String)
    ensures
        r@ == spec_local_text(t),
{
    let mut out: Vec<char> = Vec::new();
    push_padded(&mut out, t.year, 4);
    append_str(&mut out, "-");
    push_padded(&mut out, t.month, 2);
    append_str(&mut out, "-");
    push_padded(&mut out, t.day, 2);
    append_str(&mut out, " ");
    push_padded(&mut out, t.hour, 2);
    append_str(&mut out, ":");
    push_padded(&mut out, t.minute, 2);
    append_str(&mut out, ":");
    push_padded(&mut out, t.second, 2);
    assert(out@ =~= spec_local_text(t));
    string_from_chars(&out)
}

/// The text shown for the last login: "暂无" without one, the local time when the stored value
/// could be read and converted (`local`), and the stored text otherwise.
pub fn display_local_time(value: Option<&str>, local: Option<TimeFields>) -> (r: String)
    ensures
        match value {
            None => r@ == "暂无"@,
            Some(v) => match local {
                Some(t) => r@ == spec_local_text(t),
                None => r@ == v@,
            },
        },
{
    match value {
        None => "暂无".to_owned(),
        Some(v) => match local {
            Some(t) => format_local_time(t),
            None => v.to_owned(),
        },
    }
}

/// The bytes of a text whose characters are all ASCII.
pub open spec fn ascii_bytes(s: Seq<char>) -> Seq<u8> {
    s.map_values(|c: char| c as u8)
}

/// Every character is a decimal digit.
pub open spec fn is_digit_text(s: Seq<char>) -> bool {
    forall|i: int| 0 <= i < s.len() ==> '0' <= #[trigger] s[i] <= '9'
}

proof fn lemma_digit_char(d: nat)
    requires
        d < 10,
    ensures
        '0' <= digit_char(d) <= '9',
        digit_char(d) as u8 == d + 48,
{
}

proof fn lemma_decimal_text(n: nat)
    ensures
        decimal_text(n).len() >= 1,
        is_digit_text(decimal_text(n)),
        byte_decimal(ascii_bytes(decimal_text(n))) == n,
        n < 10 ==> decimal_text(n).len() == 1,
        n < 100 ==> decimal_text(n).len() <= 2,
        n < 1000 ==> decimal_text(n).len() <= 3,
        n < 10000 ==> decimal_text(n).len() <= 4,
    decreases n,
{
    let d = decimal_text(n);
    if n < 10 {
        lemma_digit_char(n);
        assert(ascii_bytes(d).drop_last() =~= Seq::<u8>::empty());
        assert(byte_decimal(Seq::<u8>::empty()) == 0);
        assert(ascii_bytes(d).last() == digit_char(n) as u8);
    } else {
        lemma_decimal_text(n / 10);
        lemma_digit_char(n % 10);
        let p = decimal_text(n / 10);
        assert(d == p.push(digit_char(n % 10)));
        assert(ascii_bytes(d).drop_last() =~= ascii_bytes(p));
        assert(ascii_bytes(d).last() == digit_char(n % 10) as u8);
        assert(byte_decimal(ascii_bytes(d)) == (n / 10) * 10 + n % 10);
        assert forall|i: int| 0 <= i < d.len() implies '0' <= #[trigger] d[i] <= '9' by {
            if i < p.len() {
                assert(d[i] == p[i]);
            }
        }
    }
}

proof fn lemma_zeros_value(k: nat)
    ensures
        byte_decimal(ascii_bytes(Seq::new(k, |i: int| '0'))) == 0,
    decreases k,
{
    if k > 0 {
        lemma_zeros_value((k - 1) as nat);
        assert(ascii_bytes(Seq::new(k, |i: int| '0')).drop_last() =~= ascii_bytes(
            Seq::new((k - 1) as nat, |i: int| '0'),
        ));
    }
}

proof fn lemma_leading_zeros_value(k: nat, d: Seq<char>)
    ensures
        byte_decimal(ascii_bytes(Seq::new(k, |i: int| '0') + d)) == byte_decimal(ascii_bytes(d)),
    decreases d.len(),
{
    let z = Seq::new(k, |i: int| '0');
    if d.len() == 0 {
        assert(z + d =~= z);
        lemma_zeros_value(k);
    } else {
        lemma_leading_zeros_value(k, d.drop_last());
        assert(ascii_bytes(z + d).drop_last() =~= ascii_bytes(z + d.drop_last()));
        assert(ascii_bytes(d).drop_last() =~= ascii_bytes(d.drop_last()));
    }
}

proof fn lemma_padded(n: nat, w: nat)
    ensures
        is_digit_text(padded(n, w)),
        decimal_text(n).len() <= w ==> padded(n, w).len() == w,
        byte_decimal(ascii_bytes(padded(n, w))) == n,
{
    lemma_decimal_text(n);
    let d = decimal_text(n);
    if d.len() < w {
        let k = (w - d.len()) as nat;
        let z = Seq::new(k, |i: int| '0');
        lemma_leading_zeros_value(k, d);
        assert forall|i: int| 0 <= i < (z + d).len() implies '0' <= #[trigger] (z + d)[i] <= '9' by {
            if i >= k {
                assert((z + d)[i] == d[i - k]);
            }
        }
    }
}

proof fn lemma_digits_are_ascii(s: Seq<char>)
    requires
        is_digit_text(s),
    ensures
        is_ascii_chars(s),
{
    assert forall|i: int| 0 <= i < s.len() implies '\0' <= #[trigger] s[i] <= '\u{7f}' by {
        assert('0' <= s[i] <= '9');
    }
}

proof fn lemma_ascii_concat(a: Seq<char>, b: Seq<char>)
    requires
        is_ascii_chars(a),
        is_ascii_chars(b),
    ensures
        is_ascii_chars(a + b),
{
    assert forall|i: int| 0 <= i < (a + b).len() implies '\0' <= #[trigger] (a + b)[i] <= '\u{7f}' by {
        if i < a.len() {
            assert((a + b)[i] == a[i]);
        } else {
            assert((a + b)[i] == b[i - a.len()]);
        }
    }
}

/// A field of width `w` at position `a` that holds the padded numeral of `n` reads back as `n`.
proof fn lemma_field_reads_back(text: Seq<char>, a: int, n: nat, w: nat)
    requires
        0 <= a,
        a + w <= text.len(),
        decimal_text(n).len() <= w,
        n <= 65535,
        text.subrange(a, a + w) == padded(n, w),
    ensures
        spec_parse_decimal(ascii_bytes(text).subrange(a, a + w)) == Some(n as u16),
{
    lemma_padded(n, w);
    let p = padded(n, w);
    let bytes = ascii_bytes(text).subrange(a, a + w as int);
    assert(bytes =~= ascii_bytes(p));
    assert forall|k: int| 0 <= k < bytes.len() implies is_digit_byte(#[trigger] bytes[k]) by {
        assert('0' <= p[k] <= '9');
        assert(bytes[k] == p[k] as u8);
    }
}

/// A timestamp written in the stored form reads back with the same date and clock fields
/// (the milliseconds are not read), for every year of four digits and every other field of
/// two.
pub proof fn law_stored_timestamp_reads_back(t: TimeFields)
    requires
        t.year <= 9999,
        t.month <= 99,
        t.day <= 99,
        t.hour <= 99,
        t.minute <= 99,
        t.second <= 99,
    ensures
        spec_parse_utc_time(encode_utf8(spec_utc_text(t))) == Some(
            TimeFields {
                year: t.year,
                month: t.month,
                day: t.day,
                hour: t.hour,
                minute: t.minute,
                second: t.second,
                milliseconds: 0,
            },
        ),
{
    reveal_strlit("-");
    reveal_strlit("T");
    reveal_strlit(":");
    reveal_strlit(".");
    reveal_strlit("Z");
    lemma_decimal_text(t.year as nat);
    lemma_decimal_text(t.month as nat);
    lemma_decimal_text(t.day as nat);
    lemma_decimal_text(t.hour as nat);
    lemma_decimal_text(t.minute as nat);
    lemma_decimal_text(t.second as nat);
    lemma_padded(t.year as nat, 4);
    lemma_padded(t.month as nat, 2);
    lemma_padded(t.day as nat, 2);
    lemma_padded(t.hour as nat, 2);
    lemma_padded(t.minute as nat, 2);
    lemma_padded(t.second as nat, 2);
    lemma_padded(t.milliseconds as nat, 3);
    let y = padded(t.year as nat, 4);
    let mo = padded(t.month as nat, 2);
    let d = padded(t.day as nat, 2);
    let h = padded(t.hour as nat, 2);
    let mi = padded(t.minute as nat, 2);
    let s = padded(t.second as nat, 2);
    let ms = padded(t.milliseconds as nat, 3);
    let text = spec_utc_text(t);
    assert(text == y + "-"@ + mo + "-"@ + d + "T"@ + h + ":"@ + mi + ":"@ + s + "."@ + ms + "Z"@);
    lemma_digits_are_ascii(y);
    lemma_digits_are_ascii(mo);
    lemma_digits_are_ascii(d);
    lemma_digits_are_ascii(h);
    lemma_digits_are_ascii(mi);
    lemma_digits_are_ascii(s);
    lemma_digits_are_ascii(ms);
    assert(is_ascii_chars("-"@));
    assert(is_ascii_chars("T"@));
    assert(is_ascii_chars(":"@));
    assert(is_ascii_chars("."@));
    assert(is_ascii_chars("Z"@));
    let t1 = y + "-"@;
    lemma_ascii_concat(y, "-"@);
    let t2 = t1 + mo;
    lemma_ascii_concat(t1, mo);
    let t3 = t2 + "-"@;
    lemma_ascii_concat(t2, "-"@);
    let t4 = t3 + d;
    lemma_ascii_concat(t3, d);
    let t5 = t4 + "T"@;
    lemma_ascii_concat(t4, "T"@);
    let t6 = t5 + h;
    lemma_ascii_concat(t5, h);
    let t7 = t6 + ":"@;
    lemma_ascii_concat(t6, ":"@);
    let t8 = t7 + mi;
    lemma_ascii_concat(t7, mi);
    let t9 = t8 + ":"@;
    lemma_ascii_concat(t8, ":"@);
    let t10 = t9 + s;
    lemma_ascii_concat(t9, s);
    let t11 = t10 + "."@;
    lemma_ascii_concat(t10, "."@);
    let t12 = t11 + ms;
    lemma_ascii_concat(t11, ms);
    lemma_ascii_concat(t12, "Z"@);
    assert(text == t12 + "Z"@);
    is_ascii_chars_encode_utf8(text);
    let bytes = encode_utf8(text);
    assert(bytes =~= ascii_bytes(text));
    assert(t10.len() == 19);
    assert(text.subrange(0, 19) =~= t10);
    assert(text.subrange(0, 4) =~= y);
    assert(text.subrange(5, 7) =~= mo);
    assert(text.subrange(8, 10) =~= d);
    assert(text.subrange(11, 13) =~= h);
    assert(text.subrange(14, 16) =~= mi);
    assert(text.subrange(17, 19) =~= s);
    assert(text[4] == '-' && text[7] == '-' && text[10] == 'T');
    assert(text[13] == ':' && text[16] == ':');
    lemma_field_reads_back(text, 0, t.year as nat, 4);
    lemma_field_reads_back(text, 5, t.month as nat, 2);
    lemma_field_reads_back(text, 8, t.day as nat, 2);
    lemma_field_reads_back(text, 11, t.hour as nat, 2);
    lemma_field_reads_back(text, 14, t.minute as nat, 2);
    lemma_field_reads_back(text, 17, t.second as nat, 2);
}

} // verus!
