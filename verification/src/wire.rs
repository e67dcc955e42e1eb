//! Fields of a message as they lie on the wire: little-endian integers and
//! padded text.
use vstd::prelude::*;
use vstd::utf8;

verus! {

/// The number whose digits to the base 256 are `s`, least significant first.
pub open spec fn le_value(s: Seq<u8>) -> nat
    decreases s.len(),
{
    if s.len() == 0 {
        0
    } else {
        s[0] as nat + 256 * le_value(s.drop_first())
    }
}

/// 256 to the power `n`.
pub open spec fn pow256(n: nat) -> nat
    decreases n,
{
    if n == 0 {
        1
    } else {
        256 * pow256((n - 1) as nat)
    }
}

/// The 16-bit unsigned integer at offset `o`.
pub open spec fn u16_at(b: Seq<u8>, o: int) -> u16 {
    le_value(b.subrange(o, o + 2)) as u16
}

/// The 32-bit unsigned integer at offset `o`.
pub open spec fn u32_at(b: Seq<u8>, o: int) -> u32 {
    le_value(b.subrange(o, o + 4)) as u32
}

/// The 64-bit integer in two's complement at offset `o`.
pub open spec fn i64_at(b: Seq<u8>, o: int) -> i64 {
    let v = le_value(b.subrange(o, o + 8));
    if v < 0x8000_0000_0000_0000 {
        v as i64
    } else {
        (v - 0x1_0000_0000_0000_0000) as i64
    }
}

/// A sequence of `n` bytes stands for a number below 256 to the power `n`.
pub proof fn lemma_le_value_bound(s: Seq<u8>)
    ensures
        le_value(s) < pow256(s.len()),
    decreases s.len(),
{
    if s.len() > 0 {
        lemma_le_value_bound(s.drop_first());
    }
}

/// Reads the `n` bytes at offset `o` as one little-endian number.
fn le_u64(b: &[u8], o: usize, n: usize) -> (r: u64)
    requires
        n <= 8,
        o + n <= b@.len(),
    ensures
        r == le_value(b@.subrange(o as int, o + n)),
        r < pow256(n as nat),
{
    let end: usize = b.len();
    let mut v: u64 = 0;
    let mut i: usize = n;
    assert(b@.subrange(o + n, o + n) =~= Seq::empty());
    while i > 0
        invariant
            i <= n <= 8,
            o + n <= end == b@.len(),
            v == le_value(b@.subrange(o + i, o + n)),
        decreases i,
    {
        let ghost high = b@.subrange(o + i, o + n);
        let ghost whole = b@.subrange(o + i - 1, o + n);
        proof {
            assert(whole.drop_first() =~= high);
            lemma_le_value_bound(high);
            reveal_with_fuel(pow256, 9);
        }
        i = i - 1;
        v = b[o + i] as u64 + 256 * v;
    }
    proof {
        lemma_le_value_bound(b@.subrange(o as int, o + n));
    }
    v
}

/// The byte at offset `o`.
pub fn ru8(b: &[u8], o: usize) -> (r: u8)
    requires
        o < b@.len(),
    ensures
        r == b@[o as int],
{
    b[o]
}

/// The 16-bit unsigned integer at offset `o`.
pub fn ru16(b: &[u8], o: usize) -> (r: u16)
    requires
        o + 2 <= b@.len(),
    ensures
        r == u16_at(b@, o as int),
        r == le_value(b@.subrange(o as int, o + 2)),
{
    let v = le_u64(b, o, 2);
    proof {
        reveal_with_fuel(pow256, 3);
    }
    v as u16
}

/// The 32-bit unsigned integer at offset `o`.
pub fn ru32(b: &[u8], o: usize) -> (r: u32)
    requires
        o + 4 <= b@.len(),
    ensures
        r == u32_at(b@, o as int),
        r == le_value(b@.subrange(o as int, o + 4)),
{
    let v = le_u64(b, o, 4);
    proof {
        reveal_with_fuel(pow256, 5);
    }
    v as u32
}

/// The signed 64-bit integer at offset `o`.
pub fn ri64(b: &[u8], o: usize) -> (r: i64)
    requires
        o + 8 <= b@.len(),
    ensures
        r == i64_at(b@, o as int),
        r == le_value(b@.subrange(o as int, o + 8)) || r + 0x1_0000_0000_0000_0000 == le_value(
            b@.subrange(o as int, o + 8),
        ),
{
    let v = le_u64(b, o, 8);
    if v < 0x8000_0000_0000_0000 {
        v as i64
    } else {
        -1 - ((0xffff_ffff_ffff_ffff - v) as i64)
    }
}

/// The characters with the Unicode property `White_Space`.
pub open spec fn is_white_space(c: char) -> bool {
    let n = c as int;
    ||| 0x09 <= n <= 0x0d
    ||| n == 0x20
    ||| n == 0x85
    ||| n == 0xa0
    ||| n == 0x1680
    ||| 0x2000 <= n <= 0x200a
    ||| n == 0x2028
    ||| n == 0x2029
    ||| n == 0x202f
    ||| n == 0x205f
    ||| n == 0x3000
}

/// `s` without the white space that it ends in.
pub open spec fn trim_end(s: Seq<char>) -> Seq<char>
    decreases s.len(),
{
    if s.len() > 0 && is_white_space(s.last()) {
        trim_end(s.drop_last())
    } else {
        s
    }
}

/// The text of a padded field: its characters up to the padding, or nothing
/// where its bytes are not UTF-8.
pub open spec fn field_text(bytes: Seq<u8>) -> Seq<char> {
    if utf8::valid_utf8(bytes) {
        trim_end(utf8::decode_utf8(bytes))
    } else {
        Seq::empty()
    }
}

/// The text of the field of `n` bytes at offset `o`, and nothing where `b` ends
/// before the field does.
pub open spec fn text_at(b: Seq<u8>, o: int, n: int) -> Seq<char> {
    if o + n > b.len() {
        Seq::empty()
    } else {
        field_text(b.subrange(o, o + n))
    }
}

/// Calls `std::str::from_utf8`. Trusted: it gives the decoded text exactly
/// where the bytes are well-formed UTF-8.
#[verifier::external_body]
fn utf8_text(b: &[u8]) -> (r: Option<&str>)
    ensures
        r is Some <==> utf8::valid_utf8(b@),
        r matches Some(s) ==> s@ == utf8::decode_utf8(b@),
{
    std::str::from_utf8(b).ok()
}

/// Calls `str::trim_end`. Trusted: it removes the trailing characters that have
/// the property `White_Space` and nothing else.
#[verifier::external_body]
fn text_trim_end(s: &str) -> (r: &str)
    ensures
        r@ == trim_end(s@),
{
    s.trim_end()
}

/// The text of the field of `n` bytes at offset `o`.
fn text_field(b: &[u8], o: usize, n: usize) -> (r: &str)
    requires
        o + n <= usize::MAX,
    ensures
        r@ == text_at(b@, o as int, n as int),
{
    proof {
        reveal_strlit("");
    }
    if o + n > b.len() {
        return "";
    }
    match utf8_text(vstd::slice::slice_subrange(b, o, o + n)) {
        Some(s) => text_trim_end(s),
        None => "",
    }
}

/// The ticker symbol at offset `o`: eight bytes, padded on the right.
pub fn sym_str<'a>(b: &'a [u8], o: usize) -> (r: &'a str)
    requires
        o + 8 <= usize::MAX,
    ensures
        r@ == text_at(b@, o as int, 8),
{
    text_field(b, o, 8)
}

/// The four-character code at offset `o`, padded on the right.
pub fn ascii4<'a>(b: &'a [u8], o: usize) -> (r: &'a str)
    requires
        o + 4 <= usize::MAX,
    ensures
        r@ == text_at(b@, o as int, 4),
{
    text_field(b, o, 4)
}

/// The `n` bytes, least significant first, that stand for `v`.
pub open spec fn le_bytes(v: nat, n: nat) -> Seq<u8>
    decreases n,
{
    if n == 0 {
        Seq::empty()
    } else {
        seq![(v % 256) as u8] + le_bytes(v / 256, (n - 1) as nat)
    }
}

/// Reading the bytes of a number gives the number back.
pub proof fn law_le_value_of_le_bytes(v: nat, n: nat)
    requires
        v < pow256(n),
    ensures
        le_bytes(v, n).len() == n,
        le_value(le_bytes(v, n)) == v,
    decreases n,
{
    if n > 0 {
        law_le_value_of_le_bytes(v / 256, (n - 1) as nat);
        assert(le_bytes(v, n).drop_first() =~= le_bytes(v / 256, (n - 1) as nat));
    }
}

/// Reading the eight bytes of a signed number in two's complement gives the number
/// back.
pub proof fn law_signed_number_read_back(v: i64)
    ensures
        i64_at(le_bytes(twos_complement(v), 8), 0) == v,
{
    let bytes = le_bytes(twos_complement(v), 8);
    reveal_with_fuel(pow256, 9);
    law_le_value_of_le_bytes(twos_complement(v), 8);
    assert(bytes.subrange(0, 8) =~= bytes);
}

/// The 64 bits of `v` in two's complement, as a number.
pub open spec fn twos_complement(v: i64) -> nat {
    if v >= 0 {
        v as nat
    } else {
        (v + 0x1_0000_0000_0000_0000) as nat
    }
}

/// The eight bytes of `v` in two's complement.
pub open spec fn i64_bytes(v: i64) -> Seq<u8> {
    le_bytes(twos_complement(v), 8)
}

/// A 16-bit number is read back from where its bytes stand.
pub proof fn law_u16_read_back(before: Seq<u8>, v: u16, after: Seq<u8>)
    ensures
        u16_at(before + le_bytes(v as nat, 2) + after, before.len() as int) == v,
{
    let o = before.len() as int;
    let b = before + le_bytes(v as nat, 2) + after;
    reveal_with_fuel(pow256, 3);
    law_le_value_of_le_bytes(v as nat, 2);
    assert(b.subrange(o, o + 2) =~= le_bytes(v as nat, 2));
}

/// A 32-bit number is read back from where its bytes stand.
pub proof fn law_u32_read_back(before: Seq<u8>, v: u32, after: Seq<u8>)
    ensures
        u32_at(before + le_bytes(v as nat, 4) + after, before.len() as int) == v,
{
    let o = before.len() as int;
    let b = before + le_bytes(v as nat, 4) + after;
    reveal_with_fuel(pow256, 5);
    law_le_value_of_le_bytes(v as nat, 4);
    assert(b.subrange(o, o + 4) =~= le_bytes(v as nat, 4));
}

/// A signed 64-bit number is read back from where its bytes stand.
pub proof fn law_i64_read_back(before: Seq<u8>, v: i64, after: Seq<u8>)
    ensures
        i64_bytes(v).len() == 8,
        i64_at(before + i64_bytes(v) + after, before.len() as int) == v,
{
    let o = before.len() as int;
    let b = before + i64_bytes(v) + after;
    reveal_with_fuel(pow256, 9);
    law_le_value_of_le_bytes(twos_complement(v), 8);
    assert(b.subrange(o, o + 8) =~= i64_bytes(v));
}

/// Each byte of a number counts 256 times what the one before it does, and the
/// last byte of a signed number is itself signed.
pub proof fn law_weight_of_bytes(b: Seq<u8>, o: int)
    requires
        0 <= o,
    ensures
        o + 2 <= b.len() ==> u16_at(b, o) == b[o] + 0x100 * b[o + 1],
        o + 4 <= b.len() ==> u32_at(b, o) == b[o] + 0x100 * b[o + 1] + 0x1_0000 * b[o + 2]
            + 0x100_0000 * b[o + 3],
        o + 8 <= b.len() ==> i64_at(b, o) == b[o] + 0x100 * b[o + 1] + 0x1_0000 * b[o + 2]
            + 0x100_0000 * b[o + 3] + 0x1_0000_0000 * b[o + 4] + 0x100_0000_0000 * b[o + 5]
            + 0x1_0000_0000_0000 * b[o + 6] + 0x100_0000_0000_0000 * (if b[o + 7] < 128 {
            b[o + 7] as int
        } else {
            b[o + 7] - 256
        }),
{
    if o + 2 <= b.len() {
        lemma_weight(b, o, o + 2);
        lemma_weight(b, o + 1, o + 2);
        lemma_weight(b, o + 2, o + 2);
    }
    if o + 4 <= b.len() {
        lemma_weight(b, o, o + 4);
        lemma_weight(b, o + 1, o + 4);
        lemma_weight(b, o + 2, o + 4);
        lemma_weight(b, o + 3, o + 4);
        lemma_weight(b, o + 4, o + 4);
    }
    if o + 8 <= b.len() {
        lemma_weight(b, o, o + 8);
        lemma_weight(b, o + 1, o + 8);
        lemma_weight(b, o + 2, o + 8);
        lemma_weight(b, o + 3, o + 8);
        lemma_weight(b, o + 4, o + 8);
        lemma_weight(b, o + 5, o + 8);
        lemma_weight(b, o + 6, o + 8);
        lemma_weight(b, o + 7, o + 8);
        lemma_weight(b, o + 8, o + 8);
    }
}

proof fn lemma_weight(b: Seq<u8>, o: int, end: int)
    requires
        0 <= o <= end <= b.len(),
    ensures
        le_value(b.subrange(o, end)) == if o == end {
            0
        } else {
            b[o] + 256 * le_value(b.subrange(o + 1, end))
        },
{
    if o < end {
        assert(b.subrange(o, end).drop_first() =~= b.subrange(o + 1, end));
    }
}

/// A trimmed text is the beginning of the text, does not end in white space, and
/// what was cut off is white space.
pub proof fn law_trim_end(s: Seq<char>)
    ensures
        trim_end(s).len() <= s.len(),
        trim_end(s) == s.take(trim_end(s).len() as int),
        trim_end(s).len() > 0 ==> !is_white_space(trim_end(s).last()),
        forall|i: int| trim_end(s).len() <= i < s.len() ==> is_white_space(#[trigger] s[i]),
    decreases s.len(),
{
    if s.len() > 0 && is_white_space(s.last()) {
        law_trim_end(s.drop_last());
        let n = trim_end(s).len() as int;
        assert(s.drop_last().take(n) =~= s.take(n));
        assert forall|i: int| n <= i < s.len() implies is_white_space(#[trigger] s[i]) by {
            if i < s.len() - 1 {
                assert(s.drop_last()[i] == s[i]);
            }
        }
    } else {
        assert(s.take(s.len() as int) =~= s);
    }
}

/// A text has no more characters than its UTF-8 encoding has bytes.
pub proof fn lemma_decoded_length(bytes: Seq<u8>)
    requires
        utf8::valid_utf8(bytes),
    ensures
        utf8::decode_utf8(bytes).len() <= bytes.len(),
    decreases bytes.len(),
{
    if bytes.len() > 0 {
        lemma_decoded_length(utf8::pop_first_scalar(bytes));
    }
}

/// The beginning of a text takes no more bytes than the whole.
pub proof fn lemma_encoded_prefix(s: Seq<char>, n: int)
    requires
        0 <= n <= s.len(),
    ensures
        utf8::encode_utf8(s.take(n)).len() <= utf8::encode_utf8(s).len(),
    decreases n,
{
    if n > 0 {
        lemma_encoded_prefix(s.drop_first(), n - 1);
        assert(s.take(n).drop_first() =~= s.drop_first().take(n - 1));
    }
}

/// The text of a padded field takes no more bytes than the field, has at most one
/// character per byte and does not end in white space.
pub proof fn law_field_text(bytes: Seq<u8>)
    ensures
        field_text(bytes).len() <= bytes.len(),
        utf8::encode_utf8(field_text(bytes)).len() <= bytes.len(),
        field_text(bytes).len() > 0 ==> !is_white_space(field_text(bytes).last()),
{
    if utf8::valid_utf8(bytes) {
        lemma_decoded_length(bytes);
        law_trim_end(utf8::decode_utf8(bytes));
        utf8::decode_utf8_encode_utf8(bytes);
        lemma_encoded_prefix(utf8::decode_utf8(bytes), field_text(bytes).len() as int);
    }
}

/// A run of `n` spaces.
pub open spec fn spaces(n: nat) -> Seq<char> {
    Seq::new(n, |i: int| ' ')
}

/// Trimming removes white space that was put behind a text which does not end in
/// any.
pub proof fn law_padding_is_trimmed(t: Seq<char>, pad: Seq<char>)
    requires
        t.len() > 0 ==> !is_white_space(t.last()),
        forall|i: int| 0 <= i < pad.len() ==> is_white_space(#[trigger] pad[i]),
    ensures
        trim_end(t + pad) == t,
    decreases pad.len(),
{
    if pad.len() == 0 {
        assert(t + pad =~= t);
    } else {
        let s = t + pad;
        assert(s.last() == pad[pad.len() - 1]);
        assert(s.drop_last() =~= t + pad.drop_last());
        law_padding_is_trimmed(t, pad.drop_last());
    }
}

/// A field that holds a text which does not end in white space, and behind it
/// spaces, has exactly that text: every character of it, in order.
pub proof fn law_padded_text_read_back(t: Seq<char>, n: nat)
    requires
        t.len() > 0 ==> !is_white_space(t.last()),
    ensures
        field_text(utf8::encode_utf8(t + spaces(n))) == t,
        field_text(utf8::encode_utf8(t) + Seq::new(n, |i: int| 0x20u8)) == t,
{
    let whole = t + spaces(n);
    utf8::encode_utf8_valid_utf8(whole);
    utf8::encode_utf8_decode_utf8(whole);
    law_padding_is_trimmed(t, spaces(n));
    lemma_encoded_joined(t, spaces(n));
    lemma_encoded_spaces(n);
}

/// The text of a field that is UTF-8, with some white space behind it, is all that
/// the field holds; a field that is not has no text.
pub proof fn law_field_is_text_and_padding(bytes: Seq<u8>) -> (pad: Seq<char>)
    ensures
        utf8::valid_utf8(bytes) ==> bytes == utf8::encode_utf8(field_text(bytes) + pad),
        forall|i: int| 0 <= i < pad.len() ==> is_white_space(#[trigger] pad[i]),
        !utf8::valid_utf8(bytes) ==> field_text(bytes).len() == 0,
{
    if utf8::valid_utf8(bytes) {
        let s = utf8::decode_utf8(bytes);
        let n = field_text(bytes).len() as int;
        law_trim_end(s);
        utf8::decode_utf8_encode_utf8(bytes);
        assert(field_text(bytes) + s.skip(n) =~= s);
        s.skip(n)
    } else {
        Seq::empty()
    }
}

/// The text at an offset is that of the bytes that stand there; where the field
/// is cut off there is none.
pub proof fn law_text_in_place(before: Seq<u8>, field: Seq<u8>, after: Seq<u8>, o: int, n: int)
    ensures
        text_at(before + field + after, before.len() as int, field.len() as int) == field_text(
            field,
        ),
        o + n > before.len() ==> text_at(before, o, n).len() == 0,
{
    let b = before + field + after;
    let start = before.len() as int;
    assert(b.subrange(start, start + field.len()) =~= field);
}

/// A text takes the bytes of its two parts, one behind the other.
pub proof fn lemma_encoded_joined(a: Seq<char>, b: Seq<char>)
    ensures
        utf8::encode_utf8(a + b) == utf8::encode_utf8(a) + utf8::encode_utf8(b),
    decreases a.len(),
{
    if a.len() == 0 {
        assert(a + b =~= b);
        assert(utf8::encode_utf8(a) + utf8::encode_utf8(b) =~= utf8::encode_utf8(b));
    } else {
        assert((a + b).drop_first() =~= a.drop_first() + b);
        lemma_encoded_joined(a.drop_first(), b);
        assert(utf8::encode_utf8(a + b) =~= utf8::encode_utf8(a) + utf8::encode_utf8(b));
    }
}

proof fn lemma_encoded_spaces(n: nat)
    ensures
        utf8::encode_utf8(spaces(n)) == Seq::new(n, |i: int| 0x20u8),
    decreases n,
{
    if n > 0 {
        let less = (n - 1) as nat;
        lemma_encoded_spaces(less);
        assert(spaces(n).drop_first() =~= spaces(less));
        assert(utf8::encode_scalar(' ' as u32) =~= seq![0x20u8]) by {
            assert((0x20u32 & 0x7F) as u8 == 0x20u8) by (bit_vector);
        }
        assert(utf8::encode_utf8(spaces(n)) =~= Seq::new(n, |i: int| 0x20u8));
    } else {
        assert(utf8::encode_utf8(spaces(n)) =~= Seq::new(n, |i: int| 0x20u8));
    }
}

/// A text takes at most four bytes per character in UTF-8.
pub proof fn lemma_encoded_length(s: Seq<char>)
    ensures
        utf8::encode_utf8(s).len() <= 4 * s.len(),
    decreases s.len(),
{
    if s.len() > 0 {
        lemma_encoded_length(s.drop_first());
    }
}

} // verus!
