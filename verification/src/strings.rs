//! String and byte helpers over std whose behaviour the library relies on.

use vstd::prelude::*;
use vstd::utf8::{
    decode_utf8, encode_scalar, encode_utf8, encode_utf8_decode_utf8, encode_utf8_valid_utf8,
    is_ascii_chars, is_ascii_chars_encode_utf8, last_continuation_byte, leading_byte_width_1,
    leading_byte_width_2, leading_byte_width_3, leading_byte_width_4, second_last_continuation_byte,
    third_last_continuation_byte, valid_utf8,
};

verus! {

/// Whether two strings hold the same characters; compared by their UTF-8
/// bytes, which determine the characters.
pub(crate) fn str_eq(a: &str, b: &str) -> (r: bool)
    ensures
        r == (a@ == b@),
{
    let r = bytes_equal(a.as_bytes(), b.as_bytes());
    proof {
        vstd::utf8::encode_utf8_decode_utf8(a@);
        vstd::utf8::encode_utf8_decode_utf8(b@);
    }
    r
}

/// `String::from_utf8` (std): the decoded string when `bytes` is valid
/// UTF-8, and nothing otherwise.
#[verifier::external_body]
pub(crate) fn string_from_utf8(bytes: Vec<u8>) -> (r: Option<String>)
    ensures
        r is Some <==> valid_utf8(bytes@),
        r matches Some(s) ==> s@ == decode_utf8(bytes@),
{
    String::from_utf8(bytes).ok()
}

/// The decimal digits of `x`, as `u64::to_string` writes them.
pub(crate) fn u64_to_decimal(x: u64) -> (r: String)
    ensures
        r@ == decimal(x as nat),
{
    let mut bytes: Vec<u8> = Vec::new();
    push_decimal(x, &mut bytes);
    proof {
        let n = x as nat;
        lemma_decimal_ascii(n);
        is_ascii_chars_encode_utf8(decimal(n));
        assert(bytes@ =~= encode_utf8(decimal(n)));
        encode_utf8_valid_utf8(decimal(n));
        encode_utf8_decode_utf8(decimal(n));
    }
    match string_from_utf8(bytes) {
        Some(s) => s,
        None => {
            proof {
                assert(false);
            }
            String::new()
        },
    }
}

/// The bytes of the decimal digits of `n`, one per digit.
pub open spec fn decimal_bytes(n: nat) -> Seq<u8> {
    decimal(n).map_values(|c: char| c as u8)
}

proof fn lemma_digit_char(d: nat)
    requires
        d < 10,
    ensures
        digit_char(d) as u8 == 48 + d,
        '\0' <= digit_char(d) <= '\u{7f}',
{
}

proof fn lemma_decimal_ascii(n: nat)
    ensures
        is_ascii_chars(decimal(n)),
        decimal(n).len() >= 1,
    decreases n,
{
    if n < 10 {
        lemma_digit_char(n);
    } else {
        lemma_decimal_ascii(n / 10);
        lemma_digit_char(n % 10);
        let d = decimal(n);
        assert forall|i: int| 0 <= i < d.len() implies '\0' <= #[trigger] d[i] <= '\u{7f}' by {
            if i < d.len() - 1 {
                assert(d[i] == decimal(n / 10)[i]);
            }
        }
    }
}

/// Appends the decimal digits of `x` to `out`.
fn push_decimal(x: u64, out: &mut Vec<u8>)
    ensures
        final(out)@ == old(out)@ + decimal_bytes(x as nat),
    decreases x,
{
    if x >= 10 {
        push_decimal(x / 10, out);
    }
    let d: u8 = (x % 10) as u8;
    proof {
        lemma_digit_char(d as nat);
    }
    out.push(48 + d);
    proof {
        let n = x as nat;
        if n >= 10 {
            assert(decimal_bytes(n) =~= decimal_bytes(n / 10).push(digit_char(n % 10) as u8));
        } else {
            assert(decimal_bytes(n) =~= seq![digit_char(n) as u8]);
        }
    }
}

/// The decimal digit character for `d < 10`.
pub open spec fn digit_char(d: nat) -> char {
    if d == 0 { '0' }
    else if d == 1 { '1' }
    else if d == 2 { '2' }
    else if d == 3 { '3' }
    else if d == 4 { '4' }
    else if d == 5 { '5' }
    else if d == 6 { '6' }
    else if d == 7 { '7' }
    else if d == 8 { '8' }
    else { '9' }
}

/// The shortest decimal representation of `n`.
pub open spec fn decimal(n: nat) -> Seq<char>
    decreases n,
{
    if n < 10 {
        seq![digit_char(n)]
    } else {
        decimal(n / 10).push(digit_char(n % 10))
    }
}

} // verus!

verus! {

/// The UTF-8 encoding of a string, as bytes of its own.
pub(crate) fn string_into_bytes(s: String) -> (r: Vec<u8>)
    ensures
        r@ == encode_utf8(s@),
{
    vstd::slice::slice_to_vec(s.as_str().as_bytes())
}

/// Byte-wise equality of two slices.
pub fn bytes_equal(a: &[u8], b: &[u8]) -> (r: bool)
    ensures
        r == (a@ == b@),
{
    if a.len() != b.len() {
        return false;
    }
    let mut i: usize = 0;
    while i < a.len()
        invariant
            a@.len() == b@.len(),
            i <= a@.len(),
            forall|j: int| 0 <= j < i ==> a@[j] == b@[j],
        decreases a@.len() - i,
    {
        if a[i] != b[i] {
            return false;
        }
        i = i + 1;
    }
    assert(a@ =~= b@);
    true
}

/// The segments of `s` between occurrences of `sep`, as `split` yields
/// them: one more segment than there are separators.
pub open spec fn split_on(s: Seq<u8>, sep: u8) -> Seq<Seq<u8>>
    decreases s.len(),
{
    if s.len() == 0 {
        seq![Seq::<u8>::empty()]
    } else {
        let rest = split_on(s.drop_last(), sep);
        if s.last() == sep {
            rest.push(Seq::<u8>::empty())
        } else {
            rest.update(rest.len() - 1, rest.last().push(s.last()))
        }
    }
}

proof fn lemma_split_on_nonempty(s: Seq<u8>, sep: u8)
    ensures
        split_on(s, sep).len() >= 1,
    decreases s.len(),
{
    if s.len() > 0 {
        lemma_split_on_nonempty(s.drop_last(), sep);
    }
}

/// Splits `s` at every `sep` byte.
pub fn split_bytes(s: &Vec<u8>, sep: u8) -> (r: Vec<Vec<u8>>)
    ensures
        r@.len() >= 1,
        r@.len() == split_on(s@, sep).len(),
        forall|i: int| 0 <= i < r@.len() ==> #[trigger] r@[i]@ == split_on(s@, sep)[i],
{
    let mut out: Vec<Vec<u8>> = Vec::new();
    let mut cur: Vec<u8> = Vec::new();
    let mut i: usize = 0;
    assert(s@.take(0) =~= Seq::<u8>::empty());
    while i < s.len()
        invariant
            i <= s@.len(),
            out@.len() + 1 == split_on(s@.take(i as int), sep).len(),
            forall|j: int| 0 <= j < out@.len() ==> #[trigger] out@[j]@ == split_on(s@.take(i as int), sep)[j],
            cur@ == split_on(s@.take(i as int), sep).last(),
        decreases s@.len() - i,
    {
        let ghost prev = split_on(s@.take(i as int), sep);
        proof {
            lemma_split_on_nonempty(s@.take(i as int), sep);
            assert(s@.take(i + 1).drop_last() =~= s@.take(i as int));
            assert(s@.take(i + 1).last() == s@[i as int]);
        }
        let b = s[i];
        if b == sep {
            let done = cur;
            out.push(done);
            cur = Vec::new();
        } else {
            cur.push(b);
        }
        i = i + 1;
    }
    assert(s@.take(s@.len() as int) =~= s@);
    proof {
        lemma_split_on_nonempty(s@, sep);
    }
    out.push(cur);
    out
}

/// Splitting at a separator splits the parts on either side of it apart.
pub proof fn lemma_split_concat(a: Seq<u8>, b: Seq<u8>, sep: u8)
    ensures
        split_on(a + seq![sep] + b, sep) == split_on(a, sep) + split_on(b, sep),
    decreases b.len(),
{
    if b.len() == 0 {
        assert(a + seq![sep] + b =~= a.push(sep));
        assert(a.push(sep).drop_last() =~= a);
        assert(split_on(a, sep) + split_on(b, sep) =~= split_on(a, sep).push(Seq::<u8>::empty()));
    } else {
        let w = a + seq![sep] + b;
        let b1 = b.drop_last();
        lemma_split_concat(a, b1, sep);
        lemma_split_on_nonempty(b1, sep);
        lemma_split_on_nonempty(a, sep);
        assert(w.drop_last() =~= a + seq![sep] + b1);
        assert(w.last() == b.last());
        let left = split_on(a, sep);
        let r1 = split_on(b1, sep);
        if b.last() == sep {
            assert(split_on(w, sep) =~= (left + r1).push(Seq::<u8>::empty()));
            assert(split_on(b, sep) =~= r1.push(Seq::<u8>::empty()));
            assert((left + r1).push(Seq::<u8>::empty()) =~= left + r1.push(Seq::<u8>::empty()));
        } else {
            let lr = left + r1;
            assert(lr.last() == r1.last());
            assert(split_on(w, sep) =~= lr.update(lr.len() - 1, lr.last().push(b.last())));
            assert(split_on(b, sep) =~= r1.update(r1.len() - 1, r1.last().push(b.last())));
            assert(lr.update(lr.len() - 1, lr.last().push(b.last())) =~= left + r1.update(
                r1.len() - 1,
                r1.last().push(b.last()),
            ));
        }
    }
}

/// A sequence without the separator is a single segment.
pub proof fn lemma_split_without_sep(a: Seq<u8>, sep: u8)
    requires
        forall|i: int| 0 <= i < a.len() ==> a[i] != sep,
    ensures
        split_on(a, sep) == seq![a],
    decreases a.len(),
{
    if a.len() == 0 {
        assert(a =~= Seq::<u8>::empty());
        assert(split_on(a, sep) =~= seq![a]);
    } else {
        lemma_split_without_sep(a.drop_last(), sep);
        assert(a.drop_last().push(a.last()) =~= a);
        assert(split_on(a, sep) =~= seq![a]);
    }
}

/// The UTF-8 encoding of a concatenation is the concatenation of the encodings.
pub proof fn lemma_encode_concat(a: Seq<char>, b: Seq<char>)
    ensures
        encode_utf8(a + b) == encode_utf8(a) + encode_utf8(b),
    decreases a.len(),
{
    if a.len() == 0 {
        assert(a + b =~= b);
        assert(encode_utf8(a) =~= Seq::<u8>::empty());
        assert(encode_utf8(a) + encode_utf8(b) =~= encode_utf8(b));
    } else {
        lemma_encode_concat(a.drop_first(), b);
        assert((a + b).drop_first() =~= a.drop_first() + b);
        assert((a + b)[0] == a[0]);
        assert(encode_utf8(a + b) =~= encode_utf8(a) + encode_utf8(b));
    }
}

/// No byte of the encoding of a character other than '/' is the byte of '/'.
proof fn lemma_scalar_without_slash(c: char)
    requires
        c != '/',
    ensures
        forall|i: int| 0 <= i < encode_scalar(c as u32).len() ==> #[trigger] encode_scalar(c as u32)[i] != 47u8,
{
    let s = c as u32;
    assert(s != 47) by {
        if s == 47 {
            vstd::utf8::char_u32_cast(c, s);
            assert((47u32 as char) == '/');
        }
    }
    assert(s <= 0x7F && s != 47 ==> leading_byte_width_1(s) != 47u8) by (bit_vector);
    assert(leading_byte_width_2(s) != 47u8) by (bit_vector);
    assert(leading_byte_width_3(s) != 47u8) by (bit_vector);
    assert(leading_byte_width_4(s) != 47u8) by (bit_vector);
    assert(last_continuation_byte(s) != 47u8) by (bit_vector);
    assert(second_last_continuation_byte(s) != 47u8) by (bit_vector);
    assert(third_last_continuation_byte(s) != 47u8) by (bit_vector);
}

/// The encoding of text without '/' holds no byte of '/'.
pub proof fn lemma_encode_without_slash(s: Seq<char>)
    requires
        !s.contains('/'),
    ensures
        forall|i: int| 0 <= i < encode_utf8(s).len() ==> encode_utf8(s)[i] != 47u8,
    decreases s.len(),
{
    if s.len() > 0 {
        assert(s[0] != '/') by {
            if s[0] == '/' {
                assert(s.contains('/'));
            }
        }
        lemma_scalar_without_slash(s[0]);
        assert(!s.drop_first().contains('/')) by {
            if s.drop_first().contains('/') {
                let k = choose|k: int| 0 <= k < s.drop_first().len() && s.drop_first()[k] == '/';
                assert(s[k + 1] == '/');
            }
        }
        lemma_encode_without_slash(s.drop_first());
        let e1 = encode_scalar(s[0] as u32);
        let e2 = encode_utf8(s.drop_first());
        assert(encode_utf8(s) == e1 + e2);
        assert forall|i: int| 0 <= i < encode_utf8(s).len() implies encode_utf8(s)[i] != 47u8 by {
            if i < e1.len() {
                assert(encode_utf8(s)[i] == e1[i]);
            } else {
                assert(encode_utf8(s)[i] == e2[i - e1.len()]);
            }
        }
    }
}

} // verus!
