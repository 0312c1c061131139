//! Lower-case hexadecimal rendering of byte strings.

use vstd::prelude::*;

verus! {

/// The lower-case hex digit for a value below sixteen.
pub open spec fn hex_digit(n: u8) -> char {
    if n < 10 {
        (n + 48) as char
    } else {
        (n + 87) as char
    }
}

/// The two hex digits of one byte: the high nibble first.
pub open spec fn hex_byte(b: u8) -> Seq<char> {
    seq![hex_digit(b / 16), hex_digit(b % 16)]
}

/// The hex rendering of a byte string: two lower-case digits per byte, in order.
pub open spec fn spec_hex(bytes: Seq<u8>) -> Seq<char>
    decreases bytes.len(),
{
    if bytes.len() == 0 {
        Seq::empty()
    } else {
        spec_hex(bytes.drop_last()) + hex_byte(bytes.last())
    }
}

/// Appends one character to a string (`String::push`).
/// Claims: the string afterwards is the string before with `c` added at its end.
#[verifier::external_body]
pub(crate) fn push_char(s: &mut String, c: char)
    ensures
        final(s)@ == old(s)@.push(c),
{
    s.push(c);
}

fn nibble_char(n: u8) -> (c: char)
    requires
        n < 16,
    ensures
        c == hex_digit(n),
{
    if n < 10 {
        (n + 48) as char
    } else {
        (n + 87) as char
    }
}

/// Appends the two hex digits of `b` to `s`.
pub(crate) fn push_hex_byte(s: &mut String, b: u8)
    ensures
        final(s)@ == old(s)@ + hex_byte(b),
{
    push_char(s, nibble_char(b / 16));
    push_char(s, nibble_char(b % 16));
}

/// Appends the hex rendering of `bytes[start..end]` to `s`.
pub(crate) fn push_hex(s: &mut String, bytes: &[u8], start: usize, end: usize)
    requires
        start <= end <= bytes@.len(),
    ensures
        final(s)@ == old(s)@ + spec_hex(bytes@.subrange(start as int, end as int)),
{
    let ghost init = s@;
    let mut i = start;
    while i < end
        invariant
            start <= i <= end <= bytes@.len(),
            s@ == init + spec_hex(bytes@.subrange(start as int, i as int)),
        decreases end - i,
    {
        let ghost before = s@;
        push_hex_byte(s, bytes[i]);
        proof {
            let next = bytes@.subrange(start as int, i + 1);
            assert(next.drop_last() =~= bytes@.subrange(start as int, i as int));
            assert(next.last() == bytes@[i as int]);
        }
        i = i + 1;
    }
}

/// Encodes `b` as lower-case hex, two digits per byte.
pub fn hex_encode(b: &[u8]) -> (s: String)
    ensures
        s@ == spec_hex(b@),
        s@.len() == 2 * b@.len(),
{
    let mut s = String::new();
    push_hex(&mut s, b, 0, b.len());
    assert(b@.subrange(0, b@.len() as int) =~= b@);
    proof {
        lemma_hex_len(b@);
    }
    s
}

/// Renders a key or hash as lower-case hex, as every listing line does.
pub fn hex(b: &[u8]) -> (s: String)
    ensures
        s@ == spec_hex(b@),
        s@.len() == 2 * b@.len(),
{
    hex_encode(b)
}

/// The rendering has exactly two characters per byte.
pub proof fn lemma_hex_len(bytes: Seq<u8>)
    ensures
        spec_hex(bytes).len() == 2 * bytes.len(),
    decreases bytes.len(),
{
    if bytes.len() > 0 {
        lemma_hex_len(bytes.drop_last());
    }
}

/// Rendering a concatenation renders each part in turn.
pub proof fn lemma_hex_concat(a: Seq<u8>, b: Seq<u8>)
    ensures
        spec_hex(a + b) == spec_hex(a) + spec_hex(b),
    decreases b.len(),
{
    if b.len() == 0 {
        assert(a + b =~= a);
        assert(spec_hex(a) + spec_hex(b) =~= spec_hex(a));
    } else {
        lemma_hex_concat(a, b.drop_last());
        assert((a + b).drop_last() =~= a + b.drop_last());
        assert((a + b).last() == b.last());
        assert(spec_hex(a + b) =~= spec_hex(a) + spec_hex(b));
    }
}

/// Byte `i` of the input is rendered at positions `2 * i` (high nibble)
/// and `2 * i + 1` (low nibble) of the output.
pub proof fn lemma_hex_index(bytes: Seq<u8>, i: int)
    requires
        0 <= i < bytes.len(),
    ensures
        spec_hex(bytes)[2 * i] == hex_digit(bytes[i] / 16),
        spec_hex(bytes)[2 * i + 1] == hex_digit(bytes[i] % 16),
    decreases bytes.len(),
{
    lemma_hex_len(bytes.drop_last());
    if i < bytes.len() - 1 {
        lemma_hex_index(bytes.drop_last(), i);
    }
}

/// Every character of a rendering is one of `0-9` or `a-f`.
pub proof fn lemma_hex_alphabet(bytes: Seq<u8>, k: int)
    requires
        0 <= k < spec_hex(bytes).len(),
    ensures
        ('0' <= spec_hex(bytes)[k] <= '9') || ('a' <= spec_hex(bytes)[k] <= 'f'),
{
    lemma_hex_len(bytes);
    let i = k / 2;
    lemma_hex_index(bytes, i);
    assert(k == 2 * i || k == 2 * i + 1);
}

pub(crate) proof fn lemma_hex_digit_injective(x: u8, y: u8)
    requires
        x < 16,
        y < 16,
        hex_digit(x) == hex_digit(y),
    ensures
        x == y,
{
}

/// Distinct byte strings have distinct renderings: the hex text determines the bytes.
pub proof fn lemma_hex_injective(a: Seq<u8>, b: Seq<u8>)
    requires
        spec_hex(a) == spec_hex(b),
    ensures
        a == b,
{
    lemma_hex_len(a);
    lemma_hex_len(b);
    assert forall|i: int| 0 <= i < a.len() implies a[i] == b[i] by {
        lemma_hex_index(a, i);
        lemma_hex_index(b, i);
        lemma_hex_digit_injective(a[i] / 16, b[i] / 16);
        lemma_hex_digit_injective(a[i] % 16, b[i] % 16);
    }
    assert(a =~= b);
}

/// The digit of a nibble below ten is `0` to `9`, and of a nibble from ten to fifteen
/// is `a` to `f`: the digit's code point is that of `0` plus the nibble, or that of
/// `a` plus the nibble less ten.
pub proof fn lemma_hex_digit_values(n: u8)
    requires
        n < 16,
    ensures
        n < 10 ==> hex_digit(n) as u32 == ('0' as u32) + n,
        n >= 10 ==> hex_digit(n) as u32 == ('a' as u32) + n - 10,
{
}

/// `h` is the hex rendering of `bytes`: two characters per byte, the high nibble's
/// digit at position `2 * i` and the low nibble's at `2 * i + 1`.
pub open spec fn is_hex_of(h: Seq<char>, bytes: Seq<u8>) -> bool {
    &&& h.len() == 2 * bytes.len()
    &&& forall|i: int|
        #![trigger bytes[i]]
        0 <= i < bytes.len() ==> h[2 * i] == hex_digit(bytes[i] / 16) && h[2 * i + 1]
            == hex_digit(bytes[i] % 16)
}

/// What `hex` returns is the hex rendering of its input, digit by digit.
pub proof fn lemma_hex_is_hex_of(bytes: Seq<u8>)
    ensures
        is_hex_of(spec_hex(bytes), bytes),
{
    lemma_hex_len(bytes);
    assert forall|i: int| #![trigger bytes[i]] 0 <= i < bytes.len() implies spec_hex(bytes)[2 * i]
        == hex_digit(bytes[i] / 16) && spec_hex(bytes)[2 * i + 1] == hex_digit(bytes[i] % 16) by {
        lemma_hex_index(bytes, i);
    }
}

} // verus!
