//! The bracketed byte listing that `{:02x?}` prints for a byte slice, such as
//! `[0a, ff]`, and the payload summaries built from it.

use vstd::prelude::*;
use crate::hex::{hex_byte, hex_digit, push_char, push_hex_byte, lemma_hex_digit_injective};

verus! {

/// The comma-separated two-digit hex items of a listing, without brackets.
pub open spec fn list_items(bytes: Seq<u8>) -> Seq<char>
    decreases bytes.len(),
{
    if bytes.len() == 0 {
        Seq::empty()
    } else if bytes.len() == 1 {
        hex_byte(bytes[0])
    } else {
        list_items(bytes.drop_last()) + seq![',', ' '] + hex_byte(bytes.last())
    }
}

/// The listing of a byte slice: `[`, the items separated by `, `, and `]`.
pub open spec fn byte_list(bytes: Seq<u8>) -> Seq<char> {
    seq!['['] + list_items(bytes) + seq![']']
}

/// The summary printed for an entry-state payload: ` { raw: <listing> }`.
pub open spec fn raw_summary(data: Seq<u8>) -> Seq<char> {
    " { raw: "@ + byte_list(data) + " }"@
}

/// Appends the listing of `bytes[start..end]` to `s`.
pub(crate) fn push_byte_list(s: &mut String, bytes: &[u8], start: usize, end: usize)
    requires
        start <= end <= bytes@.len(),
    ensures
        final(s)@ == old(s)@ + byte_list(bytes@.subrange(start as int, end as int)),
{
    let ghost init = s@;
    push_char(s, '[');
    let mut i = start;
    while i < end
        invariant
            start <= i <= end <= bytes@.len(),
            s@ == init + seq!['['] + list_items(bytes@.subrange(start as int, i as int)),
        decreases end - i,
    {
        let ghost before = s@;
        if i > start {
            push_char(s, ',');
            push_char(s, ' ');
        }
        push_hex_byte(s, bytes[i]);
        proof {
            let next = bytes@.subrange(start as int, i + 1);
            assert(next.drop_last() =~= bytes@.subrange(start as int, i as int));
            assert(next.last() == bytes@[i as int]);
            if i == start {
                assert(next.len() == 1);
                assert(bytes@.subrange(start as int, i as int).len() == 0);
                assert(s@ =~= init + seq!['['] + list_items(next));
            } else {
                assert(s@ =~= init + seq!['['] + list_items(next));
            }
        }
        i = i + 1;
    }
    push_char(s, ']');
    assert(s@ =~= init + byte_list(bytes@.subrange(start as int, end as int)));
}

/// Renders `bytes` the way `{:02x?}` prints a byte slice, e.g. `[0a, ff]`.
pub fn debug_hex_list(bytes: &[u8]) -> (s: String)
    ensures
        s@ == byte_list(bytes@),
{
    let mut s = String::new();
    push_byte_list(&mut s, bytes, 0, bytes.len());
    assert(bytes@.subrange(0, bytes@.len() as int) =~= bytes@);
    assert(s@ =~= byte_list(bytes@));
    s
}

fn raw_payload_summary(data: &[u8]) -> (s: String)
    ensures
        s@ == raw_summary(data@),
{
    let mut s = String::new();
    s.append(" { raw: ");
    push_byte_list(&mut s, data, 0, data.len());
    s.append(" }");
    assert(data@.subrange(0, data@.len() as int) =~= data@);
    assert(s@ =~= raw_summary(data@));
    s
}

/// Summarises the payload of a complete entry state (the bytes after its variant
/// tag): its raw bytes are listed, as their layout is not interpreted.
pub fn decode_complete(data: &[u8]) -> (s: String)
    ensures
        s@ == raw_summary(data@),
{
    raw_payload_summary(data)
}

/// Summarises the payload of a partial entry state (the bytes after its variant
/// tag) in the same way as a complete one.
pub fn decode_partial(data: &[u8]) -> (s: String)
    ensures
        s@ == raw_summary(data@),
{
    raw_payload_summary(data)
}

/// A listing of `n` bytes holds `n` items, so it is `4n` characters long for a
/// non-empty slice (two digits per item, two separator characters between items,
/// two brackets) and `2` for an empty one.
pub proof fn lemma_byte_list_len(bytes: Seq<u8>)
    ensures
        byte_list(bytes).len() == if bytes.len() == 0 { 2 } else { 4 * bytes.len() },
    decreases bytes.len(),
{
    lemma_list_items_len(bytes);
}

proof fn lemma_list_items_len(bytes: Seq<u8>)
    ensures
        list_items(bytes).len() == if bytes.len() == 0 { 0 } else { 4 * bytes.len() - 2 },
    decreases bytes.len(),
{
    if bytes.len() > 1 {
        lemma_list_items_len(bytes.drop_last());
    }
}

/// Item `i` of a listing sits at positions `4 * i + 1` and `4 * i + 2`: the high
/// and low hex digits of byte `i`.
pub proof fn lemma_byte_list_index(bytes: Seq<u8>, i: int)
    requires
        0 <= i < bytes.len(),
    ensures
        byte_list(bytes)[4 * i + 1] == hex_digit(bytes[i] / 16),
        byte_list(bytes)[4 * i + 2] == hex_digit(bytes[i] % 16),
{
    lemma_list_items_index(bytes, i);
    lemma_list_items_len(bytes);
}

proof fn lemma_list_items_index(bytes: Seq<u8>, i: int)
    requires
        0 <= i < bytes.len(),
    ensures
        list_items(bytes)[4 * i] == hex_digit(bytes[i] / 16),
        list_items(bytes)[4 * i + 1] == hex_digit(bytes[i] % 16),
        i < bytes.len() - 1 ==> list_items(bytes)[4 * i + 2] == ',' && list_items(bytes)[4 * i
            + 3] == ' ',
    decreases bytes.len(),
{
    if bytes.len() > 1 {
        lemma_list_items_len(bytes.drop_last());
        if i < bytes.len() - 1 {
            lemma_list_items_index(bytes.drop_last(), i);
        }
    }
}

/// A listing determines the bytes listed: distinct byte strings are listed differently.
pub proof fn lemma_byte_list_injective(a: Seq<u8>, b: Seq<u8>)
    requires
        byte_list(a) == byte_list(b),
    ensures
        a == b,
{
    lemma_byte_list_len(a);
    lemma_byte_list_len(b);
    assert(a.len() == b.len());
    assert forall|i: int| 0 <= i < a.len() implies a[i] == b[i] by {
        lemma_byte_list_index(a, i);
        lemma_byte_list_index(b, i);
        lemma_hex_digit_injective(a[i] / 16, b[i] / 16);
        lemma_hex_digit_injective(a[i] % 16, b[i] % 16);
    }
    assert(a =~= b);
}

/// `l` is the `{:02x?}` listing of `bytes`: `[`, then for each byte its two hex
/// digits, items separated by `, `, then `]`.
pub open spec fn is_listing_of(l: Seq<char>, bytes: Seq<u8>) -> bool {
    &&& l.len() == (if bytes.len() == 0 { 2 } else { 4 * bytes.len() })
    &&& l[0] == '['
    &&& l[l.len() - 1] == ']'
    &&& forall|i: int|
        #![trigger bytes[i]]
        0 <= i < bytes.len() ==> {
            &&& l[4 * i + 1] == hex_digit(bytes[i] / 16)
            &&& l[4 * i + 2] == hex_digit(bytes[i] % 16)
            &&& (i < bytes.len() - 1 ==> l[4 * i + 3] == ',' && l[4 * i + 4] == ' ')
        }
}

/// What `debug_hex_list` returns is the listing of every byte of its input.
pub proof fn lemma_byte_list_is_listing(bytes: Seq<u8>)
    ensures
        is_listing_of(byte_list(bytes), bytes),
{
    let l = byte_list(bytes);
    lemma_list_items_len(bytes);
    assert(l.len() == (if bytes.len() == 0 { 2 } else { 4 * bytes.len() }));
    assert(l[0] == '[');
    assert(l[l.len() - 1] == ']');
    assert forall|i: int| #![trigger bytes[i]] 0 <= i < bytes.len() implies {
        &&& l[4 * i + 1] == hex_digit(bytes[i] / 16)
        &&& l[4 * i + 2] == hex_digit(bytes[i] % 16)
        &&& (i < bytes.len() - 1 ==> l[4 * i + 3] == ',' && l[4 * i + 4] == ' ')
    } by {
        lemma_list_items_index(bytes, i);
    }
}

/// A payload summary is ` { raw: `, the listing of every byte of the payload, and ` }`.
pub proof fn lemma_raw_summary_lists_payload(data: Seq<u8>)
    ensures
        exists|l: Seq<char>|
            #[trigger] is_listing_of(l, data) && raw_summary(data) == " { raw: "@ + l + " }"@,
{
    lemma_byte_list_is_listing(data);
    assert(raw_summary(data) == " { raw: "@ + byte_list(data) + " }"@);
}

/// A payload summary lists `4 * len` characters of items (two for an empty payload)
/// between ` { raw: ` and ` }`, and distinct payloads are summarised differently.
pub proof fn lemma_raw_summary_injective(a: Seq<u8>, b: Seq<u8>)
    requires
        raw_summary(a) == raw_summary(b),
    ensures
        a == b,
{
    let p = " { raw: "@;
    let q = " }"@;
    let sa = raw_summary(a);
    assert(sa.subrange(p.len() as int, sa.len() - q.len()) =~= byte_list(a));
    assert(sa.subrange(p.len() as int, sa.len() - q.len()) =~= byte_list(b));
    lemma_byte_list_injective(a, b);
}

} // verus!
