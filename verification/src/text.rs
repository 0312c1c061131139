//! Showing a stored blob: as text when it is clean UTF-8, otherwise as a byte listing.

use vstd::prelude::*;
use vstd::utf8::{
    valid_utf8, decode_utf8, encode_utf8, encode_utf8_decode_utf8, decode_utf8_encode_utf8,
    pop_first_scalar, decode_first_scalar,
};
use vstd::string::{StringSliceAdditionalSpecFns, StringExecFns};
use crate::decimal::{spec_decimal, push_decimal, denotes, lemma_decimal_denotes};
use crate::listing::{byte_list, push_byte_list, is_listing_of, lemma_byte_list_is_listing};

verus! {

/// Whether `c` is a control character: Unicode general category `Cc`, which is
/// U+0000 to U+001F and U+007F to U+009F.
pub open spec fn is_control(c: char) -> bool {
    (c as u32) <= 0x1f || (0x7f <= (c as u32) && (c as u32) <= 0x9f)
}

/// The control characters that text may hold: line feed, carriage return and tab.
pub open spec fn is_layout(c: char) -> bool {
    (c as u32) == 10 || (c as u32) == 13 || (c as u32) == 9
}

/// Text is clean when each of its control characters is a line feed, carriage
/// return or tab.
pub open spec fn clean_text(t: Seq<char>) -> bool {
    forall|k: int| 0 <= k < t.len() ==> !is_control(#[trigger] t[k]) || is_layout(t[k])
}

/// The most bytes that the listing of a binary blob shows.
pub const BINARY_PREVIEW: usize = 96;

/// The number of bytes that the listing of a binary blob of `len` bytes shows.
pub open spec fn preview_len(len: nat) -> nat {
    if len < BINARY_PREVIEW { len } else { BINARY_PREVIEW as nat }
}

/// What is shown of a blob under `label`: its size and, for clean UTF-8, the text
/// itself; for other UTF-8, a listing of all its bytes; for bytes that are not
/// UTF-8, a listing of the first `BINARY_PREVIEW` of them.
pub open spec fn shown_text(label: Seq<char>, bytes: Seq<u8>) -> Seq<char> {
    let head = label + " ["@ + spec_decimal(bytes.len());
    if !valid_utf8(bytes) {
        head + " bytes, binary]: "@ + byte_list(bytes.take(preview_len(bytes.len()) as int))
    } else if clean_text(decode_utf8(bytes)) {
        head + " bytes, text]:\n"@ + decode_utf8(bytes)
    } else {
        head + " bytes, mixed]: "@ + byte_list(bytes)
    }
}

/// Reads `bytes` as UTF-8 (`std::str::from_utf8`).
/// Claims: a string comes back exactly when the bytes are well-formed UTF-8, and it
/// is the text those bytes encode.
#[verifier::external_body]
fn utf8_str(bytes: &[u8]) -> (r: Option<&str>)
    ensures
        r is Some <==> valid_utf8(bytes@),
        r matches Some(t) ==> t.spec_bytes() == bytes@,
{
    std::str::from_utf8(bytes).ok()
}

fn is_control_char(c: char) -> (r: bool)
    ensures
        r == is_control(c),
{
    let u = c as u32;
    u <= 0x1f || (0x7f <= u && u <= 0x9f)
}

/// Whether each control character of `t` is a line feed, carriage return or tab.
fn is_clean_text(t: &str) -> (r: bool)
    ensures
        r == clean_text(t@),
{
    broadcast use vstd::string::group_string_axioms;
    let mut clean = true;
    for c in it: t.chars()
        invariant
            it.seq() == t@,
            clean == (forall|k: int| 0 <= k < it.index() ==> !is_control(#[trigger] t@[k]) || is_layout(t@[k])),
    {
        let u = c as u32;
        if is_control_char(c) && !(u == 10 || u == 13 || u == 9) {
            clean = false;
        }
    }
    clean
}

/// Renders what is printed for a blob under `label`: `label [N bytes, text]:`
/// followed by a line break and the text, when the blob is UTF-8 whose only
/// control characters are line breaks and tabs; `label [N bytes, mixed]: [..]`
/// listing every byte, for other UTF-8; and `label [N bytes, binary]: [..]`
/// listing at most the first 96 bytes, for bytes that are not UTF-8.
pub fn show_text(label: &str, bytes: &[u8]) -> (s: String)
    ensures
        s@ == shown_text(label@, bytes@),
{
    let mut s = String::from_str(label);
    s.append(" [");
    push_decimal(&mut s, bytes.len() as u64);
    match utf8_str(bytes) {
        Some(t) => {
            proof {
                encode_utf8_decode_utf8(t@);
            }
            if is_clean_text(t) {
                s.append(" bytes, text]:\n");
                s.append(t);
            } else {
                s.append(" bytes, mixed]: ");
                push_byte_list(&mut s, bytes, 0, bytes.len());
                assert(bytes@.subrange(0, bytes@.len() as int) =~= bytes@);
            }
        },
        None => {
            s.append(" bytes, binary]: ");
            let end = if bytes.len() < BINARY_PREVIEW { bytes.len() } else { BINARY_PREVIEW };
            push_byte_list(&mut s, bytes, 0, end);
            assert(bytes@.subrange(0, end as int) =~= bytes@.take(end as int));
        },
    }
    assert(s@ =~= shown_text(label@, bytes@));
    s
}

/// Whether a byte is printable ASCII, a line feed, a carriage return or a tab.
pub open spec fn is_plain_ascii(b: u8) -> bool {
    (0x20 <= b && b <= 0x7e) || b == 9 || b == 10 || b == 13
}

proof fn lemma_ascii_decodes(bytes: Seq<u8>)
    requires
        forall|i: int| 0 <= i < bytes.len() ==> #[trigger] bytes[i] < 0x80,
    ensures
        valid_utf8(bytes),
        decode_utf8(bytes).len() == bytes.len(),
        forall|i: int| 0 <= i < bytes.len() ==> (#[trigger] decode_utf8(bytes)[i]) as u32 == bytes[i] as u32,
    decreases bytes.len(),
{
    if bytes.len() > 0 {
        let rest = pop_first_scalar(bytes);
        assert(rest =~= bytes.drop_first());
        assert forall|i: int| 0 <= i < rest.len() implies #[trigger] rest[i] < 0x80 by {
            assert(rest[i] == bytes[i + 1]);
        }
        lemma_ascii_decodes(rest);
        let b0 = bytes[0];
        assert(b0 < 0x80 ==> (b0 & 0x7f) as u32 == b0 as u32) by (bit_vector);
        assert(decode_first_scalar(bytes) == b0 as u32);
        let d = decode_utf8(bytes);
        assert forall|i: int| 0 <= i < bytes.len() implies (#[trigger] d[i]) as u32 == bytes[i] as u32 by {
            if i > 0 {
                assert(d[i] == decode_utf8(rest)[i - 1]);
                assert(rest[i - 1] == bytes[i]);
            }
        }
    }
}

/// A blob made of printable ASCII, line feeds, carriage returns and tabs is shown
/// as text, and the text shown is its bytes read as characters.
pub proof fn lemma_plain_ascii_shown_as_text(label: Seq<char>, bytes: Seq<u8>)
    requires
        forall|i: int| 0 <= i < bytes.len() ==> is_plain_ascii(#[trigger] bytes[i]),
    ensures
        valid_utf8(bytes),
        clean_text(decode_utf8(bytes)),
        shown_text(label, bytes) == label + " ["@ + spec_decimal(bytes.len())
            + " bytes, text]:\n"@ + decode_utf8(bytes),
        forall|i: int| 0 <= i < bytes.len() ==> (#[trigger] decode_utf8(bytes)[i]) as u32 == bytes[i] as u32,
{
    assert forall|i: int| 0 <= i < bytes.len() implies #[trigger] bytes[i] < 0x80 by {
        assert(is_plain_ascii(bytes[i]));
    }
    lemma_ascii_decodes(bytes);
    let d = decode_utf8(bytes);
    assert forall|k: int| 0 <= k < d.len() implies !is_control(#[trigger] d[k]) || is_layout(d[k]) by {
        assert(is_plain_ascii(bytes[k]));
        assert(d[k] as u32 == bytes[k] as u32);
    }
}

/// When a blob is shown as text, the text after the header encodes back to
/// exactly the stored bytes: nothing is dropped, added or altered.
pub proof fn lemma_text_shows_stored_bytes(label: Seq<char>, bytes: Seq<u8>)
    requires
        valid_utf8(bytes),
        clean_text(decode_utf8(bytes)),
    ensures
        ({
            let head = label + " ["@ + spec_decimal(bytes.len()) + " bytes, text]:\n"@;
            &&& shown_text(label, bytes) == head + decode_utf8(bytes)
            &&& encode_utf8(shown_text(label, bytes).skip(head.len() as int)) == bytes
        }),
{
    let head = label + " ["@ + spec_decimal(bytes.len()) + " bytes, text]:\n"@;
    assert(shown_text(label, bytes) =~= head + decode_utf8(bytes));
    assert((head + decode_utf8(bytes)).skip(head.len() as int) =~= decode_utf8(bytes));
    decode_utf8_encode_utf8(bytes);
}

/// Text is clean exactly when each of its characters is printable ASCII (U+0020 to
/// U+007E), a tab, a line feed, a carriage return, or at or above U+00A0.
pub proof fn lemma_clean_text_by_code_point(t: Seq<char>)
    ensures
        clean_text(t) <==> forall|k: int|
            0 <= k < t.len() ==> ((0x20 <= (#[trigger] t[k]) as u32 && (t[k] as u32) < 0x7f)
                || (t[k] as u32) >= 0xa0 || (t[k] as u32) == 9 || (t[k] as u32) == 10
                || (t[k] as u32) == 13),
{
}

/// A blob that is not UTF-8 is shown as `label [N bytes, binary]: ` and the listing
/// of its first `min(N, 96)` bytes, where `N` is the numeral of its length.
pub proof fn lemma_shown_binary(label: Seq<char>, bytes: Seq<u8>)
    requires
        !valid_utf8(bytes),
    ensures
        bytes.len() <= 96 ==> exists|d: Seq<char>, l: Seq<char>|
            #![trigger denotes(d, bytes.len()), is_listing_of(l, bytes)]
            denotes(d, bytes.len()) && is_listing_of(l, bytes) && shown_text(label, bytes)
                == label + " ["@ + d + " bytes, binary]: "@ + l,
        bytes.len() > 96 ==> exists|d: Seq<char>, l: Seq<char>|
            #![trigger denotes(d, bytes.len()), is_listing_of(l, bytes.take(96))]
            denotes(d, bytes.len()) && is_listing_of(l, bytes.take(96)) && shown_text(label, bytes)
                == label + " ["@ + d + " bytes, binary]: "@ + l,
{
    lemma_decimal_denotes(bytes.len());
    if bytes.len() <= 96 {
        assert(bytes.take(preview_len(bytes.len()) as int) =~= bytes);
        lemma_byte_list_is_listing(bytes);
        assert(shown_text(label, bytes) == label + " ["@ + spec_decimal(bytes.len())
            + " bytes, binary]: "@ + byte_list(bytes));
    } else {
        lemma_byte_list_is_listing(bytes.take(96));
        assert(shown_text(label, bytes) == label + " ["@ + spec_decimal(bytes.len())
            + " bytes, binary]: "@ + byte_list(bytes.take(96)));
    }
}

/// UTF-8 that is not clean text is shown as `label [N bytes, mixed]: ` and the listing
/// of all of its bytes, where `N` is the numeral of its length: nothing is cut.
pub proof fn lemma_shown_mixed(label: Seq<char>, bytes: Seq<u8>)
    requires
        valid_utf8(bytes),
        !clean_text(decode_utf8(bytes)),
    ensures
        exists|d: Seq<char>, l: Seq<char>|
            #![trigger denotes(d, bytes.len()), is_listing_of(l, bytes)]
            denotes(d, bytes.len()) && is_listing_of(l, bytes) && shown_text(label, bytes)
                == label + " ["@ + d + " bytes, mixed]: "@ + l,
{
    lemma_decimal_denotes(bytes.len());
    lemma_byte_list_is_listing(bytes);
    assert(shown_text(label, bytes) == label + " ["@ + spec_decimal(bytes.len())
        + " bytes, mixed]: "@ + byte_list(bytes));
}

/// Clean UTF-8 text is shown as `label [N bytes, text]:`, a line feed, and a text
/// that encodes back to exactly the stored bytes, where `N` is the numeral of its length.
pub proof fn lemma_shown_text(label: Seq<char>, bytes: Seq<u8>)
    requires
        valid_utf8(bytes),
        clean_text(decode_utf8(bytes)),
    ensures
        exists|d: Seq<char>, t: Seq<char>|
            #![trigger denotes(d, bytes.len()), encode_utf8(t)]
            denotes(d, bytes.len()) && encode_utf8(t) == bytes && shown_text(label, bytes)
                == label + " ["@ + d + " bytes, text]:\n"@ + t,
{
    lemma_decimal_denotes(bytes.len());
    decode_utf8_encode_utf8(bytes);
    assert(shown_text(label, bytes) == label + " ["@ + spec_decimal(bytes.len())
        + " bytes, text]:\n"@ + decode_utf8(bytes));
}

} // verus!
