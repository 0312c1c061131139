//! The lines listed for the entries of the blob store's tables: tags, blob entry
//! states, inline data and inline outboards.

use vstd::prelude::*;
use vstd::utf8::{valid_utf8, decode_utf8};
use vstd::string::StringExecFns;
use crate::hex::{spec_hex, push_hex, is_hex_of, lemma_hex_is_hex_of};
use crate::decimal::{spec_decimal, push_decimal, denotes, lemma_decimal_denotes};
use crate::listing::{
    raw_summary, decode_complete, decode_partial, byte_list, is_listing_of, lemma_byte_list_is_listing,
};
use crate::text::{shown_text, show_text};

verus! {

/// Width of a hash, in bytes.
pub const HASH_LEN: usize = 32;

/// Width of a stored hash-and-format value: the hash, then one format byte.
pub const HASH_AND_FORMAT_LEN: usize = 33;

/// The text of `String::from_utf8_lossy` on `bytes`: the bytes read as UTF-8, with
/// each ill-formed part replaced by U+FFFD.
pub uninterp spec fn lossy_utf8(bytes: Seq<u8>) -> Seq<char>;

/// The text that `{:?}` prints for a string: quoted, with escapes.
pub uninterp spec fn debug_quoted(text: Seq<char>) -> Seq<char>;

/// Reads `bytes` as UTF-8, replacing ill-formed parts (`String::from_utf8_lossy`).
/// Claims: the result is `lossy_utf8` of the bytes, and for well-formed UTF-8 it is
/// the text they encode, unchanged.
#[verifier::external_body]
fn utf8_lossy(bytes: &[u8]) -> (r: String)
    ensures
        r@ == lossy_utf8(bytes@),
        valid_utf8(bytes@) ==> r@ == decode_utf8(bytes@),
{
    String::from_utf8_lossy(bytes).into_owned()
}

/// Formats a string with `{:?}`.
/// Claims: the result is `debug_quoted` of the string's characters.
#[verifier::external_body]
fn debug_str(text: &str) -> (r: String)
    ensures
        r@ == debug_quoted(text@),
{
    format!("{:?}", text)
}

/// The name of a blob format byte: 0 is a raw blob, 1 a hash sequence.
pub open spec fn spec_format_name(format: u8) -> Seq<char> {
    if format == 0 {
        "Raw"@
    } else if format == 1 {
        "HashSeq"@
    } else {
        "Unknown"@
    }
}

/// Names a blob format byte: `Raw` (0), `HashSeq` (1), otherwise `Unknown`.
pub fn format_name(format: u8) -> (r: &'static str)
    ensures
        r@ == spec_format_name(format),
{
    if format == 0 {
        "Raw"
    } else if format == 1 {
        "HashSeq"
    } else {
        "Unknown"
    }
}

/// The line of a tag whose name prints as `quoted` and whose value is the
/// hash-and-format `value`: its first 32 bytes are the hash, its last the format.
pub open spec fn tag_line_text(quoted: Seq<char>, value: Seq<u8>) -> Seq<char> {
    let format = value[HASH_LEN as int];
    "  tag "@ + quoted + " => hash="@ + spec_hex(value.take(HASH_LEN as int)) + " format="@
        + spec_decimal(format as nat) + " ("@ + spec_format_name(format) + ")"@
}

/// Renders the line of a tag, given the printed form of its name.
pub fn render_tag_line(quoted: &str, value: &[u8]) -> (s: String)
    requires
        value@.len() == HASH_AND_FORMAT_LEN,
    ensures
        s@ == tag_line_text(quoted@, value@),
{
    let mut s = String::from_str("  tag ");
    s.append(quoted);
    s.append(" => hash=");
    push_hex(&mut s, value, 0, HASH_LEN);
    s.append(" format=");
    let format = value[HASH_LEN];
    push_decimal(&mut s, format as u64);
    s.append(" (");
    s.append(format_name(format));
    s.append(")");
    assert(value@.subrange(0, HASH_LEN as int) =~= value@.take(HASH_LEN as int));
    assert(s@ =~= tag_line_text(quoted@, value@));
    s
}

/// Renders the line of an entry of the tags table: the tag name (its bytes read as
/// UTF-8, ill-formed parts replaced) printed with `{:?}`, the hash in hex, and the
/// format byte with its name.
pub fn tag_line(key: &[u8], value: &[u8]) -> (s: String)
    requires
        value@.len() == HASH_AND_FORMAT_LEN,
    ensures
        s@ == tag_line_text(debug_quoted(lossy_utf8(key@)), value@),
{
    let name = utf8_lossy(key);
    let quoted = debug_str(name.as_str());
    render_tag_line(quoted.as_str(), value)
}

/// What is printed for a stored entry state after the hash: its variant, named by
/// the first byte (0 complete, 1 partial), then a summary of the rest; `?` when the
/// first byte is neither or the value is empty.
pub open spec fn entry_state_text(value: Seq<u8>) -> Seq<char> {
    if value.len() > 0 && value[0] == 0 {
        "Complete"@ + raw_summary(value.skip(1))
    } else if value.len() > 0 && value[0] == 1 {
        "Partial"@ + raw_summary(value.skip(1))
    } else {
        "?"@
    }
}

/// The line of an entry of the blobs table.
pub open spec fn blob_line_text(key: Seq<u8>, value: Seq<u8>) -> Seq<char> {
    "  hash "@ + spec_hex(key) + " => "@ + entry_state_text(value)
}

/// Renders the line of an entry of the blobs table: the hash in hex and the entry
/// state's variant with a summary of its payload.
pub fn blob_line(key: &[u8], value: &[u8]) -> (s: String)
    ensures
        s@ == blob_line_text(key@, value@),
{
    let mut s = String::from_str("  hash ");
    push_hex(&mut s, key, 0, key.len());
    s.append(" => ");
    if value.len() > 0 && value[0] == 0 {
        let extra = decode_complete(&value[1..value.len()]);
        s.append("Complete");
        s.append(extra.as_str());
    } else if value.len() > 0 && value[0] == 1 {
        let extra = decode_partial(&value[1..value.len()]);
        s.append("Partial");
        s.append(extra.as_str());
    } else {
        s.append("?");
    }
    assert(key@.subrange(0, key@.len() as int) =~= key@);
    assert(value@.len() > 0 ==> value@.subrange(1, value@.len() as int) =~= value@.skip(1));
    assert(s@ =~= blob_line_text(key@, value@));
    s
}

/// The rule printed before each inline blob.
pub open spec fn separator_text() -> Seq<char> {
    Seq::new(60, |i: int| '-')
}

/// The lines printed for an entry of the inline-data table: a rule, the hash, and
/// what is shown of the data.
pub open spec fn inline_data_text(key: Seq<u8>, value: Seq<u8>) -> Seq<Seq<char>> {
    seq![separator_text(), "hash "@ + spec_hex(key), shown_text("data"@, value)]
}

/// Renders the lines of an entry of the inline-data table.
pub fn inline_data_lines(key: &[u8], value: &[u8]) -> (lines: Vec<String>)
    ensures
        lines@.len() == 3,
        forall|i: int| 0 <= i < 3 ==> #[trigger] lines@[i]@ == inline_data_text(key@, value@)[i],
{
    let mut rule = String::new();
    let mut i: usize = 0;
    while i < 60
        invariant
            i <= 60,
            rule@ == Seq::new(i as nat, |k: int| '-'),
        decreases 60 - i,
    {
        crate::hex::push_char(&mut rule, '-');
        assert(rule@ =~= Seq::new((i + 1) as nat, |k: int| '-'));
        i = i + 1;
    }
    let mut hash = String::from_str("hash ");
    push_hex(&mut hash, key, 0, key.len());
    assert(key@.subrange(0, key@.len() as int) =~= key@);
    let data = show_text("data", value);
    let mut lines = Vec::new();
    lines.push(rule);
    lines.push(hash);
    lines.push(data);
    lines
}

/// The line of an entry of the inline-outboard table.
pub open spec fn outboard_line_text(key: Seq<u8>, len: nat) -> Seq<char> {
    "  hash "@ + spec_hex(key) + " => outboard "@ + spec_decimal(len) + " bytes"@
}

/// Renders the line of an entry of the inline-outboard table: the hash in hex and
/// the outboard's size in bytes.
pub fn outboard_line(key: &[u8], len: usize) -> (s: String)
    ensures
        s@ == outboard_line_text(key@, len as nat),
{
    let mut s = String::from_str("  hash ");
    push_hex(&mut s, key, 0, key.len());
    s.append(" => outboard ");
    push_decimal(&mut s, len as u64);
    s.append(" bytes");
    assert(key@.subrange(0, key@.len() as int) =~= key@);
    assert(s@ =~= outboard_line_text(key@, len as nat));
    s
}

/// The line that closes the inline-outboard listing: `  (empty)` when it listed no
/// entry, nothing otherwise.
pub fn outboard_footer(count: usize) -> (r: Option<String>)
    ensures
        r is Some <==> count == 0,
        r matches Some(s) ==> s@ == "  (empty)"@,
{
    if count == 0 {
        Some(String::from_str("  (empty)"))
    } else {
        None
    }
}

/// Renders the line that lists a table by name.
pub fn table_line(name: &str) -> (s: String)
    ensures
        s@ == "  "@ + name@,
{
    let mut s = String::from_str("  ");
    s.append(name);
    s
}

/// A tag's line holds the printed name, the hex of the value's first 32 bytes, the
/// numeral of its last byte, and that byte's format name.
pub proof fn lemma_tag_line_fields(quoted: Seq<char>, value: Seq<u8>)
    requires
        value.len() == 33,
    ensures
        exists|h: Seq<char>, d: Seq<char>|
            #![trigger is_hex_of(h, value.take(32)), denotes(d, value[32] as nat)]
            is_hex_of(h, value.take(32)) && denotes(d, value[32] as nat) && tag_line_text(quoted, value)
                == "  tag "@ + quoted + " => hash="@ + h + " format="@ + d + " ("@ + (if value[32]
                == 0 {
                "Raw"@
            } else if value[32] == 1 {
                "HashSeq"@
            } else {
                "Unknown"@
            }) + ")"@,
{
    lemma_hex_is_hex_of(value.take(32));
    lemma_decimal_denotes(value[32] as nat);
}

/// A blobs entry whose state starts with 0 is listed as `  hash <hex> => Complete { raw: `,
/// the listing of exactly the bytes after the first, and ` }`.
pub proof fn lemma_blob_line_complete(key: Seq<u8>, value: Seq<u8>)
    requires
        value.len() > 0,
        value[0] == 0,
    ensures
        exists|h: Seq<char>, l: Seq<char>|
            #![trigger is_hex_of(h, key), is_listing_of(l, value.skip(1))]
            is_hex_of(h, key) && is_listing_of(l, value.skip(1)) && blob_line_text(key, value)
                == "  hash "@ + h + " => "@ + "Complete"@ + " { raw: "@ + l + " }"@,
{
    lemma_hex_is_hex_of(key);
    lemma_byte_list_is_listing(value.skip(1));
    assert(blob_line_text(key, value) == "  hash "@ + spec_hex(key) + " => "@ + "Complete"@
        + " { raw: "@ + byte_list(value.skip(1)) + " }"@);
}

/// A blobs entry whose state starts with 1 is listed as `  hash <hex> => Partial { raw: `,
/// the listing of exactly the bytes after the first, and ` }`.
pub proof fn lemma_blob_line_partial(key: Seq<u8>, value: Seq<u8>)
    requires
        value.len() > 0,
        value[0] == 1,
    ensures
        exists|h: Seq<char>, l: Seq<char>|
            #![trigger is_hex_of(h, key), is_listing_of(l, value.skip(1))]
            is_hex_of(h, key) && is_listing_of(l, value.skip(1)) && blob_line_text(key, value)
                == "  hash "@ + h + " => "@ + "Partial"@ + " { raw: "@ + l + " }"@,
{
    lemma_hex_is_hex_of(key);
    lemma_byte_list_is_listing(value.skip(1));
    assert(blob_line_text(key, value) == "  hash "@ + spec_hex(key) + " => "@ + "Partial"@
        + " { raw: "@ + byte_list(value.skip(1)) + " }"@);
}

/// A blobs entry whose state is empty or starts with another byte is listed as
/// `  hash <hex> => ?`.
pub proof fn lemma_blob_line_unknown(key: Seq<u8>, value: Seq<u8>)
    requires
        !(value.len() > 0 && (value[0] == 0 || value[0] == 1)),
    ensures
        exists|h: Seq<char>|
            #[trigger] is_hex_of(h, key) && blob_line_text(key, value) == "  hash "@ + h + " => "@
                + "?"@,
{
    lemma_hex_is_hex_of(key);
}

/// An inline-data entry is listed as a rule of 60 dashes, `hash ` and the key's hex,
/// and what `show_text` shows for the whole stored value under `data`, which
/// reports the value's full length.
pub proof fn lemma_inline_data_lines(key: Seq<u8>, value: Seq<u8>)
    ensures
        inline_data_text(key, value).len() == 3,
        inline_data_text(key, value)[0].len() == 60,
        forall|k: int| 0 <= k < 60 ==> #[trigger] inline_data_text(key, value)[0][k] == '-',
        exists|h: Seq<char>|
            #[trigger] is_hex_of(h, key) && inline_data_text(key, value)[1] == "hash "@ + h,
        inline_data_text(key, value)[2] == shown_text("data"@, value),
        exists|d: Seq<char>|
            #[trigger] denotes(d, value.len()) && inline_data_text(key, value)[2].take(
                ("data"@ + " ["@ + d).len() as int,
            ) == "data"@ + " ["@ + d,
{
    lemma_hex_is_hex_of(key);
    lemma_decimal_denotes(value.len());
    let line = shown_text("data"@, value);
    let head = "data"@ + " ["@ + spec_decimal(value.len());
    assert(line.take(head.len() as int) =~= head);
}

/// An inline-outboard entry is listed as `  hash <hex> => outboard <numeral of its size> bytes`.
pub proof fn lemma_outboard_line_fields(key: Seq<u8>, len: nat)
    ensures
        exists|h: Seq<char>, d: Seq<char>|
            #![trigger is_hex_of(h, key), denotes(d, len)]
            is_hex_of(h, key) && denotes(d, len) && outboard_line_text(key, len) == "  hash "@ + h
                + " => outboard "@ + d + " bytes"@,
{
    lemma_hex_is_hex_of(key);
    lemma_decimal_denotes(len);
}

} // verus!
