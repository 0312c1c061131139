//! The decisions of the notes node: which stored blobs it links into its document,
//! under which keys, and what it reports of each.

use vstd::prelude::*;
use vstd::string::StringExecFns;
use crate::hex::{spec_hex, lemma_hex_injective, is_hex_of, lemma_hex_is_hex_of};
use crate::decimal::{spec_decimal, push_decimal, denotes, lemma_decimal_denotes};

verus! {

/// What the blob store reports of a blob.
#[allow(inconsistent_fields)]
pub enum BlobState {
    /// The blob is not stored at all.
    NotFound,
    /// Part of the blob is stored; `size` is the size of the stored part, if known.
    Partial { size: Option<u64> },
    /// The whole blob is stored; `size` is its size in bytes.
    Complete { size: u64 },
}

/// A blob to link into the document: the entry key, and the blob's size.
pub struct NoteLink {
    pub key: String,
    pub size: u64,
}

/// Renders a blob hash as hex (`iroh_blobs::Hash::to_hex`).
/// Claims: the result is the lower-case hex of the hash's 32 bytes, two digits per byte.
#[verifier::external_body]
fn blob_hash_hex(hash: &[u8; 32]) -> (r: String)
    ensures
        r@ == spec_hex(hash@),
{
    iroh_blobs::Hash::from_bytes(*hash).to_hex()
}

/// The document key under which a blob is linked: `notes/` and the hash in hex.
pub open spec fn note_key_text(hash: Seq<u8>) -> Seq<char> {
    "notes/"@ + spec_hex(hash)
}

/// The document key under which the blob with this hash is linked.
pub fn note_key(hash: &[u8; 32]) -> (key: String)
    ensures
        key@ == note_key_text(hash@),
{
    let mut key = String::from_str("notes/");
    let digits = blob_hash_hex(hash);
    key.append(digits.as_str());
    key
}

/// Decides whether the blob with this hash is linked, and how: only a complete blob
/// is, under its note key and with its size.
pub fn plan_link(hash: &[u8; 32], state: &BlobState) -> (link: Option<NoteLink>)
    ensures
        match *state {
            BlobState::Complete { size } => link matches Some(l) && l.key@ == note_key_text(hash@)
                && l.size == size,
            _ => link is None,
        },
{
    match state {
        BlobState::Complete { size } => Some(NoteLink { key: note_key(hash), size: *size }),
        _ => None,
    }
}

/// The line reported after a blob is linked.
pub open spec fn linked_line_text(hash: Seq<u8>, size: nat) -> Seq<char> {
    "linked "@ + spec_hex(hash) + " ("@ + spec_decimal(size) + " bytes)"@
}

/// Renders the line reported after a blob is linked: its hash and its size.
pub fn linked_line(hash: &[u8; 32], size: u64) -> (s: String)
    ensures
        s@ == linked_line_text(hash@, size as nat),
{
    let mut s = String::from_str("linked ");
    let digits = blob_hash_hex(hash);
    s.append(digits.as_str());
    s.append(" (");
    push_decimal(&mut s, size);
    s.append(" bytes)");
    s
}

/// Distinct blobs are linked under distinct keys.
pub proof fn lemma_note_keys_distinct(a: Seq<u8>, b: Seq<u8>)
    requires
        note_key_text(a) == note_key_text(b),
    ensures
        a == b,
{
    let prefix = "notes/"@;
    assert(note_key_text(a).skip(prefix.len() as int) =~= spec_hex(a));
    assert(note_key_text(b).skip(prefix.len() as int) =~= spec_hex(b));
    lemma_hex_injective(a, b);
}

/// A blob's note key is `notes/` followed by the hex of its hash.
pub proof fn lemma_note_key_fields(hash: Seq<u8>)
    ensures
        exists|h: Seq<char>| #[trigger] is_hex_of(h, hash) && note_key_text(hash) == "notes/"@ + h,
{
    lemma_hex_is_hex_of(hash);
}

/// The report of a linked blob is `linked <hex of the hash> (<numeral of the size> bytes)`:
/// the number shown is the blob's size, for every size.
pub proof fn lemma_linked_line_fields(hash: Seq<u8>, size: nat)
    ensures
        exists|h: Seq<char>, d: Seq<char>|
            #![trigger is_hex_of(h, hash), denotes(d, size)]
            is_hex_of(h, hash) && denotes(d, size) && linked_line_text(hash, size) == "linked "@ + h
                + " ("@ + d + " bytes)"@,
{
    lemma_hex_is_hex_of(hash);
    lemma_decimal_denotes(size);
}

} // verus!
