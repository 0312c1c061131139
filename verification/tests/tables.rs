use blobdump::notes::{linked_line, note_key, plan_link, BlobState};
use blobdump::tables::{
    blob_line, format_name, inline_data_lines, outboard_footer, outboard_line, render_tag_line,
    table_line, tag_line,
};

fn sample_hash() -> [u8; 32] {
    let mut h = [0u8; 32];
    for (i, b) in h.iter_mut().enumerate() {
        *b = (i as u8).wrapping_mul(37).wrapping_add(5);
    }
    h
}

fn sample_hash_hex() -> String {
    sample_hash().iter().map(|b| format!("{:02x}", b)).collect()
}

fn hash_and_format(format: u8) -> Vec<u8> {
    let mut v = sample_hash().to_vec();
    v.push(format);
    v
}

#[test]
fn format_names() {
    assert_eq!(format_name(0), "Raw");
    assert_eq!(format_name(1), "HashSeq");
    assert_eq!(format_name(2), "Unknown");
    assert_eq!(format_name(255), "Unknown");
}

#[test]
fn tag_line_for_plain_name() {
    let line = tag_line(b"my-tag", &hash_and_format(1));
    assert_eq!(
        line,
        format!("  tag \"my-tag\" => hash={} format=1 (HashSeq)", sample_hash_hex())
    );
}

#[test]
fn tag_line_escapes_and_replaces() {
    let line = tag_line(b"say \"hi\"\n", &hash_and_format(0));
    assert_eq!(
        line,
        format!("  tag \"say \\\"hi\\\"\\n\" => hash={} format=0 (Raw)", sample_hash_hex())
    );
    let lossy = tag_line(&[b'a', 0xff], &hash_and_format(9));
    assert_eq!(
        lossy,
        format!("  tag \"a\u{fffd}\" => hash={} format=9 (Unknown)", sample_hash_hex())
    );
}

#[test]
fn render_tag_line_takes_printed_name() {
    let line = render_tag_line("<name>", &hash_and_format(200));
    assert_eq!(line, format!("  tag <name> => hash={} format=200 (Unknown)", sample_hash_hex()));
}

#[test]
fn blob_lines_by_variant() {
    let key = sample_hash();
    let h = sample_hash_hex();
    assert_eq!(blob_line(&key, &[0, 1, 2]), format!("  hash {} => Complete {{ raw: [01, 02] }}", h));
    assert_eq!(blob_line(&key, &[1]), format!("  hash {} => Partial {{ raw: [] }}", h));
    assert_eq!(blob_line(&key, &[2, 0]), format!("  hash {} => ?", h));
    assert_eq!(blob_line(&key, &[]), format!("  hash {} => ?", h));
}

#[test]
fn inline_data_lines_rule_hash_and_data() {
    let key = sample_hash();
    let lines = inline_data_lines(&key, b"note body");
    assert_eq!(lines.len(), 3);
    assert_eq!(lines[0], "-".repeat(60));
    assert_eq!(lines[1], format!("hash {}", sample_hash_hex()));
    assert_eq!(lines[2], "data [9 bytes, text]:\nnote body");
}

#[test]
fn outboard_lines() {
    let key = sample_hash();
    assert_eq!(
        outboard_line(&key, 1024),
        format!("  hash {} => outboard 1024 bytes", sample_hash_hex())
    );
    assert_eq!(outboard_footer(0), Some("  (empty)".to_string()));
    assert_eq!(outboard_footer(3), None);
}

#[test]
fn table_lines() {
    assert_eq!(table_line("blobs-0"), "  blobs-0");
}

#[test]
fn note_keys_use_hash_hex() {
    let hash = sample_hash();
    assert_eq!(note_key(&hash), format!("notes/{}", sample_hash_hex()));
    let other = [0u8; 32];
    assert_eq!(note_key(&other), format!("notes/{}", "0".repeat(64)));
    assert_ne!(note_key(&hash), note_key(&other));
}

#[test]
fn only_complete_blobs_are_linked() {
    let hash = sample_hash();
    let link = plan_link(&hash, &BlobState::Complete { size: 42 }).expect("complete blob is linked");
    assert_eq!(link.key, format!("notes/{}", sample_hash_hex()));
    assert_eq!(link.size, 42);
    assert!(plan_link(&hash, &BlobState::Partial { size: Some(10) }).is_none());
    assert!(plan_link(&hash, &BlobState::Partial { size: None }).is_none());
    assert!(plan_link(&hash, &BlobState::NotFound).is_none());
}

#[test]
fn linked_report_line() {
    let hash = sample_hash();
    assert_eq!(linked_line(&hash, 7), format!("linked {} (7 bytes)", sample_hash_hex()));
}
