use roextract::category::Category;
use roextract::classify::{determine_category, extension_for, extract_bytes, find_header};
use roextract::coordinator::{extract_payload, extract_plan};
use roextract::search::{bytes_contains, bytes_search};

#[test]
fn search_finds_earliest_occurrence() {
    assert_eq!(bytes_search(b"xxabyab", b"ab"), Some(2));
    assert_eq!(bytes_search(b"abc", b"abc"), Some(0));
    assert_eq!(bytes_search(b"abc", b"zz"), None);
}

#[test]
fn search_empty_needle_never_found() {
    assert_eq!(bytes_search(b"abc", b""), None);
    assert!(!bytes_contains(b"abc", b""));
}

#[test]
fn contains_matches_anywhere() {
    assert!(bytes_contains(b"..OggS..", b"OggS"));
    assert!(!bytes_contains(b"..Ogg", b"OggS"));
}

#[test]
fn find_header_prefers_catalog_order_over_byte_offset() {
    // ID3 occurs earlier in the buffer, but OggS is listed first in the
    // catalog, so OggS wins.
    let bytes = b"ID3 then later OggS";
    assert_eq!(find_header(Category::Music, bytes).unwrap(), "OggS");
}

#[test]
fn find_header_reports_absence() {
    let r = find_header(Category::Images, b"no image marker here");
    assert_eq!(r.unwrap_err(), "Headers not found in bytes");
}

#[test]
fn extract_webp_applies_backward_offset_of_eight() {
    // A WEBP marker at offset 100 slices from offset 92.
    let mut buf = vec![0u8; 100];
    buf.extend_from_slice(b"WEBPrest-of-payload");
    let out = extract_bytes("WEBP", buf.clone());
    assert_eq!(out, buf[92..].to_vec());
    assert_eq!(&out[8..12], b"WEBP");
}

#[test]
fn extract_png_applies_backward_offset_of_one() {
    let buf = b"zzPNGdata".to_vec();
    assert_eq!(extract_bytes("PNG", buf), b"zPNGdata".to_vec());
}

#[test]
fn extract_ogg_has_no_offset() {
    let buf = b"xxxxOggSdata".to_vec();
    assert_eq!(extract_bytes("OggS", buf), b"OggSdata".to_vec());
}

#[test]
fn extract_missing_header_returns_input_unchanged() {
    let buf = b"nothing here".to_vec();
    assert_eq!(extract_bytes("PNG", buf.clone()), buf);
}

#[test]
fn extract_header_too_close_to_start_returns_input_unchanged() {
    // The earliest WEBP occurrence is at offset 3, inside the 8-byte
    // backward offset, so the buffer comes back whole.
    let buf = b"abcWEBPdata".to_vec();
    assert_eq!(extract_bytes("WEBP", buf.clone()), buf);
}

#[test]
fn extract_is_idempotent_on_its_own_output() {
    let mut buf = vec![7u8; 50];
    buf.extend_from_slice(b"WEBPpayload");
    let once = extract_bytes("WEBP", buf);
    let twice = extract_bytes("WEBP", once.clone());
    assert_eq!(twice, once);

    let buf2 = b"..OggSpayload".to_vec();
    let once2 = extract_bytes("OggS", buf2);
    let twice2 = extract_bytes("OggS", once2.clone());
    assert_eq!(twice2, once2);
}

#[test]
fn id3_without_binary_marker_classifies_as_all() {
    assert_eq!(determine_category(b"xx ID3 yy"), Category::All);
}

#[test]
fn id3_with_binary_marker_classifies_as_sounds() {
    assert_eq!(determine_category(b"ID3 ... binary/ ..."), Category::Sounds);
}

#[test]
fn category_detection_by_signature() {
    assert_eq!(determine_category(b"..OggS.."), Category::Sounds);
    assert_eq!(determine_category(b"..PNG.."), Category::Images);
    assert_eq!(determine_category(b"..WEBP.."), Category::Images);
    assert_eq!(determine_category(b"..KTX.."), Category::Ktx);
    assert_eq!(determine_category(b"..<roblox!.."), Category::Rbxm);
    assert_eq!(determine_category(b"none at all"), Category::All);
}

#[test]
fn extract_plan_assigns_the_matched_extension() {
    let (payload, ext) = extract_plan(Category::Images, b"zzPNGdata".to_vec());
    assert_eq!(payload, b"zPNGdata".to_vec());
    assert_eq!(ext, Some("png"));

    let (payload, ext) = extract_plan(Category::Images, b"no marker".to_vec());
    assert_eq!(payload, b"no marker".to_vec());
    assert_eq!(ext, None);
}

#[test]
fn extract_payload_is_idempotent_on_its_own_output() {
    let once = extract_payload(Category::Music, b"junk OggS payload".to_vec());
    assert_eq!(once, b"OggS payload".to_vec());
    assert_eq!(extract_payload(Category::Music, once.clone()), once);
}

#[test]
fn empty_buffer_is_handled_throughout() {
    assert_eq!(determine_category(b""), Category::All);
    assert!(find_header(Category::All, b"").is_err());
    assert_eq!(extract_bytes("PNG", Vec::new()), Vec::<u8>::new());
    assert_eq!(extract_payload(Category::All, Vec::new()), Vec::<u8>::new());
}

#[test]
fn extensions_for_each_signature() {
    assert_eq!(extension_for("OggS"), "ogg");
    assert_eq!(extension_for("ID3"), "mp3");
    assert_eq!(extension_for("PNG"), "png");
    assert_eq!(extension_for("WEBP"), "webp");
    assert_eq!(extension_for("KTX"), "ktx");
    assert_eq!(extension_for("<roblox!"), "rbxm");
    assert_eq!(extension_for("unknown"), "ogg");
}
