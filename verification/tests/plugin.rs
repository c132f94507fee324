use bronotdsaurs::fed_auth::{plugin_outcome, plugin_request_bytes, PluginRefusal};
use bronotdsaurs::text::decode_utf16_le_lossy;

#[test]
fn plugin_request_frames_each_field() {
    let r = plugin_request_bytes(b"https://sts", b"spn", None);
    let mut expected = vec![11, 0, 0, 0];
    expected.extend_from_slice(b"https://sts");
    expected.extend_from_slice(&[3, 0, 0, 0]);
    expected.extend_from_slice(b"spn");
    expected.push(0);
    assert_eq!(r, expected);

    let nonce = [0xAB; 32];
    let r = plugin_request_bytes(b"", b"x", Some(&nonce));
    let mut expected = vec![0, 0, 0, 0, 1, 0, 0, 0, b'x', 1];
    expected.extend_from_slice(&nonce);
    assert_eq!(r, expected);
}

#[test]
fn plugin_outcome_refusals() {
    assert_eq!(plugin_outcome(false, Some(3), vec![1]), Err(PluginRefusal::ExitStatus(Some(3))));
    assert_eq!(plugin_outcome(false, None, vec![]), Err(PluginRefusal::ExitStatus(None)));
    assert_eq!(plugin_outcome(true, Some(0), vec![]), Err(PluginRefusal::EmptyToken));
    assert_eq!(plugin_outcome(true, Some(0), vec![4, 2]), Ok(vec![4, 2]));
}

#[test]
fn utf16_text_decodes_pairs_and_replaces_lone_surrogates() {
    let mut b = vec![0xFF];
    for u in "hé😀".encode_utf16() {
        b.extend_from_slice(&u.to_le_bytes());
    }
    assert_eq!(decode_utf16_le_lossy(&b, 1, b.len()), "hé😀");
    let lone = [0x00, 0xDC, 0x41, 0x00, 0x3D, 0xD8];
    assert_eq!(decode_utf16_le_lossy(&lone, 0, 6), "\u{FFFD}A\u{FFFD}");
    assert_eq!(decode_utf16_le_lossy(&lone, 2, 2), "");
}
