use capadvisors_backend::upload::{
    avatar_content_type, avatar_data_uri, check_avatar_bytes, missing_avatar_error,
    validate_image_bytes, MAX_AVATAR_BYTES,
};

const PNG: [u8; 8] = [0x89, b'P', b'N', b'G', b'\r', b'\n', 0x1a, b'\n'];

#[test]
fn png_signature_is_recognised() {
    let mut data = PNG.to_vec();
    data.extend_from_slice(&[0, 0, 0, 13]);
    assert!(validate_image_bytes("image/png", &data));
    assert!(!validate_image_bytes("image/png", &PNG[..7]));
    assert!(!validate_image_bytes("image/jpeg", &data));
}

#[test]
fn jpeg_and_gif_signatures() {
    assert!(validate_image_bytes("image/jpeg", &[0xFF, 0xD8, 0xFF, 0xE0]));
    assert!(!validate_image_bytes("image/jpeg", &[0xFF, 0xD8]));
    assert!(validate_image_bytes("image/gif", b"GIF87a...."));
    assert!(validate_image_bytes("image/gif", b"GIF89a"));
    assert!(!validate_image_bytes("image/gif", b"GIF88a"));
}

#[test]
fn webp_needs_riff_and_webp_markers_and_more_than_twelve_bytes() {
    let ok = b"RIFF\x00\x00\x00\x00WEBPVP8 ";
    assert!(validate_image_bytes("image/webp", ok));
    assert!(!validate_image_bytes("image/webp", &ok[..12]));
    assert!(!validate_image_bytes("image/webp", b"RIFF\x00\x00\x00\x00WAVEVP8 "));
}

#[test]
fn unknown_types_never_match() {
    assert!(!validate_image_bytes("application/x-php", b"<?php"));
    assert!(!validate_image_bytes("", &PNG));
}

#[test]
fn content_type_defaults_to_jpeg_and_refuses_others() {
    assert_eq!(avatar_content_type(None).unwrap(), "image/jpeg");
    assert_eq!(avatar_content_type(Some("image/webp")).unwrap(), "image/webp");
    let e = avatar_content_type(Some("text/html")).unwrap_err();
    assert_eq!(e.status, 422);
    assert_eq!(
        e.message,
        "Unsupported image type 'text/html'. Accepted: jpeg, png, webp, gif."
    );
}

#[test]
fn oversized_avatar_is_refused_before_signature() {
    let data = vec![0u8; MAX_AVATAR_BYTES + 1];
    let e = check_avatar_bytes("image/png", &data).unwrap_err();
    assert_eq!(e.status, 413);
    assert_eq!(e.message, "Avatar must be \u{2264} 2 MB. Received 2097153 bytes.");
}

#[test]
fn mismatched_signature_is_refused() {
    let e = check_avatar_bytes("image/jpeg", &PNG).unwrap_err();
    assert_eq!(e.status, 400);
    assert_eq!(
        e.message,
        "File binary signature does not match declared Content-Type 'image/jpeg'."
    );
    assert!(check_avatar_bytes("image/png", &PNG).is_ok());
}

#[test]
fn data_uri_carries_type_and_base64() {
    assert_eq!(avatar_data_uri("image/png", &PNG), "data:image/png;base64,iVBORw0KGgo=");
    assert_eq!(avatar_data_uri("image/gif", b"GIF89a"), "data:image/gif;base64,R0lGODlh");
}

#[test]
fn missing_field_message() {
    let e = missing_avatar_error();
    assert_eq!(e.status, 400);
    assert_eq!(e.message, "No 'avatar' field found in multipart body.");
}
