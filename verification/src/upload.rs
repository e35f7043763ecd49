//! Avatar upload checks: declared image type, size limit, binary signature,
//! and the data URI under which an accepted avatar is stored.
use vstd::prelude::*;
use base64::Engine;
use crate::errors::{
    ApiError, BAD_REQUEST, PAYLOAD_TOO_LARGE, UNPROCESSABLE_ENTITY, api_error,
};
use crate::strings::{concat3, decimal, decimal_string, str_eq};

verus! {

/// The largest avatar accepted, in bytes (2 MB).
pub const MAX_AVATAR_BYTES: usize = 2097152;

/// The response to an accepted avatar upload.
#[derive(Debug)]
pub struct AvatarUploadResponse {
    pub avatar_url: String,
}

/// The image types an avatar may declare.
pub open spec fn allowed_content_type(ct: Seq<char>) -> bool {
    ||| ct == "image/jpeg"@
    ||| ct == "image/png"@
    ||| ct == "image/webp"@
    ||| ct == "image/gif"@
}

/// `b` begins with the bytes of `p`.
pub open spec fn bytes_begin_with(b: Seq<u8>, p: Seq<u8>) -> bool {
    p.len() <= b.len() && b.subrange(0, p.len() as int) == p
}

/// The PNG signature `\x89PNG\r\n\x1a\n`.
pub open spec fn png_magic() -> Seq<u8> {
    seq![0x89u8, 0x50u8, 0x4Eu8, 0x47u8, 0x0Du8, 0x0Au8, 0x1Au8, 0x0Au8]
}

/// The JPEG signature `FF D8 FF`.
pub open spec fn jpeg_magic() -> Seq<u8> {
    seq![0xFFu8, 0xD8u8, 0xFFu8]
}

/// `GIF87a`.
pub open spec fn gif87_magic() -> Seq<u8> {
    seq![0x47u8, 0x49u8, 0x46u8, 0x38u8, 0x37u8, 0x61u8]
}

/// `GIF89a`.
pub open spec fn gif89_magic() -> Seq<u8> {
    seq![0x47u8, 0x49u8, 0x46u8, 0x38u8, 0x39u8, 0x61u8]
}

/// `RIFF`.
pub open spec fn riff_magic() -> Seq<u8> {
    seq![0x52u8, 0x49u8, 0x46u8, 0x46u8]
}

/// `WEBP`.
pub open spec fn webp_magic() -> Seq<u8> {
    seq![0x57u8, 0x45u8, 0x42u8, 0x50u8]
}

/// The binary content of `b` carries the signature of the declared type
/// `ct`; an unknown type never matches.
pub open spec fn signature_matches(ct: Seq<char>, b: Seq<u8>) -> bool {
    if ct == "image/png"@ {
        bytes_begin_with(b, png_magic())
    } else if ct == "image/jpeg"@ {
        bytes_begin_with(b, jpeg_magic())
    } else if ct == "image/gif"@ {
        bytes_begin_with(b, gif87_magic()) || bytes_begin_with(b, gif89_magic())
    } else if ct == "image/webp"@ {
        b.len() > 12 && b.subrange(0, 4) == riff_magic() && b.subrange(8, 12) == webp_magic()
    } else {
        false
    }
}

/// What each declared type accepts, byte by byte: a JPEG is anything that
/// begins FF D8 FF (whatever follows, JFIF or EXIF alike); a PNG begins with
/// the eight bytes 89 50 4E 47 0D 0A 1A 0A; a GIF begins `GIF87a` or
/// `GIF89a`; a WebP is longer than twelve bytes with `RIFF` at 0 and `WEBP`
/// at 8; and a type outside these four accepts nothing.
pub proof fn lemma_signature_bytes(ct: Seq<char>, b: Seq<u8>)
    ensures
        signature_matches("image/jpeg"@, b) <==> (b.len() >= 3 && b[0] == 0xFFu8 && b[1] == 0xD8u8
            && b[2] == 0xFFu8),
        signature_matches("image/png"@, b) <==> (b.len() >= 8 && b[0] == 0x89u8 && b[1] == 0x50u8
            && b[2] == 0x4Eu8 && b[3] == 0x47u8 && b[4] == 0x0Du8 && b[5] == 0x0Au8 && b[6]
            == 0x1Au8 && b[7] == 0x0Au8),
        signature_matches("image/gif"@, b) <==> (b.len() >= 6 && b[0] == 0x47u8 && b[1] == 0x49u8
            && b[2] == 0x46u8 && b[3] == 0x38u8 && (b[4] == 0x37u8 || b[4] == 0x39u8) && b[5]
            == 0x61u8),
        signature_matches("image/webp"@, b) <==> (b.len() > 12 && b[0] == 0x52u8 && b[1] == 0x49u8
            && b[2] == 0x46u8 && b[3] == 0x46u8 && b[8] == 0x57u8 && b[9] == 0x45u8 && b[10]
            == 0x42u8 && b[11] == 0x50u8),
        !allowed_content_type(ct) ==> !signature_matches(ct, b),
{
    reveal_strlit("image/jpeg");
    reveal_strlit("image/png");
    reveal_strlit("image/gif");
    reveal_strlit("image/webp");
    assert("image/jpeg"@ != "image/png"@ && "image/jpeg"@ != "image/gif"@ && "image/jpeg"@
        != "image/webp"@) by {
        assert("image/jpeg"@[6] != "image/png"@[6]);
        assert("image/jpeg"@[6] != "image/gif"@[6]);
        assert("image/jpeg"@[6] != "image/webp"@[6]);
    }
    assert("image/png"@ != "image/gif"@ && "image/png"@ != "image/webp"@) by {
        assert("image/png"@[6] != "image/gif"@[6]);
        assert("image/png"@[6] != "image/webp"@[6]);
    }
    assert("image/gif"@ != "image/webp"@) by {
        assert("image/gif"@[6] != "image/webp"@[6]);
    }
    if b.len() >= 3 && b[0] == 0xFFu8 && b[1] == 0xD8u8 && b[2] == 0xFFu8 {
        assert(b.subrange(0, 3) =~= jpeg_magic());
    }
    if bytes_begin_with(b, jpeg_magic()) {
        assert(b.subrange(0, 3)[0] == b[0] && b.subrange(0, 3)[1] == b[1] && b.subrange(0, 3)[2] == b[2]);
    }
    if b.len() >= 8 && b[0] == 0x89u8 && b[1] == 0x50u8 && b[2] == 0x4Eu8 && b[3] == 0x47u8 && b[4]
        == 0x0Du8 && b[5] == 0x0Au8 && b[6] == 0x1Au8 && b[7] == 0x0Au8 {
        assert(b.subrange(0, 8) =~= png_magic());
    }
    if bytes_begin_with(b, png_magic()) {
        assert forall|k: int| 0 <= k < 8 implies b[k] == png_magic()[k] by {
            assert(b.subrange(0, 8)[k] == b[k]);
        }
    }
    if b.len() >= 6 && b[0] == 0x47u8 && b[1] == 0x49u8 && b[2] == 0x46u8 && b[3] == 0x38u8 && b[5]
        == 0x61u8 {
        if b[4] == 0x37u8 {
            assert(b.subrange(0, 6) =~= gif87_magic());
        }
        if b[4] == 0x39u8 {
            assert(b.subrange(0, 6) =~= gif89_magic());
        }
    }
    if bytes_begin_with(b, gif87_magic()) {
        assert forall|k: int| 0 <= k < 6 implies b[k] == gif87_magic()[k] by {
            assert(b.subrange(0, 6)[k] == b[k]);
        }
    }
    if bytes_begin_with(b, gif89_magic()) {
        assert forall|k: int| 0 <= k < 6 implies b[k] == gif89_magic()[k] by {
            assert(b.subrange(0, 6)[k] == b[k]);
        }
    }
    if b.len() > 12 {
        if b[0] == 0x52u8 && b[1] == 0x49u8 && b[2] == 0x46u8 && b[3] == 0x46u8 {
            assert(b.subrange(0, 4) =~= riff_magic());
        }
        if b[8] == 0x57u8 && b[9] == 0x45u8 && b[10] == 0x42u8 && b[11] == 0x50u8 {
            assert(b.subrange(8, 12) =~= webp_magic());
        }
        if b.subrange(0, 4) == riff_magic() {
            assert forall|k: int| 0 <= k < 4 implies b[k] == riff_magic()[k] by {
                assert(b.subrange(0, 4)[k] == b[k]);
            }
        }
        if b.subrange(8, 12) == webp_magic() {
            assert forall|k: int| 0 <= k < 4 implies b[8 + k] == webp_magic()[k] by {
                assert(b.subrange(8, 12)[k] == b[8 + k]);
            }
        }
    }
}

/// Whether `b[at..at + p.len()]` equals `p`.
fn bytes_at(b: &[u8], at: usize, p: &Vec<u8>) -> (r: bool)
    requires
        at + p@.len() <= b@.len(),
    ensures
        r == (b@.subrange(at as int, at + p@.len()) == p@),
{
    let n = b.len();
    let mut i: usize = 0;
    while i < p.len()
        invariant
            n == b@.len(),
            at + p@.len() <= b@.len(),
            i <= p@.len(),
            forall|k: int| 0 <= k < i ==> b@[at + k] == p@[k],
        decreases p@.len() - i,
    {
        if b[at + i] != p[i] {
            assert(b@.subrange(at as int, at + p@.len())[i as int] != p@[i as int]);
            return false;
        }
        i = i + 1;
    }
    assert(b@.subrange(at as int, at + p@.len()) =~= p@);
    true
}

/// Whether `b` begins with `p`.
fn begins_with(b: &[u8], p: &Vec<u8>) -> (r: bool)
    ensures
        r == bytes_begin_with(b@, p@),
{
    if p.len() > b.len() {
        false
    } else {
        bytes_at(b, 0, p)
    }
}

/// Sniffs the first bytes of `bytes` against the signature for the declared
/// MIME type `ct`. Returns `false` when the binary content does not match
/// the declared type, and for any type that is not an accepted image type.
pub fn validate_image_bytes(ct: &str, bytes: &[u8]) -> (ok: bool)
    ensures
        ok == signature_matches(ct@, bytes@),
        ct@ == "image/jpeg"@ ==> (ok <==> (bytes@.len() >= 3 && bytes@[0] == 0xFFu8 && bytes@[1]
            == 0xD8u8 && bytes@[2] == 0xFFu8)),
        !allowed_content_type(ct@) ==> !ok,
{
    proof {
        lemma_signature_bytes(ct@, bytes@);
    }
    if str_eq(ct, "image/png") {
        let m = vec![0x89u8, 0x50u8, 0x4Eu8, 0x47u8, 0x0Du8, 0x0Au8, 0x1Au8, 0x0Au8];
        assert(m@ =~= png_magic());
        begins_with(bytes, &m)
    } else if str_eq(ct, "image/jpeg") {
        let m = vec![0xFFu8, 0xD8u8, 0xFFu8];
        assert(m@ =~= jpeg_magic());
        begins_with(bytes, &m)
    } else if str_eq(ct, "image/gif") {
        let m87 = vec![0x47u8, 0x49u8, 0x46u8, 0x38u8, 0x37u8, 0x61u8];
        let m89 = vec![0x47u8, 0x49u8, 0x46u8, 0x38u8, 0x39u8, 0x61u8];
        assert(m87@ =~= gif87_magic());
        assert(m89@ =~= gif89_magic());
        begins_with(bytes, &m87) || begins_with(bytes, &m89)
    } else if str_eq(ct, "image/webp") {
        if bytes.len() <= 12 {
            return false;
        }
        let riff = vec![0x52u8, 0x49u8, 0x46u8, 0x46u8];
        let webp = vec![0x57u8, 0x45u8, 0x42u8, 0x50u8];
        assert(riff@ =~= riff_magic());
        assert(webp@ =~= webp_magic());
        bytes_at(bytes, 0, &riff) && bytes_at(bytes, 8, &webp)
    } else {
        false
    }
}

/// The standard (RFC 4648, padded) base64 text of `bytes`, as
/// `base64::engine::general_purpose::STANDARD` encodes it.
pub uninterp spec fn base64_standard(bytes: Seq<u8>) -> Seq<char>;

/// `STANDARD.encode` of the `base64` crate. Its result is named
/// [`base64_standard`]; with padding every started group of three bytes
/// becomes four characters, so the length is `4 * ceil(n / 3)`. Which
/// characters come out is left to the name.
#[verifier::external_body]
fn base64_encode(bytes: &[u8]) -> (r: String)
    ensures
        r@ == base64_standard(bytes@),
        r@.len() == 4 * ((bytes@.len() + 2) / 3),
{
    base64::engine::general_purpose::STANDARD.encode(bytes)
}

/// The image type of an uploaded avatar field: the declared type, or
/// `image/jpeg` when the field declares none. A type that is not an
/// accepted image type is refused with 422.
pub fn avatar_content_type(declared: Option<&str>) -> (r: Result<String, ApiError>)
    ensures
        ({
            let ct = match declared {
                Some(d) => d@,
                None => "image/jpeg"@,
            };
            match r {
                Ok(t) => allowed_content_type(ct) && t@ == ct,
                Err(e) => !allowed_content_type(ct) && e.status == UNPROCESSABLE_ENTITY
                    && e.message@ == "Unsupported image type '"@ + ct
                    + "'. Accepted: jpeg, png, webp, gif."@,
            }
        }),
{
    let ct: &str = match declared {
        Some(d) => d,
        None => "image/jpeg",
    };
    if str_eq(ct, "image/jpeg") || str_eq(ct, "image/png") || str_eq(ct, "image/webp") || str_eq(
        ct,
        "image/gif",
    ) {
        Ok(String::from_str(ct))
    } else {
        Err(
            api_error(
                UNPROCESSABLE_ENTITY,
                concat3("Unsupported image type '", ct, "'. Accepted: jpeg, png, webp, gif."),
            ),
        )
    }
}

/// Checks the bytes of an avatar declared as `ct`: more than
/// [`MAX_AVATAR_BYTES`] is refused with 413, and bytes whose signature does
/// not match the declared type with 400.
pub fn check_avatar_bytes(ct: &str, data: &[u8]) -> (r: Result<(), ApiError>)
    ensures
        match r {
            Ok(()) => data@.len() <= MAX_AVATAR_BYTES && signature_matches(ct@, data@),
            Err(e) => if data@.len() > MAX_AVATAR_BYTES {
                e.status == PAYLOAD_TOO_LARGE && e.message@ == "Avatar must be \u{2264} 2 MB. Received "@
                    + decimal(data@.len()) + " bytes."@
            } else {
                !signature_matches(ct@, data@) && e.status == BAD_REQUEST && e.message@
                    == "File binary signature does not match declared Content-Type '"@ + ct@
                    + "'."@
            },
        },
{
    if data.len() > MAX_AVATAR_BYTES {
        let n = decimal_string(data.len() as u64);
        return Err(
            api_error(
                PAYLOAD_TOO_LARGE,
                concat3("Avatar must be \u{2264} 2 MB. Received ", n.as_str(), " bytes."),
            ),
        );
    }
    if !validate_image_bytes(ct, data) {
        return Err(
            api_error(
                BAD_REQUEST,
                concat3("File binary signature does not match declared Content-Type '", ct, "'."),
            ),
        );
    }
    Ok(())
}

/// The answer when the multipart body holds no `avatar` field (400).
pub fn missing_avatar_error() -> (e: ApiError)
    ensures
        e.status == BAD_REQUEST,
        e.message@ == "No 'avatar' field found in multipart body."@,
{
    api_error(BAD_REQUEST, String::from_str("No 'avatar' field found in multipart body."))
}

/// The data URI under which an avatar is stored:
/// `data:{ct};base64,{base64 of the bytes}`.
pub fn avatar_data_uri(ct: &str, bytes: &[u8]) -> (uri: String)
    ensures
        uri@ == "data:"@ + ct@ + ";base64,"@ + base64_standard(bytes@),
{
    let encoded = base64_encode(bytes);
    let mut uri = concat3("data:", ct, ";base64,");
    uri.append(encoded.as_str());
    uri
}

} // verus!
