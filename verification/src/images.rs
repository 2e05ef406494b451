use vstd::prelude::*;

use crate::text::str_eq;
use crate::wire::hex_digit;
use crate::wire::push_char;

verus! {

/// The bytes that decoding `s` under the standard base64 alphabet with
/// padding yields, or nothing when `s` is not valid base64; a function
/// of the characters alone.
pub uninterp spec fn base64_standard_decoding(s: Seq<char>) -> Option<Seq<u8>>;

/// Relies on base64's `Engine::decode` with the `STANDARD` engine:
/// decodes the standard alphabet with padding, failing exactly on
/// invalid input; the result depends on the characters alone.
#[verifier::external_body]
pub(crate) fn base64_decode(s: &str) -> (r: Result<Vec<u8>, String>)
    ensures
        r is Ok <==> base64_standard_decoding(s@) is Some,
        (match r {
            Ok(v) => Some(v@),
            Err(_) => None,
        }) == base64_standard_decoding(s@),
{
    base64::Engine::decode(&base64::engine::general_purpose::STANDARD, s).map_err(
        |e| format!("Failed to decode base64: {}", e),
    )
}

/// The file extension an attached image of the given MIME type is
/// saved under; an unknown type falls back to PNG.
pub open spec fn spec_ext_for_mime(mime: Seq<char>) -> Seq<char> {
    if mime == "image/png"@ {
        "png"@
    } else if mime == "image/jpeg"@ || mime == "image/jpg"@ {
        "jpg"@
    } else if mime == "image/gif"@ {
        "gif"@
    } else if mime == "image/webp"@ {
        "webp"@
    } else if mime == "image/bmp"@ {
        "bmp"@
    } else {
        "png"@
    }
}

/// Picks the file extension for an image's MIME type.
pub fn ext_for_mime(mime: &str) -> (r: &'static str)
    ensures
        r@ == spec_ext_for_mime(mime@),
{
    if str_eq(mime, "image/png") {
        "png"
    } else if str_eq(mime, "image/jpeg") || str_eq(mime, "image/jpg") {
        "jpg"
    } else if str_eq(mime, "image/gif") {
        "gif"
    } else if str_eq(mime, "image/webp") {
        "webp"
    } else if str_eq(mime, "image/bmp") {
        "bmp"
    } else {
        "png"
    }
}

/// The decimal digits of `n`, most significant first.
pub open spec fn spec_decimal(n: nat) -> Seq<char>
    decreases n,
{
    if n < 10 {
        seq![hex_digit(n as int)]
    } else {
        spec_decimal(n / 10) + seq![hex_digit((n % 10) as int)]
    }
}

/// Appends the decimal digits of `n`.
fn append_decimal(out: &mut String, n: u64)
    ensures
        final(out)@ == old(out)@ + spec_decimal(n as nat),
    decreases n,
{
    if n >= 10 {
        append_decimal(out, n / 10);
    }
    let d = (n % 10) as u32;
    let c = if d == 0 {
        '0'
    } else if d == 1 {
        '1'
    } else if d == 2 {
        '2'
    } else if d == 3 {
        '3'
    } else if d == 4 {
        '4'
    } else if d == 5 {
        '5'
    } else if d == 6 {
        '6'
    } else if d == 7 {
        '7'
    } else if d == 8 {
        '8'
    } else {
        '9'
    };
    push_char(out, c);
    proof {
        assert(c == hex_digit((n % 10) as int));
        if n < 10 {
            assert(out@ =~= old(out)@ + spec_decimal(n as nat));
        } else {
            assert(out@ =~= old(out)@ + spec_decimal(n as nat));
        }
    }
}

/// The name an attached image is saved under in the temporary
/// directory: the server's marker, its process id, the image's index,
/// and the extension its MIME type picks.
pub open spec fn spec_image_filename(pid: nat, index: nat, mime: Seq<char>) -> Seq<char> {
    "virtual-agency-image-"@ + spec_decimal(pid) + "-"@ + spec_decimal(index) + "."@
        + spec_ext_for_mime(mime)
}

/// Composes the file name for one attached image.
pub fn image_filename(pid: u64, index: u64, mime: &str) -> (r: String)
    ensures
        r@ == spec_image_filename(pid as nat, index as nat, mime@),
{
    let mut r = String::from_str("virtual-agency-image-");
    append_decimal(&mut r, pid);
    r.append("-");
    append_decimal(&mut r, index);
    r.append(".");
    r.append(ext_for_mime(mime));
    proof {
        assert(r@ =~= spec_image_filename(pid as nat, index as nat, mime@));
    }
    r
}

/// Prepares one attached image for saving: decodes its base64 payload
/// and composes its file name. Fails exactly when the payload is not
/// valid base64; the host writes the bytes to the named file in its
/// temporary directory.
pub fn prepare_image(data: &str, mime: &str, pid: u64, index: u64) -> (r: Result<
    (String, Vec<u8>),
    String,
>)
    ensures
        r is Ok <==> base64_standard_decoding(data@) is Some,
        (match r {
            Ok((name, bytes)) => name@ == spec_image_filename(pid as nat, index as nat, mime@)
                && Some(bytes@) == base64_standard_decoding(data@),
            Err(_) => true,
        }),
{
    let bytes = match base64_decode(data) {
        Ok(b) => b,
        Err(e) => {
            return Err(e);
        },
    };
    let name = image_filename(pid, index, mime);
    Ok((name, bytes))
}

} // verus!
