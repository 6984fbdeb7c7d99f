//! Small shared helpers: media file classification by extension, and
//! the listen-address form of a scope name.

use vstd::prelude::*;

use crate::text;

verus! {

/// A name with one of the image extensions.
pub open spec fn is_image_name(s: Seq<char>) -> bool {
    ||| text::ends_with_spec(s, ".png"@)
    ||| text::ends_with_spec(s, ".jpg"@)
    ||| text::ends_with_spec(s, ".jpeg"@)
    ||| text::ends_with_spec(s, ".gif"@)
    ||| text::ends_with_spec(s, ".webp"@)
    ||| text::ends_with_spec(s, ".ai"@)
}

pub fn is_image_file(file_name: &str) -> (r: bool)
    ensures
        r == is_image_name(file_name@),
{
    text::str_ends_with(file_name, ".png") || text::str_ends_with(file_name, ".jpg")
        || text::str_ends_with(file_name, ".jpeg") || text::str_ends_with(file_name, ".gif")
        || text::str_ends_with(file_name, ".webp") || text::str_ends_with(file_name, ".ai")
}

/// A name with one of the video extensions.
pub open spec fn is_video_name(s: Seq<char>) -> bool {
    ||| text::ends_with_spec(s, ".mp4"@)
    ||| text::ends_with_spec(s, ".webm"@)
    ||| text::ends_with_spec(s, ".ogg"@)
}

pub fn is_video_file(file_name: &str) -> (r: bool)
    ensures
        r == is_video_name(file_name@),
{
    text::str_ends_with(file_name, ".mp4") || text::str_ends_with(file_name, ".webm")
        || text::str_ends_with(file_name, ".ogg")
}

/// The mime subtype a video container is served under.
pub open spec fn video_mime_spec(s: Seq<char>) -> Seq<char> {
    if text::ends_with_spec(s, ".mp4"@) || text::ends_with_spec(s, ".mkv"@) {
        "mp4"@
    } else if text::ends_with_spec(s, ".webm"@) {
        "webm"@
    } else if text::ends_with_spec(s, ".ogg"@) {
        "ogg"@
    } else {
        "unknown"@
    }
}

pub fn get_video_mime_type(file_name: &str) -> (r: &'static str)
    ensures
        r@ == video_mime_spec(file_name@),
{
    if text::str_ends_with(file_name, ".mp4") || text::str_ends_with(file_name, ".mkv") {
        "mp4"
    } else if text::str_ends_with(file_name, ".webm") {
        "webm"
    } else if text::str_ends_with(file_name, ".ogg") {
        "ogg"
    } else {
        "unknown"
    }
}

/// The listen address a scope name stands for: loopback for local
/// runs, the given address on the lan, every interface in public
/// deployments, loopback for anything unrecognized.
pub open spec fn format_address_spec(scope: Seq<char>, ip: Seq<char>, port: u16) -> Seq<char> {
    let k = text::lower_spec(text::trim_spec(scope));
    if k == "localhost"@ || k == "local"@ {
        "127.0.0.1:"@ + text::dec_str(port as nat)
    } else if k == "lan"@ {
        ip + ":"@ + text::dec_str(port as nat)
    } else if k == "public"@ || k == "production"@ || k == "prod"@ {
        "[::]:"@ + text::dec_str(port as nat)
    } else {
        "127.0.0.1:"@ + text::dec_str(port as nat)
    }
}

pub fn format_address(scope: &str, ip: &str, port: u16) -> (r: String)
    ensures
        r@ == format_address_spec(scope@, ip@, port),
{
    let k = text::to_lower(text::trim(scope));
    let ks = k.as_str();
    let port_s = text::u64_to_string(port as u64);
    let mut out = String::new();
    if text::str_eq(ks, "localhost") || text::str_eq(ks, "local") {
        out.append("127.0.0.1:");
    } else if text::str_eq(ks, "lan") {
        out.append(ip);
        out.append(":");
    } else if text::str_eq(ks, "public") || text::str_eq(ks, "production") || text::str_eq(
        ks,
        "prod",
    ) {
        out.append("[::]:");
    } else {
        out.append("127.0.0.1:");
    }
    out.append(port_s.as_str());
    proof {
        assert(out@ =~= format_address_spec(scope@, ip@, port));
    }
    out
}

} // verus!
