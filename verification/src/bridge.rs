//! Trusted declarations for the outside functions the library leans on:
//! one standard-library method that vstd gives no contract, text encoding,
//! file-name sanitization, and the compressed container writer.

use vstd::prelude::*;

verus! {

/// Relies on `String::push`: appends exactly the given character.
pub assume_specification[ String::push ](s: &mut String, ch: char)
    ensures
        final(s)@ == old(s)@.push(ch),
;

/// The text that the standard base64 alphabet (with padding) encodes a byte
/// sequence to. The encoding depends on the bytes alone.
pub uninterp spec fn base64_of(b: Seq<u8>) -> Seq<char>;

/// Relies on `base64::engine::general_purpose::STANDARD` and
/// `Engine::encode`: the standard alphabet with padding emits four output
/// characters for every started group of three input bytes, as a function of
/// the input bytes alone. `encode` aborts if that output length overflows
/// `usize`, so the input length is kept well below that.
#[verifier::external_body]
pub(crate) fn base64_encode(b: &Vec<u8>) -> (r: String)
    requires
        b@.len() <= 0x4000_0000_0000_0000,
    ensures
        r@ == base64_of(b@),
        r@.len() == 4 * ((b@.len() + 2) / 3),
{
    base64::Engine::encode(&base64::engine::general_purpose::STANDARD, b)
}

/// Characters that never survive file-name sanitization: path separators and
/// the other characters illegal in file names, plus control characters.
pub open spec fn ok_name_char(c: char) -> bool {
    !(c == '/' || c == '?' || c == '<' || c == '>' || c == '\\' || c == ':' || c == '*'
        || c == '|' || c == '"' || (c as int) <= 0x1f || (0x80 <= c as int && c as int <= 0x9f))
}

/// What every sanitized file name satisfies: bounded length, and none of
/// the characters that sanitization removes on every platform.
pub open spec fn sanitized_ok(s: Seq<char>) -> bool {
    &&& s.len() <= 255
    &&& forall|i: int| 0 <= i < s.len() ==> ok_name_char(#[trigger] s[i])
}

/// Relies on `sanitize_filename::sanitize` with its default options: on
/// every platform it removes the characters illegal in file names and all
/// control characters, and truncates the result to at most 255 bytes (so at
/// most 255 characters). On some platforms it removes more; only what holds
/// of every outcome is stated.
#[verifier::external_body]
pub(crate) fn sanitize_name(s: &String) -> (r: String)
    ensures
        sanitized_ok(r@),
{
    sanitize_filename::sanitize(s)
}

/// The gzip member that the compressed-container writer produces for the
/// given header file name, header comment and payload, at the default
/// compression level. The builder fixes the header's timestamp to zero and
/// its operating-system byte to a constant, so the stream is a function of
/// these three arguments alone.
pub uninterp spec fn gzip_of(name: Seq<char>, comment: Seq<char>, data: Seq<char>) -> Seq<u8>;

/// Relies on `flate2::GzBuilder` and `flate2::write::GzEncoder` over an
/// in-memory buffer: the result is one gzip member (first two bytes are the
/// fixed magic values) carrying `name` and `comment` in its header and the
/// compressed `data` as payload. The builder aborts on a header field that
/// contains a zero byte, so those inputs are excluded; writing to a `Vec`
/// sink cannot fail.
#[verifier::external_body]
pub(crate) fn gzip_container(name: &String, comment: &String, data: &String) -> (r: Vec<u8>)
    requires
        !name@.contains('\0'),
        !comment@.contains('\0'),
    ensures
        r@ == gzip_of(name@, comment@, data@),
        r@.len() >= 10,
        r@[0] == 0x1fu8,
        r@[1] == 0x8bu8,
{
    let sink: Vec<u8> = Vec::new();
    let mut gz = flate2::GzBuilder::new()
        .filename(name.as_str())
        .comment(comment.as_str())
        .write(sink, flate2::Compression::default());
    std::io::Write::write_all(&mut gz, data.as_bytes()).unwrap();
    gz.finish().unwrap()
}

} // verus!
