//! Sniffing: the envelope and the encoding of a variant file, judged from
//! its first buffered bytes. Nothing here consumes the bytes.

use crate::bytes::{has_at, holds_at, same_bytes};
use crate::error::Error;
use vstd::prelude::*;

verus! {

/// The encoding of the records.
#[derive(Clone, Copy, Debug, PartialEq, Eq, Structural)]
pub enum Format {
    /// Variant Call Format: line-oriented text.
    Vcf,
    /// BCF: the compact binary encoding.
    Bcf,
}

/// The outer envelope of a variant file.
#[derive(Clone, Copy, Debug, PartialEq, Eq, Structural)]
pub enum Compression {
    /// Block gzip: a series of gzip members.
    Bgzf,
}

/// The two bytes with which every gzip member begins.
pub open spec fn gzip_magic() -> Seq<u8> {
    seq![0x1fu8, 0x8bu8]
}

/// The three bytes `BCF`, with which the binary encoding begins.
pub open spec fn bcf_magic() -> Seq<u8> {
    seq![0x42u8, 0x43u8, 0x46u8]
}

/// The sixteen bytes `##fileformat=VCF`, with which the text encoding begins.
pub open spec fn vcf_header() -> Seq<u8> {
    seq![
        0x23u8, 0x23u8, 0x66u8, 0x69u8, 0x6cu8, 0x65u8, 0x66u8, 0x6fu8,
        0x72u8, 0x6du8, 0x61u8, 0x74u8, 0x3du8, 0x56u8, 0x43u8, 0x46u8,
    ]
}

/// The envelope of a stream that begins with `src`.
pub open spec fn compression_of(src: Seq<u8>) -> Option<Compression> {
    if holds_at(src, 0, gzip_magic()) {
        Some(Compression::Bgzf)
    } else {
        None
    }
}

/// The encoding of an unwrapped stream that begins with `src`.
pub open spec fn format_of_plain(src: Seq<u8>) -> Result<Format, Error> {
    if holds_at(src, 0, bcf_magic()) {
        Ok(Format::Bcf)
    } else if holds_at(src, 0, vcf_header()) {
        Ok(Format::Vcf)
    } else {
        Err(Error::FormatDetection)
    }
}

/// The encoding of a wrapped stream, judged from what its decoder gave:
/// `head` stands for the first three decoded bytes and `longer` for the first
/// nineteen, each absent where the decoder could not deliver that many. The
/// binary magic is looked for in the first three bytes, the text header
/// literal in the sixteen that follow them.
pub open spec fn format_of_wrapped(head: Option<Seq<u8>>, longer: Option<Seq<u8>>) -> Result<
    Format,
    Error,
> {
    match head {
        None => Err(Error::Io),
        Some(h) => if h == bcf_magic() {
            Ok(Format::Bcf)
        } else {
            match longer {
                None => Err(Error::Io),
                Some(l) => if holds_at(l, 3, vcf_header()) {
                    Ok(Format::Vcf)
                } else {
                    Err(Error::FormatDetection)
                },
            }
        },
    }
}

/// What a fresh multi-member gzip decoder over `src` hands out when asked for
/// exactly `n` bytes: those bytes, or nothing where it fails before it has
/// them all.
pub uninterp spec fn gz_prefix(src: Seq<u8>, n: nat) -> Option<Seq<u8>>;

/// The encoding of a stream that begins with `src` under the given envelope.
pub open spec fn format_of(src: Seq<u8>, compression: Option<Compression>) -> Result<
    Format,
    Error,
> {
    match compression {
        Some(Compression::Bgzf) => format_of_wrapped(gz_prefix(src, 3), gz_prefix(src, 19)),
        None => format_of_plain(src),
    }
}

/// Envelope and encoding of a stream that begins with `src`.
pub open spec fn sniffed(src: Seq<u8>) -> Result<(Format, Option<Compression>), Error> {
    match format_of(src, compression_of(src)) {
        Ok(format) => Ok((format, compression_of(src))),
        Err(e) => Err(e),
    }
}

/// The bytes of an optional buffer.
pub open spec fn bytes_of(buffer: Option<Vec<u8>>) -> Option<Seq<u8>> {
    match buffer {
        Some(v) => Some(v@),
        None => None,
    }
}

/// Looks at the first two buffered bytes and says whether they open a gzip
/// member.
pub fn detect_compression(src: &[u8]) -> (found: Option<Compression>)
    ensures
        found == compression_of(src@),
{
    let magic: [u8; 2] = [0x1f, 0x8b];
    assert(magic@ =~= gzip_magic());
    if has_at(src, 0, magic.as_slice()) {
        Some(Compression::Bgzf)
    } else {
        None
    }
}

/// Asks a gzip decoder over `src` for its first `n` bytes.
///
/// Trusted: the body builds `flate2::bufread::MultiGzDecoder` over `src` and
/// calls `read_exact` on a buffer of `n` bytes. The contract claims that the
/// outcome depends on `src` and `n` alone, and that a buffer that comes back
/// is the one of `n` bytes that was handed in, filled.
#[verifier::external_body]
fn inflate_prefix(src: &[u8], n: usize) -> (out: Option<Vec<u8>>)
    ensures
        bytes_of(out) == gz_prefix(src@, n as nat),
        out matches Some(v) ==> v@.len() == n,
{
    let mut decoder = flate2::bufread::MultiGzDecoder::new(src);
    let mut buffer = vec![0u8; n];
    match std::io::Read::read_exact(&mut decoder, &mut buffer) {
        Ok(()) => Some(buffer),
        Err(_) => None,
    }
}

/// Whether `bytes` are the binary magic and nothing else.
fn is_binary_magic(bytes: &[u8]) -> (is: bool)
    ensures
        is == (bytes@ == bcf_magic()),
{
    let magic: [u8; 3] = [0x42, 0x43, 0x46];
    assert(magic@ =~= bcf_magic());
    same_bytes(bytes, magic.as_slice())
}

/// Whether `bytes` hold the text header literal from position `at` on.
fn has_text_header_at(bytes: &[u8], at: usize) -> (has: bool)
    ensures
        has == holds_at(bytes@, at as int, vcf_header()),
{
    let literal: [u8; 16] = [
        0x23, 0x23, 0x66, 0x69, 0x6c, 0x65, 0x66, 0x6f,
        0x72, 0x6d, 0x61, 0x74, 0x3d, 0x56, 0x43, 0x46,
    ];
    assert(literal@ =~= vcf_header());
    has_at(bytes, at, literal.as_slice())
}

/// Judges the encoding of a wrapped stream from what its decoder gave:
/// `head` is the first three decoded bytes, `longer` the first nineteen, each
/// absent where the decoder failed. `longer` is not looked at where `head`
/// already is the binary magic.
pub fn format_of_decoded(head: Option<Vec<u8>>, longer: Option<Vec<u8>>) -> (found: Result<
    Format,
    Error,
>)
    ensures
        found == format_of_wrapped(bytes_of(head), bytes_of(longer)),
{
    match head {
        None => Err(Error::Io),
        Some(h) => if is_binary_magic(h.as_slice()) {
            Ok(Format::Bcf)
        } else {
            match longer {
                None => Err(Error::Io),
                Some(l) => if has_text_header_at(l.as_slice(), 3) {
                    Ok(Format::Vcf)
                } else {
                    Err(Error::FormatDetection)
                },
            }
        },
    }
}

/// Judges the encoding from the first buffered bytes.
///
/// Without an envelope the binary magic is looked for at the start of `src`,
/// then the text header literal. Under block gzip the leading bytes are
/// decoded first: the binary magic is looked for in the first three decoded
/// bytes, the text header literal in the sixteen that follow. No encoding is
/// ever assumed: where nothing matches the answer is
/// [`Error::FormatDetection`], and where the decoder cannot deliver the bytes
/// it is [`Error::Io`].
pub fn detect_format(src: &[u8], compression: Option<Compression>) -> (found: Result<Format, Error>)
    ensures
        found == format_of(src@, compression),
{
    match compression {
        Some(Compression::Bgzf) => {
            let head = inflate_prefix(src, 3);
            let undecided = match &head {
                Some(h) => !is_binary_magic(h.as_slice()),
                None => false,
            };
            let longer = if undecided {
                inflate_prefix(src, 19)
            } else {
                None
            };
            format_of_decoded(head, longer)
        },
        None => {
            let magic: [u8; 3] = [0x42, 0x43, 0x46];
            assert(magic@ =~= bcf_magic());
            if has_at(src, 0, magic.as_slice()) {
                Ok(Format::Bcf)
            } else if has_text_header_at(src, 0) {
                Ok(Format::Vcf)
            } else {
                Err(Error::FormatDetection)
            }
        },
    }
}

/// Envelope and encoding of a stream, judged from its first buffered bytes.
pub fn sniff(src: &[u8]) -> (found: Result<(Format, Option<Compression>), Error>)
    ensures
        found == sniffed(src@),
{
    let compression = detect_compression(src);
    match detect_format(src, compression) {
        Ok(format) => Ok((format, compression)),
        Err(e) => Err(e),
    }
}

/// How a stream is classified, by what it begins with.
///
/// Under the gzip magic, a stream whose decoded bytes begin with the binary
/// magic is binary under block gzip. Without the gzip magic, a stream that
/// begins with the binary magic is binary without an envelope. With neither
/// magic, a stream is text exactly if it begins with the text header literal,
/// and is refused otherwise: no encoding is assumed.
pub proof fn sniff_classifies(src: Seq<u8>)
    ensures
        holds_at(src, 0, gzip_magic()) && gz_prefix(src, 3) == Some(bcf_magic()) ==> sniffed(src)
            == Ok::<_, Error>((Format::Bcf, Some(Compression::Bgzf))),
        holds_at(src, 0, bcf_magic()) ==> sniffed(src) == Ok::<_, Error>((Format::Bcf, None::<Compression>)),
        !holds_at(src, 0, gzip_magic()) && !holds_at(src, 0, bcf_magic()) ==> sniffed(src) == if holds_at(
            src,
            0,
            vcf_header(),
        ) {
            Ok::<_, Error>((Format::Vcf, None::<Compression>))
        } else {
            Err(Error::FormatDetection)
        },
{
    if holds_at(src, 0, bcf_magic()) && holds_at(src, 0, gzip_magic()) {
        assert(src.subrange(0, 3)[0] == src[0]);
        assert(src.subrange(0, 2)[0] == src[0]);
    }
}

} // verus!
