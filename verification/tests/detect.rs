use std::io::Write;

use vcfskip::{
    detect_compression, detect_format, find_index, format_of_decoded, index_path, open, sniff,
    Compression, Error, Format, IndexKind, Probe, ReaderInner,
};

fn gzip(content: &[u8]) -> Vec<u8> {
    let mut encoder = flate2::write::GzEncoder::new(Vec::new(), flate2::Compression::default());
    encoder.write_all(content).unwrap();
    encoder.finish().unwrap()
}

#[test]
fn gzip_magic_is_block_gzip() {
    assert_eq!(detect_compression(&[0x1f, 0x8b, 0x08, 0x04]), Some(Compression::Bgzf));
    assert_eq!(detect_compression(&[0x1f, 0x8b]), Some(Compression::Bgzf));
}

#[test]
fn other_bytes_are_no_envelope() {
    assert_eq!(detect_compression(b"BCF\x02\x02"), None);
    assert_eq!(detect_compression(b"##fileformat=VCFv4.2\n"), None);
    assert_eq!(detect_compression(&[0x1f, 0x8c, 0x08]), None);
    assert_eq!(detect_compression(&[0x8b, 0x1f]), None);
}

#[test]
fn short_input_is_no_envelope() {
    assert_eq!(detect_compression(&[]), None);
    assert_eq!(detect_compression(&[0x1f]), None);
}

#[test]
fn plain_binary_magic_is_bcf() {
    assert_eq!(detect_format(b"BCF\x02\x02rest", None), Ok(Format::Bcf));
    assert_eq!(detect_format(b"BCF", None), Ok(Format::Bcf));
}

#[test]
fn plain_text_header_is_vcf() {
    assert_eq!(detect_format(b"##fileformat=VCFv4.2\n#CHROM\n", None), Ok(Format::Vcf));
    assert_eq!(detect_format(b"##fileformat=VCF", None), Ok(Format::Vcf));
}

#[test]
fn plain_unknown_bytes_are_refused() {
    assert_eq!(detect_format(b"#CHROM\tPOS\tID\n", None), Err(Error::FormatDetection));
    assert_eq!(detect_format(b"##fileformat=VC", None), Err(Error::FormatDetection));
    assert_eq!(detect_format(b"##fileformat=vcfv4.2\n", None), Err(Error::FormatDetection));
    assert_eq!(detect_format(b"BC", None), Err(Error::FormatDetection));
    assert_eq!(detect_format(b"", None), Err(Error::FormatDetection));
}

#[test]
fn wrapped_binary_magic_is_bcf() {
    let src = gzip(b"BCF\x02\x02 and the rest of the header");
    assert_eq!(detect_compression(&src), Some(Compression::Bgzf));
    assert_eq!(detect_format(&src, Some(Compression::Bgzf)), Ok(Format::Bcf));
    assert_eq!(sniff(&src), Ok((Format::Bcf, Some(Compression::Bgzf))));
}

#[test]
fn wrapped_binary_magic_alone_is_bcf() {
    let src = gzip(b"BCF");
    assert_eq!(detect_format(&src, Some(Compression::Bgzf)), Ok(Format::Bcf));
}

#[test]
fn wrapped_text_header_is_looked_for_after_the_magic() {
    let src = gzip(b"xyz##fileformat=VCFv4.2\n");
    assert_eq!(detect_format(&src, Some(Compression::Bgzf)), Ok(Format::Vcf));
    let src = gzip(b"##fileformat=VCFv4.2\n#CHROM\n");
    assert_eq!(detect_format(&src, Some(Compression::Bgzf)), Err(Error::FormatDetection));
}

#[test]
fn wrapped_unknown_bytes_are_refused() {
    let src = gzip(b"this is neither of the two encodings");
    assert_eq!(detect_format(&src, Some(Compression::Bgzf)), Err(Error::FormatDetection));
    assert_eq!(sniff(&src), Err(Error::FormatDetection));
}

#[test]
fn wrapped_short_stream_is_an_io_error() {
    let src = gzip(b"BC");
    assert_eq!(detect_format(&src, Some(Compression::Bgzf)), Err(Error::Io));
    let src = gzip(b"xyz##fileformat");
    assert_eq!(detect_format(&src, Some(Compression::Bgzf)), Err(Error::Io));
}

#[test]
fn broken_envelope_is_an_io_error() {
    assert_eq!(detect_format(b"BCF\x02\x02", Some(Compression::Bgzf)), Err(Error::Io));
    assert_eq!(detect_format(&[0x1f, 0x8b], Some(Compression::Bgzf)), Err(Error::Io));
    let mut src = gzip(b"BCF\x02\x02 and the rest of the header");
    src.truncate(12);
    assert_eq!(detect_format(&src, Some(Compression::Bgzf)), Err(Error::Io));
}

#[test]
fn several_gzip_members_are_read_as_one_stream() {
    let mut src = gzip(b"xy");
    src.extend_from_slice(&gzip(b"z##fileformat=VCFv4.2\n"));
    assert_eq!(detect_format(&src, Some(Compression::Bgzf)), Ok(Format::Vcf));
    let mut src = gzip(b"B");
    src.extend_from_slice(&gzip(b"CF\x02\x02"));
    assert_eq!(detect_format(&src, Some(Compression::Bgzf)), Ok(Format::Bcf));
}

#[test]
fn decoded_bytes_are_judged_exactly() {
    assert_eq!(format_of_decoded(Some(b"BCF".to_vec()), None), Ok(Format::Bcf));
    assert_eq!(
        format_of_decoded(Some(b"BCF".to_vec()), Some(b"BCF\x02\x02".to_vec())),
        Ok(Format::Bcf)
    );
    assert_eq!(format_of_decoded(None, None), Err(Error::Io));
    assert_eq!(format_of_decoded(None, Some(b"xyz##fileformat=VCF".to_vec())), Err(Error::Io));
    assert_eq!(format_of_decoded(Some(b"xyz".to_vec()), None), Err(Error::Io));
    assert_eq!(
        format_of_decoded(Some(b"xyz".to_vec()), Some(b"xyz##fileformat=VCF".to_vec())),
        Ok(Format::Vcf)
    );
    assert_eq!(
        format_of_decoded(Some(b"##f".to_vec()), Some(b"##fileformat=VCFv4.".to_vec())),
        Err(Error::FormatDetection)
    );
    assert_eq!(
        format_of_decoded(Some(b"xyz".to_vec()), Some(b"xyz##fileformat=VC".to_vec())),
        Err(Error::FormatDetection)
    );
    assert_eq!(
        format_of_decoded(Some(b"BCFX".to_vec()), Some(b"xyz##fileformat=VCF".to_vec())),
        Ok(Format::Vcf)
    );
}

#[test]
fn sniffing_classifies_by_the_magics() {
    assert_eq!(sniff(&gzip(b"BCF\x02\x02")), Ok((Format::Bcf, Some(Compression::Bgzf))));
    assert_eq!(sniff(b"BCF\x02\x02"), Ok((Format::Bcf, None)));
    assert_eq!(sniff(b"##fileformat=VCFv4.3\n"), Ok((Format::Vcf, None)));
    assert_eq!(sniff(b"chr1\t1000\t.\tA\tT\n"), Err(Error::FormatDetection));
    assert_eq!(sniff(b""), Err(Error::FormatDetection));
}

#[test]
fn sniffing_leaves_the_bytes_alone() {
    let src = gzip(b"BCF\x02\x02 and the rest of the header");
    let copy = src.clone();
    assert_eq!(sniff(&src), sniff(&src));
    assert_eq!(src, copy);
}

#[test]
fn index_serves_only_block_gzip() {
    let bgzf = Some(Compression::Bgzf);
    for index in [Some(IndexKind::Csi), Some(IndexKind::Tbi)] {
        assert_eq!(ReaderInner::select(Format::Bcf, bgzf, index), ReaderInner::Indexed(Format::Bcf));
        assert_eq!(ReaderInner::select(Format::Vcf, bgzf, index), ReaderInner::Indexed(Format::Vcf));
        assert_eq!(ReaderInner::select(Format::Bcf, None, index), ReaderInner::Plain(Format::Bcf, None));
        assert_eq!(ReaderInner::select(Format::Vcf, None, index), ReaderInner::Plain(Format::Vcf, None));
    }
    assert_eq!(ReaderInner::select(Format::Bcf, bgzf, None), ReaderInner::Plain(Format::Bcf, bgzf));
    assert_eq!(ReaderInner::select(Format::Vcf, bgzf, None), ReaderInner::Plain(Format::Vcf, bgzf));
    assert_eq!(ReaderInner::select(Format::Bcf, None, None), ReaderInner::Plain(Format::Bcf, None));
    assert_eq!(ReaderInner::select(Format::Vcf, None, None), ReaderInner::Plain(Format::Vcf, None));
}

#[test]
fn pipeline_keeps_the_encoding() {
    assert_eq!(ReaderInner::Indexed(Format::Bcf).format(), Format::Bcf);
    assert_eq!(ReaderInner::Plain(Format::Vcf, Some(Compression::Bgzf)).format(), Format::Vcf);
}

#[test]
fn open_sniffs_and_selects() {
    let wrapped = gzip(b"BCF\x02\x02");
    assert_eq!(open(&wrapped, Some(IndexKind::Csi)), Ok(ReaderInner::Indexed(Format::Bcf)));
    assert_eq!(open(&wrapped, Some(IndexKind::Tbi)), Ok(ReaderInner::Indexed(Format::Bcf)));
    assert_eq!(open(&wrapped, None), Ok(ReaderInner::Plain(Format::Bcf, Some(Compression::Bgzf))));
    let text = gzip(b"xyz##fileformat=VCFv4.2\n");
    assert_eq!(open(&text, Some(IndexKind::Tbi)), Ok(ReaderInner::Indexed(Format::Vcf)));
    assert_eq!(
        open(b"##fileformat=VCFv4.2\n", Some(IndexKind::Tbi)),
        Ok(ReaderInner::Plain(Format::Vcf, None))
    );
    assert_eq!(open(b"BCF\x02\x02", None), Ok(ReaderInner::Plain(Format::Bcf, None)));
    assert_eq!(open(b"no such thing", Some(IndexKind::Csi)), Err(Error::FormatDetection));
    assert_eq!(open(&gzip(b"B"), Some(IndexKind::Csi)), Err(Error::Io));
}

#[test]
fn csi_is_used_before_tbi() {
    assert_eq!(find_index(Probe::Usable, Probe::Usable), Some(IndexKind::Csi));
    assert_eq!(find_index(Probe::Usable, Probe::Missing), Some(IndexKind::Csi));
    assert_eq!(find_index(Probe::Usable, Probe::Unparseable), Some(IndexKind::Csi));
    assert_eq!(find_index(Probe::Missing, Probe::Usable), Some(IndexKind::Tbi));
}

#[test]
fn unparseable_index_is_passed_over() {
    assert_eq!(find_index(Probe::Unparseable, Probe::Usable), Some(IndexKind::Tbi));
    assert_eq!(find_index(Probe::Unparseable, Probe::Missing), None);
    assert_eq!(find_index(Probe::Unparseable, Probe::Unparseable), None);
    assert_eq!(find_index(Probe::Missing, Probe::Unparseable), None);
    assert_eq!(
        open(&gzip(b"BCF\x02\x02"), find_index(Probe::Unparseable, Probe::Missing)),
        Ok(ReaderInner::Plain(Format::Bcf, Some(Compression::Bgzf)))
    );
}

#[test]
fn missing_index_is_no_index() {
    assert_eq!(find_index(Probe::Missing, Probe::Missing), None);
}

#[test]
fn index_lies_beside_the_file() {
    assert_eq!(index_path("tests/t.vcf.gz", IndexKind::Csi), "tests/t.vcf.gz.csi");
    assert_eq!(index_path("tests/t.vcf.gz", IndexKind::Tbi), "tests/t.vcf.gz.tbi");
    assert_eq!(index_path("", IndexKind::Csi), ".csi");
}
