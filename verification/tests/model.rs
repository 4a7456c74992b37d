use vcfskip::{is_record_after_last, Contig, GenomicRegion, Header, Mark, Record};

fn header() -> Header {
    Header::new(vec![
        Contig { name: b"chr1".to_vec(), length: Some(5000) },
        Contig { name: b"chr2".to_vec(), length: None },
        Contig { name: b"chr1".to_vec(), length: Some(7) },
    ])
}

fn mark(rank: Option<usize>, start: u64, end: Option<u64>) -> Mark {
    Mark { rank, start, end }
}

#[test]
fn dictionary_gives_the_first_index_of_a_name() {
    let header = header();
    assert_eq!(header.index_of(b"chr1"), Some(0));
    assert_eq!(header.index_of(b"chr2"), Some(1));
    assert_eq!(header.index_of(b"chr3"), None);
    assert_eq!(header.index_of(b"chr"), None);
    assert_eq!(header.index_of(b"chr11"), None);
    assert_eq!(header.index_of(b""), None);
}

#[test]
fn empty_dictionary_knows_no_name() {
    let header = Header::new(Vec::new());
    assert_eq!(header.index_of(b"chr1"), None);
}

#[test]
fn region_counts_from_one() {
    let region = GenomicRegion::new(b"chr1".to_vec(), Some(2000), Some(3000));
    assert_eq!(region.contig, b"chr1".to_vec());
    assert_eq!(region.offset, 1999);
    assert_eq!(region.end, Some(3000));
}

#[test]
fn region_without_start_begins_at_one() {
    assert_eq!(GenomicRegion::new(b"chr1".to_vec(), None, None).offset, 0);
    assert_eq!(GenomicRegion::new(b"chr1".to_vec(), Some(1), None).offset, 0);
    assert_eq!(GenomicRegion::new(b"chr1".to_vec(), Some(0), None).offset, 0);
    assert_eq!(GenomicRegion::new(b"chr1".to_vec(), Some(u64::MAX), None).offset, u64::MAX - 1);
}

#[test]
fn region_after_an_offset_is_open_ended() {
    let region = GenomicRegion::after(b"chr2".to_vec(), 1999);
    assert_eq!(region, GenomicRegion::new(b"chr2".to_vec(), Some(2000), None));
    assert_eq!(GenomicRegion::after(b"chr2".to_vec(), u64::MAX).offset, u64::MAX);
}

#[test]
fn record_reaches_by_its_end() {
    let region = GenomicRegion::new(b"chr1".to_vec(), Some(2000), None);
    let record = |start: u64, end: Option<u64>| Record { chrom: b"chr1".to_vec(), start, end, data: () };
    assert!(record(1000, Some(2000)).ends_in_reach(&region));
    assert!(record(1000, Some(2001)).ends_in_reach(&region));
    assert!(!record(1000, Some(1999)).ends_in_reach(&region));
    assert!(record(2000, None).ends_in_reach(&region));
    assert!(record(5000, None).ends_in_reach(&region));
}

#[test]
fn record_without_end_counts_one_position() {
    let region = GenomicRegion::new(b"chr1".to_vec(), Some(2000), None);
    let record = |start: u64| Record { chrom: b"chr9".to_vec(), start, end: None, data: () };
    assert!(record(1999).ends_in_reach(&region));
    assert!(!record(1998).ends_in_reach(&region));
    let first = GenomicRegion::new(b"chr1".to_vec(), None, None);
    assert!(record(0).ends_in_reach(&first));
    let last = GenomicRegion::after(b"chr1".to_vec(), u64::MAX);
    assert!(record(u64::MAX).ends_in_reach(&last));
    assert!(!record(u64::MAX - 1).ends_in_reach(&last));
    let full = Record { chrom: b"chr1".to_vec(), start: 1, end: Some(u64::MAX), data: () };
    assert!(!full.ends_in_reach(&last));
}

#[test]
fn record_is_located_under_the_header() {
    let header = header();
    let record = Record { chrom: b"chr2".to_vec(), start: 3000, end: Some(3001), data: 'x' };
    assert_eq!(record.locate(&header), mark(Some(1), 3000, Some(3001)));
    let stray = Record { chrom: b"chrUn".to_vec(), start: 5, end: None, data: 'y' };
    assert_eq!(stray.locate(&header), mark(None, 5, None));
}

#[test]
fn later_contig_is_after() {
    assert!(is_record_after_last(&mark(Some(0), 2000, None), &mark(Some(1), 1, None)));
    assert!(!is_record_after_last(&mark(Some(1), 1, None), &mark(Some(0), 2000, None)));
    assert!(is_record_after_last(&mark(None, 9, None), &mark(Some(0), 1, None)));
    assert!(!is_record_after_last(&mark(Some(0), 1, None), &mark(None, 9, None)));
}

#[test]
fn later_start_is_after() {
    assert!(is_record_after_last(&mark(Some(0), 1000, None), &mark(Some(0), 2000, None)));
    assert!(!is_record_after_last(&mark(Some(0), 2000, None), &mark(Some(0), 1000, None)));
    assert!(is_record_after_last(&mark(None, 1, Some(9)), &mark(None, 2, Some(3))));
    assert!(!is_record_after_last(&mark(Some(0), 2000, Some(9000)), &mark(Some(0), 1999, Some(9999))));
}

#[test]
fn later_end_is_after() {
    let last = mark(Some(0), 2000, Some(2005));
    assert!(is_record_after_last(&last, &mark(Some(0), 2000, Some(2006))));
    assert!(!is_record_after_last(&last, &mark(Some(0), 2000, Some(2005))));
    assert!(!is_record_after_last(&last, &mark(Some(0), 2000, Some(2004))));
}

#[test]
fn same_record_is_not_after() {
    let last = mark(Some(0), 2000, None);
    assert!(!is_record_after_last(&last, &last));
    let last = mark(None, 0, None);
    assert!(!is_record_after_last(&last, &last));
}

#[test]
fn missing_end_counts_as_the_next_position() {
    let open = mark(Some(0), 2000, None);
    assert!(!is_record_after_last(&open, &mark(Some(0), 2000, Some(2001))));
    assert!(!is_record_after_last(&mark(Some(0), 2000, Some(2001)), &open));
    assert!(is_record_after_last(&open, &mark(Some(0), 2000, Some(2002))));
    assert!(!is_record_after_last(&open, &mark(Some(0), 2000, Some(2000))));
    assert!(is_record_after_last(&mark(Some(0), 2000, Some(2000)), &open));
    assert!(!is_record_after_last(&mark(Some(0), 2000, Some(2002)), &open));
    let top = mark(Some(0), u64::MAX, None);
    assert!(is_record_after_last(&mark(Some(0), u64::MAX, Some(u64::MAX)), &top));
    assert!(!is_record_after_last(&top, &mark(Some(0), u64::MAX, Some(u64::MAX))));
}
