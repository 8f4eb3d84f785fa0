use streamed_zip::file::is_valid_archive_name;
use streamed_zip::{FileToZip, Timestamp, ZipError, ZipStream};

fn fixed_time() -> Timestamp {
    Timestamp::new(2020, 5, 17, 13, 45, 30).unwrap()
}

fn u16_at(b: &[u8], at: usize) -> u16 {
    u16::from_le_bytes([b[at], b[at + 1]])
}

fn u32_at(b: &[u8], at: usize) -> u32 {
    u32::from_le_bytes([b[at], b[at + 1], b[at + 2], b[at + 3]])
}

fn u64_at(b: &[u8], at: usize) -> u64 {
    let mut a = [0u8; 8];
    a.copy_from_slice(&b[at..at + 8]);
    u64::from_le_bytes(a)
}

/// Encodes the given files, feeding the content in chunks of `chunk` bytes.
fn encode(entries: &[(&str, &[u8])], chunk: usize) -> Vec<u8> {
    let mut stream = ZipStream::new();
    let mut archive: Vec<u8> = Vec::new();
    for (name, content) in entries {
        let file = FileToZip::from_reader(name.to_string(), Some(fixed_time())).unwrap();
        let mut out = Vec::new();
        let header = stream.add_file(file, &mut out).unwrap();
        assert_eq!(header as usize, out.len());
        archive.extend_from_slice(&out);
        for piece in content.chunks(chunk) {
            stream.write_chunk(piece).unwrap();
            archive.extend_from_slice(piece);
        }
        let mut out = Vec::new();
        let total = stream.finish_file(&mut out);
        archive.extend_from_slice(&out);
        assert_eq!(total as usize, header as usize + content.len() + 24);
    }
    let mut out = Vec::new();
    let total = stream.finalize(&mut out);
    archive.extend_from_slice(&out);
    assert_eq!(total as usize, archive.len());
    archive
}

struct CentralEntry {
    name: Vec<u8>,
    crc: u32,
    size: u64,
    offset: u64,
}

/// Reads the end-of-archive records and the central directory back.
fn read_central_dir(archive: &[u8]) -> (u64, Vec<CentralEntry>) {
    let n = archive.len();
    let eocd = n - 22;
    assert_eq!(u32_at(archive, eocd), 0x06054b50);
    assert_eq!(u16_at(archive, eocd + 8), 0xffff);
    let locator = eocd - 20;
    assert_eq!(u32_at(archive, locator), 0x07064b50);
    let z64 = u64_at(archive, locator + 8) as usize;
    assert_eq!(z64, locator - 56);
    assert_eq!(u32_at(archive, z64), 0x06064b50);
    assert_eq!(u64_at(archive, z64 + 4), 44);
    let count = u64_at(archive, z64 + 24);
    assert_eq!(u64_at(archive, z64 + 32), count);
    let cd_size = u64_at(archive, z64 + 40) as usize;
    let cd_start = u64_at(archive, z64 + 48) as usize;
    assert_eq!(cd_start + cd_size, z64);
    let mut entries = Vec::new();
    let mut at = cd_start;
    while at < cd_start + cd_size {
        assert_eq!(u32_at(archive, at), 0x02014b50);
        let crc = u32_at(archive, at + 16);
        assert_eq!(u64_at(archive, at + 20), u64::MAX);
        let name_len = u16_at(archive, at + 28) as usize;
        assert_eq!(u16_at(archive, at + 30), 28);
        assert_eq!(u32_at(archive, at + 42), u32::MAX);
        let name = archive[at + 46..at + 46 + name_len].to_vec();
        let extra = at + 46 + name_len;
        assert_eq!(&archive[extra..extra + 4], &[1, 0, 24, 0]);
        let size = u64_at(archive, extra + 4);
        assert_eq!(u64_at(archive, extra + 12), size);
        let offset = u64_at(archive, extra + 20);
        entries.push(CentralEntry { name, crc, size, offset });
        at = extra + 28;
    }
    assert_eq!(at, cd_start + cd_size);
    (count, entries)
}

#[test]
fn from_eq_to() {}

#[test]
fn empty_file_gives_one_entry_with_zero_size_and_crc() {
    let archive = encode(&[("a.txt", b"")], 16);
    let (count, entries) = read_central_dir(&archive);
    assert_eq!(count, 1);
    assert_eq!(entries.len(), 1);
    assert_eq!(entries[0].name, b"a.txt".to_vec());
    assert_eq!(entries[0].size, 0);
    assert_eq!(entries[0].crc, 0x00000000);
    assert_eq!(entries[0].offset, 0);
    // local header, descriptor, central record and the three tail records
    assert_eq!(archive.len(), 55 + 24 + 79 + 98);
}

#[test]
fn names_are_normalized() {
    let f = FileToZip::from_reader("/dir\\sub\\b.txt".to_string(), Some(fixed_time())).unwrap();
    assert_eq!(f.file_name(), b"dir/sub/b.txt");
    let f = FileToZip::from_reader("\\x".to_string(), Some(fixed_time())).unwrap();
    assert_eq!(f.file_name(), b"x");
    let f = FileToZip::from_reader("//x".to_string(), Some(fixed_time())).unwrap();
    assert_eq!(f.file_name(), b"/x");
    let archive = encode(&[("/top\\inner.txt", b"abc")], 2);
    let (_, entries) = read_central_dir(&archive);
    assert_eq!(entries[0].name, b"top/inner.txt".to_vec());
}

#[test]
fn invalid_names_are_refused() {
    assert!(!is_valid_archive_name(&String::new()));
    assert!(!is_valid_archive_name(&"/".to_string()));
    assert!(is_valid_archive_name(&"//".to_string()));
    assert!(matches!(
        FileToZip::from_file(String::new(), 1589723130),
        Err(ZipError::InvalidName)
    ));
    assert!(matches!(
        FileToZip::from_file("/".to_string(), 1589723130),
        Err(ZipError::InvalidName)
    ));
    let long = "a".repeat(65536);
    assert!(!is_valid_archive_name(&long));
    assert!(matches!(
        FileToZip::from_file(long, 1589723130),
        Err(ZipError::InvalidName)
    ));
    let longest = "a".repeat(65535);
    assert!(is_valid_archive_name(&longest));
    assert!(FileToZip::from_reader(longest, Some(fixed_time())).is_ok());
}

#[test]
fn central_record_needs_streamed_content() {
    let f = FileToZip::from_reader("a.txt".to_string(), Some(fixed_time())).unwrap();
    assert!(!f.content_written());
    assert_eq!(f.crc32(), None);
    assert_eq!(f.size(), None);
    let mut stream = ZipStream::new();
    let mut out = Vec::new();
    stream.add_file(f, &mut out).unwrap();
    stream.finish_file(&mut out);
    let done = &stream.files()[0];
    assert!(done.content_written());
    let mut record = Vec::new();
    assert_eq!(done.write_central_dir_entry(&mut record), 79);
    assert_eq!(record.len(), 79);
    assert_eq!(u32_at(&record, 0), 0x02014b50);
    assert_eq!(u32_at(&record, 16), 0);
}

#[test]
fn sizes_and_crcs_match_the_streamed_bytes() {
    let big: Vec<u8> = (0..131072 + 1000).map(|i| (i * 7 % 251) as u8).collect();
    let exact: Vec<u8> = (0..131072).map(|i| (i % 256) as u8).collect();
    let contents: Vec<(&str, &[u8])> = vec![
        ("empty", b""),
        ("one", b"x"),
        ("exact", &exact),
        ("big", &big),
    ];
    for chunk in [7usize, 4096, 131072] {
        let archive = encode(&contents, chunk);
        let (count, entries) = read_central_dir(&archive);
        assert_eq!(count, 4);
        for (e, (name, content)) in entries.iter().zip(contents.iter()) {
            assert_eq!(e.name, name.as_bytes().to_vec());
            assert_eq!(e.size, content.len() as u64);
            assert_eq!(e.crc, crc32fast::hash(content));
        }
    }
}

#[test]
fn crc_of_known_content() {
    let mut stream = ZipStream::new();
    let file = FileToZip::from_reader("hello.txt".to_string(), Some(fixed_time())).unwrap();
    let mut out = Vec::new();
    stream.add_file(file, &mut out).unwrap();
    stream.write_chunk(b"hello ").unwrap();
    stream.write_chunk(b"world").unwrap();
    let mut out = Vec::new();
    stream.finish_file(&mut out);
    // descriptor: signature, CRC-32, two sizes
    assert_eq!(u32_at(&out, 0), 0x08074b50);
    assert_eq!(u32_at(&out, 4), 0x0d4a1185);
    assert_eq!(u64_at(&out, 8), 11);
    assert_eq!(u64_at(&out, 16), 11);
    let f = &stream.files()[0];
    assert_eq!(f.crc32(), Some(0x0d4a1185));
    assert_eq!(f.size(), Some(11));
}

#[test]
fn offsets_point_at_local_headers() {
    let archive = encode(&[("a", b"12345"), ("bb", b""), ("ccc", b"xyz")], 2);
    let (_, entries) = read_central_dir(&archive);
    assert_eq!(entries[0].offset, 0);
    assert_eq!(entries[1].offset, 51 + 5 + 24);
    assert_eq!(entries[2].offset, 51 + 5 + 24 + 52 + 24);
    for e in &entries {
        let at = e.offset as usize;
        assert_eq!(u32_at(&archive, at), 0x04034b50);
        let name_len = u16_at(&archive, at + 26) as usize;
        assert_eq!(&archive[at + 30..at + 30 + name_len], &e.name[..]);
    }
}

#[test]
fn encoding_twice_gives_identical_bytes() {
    let files: Vec<(&str, &[u8])> = vec![("x/one.bin", b"first file"), ("two", b"second")];
    assert_eq!(encode(&files, 3), encode(&files, 3));
    assert_eq!(encode(&files, 3), encode(&files, 1000));
}

#[test]
fn entry_counts_match_added_entries() {
    let archive = encode(&[], 8);
    let (count, entries) = read_central_dir(&archive);
    assert_eq!(count, 0);
    assert_eq!(entries.len(), 0);
    assert_eq!(archive.len(), 98);
    let archive = encode(&[("a", b"1"), ("b", b"2"), ("c", b"3")], 8);
    let (count, entries) = read_central_dir(&archive);
    assert_eq!(count, 3);
    assert_eq!(entries.len(), 3);
}

#[test]
fn local_header_layout() {
    let mut stream = ZipStream::new();
    let file = FileToZip::from_reader("ab".to_string(), Some(fixed_time())).unwrap();
    let mut out = Vec::new();
    assert_eq!(stream.add_file(file, &mut out), Ok(52));
    let mut expected = vec![0x50, 0x4b, 0x03, 0x04, 45, 0, 0x08, 0x08, 0, 0];
    expected.extend_from_slice(&28079u16.to_le_bytes());
    expected.extend_from_slice(&20657u16.to_le_bytes());
    expected.extend_from_slice(&[0; 4]);
    expected.extend_from_slice(&[0xff; 8]);
    expected.extend_from_slice(&[2, 0, 20, 0, b'a', b'b', 1, 0, 16, 0]);
    expected.extend_from_slice(&[0xff; 16]);
    assert_eq!(out, expected);
    assert!(stream.has_open_entry());
    assert_eq!(stream.bytes_written(), 52);
}

#[test]
fn dos_time_and_date() {
    let t = fixed_time();
    assert_eq!(t.dos_time(), 28079);
    assert_eq!(t.dos_date(), 20657);
    let first = Timestamp::new(1980, 1, 1, 0, 0, 0).unwrap();
    assert_eq!(first.dos_date(), 32 + 1);
    assert_eq!(first.dos_time(), 0);
    let last = Timestamp::new(2107, 12, 31, 23, 59, 59).unwrap();
    assert_eq!(last.dos_date(), 127 * 512 + 12 * 32 + 31);
    assert_eq!(last.dos_time(), 29 + 59 * 32 + 23 * 2048);
    assert!(Timestamp::new(2020, 13, 1, 0, 0, 0).is_none());
    assert!(Timestamp::new(2020, 1, 0, 0, 0, 0).is_none());
    assert!(Timestamp::new(2020, 1, 1, 24, 0, 0).is_none());
    assert!(Timestamp::new(2020, 1, 1, 0, 60, 0).is_none());
    assert!(Timestamp::new(2020, 1, 1, 0, 0, 60).is_none());
}

#[test]
fn timestamps_from_unix_seconds() {
    let t = Timestamp::from_unix(1431648000).unwrap();
    assert_eq!(t, Timestamp::new(2015, 5, 15, 0, 0, 0).unwrap());
    let t = Timestamp::from_unix(1589723130).unwrap();
    assert_eq!(t, fixed_time());
    assert!(Timestamp::from_unix(i64::MAX).is_none());
    let f = FileToZip::from_file("\\a\\b".to_string(), 1589723130).unwrap();
    assert_eq!(f.file_name(), b"a/b");
    assert_eq!(f.last_mod_time(), 28079);
    assert_eq!(f.last_mod_date(), 20657);
    assert!(matches!(
        FileToZip::from_file("a".to_string(), i64::MAX),
        Err(ZipError::InvalidTimestamp)
    ));
    assert!(matches!(
        FileToZip::from_file("/".to_string(), 0),
        Err(ZipError::InvalidName)
    ));
}

#[test]
fn calendar_range_edges() {
    let min = Timestamp::from_unix(-8_334_601_228_800).unwrap();
    assert_eq!((min.year, min.month, min.day, min.hour), (-262143, 1, 1, 0));
    assert!(Timestamp::from_unix(-8_334_601_228_801).is_none());
    let max = Timestamp::from_unix(8_210_266_876_799).unwrap();
    assert_eq!(max, Timestamp::new(262142, 12, 31, 23, 59, 59).unwrap());
    assert!(Timestamp::from_unix(8_210_266_876_800).is_none());
    assert!(Timestamp::from_unix(i64::MIN).is_none());
}

#[test]
fn modification_times_outside_dos_years_are_refused() {
    assert!(matches!(
        FileToZip::from_file("a".to_string(), 315_532_799),
        Err(ZipError::InvalidTimestamp)
    ));
    let f = FileToZip::from_file("a".to_string(), 315_532_800).unwrap();
    assert_eq!(f.last_mod_date(), 33);
    assert_eq!(f.last_mod_time(), 0);
    let f = FileToZip::from_file("a".to_string(), 4_354_819_199).unwrap();
    assert_eq!(f.last_mod_date(), 127 * 512 + 12 * 32 + 31);
    assert_eq!(f.last_mod_time(), 29 + 59 * 32 + 23 * 2048);
    assert!(matches!(
        FileToZip::from_file("a".to_string(), 4_354_819_200),
        Err(ZipError::InvalidTimestamp)
    ));
    assert!(matches!(
        FileToZip::from_file("a".to_string(), 0),
        Err(ZipError::InvalidTimestamp)
    ));
}

#[test]
fn current_time_is_a_valid_clock_reading() {
    let t = Timestamp::now().unwrap();
    assert!(t.year >= 2020);
    assert!((1..=12).contains(&t.month));
    let f = FileToZip::from_reader("now".to_string(), None).unwrap();
    assert_eq!(f.offset_of_local_header(), 0);
}
