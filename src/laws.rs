//! Properties of the archives that a `ZipStream` writes.
use vstd::prelude::*;
use crate::bytes::{le16, le32, le64};
use crate::crc::crc32_of;
use crate::file::{FileToZip, central_record_spec, lemma_local_header_fields, lemma_record_lengths};
use crate::stream::{
    ZipStream,
    archive_tail,
    central_dir,
    entries_bytes,
    entry_bytes,
    lemma_entries_prefix,
    zip64_eocd_spec,
    lemma_tail_lengths,
};

verus! {

/// Every completed entry records as its size the number of bytes streamed for
/// it, and as its CRC-32 the checksum of exactly those bytes.
pub proof fn lemma_entries_record_their_content(s: &ZipStream, i: int)
    requires
        s.wf(),
        0 <= i < s.entries().len(),
    ensures
        s.entries()[i].content_size() == Some(s.contents()[i].len() as u64),
        s.entries()[i].crc() == Some(crc32_of(s.contents()[i])),
{
}

/// The length of the completed entries: for each, its local header (50 bytes
/// and the name), its content and its 24-byte descriptor.
pub open spec fn entries_len(files: Seq<FileToZip>, contents: Seq<Seq<u8>>) -> int
    decreases files.len(),
{
    if files.len() == 0 {
        0
    } else {
        entries_len(files.drop_last(), contents.drop_last()) + 74 + files.last().name().len()
            + contents.last().len()
    }
}

proof fn lemma_entries_len(files: Seq<FileToZip>, contents: Seq<Seq<u8>>)
    ensures
        entries_bytes(files, contents).len() == entries_len(files, contents),
    decreases files.len(),
{
    if files.len() > 0 {
        let f = files.last();
        let c = contents.last();
        lemma_record_lengths(f.name(), f.time(), f.date(), crc32_of(c), c.len() as u64, 0);
        lemma_entries_len(files.drop_last(), contents.drop_last());
    }
}

/// The offset that an entry's central record carries in its ZIP64 extra field
/// is where that entry's local header stands in the archive.
pub proof fn lemma_offsets_point_at_local_headers(s: &ZipStream, i: int)
    requires
        s.wf(),
        0 <= i < s.entries().len(),
    ensures
        ({
            let f = s.entries()[i];
            let rec = f.central_record();
            let off = f.offset() as int;
            &&& off + f.local_header().len() <= s.written().len()
            &&& s.written().subrange(off, off + f.local_header().len()) == f.local_header()
            &&& rec.len() >= 8
            &&& rec.subrange(rec.len() - 8, rec.len() as int) == le64(f.offset())
            &&& off == entries_len(s.entries().take(i), s.contents().take(i))
            &&& s.written().subrange(off, off + 4) == le32(0x04034b50)
            &&& s.written().subrange(off + 30, off + 30 + f.name().len()) == f.name()
        }),
{
    let files = s.entries();
    let contents = s.contents();
    let f = files[i];
    lemma_entries_prefix(files, contents, i + 1);
    let before = entries_bytes(files.take(i), contents.take(i));
    let upto = entries_bytes(files.take(i + 1), contents.take(i + 1));
    assert(files.take(i + 1).drop_last() =~= files.take(i));
    assert(contents.take(i + 1).drop_last() =~= contents.take(i));
    assert(upto == before + entry_bytes(f, contents[i]));
    let all = entries_bytes(files, contents);
    let h = f.local_header();
    assert(s.written().subrange(0, all.len() as int) =~= all);
    assert(upto.subrange(before.len() as int, before.len() + h.len() as int) =~= h);
    assert(s.written().subrange(f.offset() as int, f.offset() + h.len()) =~= h);
    lemma_entries_len(files.take(i), contents.take(i));
    lemma_local_header_fields(f.name(), f.time(), f.date());
    let w = s.written().subrange(f.offset() as int, f.offset() + h.len());
    assert(s.written().subrange(f.offset() as int, f.offset() + 4) =~= w.subrange(0, 4));
    assert(s.written().subrange(f.offset() + 30, f.offset() + 30 + f.name().len()) =~= w.subrange(
        30,
        30 + f.name().len() as int,
    ));
    lemma_central_record_fields(
        f.name(),
        f.time(),
        f.date(),
        f.crc().unwrap(),
        f.content_size().unwrap(),
        f.offset(),
    );
}

/// A reader of a central record finds, at the fixed places of the format,
/// the CRC-32, the name length, the name, and in the ZIP64 extra field the
/// two sizes and the offset of the local header.
pub proof fn lemma_central_record_fields(
    name: Seq<u8>,
    time: u16,
    date: u16,
    crc: u32,
    size: u64,
    offset: u64,
)
    requires
        name.len() <= 0xffff,
    ensures
        ({
            let rec = central_record_spec(name, time, date, crc, size, offset);
            let n = name.len() as int;
            &&& rec.len() == 74 + n
            &&& rec.subrange(0, 4) == le32(0x02014b50)
            &&& rec.subrange(16, 20) == le32(crc)
            &&& rec.subrange(28, 30) == le16(name.len() as u16)
            &&& rec.subrange(46, 46 + n) == name
            &&& rec.subrange(50 + n, 58 + n) == le64(size)
            &&& rec.subrange(58 + n, 66 + n) == le64(size)
            &&& rec.subrange(66 + n, 74 + n) == le64(offset)
        }),
{
    reveal(central_record_spec);
    let rec = central_record_spec(name, time, date, crc, size, offset);
    let n = name.len() as int;
    assert(rec.subrange(0, 4) =~= le32(0x02014b50));
    assert(rec.subrange(16, 20) =~= le32(crc));
    assert(rec.subrange(28, 30) =~= le16(name.len() as u16));
    assert(rec.subrange(46, 46 + n) =~= name);
    assert(rec.subrange(50 + n, 58 + n) =~= le64(size));
    assert(rec.subrange(58 + n, 66 + n) =~= le64(size));
    assert(rec.subrange(66 + n, 74 + n) =~= le64(offset));
}

/// Entries with the same names, timestamps and contents, in the same order.
pub open spec fn same_entries(
    fa: Seq<FileToZip>,
    ca: Seq<Seq<u8>>,
    fb: Seq<FileToZip>,
    cb: Seq<Seq<u8>>,
) -> bool {
    &&& fa.len() == fb.len()
    &&& ca == cb
    &&& forall|i: int|
        0 <= i < fa.len() ==> (#[trigger] fa[i]).name() == fb[i].name() && fa[i].time()
            == fb[i].time() && fa[i].date() == fb[i].date()
}

proof fn lemma_entries_bytes_same(
    fa: Seq<FileToZip>,
    ca: Seq<Seq<u8>>,
    fb: Seq<FileToZip>,
    cb: Seq<Seq<u8>>,
)
    requires
        same_entries(fa, ca, fb, cb),
    ensures
        entries_bytes(fa, ca) == entries_bytes(fb, cb),
    decreases fa.len(),
{
    if fa.len() > 0 {
        let n = fa.len() - 1;
        assert(fa[n].name() == fb[n].name());
        assert forall|i: int| 0 <= i < fa.drop_last().len() implies (#[trigger] fa.drop_last()[i]).name()
            == fb.drop_last()[i].name() && fa.drop_last()[i].time() == fb.drop_last()[i].time()
            && fa.drop_last()[i].date() == fb.drop_last()[i].date() by {
            assert(fa[i].name() == fb[i].name());
        }
        lemma_entries_bytes_same(fa.drop_last(), ca.drop_last(), fb.drop_last(), cb.drop_last());
    }
}

proof fn lemma_central_dir_same(fa: Seq<FileToZip>, fb: Seq<FileToZip>)
    requires
        fa.len() == fb.len(),
        forall|i: int| 0 <= i < fa.len() ==> (#[trigger] fa[i]).central_record() == fb[i].central_record(),
    ensures
        central_dir(fa) == central_dir(fb),
    decreases fa.len(),
{
    if fa.len() > 0 {
        let n = fa.len() - 1;
        assert(fa[n].central_record() == fb[n].central_record());
        assert forall|i: int| 0 <= i < fa.drop_last().len() implies (#[trigger] fa.drop_last()[i]).central_record()
            == fb.drop_last()[i].central_record() by {
            assert(fa[i].central_record() == fb[i].central_record());
        }
        lemma_central_dir_same(fa.drop_last(), fb.drop_last());
    }
}

/// Two archives built from the same entries, with the same names, timestamps
/// and contents in the same order, are byte for byte the same: the bytes
/// written so far and the tail that `finalize` writes both agree.
pub proof fn lemma_encoding_is_deterministic(a: &ZipStream, b: &ZipStream)
    requires
        a.wf(),
        b.wf(),
        !a.is_streaming(),
        !b.is_streaming(),
        same_entries(a.entries(), a.contents(), b.entries(), b.contents()),
    ensures
        a.written() == b.written(),
        archive_tail(a.entries(), a.cursor()) == archive_tail(b.entries(), b.cursor()),
{
    let fa = a.entries();
    let fb = b.entries();
    lemma_entries_bytes_same(fa, a.contents(), fb, b.contents());
    assert(a.written() =~= entries_bytes(fa, a.contents()));
    assert(b.written() =~= entries_bytes(fb, b.contents()));
    assert forall|i: int| 0 <= i < fa.len() implies (#[trigger] fa[i]).central_record()
        == fb[i].central_record() by {
        assert(fa[i].name() == fb[i].name());
        assert(fb[i].crc() == Some(crc32_of(b.contents()[i])));
        assert(fa[i].crc() == Some(crc32_of(a.contents()[i])));
        lemma_entries_bytes_same(fa.take(i), a.contents().take(i), fb.take(i), b.contents().take(i));
    }
    lemma_central_dir_same(fa, fb);
}

/// Both entry counts of the ZIP64 end-of-central-directory record are the
/// number of entries in the central directory.
pub proof fn lemma_entry_counts(files: Seq<FileToZip>, cd_start: u64)
    requires
        files.len() <= u64::MAX,
    ensures
        ({
            let tail = archive_tail(files, cd_start);
            let cd = central_dir(files).len() as int;
            &&& tail.len() >= cd + 40
            &&& tail.subrange(cd + 24, cd + 32) == le64(files.len() as u64)
            &&& tail.subrange(cd + 32, cd + 40) == le64(files.len() as u64)
        }),
{
    let cd = central_dir(files).len() as int;
    let cd_size = central_dir(files).len() as u64;
    let n = files.len() as u64;
    lemma_tail_lengths(n, cd_size, cd_start, (cd_start + cd_size) as u64);
    reveal(zip64_eocd_spec);
    let rec = zip64_eocd_spec(n, cd_size, cd_start);
    let tail = archive_tail(files, cd_start);
    assert(tail.subrange(cd, cd + 56) =~= rec);
    assert(rec.subrange(24, 32) =~= le64(n));
    assert(rec.subrange(32, 40) =~= le64(n));
    assert(tail.subrange(cd + 24, cd + 32) =~= rec.subrange(24, 32));
    assert(tail.subrange(cd + 32, cd + 40) =~= rec.subrange(32, 40));
}

} // verus!
