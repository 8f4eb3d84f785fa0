//! The archive writer: the cursor over the forward-only output, the list of
//! completed entries, and the end-of-archive records.
use vstd::prelude::*;
use crate::bytes::{le16, le32, le64, push_u16, push_u32, push_u64};
use crate::crc::{crc_input, crc32_of};
use crate::error::ZipError;
use crate::file::{FileToZip, descriptor_spec, lemma_record_lengths, VERSION_ZIP64};

verus! {

/// Signature of the ZIP64 end-of-central-directory record.
pub const ZIP64_EOCD_SIG: u32 = 0x06064b50;
/// Signature of the ZIP64 end-of-central-directory locator.
pub const ZIP64_LOCATOR_SIG: u32 = 0x07064b50;
/// Signature of the end-of-central-directory record.
pub const EOCD_SIG: u32 = 0x06054b50;
/// Length of the three end-of-archive records together.
pub const TAIL_LEN: u64 = 98;

/// Everything that one completed entry contributes before the central
/// directory: local header, content, data descriptor.
pub open spec fn entry_bytes(f: FileToZip, content: Seq<u8>) -> Seq<u8> {
    f.local_header() + content + descriptor_spec(crc32_of(content), content.len() as u64)
}

/// The completed entries, in order, as they stand in the archive.
pub open spec fn entries_bytes(files: Seq<FileToZip>, contents: Seq<Seq<u8>>) -> Seq<u8>
    decreases files.len(),
{
    if files.len() == 0 {
        Seq::empty()
    } else {
        entries_bytes(files.drop_last(), contents.drop_last()) + entry_bytes(
            files.last(),
            contents.last(),
        )
    }
}

/// The central directory: one record per entry, in order.
pub open spec fn central_dir(files: Seq<FileToZip>) -> Seq<u8>
    decreases files.len(),
{
    if files.len() == 0 {
        Seq::empty()
    } else {
        central_dir(files.drop_last()) + files.last().central_record()
    }
}

/// The ZIP64 end-of-central-directory record.
#[verifier::opaque]
pub open spec fn zip64_eocd_spec(entries: u64, cd_size: u64, cd_start: u64) -> Seq<u8> {
    le32(ZIP64_EOCD_SIG) + le64(44) + seq![45u8, 3u8] + le16(VERSION_ZIP64) + le64(0) + le64(
        entries,
    ) + le64(entries) + le64(cd_size) + le64(cd_start)
}

/// The ZIP64 end-of-central-directory locator.
#[verifier::opaque]
pub open spec fn zip64_locator_spec(zip64_eocd_start: u64) -> Seq<u8> {
    le32(ZIP64_LOCATOR_SIG) + le32(0) + le64(zip64_eocd_start) + le32(1)
}

/// The legacy end-of-central-directory record, whose counts, size and offset
/// are all-ones: the true values stand in the ZIP64 record.
#[verifier::opaque]
pub open spec fn eocd_spec() -> Seq<u8> {
    le32(EOCD_SIG) + le32(0) + le32(u32::MAX) + le64(u64::MAX) + seq![0u8, 0u8]
}

/// What follows the entries: the central directory of `files`, which begins
/// at `cd_start`, and the three end-of-archive records.
pub open spec fn archive_tail(files: Seq<FileToZip>, cd_start: u64) -> Seq<u8> {
    let cd_size = central_dir(files).len() as u64;
    central_dir(files) + zip64_eocd_spec(files.len() as u64, cd_size, cd_start)
        + zip64_locator_spec((cd_start + cd_size) as u64) + eocd_spec()
}


/// Appending an entry appends its bytes.
pub proof fn lemma_entries_push(
    files: Seq<FileToZip>,
    contents: Seq<Seq<u8>>,
    f: FileToZip,
    c: Seq<u8>,
)
    ensures
        entries_bytes(files.push(f), contents.push(c)) == entries_bytes(files, contents)
            + entry_bytes(f, c),
{
    assert(files.push(f).drop_last() =~= files);
    assert(contents.push(c).drop_last() =~= contents);
}

/// Appending an entry appends its central record.
pub proof fn lemma_central_push(files: Seq<FileToZip>, f: FileToZip)
    ensures
        central_dir(files.push(f)) == central_dir(files) + f.central_record(),
{
    assert(files.push(f).drop_last() =~= files);
}

/// The central directory of the first `j` entries is no longer than that of all.
pub proof fn lemma_central_prefix_len(files: Seq<FileToZip>, j: int)
    requires
        0 <= j <= files.len(),
    ensures
        central_dir(files.take(j)).len() <= central_dir(files).len(),
    decreases files.len(),
{
    if j == files.len() {
        assert(files.take(j) =~= files);
    } else {
        assert(files.drop_last().take(j) =~= files.take(j));
        lemma_central_prefix_len(files.drop_last(), j);
    }
}

/// The bytes of the first `j` entries begin the bytes of all entries.
pub proof fn lemma_entries_prefix(files: Seq<FileToZip>, contents: Seq<Seq<u8>>, j: int)
    requires
        0 <= j <= files.len(),
        files.len() == contents.len(),
    ensures
        entries_bytes(files.take(j), contents.take(j)).len() <= entries_bytes(
            files,
            contents,
        ).len(),
        entries_bytes(files, contents).subrange(
            0,
            entries_bytes(files.take(j), contents.take(j)).len() as int,
        ) == entries_bytes(files.take(j), contents.take(j)),
    decreases files.len(),
{
    let p = entries_bytes(files.take(j), contents.take(j));
    if j == files.len() {
        assert(files.take(j) =~= files);
        assert(contents.take(j) =~= contents);
        assert(entries_bytes(files, contents).subrange(0, p.len() as int) =~= p);
    } else {
        assert(files.drop_last().take(j) =~= files.take(j));
        assert(contents.drop_last().take(j) =~= contents.take(j));
        lemma_entries_prefix(files.drop_last(), contents.drop_last(), j);
        let all = entries_bytes(files, contents);
        let front = entries_bytes(files.drop_last(), contents.drop_last());
        assert(all == front + entry_bytes(files.last(), contents.last()));
        assert(all.subrange(0, p.len() as int) =~= front.subrange(0, p.len() as int));
    }
}

/// The lengths of the three end-of-archive records.
pub proof fn lemma_tail_lengths(entries: u64, cd_size: u64, cd_start: u64, zip64_end_start: u64)
    ensures
        zip64_eocd_spec(entries, cd_size, cd_start).len() == 56,
        zip64_locator_spec(zip64_end_start).len() == 20,
        eocd_spec().len() == 22,
{
    reveal(zip64_eocd_spec);
    reveal(zip64_locator_spec);
    reveal(eocd_spec);
}

/// Writes the three end-of-archive records.
fn write_tail(out: &mut Vec<u8>, entries: u64, cd_size: u64, cd_start: u64, zip64_end_start: u64)
    ensures
        final(out)@ == old(out)@ + zip64_eocd_spec(entries, cd_size, cd_start) + zip64_locator_spec(
            zip64_end_start,
        ) + eocd_spec(),
{
    push_u32(out, ZIP64_EOCD_SIG);
    push_u64(out, 44);
    out.push(45);
    out.push(3);
    push_u16(out, VERSION_ZIP64);
    push_u64(out, 0);
    push_u64(out, entries);
    push_u64(out, entries);
    push_u64(out, cd_size);
    push_u64(out, cd_start);
    push_u32(out, ZIP64_LOCATOR_SIG);
    push_u32(out, 0);
    push_u64(out, zip64_end_start);
    push_u32(out, 1);
    push_u32(out, EOCD_SIG);
    push_u32(out, 0);
    push_u32(out, u32::MAX);
    push_u64(out, u64::MAX);
    out.push(0);
    out.push(0);
    reveal(zip64_eocd_spec);
    reveal(zip64_locator_spec);
    reveal(eocd_spec);
    assert(final(out)@ =~= old(out)@ + zip64_eocd_spec(entries, cd_size, cd_start)
        + zip64_locator_spec(zip64_end_start) + eocd_spec());
}

/// Writes the central-directory record of each of `files`, in order, and
/// returns the number of bytes written.
fn write_central_dir(files: &Vec<FileToZip>, out: &mut Vec<u8>) -> (r: u64)
    requires
        forall|k: int| 0 <= k < files@.len() ==> (#[trigger] files@[k]).wf() && files@[k].is_complete(),
        central_dir(files@).len() <= u64::MAX,
    ensures
        final(out)@ == old(out)@ + central_dir(files@),
        r == central_dir(files@).len(),
{
    let mut central_dir_bytes: u64 = 0;
    let mut i: usize = 0;
    assert(files@.take(0) =~= Seq::<FileToZip>::empty());
    while i < files.len()
        invariant
            forall|k: int| 0 <= k < files@.len() ==> (#[trigger] files@[k]).wf() && files@[k].is_complete(),
            central_dir(files@).len() <= u64::MAX,
            0 <= i <= files@.len(),
            out@ == old(out)@ + central_dir(files@.take(i as int)),
            central_dir_bytes == central_dir(files@.take(i as int)).len(),
        decreases files@.len() - i,
    {
        let ghost f = files@[i as int];
        proof {
            assert(files@.take(i + 1) =~= files@.take(i as int).push(f));
            lemma_central_push(files@.take(i as int), f);
            lemma_central_prefix_len(files@, i + 1);
        }
        let n = files[i].write_central_dir_entry(out);
        central_dir_bytes = central_dir_bytes + n;
        i = i + 1;
        assert(out@ =~= old(out)@ + central_dir(files@.take(i as int)));
    }
    assert(files@.take(i as int) =~= files@);
    central_dir_bytes
}

/// An entry whose content is being streamed.
pub(crate) struct EntryInProgress {
    pub(crate) file: FileToZip,
    pub(crate) hasher: crc32fast::Hasher,
    pub(crate) size: u64,
}

/// Writes a ZIP64 archive, one entry after another, to a forward-only sink.
///
/// Each operation appends the bytes that it produces to an output buffer
/// that the caller hands on to the sink; the content of an entry goes to
/// the sink directly and is only accounted for here. `bytes_written` counts
/// every byte of the archive so far and is the only source of its offsets.
pub struct ZipStream {
    pub(crate) files: Vec<FileToZip>,
    pub(crate) current: Option<EntryInProgress>,
    pub(crate) bytes_written: u64,
    pub(crate) reserved: u64,
    pub(crate) contents: Ghost<Seq<Seq<u8>>>,
}

impl ZipStream {
    /// The completed entries, in archive order.
    pub open(crate) spec fn entries(&self) -> Seq<FileToZip> {
        self.files@
    }

    /// The content of each completed entry.
    pub open(crate) spec fn contents(&self) -> Seq<Seq<u8>> {
        self.contents@
    }

    pub open(crate) spec fn is_streaming(&self) -> bool {
        self.current is Some
    }

    /// The entry being streamed.
    pub open(crate) spec fn current_file(&self) -> FileToZip {
        self.current->0.file
    }

    /// The content streamed so far for the current entry.
    pub open(crate) spec fn current_content(&self) -> Seq<u8> {
        crc_input(self.current->0.hasher)
    }

    /// The number of content bytes counted so far for the current entry.
    pub open(crate) spec fn current_size(&self) -> u64 {
        self.current->0.size
    }

    /// The room kept, as counted by the writer.
    pub open(crate) spec fn reserved(&self) -> u64 {
        self.reserved
    }

    /// The number of bytes of the archive so far.
    pub open(crate) spec fn cursor(&self) -> u64 {
        self.bytes_written
    }

    /// Every byte of the archive so far.
    pub open spec fn written(&self) -> Seq<u8> {
        entries_bytes(self.entries(), self.contents()) + if self.is_streaming() {
            self.current_file().local_header() + self.current_content()
        } else {
            Seq::empty()
        }
    }

    /// Room kept for what the archive still owes: the descriptor and central
    /// record of the current entry, the central records of the completed ones,
    /// and the end-of-archive records.
    pub open spec fn reserve(&self) -> int {
        central_dir(self.entries()).len() + TAIL_LEN + if self.is_streaming() {
            24 + 74 + self.current_file().name().len()
        } else {
            0
        }
    }

    pub open spec fn wf(&self) -> bool {
        &&& self.entries().len() == self.contents().len()
        &&& forall|i: int|
            0 <= i < self.entries().len() ==> {
                let f = #[trigger] self.entries()[i];
                &&& f.wf()
                &&& f.crc() == Some(crc32_of(self.contents()[i]))
                &&& f.content_size() == Some(self.contents()[i].len() as u64)
                &&& self.contents()[i].len() <= u64::MAX
                &&& f.offset() == entries_bytes(
                    self.entries().take(i),
                    self.contents().take(i),
                ).len()
            }
        &&& self.is_streaming() ==> {
            &&& self.current_file().wf()
            &&& self.current_file().offset() == entries_bytes(
                self.entries(),
                self.contents(),
            ).len()
            &&& self.current_size() == self.current_content().len()
        }
        &&& self.cursor() == self.written().len()
        &&& self.reserved() == self.reserve()
        &&& self.cursor() + self.reserve() <= u64::MAX
    }

    /// An archive with no entries.
    pub fn new() -> (r: ZipStream)
        ensures
            r.wf(),
            !r.is_streaming(),
            r.entries().len() == 0,
            r.written().len() == 0,
    {
        let r = ZipStream {
            files: Vec::new(),
            current: None,
            bytes_written: 0,
            reserved: TAIL_LEN,
            contents: Ghost(Seq::empty()),
        };
        assert(r.written() =~= Seq::<u8>::empty());
        r
    }

    /// The number of bytes of the archive so far.
    pub fn bytes_written(&self) -> (r: u64)
        ensures
            r == self.cursor(),
    {
        self.bytes_written
    }

    /// Whether an entry has been started and not yet finished.
    pub fn has_open_entry(&self) -> (r: bool)
        ensures
            r == self.is_streaming(),
    {
        self.current.is_some()
    }

    /// The completed entries, in archive order.
    pub fn files(&self) -> (r: &[FileToZip])
        ensures
            r@ == self.entries(),
    {
        self.files.as_slice()
    }

    /// Starts a new entry at the current cursor: writes its local header and
    /// returns the number of bytes written. The entry's content is then given
    /// with `write_chunk` and closed with `finish_file`.
    pub fn add_file(&mut self, file: FileToZip, out: &mut Vec<u8>) -> (r: Result<u64, ZipError>)
        requires
            old(self).wf(),
            !old(self).is_streaming(),
            file.wf(),
        ensures
            final(self).wf(),
            r is Err <==> old(self).cursor() + old(self).reserve() + 148 + 2 * file.name().len()
                > u64::MAX,
            r is Err ==> r == Err::<u64, ZipError>(ZipError::ArchiveTooLarge) && *final(self)
                == *old(self) && final(out)@ == old(out)@,
            r matches Ok(n) ==> {
                &&& final(self).is_streaming()
                &&& final(self).entries() == old(self).entries()
                &&& final(self).contents() == old(self).contents()
                &&& final(self).current_content() == Seq::<u8>::empty()
                &&& final(self).current_file().name() == file.name()
                &&& final(self).current_file().time() == file.time()
                &&& final(self).current_file().date() == file.date()
                &&& final(self).current_file().offset() == old(self).cursor()
                &&& final(out)@ == old(out)@ + file.local_header()
                &&& final(self).written() == old(self).written() + file.local_header()
                &&& n == file.local_header().len()
            },
    {
        let n = file.file_name.len() as u64;
        let room = u64::MAX - self.bytes_written - self.reserved;
        if room < 148 + 2 * n {
            return Err(ZipError::ArchiveTooLarge);
        }
        let mut file = file;
        let h = file.write_local_header(self.bytes_written, out);
        proof {
            lemma_record_lengths(file.name(), file.time(), file.date(), 0, 0, 0);
        }
        let hasher = crc32fast::Hasher::new();
        self.current = Some(EntryInProgress { file, hasher, size: 0 });
        self.bytes_written = self.bytes_written + h;
        self.reserved = self.reserved + 98 + n;
        assert(self.written() =~= old(self).written() + file.local_header());
        Ok(h)
    }

    /// Accounts for the next chunk of the current entry's content, which the
    /// caller writes to the sink as it is.
    pub fn write_chunk(&mut self, chunk: &[u8]) -> (r: Result<(), ZipError>)
        requires
            old(self).wf(),
            old(self).is_streaming(),
        ensures
            final(self).wf(),
            final(self).is_streaming(),
            r is Err <==> old(self).cursor() + old(self).reserve() + chunk@.len() > u64::MAX,
            r is Err ==> r == Err::<(), ZipError>(ZipError::ArchiveTooLarge) && *final(self)
                == *old(self),
            r is Ok ==> {
                &&& final(self).current_content() == old(self).current_content() + chunk@
                &&& final(self).written() == old(self).written() + chunk@
                &&& final(self).entries() == old(self).entries()
                &&& final(self).contents() == old(self).contents()
                &&& final(self).current_file() == old(self).current_file()
            },
    {
        let room = u64::MAX - self.bytes_written - self.reserved;
        if chunk.len() as u64 > room {
            return Err(ZipError::ArchiveTooLarge);
        }
        let mut e = self.current.take().unwrap();
        e.hasher.update(chunk);
        e.size = e.size + chunk.len() as u64;
        self.current = Some(e);
        self.bytes_written = self.bytes_written + chunk.len() as u64;
        assert(self.written() =~= old(self).written() + chunk@);
        Ok(())
    }

    /// Closes the current entry: writes its data descriptor, records its
    /// CRC-32 and size, and returns the number of bytes that the whole entry
    /// took in the archive.
    pub fn finish_file(&mut self, out: &mut Vec<u8>) -> (r: u64)
        requires
            old(self).wf(),
            old(self).is_streaming(),
        ensures
            final(self).wf(),
            !final(self).is_streaming(),
            final(self).entries() == old(self).entries().push(final(self).entries().last()),
            final(self).contents() == old(self).contents().push(old(self).current_content()),
            ({
                let f = final(self).entries().last();
                let c = old(self).current_content();
                &&& f.name() == old(self).current_file().name()
                &&& f.time() == old(self).current_file().time()
                &&& f.date() == old(self).current_file().date()
                &&& f.offset() == old(self).current_file().offset()
                &&& f.crc() == Some(crc32_of(c))
                &&& f.content_size() == Some(c.len() as u64)
                &&& c.len() == 0 ==> f.crc() == Some(0u32)
                &&& final(out)@ == old(out)@ + descriptor_spec(crc32_of(c), c.len() as u64)
                &&& final(self).written() == old(self).written() + descriptor_spec(
                    crc32_of(c),
                    c.len() as u64,
                )
                &&& r == 74 + f.name().len() + c.len()
            }),
    {
        let e = self.current.take().unwrap();
        let EntryInProgress { file, hasher, size } = e;
        let ghost content = crc_input(hasher);
        let ghost old_file = file;
        let mut file = file;
        file.write_data_descriptor(hasher, size, out);
        let total = 74 + file.file_name.len() as u64 + size;
        proof {
            lemma_entries_push(self.files@, self.contents@, file, content);
            lemma_central_push(self.files@, file);
            lemma_record_lengths(file.name(), file.time(), file.date(), crc32_of(content), size, file.offset());
            assert(file.local_header() == old_file.local_header());
        }
        self.files.push(file);
        self.contents = Ghost(self.contents@.push(content));
        self.bytes_written = self.bytes_written + 24;
        self.reserved = self.reserved - 24;
        proof {
            let n = old(self).entries().len();
            assert forall|i: int| 0 <= i < self.entries().len() implies {
                let f = #[trigger] self.entries()[i];
                &&& f.wf()
                &&& f.crc() == Some(crc32_of(self.contents()[i]))
                &&& f.content_size() == Some(self.contents()[i].len() as u64)
                &&& self.contents()[i].len() <= u64::MAX
                &&& f.offset() == entries_bytes(
                    self.entries().take(i),
                    self.contents().take(i),
                ).len()
            } by {
                assert(self.entries().take(i) =~= old(self).entries().take(i));
                assert(self.contents().take(i) =~= old(self).contents().take(i));
                if i == n {
                    assert(old(self).entries().take(i) =~= old(self).entries());
                    assert(old(self).contents().take(i) =~= old(self).contents());
                }
            }
            assert(self.written() =~= old(self).written() + descriptor_spec(
                crc32_of(content),
                content.len() as u64,
            ));
        }
        total
    }

    /// Closes the archive: writes the central directory, the ZIP64
    /// end-of-central-directory record and locator, and the legacy
    /// end-of-central-directory record. Returns the size of the whole archive.
    pub fn finalize(self, out: &mut Vec<u8>) -> (r: u64)
        requires
            self.wf(),
            !self.is_streaming(),
        ensures
            final(out)@ == old(out)@ + archive_tail(self.entries(), self.cursor()),
            r == self.written().len() + archive_tail(self.entries(), self.cursor()).len(),
    {
        let start_of_central_dir = self.bytes_written;
        proof {
            assert forall|k: int| 0 <= k < self.files@.len() implies (#[trigger] self.files@[k]).wf()
                && self.files@[k].is_complete() by {
                assert(self.entries()[k] == self.files@[k]);
            }
        }
        let central_dir_bytes = write_central_dir(&self.files, out);
        let zip64_end_start = start_of_central_dir + central_dir_bytes;
        write_tail(out, self.files.len() as u64, central_dir_bytes, start_of_central_dir, zip64_end_start);
        proof {
            lemma_tail_lengths(self.files@.len() as u64, central_dir_bytes, start_of_central_dir, zip64_end_start);
        }
        assert(final(out)@ =~= old(out)@ + archive_tail(self.files@, start_of_central_dir));
        zip64_end_start + 56 + 20 + 22
    }
}

} // verus!
