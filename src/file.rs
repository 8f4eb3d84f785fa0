//! The entry encoder: one archived file, its local header, its data
//! descriptor and its central-directory record.
use vstd::prelude::*;
use vstd::utf8::encode_utf8;
use crate::bytes::{le16, le32, le64, zeros, push_u16, push_u32, push_u64, push_bytes};
use crate::crc::{crc_input, crc32_of};
use crate::dostime::{Timestamp, utc_fields, utc_in_range};
use crate::error::ZipError;

verus! {

/// Signature of a local file header.
pub const LOCAL_HEADER_SIG: u32 = 0x04034b50;
/// Signature of a data descriptor.
pub const DESCRIPTOR_SIG: u32 = 0x08074b50;
/// Signature of a central-directory record.
pub const CENTRAL_SIG: u32 = 0x02014b50;
/// Version 4.5: the first with the ZIP64 extensions.
pub const VERSION_ZIP64: u16 = 45;
/// Bit 3 (sizes and CRC in a trailing descriptor) and bit 11 (UTF-8 name).
pub const FLAGS: u16 = 0x0808;
/// The largest length that the name-length field can declare.
pub const MAX_NAME_LEN: usize = 0xffff;

/// The byte `b` with a backslash turned into a forward slash.
pub open spec fn to_slash(b: u8) -> u8 {
    if b == 0x5c {
        0x2f
    } else {
        b
    }
}

/// An archive name: every backslash turned into a forward slash, then one
/// leading slash removed.
pub open spec fn normalized_name(s: Seq<u8>) -> Seq<u8> {
    let t = s.map_values(|b: u8| to_slash(b));
    if t.len() > 0 && t[0] == 0x2f {
        t.drop_first()
    } else {
        t
    }
}

/// A name that a header can carry.
pub open spec fn name_ok(name: Seq<u8>) -> bool {
    0 < name.len() <= MAX_NAME_LEN
}

/// The local file header: sizes and CRC are deferred to the descriptor, and
/// the ZIP64 extra field holds two all-ones placeholders.
#[verifier::opaque]
pub open spec fn local_header_spec(name: Seq<u8>, time: u16, date: u16) -> Seq<u8> {
    le32(LOCAL_HEADER_SIG) + le16(VERSION_ZIP64) + le16(FLAGS) + le16(0) + le16(time) + le16(
        date,
    ) + le32(0) + le64(u64::MAX) + le16(name.len() as u16) + le16(20) + name + seq![
        1u8,
        0u8,
        16u8,
        0u8,
    ] + le64(u64::MAX) + le64(u64::MAX)
}

/// The ZIP64 data descriptor that follows an entry's content.
#[verifier::opaque]
pub open spec fn descriptor_spec(crc: u32, size: u64) -> Seq<u8> {
    le32(DESCRIPTOR_SIG) + le32(crc) + le64(size) + le64(size)
}

/// The central-directory record of an entry; the true sizes and the offset of
/// its local header stand in the ZIP64 extra field at its end.
#[verifier::opaque]
pub open spec fn central_record_spec(
    name: Seq<u8>,
    time: u16,
    date: u16,
    crc: u32,
    size: u64,
    offset: u64,
) -> Seq<u8> {
    le32(CENTRAL_SIG) + seq![45u8, 3u8] + le16(VERSION_ZIP64) + le16(FLAGS) + le16(0) + le16(
        time,
    ) + le16(date) + le32(crc) + le64(u64::MAX) + le16(name.len() as u16) + le16(28) + zeros(
        10,
    ) + le32(u32::MAX) + name + seq![1u8, 0u8, 24u8, 0u8] + le64(size) + le64(size) + le64(
        offset,
    )
}

/// One file of the archive. It is pending until its content has been
/// streamed, and complete afterwards, with its CRC-32 and size set.
pub struct FileToZip {
    pub(crate) last_mod_time: u16,
    pub(crate) last_mod_date: u16,
    pub(crate) crc32: Option<u32>,
    pub(crate) size: Option<u64>,
    pub(crate) file_name: Vec<u8>,
    pub(crate) offset_of_fh: u64,
}

impl FileToZip {
    /// The name inside the archive, as UTF-8 bytes.
    pub open(crate) spec fn name(&self) -> Seq<u8> {
        self.file_name@
    }

    /// The packed MS-DOS modification time.
    pub open(crate) spec fn time(&self) -> u16 {
        self.last_mod_time
    }

    /// The packed MS-DOS modification date.
    pub open(crate) spec fn date(&self) -> u16 {
        self.last_mod_date
    }

    /// The CRC-32 of the content, set once it has been streamed.
    pub open(crate) spec fn crc(&self) -> Option<u32> {
        self.crc32
    }

    /// The size of the content, set once it has been streamed.
    pub open(crate) spec fn content_size(&self) -> Option<u64> {
        self.size
    }

    /// Where the entry's local header begins in the archive.
    pub open(crate) spec fn offset(&self) -> u64 {
        self.offset_of_fh
    }

    /// A pending entry: content not yet streamed.
    pub open spec fn is_pending(&self) -> bool {
        self.crc() is None && self.content_size() is None
    }

    /// A complete entry: content streamed, CRC-32 and size known.
    pub open spec fn is_complete(&self) -> bool {
        self.crc() is Some && self.content_size() is Some
    }

    /// The name can be carried by a header.
    pub open spec fn wf(&self) -> bool {
        name_ok(self.name())
    }

    /// The local file header of this entry.
    pub open spec fn local_header(&self) -> Seq<u8> {
        local_header_spec(self.name(), self.time(), self.date())
    }

    /// A pending entry named `name`, last modified at `t`.
    fn pending(name: Vec<u8>, t: Timestamp) -> (r: FileToZip)
        requires
            name_ok(name@),
            t.dos_representable(),
        ensures
            r.wf() && r.is_pending() && r.offset() == 0,
            r.name() == name@,
            r.time() == t.dos_time_spec() && r.date() == t.dos_date_spec(),
    {
        FileToZip {
            last_mod_time: t.dos_time(),
            last_mod_date: t.dos_date(),
            crc32: None,
            size: None,
            file_name: name,
            offset_of_fh: 0,
        }
    }

    /// An entry for `zip_path`, last modified at `last_mod`, or now where
    /// that is `None`. Reading the clock fails where it stands before the
    /// Unix epoch or outside the years 1980 to 2107.
    pub fn from_reader(zip_path: String, last_mod: Option<Timestamp>) -> (r: Result<
        FileToZip,
        ZipError,
    >)
        requires
            name_ok(normalized_name(encode_utf8(zip_path@))),
            last_mod matches Some(t) ==> t.dos_representable(),
        ensures
            last_mod is Some ==> r is Ok,
            r matches Err(e) ==> e == ZipError::InvalidTimestamp,
            r matches Ok(f) ==> {
                &&& f.wf() && f.is_pending() && f.offset() == 0
                &&& f.name() == normalized_name(encode_utf8(zip_path@))
                &&& match last_mod {
                    Some(t) => f.time() == t.dos_time_spec() && f.date() == t.dos_date_spec(),
                    None => exists|t: Timestamp|
                        t.dos_representable() && f.time() == t.dos_time_spec() && f.date()
                            == t.dos_date_spec(),
                }
            },
    {
        let name = normalize_name(zip_path.as_str().as_bytes());
        let t = match last_mod {
            Some(t) => t,
            None => match Timestamp::now() {
                Some(t) => {
                    if t.year < 1980 || t.year > 2107 {
                        return Err(ZipError::InvalidTimestamp);
                    }
                    t
                },
                None => return Err(ZipError::InvalidTimestamp),
            },
        };
        Ok(FileToZip::pending(name, t))
    }

    /// An entry for `zip_path` whose source was last modified
    /// `modified_unix_secs` seconds after the Unix epoch. The name must not
    /// normalise to nothing nor exceed the name-length field, and the instant
    /// must fall in the years 1980 to 2107, the range of an MS-DOS date.
    pub fn from_file(zip_path: String, modified_unix_secs: i64) -> (r: Result<FileToZip, ZipError>)
        ensures
            r is Ok <==> name_ok(normalized_name(encode_utf8(zip_path@))) && utc_in_range(
                modified_unix_secs,
            ) && 1980 <= utc_fields(modified_unix_secs).0 <= 2107,
            r is Err && !name_ok(normalized_name(encode_utf8(zip_path@))) ==> r
                == Err::<FileToZip, ZipError>(ZipError::InvalidName),
            r is Err && name_ok(normalized_name(encode_utf8(zip_path@))) ==> r
                == Err::<FileToZip, ZipError>(ZipError::InvalidTimestamp),
            r matches Ok(f) ==> {
                let t = Timestamp::of_fields(utc_fields(modified_unix_secs));
                &&& f.wf() && f.is_pending() && f.offset() == 0
                &&& f.name() == normalized_name(encode_utf8(zip_path@))
                &&& f.time() == t.dos_time_spec() && f.date() == t.dos_date_spec()
            },
    {
        let name = normalize_name(zip_path.as_str().as_bytes());
        if name.len() == 0 || name.len() > MAX_NAME_LEN {
            return Err(ZipError::InvalidName);
        }
        match Timestamp::from_unix(modified_unix_secs) {
            Some(t) => {
                if t.year < 1980 || t.year > 2107 {
                    return Err(ZipError::InvalidTimestamp);
                }
                Ok(FileToZip::pending(name, t))
            },
            None => Err(ZipError::InvalidTimestamp),
        }
    }

    /// Whether the content has been streamed, so that the central-directory
    /// record can be written.
    pub fn content_written(&self) -> (r: bool)
        ensures
            r == self.is_complete(),
    {
        self.crc32.is_some() && self.size.is_some()
    }

    /// Writes the local file header, recording `offset_to_start` as the
    /// place where it begins; returns the number of bytes written.
    pub(crate) fn write_local_header(&mut self, offset_to_start: u64, out: &mut Vec<u8>) -> (r: u64)
        requires
            old(self).wf(),
        ensures
            final(self).offset() == offset_to_start,
            final(self).name() == old(self).name() && final(self).time() == old(self).time()
                && final(self).date() == old(self).date() && final(self).crc() == old(self).crc()
                && final(self).content_size() == old(self).content_size(),
            final(out)@ == old(out)@ + old(self).local_header(),
            r == old(self).local_header().len(),
    {
        self.offset_of_fh = offset_to_start;
        push_u32(out, LOCAL_HEADER_SIG);
        push_u16(out, VERSION_ZIP64);
        push_u16(out, FLAGS);
        push_u16(out, 0);
        push_u16(out, self.last_mod_time);
        push_u16(out, self.last_mod_date);
        push_u32(out, 0);
        push_u64(out, u64::MAX);
        push_u16(out, self.file_name.len() as u16);
        push_u16(out, 20);
        push_bytes(out, self.file_name.as_slice());
        out.push(1);
        out.push(0);
        out.push(16);
        out.push(0);
        push_u64(out, u64::MAX);
        push_u64(out, u64::MAX);
        reveal(local_header_spec);
        assert(final(out)@ =~= old(out)@ + old(self).local_header());
        50 + self.file_name.len() as u64
    }

    /// Completes the entry from the hasher that saw its content and the
    /// number of content bytes, and writes the data descriptor; returns the
    /// number of bytes written.
    pub(crate) fn write_data_descriptor(
        &mut self,
        hasher: crc32fast::Hasher,
        bytes_written: u64,
        out: &mut Vec<u8>,
    ) -> (r: u64)
        requires
            bytes_written == crc_input(hasher).len(),
        ensures
            final(self).crc() == Some(crc32_of(crc_input(hasher))),
            final(self).content_size() == Some(bytes_written),
            bytes_written == 0 ==> final(self).crc() == Some(0u32),
            final(self).name() == old(self).name() && final(self).time() == old(self).time()
                && final(self).date() == old(self).date() && final(self).offset() == old(
                self,
            ).offset(),
            final(out)@ == old(out)@ + descriptor_spec(crc32_of(crc_input(hasher)), bytes_written),
            r == 24,
    {
        let crc = hasher.finalize();
        push_u32(out, DESCRIPTOR_SIG);
        push_u32(out, crc);
        push_u64(out, bytes_written);
        push_u64(out, bytes_written);
        reveal(descriptor_spec);
        assert(final(out)@ =~= old(out)@ + descriptor_spec(crc, bytes_written));
        self.crc32 = Some(crc);
        self.size = Some(bytes_written);
        24
    }

    /// The archive name, as UTF-8 bytes.
    pub fn file_name(&self) -> (r: &[u8])
        ensures
            r@ == self.name(),
    {
        self.file_name.as_slice()
    }

    /// The packed MS-DOS modification time.
    pub fn last_mod_time(&self) -> (r: u16)
        ensures
            r == self.time(),
    {
        self.last_mod_time
    }

    /// The packed MS-DOS modification date.
    pub fn last_mod_date(&self) -> (r: u16)
        ensures
            r == self.date(),
    {
        self.last_mod_date
    }

    /// The CRC-32 of the content, once it has been streamed.
    pub fn crc32(&self) -> (r: Option<u32>)
        ensures
            r == self.crc(),
    {
        self.crc32
    }

    /// The size of the content, once it has been streamed.
    pub fn size(&self) -> (r: Option<u64>)
        ensures
            r == self.content_size(),
    {
        self.size
    }

    /// Where the local header begins in the archive.
    pub fn offset_of_local_header(&self) -> (r: u64)
        ensures
            r == self.offset(),
    {
        self.offset_of_fh
    }

    /// The central-directory record of a complete entry.
    pub open spec fn central_record(&self) -> Seq<u8>
        recommends
            self.is_complete(),
    {
        central_record_spec(
            self.name(),
            self.time(),
            self.date(),
            self.crc().unwrap(),
            self.content_size().unwrap(),
            self.offset(),
        )
    }

    /// Writes the central-directory record of this entry and returns the
    /// number of bytes written. Only a complete entry has one: its CRC-32 and
    /// size are known once its content has been streamed.
    pub fn write_central_dir_entry(&self, out: &mut Vec<u8>) -> (r: u64)
        requires
            self.wf(),
            self.is_complete(),
        ensures
            final(out)@ == old(out)@ + self.central_record(),
            r == self.central_record().len(),
    {
        let crc = self.crc32.unwrap();
        let size = self.size.unwrap();
        push_u32(out, CENTRAL_SIG);
        out.push(45);
        out.push(3);
        push_u16(out, VERSION_ZIP64);
        push_u16(out, FLAGS);
        push_u16(out, 0);
        push_u16(out, self.last_mod_time);
        push_u16(out, self.last_mod_date);
        push_u32(out, crc);
        push_u64(out, u64::MAX);
        push_u16(out, self.file_name.len() as u16);
        push_u16(out, 28);
        let mut k: usize = 0;
        while k < 10
            invariant
                0 <= k <= 10,
                out@ == old(out)@ + le32(CENTRAL_SIG) + seq![45u8, 3u8] + le16(VERSION_ZIP64)
                    + le16(FLAGS) + le16(0) + le16(self.time()) + le16(self.date()) + le32(crc)
                    + le64(u64::MAX) + le16(self.name().len() as u16) + le16(28) + zeros(
                    k as nat,
                ),
            decreases 10 - k,
        {
            out.push(0);
            k = k + 1;
            assert(zeros(k as nat) =~= zeros((k - 1) as nat).push(0u8));
        }
        push_u32(out, u32::MAX);
        push_bytes(out, self.file_name.as_slice());
        out.push(1);
        out.push(0);
        out.push(24);
        out.push(0);
        push_u64(out, size);
        push_u64(out, size);
        push_u64(out, self.offset_of_fh);
        reveal(central_record_spec);
        assert(final(out)@ =~= old(out)@ + self.central_record());
        74 + self.file_name.len() as u64
    }
}

/// The lengths of the records of an entry named `name`.
pub proof fn lemma_record_lengths(name: Seq<u8>, time: u16, date: u16, crc: u32, size: u64, offset: u64)
    ensures
        local_header_spec(name, time, date).len() == 50 + name.len(),
        descriptor_spec(crc, size).len() == 24,
        central_record_spec(name, time, date, crc, size, offset).len() == 74 + name.len(),
{
    reveal(local_header_spec);
    reveal(descriptor_spec);
    reveal(central_record_spec);
}

/// A reader of a local header finds the signature, the name length and the
/// name at the fixed places of the format.
pub proof fn lemma_local_header_fields(name: Seq<u8>, time: u16, date: u16)
    ensures
        ({
            let h = local_header_spec(name, time, date);
            let n = name.len() as int;
            &&& h.len() == 50 + n
            &&& h.subrange(0, 4) == le32(LOCAL_HEADER_SIG)
            &&& h.subrange(26, 28) == le16(name.len() as u16)
            &&& h.subrange(30, 30 + n) == name
        }),
{
    reveal(local_header_spec);
    let h = local_header_spec(name, time, date);
    let n = name.len() as int;
    assert(h.subrange(0, 4) =~= le32(LOCAL_HEADER_SIG));
    assert(h.subrange(26, 28) =~= le16(name.len() as u16));
    assert(h.subrange(30, 30 + n) =~= name);
}

/// Whether `zip_path` normalises to a name that a header can carry.
pub fn is_valid_archive_name(zip_path: &String) -> (r: bool)
    ensures
        r == name_ok(normalized_name(encode_utf8(zip_path@))),
{
    let name = normalize_name(zip_path.as_str().as_bytes());
    name.len() > 0 && name.len() <= MAX_NAME_LEN
}

/// Normalises an archive name given as UTF-8 bytes.
pub fn normalize_name(s: &[u8]) -> (r: Vec<u8>)
    ensures
        r@ == normalized_name(s@),
{
    let mut t: Vec<u8> = Vec::new();
    let mut i: usize = 0;
    while i < s.len()
        invariant
            0 <= i <= s@.len(),
            t@ == s@.subrange(0, i as int).map_values(|b: u8| to_slash(b)),
        decreases s@.len() - i,
    {
        let b = s[i];
        t.push(if b == 0x5c { 0x2f } else { b });
        i = i + 1;
        assert(t@ =~= s@.subrange(0, i as int).map_values(|b: u8| to_slash(b)));
    }
    assert(s@.subrange(0, s@.len() as int) =~= s@);
    if t.len() > 0 && t[0] == 0x2f {
        let mut r: Vec<u8> = Vec::new();
        let mut j: usize = 1;
        while j < t.len()
            invariant
                1 <= j <= t@.len(),
                r@ == t@.subrange(1, j as int),
            decreases t@.len() - j,
        {
            r.push(t[j]);
            j = j + 1;
            assert(r@ =~= t@.subrange(1, j as int));
        }
        assert(r@ =~= t@.drop_first());
        r
    } else {
        t
    }
}

} // verus!
