//! On-disk metadata records: MBR partition entries and the FAT16 BIOS
//! parameter block. Multi-byte fields are little-endian.
use vstd::prelude::*;

verus! {

/// The little-endian 16-bit value at `off`.
pub open spec fn le16(s: Seq<u8>, off: int) -> int {
    s[off] + 256 * s[off + 1]
}

/// The little-endian 32-bit value at `off`.
pub open spec fn le32(s: Seq<u8>, off: int) -> int {
    le16(s, off) + 65536 * le16(s, off + 2)
}

fn read_le16(s: &[u8], off: usize) -> (r: u16)
    requires
        off + 2 <= s@.len(),
    ensures
        r == le16(s@, off as int),
{
    let lo = s[off] as u16;
    let hi = s[off + 1] as u16;
    assert(hi * 256 <= 0xff00) by (nonlinear_arith) requires hi <= 0xff;
    lo + hi * 256
}

fn read_le32(s: &[u8], off: usize) -> (r: u32)
    requires
        off + 4 <= s@.len(),
    ensures
        r == le32(s@, off as int),
{
    let len = s.len();
    assert(off + 4 <= len);
    let lo = read_le16(s, off) as u32;
    let hi = read_le16(s, off + 2) as u32;
    assert(hi * 65536 <= 0xffff_0000) by (nonlinear_arith) requires hi <= 0xffff;
    lo + hi * 65536
}

fn read_bytes(s: &[u8], off: usize, n: usize) -> (r: Vec<u8>)
    requires
        off + n <= s@.len(),
    ensures
        r@ == s@.subrange(off as int, off + n),
{
    let len = s.len();
    let mut r: Vec<u8> = Vec::new();
    let mut i: usize = 0;
    while i < n
        invariant
            off + n <= s@.len(),
            len == s@.len(),
            i <= n,
            r@ == s@.subrange(off as int, off + i),
        decreases n - i,
    {
        r.push(s[off + i]);
        i = i + 1;
        assert(r@ =~= s@.subrange(off as int, off + i));
    }
    r
}

/// The characters of bytes that are all ASCII, one per byte.
pub open spec fn ascii_chars(b: Seq<u8>) -> Seq<char> {
    b.map_values(|c: u8| c as char)
}

pub open spec fn is_ascii(b: Seq<u8>) -> bool {
    forall|i: int| 0 <= i < b.len() ==> b[i] < 0x80
}

/// Relies on String::from_utf8: it accepts valid UTF-8, and ASCII bytes,
/// which are valid UTF-8, become one character each.
#[verifier::external_body]
fn string_from_utf8(b: Vec<u8>) -> (r: Option<String>)
    ensures
        is_ascii(b@) ==> r.is_some() && r.unwrap()@ == ascii_chars(b@),
{
    String::from_utf8(b).ok()
}

/// The bytes as text; empty when they are not valid UTF-8.
fn text_of(b: Vec<u8>) -> (r: String)
    ensures
        is_ascii(b@) ==> r@ == ascii_chars(b@),
{
    match string_from_utf8(b) {
        Some(s) => s,
        None => String::new(),
    }
}

/// One 16-byte partition entry of a master boot record.
#[derive(Clone, Copy, Debug)]
pub struct MbrPartition {
    data: [u8; 16],
}

impl View for MbrPartition {
    type V = Seq<u8>;

    closed spec fn view(&self) -> Seq<u8> {
        self.data@
    }
}

impl MbrPartition {
    /// The entry made of these 16 bytes.
    pub fn parse(data: &[u8; 16]) -> (r: MbrPartition)
        ensures
            r@ == data@,
    {
        MbrPartition { data: *data }
    }

    /// Status byte; bit 7 marks the partition bootable.
    pub fn status(&self) -> (r: u8)
        ensures
            r == self@[0],
    {
        proof { assert(self.data@.len() == 16); }
        self.data[0]
    }

    /// Whether the status byte says bootable (exactly 0x80).
    pub fn is_active(&self) -> (r: bool)
        ensures
            r == (self@[0] == 0x80),
    {
        self.status() == 0x80
    }

    /// Head of the first sector (CHS).
    pub fn begin_head(&self) -> (r: u8)
        ensures
            r == self@[1],
    {
        proof { assert(self.data@.len() == 16); }
        self.data[1]
    }

    /// Sector of the first sector (CHS): the low six bits of byte 2.
    pub fn begin_sector(&self) -> (r: u8)
        ensures
            r == self@[2] % 64,
    {
        proof { assert(self.data@.len() == 16); }
        self.data[2] % 64
    }

    /// Cylinder of the first sector (CHS): the top two bits of byte 2 above
    /// the eight bits of byte 3.
    pub fn begin_cylinder(&self) -> (r: u16)
        ensures
            r == (self@[2] / 64) * 256 + self@[3],
    {
        proof { assert(self.data@.len() == 16); }
        (self.data[2] / 64) as u16 * 256 + self.data[3] as u16
    }

    /// Partition type byte.
    pub fn partition_type(&self) -> (r: u8)
        ensures
            r == self@[4],
    {
        proof { assert(self.data@.len() == 16); }
        self.data[4]
    }

    /// Head of the last sector (CHS).
    pub fn end_head(&self) -> (r: u8)
        ensures
            r == self@[5],
    {
        proof { assert(self.data@.len() == 16); }
        self.data[5]
    }

    /// Sector of the last sector (CHS).
    pub fn end_sector(&self) -> (r: u8)
        ensures
            r == self@[6] % 64,
    {
        proof { assert(self.data@.len() == 16); }
        self.data[6] % 64
    }

    /// Cylinder of the last sector (CHS).
    pub fn end_cylinder(&self) -> (r: u16)
        ensures
            r == (self@[6] / 64) * 256 + self@[7],
    {
        proof { assert(self.data@.len() == 16); }
        (self.data[6] / 64) as u16 * 256 + self.data[7] as u16
    }

    /// Logical block address of the first sector.
    pub fn begin_lba(&self) -> (r: u32)
        ensures
            r == le32(self@, 8),
    {
        proof { assert(self.data@.len() == 16); }
        read_le32(self.data.as_slice(), 8)
    }

    /// Number of sectors in the partition.
    pub fn total_lba(&self) -> (r: u32)
        ensures
            r == le32(self@, 12),
    {
        proof { assert(self.data@.len() == 16); }
        read_le32(self.data.as_slice(), 12)
    }
}

/// The FAT16 BIOS parameter block: the first 512-byte sector of a FAT16
/// volume, ending with the signature bytes 0x55 0xAA.
#[derive(Debug)]
pub struct Fat16Bpb {
    data: Vec<u8>,
}

impl View for Fat16Bpb {
    type V = Seq<u8>;

    closed spec fn view(&self) -> Seq<u8> {
        self.data@
    }
}

/// Whether `s` is a boot sector: 512 bytes ending with 0x55 0xAA.
pub open spec fn is_bpb(s: Seq<u8>) -> bool {
    s.len() == 512 && s[510] == 0x55 && s[511] == 0xAA
}

impl Fat16Bpb {
    pub closed spec fn wf(&self) -> bool {
        self.data@.len() == 512
    }

    /// Parses a boot parameter block from a 512-byte sector; any other
    /// length, or a missing signature, is an error.
    pub fn new(data: &[u8]) -> (r: Result<Fat16Bpb, &'static str>)
        ensures
            r.is_ok() == is_bpb(data@),
            r.is_ok() ==> r.unwrap()@ == data@ && r.unwrap().wf(),
    {
        if data.len() != 512 {
            return Err("Bad BPB format");
        }
        let bpb = Fat16Bpb { data: read_bytes(data, 0, 512) };
        assert(bpb.data@ =~= data@);
        if bpb.trail() != 0xAA55 {
            return Err("Bad BPB format");
        }
        Ok(bpb)
    }

    /// The total number of sectors: the 16-bit count, or the 32-bit one when
    /// the 16-bit count is zero.
    pub fn total_sectors(&self) -> (r: u32)
        requires
            self.wf(),
        ensures
            r == if le16(self@, 0x13) == 0 { le32(self@, 0x20) } else { le16(self@, 0x13) },
    {
        if self.total_sectors_16() == 0 {
            self.total_sectors_32()
        } else {
            self.total_sectors_16() as u32
        }
    }

    pub fn oem_name(&self) -> (r: Vec<u8>)
        requires
            self.wf(),
        ensures
            r@ == self@.subrange(0x03, 0x0b),
    {
        read_bytes(self.data.as_slice(), 0x03, 8)
    }

    pub fn bytes_per_sector(&self) -> (r: u16)
        requires
            self.wf(),
        ensures
            r == le16(self@, 0x0b),
    {
        read_le16(self.data.as_slice(), 0x0b)
    }

    pub fn sectors_per_cluster(&self) -> (r: u8)
        requires
            self.wf(),
        ensures
            r == self@[0x0d],
    {
        self.data[0x0d]
    }

    pub fn reserved_sector_count(&self) -> (r: u16)
        requires
            self.wf(),
        ensures
            r == le16(self@, 0x0e),
    {
        read_le16(self.data.as_slice(), 0x0e)
    }

    pub fn fat_count(&self) -> (r: u8)
        requires
            self.wf(),
        ensures
            r == self@[0x10],
    {
        self.data[0x10]
    }

    pub fn root_entries_count(&self) -> (r: u16)
        requires
            self.wf(),
        ensures
            r == le16(self@, 0x11),
    {
        read_le16(self.data.as_slice(), 0x11)
    }

    pub fn total_sectors_16(&self) -> (r: u16)
        requires
            self.wf(),
        ensures
            r == le16(self@, 0x13),
    {
        read_le16(self.data.as_slice(), 0x13)
    }

    pub fn media_descriptor(&self) -> (r: u8)
        requires
            self.wf(),
        ensures
            r == self@[0x15],
    {
        self.data[0x15]
    }

    pub fn sectors_per_fat(&self) -> (r: u16)
        requires
            self.wf(),
        ensures
            r == le16(self@, 0x16),
    {
        read_le16(self.data.as_slice(), 0x16)
    }

    pub fn sectors_per_track(&self) -> (r: u16)
        requires
            self.wf(),
        ensures
            r == le16(self@, 0x18),
    {
        read_le16(self.data.as_slice(), 0x18)
    }

    pub fn track_count(&self) -> (r: u16)
        requires
            self.wf(),
        ensures
            r == le16(self@, 0x1a),
    {
        read_le16(self.data.as_slice(), 0x1a)
    }

    pub fn hidden_sectors(&self) -> (r: u32)
        requires
            self.wf(),
        ensures
            r == le32(self@, 0x1c),
    {
        read_le32(self.data.as_slice(), 0x1c)
    }

    pub fn total_sectors_32(&self) -> (r: u32)
        requires
            self.wf(),
        ensures
            r == le32(self@, 0x20),
    {
        read_le32(self.data.as_slice(), 0x20)
    }

    pub fn drive_number(&self) -> (r: u8)
        requires
            self.wf(),
        ensures
            r == self@[0x24],
    {
        self.data[0x24]
    }

    pub fn reserved_flags(&self) -> (r: u8)
        requires
            self.wf(),
        ensures
            r == self@[0x25],
    {
        self.data[0x25]
    }

    pub fn boot_signature(&self) -> (r: u8)
        requires
            self.wf(),
        ensures
            r == self@[0x26],
    {
        self.data[0x26]
    }

    pub fn volume_id(&self) -> (r: u32)
        requires
            self.wf(),
        ensures
            r == le32(self@, 0x27),
    {
        read_le32(self.data.as_slice(), 0x27)
    }

    pub fn volume_label(&self) -> (r: Vec<u8>)
        requires
            self.wf(),
        ensures
            r@ == self@.subrange(0x2b, 0x36),
    {
        read_bytes(self.data.as_slice(), 0x2b, 11)
    }

    pub fn system_identifier(&self) -> (r: Vec<u8>)
        requires
            self.wf(),
        ensures
            r@ == self@.subrange(0x36, 0x3e),
    {
        read_bytes(self.data.as_slice(), 0x36, 8)
    }

    /// The OEM name as text (ASCII on every volume seen in practice).
    pub fn oem_name_str(&self) -> (r: String)
        requires
            self.wf(),
        ensures
            is_ascii(self@.subrange(0x03, 0x0b)) ==> r@ == ascii_chars(self@.subrange(0x03, 0x0b)),
    {
        text_of(self.oem_name())
    }

    /// The volume label as text.
    pub fn volume_label_str(&self) -> (r: String)
        requires
            self.wf(),
        ensures
            is_ascii(self@.subrange(0x2b, 0x36)) ==> r@ == ascii_chars(self@.subrange(0x2b, 0x36)),
    {
        text_of(self.volume_label())
    }

    /// The file system identifier as text.
    pub fn system_identifier_str(&self) -> (r: String)
        requires
            self.wf(),
        ensures
            is_ascii(self@.subrange(0x36, 0x3e)) ==> r@ == ascii_chars(self@.subrange(0x36, 0x3e)),
    {
        text_of(self.system_identifier())
    }

    /// The signature word at the end of the sector.
    pub fn trail(&self) -> (r: u16)
        requires
            self.wf(),
        ensures
            r == le16(self@, 0x1fe),
    {
        read_le16(self.data.as_slice(), 0x1fe)
    }
}

} // verus!
