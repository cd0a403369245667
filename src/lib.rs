use vstd::prelude::*;
use vstd::slice::{slice_subrange, slice_to_vec};
use vstd::utf8::*;

pub mod barbook;
pub mod binarystruct;
pub mod books;
pub mod error;
pub mod text;

use books::{parse_abbrev, spec_parse_abbrev};
use barbook::{book_outcome, book_view, BARBook, BookView};
use binarystruct::{encode_all, le_bytes, le_u32, push_u32_le, read_u32_le, write_array, BinaryStruct};
use error::{BARFileError, BARResult};
use std::rc::Rc;
use text::{lemma_trim_nul_split, lemma_trim_nul_zeros, string_bytes, trim_nul, trimmed_len, utf8_string, zeros};

verus! {

/// The major version of the format that this library writes.
pub const CURRENT_MAJOR_VERSION: u8 = 2;

/// The minor version of the format that this library writes.
pub const CURRENT_MINOR_VERSION: u8 = 2;

/// The 16-byte header at the start of an archive.
pub struct BARFileHeader {
    pub leader: [u8; 3],
    pub major_version: u8,
    pub minor_version: u8,
    pub number_of_books: u8,
    pub version_abbrev: String,
}

/// What a [`BARFileHeader`] holds.
pub struct FileHeaderView {
    pub leader: Seq<u8>,
    pub major_version: u8,
    pub minor_version: u8,
    pub number_of_books: u8,
    pub version_abbrev: Seq<char>,
}

impl View for BARFileHeader {
    type V = FileHeaderView;

    open spec fn view(&self) -> FileHeaderView {
        FileHeaderView {
            leader: self.leader@,
            major_version: self.major_version,
            minor_version: self.minor_version,
            number_of_books: self.number_of_books,
            version_abbrev: self.version_abbrev@,
        }
    }
}

/// The magic bytes `"BAR"`.
pub open spec fn magic() -> Seq<u8> {
    seq![66u8, 65u8, 82u8]
}

/// The version abbreviation held in the 10-byte field `f`: the bytes before the
/// zero padding, read as UTF-8; empty where they are not UTF-8.
pub open spec fn abbrev_of_field(f: Seq<u8>) -> Seq<char> {
    if valid_utf8(trim_nul(f)) {
        decode_utf8(trim_nul(f))
    } else {
        seq![]
    }
}

/// `s` followed by zero bytes up to length `n`.
pub open spec fn zero_pad(s: Seq<u8>, n: nat) -> Seq<u8> {
    if s.len() < n {
        s + Seq::new((n - s.len()) as nat, |i: int| 0u8)
    } else {
        s
    }
}

impl BinaryStruct for BARFileHeader {
    open spec fn spec_byte_size() -> nat {
        16
    }

    open spec fn spec_from_bytes(buf: Seq<u8>) -> FileHeaderView {
        FileHeaderView {
            leader: buf.subrange(0, 3),
            major_version: buf[3],
            minor_version: buf[4],
            number_of_books: buf[5],
            version_abbrev: abbrev_of_field(buf.subrange(6, 16)),
        }
    }

    open spec fn spec_to_bytes(v: FileHeaderView) -> Seq<u8> {
        magic() + seq![v.major_version, v.minor_version, v.number_of_books] + zero_pad(
            encode_utf8(v.version_abbrev),
            10,
        )
    }

    fn byte_size() -> (r: usize) {
        16
    }

    fn from_bytes(buf: &[u8]) -> (r: Self) {
        let leader: [u8; 3] = [buf[0], buf[1], buf[2]];
        assert(leader@ =~= buf@.subrange(0, 3));
        let field = slice_subrange(buf, 6, 16);
        let end = trimmed_len(field);
        let version_abbrev = match utf8_string(slice_to_vec(slice_subrange(field, 0, end))) {
            Some(s) => s,
            None => String::new(),
        };
        BARFileHeader {
            leader,
            major_version: buf[3],
            minor_version: buf[4],
            number_of_books: buf[5],
            version_abbrev,
        }
    }

    fn to_bytes(&self) -> (r: Vec<u8>) {
        let mut result: Vec<u8> = Vec::new();
        result.push(66u8);
        result.push(65u8);
        result.push(82u8);
        result.push(self.major_version);
        result.push(self.minor_version);
        result.push(self.number_of_books);
        let ghost head = result@;
        let mut abbrev = string_bytes(&self.version_abbrev);
        result.append(&mut abbrev);
        let ghost enc = encode_utf8(self.version_abbrev@);
        while result.len() < 16
            invariant
                6 + enc.len() <= result@.len() <= 16 || result@.len() == 6 + enc.len(),
                result@ == head + zero_pad(enc, (result@.len() - 6) as nat),
            decreases 16 - result@.len(),
        {
            result.push(0u8);
            assert(result@ =~= head + zero_pad(enc, (result@.len() - 6) as nat));
        }
        assert(head =~= magic() + seq![self.major_version, self.minor_version, self.number_of_books]);
        assert(zero_pad(enc, (result@.len() - 6) as nat) =~= zero_pad(enc, 10));
        result
    }
}

impl BARFileHeader {
    /// A header of the current version for 66 books, with the abbreviation `"N/A"`.
    pub fn default() -> (r: Self)
        ensures
            r@.leader == magic(),
            r.major_version == CURRENT_MAJOR_VERSION,
            r.minor_version == CURRENT_MINOR_VERSION,
            r.number_of_books == 66,
            r@.version_abbrev == "N/A"@,
    {
        let leader: [u8; 3] = [66u8, 65u8, 82u8];
        assert(leader@ =~= magic());
        BARFileHeader {
            leader,
            major_version: CURRENT_MAJOR_VERSION,
            minor_version: CURRENT_MINOR_VERSION,
            number_of_books: 66,
            version_abbrev: "N/A".to_owned(),
        }
    }

    /// The three bytes that open the header.
    pub fn leader(&self) -> (r: [u8; 3])
        ensures
            r@ == self@.leader,
    {
        self.leader
    }
}

/// A header can be written and read back unchanged: it carries the magic, and its
/// abbreviation fits the 10-byte field and does not end in a zero byte, which the
/// padding would swallow.
pub open spec fn header_writable(h: FileHeaderView) -> bool {
    &&& h.leader == magic()
    &&& encode_utf8(h.version_abbrev).len() <= 10
    &&& (encode_utf8(h.version_abbrev).len() == 0 || encode_utf8(h.version_abbrev).last() != 0u8)
}

/// 16 bytes that a header can be read from and written back to unchanged: they
/// open with the magic, and the abbreviation field before its zero padding is
/// UTF-8.
pub open spec fn header_bytes_ok(b: Seq<u8>) -> bool {
    &&& b.len() == 16
    &&& b.subrange(0, 3) == magic()
    &&& valid_utf8(trim_nul(b.subrange(6, 16)))
}

/// Writing a header and reading it back gives the same header, and reading 16
/// header bytes and writing them back gives the same bytes.
pub proof fn lemma_header_round_trip(h: FileHeaderView, b: Seq<u8>)
    ensures
        header_writable(h) ==> BARFileHeader::spec_from_bytes(BARFileHeader::spec_to_bytes(h)) == h,
        header_bytes_ok(b) ==> BARFileHeader::spec_to_bytes(BARFileHeader::spec_from_bytes(b)) == b,
{
    broadcast use {encode_utf8_valid_utf8, encode_utf8_decode_utf8, decode_utf8_encode_utf8};

    if header_writable(h) {
        let e = encode_utf8(h.version_abbrev);
        let bytes = BARFileHeader::spec_to_bytes(h);
        let pad = (10 - e.len()) as nat;
        assert(zero_pad(e, 10) =~= e + zeros(pad));
        assert(bytes.subrange(0, 3) =~= magic());
        assert(bytes.subrange(6, 16) =~= e + zeros(pad));
        lemma_trim_nul_zeros(e, pad);
        assert(trim_nul(e) == e);
        let r = BARFileHeader::spec_from_bytes(bytes);
        assert(r.leader == h.leader);
        assert(r.version_abbrev == h.version_abbrev);
    }
    if header_bytes_ok(b) {
        let f = b.subrange(6, 16);
        let t = trim_nul(f);
        lemma_trim_nul_split(f);
        let v = BARFileHeader::spec_from_bytes(b);
        assert(encode_utf8(v.version_abbrev) == t);
        assert(zero_pad(t, 10) =~= t + zeros((10 - t.len()) as nat));
        assert(BARFileHeader::spec_to_bytes(v) =~= b);
    }
}

/// One slot of the book index: a book and where it starts, or nothing.
#[derive(Debug, Clone, Copy, PartialEq, Eq, Structural)]
pub enum BARBookIndexEntry {
    Live { book_number: u8, file_offset: u32 },
    Empty,
}

impl View for BARBookIndexEntry {
    type V = BARBookIndexEntry;

    open spec fn view(&self) -> BARBookIndexEntry {
        *self
    }
}

impl BARBookIndexEntry {
    /// A live slot has a non-zero book number and a non-zero offset.
    pub open spec fn wf(&self) -> bool {
        self matches BARBookIndexEntry::Live { book_number, file_offset } ==> book_number != 0
            && file_offset != 0
    }

    pub fn default() -> (r: Self)
        ensures
            r == BARBookIndexEntry::Empty,
    {
        BARBookIndexEntry::Empty
    }
}

/// Writing a well-formed book index entry and reading it back gives the same entry.
pub proof fn lemma_book_index_round_trip(x: BARBookIndexEntry)
    requires
        x.wf(),
    ensures
        BARBookIndexEntry::spec_from_bytes(BARBookIndexEntry::spec_to_bytes(x)) == x,
{
    let b = BARBookIndexEntry::spec_to_bytes(x);
    match x {
        BARBookIndexEntry::Live { book_number, file_offset } => {
            binarystruct::lemma_le_u32_of_le_bytes(file_offset);
            let l = le_bytes(file_offset);
            assert(b[1] == l[0] && b[2] == l[1] && b[3] == l[2] && b[4] == l[3]);
            assert(le_u32(b, 1) == le_u32(l, 0));
        },
        BARBookIndexEntry::Empty => {
            assert(b[0] == 0);
        },
    }
}

impl BinaryStruct for BARBookIndexEntry {
    open spec fn spec_byte_size() -> nat {
        5
    }

    open spec fn spec_from_bytes(buf: Seq<u8>) -> BARBookIndexEntry {
        if buf[0] == 0 || le_u32(buf, 1) == 0 {
            BARBookIndexEntry::Empty
        } else {
            BARBookIndexEntry::Live { book_number: buf[0], file_offset: le_u32(buf, 1) }
        }
    }

    open spec fn spec_to_bytes(v: BARBookIndexEntry) -> Seq<u8> {
        match v {
            BARBookIndexEntry::Live { book_number, file_offset } => seq![book_number] + le_bytes(
                file_offset,
            ),
            BARBookIndexEntry::Empty => seq![0u8, 0u8, 0u8, 0u8, 0u8],
        }
    }

    fn byte_size() -> (r: usize) {
        5
    }

    fn from_bytes(buf: &[u8]) -> (r: Self) {
        let book_number = buf[0];
        let file_offset = read_u32_le(buf, 1);
        if file_offset == 0 || book_number == 0 {
            return BARBookIndexEntry::Empty;
        }
        BARBookIndexEntry::Live { book_number, file_offset }
    }

    fn to_bytes(&self) -> (r: Vec<u8>) {
        let mut result: Vec<u8> = Vec::new();
        match self {
            BARBookIndexEntry::Live { book_number, file_offset } => {
                result.push(*book_number);
                push_u32_le(&mut result, *file_offset);
                assert(result@ =~= seq![*book_number] + le_bytes(*file_offset));
            },
            BARBookIndexEntry::Empty => {
                result = vec![0u8, 0u8, 0u8, 0u8, 0u8];
            },
        }
        result
    }
}


/// An archive's version, major then minor.
#[derive(Debug, Clone, Copy, PartialEq, Eq, Structural)]
pub struct BARVersion(pub u8, pub u8);

/// The decimal digits of `n`.
pub open spec fn decimal(n: u8) -> Seq<char> {
    if n < 10 {
        seq![digit(n)]
    } else if n < 100 {
        seq![digit(n / 10), digit(n % 10)]
    } else {
        seq![digit(n / 100), digit((n / 10) % 10), digit(n % 10)]
    }
}

/// The character of the digit `d`.
pub open spec fn digit(d: u8) -> char {
    ((d + 48) as u8) as char
}

/// The text of the digit `d`.
fn digit_str(d: u8) -> (r: &'static str)
    requires
        d < 10,
    ensures
        r@ == seq![digit(d)],
{
    match d {
        0 => {
            proof {
                reveal_strlit("0");
            }
            assert("0"@ =~= seq![digit(0u8)]);
            "0"
        },
        1 => {
            proof {
                reveal_strlit("1");
            }
            assert("1"@ =~= seq![digit(1u8)]);
            "1"
        },
        2 => {
            proof {
                reveal_strlit("2");
            }
            assert("2"@ =~= seq![digit(2u8)]);
            "2"
        },
        3 => {
            proof {
                reveal_strlit("3");
            }
            assert("3"@ =~= seq![digit(3u8)]);
            "3"
        },
        4 => {
            proof {
                reveal_strlit("4");
            }
            assert("4"@ =~= seq![digit(4u8)]);
            "4"
        },
        5 => {
            proof {
                reveal_strlit("5");
            }
            assert("5"@ =~= seq![digit(5u8)]);
            "5"
        },
        6 => {
            proof {
                reveal_strlit("6");
            }
            assert("6"@ =~= seq![digit(6u8)]);
            "6"
        },
        7 => {
            proof {
                reveal_strlit("7");
            }
            assert("7"@ =~= seq![digit(7u8)]);
            "7"
        },
        8 => {
            proof {
                reveal_strlit("8");
            }
            assert("8"@ =~= seq![digit(8u8)]);
            "8"
        },
        9 => {
            proof {
                reveal_strlit("9");
            }
            assert("9"@ =~= seq![digit(9u8)]);
            "9"
        },
        _ => unreached(),
    }
}

/// Appends `n` in decimal, without padding.
fn push_decimal(out: &mut String, n: u8)
    ensures
        final(out)@ == old(out)@ + decimal(n),
{
    if n >= 100 {
        out.append(digit_str(n / 100));
    }
    if n >= 10 {
        out.append(digit_str((n / 10) % 10));
    }
    out.append(digit_str(n % 10));
    assert(final(out)@ =~= old(out)@ + decimal(n));
}

/// The text `major.minor`.
fn dotted(major: u8, minor: u8) -> (r: String)
    ensures
        r@ == decimal(major) + seq!['.'] + decimal(minor),
{
    let mut r = String::new();
    push_decimal(&mut r, major);
    proof {
        reveal_strlit(".");
    }
    assert("."@ =~= seq!['.']);
    r.append(".");
    push_decimal(&mut r, minor);
    assert(r@ =~= decimal(major) + seq!['.'] + decimal(minor));
    r
}

impl BARVersion {
    /// The version as text: `major.minor`.
    pub fn to_string(&self) -> (r: String)
        ensures
            r@ == decimal(self.0) + seq!['.'] + decimal(self.1),
    {
        dotted(self.0, self.1)
    }
}

/// The header holds what an archive must: the magic, a version abbreviation, and a
/// major version this library reads.
pub open spec fn header_accepted(h: FileHeaderView) -> bool {
    &&& h.leader == magic()
    &&& h.version_abbrev.len() > 0
    &&& h.major_version <= CURRENT_MAJOR_VERSION
}

/// The book index entry in slot `i`.
pub open spec fn index_entry(data: Seq<u8>, i: int) -> BARBookIndexEntry {
    BARBookIndexEntry::spec_from_bytes(data.subrange(16 + 5 * i, 16 + 5 * i + 5))
}

/// The header at the start of `data`.
pub open spec fn header_of(data: Seq<u8>) -> FileHeaderView {
    BARFileHeader::spec_from_bytes(data.subrange(0, 16))
}

/// Where book `n` starts: the first live slot that names it, before the first empty
/// slot.
pub open spec fn find_book(index: Seq<BARBookIndexEntry>, n: u8, i: int) -> Option<u32>
    decreases index.len() - i,
{
    if i < 0 || i >= index.len() {
        None
    } else {
        match index[i] {
            BARBookIndexEntry::Empty => None,
            BARBookIndexEntry::Live { book_number, file_offset } => if book_number == n {
                Some(file_offset)
            } else {
                find_book(index, n, i + 1)
            },
        }
    }
}

/// Book `n` of an archive, where the index lists it and it reads well.
pub open spec fn book_lookup(data: Seq<u8>, index: Seq<BARBookIndexEntry>, n: u8, ver: u8) -> Option<
    BookView,
> {
    match find_book(index, n, 0) {
        None => None,
        Some(off) => if off == 0 || book_outcome(data, n, off as int) is Err {
            None
        } else {
            Some(book_view(data, n, off, ver))
        },
    }
}

/// The number of live slots before the first empty one, from slot `i` on.
pub open spec fn live_count(index: Seq<BARBookIndexEntry>, i: int) -> int
    decreases index.len() - i,
{
    if i < 0 || i >= index.len() || index[i] is Empty {
        0
    } else {
        1 + live_count(index, i + 1)
    }
}

/// The books in storage order from slot `i` on: one per live slot, up to the first
/// empty slot or the first book that cannot be read.
pub open spec fn storage_books(data: Seq<u8>, index: Seq<BARBookIndexEntry>, ver: u8, i: int) -> Seq<
    BookView,
>
    decreases index.len() - i,
{
    if i < 0 || i >= index.len() {
        seq![]
    } else {
        match index[i] {
            BARBookIndexEntry::Empty => seq![],
            BARBookIndexEntry::Live { book_number, file_offset } => match book_lookup(
                data,
                index,
                book_number,
                ver,
            ) {
                None => seq![],
                Some(b) => seq![b] + storage_books(data, index, ver, i + 1),
            },
        }
    }
}

/// The books numbered `n` up to 66 that the archive holds, in that order.
pub open spec fn ordered_books(data: Seq<u8>, index: Seq<BARBookIndexEntry>, ver: u8, n: int) -> Seq<
    BookView,
>
    decreases 67 - n,
{
    if n < 1 || n > 66 {
        seq![]
    } else {
        match book_lookup(data, index, n as u8, ver) {
            None => ordered_books(data, index, ver, n + 1),
            Some(b) => seq![b] + ordered_books(data, index, ver, n + 1),
        }
    }
}

/// What an archive handle holds.
pub struct ArchiveView {
    pub data: Seq<u8>,
    pub header: FileHeaderView,
    pub book_index: Seq<BARBookIndexEntry>,
    pub next_slot: int,
}

/// An archive: its bytes, its header and its book index.
pub struct BARFile {
    file: Rc<Vec<u8>>,
    pub header: BARFileHeader,
    pub book_index: Vec<BARBookIndexEntry>,
    iterator_index: Option<usize>,
}

impl View for BARFile {
    type V = ArchiveView;

    closed spec fn view(&self) -> ArchiveView {
        ArchiveView {
            data: self.file@,
            header: self.header@,
            book_index: self.book_index@,
            next_slot: match self.iterator_index {
                None => 0,
                Some(i) => i + 1,
            },
        }
    }
}

impl BARFile {
    /// The book index has one slot per book that the header counts.
    pub open spec fn wf(&self) -> bool {
        self@.book_index.len() == self@.header.number_of_books
    }

    /// Reads an archive out of its bytes: the header, which must carry the magic,
    /// a version abbreviation and a major version up to the current one, then the
    /// book index. A short or malformed start is a format error.
    pub fn open(data: Vec<u8>) -> (r: BARResult<Self>)
        ensures
            data@.len() < 16 ==> (r matches Err(e) && e is InvalidFileFormat),
            data@.len() >= 16 && !header_accepted(header_of(data@)) ==> (r matches Err(e)
                && e is InvalidFileFormat),
            data@.len() >= 16 && header_accepted(header_of(data@)) && 16 + 5 * header_of(
                data@,
            ).number_of_books > data@.len() ==> (r matches Err(e) && e is InvalidFileFormat),
            data@.len() >= 16 && header_accepted(header_of(data@)) && 16 + 5 * header_of(
                data@,
            ).number_of_books <= data@.len() ==> (r matches Ok(f) && f.wf() && f@.data
                == data@ && f@.header == header_of(data@) && f@.next_slot == 0
                && f@.book_index == Seq::new(
                header_of(data@).number_of_books as nat,
                |i: int| index_entry(data@, i),
            )),
            data@.len() >= 16 && data@[3] > CURRENT_MAJOR_VERSION ==> (r matches Err(e)
                && e is InvalidFileFormat),
            !(data@.len() >= 3 && data@.subrange(0, 3) == magic()) ==> (r matches Err(e)
                && e is InvalidFileFormat),
    {
        let bytes = data.as_slice();
        let header = match BARFileHeader::read_from(bytes, 0) {
            Ok(h) => h,
            Err(_) => {
                return Err(BARFileError::InvalidFileFormat("File shorter than its header".to_owned()));
            },
        };
        if header.leader[0] != 66u8 || header.leader[1] != 65u8 || header.leader[2] != 82u8 {
            return Err(BARFileError::InvalidFileFormat("Invalid BAR file. Unexpected leader".to_owned()));
        }
        assert(header@.leader =~= magic());
        assert(data@.subrange(0, 16).subrange(0, 3) =~= data@.subrange(0, 3));
        if header.version_abbrev.as_str().is_empty() {
            return Err(
                BARFileError::InvalidFileFormat(
                    "Invalid BAR file. Version Abbrev not specified or corrupt.".to_owned(),
                ),
            );
        }
        if header.major_version > CURRENT_MAJOR_VERSION {
            return Err(BARFileError::InvalidFileFormat("Unsupported future BARFile version".to_owned()));
        }
        let book_index = match BARBookIndexEntry::read_array(header.number_of_books as usize, bytes, 16) {
            Ok(v) => v,
            Err(_) => {
                return Err(BARFileError::InvalidFileFormat("Book index runs past the end of the file".to_owned()));
            },
        };
        proof {
            assert forall|i: int| 0 <= i < book_index@.len() implies #[trigger] book_index@[i]
                == index_entry(data@, i) by {
                assert(book_index@[i]@ == book_index@[i]);
                assert(16 + i * 5 == 16 + 5 * i);
                assert(16 + (i + 1) * 5 == 16 + 5 * i + 5);
            }
            assert(book_index@ =~= Seq::new(
                header.number_of_books as nat,
                |i: int| index_entry(data@, i),
            ));
        }
        Ok(BARFile { file: Rc::new(data), header, book_index, iterator_index: None })
    }

    /// A new archive for the version `version_abbrev`: the current format, room
    /// for 66 books, all slots empty.
    pub fn create(version_abbrev: String) -> (r: BARResult<Self>)
        ensures
            encode_utf8(version_abbrev@).len() > 10 ==> (r matches Err(e) && e is InvalidFileFormat),
            encode_utf8(version_abbrev@).len() <= 10 ==> (r matches Ok(f) && f.wf()
                && f@.header == (FileHeaderView {
                leader: magic(),
                major_version: CURRENT_MAJOR_VERSION,
                minor_version: CURRENT_MINOR_VERSION,
                number_of_books: 66,
                version_abbrev: version_abbrev@,
            }) && f@.book_index == Seq::new(66, |i: int| BARBookIndexEntry::Empty)
                && f@.next_slot == 0 && f@.data == BARFileHeader::spec_to_bytes(f@.header)
                + encode_all::<BARBookIndexEntry>(f@.book_index)),
    {
        let mut header = BARFileHeader::default();
        header.version_abbrev = version_abbrev;
        Self::create_with_options(header)
    }

    /// A new archive with the given header and an empty book index; its bytes are
    /// the header's followed by the empty slots. An abbreviation longer than the
    /// header's 10-byte field is a format error.
    pub fn create_with_options(header: BARFileHeader) -> (r: BARResult<Self>)
        ensures
            encode_utf8(header@.version_abbrev).len() > 10 ==> (r matches Err(e)
                && e is InvalidFileFormat),
            encode_utf8(header@.version_abbrev).len() <= 10 ==> (r matches Ok(f) && f.wf()
                && f@.header == header@ && f@.next_slot == 0 && f@.book_index == Seq::new(
                header.number_of_books as nat,
                |i: int| BARBookIndexEntry::Empty,
            ) && f@.data == BARFileHeader::spec_to_bytes(header@) + encode_all::<
                BARBookIndexEntry,
            >(f@.book_index)),
    {
        let abbrev = string_bytes(&header.version_abbrev);
        if abbrev.len() > 10 {
            return Err(
                BARFileError::InvalidFileFormat(
                    "Version abbreviation longer than 10 bytes".to_owned(),
                ),
            );
        }
        let mut bytes: Vec<u8> = Vec::new();
        header.write_to(&mut bytes);
        let book_index = Self::new_book_index(header.number_of_books);
        write_array(&book_index, &mut bytes);
        assert(book_index@.map_values(|e: BARBookIndexEntry| e@) =~= book_index@);
        Ok(BARFile { file: Rc::new(bytes), header, book_index, iterator_index: None })
    }

    /// The archive's bytes.
    pub fn bytes(&self) -> (r: &Vec<u8>)
        ensures
            r@ == self@.data,
    {
        &*self.file
    }

    pub fn archive_version(&self) -> (r: BARVersion)
        ensures
            r == BARVersion(self@.header.major_version, self@.header.minor_version),
    {
        BARVersion(self.header.major_version, self.header.minor_version)
    }

    /// The abbreviation of the Bible version, such as `"KJV"`.
    pub fn bible_version(&self) -> (r: &String)
        ensures
            r@ == self@.header.version_abbrev,
    {
        &self.header.version_abbrev
    }

    /// The number of books: the live slots before the first empty one.
    pub fn number_of_books(&self) -> (r: i32)
        requires
            self.wf(),
        ensures
            r == live_count(self@.book_index, 0),
    {
        let mut count: i32 = 0;
        let mut i: usize = 0;
        while i < self.book_index.len()
            invariant
                i <= self@.book_index.len() <= 255,
                count == i,
                live_count(self@.book_index, 0) == count + live_count(self@.book_index, i as int),
                forall|j: int| 0 <= j < i ==> !(#[trigger] self@.book_index[j] is Empty),
            ensures
                count == live_count(self@.book_index, 0),
            decreases self@.book_index.len() - i,
        {
            match self.book_index[i] {
                BARBookIndexEntry::Live { .. } => {
                    count = count + 1;
                },
                BARBookIndexEntry::Empty => {
                    break;
                },
            }
            i = i + 1;
        }
        count
    }

    /// How many slots the book index has.
    pub fn book_capacity(&self) -> (r: i32)
        requires
            self.wf(),
        ensures
            r == self@.header.number_of_books,
            r == self@.book_index.len(),
    {
        self.header.number_of_books as i32
    }

    /// A book index of `number_of_books` empty slots.
    pub fn new_book_index(number_of_books: u8) -> (r: Vec<BARBookIndexEntry>)
        ensures
            r@ == Seq::new(number_of_books as nat, |i: int| BARBookIndexEntry::Empty),
    {
        let mut book_index: Vec<BARBookIndexEntry> = Vec::new();
        let mut i: u8 = 0;
        while i < number_of_books
            invariant
                i <= number_of_books,
                book_index@ == Seq::new(i as nat, |j: int| BARBookIndexEntry::Empty),
            decreases number_of_books - i,
        {
            book_index.push(BARBookIndexEntry::default());
            i = i + 1;
            assert(book_index@ =~= Seq::new(i as nat, |j: int| BARBookIndexEntry::Empty));
        }
        book_index
    }

    /// Book `book_number`, looked up in the index up to its first empty slot;
    /// none where it is not listed or cannot be read.
    pub fn book(&self, book_number: u8) -> (r: Option<BARBook>)
        ensures
            match r {
                Some(b) => book_lookup(
                    self@.data,
                    self@.book_index,
                    book_number,
                    self@.header.major_version,
                ) == Some(b@),
                None => book_lookup(
                    self@.data,
                    self@.book_index,
                    book_number,
                    self@.header.major_version,
                ) is None,
            },
    {
        let mut file_offset: u32 = 0;
        let mut i: usize = 0;
        while i < self.book_index.len()
            invariant_except_break
                file_offset == 0,
            invariant
                i <= self@.book_index.len(),
                find_book(self@.book_index, book_number, 0) == find_book(
                    self@.book_index,
                    book_number,
                    i as int,
                ),
            ensures
                file_offset != 0 ==> find_book(self@.book_index, book_number, 0) == Some(file_offset),
                file_offset == 0 ==> find_book(self@.book_index, book_number, 0) is None || find_book(
                    self@.book_index,
                    book_number,
                    0,
                ) == Some(0u32),
            decreases self@.book_index.len() - i,
        {
            match self.book_index[i] {
                BARBookIndexEntry::Live { book_number: entry_book_number, file_offset: entry_file_offset } => {
                    if entry_book_number == book_number {
                        file_offset = entry_file_offset;
                        break;
                    }
                },
                BARBookIndexEntry::Empty => {
                    break;
                },
            }
            i = i + 1;
        }
        if file_offset == 0 {
            return None;
        }
        match BARBook::build(self.file.clone(), book_number, file_offset, self.header.major_version) {
            Ok(b) => Some(b),
            Err(_) => None,
        }
    }

    /// The book that an abbreviation such as `"Eph"` names; none where it names no
    /// book or the archive does not hold it.
    pub fn book_from_abbrev(&self, abbrev: &str) -> (r: Option<BARBook>)
        ensures
            match spec_parse_abbrev(abbrev@) {
                None => r is None,
                Some(i) => match r {
                    Some(b) => book_lookup(
                        self@.data,
                        self@.book_index,
                        (i + 1) as u8,
                        self@.header.major_version,
                    ) == Some(b@),
                    None => book_lookup(
                        self@.data,
                        self@.book_index,
                        (i + 1) as u8,
                        self@.header.major_version,
                    ) is None,
                },
            },
    {
        match parse_abbrev(abbrev) {
            None => None,
            Some(i) => self.book(i + 1),
        }
    }

    /// The next book in storage order; none at the first empty slot, at the end of
    /// the index, or at a book that cannot be read.
    pub fn next(&mut self) -> (r: Option<BARBook>)
        ensures
            final(self)@.header == old(self)@.header,
            final(self)@.book_index == old(self)@.book_index,
            final(self)@.data == old(self)@.data,
            match r {
                Some(b) => {
                    &&& final(self)@.next_slot == old(self)@.next_slot + 1
                    &&& old(self)@.next_slot < old(self)@.book_index.len()
                    &&& (old(self)@.book_index[old(self)@.next_slot] matches BARBookIndexEntry::Live {
                        book_number,
                        file_offset,
                    } && book_lookup(
                        old(self)@.data,
                        old(self)@.book_index,
                        book_number,
                        old(self)@.header.major_version,
                    ) == Some(b@))
                },
                None => old(self)@.next_slot >= old(self)@.book_index.len()
                    || old(self)@.book_index[old(self)@.next_slot] is Empty
                    || (old(self)@.book_index[old(self)@.next_slot] matches BARBookIndexEntry::Live {
                    book_number,
                    file_offset,
                } && book_lookup(
                    old(self)@.data,
                    old(self)@.book_index,
                    book_number,
                    old(self)@.header.major_version,
                ) is None),
            },
    {
        let i: usize = match self.iterator_index {
            None => 0,
            Some(x) => {
                if x >= self.book_index.len() {
                    return None;
                }
                x + 1
            },
        };
        if i >= self.book_index.len() {
            return None;
        }
        self.iterator_index = Some(i);
        match self.book_index[i] {
            BARBookIndexEntry::Empty => None,
            BARBookIndexEntry::Live { book_number, file_offset: _ } => self.book(book_number),
        }
    }

    /// The books in storage order: one per live slot, up to the first empty slot
    /// or the first book that cannot be read.
    pub fn books(&self) -> (r: Vec<BARBook>)
        ensures
            r@.len() == storage_books(self@.data, self@.book_index, self@.header.major_version, 0).len(),
            forall|i: int|
                0 <= i < r@.len() ==> #[trigger] r@[i]@ == storage_books(
                    self@.data,
                    self@.book_index,
                    self@.header.major_version,
                    0,
                )[i],
    {
        let ghost all = storage_books(self@.data, self@.book_index, self@.header.major_version, 0);
        let mut result: Vec<BARBook> = Vec::new();
        let mut i: usize = 0;
        while i < self.book_index.len()
            invariant
                i <= self@.book_index.len(),
                all == storage_books(self@.data, self@.book_index, self@.header.major_version, 0),
                all == result@.map_values(|b: BARBook| b@) + storage_books(
                    self@.data,
                    self@.book_index,
                    self@.header.major_version,
                    i as int,
                ),
            ensures
                all == result@.map_values(|b: BARBook| b@),
            decreases self@.book_index.len() - i,
        {
            let ghost before = result@.map_values(|b: BARBook| b@);
            match self.book_index[i] {
                BARBookIndexEntry::Empty => {
                    assert(all =~= before);
                    break;
                },
                BARBookIndexEntry::Live { book_number, file_offset: _ } => {
                    match self.book(book_number) {
                        None => {
                            assert(all =~= before);
                            break;
                        },
                        Some(b) => {
                            result.push(b);
                            assert(result@.map_values(|b: BARBook| b@) =~= before.push(b@));
                        },
                    }
                },
            }
            i = i + 1;
        }
        proof {
            if i >= self@.book_index.len() {
                assert(all =~= result@.map_values(|b: BARBook| b@));
            }
        }
        assert forall|k: int| 0 <= k < result@.len() implies #[trigger] result@[k]@ == all[k] by {
            assert(result@.map_values(|b: BARBook| b@)[k] == result@[k]@);
        }
        result
    }

    /// The books that the archive holds, by book number from 1 to 66.
    pub fn books_in_order(&self) -> (r: Vec<BARBook>)
        ensures
            r@.len() == ordered_books(self@.data, self@.book_index, self@.header.major_version, 1).len(),
            forall|i: int|
                0 <= i < r@.len() ==> #[trigger] r@[i]@ == ordered_books(
                    self@.data,
                    self@.book_index,
                    self@.header.major_version,
                    1,
                )[i],
    {
        let ghost all = ordered_books(self@.data, self@.book_index, self@.header.major_version, 1);
        let mut result: Vec<BARBook> = Vec::new();
        let mut n: u8 = 1;
        while n <= 66
            invariant
                1 <= n <= 67,
                all == ordered_books(self@.data, self@.book_index, self@.header.major_version, 1),
                all == result@.map_values(|b: BARBook| b@) + ordered_books(
                    self@.data,
                    self@.book_index,
                    self@.header.major_version,
                    n as int,
                ),
            decreases 67 - n,
        {
            let ghost before = result@.map_values(|b: BARBook| b@);
            match self.book(n) {
                None => {},
                Some(b) => {
                    result.push(b);
                    assert(result@.map_values(|b: BARBook| b@) =~= before.push(b@));
                },
            }
            n = n + 1;
        }
        assert(all =~= result@.map_values(|b: BARBook| b@));
        assert forall|k: int| 0 <= k < result@.len() implies #[trigger] result@[k]@ == all[k] by {
            assert(result@.map_values(|b: BARBook| b@)[k] == result@[k]@);
        }
        result
    }
}

} // verus!
