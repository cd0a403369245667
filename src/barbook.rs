use std::rc::Rc;
use vstd::prelude::*;

pub mod barchapter;

use crate::binarystruct::{le_bytes, le_u32, push_u32_le, read_u32_le, BinaryStruct};
use crate::error::{BARFileError, BARResult, ErrorKind};
use crate::books::{book_abbrev, book_name, spec_book_abbrev, spec_book_name};
use barchapter::{BARChapter, ChapterView};

verus! {

/// The two bytes at the start of a book: its number and how many chapter slots
/// follow.
#[derive(Debug, Clone, Copy, PartialEq, Eq, Structural)]
pub struct BARBookHeader {
    pub book_number: u8,
    pub number_of_chapters: u8,
}

/// One slot of a book's chapter index: where the chapter starts, counted from the
/// start of the book, or nothing.
#[derive(Debug, Clone, Copy, PartialEq, Eq, Structural)]
pub enum BARChapterIndexEntry {
    Live { additional_offset: u32 },
    Empty,
}

impl View for BARBookHeader {
    type V = BARBookHeader;

    open spec fn view(&self) -> BARBookHeader {
        *self
    }
}

impl View for BARChapterIndexEntry {
    type V = BARChapterIndexEntry;

    open spec fn view(&self) -> BARChapterIndexEntry {
        *self
    }
}

impl BARChapterIndexEntry {
    /// A live slot has a non-zero offset.
    pub open spec fn wf(&self) -> bool {
        self matches BARChapterIndexEntry::Live { additional_offset } ==> additional_offset != 0
    }
}

/// Writing a well-formed chapter index entry and reading it back gives the same
/// entry.
pub proof fn lemma_chapter_index_round_trip(x: BARChapterIndexEntry)
    requires
        x.wf(),
    ensures
        BARChapterIndexEntry::spec_from_bytes(BARChapterIndexEntry::spec_to_bytes(x)) == x,
{
    let b = BARChapterIndexEntry::spec_to_bytes(x);
    match x {
        BARChapterIndexEntry::Live { additional_offset } => {
            crate::binarystruct::lemma_le_u32_of_le_bytes(additional_offset);
        },
        BARChapterIndexEntry::Empty => {
            assert((0u32 & 0xff) == 0 && ((0u32 >> 8u32) & 0xff) == 0 && ((0u32 >> 16u32) & 0xff)
                == 0 && ((0u32 >> 24u32) & 0xff) == 0) by (bit_vector);
            assert(b =~= le_bytes(0));
            crate::binarystruct::lemma_le_u32_of_le_bytes(0);
        },
    }
}

impl BinaryStruct for BARBookHeader {
    open spec fn spec_byte_size() -> nat {
        2
    }

    open spec fn spec_from_bytes(buf: Seq<u8>) -> BARBookHeader {
        BARBookHeader { book_number: buf[0], number_of_chapters: buf[1] }
    }

    open spec fn spec_to_bytes(v: BARBookHeader) -> Seq<u8> {
        seq![v.book_number, v.number_of_chapters]
    }

    fn byte_size() -> (r: usize) {
        2
    }

    fn from_bytes(buf: &[u8]) -> (r: Self) {
        BARBookHeader { book_number: buf[0], number_of_chapters: buf[1] }
    }

    fn to_bytes(&self) -> (r: Vec<u8>) {
        let result: Vec<u8> = vec![self.book_number, self.number_of_chapters];
        result
    }
}

impl BinaryStruct for BARChapterIndexEntry {
    open spec fn spec_byte_size() -> nat {
        4
    }

    open spec fn spec_from_bytes(buf: Seq<u8>) -> BARChapterIndexEntry {
        if le_u32(buf, 0) == 0 {
            BARChapterIndexEntry::Empty
        } else {
            BARChapterIndexEntry::Live { additional_offset: le_u32(buf, 0) }
        }
    }

    open spec fn spec_to_bytes(v: BARChapterIndexEntry) -> Seq<u8> {
        match v {
            BARChapterIndexEntry::Live { additional_offset } => le_bytes(additional_offset),
            BARChapterIndexEntry::Empty => seq![0u8, 0u8, 0u8, 0u8],
        }
    }

    fn byte_size() -> (r: usize) {
        4
    }

    fn from_bytes(buf: &[u8]) -> (r: Self) {
        let additional_offset = read_u32_le(buf, 0);
        if additional_offset == 0 {
            BARChapterIndexEntry::Empty
        } else {
            BARChapterIndexEntry::Live { additional_offset }
        }
    }

    fn to_bytes(&self) -> (r: Vec<u8>) {
        let mut result: Vec<u8> = Vec::new();
        match self {
            BARChapterIndexEntry::Live { additional_offset } => {
                push_u32_le(&mut result, *additional_offset);
                assert(result@ =~= le_bytes(*additional_offset));
            },
            BARChapterIndexEntry::Empty => {
                result = vec![0u8, 0u8, 0u8, 0u8];
            },
        }
        result
    }
}

/// The chapter slot `i` of the book at `off`.
pub open spec fn chapter_slot(data: Seq<u8>, off: int, i: int) -> BARChapterIndexEntry {
    BARChapterIndexEntry::spec_from_bytes(data.subrange(off + 2 + 4 * i, off + 2 + 4 * i + 4))
}

/// The outcome of reading book `n` at `off`: an I/O failure where its header or
/// chapter index runs past the end of `data`, a format error where the header
/// names another book.
pub open spec fn book_outcome(data: Seq<u8>, n: u8, off: int) -> Result<(), ErrorKind> {
    if off + 2 > data.len() {
        Err(ErrorKind::IOError)
    } else if data[off] != n {
        Err(ErrorKind::InvalidFileFormat)
    } else if off + 2 + 4 * data[off + 1] > data.len() {
        Err(ErrorKind::IOError)
    } else {
        Ok(())
    }
}

/// What a book handle holds.
pub struct BookView {
    pub data: Seq<u8>,
    pub file_version: u8,
    pub file_offset: u32,
    pub book_number: u8,
    pub number_of_chapters: u8,
    pub chapter_index: Seq<BARChapterIndexEntry>,
}

/// The handle on book `n` read at `off`, where reading it succeeds.
pub open spec fn book_view(data: Seq<u8>, n: u8, off: u32, ver: u8) -> BookView {
    BookView {
        data,
        file_version: ver,
        file_offset: off,
        book_number: n,
        number_of_chapters: data[off + 1],
        chapter_index: Seq::new(data[off + 1] as nat, |i: int| chapter_slot(data, off as int, i)),
    }
}

/// The handle on chapter `n` of a book, where the book has it.
pub open spec fn chapter_of(b: BookView, n: u8) -> Option<ChapterView> {
    if n == 0 || n > b.chapter_index.len() {
        None
    } else {
        match b.chapter_index[n - 1] {
            BARChapterIndexEntry::Empty => None,
            BARChapterIndexEntry::Live { additional_offset } => if b.file_offset
                + additional_offset > u32::MAX {
                None
            } else {
                Some(
                    ChapterView {
                        data: b.data,
                        book_number: b.book_number,
                        chapter_number: n,
                        file_version: b.file_version,
                        file_offset: (b.file_offset + additional_offset) as u32,
                        cursor: None,
                    },
                )
            },
        }
    }
}

/// One book of an archive: its header and its chapter index.
pub struct BARBook {
    reader: Rc<Vec<u8>>,
    file_version: u8,
    file_offset: u32,
    header: BARBookHeader,
    chapter_index: Vec<BARChapterIndexEntry>,
}

impl View for BARBook {
    type V = BookView;

    closed spec fn view(&self) -> BookView {
        BookView {
            data: self.reader@,
            file_version: self.file_version,
            file_offset: self.file_offset,
            book_number: self.header.book_number,
            number_of_chapters: self.header.number_of_chapters,
            chapter_index: self.chapter_index@,
        }
    }
}

impl BARBook {
    /// The chapter index has one slot per chapter.
    #[verifier::type_invariant]
    closed spec fn inv(&self) -> bool {
        self.chapter_index@.len() == self.header.number_of_chapters as nat
    }

    /// Reads book `book_number` at `file_offset`: its header, which must name that
    /// book, and then its chapter index.
    pub fn build(shared_reader: Rc<Vec<u8>>, book_number: u8, file_offset: u32, file_version: u8) -> (r:
        BARResult<Self>)
        ensures
            match r {
                Ok(b) => book_outcome(shared_reader@, book_number, file_offset as int) is Ok && b@
                    == book_view(shared_reader@, book_number, file_offset, file_version),
                Err(e) => book_outcome(shared_reader@, book_number, file_offset as int) == Err::<
                    (),
                    ErrorKind,
                >(e.kind()),
            },
    {
        let data = shared_reader.as_slice();
        let len = data.len();
        let header = BARBookHeader::read_from(data, file_offset as usize)?;
        if header.book_number != book_number {
            return Err(BARFileError::InvalidFileFormat("Book index number mismatch".to_owned()));
        }
        let chapter_index = BARChapterIndexEntry::read_array(
            header.number_of_chapters as usize,
            data,
            file_offset as usize + 2,
        )?;
        let ghost view = book_view(shared_reader@, book_number, file_offset, file_version);
        assert(chapter_index@.map_values(|e: BARChapterIndexEntry| e@) =~= chapter_index@);
        assert(chapter_index@ =~= view.chapter_index) by {
            assert forall|i: int| 0 <= i < chapter_index@.len() implies #[trigger] chapter_index@[i]
                == view.chapter_index[i] by {
                assert(chapter_index@[i]@ == chapter_index@[i]);
                assert(file_offset + 2 + i * 4 == file_offset + 2 + 4 * i);
                assert(file_offset + 2 + (i + 1) * 4 == file_offset + 2 + 4 * i + 4);
            }
        }
        Ok(BARBook { reader: shared_reader, file_offset, header, chapter_index, file_version })
    }

    /// The book number: 1 is Genesis, 66 is Revelation.
    pub fn book_number(&self) -> (r: u8)
        ensures
            r == self@.book_number,
    {
        self.header.book_number
    }

    /// The number of chapter slots; the chapter index has exactly that many.
    pub fn number_of_chapters(&self) -> (r: u8)
        ensures
            r == self@.number_of_chapters,
            r == self@.chapter_index.len(),
    {
        proof {
            use_type_invariant(self);
        }
        self.header.number_of_chapters
    }

    /// The book's name, or `"Unknown"` for a number outside 1 to 66.
    pub fn book_name(&self) -> (r: &'static str)
        ensures
            r@ == spec_book_name(self@.book_number),
    {
        book_name(self.header.book_number)
    }

    /// The book's abbreviation, or `"???"` for a number outside 1 to 66.
    pub fn book_abbrev(&self) -> (r: &'static str)
        ensures
            r@ == spec_book_abbrev(self@.book_number),
    {
        book_abbrev(self.header.book_number)
    }

    /// Chapter `chapter_number`, counted from 1; none for 0, past the last slot,
    /// for an empty slot, or where its offset cannot be held.
    pub fn chapter(&self, chapter_number: u8) -> (r: Option<BARChapter>)
        ensures
            match r {
                Some(c) => c.wf() && chapter_of(self@, chapter_number) == Some(c@),
                None => chapter_of(self@, chapter_number) is None,
            },
            chapter_number == 0 || chapter_number > self@.number_of_chapters ==> r is None,
    {
        proof {
            use_type_invariant(self);
        }
        if chapter_number == 0 {
            return None;
        }
        let index = (chapter_number - 1) as usize;
        if index >= self.chapter_index.len() {
            return None;
        }
        match self.chapter_index[index] {
            BARChapterIndexEntry::Empty => None,
            BARChapterIndexEntry::Live { additional_offset } => {
                if additional_offset > u32::MAX - self.file_offset {
                    return None;
                }
                let file_offset = self.file_offset + additional_offset;
                match BARChapter::build(
                    self.reader.clone(),
                    self.header.book_number,
                    chapter_number,
                    file_offset,
                    self.file_version,
                ) {
                    Ok(c) => Some(c),
                    Err(_) => None,
                }
            },
        }
    }

    /// Walks the chapter slots in order.
    pub fn chapters<'a>(&'a self) -> (r: BARBookIterator<'a>)
        ensures
            r.barbook == self,
            r.index == 1,
    {
        BARBookIterator { barbook: self, index: 1 }
    }
}

/// Walks the chapter slots of a book, from 1 on.
pub struct BARBookIterator<'a> {
    pub barbook: &'a BARBook,
    pub index: u16,
}

impl<'a> BARBookIterator<'a> {
    /// The chapter of the next slot, itself none for an empty slot; none once the
    /// slots are done.
    pub fn next(&mut self) -> (r: Option<Option<BARChapter>>)
        ensures
            final(self).barbook == old(self).barbook,
            old(self).index > old(self).barbook@.chapter_index.len() || old(self).index == 0 ==> (r is None
                && final(self).index == old(self).index),
            0 < old(self).index <= old(self).barbook@.chapter_index.len() ==> (final(self).index
                == old(self).index + 1 && (r matches Some(c) && match c {
                Some(ch) => chapter_of(old(self).barbook@, old(self).index as u8) == Some(ch@),
                None => chapter_of(old(self).barbook@, old(self).index as u8) is None,
            })),
    {
        proof {
            use_type_invariant(self.barbook);
        }
        let current_index = self.index;
        if current_index == 0 || current_index as usize > self.barbook.chapter_index.len() {
            return None;
        }
        self.index = current_index + 1;
        Some(self.barbook.chapter(current_index as u8))
    }
}

} // verus!
