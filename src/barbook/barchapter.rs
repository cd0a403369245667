use std::rc::Rc;
use vstd::prelude::*;
use vstd::slice::{slice_subrange, slice_to_vec};

pub mod compress;
pub mod rcsubstring;

use crate::binarystruct::{le_bytes, le_u32, push_u32_le, read_u32_le, BinaryStruct};
use crate::error::{end_of_data, BARFileError, BARResult, ErrorKind};
use crate::text::{lemma_boundary_after_ascii, lemma_line_valid, next_newline, nth_line, utf8_chars};
use rcsubstring::RcSubstring;
use vstd::utf8::*;
use compress::gzip::gzip_text;
use compress::lzo::frame_text;
use compress::zlib::zlib_text;
use compress::{file_error, CompressionError};

verus! {

/// How a block's payload is encoded.
#[derive(Debug, Clone, Copy, PartialEq, Eq, Structural)]
pub enum CompressionAlgorithm {
    Uncompressed,
    Lzo,
    ZLib,
    GZip,
    Unknown,
}

impl CompressionAlgorithm {
    /// The algorithm that the byte `value` stands for.
    pub open spec fn spec_from_u8(value: u8) -> CompressionAlgorithm {
        match value {
            0 => CompressionAlgorithm::Uncompressed,
            1 => CompressionAlgorithm::Lzo,
            2 => CompressionAlgorithm::ZLib,
            3 => CompressionAlgorithm::GZip,
            _ => CompressionAlgorithm::Unknown,
        }
    }

    /// The byte that stands for this algorithm; 255 for an unknown one.
    pub open spec fn spec_to_u8(self) -> u8 {
        match self {
            CompressionAlgorithm::Uncompressed => 0,
            CompressionAlgorithm::Lzo => 1,
            CompressionAlgorithm::ZLib => 2,
            CompressionAlgorithm::GZip => 3,
            CompressionAlgorithm::Unknown => 255,
        }
    }

    pub fn from_u8(value: u8) -> (r: CompressionAlgorithm)
        ensures
            r == Self::spec_from_u8(value),
    {
        match value {
            0 => CompressionAlgorithm::Uncompressed,
            1 => CompressionAlgorithm::Lzo,
            2 => CompressionAlgorithm::ZLib,
            3 => CompressionAlgorithm::GZip,
            _ => CompressionAlgorithm::Unknown,
        }
    }

    pub fn to_u8(&self) -> (r: u8)
        ensures
            r == self.spec_to_u8(),
    {
        match self {
            CompressionAlgorithm::Uncompressed => 0,
            CompressionAlgorithm::Lzo => 1,
            CompressionAlgorithm::ZLib => 2,
            CompressionAlgorithm::GZip => 3,
            CompressionAlgorithm::Unknown => 255,
        }
    }

    /// The algorithm's name.
    pub open spec fn spec_name(self) -> Seq<char> {
        match self {
            CompressionAlgorithm::Uncompressed => "None"@,
            CompressionAlgorithm::Lzo => "LZO"@,
            CompressionAlgorithm::ZLib => "ZLIB"@,
            CompressionAlgorithm::GZip => "GZip"@,
            CompressionAlgorithm::Unknown => "Unknown"@,
        }
    }

    /// The algorithm's name.
    pub fn to_string(&self) -> (r: String)
        ensures
            r@ == self.spec_name(),
    {
        match self {
            CompressionAlgorithm::Uncompressed => "None".to_owned(),
            CompressionAlgorithm::Lzo => "LZO".to_owned(),
            CompressionAlgorithm::ZLib => "ZLIB".to_owned(),
            CompressionAlgorithm::GZip => "GZip".to_owned(),
            CompressionAlgorithm::Unknown => "Unknown".to_owned(),
        }
    }
}

impl From<u8> for CompressionAlgorithm {
    fn from(value: u8) -> (r: CompressionAlgorithm) {
        CompressionAlgorithm::from_u8(value)
    }
}

impl vstd::std_specs::convert::FromSpecImpl<u8> for CompressionAlgorithm {
    open spec fn obeys_from_spec() -> bool {
        true
    }

    open spec fn from_spec(v: u8) -> CompressionAlgorithm {
        CompressionAlgorithm::spec_from_u8(v)
    }
}

/// A block header of format version 1: seven bytes, payload always LZO.
#[derive(Debug, Clone, Copy, PartialEq, Eq, Structural)]
pub struct BlockHeaderV1 {
    pub chapter_number: u8,
    pub start_verse: u8,
    pub end_verse: u8,
    pub block_size: u32,
}

/// A block header of format version 2: eight bytes, with the algorithm.
#[derive(Debug, Clone, Copy, PartialEq, Eq, Structural)]
pub struct BlockHeaderV2 {
    pub chapter_number: u8,
    pub start_verse: u8,
    pub end_verse: u8,
    pub compression_algorithm: CompressionAlgorithm,
    pub block_size: u32,
}

impl View for BlockHeaderV1 {
    type V = BlockHeaderV1;

    open spec fn view(&self) -> BlockHeaderV1 {
        *self
    }
}

impl View for BlockHeaderV2 {
    type V = BlockHeaderV2;

    open spec fn view(&self) -> BlockHeaderV2 {
        *self
    }
}

impl BinaryStruct for BlockHeaderV1 {
    open spec fn spec_byte_size() -> nat {
        7
    }

    open spec fn spec_from_bytes(buf: Seq<u8>) -> BlockHeaderV1 {
        BlockHeaderV1 {
            chapter_number: buf[0],
            start_verse: buf[1],
            end_verse: buf[2],
            block_size: le_u32(buf, 3),
        }
    }

    open spec fn spec_to_bytes(v: BlockHeaderV1) -> Seq<u8> {
        seq![v.chapter_number, v.start_verse, v.end_verse] + le_bytes(v.block_size)
    }

    fn byte_size() -> (r: usize) {
        7
    }

    fn from_bytes(buf: &[u8]) -> (r: Self) {
        BlockHeaderV1 {
            chapter_number: buf[0],
            start_verse: buf[1],
            end_verse: buf[2],
            block_size: read_u32_le(buf, 3),
        }
    }

    fn to_bytes(&self) -> (r: Vec<u8>) {
        let mut result: Vec<u8> = Vec::new();
        result.push(self.chapter_number);
        result.push(self.start_verse);
        result.push(self.end_verse);
        push_u32_le(&mut result, self.block_size);
        assert(result@ =~= seq![self.chapter_number, self.start_verse, self.end_verse] + le_bytes(
            self.block_size,
        ));
        result
    }
}

impl BinaryStruct for BlockHeaderV2 {
    open spec fn spec_byte_size() -> nat {
        8
    }

    open spec fn spec_from_bytes(buf: Seq<u8>) -> BlockHeaderV2 {
        BlockHeaderV2 {
            chapter_number: buf[0],
            start_verse: buf[1],
            end_verse: buf[2],
            compression_algorithm: CompressionAlgorithm::spec_from_u8(buf[3]),
            block_size: le_u32(buf, 4),
        }
    }

    open spec fn spec_to_bytes(v: BlockHeaderV2) -> Seq<u8> {
        seq![v.chapter_number, v.start_verse, v.end_verse, v.compression_algorithm.spec_to_u8()]
            + le_bytes(v.block_size)
    }

    fn byte_size() -> (r: usize) {
        8
    }

    fn from_bytes(buf: &[u8]) -> (r: Self) {
        BlockHeaderV2 {
            chapter_number: buf[0],
            start_verse: buf[1],
            end_verse: buf[2],
            compression_algorithm: CompressionAlgorithm::from_u8(buf[3]),
            block_size: read_u32_le(buf, 4),
        }
    }

    fn to_bytes(&self) -> (r: Vec<u8>) {
        let mut result: Vec<u8> = Vec::new();
        result.push(self.chapter_number);
        result.push(self.start_verse);
        result.push(self.end_verse);
        result.push(self.compression_algorithm.to_u8());
        push_u32_le(&mut result, self.block_size);
        assert(result@ =~= seq![
            self.chapter_number,
            self.start_verse,
            self.end_verse,
            self.compression_algorithm.spec_to_u8(),
        ] + le_bytes(self.block_size));
        result
    }
}

/// A block header in the layout of the archive's format version.
#[derive(Debug, Clone, Copy, PartialEq, Eq, Structural)]
pub enum BlockHeader {
    Ver1(BlockHeaderV1),
    Ver2(BlockHeaderV2),
}

impl BlockHeader {
    pub open spec fn spec_block_size(self) -> u32 {
        match self {
            BlockHeader::Ver1(h) => h.block_size,
            BlockHeader::Ver2(h) => h.block_size,
        }
    }

    pub open spec fn spec_start_verse(self) -> u8 {
        match self {
            BlockHeader::Ver1(h) => h.start_verse,
            BlockHeader::Ver2(h) => h.start_verse,
        }
    }

    pub open spec fn spec_end_verse(self) -> u8 {
        match self {
            BlockHeader::Ver1(h) => h.end_verse,
            BlockHeader::Ver2(h) => h.end_verse,
        }
    }

    pub open spec fn spec_chapter_number(self) -> u8 {
        match self {
            BlockHeader::Ver1(h) => h.chapter_number,
            BlockHeader::Ver2(h) => h.chapter_number,
        }
    }

    pub open spec fn spec_header_size(self) -> int {
        match self {
            BlockHeader::Ver1(_) => 7,
            BlockHeader::Ver2(_) => 8,
        }
    }

    /// The algorithm of the payload: LZO for every version 1 block.
    pub open spec fn spec_algorithm(self) -> CompressionAlgorithm {
        match self {
            BlockHeader::Ver1(_) => CompressionAlgorithm::Lzo,
            BlockHeader::Ver2(h) => h.compression_algorithm,
        }
    }

    pub fn block_size(&self) -> (r: u32)
        ensures
            r == self.spec_block_size(),
    {
        match self {
            BlockHeader::Ver1(h) => h.block_size,
            BlockHeader::Ver2(h) => h.block_size,
        }
    }

    pub fn start_verse(&self) -> (r: u8)
        ensures
            r == self.spec_start_verse(),
    {
        match self {
            BlockHeader::Ver1(h) => h.start_verse,
            BlockHeader::Ver2(h) => h.start_verse,
        }
    }

    pub fn end_verse(&self) -> (r: u8)
        ensures
            r == self.spec_end_verse(),
    {
        match self {
            BlockHeader::Ver1(h) => h.end_verse,
            BlockHeader::Ver2(h) => h.end_verse,
        }
    }

    pub fn chapter_number(&self) -> (r: u8)
        ensures
            r == self.spec_chapter_number(),
    {
        match self {
            BlockHeader::Ver1(h) => h.chapter_number,
            BlockHeader::Ver2(h) => h.chapter_number,
        }
    }

    pub fn header_size(&self) -> (r: usize)
        ensures
            r == self.spec_header_size(),
    {
        match self {
            BlockHeader::Ver1(_) => BlockHeaderV1::byte_size(),
            BlockHeader::Ver2(_) => BlockHeaderV2::byte_size(),
        }
    }
}

/// Block headers exist for format versions 1 and 2 only.
pub open spec fn supported_version(ver: u8) -> bool {
    ver == 1 || ver == 2
}

/// The length of a block header in format version `ver`.
pub open spec fn header_len(ver: u8) -> int {
    if ver == 1 {
        7
    } else {
        8
    }
}

/// A block header of version `ver` fits in `data` at `off`.
pub open spec fn header_fits(data: Seq<u8>, off: int, ver: u8) -> bool {
    &&& supported_version(ver)
    &&& 0 <= off
    &&& off + header_len(ver) <= data.len()
}

/// The block header of version `ver` at `off`.
pub open spec fn header_at(data: Seq<u8>, off: int, ver: u8) -> BlockHeader {
    if ver == 1 {
        BlockHeader::Ver1(BlockHeaderV1::spec_from_bytes(data.subrange(off, off + 7)))
    } else {
        BlockHeader::Ver2(BlockHeaderV2::spec_from_bytes(data.subrange(off, off + 8)))
    }
}

/// Where the block after the one at `off` starts: right after its payload.
pub open spec fn after_block(off: int, h: BlockHeader) -> int {
    off + h.spec_header_size() + h.spec_block_size()
}

/// The offset of the next block of the same chapter: none where the next header
/// runs past the end of `data` or belongs to another chapter.
pub open spec fn successor(data: Seq<u8>, ver: u8, off: int, h: BlockHeader) -> Option<int> {
    let next = after_block(off, h);
    if header_fits(data, next, ver) && header_at(data, next, ver).spec_chapter_number()
        == h.spec_chapter_number() {
        Some(next)
    } else {
        None
    }
}

/// The blocks of a chain from `off` on, each with its offset, in file order.
pub open spec fn chain_from(data: Seq<u8>, ver: u8, off: int) -> Seq<(int, BlockHeader)>
    decreases data.len() - off,
{
    if !header_fits(data, off, ver) {
        seq![]
    } else {
        let h = header_at(data, off, ver);
        match successor(data, ver, off, h) {
            Some(next) => if off < next {
                seq![(off, h)] + chain_from(data, ver, next)
            } else {
                seq![(off, h)]
            },
            None => seq![(off, h)],
        }
    }
}

/// The payload of the block at `off` lies within `data`.
pub open spec fn payload_fits(data: Seq<u8>, off: int, h: BlockHeader) -> bool {
    after_block(off, h) <= data.len()
}

/// The text that an algorithm decodes out of a payload.
pub open spec fn decoded_text(alg: CompressionAlgorithm, p: Seq<u8>) -> Option<Seq<char>> {
    match alg {
        CompressionAlgorithm::Uncompressed => utf8_chars(p),
        CompressionAlgorithm::Lzo => frame_text(p),
        CompressionAlgorithm::ZLib => zlib_text(p),
        CompressionAlgorithm::GZip => gzip_text(p),
        CompressionAlgorithm::Unknown => None,
    }
}

/// The text of the block at `off`: an I/O failure where the payload runs past the
/// end of `data`, a compression failure where it does not decode.
pub open spec fn block_text(data: Seq<u8>, off: int, h: BlockHeader) -> Result<Seq<char>, ErrorKind> {
    if !payload_fits(data, off, h) {
        Err(ErrorKind::IOError)
    } else {
        match decoded_text(
            h.spec_algorithm(),
            data.subrange(off + h.spec_header_size(), after_block(off, h)),
        ) {
            Some(t) => Ok(t),
            None => Err(ErrorKind::CompressionError),
        }
    }
}

/// The outcome of building a block at `off`: refused for a format version
/// without block headers, an I/O failure where the header runs past the end.
pub open spec fn build_outcome(data: Seq<u8>, off: int, ver: u8) -> Result<BlockHeader, ErrorKind> {
    if !supported_version(ver) {
        Err(ErrorKind::CompressionError)
    } else if !header_fits(data, off, ver) {
        Err(ErrorKind::IOError)
    } else {
        Ok(header_at(data, off, ver))
    }
}

/// One block of a chapter: its header, where it starts, and, once read, its text.
pub struct BARBlock {
    reader: Rc<Vec<u8>>,
    header: BlockHeader,
    file_offset: usize,
    text: Option<Rc<String>>,
    is_known_last: bool,
}

impl BARBlock {
    pub closed spec fn spec_data(&self) -> Seq<u8> {
        self.reader@
    }

    pub closed spec fn spec_header(&self) -> BlockHeader {
        self.header
    }

    pub closed spec fn spec_offset(&self) -> int {
        self.file_offset as int
    }

    /// The format version of the block: 1 for a version 1 header, 2 otherwise.
    pub open spec fn spec_version(&self) -> u8 {
        match self.spec_header() {
            BlockHeader::Ver1(_) => 1,
            BlockHeader::Ver2(_) => 2,
        }
    }

    pub closed spec fn wf(&self) -> bool {
        &&& header_fits(self.reader@, self.file_offset as int, self.spec_version())
        &&& self.header == header_at(self.reader@, self.file_offset as int, self.spec_version())
        &&& self.text matches Some(t) ==> block_text(
            self.reader@,
            self.file_offset as int,
            self.header,
        ) == Ok::<Seq<char>, ErrorKind>(t@)
        &&& self.is_known_last ==> successor(
            self.reader@,
            self.spec_version(),
            self.file_offset as int,
            self.header,
        ) is None
    }

    /// The same block, with perhaps more of it cached.
    pub open spec fn same_block(&self, other: &BARBlock) -> bool {
        &&& self.spec_data() == other.spec_data()
        &&& self.spec_header() == other.spec_header()
        &&& self.spec_offset() == other.spec_offset()
    }

    /// A well-formed block's header is the one read at its offset.
    pub proof fn lemma_header_read(&self)
        requires
            self.wf(),
        ensures
            header_fits(self.spec_data(), self.spec_offset(), self.spec_version()),
            self.spec_header() == header_at(self.spec_data(), self.spec_offset(), self.spec_version()),
    {
    }

    /// Reads the header of the block at `file_offset`; the payload is read later.
    pub fn build(shared_reader: Rc<Vec<u8>>, file_offset: usize, file_version: u8) -> (r:
        BARResult<BARBlock>)
        ensures
            match r {
                Ok(b) => {
                    &&& build_outcome(shared_reader@, file_offset as int, file_version) == Ok::<
                        BlockHeader,
                        ErrorKind,
                    >(b.spec_header())
                    &&& b.wf()
                    &&& b.spec_data() == shared_reader@
                    &&& b.spec_offset() == file_offset
                    &&& b.spec_version() == file_version
                },
                Err(e) => build_outcome(shared_reader@, file_offset as int, file_version) == Err::<
                    BlockHeader,
                    ErrorKind,
                >(e.kind()),
            },
    {
        let header = if file_version == 1 {
            match BlockHeaderV1::read_from(shared_reader.as_slice(), file_offset) {
                Ok(h) => BlockHeader::Ver1(h),
                Err(e) => {
                    return Err(e);
                },
            }
        } else if file_version == 2 {
            match BlockHeaderV2::read_from(shared_reader.as_slice(), file_offset) {
                Ok(h) => BlockHeader::Ver2(h),
                Err(e) => {
                    return Err(e);
                },
            }
        } else {
            return Err(
                file_error(
                    CompressionError(
                        CompressionAlgorithm::Unknown,
                        "Unsupported file version".to_owned(),
                    ),
                ),
            );
        };
        Ok(BARBlock { reader: shared_reader, header, file_offset, text: None, is_known_last: false })
    }

    /// The payload bytes, read from just after the header.
    pub fn data(&self) -> (r: BARResult<Vec<u8>>)
        requires
            self.wf(),
        ensures
            match r {
                Ok(v) => payload_fits(self.spec_data(), self.spec_offset(), self.spec_header())
                    && v@ == self.spec_data().subrange(
                    self.spec_offset() + self.spec_header().spec_header_size(),
                    after_block(self.spec_offset(), self.spec_header()),
                ),
                Err(e) => !payload_fits(self.spec_data(), self.spec_offset(), self.spec_header())
                    && e is IOError,
            },
    {
        let data = self.reader.as_slice();
        let len = data.len();
        let start = self.file_offset + self.header.header_size();
        let data_size = self.header.block_size() as usize;
        if data_size > len - start {
            return Err(end_of_data());
        }
        Ok(slice_to_vec(slice_subrange(data, start, start + data_size)))
    }

    pub fn compression_algorith(&self) -> (r: CompressionAlgorithm)
        ensures
            r == self.spec_header().spec_algorithm(),
    {
        match self.header {
            BlockHeader::Ver1(_) => CompressionAlgorithm::Lzo,
            BlockHeader::Ver2(h) => h.compression_algorithm,
        }
    }

    /// Reads and decodes the payload.
    pub fn decompress(&self) -> (r: BARResult<String>)
        requires
            self.wf(),
        ensures
            crate::error::text_outcome(r) == block_text(
                self.spec_data(),
                self.spec_offset(),
                self.spec_header(),
            ),
    {
        let data = self.data()?;
        let decoded = match self.compression_algorith() {
            CompressionAlgorithm::Uncompressed => compress::none::decompress(data.as_slice()),
            CompressionAlgorithm::Lzo => compress::lzo::decompress(data.as_slice()),
            CompressionAlgorithm::GZip => compress::gzip::decompress(data.as_slice()),
            CompressionAlgorithm::ZLib => compress::zlib::decompress(data.as_slice()),
            CompressionAlgorithm::Unknown => Err(
                CompressionError(
                    CompressionAlgorithm::Unknown,
                    "Unsupported compression algorithm".to_owned(),
                ),
            ),
        };
        match decoded {
            Ok(s) => Ok(s),
            Err(e) => Err(file_error(e)),
        }
    }

    /// The decoded text, read once and then kept.
    pub fn text(&mut self) -> (r: BARResult<Rc<String>>)
        requires
            old(self).wf(),
        ensures
            final(self).wf(),
            final(self).same_block(old(self)),
            match r {
                Ok(t) => block_text(old(self).spec_data(), old(self).spec_offset(), old(self).spec_header()) == Ok::<
                    Seq<char>,
                    ErrorKind,
                >(t@),
                Err(e) => block_text(old(self).spec_data(), old(self).spec_offset(), old(self).spec_header())
                    == Err::<Seq<char>, ErrorKind>(e.kind()),
            },
    {
        match &self.text {
            Some(t) => {
                return Ok(t.clone());
            },
            None => {},
        }
        let t = Rc::new(self.decompress()?);
        self.text = Some(t.clone());
        Ok(t)
    }

    pub fn start_verse(&self) -> (r: u8)
        ensures
            r == self.spec_header().spec_start_verse(),
    {
        self.header.start_verse()
    }

    pub fn end_verse(&self) -> (r: u8)
        ensures
            r == self.spec_header().spec_end_verse(),
    {
        self.header.end_verse()
    }

    pub fn file_version(&self) -> (r: u8)
        ensures
            r == self.spec_version(),
    {
        match self.header {
            BlockHeader::Ver1(_) => 1,
            BlockHeader::Ver2(_) => 2,
        }
    }

    /// The next block of the same chapter; none at the last block of the chapter
    /// or where the next header would run past the end of the data.
    pub fn next_block(&mut self) -> (r: BARResult<Option<BARBlock>>)
        requires
            old(self).wf(),
        ensures
            final(self).wf(),
            final(self).same_block(old(self)),
            r matches Ok(n) && match n {
                Some(b) => {
                    &&& successor(
                        old(self).spec_data(),
                        old(self).spec_version(),
                        old(self).spec_offset(),
                        old(self).spec_header(),
                    ) == Some(b.spec_offset())
                    &&& b.wf()
                    &&& b.spec_data() == old(self).spec_data()
                    &&& b.spec_version() == old(self).spec_version()
                    &&& b.spec_header() == header_at(
                        old(self).spec_data(),
                        b.spec_offset(),
                        old(self).spec_version(),
                    )
                    &&& b.spec_header().spec_chapter_number()
                        == old(self).spec_header().spec_chapter_number()
                },
                None => successor(
                    old(self).spec_data(),
                    old(self).spec_version(),
                    old(self).spec_offset(),
                    old(self).spec_header(),
                ) is None,
            },
    {
        if self.is_known_last {
            return Ok(None);
        }
        let len = self.reader.len();
        let header_size = self.header.header_size();
        let block_size = self.header.block_size() as usize;
        if block_size > len - self.file_offset - header_size {
            // The next header would start past the end of the data.
            self.is_known_last = true;
            return Ok(None);
        }
        let file_offset = self.file_offset + header_size + block_size;
        let next = BARBlock::build(self.reader.clone(), file_offset, self.file_version());
        let next = match next {
            Ok(b) => b,
            Err(BARFileError::IOError(msg)) => {
                if header_size > len - file_offset {
                    // The data ends here: this is the last block.
                    self.is_known_last = true;
                    return Ok(None);
                }
                return Err(BARFileError::IOError(msg));
            },
            Err(e) => {
                return Err(e);
            },
        };
        if next.header.chapter_number() != self.header.chapter_number() {
            self.is_known_last = true;
            return Ok(None);
        }
        Ok(Some(next))
    }
}

/// The texts of the blocks of `chain`, concatenated; the first failure where a
/// block's text cannot be had.
pub open spec fn texts_concat(data: Seq<u8>, chain: Seq<(int, BlockHeader)>) -> Result<
    Seq<char>,
    ErrorKind,
>
    decreases chain.len(),
{
    if chain.len() == 0 {
        Ok(seq![])
    } else {
        match block_text(data, chain[0].0, chain[0].1) {
            Err(k) => Err(k),
            Ok(t) => match texts_concat(data, chain.drop_first()) {
                Ok(rest) => Ok(t + rest),
                Err(k) => Err(k),
            },
        }
    }
}

/// The text of a whole chapter whose first block is at `off`.
pub open spec fn spec_chapter_text(data: Seq<u8>, ver: u8, off: int) -> Result<Seq<char>, ErrorKind> {
    match build_outcome(data, off, ver) {
        Err(k) => Err(k),
        Ok(_) => texts_concat(data, chain_from(data, ver, off)),
    }
}

/// The first block at or after index `k` whose verses reach `num`.
pub open spec fn verse_search(chain: Seq<(int, BlockHeader)>, num: int, k: int) -> Option<int>
    decreases chain.len() - k,
{
    if k < 0 || k >= chain.len() {
        None
    } else if chain[k].1.spec_end_verse() >= num {
        Some(k)
    } else {
        verse_search(chain, num, k + 1)
    }
}

/// Line `index` of the text `t`, which must exist.
pub open spec fn line_of_text(t: Seq<char>, index: int) -> Result<Seq<char>, ErrorKind> {
    match nth_line(encode_utf8(t), index) {
        Some(l) => Ok(decode_utf8(l)),
        None => Err(ErrorKind::InvalidFileFormat),
    }
}

/// Verse `num` out of the `k`-th block of `chain`: the block must not start after
/// it, and the verse is line `num - start_verse` of the block's text.
pub open spec fn verse_in_block(data: Seq<u8>, chain: Seq<(int, BlockHeader)>, k: int, num: int) -> Result<
    Seq<char>,
    ErrorKind,
> {
    let start = chain[k].1.spec_start_verse() as int;
    if num < start {
        Err(ErrorKind::InvalidFileFormat)
    } else {
        match block_text(data, chain[k].0, chain[k].1) {
            Err(e) => Err(e),
            Ok(t) => line_of_text(t, num - start),
        }
    }
}

/// What a chapter handle holds: where its data is, and which block of its chain,
/// if any, the cursor is at.
pub struct ChapterView {
    pub data: Seq<u8>,
    pub book_number: u8,
    pub chapter_number: u8,
    pub file_version: u8,
    pub file_offset: u32,
    pub cursor: Option<int>,
}

impl ChapterView {
    /// The blocks of the chapter, from the first one on.
    pub open spec fn chain(self) -> Seq<(int, BlockHeader)> {
        chain_from(self.data, self.file_version, self.file_offset as int)
    }

    /// Building the first block of the chapter.
    pub open spec fn first_outcome(self) -> Result<BlockHeader, ErrorKind> {
        build_outcome(self.data, self.file_offset as int, self.file_version)
    }

    /// The block from which a search for verse `num` starts: the cursor, unless
    /// there is none or it starts after that verse.
    pub open spec fn search_start(self, num: int) -> int {
        match self.cursor {
            Some(k) => if self.chain()[k].1.spec_start_verse() > num {
                0
            } else {
                k
            },
            None => 0,
        }
    }

    /// The outcome of asking for verse `num`.
    pub open spec fn verse(self, num: int) -> Result<Seq<char>, ErrorKind> {
        if self.cursor is None && self.first_outcome() is Err {
            Err(self.first_outcome()->Err_0)
        } else {
            match verse_search(self.chain(), num, self.search_start(num)) {
                None => Err(ErrorKind::ReferenceError),
                Some(k) => verse_in_block(self.data, self.chain(), k, num),
            }
        }
    }

    /// Where the cursor is after asking for verse `num`.
    pub open spec fn cursor_after_verse(self, num: int) -> Option<int> {
        if self.cursor is None && self.first_outcome() is Err {
            None
        } else {
            match verse_search(self.chain(), num, self.search_start(num)) {
                None => Some(self.chain().len() - 1),
                Some(k) => Some(k),
            }
        }
    }
}

/// A block chain that starts with a header that fits: the first entry is that
/// block, every entry's header fits and is read where it stands, each one is
/// followed by its successor, and the last one has none.
pub proof fn lemma_chain_from(data: Seq<u8>, ver: u8, off: int)
    ensures
        header_fits(data, off, ver) ==> chain_from(data, ver, off).len() > 0 && chain_from(
            data,
            ver,
            off,
        )[0] == (off, header_at(data, off, ver)),
        !header_fits(data, off, ver) ==> chain_from(data, ver, off).len() == 0,
        forall|k: int|
            #![trigger chain_from(data, ver, off)[k]]
            0 <= k < chain_from(data, ver, off).len() ==> {
                let c = chain_from(data, ver, off);
                &&& header_fits(data, c[k].0, ver)
                &&& c[k].1 == header_at(data, c[k].0, ver)
                &&& k + 1 < c.len() ==> successor(data, ver, c[k].0, c[k].1) == Some(c[k + 1].0)
                &&& k + 1 == c.len() ==> successor(data, ver, c[k].0, c[k].1) is None
            },
    decreases data.len() - off,
{
    if header_fits(data, off, ver) {
        let h = header_at(data, off, ver);
        assert(h.spec_header_size() > 0);
        match successor(data, ver, off, h) {
            Some(next) => {
                lemma_chain_from(data, ver, next);
                let c = chain_from(data, ver, off);
                let rest = chain_from(data, ver, next);
                assert(c == seq![(off, h)] + rest);
                assert forall|k: int| #![trigger c[k]] 0 <= k < c.len() implies {
                    &&& header_fits(data, c[k].0, ver)
                    &&& c[k].1 == header_at(data, c[k].0, ver)
                    &&& k + 1 < c.len() ==> successor(data, ver, c[k].0, c[k].1) == Some(c[k + 1].0)
                    &&& k + 1 == c.len() ==> successor(data, ver, c[k].0, c[k].1) is None
                } by {
                    if k > 0 {
                        assert(c[k] == rest[k - 1]);
                        if k + 1 < c.len() {
                            assert(c[k + 1] == rest[k]);
                        }
                    } else {
                        assert(c[0] == (off, h));
                        assert(rest.len() > 0);
                        assert(c[1] == rest[0]);
                    }
                }
            },
            None => {},
        }
    }
}

/// The block after `off` starts after it.
proof fn lemma_successor_after(data: Seq<u8>, ver: u8, off: int, h: BlockHeader)
    ensures
        successor(data, ver, off, h) matches Some(n) ==> n > off,
{
    assert(h.spec_header_size() > 0);
}

/// Every block of a chain from `off` starts at or after `off`.
proof fn lemma_chain_lower(data: Seq<u8>, ver: u8, off: int, k: int)
    requires
        0 <= k < chain_from(data, ver, off).len(),
    ensures
        chain_from(data, ver, off)[k].0 >= off,
    decreases data.len() - off,
{
    let h = header_at(data, off, ver);
    lemma_successor_after(data, ver, off, h);
    if k > 0 {
        let next = successor(data, ver, off, h)->Some_0;
        assert(chain_from(data, ver, off)[k] == chain_from(data, ver, next)[k - 1]);
        lemma_chain_lower(data, ver, next, k - 1);
    }
}

/// Offsets grow along a chain.
proof fn lemma_chain_offsets(data: Seq<u8>, ver: u8, off: int, i: int, j: int)
    requires
        0 <= i < j < chain_from(data, ver, off).len(),
    ensures
        chain_from(data, ver, off)[i].0 < chain_from(data, ver, off)[j].0,
    decreases data.len() - off,
{
    let h = header_at(data, off, ver);
    lemma_successor_after(data, ver, off, h);
    let next = successor(data, ver, off, h)->Some_0;
    assert(chain_from(data, ver, off)[j] == chain_from(data, ver, next)[j - 1]);
    if i == 0 {
        lemma_chain_lower(data, ver, next, j - 1);
    } else {
        assert(chain_from(data, ver, off)[i] == chain_from(data, ver, next)[i - 1]);
        lemma_chain_offsets(data, ver, next, i - 1, j - 1);
    }
}

/// A chain has blocks exactly where its first header fits.
proof fn lemma_chain_nonempty(data: Seq<u8>, ver: u8, off: int)
    ensures
        chain_from(data, ver, off).len() > 0 <==> header_fits(data, off, ver),
{
}

/// `acc` in front of a text, or the failure unchanged.
pub open spec fn prepend(acc: Seq<char>, r: Result<Seq<char>, ErrorKind>) -> Result<Seq<char>, ErrorKind> {
    match r {
        Ok(x) => Ok(acc + x),
        Err(e) => Err(e),
    }
}

/// The texts of a chain from block `k` on: block `k`'s text, then the rest.
proof fn lemma_texts_concat_step(data: Seq<u8>, c: Seq<(int, BlockHeader)>, k: int)
    requires
        0 <= k < c.len(),
    ensures
        texts_concat(data, c.subrange(k, c.len() as int)) == match block_text(data, c[k].0, c[k].1) {
            Err(e) => Err(e),
            Ok(t) => prepend(t, texts_concat(data, c.subrange(k + 1, c.len() as int))),
        },
{
    let s = c.subrange(k, c.len() as int);
    assert(s.drop_first() =~= c.subrange(k + 1, c.len() as int));
    assert(s[0] == c[k]);
}

/// The texts of the blocks of a chain, in order, where all of them can be had.
pub open spec fn block_texts(data: Seq<u8>, c: Seq<(int, BlockHeader)>) -> Seq<Seq<char>> {
    Seq::new(c.len(), |k: int| block_text(data, c[k].0, c[k].1)->Ok_0)
}

/// Every block of the chain has its text.
pub open spec fn all_texts_ok(data: Seq<u8>, c: Seq<(int, BlockHeader)>) -> bool {
    forall|k: int| 0 <= k < c.len() ==> #[trigger] block_text(data, c[k].0, c[k].1) is Ok
}

proof fn lemma_texts_concat_flatten(data: Seq<u8>, c: Seq<(int, BlockHeader)>)
    requires
        all_texts_ok(data, c),
    ensures
        texts_concat(data, c) == Ok::<Seq<char>, ErrorKind>(block_texts(data, c).flatten()),
    decreases c.len(),
{
    if c.len() > 0 {
        let rest = c.drop_first();
        assert forall|k: int| 0 <= k < rest.len() implies #[trigger] block_text(
            data,
            rest[k].0,
            rest[k].1,
        ) is Ok by {
            assert(rest[k] == c[k + 1]);
        }
        lemma_texts_concat_flatten(data, rest);
        assert(block_text(data, c[0].0, c[0].1) is Ok);
        assert(block_texts(data, c).drop_first() =~= block_texts(data, rest));
    } else {
        assert(block_texts(data, c) =~= Seq::<Seq<char>>::empty());
    }
}

/// The text of a chapter is the texts of its blocks, walked from the first block
/// to the end of the chain, concatenated in that order, wherever the first block
/// can be built and every block's text can be had.
pub proof fn lemma_chapter_text_is_block_texts(data: Seq<u8>, ver: u8, off: int)
    requires
        build_outcome(data, off, ver) is Ok,
        all_texts_ok(data, chain_from(data, ver, off)),
    ensures
        spec_chapter_text(data, ver, off) == Ok::<Seq<char>, ErrorKind>(
            block_texts(data, chain_from(data, ver, off)).flatten(),
        ),
{
    lemma_texts_concat_flatten(data, chain_from(data, ver, off));
}

/// A verse past the end of the chapter is a reference error, wherever the cursor
/// stands: for a chapter whose last block reaches furthest, any verse after the
/// last block's end.
pub proof fn lemma_verse_past_end(v: ChapterView, num: int)
    requires
        v.chain().len() > 0,
        v.cursor matches Some(k) ==> 0 <= k < v.chain().len(),
        forall|k: int|
            0 <= k < v.chain().len() ==> #[trigger] v.chain()[k].1.spec_end_verse()
                <= v.chain().last().1.spec_end_verse(),
        num > v.chain().last().1.spec_end_verse(),
    ensures
        v.verse(num) == Err::<Seq<char>, ErrorKind>(ErrorKind::ReferenceError),
{
    lemma_chain_nonempty(v.data, v.file_version, v.file_offset as int);
    lemma_verse_search_none(v.chain(), num, v.search_start(num));
}

impl BARChapter {
    /// A past-the-end verse on a chapter handle: a reference error, for a chapter
    /// whose first block can be read and whose last block reaches furthest.
    pub proof fn lemma_verse_past_end_of(&self, num: int)
        requires
            self.wf(),
            self@.chain().len() > 0,
            forall|k: int|
                0 <= k < self@.chain().len() ==> #[trigger] self@.chain()[k].1.spec_end_verse()
                    <= self@.chain().last().1.spec_end_verse(),
            num > self@.chain().last().1.spec_end_verse(),
        ensures
            self@.verse(num) == Err::<Seq<char>, ErrorKind>(ErrorKind::ReferenceError),
    {
        lemma_verse_past_end(self@, num);
    }

    /// The cursor of a well-formed chapter stands on a block of its chain.
    pub proof fn lemma_cursor_in_chain(&self)
        requires
            self.wf(),
        ensures
            self@.cursor matches Some(k) ==> 0 <= k < self@.chain().len(),
    {
    }
}

proof fn lemma_verse_search_none(c: Seq<(int, BlockHeader)>, num: int, k: int)
    requires
        0 <= k,
        forall|j: int| 0 <= j < c.len() ==> #[trigger] c[j].1.spec_end_verse() < num,
    ensures
        verse_search(c, num, k) is None,
    decreases c.len() - k,
{
    if k < c.len() {
        lemma_verse_search_none(c, num, k + 1);
    }
}

/// One chapter of a book: a handle on its chain of blocks, with a cursor that
/// moves along the chain.
pub struct BARChapter {
    reader: Rc<Vec<u8>>,
    book_number: u8,
    chapter_number: u8,
    file_version: u8,
    file_offset: u32,
    current_block: Option<BARBlock>,
    cursor: Ghost<int>,
}

impl View for BARChapter {
    type V = ChapterView;

    closed spec fn view(&self) -> ChapterView {
        ChapterView {
            data: self.reader@,
            book_number: self.book_number,
            chapter_number: self.chapter_number,
            file_version: self.file_version,
            file_offset: self.file_offset,
            cursor: if self.current_block is Some {
                Some(self.cursor@)
            } else {
                None
            },
        }
    }
}

impl BARChapter {
    /// The cursor, if any, is a block of the chain and knows what it caches.
    pub closed spec fn wf(&self) -> bool {
        self.current_block matches Some(b) ==> {
            &&& b.wf()
            &&& b.spec_data() == self.reader@
            &&& b.spec_version() == self.file_version
            &&& 0 <= self.cursor@ < self@.chain().len()
            &&& self@.chain()[self.cursor@] == (b.spec_offset(), b.spec_header())
        }
    }

    /// The same chapter, with perhaps the cursor elsewhere.
    pub open spec fn same_chapter(v: ChapterView, w: ChapterView) -> bool {
        &&& v.data == w.data
        &&& v.book_number == w.book_number
        &&& v.chapter_number == w.chapter_number
        &&& v.file_version == w.file_version
        &&& v.file_offset == w.file_offset
    }

    /// A handle on the chapter whose first block is at `file_offset`; nothing is
    /// read yet.
    pub fn build(
        shared_reader: Rc<Vec<u8>>,
        book_number: u8,
        chapter_number: u8,
        file_offset: u32,
        file_version: u8,
    ) -> (r: BARResult<Self>)
        ensures
            r matches Ok(c) && c.wf() && c@ == (ChapterView {
                data: shared_reader@,
                book_number,
                chapter_number,
                file_version,
                file_offset,
                cursor: None,
            }),
    {
        Ok(BARChapter {
            reader: shared_reader,
            book_number,
            chapter_number,
            file_version,
            file_offset,
            current_block: None,
            cursor: Ghost(0),
        })
    }

    pub fn chapter_number(&self) -> (r: u8)
        ensures
            r == self@.chapter_number,
    {
        self.chapter_number
    }

    pub fn book_number(&self) -> (r: u8)
        ensures
            r == self@.book_number,
    {
        self.book_number
    }

    /// The chapter's first block, built afresh.
    pub fn first_block(&self) -> (r: BARResult<BARBlock>)
        ensures
            match r {
                Ok(b) => {
                    &&& self@.first_outcome() == Ok::<BlockHeader, ErrorKind>(b.spec_header())
                    &&& b.wf()
                    &&& b.spec_data() == self@.data
                    &&& b.spec_version() == self@.file_version
                    &&& b.spec_offset() == self@.file_offset
                    &&& self@.chain().len() > 0
                    &&& self@.chain()[0] == (b.spec_offset(), b.spec_header())
                },
                Err(e) => self@.first_outcome() == Err::<BlockHeader, ErrorKind>(e.kind()),
            },
    {
        let r = BARBlock::build(self.reader.clone(), self.file_offset as usize, self.file_version);
        proof {
            lemma_chain_from(self.reader@, self.file_version, self.file_offset as int);
        }
        r
    }

    /// Puts the cursor on the first block, unless it is there already.
    pub fn fetch_first_block(&mut self) -> (r: BARResult<()>)
        requires
            old(self).wf(),
        ensures
            final(self).wf(),
            Self::same_chapter(final(self)@, old(self)@),
            match r {
                Ok(_) => final(self)@.cursor == Some(0int) && old(self)@.first_outcome() is Ok,
                Err(e) => old(self)@.cursor is None && final(self)@.cursor is None
                    && old(self)@.first_outcome() == Err::<BlockHeader, ErrorKind>(e.kind()),
            },
    {
        proof {
            lemma_chain_from(self.reader@, self.file_version, self.file_offset as int);
            lemma_chain_nonempty(self.reader@, self.file_version, self.file_offset as int);
        }
        let at_first = match &self.current_block {
            Some(b) => b.file_offset == self.file_offset as usize,
            None => false,
        };
        if !at_first {
            let b = self.first_block()?;
            self.current_block = Some(b);
            self.cursor = Ghost(0);
        } else {
            proof {
                let c = self@.chain();
                let k = self.cursor@;
                if k != 0 {
                    self.lemma_offsets_increase(0, k);
                }
            }
            self.cursor = Ghost(0);
        }
        Ok(())
    }

    /// Offsets grow along the chain.
    proof fn lemma_offsets_increase(&self, i: int, j: int)
        requires
            0 <= i < j < self@.chain().len(),
        ensures
            self@.chain()[i].0 < self@.chain()[j].0,
    {
        lemma_chain_offsets(self.reader@, self.file_version, self.file_offset as int, i, j);
    }

    /// Moves the cursor to the next block of the chapter; false where it is at the
    /// last one already.
    pub fn fetch_next_block(&mut self) -> (r: BARResult<bool>)
        requires
            old(self).wf(),
            old(self)@.cursor is Some,
        ensures
            final(self).wf(),
            Self::same_chapter(final(self)@, old(self)@),
            r matches Ok(moved) && moved == (old(self)@.cursor->0 + 1 < old(self)@.chain().len())
                && final(self)@.cursor == Some(
                if moved {
                    old(self)@.cursor->0 + 1
                } else {
                    old(self)@.cursor->0
                },
            ),
    {
        proof {
            lemma_chain_from(self.reader@, self.file_version, self.file_offset as int);
        }
        let ghost k = self.cursor@;
        let mut cur = self.current_block.take().unwrap();
        let next = cur.next_block();
        let next = match next {
            Ok(n) => n,
            Err(e) => {
                self.current_block = Some(cur);
                return Err(e);
            },
        };
        match next {
            None => {
                self.current_block = Some(cur);
                Ok(false)
            },
            Some(b) => {
                self.current_block = Some(b);
                self.cursor = Ghost(k + 1);
                Ok(true)
            },
        }
    }

    /// Text of the whole chapter: the texts of its blocks, from the first block to
    /// the end of the chain, concatenated.
    pub fn chapter_text(&mut self) -> (r: BARResult<Rc<String>>)
        requires
            old(self).wf(),
        ensures
            final(self).wf(),
            Self::same_chapter(final(self)@, old(self)@),
            match r {
                Ok(t) => spec_chapter_text(old(self)@.data, old(self)@.file_version, old(self)@.file_offset as int)
                    == Ok::<Seq<char>, ErrorKind>(t@),
                Err(e) => spec_chapter_text(old(self)@.data, old(self)@.file_version, old(self)@.file_offset as int)
                    == Err::<Seq<char>, ErrorKind>(e.kind()),
            },
    {
        let ghost v = self@;
        let ghost c = v.chain();
        proof {
            lemma_chain_nonempty(v.data, v.file_version, v.file_offset as int);
        }
        self.fetch_first_block()?;
        proof {
            lemma_texts_concat_step(v.data, c, 0);
            assert(c.subrange(0, c.len() as int) =~= c);
        }
        let first = self.current_text()?;
        let mut result: String = (*first).clone();
        loop
            invariant
                self.wf(),
                Self::same_chapter(self@, v),
                self@.cursor is Some,
                0 <= self@.cursor->0 < c.len(),
                c == v.chain(),
                v == old(self)@,
                texts_concat(v.data, c) == prepend(
                    result@,
                    texts_concat(v.data, c.subrange(self@.cursor->0 + 1, c.len() as int)),
                ),
                spec_chapter_text(v.data, v.file_version, v.file_offset as int) == texts_concat(v.data, c),
            ensures
                self.wf(),
                Self::same_chapter(self@, v),
                spec_chapter_text(v.data, v.file_version, v.file_offset as int) == Ok::<
                    Seq<char>,
                    ErrorKind,
                >(result@),
            decreases c.len() - self@.cursor->0,
        {
            let ghost k = self@.cursor->0;
            let moved = self.fetch_next_block()?;
            if !moved {
                proof {
                    assert(c.subrange(k + 1, c.len() as int) =~= Seq::<(int, BlockHeader)>::empty());
                    assert(result@ + seq![] =~= result@);
                }
                break;
            }
            proof {
                lemma_texts_concat_step(v.data, c, k + 1);
            }
            let t = self.current_text()?;
            let ghost before = result@;
            result.append(t.as_str());
            proof {
                match texts_concat(v.data, c.subrange(k + 2, c.len() as int)) {
                    Ok(x) => {
                        assert(before + (t@ + x) =~= (before + t@) + x);
                    },
                    Err(_) => {},
                }
            }
        }
        Ok(Rc::new(result))
    }

    /// Verse `num` of the chapter, counted from 1: the cursor goes back to the
    /// first block where it is past that verse, then forward to the first block
    /// whose verses reach it, and the verse is that block's line
    /// `num - start_verse`.
    pub fn verse_text(&mut self, num: u32) -> (r: BARResult<String>)
        requires
            old(self).wf(),
        ensures
            final(self).wf(),
            Self::same_chapter(final(self)@, old(self)@),
            crate::error::text_outcome(r) == old(self)@.verse(num as int),
            final(self)@.cursor == old(self)@.cursor_after_verse(num as int),
    {
        let ghost v = self@;
        let ghost c = v.chain();
        proof {
            lemma_chain_nonempty(v.data, v.file_version, v.file_offset as int);
        }
        let rewind = match &self.current_block {
            None => true,
            Some(b) => b.start_verse() as u32 > num,
        };
        if rewind {
            self.fetch_first_block()?;
        }
        assert(self@.cursor->0 == v.search_start(num as int));
        loop
            invariant
                self.wf(),
                Self::same_chapter(self@, v),
                c == v.chain(),
                v == old(self)@,
                self@.cursor is Some,
                0 <= self@.cursor->0 < c.len(),
                !(v.cursor is None && v.first_outcome() is Err),
                verse_search(c, num as int, v.search_start(num as int)) == verse_search(
                    c,
                    num as int,
                    self@.cursor->0,
                ),
            ensures
                self.wf(),
                Self::same_chapter(self@, v),
                self@.cursor is Some,
                0 <= self@.cursor->0 < c.len(),
                c[self@.cursor->0].1.spec_end_verse() >= num,
                verse_search(c, num as int, v.search_start(num as int)) == Some(self@.cursor->0),
            decreases c.len() - self@.cursor->0,
        {
            let header = self.current_header();
            if header.end_verse() as u32 >= num {
                break;
            }
            let ghost k = self@.cursor->0;
            let moved = self.fetch_next_block()?;
            if !moved {
                assert(verse_search(c, num as int, k + 1) is None);
                return Err(
                    BARFileError::ReferenceError(
                        "Could not retrieve the verse: the chapter ends before it".to_owned(),
                    ),
                );
            }
        }
        let header = self.current_header();
        let start = header.start_verse() as u32;
        if num < start {
            return Err(
                BARFileError::InvalidFileFormat(
                    "Block reaches the verse but starts after it".to_owned(),
                ),
            );
        }
        let text = self.current_text()?;
        let bytes = text.as_str().as_bytes();
        proof {
            encode_utf8_valid_utf8(text@);
            is_char_boundary_start_end_of_seq(encode_utf8(text@));
            lemma_line_valid(encode_utf8(text@), 0, (num - start) as int);
        }
        match crate::text::find_line(bytes, num - start) {
            None => Err(
                BARFileError::InvalidFileFormat(
                    "Unable to get verse from block that should have contained it".to_owned(),
                ),
            ),
            Some((s, e)) => match crate::text::utf8_string(
                slice_to_vec(slice_subrange(bytes, s, e)),
            ) {
                Some(verse) => Ok(verse),
                None => Err(
                    BARFileError::InvalidFileFormat("Verse is not valid UTF-8".to_owned()),
                ),
            },
        }
    }

    /// The number of verses: the last verse of the chapter's last block.
    pub fn number_of_verses(&mut self) -> (r: BARResult<u8>)
        requires
            old(self).wf(),
        ensures
            final(self).wf(),
            Self::same_chapter(final(self)@, old(self)@),
            match r {
                Ok(n) => old(self)@.chain().len() > 0 && n == old(self)@.chain().last().1.spec_end_verse()
                    && final(self)@.cursor == Some(old(self)@.chain().len() - 1),
                Err(e) => old(self)@.cursor is None && old(self)@.first_outcome() == Err::<
                    BlockHeader,
                    ErrorKind,
                >(e.kind()),
            },
    {
        let ghost v = self@;
        if self.current_block.is_none() {
            self.fetch_first_block()?;
        }
        loop
            invariant
                self.wf(),
                Self::same_chapter(self@, v),
                v == old(self)@,
                self@.cursor is Some,
                0 <= self@.cursor->0 < v.chain().len(),
            ensures
                self.wf(),
                Self::same_chapter(self@, v),
                self@.cursor == Some(v.chain().len() - 1),
            decreases v.chain().len() - self@.cursor->0,
        {
            let moved = self.fetch_next_block()?;
            if !moved {
                break;
            }
        }
        assert(v.chain().last() == v.chain()[self@.cursor->0]);
        Ok(self.current_header().end_verse())
    }

    /// Walks the verses of the chapter, from its first block on.
    pub fn verses(&self) -> (r: BARChapterIterator)
        ensures
            r.wf(),
            r.remaining() == chapter_verses(self@),
    {
        BARChapterIterator {
            reader: self.reader.clone(),
            file_version: self.file_version,
            file_offset: self.file_offset,
            block: None,
            text: None,
            newline_pos: 0,
            finished: false,
            index: Ghost(0),
        }
    }

    /// Walks the verses of the chapter, each with its number counted from 1.
    pub fn enumerated_verses(&self) -> (r: EnumeratedVerses)
        ensures
            r.inner.wf(),
            r.inner.remaining() == chapter_verses(self@),
            r.count == 0,
    {
        EnumeratedVerses { inner: self.verses(), count: 0 }
    }

    /// The text of the block under the cursor.
    fn current_text(&mut self) -> (r: BARResult<Rc<String>>)
        requires
            old(self).wf(),
            old(self)@.cursor is Some,
        ensures
            final(self).wf(),
            final(self)@ == old(self)@,
            match r {
                Ok(t) => block_text(
                    old(self)@.data,
                    old(self)@.chain()[old(self)@.cursor->0].0,
                    old(self)@.chain()[old(self)@.cursor->0].1,
                ) == Ok::<Seq<char>, ErrorKind>(t@),
                Err(e) => block_text(
                    old(self)@.data,
                    old(self)@.chain()[old(self)@.cursor->0].0,
                    old(self)@.chain()[old(self)@.cursor->0].1,
                ) == Err::<Seq<char>, ErrorKind>(e.kind()),
            },
    {
        let mut cur = self.current_block.take().unwrap();
        let r = cur.text();
        self.current_block = Some(cur);
        r
    }

    /// The header of the block under the cursor.
    fn current_header(&self) -> (r: BlockHeader)
        requires
            self.wf(),
            self@.cursor is Some,
        ensures
            r == self@.chain()[self@.cursor->0].1,
    {
        match &self.current_block {
            Some(b) => b.header,
            None => unreached(),
        }
    }
}

/// The newline-terminated lines of `b` from `pos` on, without their newlines; text
/// after the last newline is no such line.
pub open spec fn terminated_lines(b: Seq<u8>, pos: int) -> Seq<Seq<u8>>
    decreases b.len() - pos,
{
    if pos < 0 || pos >= b.len() {
        seq![]
    } else {
        let p = next_newline(b, pos);
        if p >= b.len() || p < pos {
            seq![]
        } else {
            seq![b.subrange(pos, p)] + terminated_lines(b, p + 1)
        }
    }
}

/// The lines that a walk over a chain yields from block `k` on: the terminated
/// lines of each block's text in turn, up to the end of the chain or the first
/// block whose text cannot be had.
pub open spec fn chain_lines(data: Seq<u8>, c: Seq<(int, BlockHeader)>, k: int) -> Seq<Seq<u8>>
    decreases c.len() - k,
{
    if k < 0 || k >= c.len() {
        seq![]
    } else {
        match block_text(data, c[k].0, c[k].1) {
            Err(_) => seq![],
            Ok(t) => terminated_lines(encode_utf8(t), 0) + chain_lines(data, c, k + 1),
        }
    }
}

/// The verses of a chapter, as a walk over its blocks yields them: none where the
/// first block cannot be built.
pub open spec fn chapter_verses(v: ChapterView) -> Seq<Seq<u8>> {
    if v.first_outcome() is Err {
        seq![]
    } else {
        chain_lines(v.data, v.chain(), 0)
    }
}

/// The number of newline-terminated lines in the text of block `k`.
pub open spec fn block_line_count(data: Seq<u8>, c: Seq<(int, BlockHeader)>, k: int) -> int {
    terminated_lines(encode_utf8(block_text(data, c[k].0, c[k].1)->Ok_0), 0).len() as int
}

/// The blocks of a chain from `k` on hold their verses as lines: the verse ranges
/// follow on from each other, every text can be had, each block ends every verse
/// with a newline, and the last block leaves its last verse without one.
pub open spec fn lines_match_verses(data: Seq<u8>, c: Seq<(int, BlockHeader)>, k: int) -> bool {
    &&& 0 <= k < c.len()
    &&& forall|j: int|
        k <= j < c.len() ==> #[trigger] block_text(data, c[j].0, c[j].1) is Ok
    &&& forall|j: int|
        k <= j < c.len() - 1 ==> #[trigger] c[j + 1].1.spec_start_verse() == c[j].1.spec_end_verse()
            + 1
    &&& forall|j: int|
        k <= j < c.len() - 1 ==> #[trigger] block_line_count(data, c, j) == c[j].1.spec_end_verse()
            - c[j].1.spec_start_verse() + 1
    &&& block_line_count(data, c, c.len() - 1) == c.last().1.spec_end_verse() - c.last().1.spec_start_verse()
}

proof fn lemma_chain_lines_count(data: Seq<u8>, c: Seq<(int, BlockHeader)>, k: int)
    requires
        lines_match_verses(data, c, k),
    ensures
        chain_lines(data, c, k).len() == c.last().1.spec_end_verse() - c[k].1.spec_start_verse(),
    decreases c.len() - k,
{
    assert(block_text(data, c[k].0, c[k].1) is Ok);
    if k + 1 < c.len() {
        assert(lines_match_verses(data, c, k + 1));
        lemma_chain_lines_count(data, c, k + 1);
        assert(c[k + 1].1.spec_start_verse() == c[k].1.spec_end_verse() + 1);
        assert(block_line_count(data, c, k) == c[k].1.spec_end_verse() - c[k].1.spec_start_verse() + 1);
    } else {
        assert(chain_lines(data, c, k + 1) =~= seq![]);
    }
}

/// The verse walk yields as many verses as the chapter counts, less the first
/// block's start verse, for a chapter whose blocks hold their verses as lines.
pub proof fn lemma_verse_count(v: ChapterView)
    requires
        lines_match_verses(v.data, v.chain(), 0),
    ensures
        chapter_verses(v).len() == v.chain().last().1.spec_end_verse() - v.chain()[0].1.spec_start_verse(),
{
    lemma_chain_nonempty(v.data, v.file_version, v.file_offset as int);
    lemma_chain_lines_count(v.data, v.chain(), 0);
}

/// `v` is a slice of the shared text of one block of the chapter: it ends just
/// before a newline and starts at the text's start or just after a newline.
pub open spec fn is_verse_slice(ch: ChapterView, v: RcSubstring) -> bool {
    let b = encode_utf8(v.spec_string());
    let (s, e) = v.spec_range();
    &&& exists|k: int|
        0 <= k < ch.chain().len() && #[trigger] block_text(ch.data, ch.chain()[k].0, ch.chain()[k].1)
            == Ok::<Seq<char>, ErrorKind>(v.spec_string())
    &&& 0 <= s <= e < b.len()
    &&& b[e] == 10
    &&& (s == 0 || b[s - 1] == 10)
}

/// Walks the verses of a chapter in order, each as a view into its block's text.
pub struct BARChapterIterator {
    reader: Rc<Vec<u8>>,
    file_version: u8,
    file_offset: u32,
    block: Option<BARBlock>,
    text: Option<Rc<String>>,
    newline_pos: usize,
    finished: bool,
    index: Ghost<int>,
}

impl BARChapterIterator {
    /// The chapter whose verses this walks.
    pub closed spec fn spec_chapter(&self) -> ChapterView {
        ChapterView {
            data: self.reader@,
            book_number: 0,
            chapter_number: 0,
            file_version: self.file_version,
            file_offset: self.file_offset,
            cursor: None,
        }
    }

    /// The verses still to come, as UTF-8 bytes.
    pub closed spec fn remaining(&self) -> Seq<Seq<u8>> {
        if self.finished {
            seq![]
        } else if self.block is None {
            chapter_verses(self.spec_chapter())
        } else {
            terminated_lines(encode_utf8(self.text->0@), self.newline_pos as int) + chain_lines(
                self.reader@,
                self.spec_chapter().chain(),
                self.index@ + 1,
            )
        }
    }

    pub closed spec fn wf(&self) -> bool {
        !self.finished && self.block is Some ==> {
            let c = self.spec_chapter().chain();
            let b = self.block->0;
            &&& b.wf()
            &&& b.spec_data() == self.reader@
            &&& b.spec_version() == self.file_version
            &&& 0 <= self.index@ < c.len()
            &&& c[self.index@] == (b.spec_offset(), b.spec_header())
            &&& self.text is Some
            &&& block_text(self.reader@, c[self.index@].0, c[self.index@].1) == Ok::<
                Seq<char>,
                ErrorKind,
            >(self.text->0@)
            &&& self.newline_pos <= encode_utf8(self.text->0@).len()
            &&& (self.newline_pos == 0 || encode_utf8(self.text->0@)[self.newline_pos - 1] == 10)
            &&& is_char_boundary(encode_utf8(self.text->0@), self.newline_pos as int)
        }
    }

    /// The next verse; none once the verses are done.
    pub fn next(&mut self) -> (r: Option<RcSubstring>)
        requires
            old(self).wf(),
        ensures
            final(self).wf(),
            final(self).spec_chapter() == old(self).spec_chapter(),
            old(self).remaining().len() == 0 ==> r is None && final(self).remaining().len() == 0,
            old(self).remaining().len() > 0 ==> (r matches Some(v) && v.view() == decode_utf8(
                old(self).remaining()[0],
            ) && final(self).remaining() == old(self).remaining().drop_first()),
            r matches Some(v) ==> is_verse_slice(old(self).spec_chapter(), v),
    {
        broadcast use {encode_utf8_valid_utf8, encode_utf8_decode_utf8};

        let ghost v = self.spec_chapter();
        let ghost c = v.chain();
        proof {
            lemma_chain_from(v.data, v.file_version, v.file_offset as int);
        }
        if self.finished {
            return None;
        }
        if self.block.is_none() {
            let first = BARBlock::build(self.reader.clone(), self.file_offset as usize, self.file_version);
            let mut first = match first {
                Ok(b) => b,
                Err(_) => {
                    self.finished = true;
                    return None;
                },
            };
            let text = match first.text() {
                Ok(t) => t,
                Err(_) => {
                    self.finished = true;
                    proof {
                        assert(chain_lines(v.data, c, 0) =~= seq![]);
                    }
                    return None;
                },
            };
            self.block = Some(first);
            self.text = Some(text);
            self.newline_pos = 0;
            self.index = Ghost(0);
            proof {
                is_char_boundary_start_end_of_seq(encode_utf8(self.text->0@));
            }
        }
        loop
            invariant
                self.wf(),
                !self.finished,
                self.block is Some,
                self.spec_chapter() == v,
                v == old(self).spec_chapter(),
                c == v.chain(),
                0 <= self.index@ < c.len(),
                self.remaining() == old(self).remaining(),
            decreases c.len() - self.index@,
        {
            let text = self.text.as_ref().unwrap().clone();
            let bytes = text.as_str().as_bytes();
            let ghost b = encode_utf8(text@);
            let pos = self.newline_pos;
            let p = crate::text::find_newline(bytes, pos);
            if p < bytes.len() {
                proof {
                    encode_utf8_valid_utf8(text@);
                    is_char_boundary_iff_not_is_continuation_byte(b, p as int);
                    lemma_boundary_after_ascii(b, p as int);
                    if p + 1 == b.len() {
                        is_char_boundary_start_end_of_seq(b);
                    }
                }
                let ghost k = self.index@;
                let item = RcSubstring::new(text, pos..p);
                assert(block_text(v.data, c[k].0, c[k].1) == Ok::<Seq<char>, ErrorKind>(
                    item.spec_string(),
                ));
                self.newline_pos = p + 1;
                return Some(item);
            }
            assert(terminated_lines(b, pos as int) =~= seq![]);
            let mut block = self.block.take().unwrap();
            let next = block.next_block();
            match next {
                Ok(Some(mut n)) => {
                    let ghost k = self.index@;
                    proof {
                        lemma_chain_from(v.data, v.file_version, v.file_offset as int);
                        let ck = c[k];
                        assert(successor(v.data, v.file_version, ck.0, ck.1) == Some(n.spec_offset()));
                        assert(k + 1 < c.len());
                        let cn = c[k + 1];
                        assert(cn == (n.spec_offset(), n.spec_header()));
                    }
                    let t = match n.text() {
                        Ok(t) => t,
                        Err(_) => {
                            self.finished = true;
                            proof {
                                assert(chain_lines(v.data, c, k + 1) =~= seq![]);
                            }
                            return None;
                        },
                    };
                    self.block = Some(n);
                    self.text = Some(t);
                    self.newline_pos = 0;
                    self.index = Ghost(k + 1);
                    proof {
                        encode_utf8_valid_utf8(t@);
                        is_char_boundary_start_end_of_seq(encode_utf8(t@));
                    }
                },
                _ => {
                    self.finished = true;
                    proof {
                        lemma_chain_from(v.data, v.file_version, v.file_offset as int);
                        let ck = c[self.index@];
                        assert(successor(v.data, v.file_version, ck.0, ck.1) is None);
                        assert(self.index@ + 1 >= c.len());
                        assert(chain_lines(v.data, c, self.index@ + 1) =~= seq![]);
                    }
                    return None;
                },
            }
        }
    }
}

/// The verse walk of a chapter, each verse paired with its number counted from 1.
pub struct EnumeratedVerses {
    pub inner: BARChapterIterator,
    pub count: usize,
}

impl EnumeratedVerses {
    /// The next verse and its number; none once the verses are done.
    pub fn next(&mut self) -> (r: Option<(usize, RcSubstring)>)
        requires
            old(self).inner.wf(),
            old(self).count < usize::MAX,
        ensures
            final(self).inner.wf(),
            old(self).inner.remaining().len() == 0 ==> r is None,
            old(self).inner.remaining().len() > 0 ==> (r matches Some((i, v)) && i == old(self).count
                + 1 && v.view() == decode_utf8(old(self).inner.remaining()[0])
                && final(self).inner.remaining() == old(self).inner.remaining().drop_first()
                && final(self).count == i),
    {
        match self.inner.next() {
            None => None,
            Some(v) => {
                self.count = self.count + 1;
                Some((self.count, v))
            },
        }
    }
}

} // verus!
