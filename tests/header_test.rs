use biblearchive::barbook::BARChapterIndexEntry;
use biblearchive::binarystruct::BinaryStruct;
use biblearchive::{BARBookIndexEntry, BARFile, BARFileHeader};

const NIV_HEADER: &str = "4241520200425A4C4942000000000000";
const ESV_HEADER: &str = "42415202014245535600000000000000";
const NIV_V1_HEADER: &str = "4241520100424E495600000000000000";
const GREEK_HEADER: &str = "424152020142677265656B0000000000";

fn test_header(hex_header: &str, expected: (u8, u8, u8, &str)) {
    let bytes = hex::decode(hex_header).expect("Covert to bytes failed.");
    let header = BARFileHeader::from_bytes(&bytes);
    assert_eq!(header.major_version, expected.0);
    assert_eq!(header.minor_version, expected.1);
    assert_eq!(header.number_of_books, expected.2);
    assert_eq!(header.version_abbrev.as_str(), expected.3);
    let bytes_out = header.to_bytes();
    assert_eq!(hex_header, hex::encode_upper(&bytes_out));
}

#[test]
fn test_barfileheader() {
    test_header(NIV_HEADER, (2, 0, 66, "ZLIB"));
}

#[test]
fn test_esvheader() {
    test_header(ESV_HEADER, (2, 1, 66, "ESV"));
}

#[test]
fn test_niv_v1_header() {
    test_header(NIV_V1_HEADER, (1, 0, 66, "NIV"));
}

#[test]
fn test_greek_header() {
    test_header(GREEK_HEADER, (2, 1, 66, "greek"));
}

#[test]
fn test_read_from() {
    let bytes = hex::decode(NIV_HEADER).expect("Covert to bytes failed.");
    let header = BARFileHeader::read_from(&bytes, 0).expect("Failed to read from Cursor");
    assert_eq!(header.major_version, 2);
    assert_eq!(header.minor_version, 0);
    assert_eq!(header.number_of_books, 66);
    assert_eq!(header.version_abbrev.as_str(), "ZLIB");
}

#[test]
fn test_write_to() {
    let mut writer: Vec<u8> = Vec::new();
    let version_abbrev = String::from("ZLIB");
    let mut leader: [u8; 3] = [0; 3];
    leader.copy_from_slice("BAR".as_bytes());
    let header = BARFileHeader {
        leader,
        major_version: 2,
        minor_version: 0,
        number_of_books: 66,
        version_abbrev,
    };
    header.write_to(&mut writer);
    let size = writer.len();
    assert!(size == 16);
    let hex_output = hex::encode_upper(&writer);
    assert_eq!(NIV_HEADER, hex_output.as_str());
}

#[test]
fn test_create_in_memory() {
    let version_abbrev = String::from("NIV");
    let bar = BARFile::create(version_abbrev).unwrap();
    assert_eq!(bar.header.major_version, 2);
    assert_eq!(bar.header.minor_version, 2);
    assert_eq!(bar.header.number_of_books, 66);
    assert_eq!(bar.header.version_abbrev.as_str(), "NIV");
    assert_eq!(bar.archive_version().to_string().as_str(), "2.2");
    assert_eq!(bar.bible_version().as_str(), "NIV");
    assert_eq!(bar.book_index.len(), 66);
    assert_eq!(bar.number_of_books(), 0);
    assert_eq!(bar.book_capacity(), 66);
    for index in bar.book_index {
        assert!(matches!(index, BARBookIndexEntry::Empty));
    }
}

#[test]
fn test_read_from_memory() {
    let version_abbrev = String::from("NIV");
    let buf: Vec<u8> = {
        let bar = BARFile::create(version_abbrev).unwrap();
        bar.bytes().clone()
    };
    let bar = BARFile::open(buf).unwrap();
    assert_eq!(bar.header.major_version, 2);
    assert_eq!(bar.header.minor_version, 2);
    assert_eq!(bar.header.number_of_books, 66);
    assert_eq!(bar.header.version_abbrev.as_str(), "NIV");
    assert_eq!(bar.archive_version().to_string().as_str(), "2.2");
    assert_eq!(bar.bible_version().as_str(), "NIV");
    assert_eq!(bar.book_index.len(), 66);
    assert_eq!(bar.number_of_books(), 0);
    assert_eq!(bar.book_capacity(), 66);
    for index in bar.book_index {
        assert!(matches!(index, BARBookIndexEntry::Empty));
    }
}

#[test]
fn header_round_trips_through_bytes() {
    for hex_header in [NIV_HEADER, ESV_HEADER, NIV_V1_HEADER, GREEK_HEADER] {
        let bytes = hex::decode(hex_header).unwrap();
        let header = BARFileHeader::from_bytes(&bytes);
        let again = BARFileHeader::from_bytes(&header.to_bytes());
        assert_eq!(again.major_version, header.major_version);
        assert_eq!(again.minor_version, header.minor_version);
        assert_eq!(again.number_of_books, header.number_of_books);
        assert_eq!(again.version_abbrev, header.version_abbrev);
        assert_eq!(again.to_bytes(), bytes);
    }
}

#[test]
fn book_index_entry_round_trips() {
    let live = BARBookIndexEntry::Live { book_number: 49, file_offset: 0x0102_0304 };
    let bytes = live.to_bytes();
    assert_eq!(bytes, vec![49, 4, 3, 2, 1]);
    assert_eq!(BARBookIndexEntry::from_bytes(&bytes), live);
    let empty = BARBookIndexEntry::Empty;
    assert_eq!(empty.to_bytes(), vec![0, 0, 0, 0, 0]);
    assert_eq!(BARBookIndexEntry::from_bytes(&empty.to_bytes()), empty);
    assert_eq!(BARBookIndexEntry::from_bytes(&[0, 1, 0, 0, 0]), BARBookIndexEntry::Empty);
    assert_eq!(BARBookIndexEntry::from_bytes(&[5, 0, 0, 0, 0]), BARBookIndexEntry::Empty);
}

#[test]
fn create_refuses_long_abbreviation() {
    let r = BARFile::create(String::from("ELEVENBYTES"));
    assert!(matches!(r, Err(biblearchive::error::BARFileError::InvalidFileFormat(_))));
}

#[test]
fn open_refuses_future_major_version() {
    let mut bytes = BARFile::create(String::from("NIV")).unwrap().bytes().clone();
    bytes[3] = 3;
    let r = BARFile::open(bytes);
    assert!(matches!(r, Err(biblearchive::error::BARFileError::InvalidFileFormat(_))));
}

#[test]
fn open_refuses_bad_magic() {
    let mut bytes = BARFile::create(String::from("NIV")).unwrap().bytes().clone();
    bytes[0] = b'X';
    assert!(matches!(
        BARFile::open(bytes),
        Err(biblearchive::error::BARFileError::InvalidFileFormat(_))
    ));
    assert!(matches!(
        BARFile::open(b"BA".to_vec()),
        Err(biblearchive::error::BARFileError::InvalidFileFormat(_))
    ));
}

#[test]
fn open_refuses_empty_abbreviation_and_truncation() {
    let mut bytes = BARFile::create(String::from("NIV")).unwrap().bytes().clone();
    let truncated = bytes[..40].to_vec();
    assert!(matches!(
        BARFile::open(truncated),
        Err(biblearchive::error::BARFileError::InvalidFileFormat(_))
    ));
    for b in &mut bytes[6..16] {
        *b = 0;
    }
    assert!(matches!(
        BARFile::open(bytes),
        Err(biblearchive::error::BARFileError::InvalidFileFormat(_))
    ));
}

#[test]
fn chapter_index_entry_round_trips() {
    let live = BARChapterIndexEntry::Live { additional_offset: 0x0A0B_0C0D };
    let bytes = live.to_bytes();
    assert_eq!(bytes, vec![0x0D, 0x0C, 0x0B, 0x0A]);
    assert_eq!(BARChapterIndexEntry::from_bytes(&bytes), live);
    let empty = BARChapterIndexEntry::Empty;
    assert_eq!(empty.to_bytes(), vec![0, 0, 0, 0]);
    assert_eq!(BARChapterIndexEntry::from_bytes(&[0, 0, 0, 0]), empty);
}

#[test]
fn version_text_is_decimal() {
    use_version(biblearchive::BARVersion(10, 255), "10.255");
    use_version(biblearchive::BARVersion(0, 7), "0.7");
    use_version(biblearchive::BARVersion(2, 10), "2.10");
}

fn use_version(v: biblearchive::BARVersion, expected: &str) {
    assert_eq!(v.to_string(), expected);
}
