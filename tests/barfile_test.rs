use biblearchive::barbook::barchapter::compress::{gzip, lzo, zlib};
use biblearchive::books::{book_abbrev, book_name, parse_abbrev};
use biblearchive::error::{BARFileError, ErrorKind};
use biblearchive::BARFile;

const CYRUS: &str = "And Daniel continued even unto the first year of king Cyrus.";
const IMAGE: &str = "So God created man in his own image, in the image of God created he him; male and female created he them.";
const GIFTS: &str = "And he gave some, apostles; and some, prophets; and some, evangelists; and some, pastors and teachers;";

/// Lines `start..=end` of a chapter; verse 0 is the heading, the last verse may
/// go without a newline.
fn lines(book: &str, start: u8, end: u8, last_terminated: bool, special: &[(u8, &str)]) -> String {
    let mut s = String::new();
    for v in start..=end {
        let line = match special.iter().find(|(n, _)| *n == v) {
            Some((_, t)) => t.to_string(),
            None if v == 0 => format!("{} heading", book),
            None => format!("{} verse {}.", book, v),
        };
        s.push_str(&line);
        if v != end || last_terminated {
            s.push('\n');
        }
    }
    s
}

fn block_v2(chapter: u8, start: u8, end: u8, alg: u8, payload: &[u8]) -> Vec<u8> {
    let mut v = vec![chapter, start, end, alg];
    v.extend_from_slice(&(payload.len() as u32).to_le_bytes());
    v.extend_from_slice(payload);
    v
}

fn book_entry(book: u8, chapters: u8, slots: &[(u8, u32)]) -> Vec<u8> {
    let mut v = vec![book, chapters];
    for c in 1..=chapters {
        let off = slots.iter().find(|(n, _)| *n == c).map(|(_, o)| *o).unwrap_or(0);
        v.extend_from_slice(&off.to_le_bytes());
    }
    v
}

fn daniel_1() -> (String, String) {
    (lines("Daniel", 0, 10, true, &[]), lines("Daniel", 11, 21, false, &[(21, CYRUS)]))
}

fn ephesians_4() -> String {
    lines("Ephesians", 0, 32, false, &[(11, GIFTS)])
}

fn genesis_1() -> (String, String, String) {
    (
        lines("Genesis", 0, 10, true, &[]),
        lines("Genesis", 11, 20, true, &[]),
        lines("Genesis", 21, 31, false, &[(27, IMAGE)]),
    )
}

/// An archive of Daniel 1, Ephesians 4 and Genesis 1, listed in that storage
/// order, with blocks in every algorithm.
fn sample_archive() -> Vec<u8> {
    let mut out = b"BAR".to_vec();
    out.extend_from_slice(&[2, 1, 66]);
    out.extend_from_slice(b"KJV\0\0\0\0\0\0\0");
    let index_start = out.len();
    out.resize(index_start + 66 * 5, 0);
    let daniel_at = out.len() as u32;
    let genesis_at = daniel_at + 2 + 12 * 4;
    let ephesians_at = genesis_at + 2 + 50 * 4;
    let chapters_at = ephesians_at + 2 + 6 * 4;

    let (d1, d2) = daniel_1();
    let mut daniel = block_v2(1, 0, 10, 1, &lzo::compress(d1.as_bytes()).unwrap());
    daniel.extend(block_v2(1, 11, 21, 2, &zlib::compress(d2.as_bytes()).unwrap()));
    let e = ephesians_4();
    let ephesians = block_v2(4, 0, 32, 2, &zlib::compress(e.as_bytes()).unwrap());
    let (g1, g2, g3) = genesis_1();
    let mut genesis = block_v2(1, 0, 10, 3, &gzip::compress(g1.as_bytes()).unwrap());
    genesis.extend(block_v2(1, 11, 20, 0, g2.as_bytes()));
    genesis.extend(block_v2(1, 21, 31, 1, &lzo::compress(g3.as_bytes()).unwrap()));

    let daniel_ch = chapters_at;
    let ephesians_ch = daniel_ch + daniel.len() as u32;
    let genesis_ch = ephesians_ch + ephesians.len() as u32;

    out.extend(book_entry(27, 12, &[(1, daniel_ch - daniel_at)]));
    out.extend(book_entry(1, 50, &[(1, genesis_ch - genesis_at)]));
    out.extend(book_entry(49, 6, &[(4, ephesians_ch - ephesians_at)]));
    out.extend(daniel);
    out.extend(ephesians);
    out.extend(genesis);

    for (slot, (book, at)) in [(27u8, daniel_at), (1, genesis_at), (49, ephesians_at)].iter().enumerate() {
        let p = index_start + slot * 5;
        out[p] = *book;
        out[p + 1..p + 5].copy_from_slice(&at.to_le_bytes());
    }
    out
}

fn open_sample() -> BARFile {
    BARFile::open(sample_archive()).expect("sample archive opens")
}

#[test]
fn test_barfile() {
    let bar = open_sample();
    assert_eq!(bar.archive_version().0, 2);
    assert_eq!(bar.archive_version().1, 1);
    assert_eq!(bar.archive_version().to_string(), "2.1".to_string());
    assert_eq!(bar.bible_version(), "KJV");
    assert_eq!(bar.number_of_books(), 3);
    assert_eq!(bar.book_capacity(), 66);
    let mut books = bar.books().into_iter();
    let book = books.next();
    assert!(book.is_some());
    assert_eq!(book.as_ref().unwrap().book_number(), 27u8);
    assert_eq!(book.as_ref().unwrap().book_abbrev(), "Da");
    assert_eq!(book.as_ref().unwrap().book_name(), "Daniel");
    assert_eq!(book.as_ref().unwrap().number_of_chapters(), 12);
    let chapt = book.as_ref().unwrap().chapter(1);
    assert!(chapt.is_some());
    assert_eq!(chapt.as_ref().unwrap().chapter_number(), 1);
    assert_eq!(
        chapt.as_ref().unwrap().book_number(),
        book.as_ref().unwrap().book_number()
    );
    let chapt = book.as_ref().unwrap().chapter(2);
    assert!(chapt.is_none());
    let book = books.next();
    assert!(book.is_some());
    assert_eq!(book.as_ref().unwrap().book_number(), 1u8);
    assert_eq!(book.as_ref().unwrap().book_abbrev(), "Ge");
    assert_eq!(book.as_ref().unwrap().book_name(), "Genesis");
    assert_eq!(book.as_ref().unwrap().number_of_chapters(), 50);
    let chapt = book.as_ref().unwrap().chapter(1);
    assert!(chapt.is_some());
    assert_eq!(chapt.as_ref().unwrap().chapter_number(), 1);
    assert_eq!(
        chapt.as_ref().unwrap().book_number(),
        book.as_ref().unwrap().book_number()
    );
    let chapt = book.as_ref().unwrap().chapter(2);
    assert!(chapt.is_none());
    let book = books.next();
    assert!(book.is_some());
    assert_eq!(book.as_ref().unwrap().book_number(), 49u8);
    assert_eq!(book.as_ref().unwrap().book_abbrev(), "Eph");
    assert_eq!(book.as_ref().unwrap().book_name(), "Ephesians");
    assert_eq!(book.as_ref().unwrap().number_of_chapters(), 6);
    let chapt = book.as_ref().unwrap().chapter(4);
    assert!(chapt.is_some());
    assert_eq!(chapt.as_ref().unwrap().chapter_number(), 4);
    assert_eq!(
        chapt.as_ref().unwrap().book_number(),
        book.as_ref().unwrap().book_number()
    );
    let chapt = book.as_ref().unwrap().chapter(5);
    assert!(chapt.is_none());
    let book = books.next();
    assert!(book.is_none());
    assert_eq!(
        bar.book(1).expect("Failed to get book 1").book_abbrev(),
        "Ge"
    );
    assert_eq!(
        bar.book(27).expect("Failed to get book 27").book_abbrev(),
        "Da"
    );
    assert_eq!(
        bar.book(49).expect("Failed to get book 49").book_abbrev(),
        "Eph"
    );
    assert!(bar.book(2).is_none());
}

#[test]
fn test_iterators() {
    let mut output: Vec<String> = Vec::new();
    let bar = open_sample();
    for book in bar.books() {
        output.push(book.book_name().to_string());
        output.push(format!("Chapters: {}", book.number_of_chapters()));
        let mut chapters = book.chapters();
        while let Some(chapter) = chapters.next() {
            if chapter.is_some() {
                output.push(format!("- Chapter {}", chapter.unwrap().chapter_number()));
            }
            let mut count = 0;
            let mut all = book.chapters();
            while all.next().is_some() {
                count += 1;
            }
            assert_eq!(count, book.number_of_chapters() as usize);
        }
    }
    assert_eq!(
        output,
        vec!(
            "Daniel",
            "Chapters: 12",
            "- Chapter 1",
            "Genesis",
            "Chapters: 50",
            "- Chapter 1",
            "Ephesians",
            "Chapters: 6",
            "- Chapter 4"
        )
    );
}

#[test]
fn test_into_iterator() {
    let mut bar = open_sample();
    let mut count = 0;
    while let Some(_book) = bar.next() {
        count += 1;
    }
    assert_eq!(count, 3);
    assert!(bar.next().is_none());
}

#[test]
fn test_books_in_order() {
    let bar = open_sample();
    let books = bar.books_in_order();
    let mut it = books.iter();
    assert_eq!(it.next().unwrap().book_abbrev(), "Ge");
    assert_eq!(it.next().unwrap().book_abbrev(), "Da");
    assert_eq!(it.next().unwrap().book_abbrev(), "Eph");
    assert!(it.next().is_none());
}

#[test]
fn chapter_numbers_out_of_range() {
    let bar = open_sample();
    let ge = bar.book(1).unwrap();
    assert!(ge.chapter(0).is_none());
    assert!(ge.chapter(51).is_none());
    let eph = bar.book(49).unwrap();
    assert!(eph.chapter(7).is_none());
}

#[test]
fn chapter_slots_walk() {
    let bar = open_sample();
    let eph = bar.book(49).unwrap();
    let mut it = eph.chapters();
    let mut present = Vec::new();
    let mut slots = 0;
    while let Some(chapter) = it.next() {
        slots += 1;
        if let Some(c) = chapter {
            present.push(c.chapter_number());
        }
    }
    assert_eq!(slots, 6);
    assert_eq!(present, vec![4]);
}

#[test]
fn test_verses() {
    let bar = open_sample();
    let ge = bar.book_from_abbrev("Ge").unwrap();
    let mut chapt1 = ge.chapter(1).unwrap();
    let verse = chapt1.verse_text(27).unwrap();
    assert_eq!(verse, IMAGE);

    let da = bar.book_from_abbrev("Da").unwrap();
    let mut chapt1 = da.chapter(1).unwrap();
    let verse = chapt1.verse_text(21).unwrap();
    assert_eq!(verse, CYRUS);

    let eph = bar.book_from_abbrev("Eph").unwrap();
    let mut chapt4 = eph.chapter(4).unwrap();
    let verse = chapt4.verse_text(11).unwrap();
    assert_eq!(verse, GIFTS);

    let verse = chapt4.verse_text(33);
    assert!(verse.is_err());
    assert!(matches!(verse, Err(BARFileError::ReferenceError(_))));
}

#[test]
fn verse_lookup_moves_back_and_forth() {
    let bar = open_sample();
    let mut ge1 = bar.book(1).unwrap().chapter(1).unwrap();
    assert_eq!(ge1.verse_text(30).unwrap(), "Genesis verse 30.");
    assert_eq!(ge1.verse_text(2).unwrap(), "Genesis verse 2.");
    assert_eq!(ge1.verse_text(15).unwrap(), "Genesis verse 15.");
    assert_eq!(ge1.verse_text(0).unwrap(), "Genesis heading");
    assert!(matches!(ge1.verse_text(32), Err(BARFileError::ReferenceError(_))));
    assert_eq!(ge1.verse_text(1).unwrap(), "Genesis verse 1.");
}

#[test]
fn chapter_text_joins_block_texts() {
    let bar = open_sample();
    let (g1, g2, g3) = genesis_1();
    let mut ge1 = bar.book(1).unwrap().chapter(1).unwrap();
    assert_eq!(*ge1.chapter_text().unwrap(), format!("{}{}{}", g1, g2, g3));
    let (d1, d2) = daniel_1();
    let mut da1 = bar.book(27).unwrap().chapter(1).unwrap();
    da1.verse_text(15).unwrap();
    assert_eq!(*da1.chapter_text().unwrap(), format!("{}{}", d1, d2));
    let mut eph4 = bar.book(49).unwrap().chapter(4).unwrap();
    assert_eq!(*eph4.chapter_text().unwrap(), ephesians_4());
}

#[test]
fn test_number_of_verses() {
    let bar = open_sample();
    assert_eq!(bar.book(1).unwrap().chapter(1).unwrap().number_of_verses().unwrap(), 31);
    assert_eq!(bar.book(27).unwrap().chapter(1).unwrap().number_of_verses().unwrap(), 21);
    assert_eq!(bar.book(49).unwrap().chapter(4).unwrap().number_of_verses().unwrap(), 32);
}

#[test]
fn verse_walk_yields_terminated_lines() {
    let bar = open_sample();
    for (book, chapter) in [(1u8, 1u8), (27, 1), (49, 4)] {
        let mut c = bar.book(book).unwrap().chapter(chapter).unwrap();
        let mut it = c.verses();
        let mut walked: Vec<String> = Vec::new();
        while let Some(v) = it.next() {
            walked.push(v.to_string());
        }
        assert!(it.next().is_none());
        let n = c.number_of_verses().unwrap() as usize;
        assert_eq!(walked.len(), n);
        for (i, v) in walked.iter().enumerate() {
            assert_eq!(*v, c.verse_text(i as u32).unwrap());
        }
    }
}

#[test]
fn test_verse_iterator() {
    let bar = open_sample();
    let mut found = 0;
    for book in bar.books() {
        let mut chapters = book.chapters();
        while let Some(chapter) = chapters.next() {
            if let Some(chapter) = chapter {
                let mut verses = chapter.enumerated_verses();
                while let Some((i, verse)) = verses.next() {
                    if verse.contains("God") {
                        found += 1;
                        println!(
                            "{} {}:{} {}",
                            book.book_abbrev(),
                            chapter.chapter_number(),
                            i,
                            &*verse
                        )
                    }
                }
            }
        }
    }
    assert_eq!(found, 1);
}

#[test]
fn abbreviations_select_books() {
    let bar = open_sample();
    assert_eq!(bar.book_from_abbrev("Ge 1:1").unwrap().book_number(), 1);
    assert_eq!(bar.book_from_abbrev("Gen").unwrap().book_number(), 1);
    assert_eq!(bar.book_from_abbrev("Dan").unwrap().book_number(), 27);
    assert!(bar.book_from_abbrev("Geq").is_none());
    assert!(bar.book_from_abbrev("Ex").is_none());
    assert!(bar.book_from_abbrev("").is_none());
}

#[test]
fn every_canonical_abbreviation_parses() {
    for n in 1..=66u8 {
        let a = book_abbrev(n);
        assert_eq!(parse_abbrev(a), Some(n - 1), "{}", a);
        assert_eq!(parse_abbrev(&format!("{} ", a)), Some(n - 1));
        assert_eq!(parse_abbrev(&format!("{}q", a)), None);
    }
    assert_eq!(parse_abbrev("Num"), Some(3));
    assert_eq!(parse_abbrev("SoS 2"), Some(21));
    assert_eq!(parse_abbrev("Gal"), Some(47));
    assert_eq!(parse_abbrev("Genesis"), None);
}

#[test]
fn name_table_keeps_its_spellings() {
    assert_eq!(book_name(5), "Duteronomy");
    assert_eq!(book_name(21), "Eccesiastes");
    assert_eq!(book_name(66), "Revelation");
    assert_eq!(book_name(0), "Unknown");
    assert_eq!(book_name(67), "Unknown");
    assert_eq!(book_abbrev(0), "???");
    assert_eq!(book_abbrev(22), "SS");
}

#[test]
fn unknown_algorithm_and_truncated_payload() {
    let mut bytes = sample_archive();
    let total = bytes.len();
    let bar = open_sample();
    let eph = bar.book(49).unwrap();
    drop(eph);
    // Ephesians 4 is the block after Daniel's two: find its header by its text.
    let e = ephesians_4();
    let payload = zlib::compress(e.as_bytes()).unwrap();
    let pos = bytes
        .windows(payload.len())
        .position(|w| w == payload.as_slice())
        .unwrap();
    bytes[pos - 5] = 9;
    let bar = BARFile::open(bytes).unwrap();
    let mut eph4 = bar.book(49).unwrap().chapter(4).unwrap();
    let err = eph4.chapter_text().unwrap_err();
    assert_eq!(err.error_kind(), ErrorKind::CompressionError);
    assert!(err.message().starts_with("BARFile Error: Unknown compression error"));

    let cut = sample_archive()[..total - 10].to_vec();
    let bar = BARFile::open(cut).unwrap();
    let mut ge1 = bar.book(1).unwrap().chapter(1).unwrap();
    assert_eq!(ge1.verse_text(5).unwrap(), "Genesis verse 5.");
    let err = ge1.verse_text(27).unwrap_err();
    assert_eq!(err.error_kind(), ErrorKind::IOError);
}

#[test]
fn version_one_blocks_are_lzo() {
    let text = "Heading\nIn the beginning.\nAnd the earth.";
    let frame = lzo::compress(text.as_bytes()).unwrap();
    let mut out = b"BAR".to_vec();
    out.extend_from_slice(&[1, 0, 1]);
    out.extend_from_slice(b"NIV\0\0\0\0\0\0\0");
    let book_at = 16 + 5u32;
    out.push(1);
    out.extend_from_slice(&book_at.to_le_bytes());
    out.extend_from_slice(&[1, 1]);
    out.extend_from_slice(&6u32.to_le_bytes());
    out.extend_from_slice(&[1, 0, 2]);
    out.extend_from_slice(&(frame.len() as u32).to_le_bytes());
    out.extend_from_slice(&frame);
    let bar = BARFile::open(out).unwrap();
    let mut c = bar.book(1).unwrap().chapter(1).unwrap();
    assert_eq!(c.verse_text(2).unwrap(), "And the earth.");
    assert_eq!(*c.chapter_text().unwrap(), text);
    assert_eq!(c.number_of_verses().unwrap(), 2);
}

#[test]
fn book_with_wrong_number_is_not_found() {
    let mut bytes = sample_archive();
    let daniel_at = 16 + 66 * 5;
    bytes[daniel_at] = 28;
    let bar = BARFile::open(bytes).unwrap();
    assert!(bar.book(27).is_none());
    assert_eq!(bar.books().len(), 0);
    assert_eq!(bar.books_in_order().len(), 2);
}
