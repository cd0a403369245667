use vstd::prelude::*;

verus! {

/// `h` holds the word `a b` followed by the end of the input or a space; `len` is
/// the input's length and `h` its first characters.
pub open spec fn spec_word2(h: Seq<char>, len: int, a: char, b: char) -> bool {
    len >= 2 && h[0] == a && h[1] == b && (len == 2 || h[2] == ' ')
}

pub open spec fn spec_word3(h: Seq<char>, len: int, a: char, b: char, c: char) -> bool {
    len >= 3 && h[0] == a && h[1] == b && h[2] == c && (len == 3 || h[3] == ' ')
}

pub open spec fn spec_word4(h: Seq<char>, len: int, a: char, b: char, c: char, d: char) -> bool {
    len >= 4 && h[0] == a && h[1] == b && h[2] == c && h[3] == d && (len == 4 || h[4] == ' ')
}

fn word2(h: &Vec<char>, len: usize, a: char, b: char) -> (r: bool)
    requires
        h@.len() == if len < 5 { len as int } else { 5 },
    ensures
        r == spec_word2(h@, len as int, a, b),
{
    len >= 2 && h[0] == a && h[1] == b && (len == 2 || h[2] == ' ')
}

fn word3(h: &Vec<char>, len: usize, a: char, b: char, c: char) -> (r: bool)
    requires
        h@.len() == if len < 5 { len as int } else { 5 },
    ensures
        r == spec_word3(h@, len as int, a, b, c),
{
    len >= 3 && h[0] == a && h[1] == b && h[2] == c && (len == 3 || h[3] == ' ')
}

fn word4(h: &Vec<char>, len: usize, a: char, b: char, c: char, d: char) -> (r: bool)
    requires
        h@.len() == if len < 5 { len as int } else { 5 },
    ensures
        r == spec_word4(h@, len as int, a, b, c, d),
{
    len >= 4 && h[0] == a && h[1] == b && h[2] == c && h[3] == d && (len == 4 || h[4] == ' ')
}

/// The first characters of `s`: five, or all where there are fewer.
pub open spec fn head(s: Seq<char>) -> Seq<char> {
    if s.len() < 5 {
        s
    } else {
        s.subrange(0, 5)
    }
}

/// The index (0 for Genesis to 65 for Revelation) of the book whose abbreviation
/// opens the input, where `h` is the input's head and `len` its length: a
/// canonical abbreviation, or one of `Gen`, `Num`, `Dan` and `SoS`, followed by the
/// end of the input or a space.
pub open spec fn abbrev_index(h: Seq<char>, len: int) -> Option<u8> {
    if spec_word2(h, len, 'G', 'e') || spec_word3(h, len, 'G', 'e', 'n') {
        Some(0u8)
    } else if spec_word2(h, len, 'E', 'x') {
        Some(1u8)
    } else if spec_word3(h, len, 'L', 'e', 'v') {
        Some(2u8)
    } else if spec_word2(h, len, 'N', 'u') || spec_word3(h, len, 'N', 'u', 'm') {
        Some(3u8)
    } else if spec_word2(h, len, 'D', 't') {
        Some(4u8)
    } else if spec_word3(h, len, 'J', 'o', 's') {
        Some(5u8)
    } else if spec_word3(h, len, 'J', 'd', 'g') {
        Some(6u8)
    } else if spec_word2(h, len, 'R', 'u') {
        Some(7u8)
    } else if spec_word3(h, len, '1', 'S', 'a') {
        Some(8u8)
    } else if spec_word3(h, len, '2', 'S', 'a') {
        Some(9u8)
    } else if spec_word3(h, len, '1', 'K', 'i') {
        Some(10u8)
    } else if spec_word3(h, len, '2', 'K', 'i') {
        Some(11u8)
    } else if spec_word3(h, len, '1', 'C', 'h') {
        Some(12u8)
    } else if spec_word3(h, len, '2', 'C', 'h') {
        Some(13u8)
    } else if spec_word3(h, len, 'E', 'z', 'r') {
        Some(14u8)
    } else if spec_word2(h, len, 'N', 'e') {
        Some(15u8)
    } else if spec_word3(h, len, 'E', 's', 't') {
        Some(16u8)
    } else if spec_word3(h, len, 'J', 'o', 'b') {
        Some(17u8)
    } else if spec_word2(h, len, 'P', 's') {
        Some(18u8)
    } else if spec_word2(h, len, 'P', 'r') {
        Some(19u8)
    } else if spec_word3(h, len, 'E', 'c', 'c') {
        Some(20u8)
    } else if spec_word2(h, len, 'S', 'S') || spec_word3(h, len, 'S', 'o', 'S') {
        Some(21u8)
    } else if spec_word3(h, len, 'I', 's', 'a') {
        Some(22u8)
    } else if spec_word3(h, len, 'J', 'e', 'r') {
        Some(23u8)
    } else if spec_word2(h, len, 'L', 'a') {
        Some(24u8)
    } else if spec_word3(h, len, 'E', 'z', 'e') {
        Some(25u8)
    } else if spec_word2(h, len, 'D', 'a') || spec_word3(h, len, 'D', 'a', 'n') {
        Some(26u8)
    } else if spec_word3(h, len, 'H', 'o', 's') {
        Some(27u8)
    } else if spec_word4(h, len, 'J', 'o', 'e', 'l') {
        Some(28u8)
    } else if spec_word2(h, len, 'A', 'm') {
        Some(29u8)
    } else if spec_word2(h, len, 'O', 'b') {
        Some(30u8)
    } else if spec_word3(h, len, 'J', 'n', 'h') {
        Some(31u8)
    } else if spec_word3(h, len, 'M', 'i', 'c') {
        Some(32u8)
    } else if spec_word2(h, len, 'N', 'a') {
        Some(33u8)
    } else if spec_word3(h, len, 'H', 'a', 'b') {
        Some(34u8)
    } else if spec_word3(h, len, 'Z', 'e', 'p') {
        Some(35u8)
    } else if spec_word3(h, len, 'H', 'a', 'g') {
        Some(36u8)
    } else if spec_word3(h, len, 'Z', 'e', 'c') {
        Some(37u8)
    } else if spec_word3(h, len, 'M', 'a', 'l') {
        Some(38u8)
    } else if spec_word2(h, len, 'M', 't') {
        Some(39u8)
    } else if spec_word2(h, len, 'M', 'k') {
        Some(40u8)
    } else if spec_word2(h, len, 'L', 'k') {
        Some(41u8)
    } else if spec_word2(h, len, 'J', 'n') {
        Some(42u8)
    } else if spec_word2(h, len, 'A', 'c') {
        Some(43u8)
    } else if spec_word2(h, len, 'R', 'o') {
        Some(44u8)
    } else if spec_word3(h, len, '1', 'C', 'o') {
        Some(45u8)
    } else if spec_word3(h, len, '2', 'C', 'o') {
        Some(46u8)
    } else if spec_word3(h, len, 'G', 'a', 'l') {
        Some(47u8)
    } else if spec_word3(h, len, 'E', 'p', 'h') {
        Some(48u8)
    } else if spec_word3(h, len, 'P', 'h', 'p') {
        Some(49u8)
    } else if spec_word3(h, len, 'C', 'o', 'l') {
        Some(50u8)
    } else if spec_word3(h, len, '1', 'T', 'h') {
        Some(51u8)
    } else if spec_word3(h, len, '2', 'T', 'h') {
        Some(52u8)
    } else if spec_word3(h, len, '1', 'T', 'i') {
        Some(53u8)
    } else if spec_word3(h, len, '2', 'T', 'i') {
        Some(54u8)
    } else if spec_word3(h, len, 'T', 'i', 't') {
        Some(55u8)
    } else if spec_word3(h, len, 'P', 'h', 'm') {
        Some(56u8)
    } else if spec_word3(h, len, 'H', 'e', 'b') {
        Some(57u8)
    } else if spec_word3(h, len, 'J', 'a', 's') {
        Some(58u8)
    } else if spec_word3(h, len, '1', 'P', 'e') {
        Some(59u8)
    } else if spec_word3(h, len, '2', 'P', 'e') {
        Some(60u8)
    } else if spec_word3(h, len, '1', 'J', 'n') {
        Some(61u8)
    } else if spec_word3(h, len, '2', 'J', 'n') {
        Some(62u8)
    } else if spec_word3(h, len, '3', 'J', 'n') {
        Some(63u8)
    } else if spec_word4(h, len, 'J', 'u', 'd', 'e') {
        Some(64u8)
    } else if spec_word3(h, len, 'R', 'e', 'v') {
        Some(65u8)
    } else {
        None
    }
}

/// The book index that the abbreviation at the start of `s` names.
pub open spec fn spec_parse_abbrev(s: Seq<char>) -> Option<u8> {
    abbrev_index(head(s), s.len() as int)
}

/// Reads a book abbreviation, such as `"Eph"` or `"Ge 1"`: the index (0 to 65) of
/// the book it names, or none.
pub fn parse_abbrev(s: &str) -> (r: Option<u8>)
    ensures
        r == spec_parse_abbrev(s@),
{
    let len = s.unicode_len();
    let mut h: Vec<char> = Vec::new();
    let mut i: usize = 0;
    while i < len && i < 5
        invariant
            len == s@.len(),
            i <= 5,
            i <= len,
            h@ == s@.subrange(0, i as int),
        decreases 5 - i,
    {
        h.push(s.get_char(i));
        i = i + 1;
    }
    assert(h@ =~= head(s@));
    if word2(&h, len, 'G', 'e') || word3(&h, len, 'G', 'e', 'n') {
        return Some(0u8);
    }
    if word2(&h, len, 'E', 'x') {
        return Some(1u8);
    }
    if word3(&h, len, 'L', 'e', 'v') {
        return Some(2u8);
    }
    if word2(&h, len, 'N', 'u') || word3(&h, len, 'N', 'u', 'm') {
        return Some(3u8);
    }
    if word2(&h, len, 'D', 't') {
        return Some(4u8);
    }
    if word3(&h, len, 'J', 'o', 's') {
        return Some(5u8);
    }
    if word3(&h, len, 'J', 'd', 'g') {
        return Some(6u8);
    }
    if word2(&h, len, 'R', 'u') {
        return Some(7u8);
    }
    if word3(&h, len, '1', 'S', 'a') {
        return Some(8u8);
    }
    if word3(&h, len, '2', 'S', 'a') {
        return Some(9u8);
    }
    if word3(&h, len, '1', 'K', 'i') {
        return Some(10u8);
    }
    if word3(&h, len, '2', 'K', 'i') {
        return Some(11u8);
    }
    if word3(&h, len, '1', 'C', 'h') {
        return Some(12u8);
    }
    if word3(&h, len, '2', 'C', 'h') {
        return Some(13u8);
    }
    if word3(&h, len, 'E', 'z', 'r') {
        return Some(14u8);
    }
    if word2(&h, len, 'N', 'e') {
        return Some(15u8);
    }
    if word3(&h, len, 'E', 's', 't') {
        return Some(16u8);
    }
    if word3(&h, len, 'J', 'o', 'b') {
        return Some(17u8);
    }
    if word2(&h, len, 'P', 's') {
        return Some(18u8);
    }
    if word2(&h, len, 'P', 'r') {
        return Some(19u8);
    }
    if word3(&h, len, 'E', 'c', 'c') {
        return Some(20u8);
    }
    if word2(&h, len, 'S', 'S') || word3(&h, len, 'S', 'o', 'S') {
        return Some(21u8);
    }
    if word3(&h, len, 'I', 's', 'a') {
        return Some(22u8);
    }
    if word3(&h, len, 'J', 'e', 'r') {
        return Some(23u8);
    }
    if word2(&h, len, 'L', 'a') {
        return Some(24u8);
    }
    if word3(&h, len, 'E', 'z', 'e') {
        return Some(25u8);
    }
    if word2(&h, len, 'D', 'a') || word3(&h, len, 'D', 'a', 'n') {
        return Some(26u8);
    }
    if word3(&h, len, 'H', 'o', 's') {
        return Some(27u8);
    }
    if word4(&h, len, 'J', 'o', 'e', 'l') {
        return Some(28u8);
    }
    if word2(&h, len, 'A', 'm') {
        return Some(29u8);
    }
    if word2(&h, len, 'O', 'b') {
        return Some(30u8);
    }
    if word3(&h, len, 'J', 'n', 'h') {
        return Some(31u8);
    }
    if word3(&h, len, 'M', 'i', 'c') {
        return Some(32u8);
    }
    if word2(&h, len, 'N', 'a') {
        return Some(33u8);
    }
    if word3(&h, len, 'H', 'a', 'b') {
        return Some(34u8);
    }
    if word3(&h, len, 'Z', 'e', 'p') {
        return Some(35u8);
    }
    if word3(&h, len, 'H', 'a', 'g') {
        return Some(36u8);
    }
    if word3(&h, len, 'Z', 'e', 'c') {
        return Some(37u8);
    }
    if word3(&h, len, 'M', 'a', 'l') {
        return Some(38u8);
    }
    if word2(&h, len, 'M', 't') {
        return Some(39u8);
    }
    if word2(&h, len, 'M', 'k') {
        return Some(40u8);
    }
    if word2(&h, len, 'L', 'k') {
        return Some(41u8);
    }
    if word2(&h, len, 'J', 'n') {
        return Some(42u8);
    }
    if word2(&h, len, 'A', 'c') {
        return Some(43u8);
    }
    if word2(&h, len, 'R', 'o') {
        return Some(44u8);
    }
    if word3(&h, len, '1', 'C', 'o') {
        return Some(45u8);
    }
    if word3(&h, len, '2', 'C', 'o') {
        return Some(46u8);
    }
    if word3(&h, len, 'G', 'a', 'l') {
        return Some(47u8);
    }
    if word3(&h, len, 'E', 'p', 'h') {
        return Some(48u8);
    }
    if word3(&h, len, 'P', 'h', 'p') {
        return Some(49u8);
    }
    if word3(&h, len, 'C', 'o', 'l') {
        return Some(50u8);
    }
    if word3(&h, len, '1', 'T', 'h') {
        return Some(51u8);
    }
    if word3(&h, len, '2', 'T', 'h') {
        return Some(52u8);
    }
    if word3(&h, len, '1', 'T', 'i') {
        return Some(53u8);
    }
    if word3(&h, len, '2', 'T', 'i') {
        return Some(54u8);
    }
    if word3(&h, len, 'T', 'i', 't') {
        return Some(55u8);
    }
    if word3(&h, len, 'P', 'h', 'm') {
        return Some(56u8);
    }
    if word3(&h, len, 'H', 'e', 'b') {
        return Some(57u8);
    }
    if word3(&h, len, 'J', 'a', 's') {
        return Some(58u8);
    }
    if word3(&h, len, '1', 'P', 'e') {
        return Some(59u8);
    }
    if word3(&h, len, '2', 'P', 'e') {
        return Some(60u8);
    }
    if word3(&h, len, '1', 'J', 'n') {
        return Some(61u8);
    }
    if word3(&h, len, '2', 'J', 'n') {
        return Some(62u8);
    }
    if word3(&h, len, '3', 'J', 'n') {
        return Some(63u8);
    }
    if word4(&h, len, 'J', 'u', 'd', 'e') {
        return Some(64u8);
    }
    if word3(&h, len, 'R', 'e', 'v') {
        return Some(65u8);
    }
    None
}

/// The name of book `n` (1 to 66), spelled as archives store it; `"Unknown"`
/// out of range.
pub open spec fn spec_book_name(n: u8) -> Seq<char> {
    match n {
        1 => "Genesis"@,
        2 => "Exodus"@,
        3 => "Leviticus"@,
        4 => "Numbers"@,
        5 => "Duteronomy"@,
        6 => "Joshua"@,
        7 => "Judges"@,
        8 => "Ruth"@,
        9 => "1 Samuel"@,
        10 => "2 Samuel"@,
        11 => "1 Kings"@,
        12 => "2 Kings"@,
        13 => "1 Chronicles"@,
        14 => "2 Chronicles"@,
        15 => "Ezra"@,
        16 => "Nehemiah"@,
        17 => "Esther"@,
        18 => "Job"@,
        19 => "Psalms"@,
        20 => "Proverbs"@,
        21 => "Eccesiastes"@,
        22 => "Song of Songs"@,
        23 => "Isaiah"@,
        24 => "Jeremiah"@,
        25 => "Lamentations"@,
        26 => "Ezekiel"@,
        27 => "Daniel"@,
        28 => "Hosea"@,
        29 => "Joel"@,
        30 => "Amos"@,
        31 => "Obadiah"@,
        32 => "Jonah"@,
        33 => "Micah"@,
        34 => "Nahum"@,
        35 => "Habakkuk"@,
        36 => "Zephaniah"@,
        37 => "Haggai"@,
        38 => "Zechariah"@,
        39 => "Malachi"@,
        40 => "Matthew"@,
        41 => "Mark"@,
        42 => "Luke"@,
        43 => "John"@,
        44 => "Acts"@,
        45 => "Romans"@,
        46 => "1 Corinthians"@,
        47 => "2 Corinthians"@,
        48 => "Galatians"@,
        49 => "Ephesians"@,
        50 => "Philippians"@,
        51 => "Colossians"@,
        52 => "1 Thessalonians"@,
        53 => "2 Thessalonians"@,
        54 => "1 Timothy"@,
        55 => "2 Timothy"@,
        56 => "Titus"@,
        57 => "Philemon"@,
        58 => "Hebrews"@,
        59 => "James"@,
        60 => "1 Peter"@,
        61 => "2 Peter"@,
        62 => "1 John"@,
        63 => "2 John"@,
        64 => "3 John"@,
        65 => "Jude"@,
        66 => "Revelation"@,
        _ => "Unknown"@,
    }
}

/// The canonical abbreviation of book `n` (1 to 66); `"???"` out of range.
pub open spec fn spec_book_abbrev(n: u8) -> Seq<char> {
    match n {
        1 => "Ge"@,
        2 => "Ex"@,
        3 => "Lev"@,
        4 => "Nu"@,
        5 => "Dt"@,
        6 => "Jos"@,
        7 => "Jdg"@,
        8 => "Ru"@,
        9 => "1Sa"@,
        10 => "2Sa"@,
        11 => "1Ki"@,
        12 => "2Ki"@,
        13 => "1Ch"@,
        14 => "2Ch"@,
        15 => "Ezr"@,
        16 => "Ne"@,
        17 => "Est"@,
        18 => "Job"@,
        19 => "Ps"@,
        20 => "Pr"@,
        21 => "Ecc"@,
        22 => "SS"@,
        23 => "Isa"@,
        24 => "Jer"@,
        25 => "La"@,
        26 => "Eze"@,
        27 => "Da"@,
        28 => "Hos"@,
        29 => "Joel"@,
        30 => "Am"@,
        31 => "Ob"@,
        32 => "Jnh"@,
        33 => "Mic"@,
        34 => "Na"@,
        35 => "Hab"@,
        36 => "Zep"@,
        37 => "Hag"@,
        38 => "Zec"@,
        39 => "Mal"@,
        40 => "Mt"@,
        41 => "Mk"@,
        42 => "Lk"@,
        43 => "Jn"@,
        44 => "Ac"@,
        45 => "Ro"@,
        46 => "1Co"@,
        47 => "2Co"@,
        48 => "Gal"@,
        49 => "Eph"@,
        50 => "Php"@,
        51 => "Col"@,
        52 => "1Th"@,
        53 => "2Th"@,
        54 => "1Ti"@,
        55 => "2Ti"@,
        56 => "Tit"@,
        57 => "Phm"@,
        58 => "Heb"@,
        59 => "Jas"@,
        60 => "1Pe"@,
        61 => "2Pe"@,
        62 => "1Jn"@,
        63 => "2Jn"@,
        64 => "3Jn"@,
        65 => "Jude"@,
        66 => "Rev"@,
        _ => "???"@,
    }
}

/// The name of book `n` (1 to 66); `"Unknown"` out of range.
pub fn book_name(n: u8) -> (r: &'static str)
    ensures
        r@ == spec_book_name(n),
{
    match n {
        1 => "Genesis",
        2 => "Exodus",
        3 => "Leviticus",
        4 => "Numbers",
        5 => "Duteronomy",
        6 => "Joshua",
        7 => "Judges",
        8 => "Ruth",
        9 => "1 Samuel",
        10 => "2 Samuel",
        11 => "1 Kings",
        12 => "2 Kings",
        13 => "1 Chronicles",
        14 => "2 Chronicles",
        15 => "Ezra",
        16 => "Nehemiah",
        17 => "Esther",
        18 => "Job",
        19 => "Psalms",
        20 => "Proverbs",
        21 => "Eccesiastes",
        22 => "Song of Songs",
        23 => "Isaiah",
        24 => "Jeremiah",
        25 => "Lamentations",
        26 => "Ezekiel",
        27 => "Daniel",
        28 => "Hosea",
        29 => "Joel",
        30 => "Amos",
        31 => "Obadiah",
        32 => "Jonah",
        33 => "Micah",
        34 => "Nahum",
        35 => "Habakkuk",
        36 => "Zephaniah",
        37 => "Haggai",
        38 => "Zechariah",
        39 => "Malachi",
        40 => "Matthew",
        41 => "Mark",
        42 => "Luke",
        43 => "John",
        44 => "Acts",
        45 => "Romans",
        46 => "1 Corinthians",
        47 => "2 Corinthians",
        48 => "Galatians",
        49 => "Ephesians",
        50 => "Philippians",
        51 => "Colossians",
        52 => "1 Thessalonians",
        53 => "2 Thessalonians",
        54 => "1 Timothy",
        55 => "2 Timothy",
        56 => "Titus",
        57 => "Philemon",
        58 => "Hebrews",
        59 => "James",
        60 => "1 Peter",
        61 => "2 Peter",
        62 => "1 John",
        63 => "2 John",
        64 => "3 John",
        65 => "Jude",
        66 => "Revelation",
        _ => "Unknown",
    }
}

/// The canonical abbreviation of book `n` (1 to 66); `"???"` out of range.
pub fn book_abbrev(n: u8) -> (r: &'static str)
    ensures
        r@ == spec_book_abbrev(n),
{
    match n {
        1 => "Ge",
        2 => "Ex",
        3 => "Lev",
        4 => "Nu",
        5 => "Dt",
        6 => "Jos",
        7 => "Jdg",
        8 => "Ru",
        9 => "1Sa",
        10 => "2Sa",
        11 => "1Ki",
        12 => "2Ki",
        13 => "1Ch",
        14 => "2Ch",
        15 => "Ezr",
        16 => "Ne",
        17 => "Est",
        18 => "Job",
        19 => "Ps",
        20 => "Pr",
        21 => "Ecc",
        22 => "SS",
        23 => "Isa",
        24 => "Jer",
        25 => "La",
        26 => "Eze",
        27 => "Da",
        28 => "Hos",
        29 => "Joel",
        30 => "Am",
        31 => "Ob",
        32 => "Jnh",
        33 => "Mic",
        34 => "Na",
        35 => "Hab",
        36 => "Zep",
        37 => "Hag",
        38 => "Zec",
        39 => "Mal",
        40 => "Mt",
        41 => "Mk",
        42 => "Lk",
        43 => "Jn",
        44 => "Ac",
        45 => "Ro",
        46 => "1Co",
        47 => "2Co",
        48 => "Gal",
        49 => "Eph",
        50 => "Php",
        51 => "Col",
        52 => "1Th",
        53 => "2Th",
        54 => "1Ti",
        55 => "2Ti",
        56 => "Tit",
        57 => "Phm",
        58 => "Heb",
        59 => "Jas",
        60 => "1Pe",
        61 => "2Pe",
        62 => "1Jn",
        63 => "2Jn",
        64 => "3Jn",
        65 => "Jude",
        66 => "Rev",
        _ => "???",
    }
}

/// What the parser makes of word `w` alone, of `w` then a space, and of `w`
/// then the letter `q`, when `w` alone names book index `i`.
proof fn lemma_abbrev_word(w: Seq<char>, i: u8)
    requires
        2 <= w.len() <= 4,
        abbrev_index(w, w.len() as int) == Some(i),
        abbrev_index(w + seq!['q'], w.len() + 1int) is None,
    ensures
        spec_parse_abbrev(w) == Some(i),
        spec_parse_abbrev(w + seq![' ']) == Some(i),
        spec_parse_abbrev(w + seq!['q']) is None,
{
    assert(head(w) =~= w);
    let ws = w + seq![' '];
    let wq = w + seq!['q'];
    assert(head(ws) =~= ws);
    assert(head(wq) =~= wq);
    assert(ws[w.len() as int] == ' ');
    assert(wq[w.len() as int] == 'q');
    assert(forall|k: int| 0 <= k < w.len() ==> ws[k] == w[k] && wq[k] == w[k]);
}

/// Every canonical abbreviation reads as its own book, also when a space follows,
/// and reads as no book when a letter follows.
pub proof fn lemma_abbrev_parse(n: u8)
    requires
        1 <= n <= 66,
    ensures
        spec_parse_abbrev(spec_book_abbrev(n)) == Some((n - 1) as u8),
        spec_parse_abbrev(spec_book_abbrev(n) + seq![' ']) == Some((n - 1) as u8),
        spec_parse_abbrev(spec_book_abbrev(n) + seq!['q']) is None,
{
    match n {
        1 => {
            reveal_strlit("Ge");
            lemma_abbrev_word(spec_book_abbrev(n), (n - 1) as u8);
        },
        2 => {
            reveal_strlit("Ex");
            lemma_abbrev_word(spec_book_abbrev(n), (n - 1) as u8);
        },
        3 => {
            reveal_strlit("Lev");
            lemma_abbrev_word(spec_book_abbrev(n), (n - 1) as u8);
        },
        4 => {
            reveal_strlit("Nu");
            lemma_abbrev_word(spec_book_abbrev(n), (n - 1) as u8);
        },
        5 => {
            reveal_strlit("Dt");
            lemma_abbrev_word(spec_book_abbrev(n), (n - 1) as u8);
        },
        6 => {
            reveal_strlit("Jos");
            lemma_abbrev_word(spec_book_abbrev(n), (n - 1) as u8);
        },
        7 => {
            reveal_strlit("Jdg");
            lemma_abbrev_word(spec_book_abbrev(n), (n - 1) as u8);
        },
        8 => {
            reveal_strlit("Ru");
            lemma_abbrev_word(spec_book_abbrev(n), (n - 1) as u8);
        },
        9 => {
            reveal_strlit("1Sa");
            lemma_abbrev_word(spec_book_abbrev(n), (n - 1) as u8);
        },
        10 => {
            reveal_strlit("2Sa");
            lemma_abbrev_word(spec_book_abbrev(n), (n - 1) as u8);
        },
        11 => {
            reveal_strlit("1Ki");
            lemma_abbrev_word(spec_book_abbrev(n), (n - 1) as u8);
        },
        12 => {
            reveal_strlit("2Ki");
            lemma_abbrev_word(spec_book_abbrev(n), (n - 1) as u8);
        },
        13 => {
            reveal_strlit("1Ch");
            lemma_abbrev_word(spec_book_abbrev(n), (n - 1) as u8);
        },
        14 => {
            reveal_strlit("2Ch");
            lemma_abbrev_word(spec_book_abbrev(n), (n - 1) as u8);
        },
        15 => {
            reveal_strlit("Ezr");
            lemma_abbrev_word(spec_book_abbrev(n), (n - 1) as u8);
        },
        16 => {
            reveal_strlit("Ne");
            lemma_abbrev_word(spec_book_abbrev(n), (n - 1) as u8);
        },
        17 => {
            reveal_strlit("Est");
            lemma_abbrev_word(spec_book_abbrev(n), (n - 1) as u8);
        },
        18 => {
            reveal_strlit("Job");
            lemma_abbrev_word(spec_book_abbrev(n), (n - 1) as u8);
        },
        19 => {
            reveal_strlit("Ps");
            lemma_abbrev_word(spec_book_abbrev(n), (n - 1) as u8);
        },
        20 => {
            reveal_strlit("Pr");
            lemma_abbrev_word(spec_book_abbrev(n), (n - 1) as u8);
        },
        21 => {
            reveal_strlit("Ecc");
            lemma_abbrev_word(spec_book_abbrev(n), (n - 1) as u8);
        },
        22 => {
            reveal_strlit("SS");
            lemma_abbrev_word(spec_book_abbrev(n), (n - 1) as u8);
        },
        23 => {
            reveal_strlit("Isa");
            lemma_abbrev_word(spec_book_abbrev(n), (n - 1) as u8);
        },
        24 => {
            reveal_strlit("Jer");
            lemma_abbrev_word(spec_book_abbrev(n), (n - 1) as u8);
        },
        25 => {
            reveal_strlit("La");
            lemma_abbrev_word(spec_book_abbrev(n), (n - 1) as u8);
        },
        26 => {
            reveal_strlit("Eze");
            lemma_abbrev_word(spec_book_abbrev(n), (n - 1) as u8);
        },
        27 => {
            reveal_strlit("Da");
            lemma_abbrev_word(spec_book_abbrev(n), (n - 1) as u8);
        },
        28 => {
            reveal_strlit("Hos");
            lemma_abbrev_word(spec_book_abbrev(n), (n - 1) as u8);
        },
        29 => {
            reveal_strlit("Joel");
            lemma_abbrev_word(spec_book_abbrev(n), (n - 1) as u8);
        },
        30 => {
            reveal_strlit("Am");
            lemma_abbrev_word(spec_book_abbrev(n), (n - 1) as u8);
        },
        31 => {
            reveal_strlit("Ob");
            lemma_abbrev_word(spec_book_abbrev(n), (n - 1) as u8);
        },
        32 => {
            reveal_strlit("Jnh");
            lemma_abbrev_word(spec_book_abbrev(n), (n - 1) as u8);
        },
        33 => {
            reveal_strlit("Mic");
            lemma_abbrev_word(spec_book_abbrev(n), (n - 1) as u8);
        },
        34 => {
            reveal_strlit("Na");
            lemma_abbrev_word(spec_book_abbrev(n), (n - 1) as u8);
        },
        35 => {
            reveal_strlit("Hab");
            lemma_abbrev_word(spec_book_abbrev(n), (n - 1) as u8);
        },
        36 => {
            reveal_strlit("Zep");
            lemma_abbrev_word(spec_book_abbrev(n), (n - 1) as u8);
        },
        37 => {
            reveal_strlit("Hag");
            lemma_abbrev_word(spec_book_abbrev(n), (n - 1) as u8);
        },
        38 => {
            reveal_strlit("Zec");
            lemma_abbrev_word(spec_book_abbrev(n), (n - 1) as u8);
        },
        39 => {
            reveal_strlit("Mal");
            lemma_abbrev_word(spec_book_abbrev(n), (n - 1) as u8);
        },
        40 => {
            reveal_strlit("Mt");
            lemma_abbrev_word(spec_book_abbrev(n), (n - 1) as u8);
        },
        41 => {
            reveal_strlit("Mk");
            lemma_abbrev_word(spec_book_abbrev(n), (n - 1) as u8);
        },
        42 => {
            reveal_strlit("Lk");
            lemma_abbrev_word(spec_book_abbrev(n), (n - 1) as u8);
        },
        43 => {
            reveal_strlit("Jn");
            lemma_abbrev_word(spec_book_abbrev(n), (n - 1) as u8);
        },
        44 => {
            reveal_strlit("Ac");
            lemma_abbrev_word(spec_book_abbrev(n), (n - 1) as u8);
        },
        45 => {
            reveal_strlit("Ro");
            lemma_abbrev_word(spec_book_abbrev(n), (n - 1) as u8);
        },
        46 => {
            reveal_strlit("1Co");
            lemma_abbrev_word(spec_book_abbrev(n), (n - 1) as u8);
        },
        47 => {
            reveal_strlit("2Co");
            lemma_abbrev_word(spec_book_abbrev(n), (n - 1) as u8);
        },
        48 => {
            reveal_strlit("Gal");
            lemma_abbrev_word(spec_book_abbrev(n), (n - 1) as u8);
        },
        49 => {
            reveal_strlit("Eph");
            lemma_abbrev_word(spec_book_abbrev(n), (n - 1) as u8);
        },
        50 => {
            reveal_strlit("Php");
            lemma_abbrev_word(spec_book_abbrev(n), (n - 1) as u8);
        },
        51 => {
            reveal_strlit("Col");
            lemma_abbrev_word(spec_book_abbrev(n), (n - 1) as u8);
        },
        52 => {
            reveal_strlit("1Th");
            lemma_abbrev_word(spec_book_abbrev(n), (n - 1) as u8);
        },
        53 => {
            reveal_strlit("2Th");
            lemma_abbrev_word(spec_book_abbrev(n), (n - 1) as u8);
        },
        54 => {
            reveal_strlit("1Ti");
            lemma_abbrev_word(spec_book_abbrev(n), (n - 1) as u8);
        },
        55 => {
            reveal_strlit("2Ti");
            lemma_abbrev_word(spec_book_abbrev(n), (n - 1) as u8);
        },
        56 => {
            reveal_strlit("Tit");
            lemma_abbrev_word(spec_book_abbrev(n), (n - 1) as u8);
        },
        57 => {
            reveal_strlit("Phm");
            lemma_abbrev_word(spec_book_abbrev(n), (n - 1) as u8);
        },
        58 => {
            reveal_strlit("Heb");
            lemma_abbrev_word(spec_book_abbrev(n), (n - 1) as u8);
        },
        59 => {
            reveal_strlit("Jas");
            lemma_abbrev_word(spec_book_abbrev(n), (n - 1) as u8);
        },
        60 => {
            reveal_strlit("1Pe");
            lemma_abbrev_word(spec_book_abbrev(n), (n - 1) as u8);
        },
        61 => {
            reveal_strlit("2Pe");
            lemma_abbrev_word(spec_book_abbrev(n), (n - 1) as u8);
        },
        62 => {
            reveal_strlit("1Jn");
            lemma_abbrev_word(spec_book_abbrev(n), (n - 1) as u8);
        },
        63 => {
            reveal_strlit("2Jn");
            lemma_abbrev_word(spec_book_abbrev(n), (n - 1) as u8);
        },
        64 => {
            reveal_strlit("3Jn");
            lemma_abbrev_word(spec_book_abbrev(n), (n - 1) as u8);
        },
        65 => {
            reveal_strlit("Jude");
            lemma_abbrev_word(spec_book_abbrev(n), (n - 1) as u8);
        },
        66 => {
            reveal_strlit("Rev");
            lemma_abbrev_word(spec_book_abbrev(n), (n - 1) as u8);
        },
        _ => {},
    }
}

} // verus!
