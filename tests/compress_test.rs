use biblearchive::barbook::barchapter::compress::{gzip, lzo, none, zlib};
use biblearchive::barbook::barchapter::CompressionAlgorithm;

const DATA : &str = "In the beginning God created the heaven and the earth.
And the earth was without form, and void; and darkness was upon the face of the deep. And the Spirit of God moved upon the face of the waters.
And God said, Let there be light: and there was light.
And God saw the light, that it was good: and God divided the light from the darkness.
And God called the light Day, and the darkness he called Night. And the evening and the morning were the first day";

const LZO_DATA: &str = "F1000001C52D496E2074686520626567696E6E696E6720476F6420637265617\
465648503680A0276650209616EBB016561720B012E0A412A38000F2077617320776974686F757420666F726\
D2C980502766F69643B8501640409016B6E65735004430575706FAF0E66616302016F668C0103646565702E2\
0F40A035370697269746C0376116D6F01206434D900775A147273B8116A057361081C022C204C65747503727\
81A04206C696768743AFC174C026C1090022AD90077980999022C49016100105C0F6605676F0C07B407630564\
69760018C0239005022066726F6DA418CC1C2854010163616C6C2BAF00446179A4232ABC00402CE5054E94122\
71504655C2E6432E5066D04569D017774188521690D3E74410979110000";

const ZLIB_DATA: &str = "789C6D51414EC4300CBCF30A3FA0DA07C009090921212EBCC0346E6BD1C695E36\
DB4BF2771DAB248DCEC783C9E99BC45B089E08B468E91E308AF12A05742A3E0938970A308185B4BA8365D1E9EE\
F5BC89820B34D7235184497CEE19B7078F22AA07E474AC981D755DACD017B0219BC0E44EB050ED6CF9595ADCEA\
A9A45B6A2E5DFB55C646A6A722A3421870EDEC9EA54AB2D98799CECF1D0AFE41AFCF17E2D3B9D3F77A5448372B\
F224791D0B62B30F0C6610FC6C130A82CCDC1EEF197B5C779FE837DC15B7706796652EA1DF9E1AACE14A8E45E7\
FE4D85844BDCFD58527C19AAC10DD7E0067919D53";

const GZIP_DATA: &str = "1F8B08000000000000FF6D51414EC4300CBCF30A3FA0DA07C009090921212EBC\
C0346E6BD1C695E36DB4BF2771DAB248DCEC783C9E99BC45B089E08B468E91E308AF12A05742A3E0938970A30\
8185B4BA8365D1E9EEF5BC89820B34D7235184497CEE19B7078F22AA07E474AC981D755DACD017B0219BC0E44\
EB050ED6CF9595ADCEAA9A45B6A2E5DFB55C646A6A722A3421870EDEC9EA54AB2D98799CECF1D0AFE41AFCF17\
E2D3B9D3F77A5448372BF224791D0B62B30F0C6610FC6C130A82CCDC1EEF197B5C779FE837DC15B7706796652\
EA1DF9E1AACE14A8E45E7FE4D85844BDCFD58527C19AAC10DD7E0057BE1A7DC5010000";

#[test]
fn test_lzo_compression() {
    let compressed = lzo::compress(&DATA.to_string().into_bytes()).unwrap();
    let hex_string = hex::encode_upper(compressed);
    assert_eq!(hex_string.as_str(), LZO_DATA);
}

#[test]
fn test_lzo_decompression() {
    let data = hex::decode(LZO_DATA).unwrap();
    let decompressed = lzo::decompress(&data).unwrap();
    assert_eq!(decompressed, DATA);
}

#[test]
fn test_zlib_compression() {
    let compressed = zlib::compress(&DATA.to_string().into_bytes()).unwrap();
    let hex_string = hex::encode_upper(compressed);
    assert_eq!(hex_string.as_str(), ZLIB_DATA);
}

#[test]
fn test_zlib_decompression() {
    let data = hex::decode(ZLIB_DATA).unwrap();
    let decompressed = zlib::decompress(&data).unwrap();
    assert_eq!(decompressed, DATA);
}

#[test]
fn test_gzip_compression() {
    let compressed = gzip::compress(&DATA.to_string().into_bytes()).unwrap();
    let hex_string = hex::encode_upper(compressed);
    assert_eq!(hex_string.as_str(), GZIP_DATA);
}

#[test]
fn test_zip_decompression() {
    let data = hex::decode(GZIP_DATA).unwrap();
    let decompressed = gzip::decompress(&data).unwrap();
    assert_eq!(decompressed, DATA);
}

#[test]
fn stored_text_reads_back() {
    assert_eq!(none::decompress(DATA.as_bytes()).unwrap(), DATA);
    let err = none::decompress(&[0xff, 0xfe]).unwrap_err();
    assert_eq!(err.0, CompressionAlgorithm::Unknown);
}

#[test]
fn every_algorithm_round_trips() {
    for text in [DATA, "x", "Ἐν ἀρχῇ ἦν ὁ λόγος\n"] {
        let bytes = text.as_bytes();
        assert_eq!(lzo::decompress(&lzo::compress(bytes).unwrap()).unwrap(), text);
        assert_eq!(zlib::decompress(&zlib::compress(bytes).unwrap()).unwrap(), text);
        assert_eq!(gzip::decompress(&gzip::compress(bytes).unwrap()).unwrap(), text);
        assert_eq!(none::decompress(bytes).unwrap(), text);
    }
}

#[test]
fn lzo_frame_announces_the_length_big_endian() {
    let frame = lzo::compress(b"abc").unwrap();
    assert_eq!(&frame[..5], &[0xF1, 0, 0, 0, 3]);
}

#[test]
fn lzo_frame_with_size_zero_or_too_large_is_refused() {
    let mut frame = lzo::compress(DATA.as_bytes()).unwrap();
    frame[1..5].copy_from_slice(&[0, 0, 0, 0]);
    let err = lzo::decompress(&frame).unwrap_err();
    assert_eq!(err.0, CompressionAlgorithm::Lzo);
    frame[1..5].copy_from_slice(&(100 * 1024 + 1u32).to_be_bytes());
    let err = lzo::decompress(&frame).unwrap_err();
    assert_eq!(err.0, CompressionAlgorithm::Lzo);
}

#[test]
fn lzo_frame_with_wrong_size_or_first_byte_is_refused() {
    let mut frame = lzo::compress(DATA.as_bytes()).unwrap();
    frame[4] = frame[4].wrapping_add(1);
    assert_eq!(lzo::decompress(&frame).unwrap_err().0, CompressionAlgorithm::Lzo);
    let mut frame = lzo::compress(DATA.as_bytes()).unwrap();
    frame[0] = 0;
    assert_eq!(lzo::decompress(&frame).unwrap_err().0, CompressionAlgorithm::Lzo);
    assert_eq!(lzo::decompress(&[0xF1, 0]).unwrap_err().0, CompressionAlgorithm::Lzo);
}

#[test]
fn corrupt_deflate_streams_are_refused() {
    assert_eq!(zlib::decompress(b"not zlib").unwrap_err().0, CompressionAlgorithm::ZLib);
    assert_eq!(gzip::decompress(b"not gzip").unwrap_err().0, CompressionAlgorithm::GZip);
}

#[test]
fn algorithm_bytes_and_names() {
    assert_eq!(CompressionAlgorithm::from(0u8), CompressionAlgorithm::Uncompressed);
    assert_eq!(CompressionAlgorithm::from(1u8), CompressionAlgorithm::Lzo);
    assert_eq!(CompressionAlgorithm::from(2u8), CompressionAlgorithm::ZLib);
    assert_eq!(CompressionAlgorithm::from(3u8), CompressionAlgorithm::GZip);
    assert_eq!(CompressionAlgorithm::from(9u8), CompressionAlgorithm::Unknown);
    assert_eq!(CompressionAlgorithm::GZip.to_u8(), 3);
    assert_eq!(CompressionAlgorithm::Unknown.to_u8(), 255);
    assert_eq!(CompressionAlgorithm::ZLib.to_string(), "ZLIB");
    assert_eq!(CompressionAlgorithm::Lzo.to_string(), "LZO");
}

#[test]
fn lzo_back_reference_before_output_start_is_refused() {
    // One literal 'a', then a copy of five bytes from 2048 bytes back.
    let frame = vec![0xF1, 0, 0, 0, 6, 18, b'a', 0xFC, 0xFF, 0x11, 0x00, 0x00];
    let err = lzo::decompress(&frame).unwrap_err();
    assert_eq!(err.0, CompressionAlgorithm::Lzo);
    // A stream that stops in the middle of an instruction.
    let frame = vec![0xF1, 0, 0, 0, 6, 18, b'a', 0xFC];
    assert_eq!(lzo::decompress(&frame).unwrap_err().0, CompressionAlgorithm::Lzo);
}
