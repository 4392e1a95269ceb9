use media_inspector::analyzer::isobmff::box_parser::{BoxKind, BoxParser};
use media_inspector::analyzer::isobmff::boxes::{Box as IsoBox, BoxData, BoxInfo};
use media_inspector::analyzer::isobmff::types::BoxType;
use media_inspector::analyzer::isobmff::IsobmffAnalyzer;
use media_inspector::analyzer::{ElementInfo, Property};
use media_inspector::reader::Reader;

fn be16(v: u16) -> Vec<u8> {
    v.to_be_bytes().to_vec()
}

fn be32(v: u32) -> Vec<u8> {
    v.to_be_bytes().to_vec()
}

fn be64(v: u64) -> Vec<u8> {
    v.to_be_bytes().to_vec()
}

fn cat(parts: &[Vec<u8>]) -> Vec<u8> {
    let mut out = Vec::new();
    for p in parts {
        out.extend_from_slice(p);
    }
    out
}

/// A box with an eight-byte header.
fn boxed(code: &[u8; 4], payload: &[u8]) -> Vec<u8> {
    cat(&[be32(payload.len() as u32 + 8), code.to_vec(), payload.to_vec()])
}

/// A box with a sixteen-byte header.
fn boxed_large(code: &[u8; 4], payload: &[u8]) -> Vec<u8> {
    cat(&[be32(1), code.to_vec(), be64(payload.len() as u64 + 16), payload.to_vec()])
}

fn identity_matrix() -> Vec<u8> {
    cat(&[
        be32(0x0001_0000),
        be32(0),
        be32(0),
        be32(0),
        be32(0x0001_0000),
        be32(0),
        be32(0),
        be32(0),
        be32(0x4000_0000),
    ])
}

const EPOCH: u64 = 2_082_844_800;

fn mvhd_v0(creation: u32, modification: u32, timescale: u32, duration: u32, next_track: u32) -> Vec<u8> {
    cat(&[
        vec![0, 0, 0, 0],
        be32(creation),
        be32(modification),
        be32(timescale),
        be32(duration),
        be32(0x0001_0000),
        be16(0x0100),
        vec![0; 10],
        identity_matrix(),
        vec![0; 24],
        be32(next_track),
    ])
}

fn mvhd_v1(creation: u64, modification: u64, timescale: u32, duration: u64, next_track: u32) -> Vec<u8> {
    cat(&[
        vec![1, 0, 0, 0],
        be64(creation),
        be64(modification),
        be32(timescale),
        be64(duration),
        be32(0x0001_8000),
        be16(0x0080),
        vec![0; 10],
        identity_matrix(),
        vec![0; 24],
        be32(next_track),
    ])
}

fn parse(bytes: Vec<u8>) -> Vec<IsoBox> {
    let mut parser = BoxParser::new(Reader::new(bytes));
    parser.set_debug(false);
    parser.parse_boxes().unwrap()
}

fn props(b: &IsoBox) -> Vec<(String, String, String)> {
    let mut list: Vec<Property> = Vec::new();
    b.fill_properties(&mut list);
    list.into_iter().map(|p| (p.name, p.value, p.readable_value)).collect()
}

fn plain(name: &str, value: &str) -> (String, String, String) {
    (name.to_string(), value.to_string(), value.to_string())
}

fn shown(name: &str, value: &str, readable: &str) -> (String, String, String) {
    (name.to_string(), value.to_string(), readable.to_string())
}

fn element_props(e: &ElementInfo) -> Vec<(String, String, String)> {
    e.properties.iter().map(|p| (p.name.clone(), p.value.clone(), p.readable_value.clone())).collect()
}

#[test]
fn ftyp_box_with_one_compatible_brand() {
    let payload = cat(&[b"isom".to_vec(), be32(512), b"isom".to_vec()]);
    let boxes = parse(boxed(b"ftyp", &payload));
    assert_eq!(boxes.len(), 1);
    let b = &boxes[0];
    assert_eq!(b.box_type().as_str(), "ftyp");
    assert_eq!(b.size(), 20);
    assert_eq!(b.offset(), 0);
    assert_eq!(b.description(), "File Type Box");
    assert!(matches!(b.data, BoxData::FileType(_)));
    assert!(b.children().is_empty());
    assert_eq!(
        props(b),
        vec![plain("major brand", "isom"), plain("minor version", "512"), plain("compatible brands", "isom")]
    );
}

#[test]
fn ftyp_with_several_brands_and_odd_tail() {
    let payload = cat(&[b"mp42".to_vec(), be32(1), b"isom".to_vec(), b"mp42".to_vec(), b"avc1".to_vec(), vec![9, 9]]);
    let stream = cat(&[boxed(b"ftyp", &payload), boxed(b"free", &[])]);
    let boxes = parse(stream);
    assert_eq!(boxes.len(), 2);
    assert_eq!(
        props(&boxes[0]),
        vec![
            plain("major brand", "mp42"),
            plain("minor version", "1"),
            plain("compatible brands", "isom, mp42, avc1"),
        ]
    );
    assert_eq!(boxes[1].box_type().as_str(), "free");
    assert_eq!(boxes[1].offset(), 30);
}

#[test]
fn ftyp_without_brands() {
    let payload = cat(&[b"qt  ".to_vec(), be32(0x2005_0300)]);
    let boxes = parse(boxed(b"ftyp", &payload));
    assert_eq!(
        props(&boxes[0]),
        vec![plain("major brand", "qt  "), plain("minor version", "537199360"), plain("compatible brands", "")]
    );
}

#[test]
fn ftyp_too_short_is_not_decoded() {
    let boxes = parse(boxed(b"ftyp", b"isom"));
    assert!(boxes.is_empty());
}

#[test]
fn moov_with_truncated_second_child() {
    let first = boxed(b"mvhd", &mvhd_v0(0, 0, 600, 1200, 2));
    let second = cat(&[be32(500), b"trak".to_vec(), vec![0; 20]]);
    let moov = boxed(b"moov", &cat(&[first.clone(), second]));
    let after = boxed(b"free", &[1, 2, 3]);
    let total = moov.len() as u64;
    let boxes = parse(cat(&[moov, after]));
    assert_eq!(boxes.len(), 2);
    let m = &boxes[0];
    assert_eq!(m.box_type().as_str(), "moov");
    assert_eq!(m.size(), total);
    assert_eq!(m.children().len(), 1);
    assert_eq!(m.children()[0].box_type().as_str(), "mvhd");
    assert_eq!(m.children()[0].offset(), 8);
    assert_eq!(m.children()[0].size(), first.len() as u64);
    assert_eq!(boxes[1].box_type().as_str(), "free");
    assert_eq!(boxes[1].offset(), total);
}

#[test]
fn moov_with_child_cut_off_by_end_of_file() {
    let first = boxed(b"mvhd", &mvhd_v0(0, 0, 600, 1200, 2));
    let second = cat(&[be32(92), b"tkhd".to_vec(), vec![0; 10]]);
    let mut stream = cat(&[be32(8 + first.len() as u32 + 92), b"moov".to_vec(), first, second]);
    stream.truncate(stream.len());
    let boxes = parse(stream);
    assert_eq!(boxes.len(), 1);
    assert_eq!(boxes[0].children().len(), 1);
    assert_eq!(boxes[0].children()[0].box_type().as_str(), "mvhd");
}

#[test]
fn extended_size_uses_sixteen_byte_header() {
    let inner = boxed(b"mvhd", &mvhd_v0(0, 0, 1000, 5000, 3));
    let moov = boxed_large(b"moov", &inner);
    let stream = cat(&[moov.clone(), boxed(b"free", &[])]);
    let boxes = parse(stream);
    assert_eq!(boxes.len(), 2);
    assert_eq!(boxes[0].size(), moov.len() as u64);
    assert_eq!(boxes[0].size(), 16 + 108);
    assert_eq!(boxes[0].children().len(), 1);
    assert_eq!(boxes[0].children()[0].offset(), 16);
    assert_eq!(boxes[0].children()[0].size(), 108);
    assert_eq!(boxes[1].offset(), moov.len() as u64);
}

#[test]
fn extended_size_on_media_data() {
    let stream = cat(&[boxed_large(b"mdat", &[7; 40]), boxed(b"free", &[])]);
    let boxes = parse(stream);
    assert_eq!(boxes.len(), 2);
    assert_eq!(boxes[0].size(), 56);
    assert_eq!(props(&boxes[0]), vec![plain("data size", "40")]);
    assert_eq!(boxes[1].offset(), 56);
}

#[test]
fn extended_size_smaller_than_header_is_rejected() {
    let stream = cat(&[be32(1), b"mdat".to_vec(), be64(15), vec![0; 8]]);
    assert!(parse(stream).is_empty());
    let stream = cat(&[be32(1), b"mdat".to_vec(), be64(u64::MAX), vec![0; 8]]);
    let boxes = parse(stream);
    assert_eq!(boxes.len(), 1);
    assert_eq!(boxes[0].size(), u64::MAX);
    let stream = cat(&[boxed(b"free", &[]), be32(1), b"mdat".to_vec(), be64(u64::MAX), vec![0; 8]]);
    assert_eq!(parse(stream).len(), 1);
}

#[test]
fn declared_size_under_header_size_ends_the_list() {
    let stream = cat(&[boxed(b"free", &[1, 2]), be32(4), b"free".to_vec(), boxed(b"free", &[])]);
    let boxes = parse(stream);
    assert_eq!(boxes.len(), 1);
    let stream = cat(&[be32(0), b"mdat".to_vec(), vec![0; 30]]);
    assert!(parse(stream).is_empty());
}

#[test]
fn stsz_with_common_size_lists_nothing() {
    let payload = cat(&[vec![0, 0, 0, 0], be32(1024), be32(3), be32(1), be32(2), be32(3)]);
    let boxes = parse(boxed(b"stsz", &payload));
    assert_eq!(boxes.len(), 1);
    assert_eq!(
        props(&boxes[0]),
        vec![plain("version", "0"), plain("flags", "0x000000"), plain("sample_size", "1024"), plain("sample_count", "3")]
    );
}

#[test]
fn stsz_with_size_zero_lists_every_sample() {
    let payload = cat(&[vec![0, 0, 0, 1], be32(0), be32(3), be32(10), be32(20), be32(30)]);
    let boxes = parse(boxed(b"stsz", &payload));
    assert_eq!(boxes.len(), 1);
    assert_eq!(
        props(&boxes[0]),
        vec![
            plain("version", "0"),
            plain("flags", "0x000001"),
            plain("sample_size", "0"),
            plain("sample_count", "3"),
            plain("entry_size[0]", "10"),
            plain("entry_size[1]", "20"),
            plain("entry_size[2]", "30"),
        ]
    );
    let short = cat(&[vec![0, 0, 0, 0], be32(0), be32(3), be32(10), be32(20)]);
    assert!(parse(boxed(b"stsz", &short)).is_empty());
    let empty = cat(&[vec![0, 0, 0, 0], be32(0), be32(0)]);
    let boxes = parse(boxed(b"stsz", &empty));
    assert_eq!(props(&boxes[0]).len(), 4);
}

#[test]
fn stsz_shows_five_sizes_and_counts_the_rest() {
    let mut parts = vec![vec![0, 0, 0, 0], be32(0), be32(8)];
    for i in 0..8u32 {
        parts.push(be32(100 + i));
    }
    let list = props(&parse(boxed(b"stsz", &cat(&parts)))[0]);
    assert_eq!(list.len(), 4 + 5 + 1);
    assert_eq!(list[3], plain("sample_count", "8"));
    assert_eq!(list[4], plain("entry_size[0]", "100"));
    assert_eq!(list[8], plain("entry_size[4]", "104"));
    assert_eq!(list[9], plain("...", "3 more"));
    let mut five = vec![vec![0, 0, 0, 0], be32(0), be32(5)];
    for i in 0..5u32 {
        five.push(be32(i));
    }
    assert_eq!(props(&parse(boxed(b"stsz", &cat(&five)))[0]).len(), 9);
}

#[test]
fn stts_stsc_and_stsd_show_five_entries_and_count_the_rest() {
    let mut stts = vec![vec![0, 0, 0, 0], be32(7)];
    let mut stsc = vec![vec![0, 0, 0, 0], be32(6)];
    let mut stsd = vec![vec![0, 0, 0, 0], be32(9)];
    for i in 0..9u32 {
        if i < 7 {
            stts.push(cat(&[be32(i), be32(i * 10)]));
        }
        if i < 6 {
            stsc.push(cat(&[be32(i), be32(i + 1), be32(1)]));
        }
        stsd.push(cat(&[be32(16), b"mp4a".to_vec(), vec![0; 6], be16(i as u16)]));
    }
    let boxes = parse(cat(&[boxed(b"stts", &cat(&stts)), boxed(b"stsc", &cat(&stsc)), boxed(b"stsd", &cat(&stsd))]));
    assert_eq!(boxes.len(), 3);
    let list = props(&boxes[0]);
    assert_eq!(list.len(), 3 + 10 + 1);
    assert_eq!(list[2], plain("entry_count", "7"));
    assert_eq!(list[11], plain("entry[4].sample_count", "4"));
    assert_eq!(list[12], plain("entry[4].sample_delta", "40"));
    assert_eq!(list[13], plain("...", "2 more entries"));
    let list = props(&boxes[1]);
    assert_eq!(list.len(), 3 + 15 + 1);
    assert_eq!(list[17], plain("entry[4].sample_description_index", "1"));
    assert_eq!(list[18], plain("...", "1 more entries"));
    let list = props(&boxes[2]);
    assert_eq!(list.len(), 3 + 15 + 1);
    assert_eq!(list[2], plain("entry_count", "9"));
    assert_eq!(list[16], plain("entry[4].data_reference_index", "4"));
    assert_eq!(list[18], plain("...", "4 more entries"));
}

#[test]
fn dref_url_with_padding() {
    let padded = cat(&[be32(12 + 7), b"url ".to_vec(), vec![0, 0, 0, 0], b"a/b".to_vec(), vec![0; 4]]);
    let alone = cat(&[be32(12 + 5), b"url ".to_vec(), vec![0, 0, 0, 1], vec![0; 5]]);
    let urn = cat(&[be32(12 + 8), b"urn ".to_vec(), vec![0, 0, 0, 0], b"n\0loc\0".to_vec(), vec![0; 2]]);
    let payload = cat(&[vec![0, 0, 0, 0], be32(3), padded, alone, urn]);
    let list = props(&parse(boxed(b"dref", &payload))[0]);
    assert_eq!(
        list,
        vec![
            plain("version", "0"),
            plain("flags", "0x000000"),
            shown("entry_count", "3", "3 entries"),
            shown("url[0]", "flags=0x000000", "URL: a/b"),
            shown("url[1]", "flags=0x000001", "URL: "),
            shown("urn[2]", "flags=0x000000", "URN: n -> loc"),
        ]
    );
}

#[test]
fn mvhd_version_0_reads_32_bit_times() {
    let payload = mvhd_v0((EPOCH + 1000) as u32, 5, 600, 1200, 7);
    assert_eq!(payload.len(), 100);
    let boxes = parse(boxed(b"mvhd", &payload));
    assert_eq!(boxes.len(), 1);
    assert_eq!(boxes[0].description(), "Movie Header Box");
    assert_eq!(
        props(&boxes[0]),
        vec![
            plain("version", "0"),
            plain("flags", "0x000000"),
            plain("creation time", "1000"),
            plain("modification time", "0"),
            plain("timescale", "600"),
            plain("duration", "1200"),
            plain("rate", "1"),
            plain("volume", "1"),
            plain("matrix", "[65536, 0, 0, 0, 65536, 0, 0, 0, 1073741824]"),
            plain("next track ID", "7"),
        ]
    );
}

#[test]
fn mvhd_version_1_reads_64_bit_times() {
    let payload = mvhd_v1(EPOCH + 0x1_0000_0000, EPOCH + 1, 90000, 0x2_0000_0001, 9);
    assert_eq!(payload.len(), 112);
    let boxes = parse(boxed(b"mvhd", &payload));
    assert_eq!(boxes.len(), 1);
    assert_eq!(
        props(&boxes[0]),
        vec![
            plain("version", "1"),
            plain("flags", "0x000000"),
            plain("creation time", "4294967296"),
            plain("modification time", "1"),
            plain("timescale", "90000"),
            plain("duration", "8589934593"),
            plain("rate", "1.5"),
            plain("volume", "0.5"),
            plain("matrix", "[65536, 0, 0, 0, 65536, 0, 0, 0, 1073741824]"),
            plain("next track ID", "9"),
        ]
    );
}

#[test]
fn mvhd_shorter_than_its_fields_is_not_decoded() {
    let mut payload = mvhd_v0(0, 0, 1, 1, 1);
    payload.truncate(99);
    let stream = cat(&[boxed(b"free", &[]), boxed(b"mvhd", &payload), boxed(b"free", &[])]);
    assert_eq!(parse(stream).len(), 1);
    let mut v1 = mvhd_v1(0, 0, 1, 1, 1);
    v1.truncate(100);
    assert!(parse(boxed(b"mvhd", &v1)).is_empty());
}

#[test]
fn mvhd_longer_than_its_fields_is_padded() {
    let payload = cat(&[mvhd_v0(0, 0, 1, 1, 1), vec![0xee; 5]]);
    let stream = cat(&[boxed(b"mvhd", &payload), boxed(b"free", &[])]);
    let boxes = parse(stream);
    assert_eq!(boxes.len(), 2);
    assert_eq!(boxes[0].size(), 113);
    assert_eq!(boxes[1].offset(), 113);
    assert_eq!(boxes[1].box_type().as_str(), "free");
}

fn tkhd_tail(layer: i16, group: i16, volume: i16, width: u32, height: u32) -> Vec<u8> {
    cat(&[
        vec![0; 8],
        be16(layer as u16),
        be16(group as u16),
        be16(volume as u16),
        vec![0; 2],
        identity_matrix(),
        be32(width),
        be32(height),
    ])
}

#[test]
fn tkhd_version_0_reads_32_bit_times() {
    let payload = cat(&[
        vec![0, 0, 0, 7],
        be32((EPOCH + 10) as u32),
        be32((EPOCH + 20) as u32),
        be32(1),
        vec![0; 4],
        be32(3000),
        tkhd_tail(-1, 2, 0x0100, 1920 << 16, 1080 << 16),
    ]);
    assert_eq!(payload.len(), 84);
    let boxes = parse(boxed(b"tkhd", &payload));
    assert_eq!(boxes.len(), 1);
    assert_eq!(boxes[0].description(), "Track Header Box");
    assert_eq!(
        props(&boxes[0]),
        vec![
            plain("version", "0"),
            plain("flags", "0x000007"),
            plain("creation time", "10"),
            plain("modification time", "20"),
            plain("track ID", "1"),
            plain("duration", "3000"),
            plain("layer", "-1"),
            plain("alternate group", "2"),
            plain("volume", "1"),
            plain("matrix", "[65536, 0, 0, 0, 65536, 0, 0, 0, 1073741824]"),
            plain("width", "1920"),
            plain("height", "1080"),
        ]
    );
}

#[test]
fn tkhd_version_1_reads_64_bit_times() {
    let payload = cat(&[
        vec![1, 0, 0, 1],
        be64(EPOCH + 0x3_0000_0000),
        be64(EPOCH),
        be32(2),
        vec![0; 4],
        be64(0x1_0000_0000),
        tkhd_tail(0, 0, -0x0080, (640 << 16) + 0x8000, 0),
    ]);
    assert_eq!(payload.len(), 96);
    let boxes = parse(boxed(b"tkhd", &payload));
    assert_eq!(boxes.len(), 1);
    assert_eq!(
        props(&boxes[0]),
        vec![
            plain("version", "1"),
            plain("flags", "0x000001"),
            plain("creation time", "12884901888"),
            plain("modification time", "0"),
            plain("track ID", "2"),
            plain("duration", "4294967296"),
            plain("layer", "0"),
            plain("alternate group", "0"),
            plain("volume", "-0.5"),
            plain("matrix", "[65536, 0, 0, 0, 65536, 0, 0, 0, 1073741824]"),
            plain("width", "640.5"),
            plain("height", "0"),
        ]
    );
}

#[test]
fn mdhd_version_0_and_language() {
    let payload = cat(&[vec![0, 0, 0, 0], be32(0), be32((EPOCH + 5) as u32), be32(44100), be32(88200), be16(0x55c4), vec![0; 2]]);
    assert_eq!(payload.len(), 24);
    let boxes = parse(boxed(b"mdhd", &payload));
    assert_eq!(boxes.len(), 1);
    assert_eq!(boxes[0].description(), "Media Header Box");
    assert_eq!(
        props(&boxes[0]),
        vec![
            plain("version", "0"),
            plain("flags", "0x000000"),
            plain("creation_time", "0"),
            plain("modification_time", "5"),
            plain("timescale", "44100"),
            plain("duration", "88200"),
            plain("language", "und"),
        ]
    );
}

#[test]
fn mdhd_version_1_and_language() {
    let eng: u16 = (5 << 10) | (14 << 5) | 7;
    let payload = cat(&[vec![1, 0, 0, 0], be64(EPOCH + 9), be64(EPOCH + 0x1_0000_0000), be32(48000), be64(0x5_0000_0000), be16(eng)]);
    assert_eq!(payload.len(), 34);
    let stream = cat(&[be32(8 + 36), b"mdhd".to_vec(), payload]);
    let boxes = parse(stream);
    assert_eq!(boxes.len(), 1);
    assert_eq!(
        props(&boxes[0]),
        vec![
            plain("version", "1"),
            plain("flags", "0x000000"),
            plain("creation_time", "9"),
            plain("modification_time", "4294967296"),
            plain("timescale", "48000"),
            plain("duration", "21474836480"),
            plain("language", "eng"),
        ]
    );
}

#[test]
fn mdhd_language_fields_are_biased_by_0x60() {
    let payload = cat(&[vec![0, 0, 0, 0], be32(0), be32(0), be32(1), be32(1), be16(0x7fff), vec![0; 2]]);
    let boxes = parse(boxed(b"mdhd", &payload));
    assert_eq!(props(&boxes[0])[6], plain("language", "\u{7f}\u{7f}\u{7f}"));
    let payload = cat(&[vec![0, 0, 0, 0], be32(0), be32(0), be32(1), be32(1), be16(0x8000), vec![0; 2]]);
    let boxes = parse(boxed(b"mdhd", &payload));
    assert_eq!(props(&boxes[0])[6], plain("language", "```"));
}

#[test]
fn elst_version_0_entries() {
    let payload = cat(&[
        vec![0, 0, 0, 0],
        be32(2),
        be32(1000),
        be32(0xffff_ffff),
        be16(1),
        be16(0),
        be32(2000),
        be32(500),
        be16(0xffff),
        be16(5),
    ]);
    let boxes = parse(boxed(b"elst", &payload));
    assert_eq!(boxes.len(), 1);
    assert_eq!(boxes[0].description(), "Edit List Box");
    assert_eq!(
        props(&boxes[0]),
        vec![
            plain("version", "0"),
            plain("flags", "0x000000"),
            plain("entry_count", "2"),
            plain("entry[0].duration", "1000"),
            plain("entry[0].media_time", "-1"),
            plain("entry[0].media_rate", "1.0"),
            plain("entry[1].duration", "2000"),
            plain("entry[1].media_time", "500"),
            plain("entry[1].media_rate", "-1.5"),
        ]
    );
}

#[test]
fn elst_version_1_entries_keep_64_bits() {
    let payload = cat(&[
        vec![1, 0, 0, 0],
        be32(1),
        be64(0x1_0000_0002),
        be64((-0x1_0000_0003i64) as u64),
        be16(2),
        be16(0),
    ]);
    let boxes = parse(boxed(b"elst", &payload));
    assert_eq!(boxes.len(), 1);
    assert_eq!(
        props(&boxes[0]),
        vec![
            plain("version", "1"),
            plain("flags", "0x000000"),
            plain("entry_count", "1"),
            plain("entry[0].duration", "4294967298"),
            plain("entry[0].media_time", "-4294967299"),
            plain("entry[0].media_rate", "2.0"),
        ]
    );
}

#[test]
fn elst_shows_five_entries_and_counts_the_rest() {
    let mut parts = vec![vec![0, 0, 0, 0], be32(7)];
    for i in 0..7u32 {
        parts.push(cat(&[be32(i), be32(i * 2), be16(1), be16(0)]));
    }
    let boxes = parse(boxed(b"elst", &cat(&parts)));
    let list = props(&boxes[0]);
    assert_eq!(list.len(), 3 + 15 + 1);
    assert_eq!(list[2], plain("entry_count", "7"));
    assert_eq!(list[15], plain("entry[4].duration", "4"));
    assert_eq!(list[16], plain("entry[4].media_time", "8"));
    assert_eq!(list[18], plain("...", "2 more entries"));
}

#[test]
fn hdlr_handler_and_name() {
    let payload = cat(&[vec![0, 0, 0, 0], vec![0; 4], b"vide".to_vec(), vec![0; 12], b"VideoHandler\0".to_vec()]);
    let boxes = parse(boxed(b"hdlr", &payload));
    assert_eq!(boxes.len(), 1);
    assert_eq!(boxes[0].description(), "Handler Reference Box");
    assert_eq!(
        props(&boxes[0]),
        vec![
            plain("version", "0"),
            plain("flags", "0x000000"),
            plain("handler_type", "vide"),
            plain("name", "VideoHandler"),
        ]
    );
    let bare = cat(&[vec![0, 0, 0, 0], vec![0; 4], b"soun".to_vec(), vec![0; 12]]);
    let boxes = parse(boxed(b"hdlr", &bare));
    assert_eq!(props(&boxes[0])[3], plain("name", ""));
    let lossy = cat(&[vec![0, 0, 0, 0], vec![0; 4], b"soun".to_vec(), vec![0; 12], vec![b'A', 0xff, 0, 0]]);
    let boxes = parse(boxed(b"hdlr", &lossy));
    assert_eq!(props(&boxes[0])[3], plain("name", "A\u{fffd}"));
    let short = cat(&[vec![0, 0, 0, 0], vec![0; 4], b"soun".to_vec(), vec![0; 11]]);
    assert!(parse(boxed(b"hdlr", &short)).is_empty());
}

#[test]
fn vmhd_and_smhd() {
    let vmhd = cat(&[vec![0, 0, 0, 1], be16(64), be16(0x8000), be16(0), be16(0xffff)]);
    let smhd = cat(&[vec![0, 0, 0, 0], be16(0xff00), vec![0; 2]]);
    let boxes = parse(cat(&[boxed(b"vmhd", &vmhd), boxed(b"smhd", &smhd)]));
    assert_eq!(boxes.len(), 2);
    assert_eq!(boxes[0].description(), "Video Media Header Box");
    assert_eq!(
        props(&boxes[0]),
        vec![
            plain("version", "0"),
            plain("flags", "0x000001"),
            plain("graphics_mode", "64"),
            plain("op_color", "[32768, 0, 65535]"),
        ]
    );
    assert_eq!(boxes[1].description(), "Sound Media Header Box");
    assert_eq!(
        props(&boxes[1]),
        vec![plain("version", "0"), plain("flags", "0x000000"), plain("balance", "-1")]
    );
    let half = cat(&[vec![0, 0, 0, 0], be16(0x0080), vec![0; 2]]);
    assert_eq!(props(&parse(boxed(b"smhd", &half))[0])[2], plain("balance", "0.5"));
}

#[test]
fn stts_and_stsc_list_every_entry() {
    let stts = cat(&[vec![0, 0, 0, 0], be32(2), be32(100), be32(1024), be32(1), be32(512)]);
    let stsc = cat(&[vec![0, 0, 0, 0], be32(1), be32(1), be32(30), be32(1)]);
    let boxes = parse(cat(&[boxed(b"stts", &stts), boxed(b"stsc", &stsc)]));
    assert_eq!(boxes.len(), 2);
    assert_eq!(boxes[0].description(), "Time To Sample Box");
    assert_eq!(
        props(&boxes[0]),
        vec![
            plain("version", "0"),
            plain("flags", "0x000000"),
            plain("entry_count", "2"),
            plain("entry[0].sample_count", "100"),
            plain("entry[0].sample_delta", "1024"),
            plain("entry[1].sample_count", "1"),
            plain("entry[1].sample_delta", "512"),
        ]
    );
    assert_eq!(boxes[1].description(), "Sample To Chunk Box");
    assert_eq!(
        props(&boxes[1]),
        vec![
            plain("version", "0"),
            plain("flags", "0x000000"),
            plain("entry_count", "1"),
            plain("entry[0].first_chunk", "1"),
            plain("entry[0].samples_per_chunk", "30"),
            plain("entry[0].sample_description_index", "1"),
        ]
    );
}

#[test]
fn list_longer_than_its_box_is_not_decoded() {
    let stts = cat(&[vec![0, 0, 0, 0], be32(3), be32(100), be32(1024), be32(1), be32(512)]);
    let stream = cat(&[boxed(b"stts", &stts), vec![0; 64]]);
    assert!(parse(stream).is_empty());
    let huge = cat(&[vec![0, 0, 0, 0], be32(0xffff_ffff)]);
    assert!(parse(boxed(b"stco", &huge)).is_empty());
}

#[test]
fn stco_shows_five_offsets_and_counts_the_rest() {
    let mut parts = vec![vec![0, 0, 0, 0], be32(8)];
    for i in 0..8u32 {
        parts.push(be32(0x1000 * (i + 1)));
    }
    let boxes = parse(boxed(b"stco", &cat(&parts)));
    assert_eq!(boxes[0].description(), "Chunk Offset Box");
    assert_eq!(
        props(&boxes[0]),
        vec![
            plain("version", "0"),
            plain("flags", "0x000000"),
            plain("entry_count", "8"),
            plain("offset[0]", "0x1000"),
            plain("offset[1]", "0x2000"),
            plain("offset[2]", "0x3000"),
            plain("offset[3]", "0x4000"),
            plain("offset[4]", "0x5000"),
            plain("...", "3 more"),
        ]
    );
    let five = cat(&[vec![0, 0, 0, 0], be32(5), be32(0), be32(1), be32(2), be32(3), be32(0xffff_ffff)]);
    let list = props(&parse(boxed(b"stco", &five))[0]);
    assert_eq!(list.len(), 8);
    assert_eq!(list[3], plain("offset[0]", "0x0"));
    assert_eq!(list[7], plain("offset[4]", "0xffffffff"));
}

#[test]
fn stsd_keeps_type_reference_and_bytes() {
    let entry_a = cat(&[be32(16 + 5), b"avc1".to_vec(), vec![0; 6], be16(1), vec![1, 2, 3, 4, 5]]);
    let entry_b = cat(&[be32(16), b"mp4a".to_vec(), vec![0; 6], be16(2)]);
    let payload = cat(&[vec![0, 0, 0, 0], be32(2), entry_a, entry_b]);
    let boxes = parse(boxed(b"stsd", &payload));
    assert_eq!(boxes.len(), 1);
    assert_eq!(boxes[0].description(), "Sample Description Box");
    assert_eq!(
        props(&boxes[0]),
        vec![
            plain("version", "0"),
            plain("flags", "0x000000"),
            plain("entry_count", "2"),
            plain("entry[0].type", "avc1"),
            plain("entry[0].data_reference_index", "1"),
            plain("entry[0].data", "5 bytes"),
            plain("entry[1].type", "mp4a"),
            plain("entry[1].data_reference_index", "2"),
            plain("entry[1].data", "0 bytes"),
        ]
    );
}

#[test]
fn stsd_entry_with_bad_size_is_not_decoded() {
    let small = cat(&[be32(15), b"avc1".to_vec(), vec![0; 6], be16(1)]);
    assert!(parse(boxed(b"stsd", &cat(&[vec![0, 0, 0, 0], be32(1), small]))).is_empty());
    let beyond = cat(&[be32(40), b"avc1".to_vec(), vec![0; 6], be16(1), vec![0; 4]]);
    let stream = cat(&[boxed(b"stsd", &cat(&[vec![0, 0, 0, 0], be32(1), beyond])), vec![0; 64]]);
    assert!(parse(stream).is_empty());
}

#[test]
fn dref_entries() {
    let url_self = cat(&[be32(12), b"url ".to_vec(), vec![0, 0, 0, 1]]);
    let url_text = cat(&[be32(12 + 20), b"url ".to_vec(), vec![0, 0, 0, 0], b"http://example.com/a".to_vec()]);
    let other = cat(&[be32(12 + 3), b"alis".to_vec(), vec![0, 0, 0, 0], vec![1, 2, 3]]);
    let urn = cat(&[be32(12 + 12), b"urn ".to_vec(), vec![2, 0, 0, 0], b"name\0place\0".to_vec(), vec![0]]);
    let payload = cat(&[vec![0, 0, 0, 0], be32(4), url_self, url_text, other, urn]);
    let stream = cat(&[boxed(b"dref", &payload), boxed(b"free", &[])]);
    let boxes = parse(stream);
    assert_eq!(boxes.len(), 2);
    assert_eq!(boxes[0].description(), "Data Reference Box");
    assert_eq!(
        props(&boxes[0]),
        vec![
            plain("version", "0"),
            plain("flags", "0x000000"),
            shown("entry_count", "3", "3 entries"),
            shown("url[0]", "flags=0x000001", "URL: "),
            shown("url[1]", "flags=0x000000", "URL: http://example.com/a"),
            shown("urn[2]", "flags=0x000000", "URN: name -> place"),
        ]
    );
}

#[test]
fn dref_in_its_container() {
    let url_self = cat(&[be32(12), b"url ".to_vec(), vec![0, 0, 0, 1]]);
    let dref = boxed(b"dref", &cat(&[vec![0, 0, 0, 0], be32(1), url_self]));
    let boxes = parse(boxed(b"dinf", &dref));
    assert_eq!(boxes.len(), 1);
    assert_eq!(boxes[0].description(), "Data Information Box");
    assert!(props(&boxes[0]).is_empty());
    assert_eq!(boxes[0].children().len(), 1);
    assert_eq!(boxes[0].children()[0].box_type().as_str(), "dref");
    assert_eq!(props(&boxes[0].children()[0])[3], shown("url[0]", "flags=0x000001", "URL: "));
}

#[test]
fn dref_with_bad_entries_is_not_decoded() {
    let invalid = cat(&[be32(12 + 2), b"url ".to_vec(), vec![0, 0, 0, 0], vec![0xff, 0xfe]]);
    assert!(parse(boxed(b"dref", &cat(&[vec![0, 0, 0, 0], be32(1), invalid]))).is_empty());
    let unterminated = cat(&[be32(12 + 4), b"urn ".to_vec(), vec![0, 0, 0, 0], b"name".to_vec()]);
    assert!(parse(boxed(b"dref", &cat(&[vec![0, 0, 0, 0], be32(1), unterminated]))).is_empty());
    let overlong = cat(&[be32(12 + 6), b"urn ".to_vec(), vec![0, 0, 0, 0], b"name\0place\0".to_vec()]);
    let stream = cat(&[be32(8 + 8 + 12 + 11), b"dref".to_vec(), vec![0, 0, 0, 0], be32(1), overlong]);
    assert!(parse(stream).is_empty());
    let tiny = cat(&[be32(11), b"url ".to_vec(), vec![0, 0, 0, 1]]);
    assert!(parse(boxed(b"dref", &cat(&[vec![0, 0, 0, 0], be32(1), tiny]))).is_empty());
}

#[test]
fn dref_shows_five_entries_and_counts_the_rest() {
    let mut parts = vec![vec![0, 0, 0, 0], be32(6)];
    for _ in 0..6 {
        parts.push(cat(&[be32(12), b"url ".to_vec(), vec![0, 0, 0, 1]]));
    }
    let list = props(&parse(boxed(b"dref", &cat(&parts)))[0]);
    assert_eq!(list.len(), 3 + 5 + 1);
    assert_eq!(list[2], shown("entry_count", "6", "6 entries"));
    assert_eq!(list[7], shown("url[4]", "flags=0x000001", "URL: "));
    assert_eq!(list[8], plain("...", "1 more entries"));
}

#[test]
fn media_data_is_passed_over() {
    let stream = cat(&[boxed(b"mdat", &[0xaa; 100]), boxed(b"free", &[1])]);
    let boxes = parse(stream);
    assert_eq!(boxes.len(), 2);
    assert_eq!(boxes[0].description(), "Media Data Box");
    assert_eq!(props(&boxes[0]), vec![plain("data size", "100")]);
    assert_eq!(boxes[1].offset(), 108);
    let cut = cat(&[be32(1000), b"mdat".to_vec(), vec![0; 10]]);
    let boxes = parse(cut);
    assert_eq!(boxes.len(), 1);
    assert_eq!(boxes[0].size(), 1000);
    assert_eq!(props(&boxes[0]), vec![plain("data size", "992")]);
}

#[test]
fn unknown_boxes_are_opaque() {
    let stream = cat(&[boxed(b"wide", &[]), boxed(b"uuid", &[1, 2, 3, 4]), boxed(&[0xa9, b'x', b'y', b'z'], &[5])]);
    let boxes = parse(stream);
    assert_eq!(boxes.len(), 3);
    for b in &boxes {
        assert!(matches!(b.data, BoxData::Unknown));
        assert_eq!(b.description(), "Unknown box type");
        assert!(props(b).is_empty());
        assert!(b.children().is_empty());
    }
    assert_eq!(boxes[1].offset(), 8);
    assert_eq!(boxes[2].offset(), 20);
    assert_eq!(boxes[2].box_type().as_str(), "????");
}

fn sample_tree() -> Vec<u8> {
    let mvhd = boxed(b"mvhd", &mvhd_v0(0, 0, 600, 1200, 2));
    let tkhd = boxed(
        b"tkhd",
        &cat(&[vec![0, 0, 0, 3], be32(0), be32(0), be32(1), vec![0; 4], be32(1200), tkhd_tail(0, 0, 0, 320 << 16, 240 << 16)]),
    );
    let elst = boxed(b"elst", &cat(&[vec![0, 0, 0, 0], be32(1), be32(1200), be32(0), be16(1), be16(0)]));
    let edts = boxed(b"edts", &elst);
    let mdhd = boxed(b"mdhd", &cat(&[vec![0, 0, 0, 0], be32(0), be32(0), be32(600), be32(1200), be16(0x55c4), vec![0; 2]]));
    let hdlr = boxed(b"hdlr", &cat(&[vec![0; 8], b"vide".to_vec(), vec![0; 12], b"V\0".to_vec()]));
    let vmhd = boxed(b"vmhd", &cat(&[vec![0, 0, 0, 1], vec![0; 8]]));
    let url = cat(&[be32(12), b"url ".to_vec(), vec![0, 0, 0, 1]]);
    let dinf = boxed(b"dinf", &boxed(b"dref", &cat(&[vec![0, 0, 0, 0], be32(1), url])));
    let stsd = boxed(b"stsd", &cat(&[vec![0, 0, 0, 0], be32(0)]));
    let stts = boxed(b"stts", &cat(&[vec![0, 0, 0, 0], be32(0)]));
    let stsc = boxed(b"stsc", &cat(&[vec![0, 0, 0, 0], be32(0)]));
    let stsz = boxed(b"stsz", &cat(&[vec![0, 0, 0, 0], be32(4), be32(0)]));
    let stco = boxed(b"stco", &cat(&[vec![0, 0, 0, 0], be32(0)]));
    let stbl = boxed(b"stbl", &cat(&[stsd, stts, stsc, stsz, stco]));
    let minf = boxed(b"minf", &cat(&[vmhd, dinf, stbl]));
    let mdia = boxed(b"mdia", &cat(&[mdhd, hdlr, minf]));
    let trak = boxed(b"trak", &cat(&[tkhd, edts, mdia]));
    let moov = boxed(b"moov", &cat(&[mvhd, trak]));
    let ftyp = boxed(b"ftyp", &cat(&[b"isom".to_vec(), be32(512), b"isom".to_vec(), b"mp41".to_vec()]));
    cat(&[ftyp, moov, boxed(b"mdat", &[0; 32])])
}

fn check_layout(b: &IsoBox, header: u64) {
    let kids = b.children();
    if kids.is_empty() {
        return;
    }
    assert_eq!(kids[0].offset(), b.offset() + header);
    for i in 0..kids.len() - 1 {
        assert_eq!(kids[i].offset() + kids[i].size(), kids[i + 1].offset());
    }
    let last = &kids[kids.len() - 1];
    assert_eq!(last.offset() + last.size(), b.offset() + b.size());
    for k in kids {
        check_layout(k, 8);
    }
}

#[test]
fn children_tile_their_container() {
    let stream = sample_tree();
    let total = stream.len() as u64;
    let boxes = parse(stream);
    assert_eq!(boxes.len(), 3);
    assert_eq!(boxes[0].offset(), 0);
    for i in 0..boxes.len() - 1 {
        assert_eq!(boxes[i].offset() + boxes[i].size(), boxes[i + 1].offset());
    }
    assert_eq!(boxes[2].offset() + boxes[2].size(), total);
    for b in &boxes {
        check_layout(b, 8);
    }
    let moov = &boxes[1];
    assert_eq!(moov.children().len(), 2);
    let trak = &moov.children()[1];
    assert_eq!(trak.description(), "Track Box");
    assert_eq!(trak.children().len(), 3);
    assert_eq!(trak.children()[1].description(), "Edit Box");
    let mdia = &trak.children()[2];
    assert_eq!(mdia.description(), "Media Box");
    let minf = &mdia.children()[2];
    assert_eq!(minf.description(), "Media Information Box");
    let stbl = &minf.children()[2];
    assert_eq!(stbl.description(), "Sample Table Box");
    assert_eq!(stbl.children().len(), 5);
    assert_eq!(moov.description(), "Movie Box");
}

fn same_tree(a: &[IsoBox], b: &[IsoBox]) {
    assert_eq!(a.len(), b.len());
    for i in 0..a.len() {
        assert_eq!(a[i].box_type().as_str(), b[i].box_type().as_str());
        assert_eq!(a[i].offset(), b[i].offset());
        assert_eq!(a[i].size(), b[i].size());
        assert_eq!(a[i].description(), b[i].description());
        assert_eq!(props(&a[i]), props(&b[i]));
        same_tree(a[i].children(), b[i].children());
    }
}

#[test]
fn parsing_twice_gives_the_same_tree() {
    let stream = sample_tree();
    let first = parse(stream.clone());
    let second = parse(stream);
    same_tree(&first, &second);
}

#[test]
fn nothing_is_read_past_the_container() {
    let inner = boxed(b"free", &[0; 4]);
    let stream = cat(&[be32(8 + 12 + 4), b"moov".to_vec(), inner, vec![0, 0, 0, 8], boxed(b"free", &[])]);
    let boxes = parse(stream);
    assert_eq!(boxes.len(), 2);
    assert_eq!(boxes[0].children().len(), 1);
    assert_eq!(boxes[0].size(), 24);
    assert_eq!(boxes[1].offset(), 24);
    assert_eq!(boxes[1].box_type().as_str(), "free");
}

#[test]
fn empty_and_truncated_streams() {
    assert!(parse(Vec::new()).is_empty());
    assert!(parse(vec![0, 0, 0]).is_empty());
    assert!(parse(vec![0, 0, 0, 8, b'f', b'r', b'e']).is_empty());
    assert_eq!(parse(vec![0, 0, 0, 8, b'f', b'r', b'e', b'e', 0, 0]).len(), 1);
    assert!(parse(cat(&[be32(1), b"free".to_vec(), vec![0; 7]])).is_empty());
}

#[test]
fn parser_continues_where_the_reader_stands() {
    let stream = cat(&[vec![0xde, 0xad, 0xbe], boxed(b"free", &[])]);
    let mut reader = Reader::new(stream);
    reader.skip(3).unwrap();
    let mut parser = BoxParser::new(reader);
    let boxes = parser.parse_boxes().unwrap();
    assert_eq!(boxes.len(), 1);
    assert_eq!(boxes[0].offset(), 3);
    assert!(parser.parse_boxes().unwrap().is_empty());
}

#[test]
fn kinds_of_box() {
    assert_eq!(BoxKind::classify(&BoxType::new(*b"ftyp")), BoxKind::FileType);
    assert_eq!(BoxKind::classify(&BoxType::new(*b"moov")), BoxKind::Movie);
    assert_eq!(BoxKind::classify(&BoxType::new(*b"stco")), BoxKind::ChunkOffset);
    assert_eq!(BoxKind::classify(&BoxType::new(*b"dref")), BoxKind::DataReference);
    assert_eq!(BoxKind::classify(&BoxType::new(*b"FTYP")), BoxKind::Unknown);
    for code in [b"moov", b"trak", b"mdia", b"minf", b"stbl", b"dinf", b"edts"] {
        assert!(BoxKind::classify(&BoxType::new(*code)).holds_boxes());
    }
    for code in [b"ftyp", b"mvhd", b"mdat", b"free", b"stsd", b"dref"] {
        assert!(!BoxKind::classify(&BoxType::new(*code)).holds_boxes());
    }
}

#[test]
fn analyzer_presents_boxes_as_elements() {
    let mut analyzer = IsobmffAnalyzer::new(sample_tree()).unwrap();
    analyzer.set_debug(false);
    let info = analyzer.analyze().unwrap();
    assert_eq!(info.format, "ISOBMFF");
    assert!(info.audio_streams.is_empty());
    assert!(info.metadata.is_empty());
    assert_eq!(info.structure.len(), 3);
    let ftyp = &info.structure[0];
    assert_eq!(ftyp.name, "ftyp");
    assert_eq!(ftyp.offset, "0");
    assert_eq!(ftyp.size, "24");
    assert_eq!(ftyp.readable_value, "File Type Box");
    assert_eq!(
        element_props(ftyp),
        vec![plain("major brand", "isom"), plain("minor version", "512"), plain("compatible brands", "isom, mp41")]
    );
    let moov = &info.structure[1];
    assert_eq!(moov.name, "moov");
    assert_eq!(moov.offset, "24");
    assert!(moov.properties.is_empty());
    assert_eq!(moov.children.len(), 2);
    assert_eq!(moov.children[0].name, "mvhd");
    assert_eq!(moov.children[0].offset, "32");
    assert_eq!(moov.children[0].size, "108");
    assert_eq!(moov.children[0].properties.len(), 10);
    let trak = &moov.children[1];
    assert_eq!(trak.children.len(), 3);
    assert_eq!(trak.children[2].children[2].children[2].children.len(), 5);
    let mdat = &info.structure[2];
    assert_eq!(mdat.readable_value, "Media Data Box");
    assert_eq!(element_props(mdat), vec![plain("data size", "32")]);
}
