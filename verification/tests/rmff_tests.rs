use media_inspector::analyzer::rmff::chunk_parser::{ChunkKind, ChunkParser};
use media_inspector::analyzer::rmff::chunks::{Chunk, ChunkData, ChunkInfo, ChunkType};
use media_inspector::analyzer::rmff::RmffAnalyzer;
use media_inspector::analyzer::Property;
use media_inspector::error::MediaError;
use media_inspector::reader::Reader;

fn be16(v: u16) -> Vec<u8> {
    v.to_be_bytes().to_vec()
}

fn be32(v: u32) -> Vec<u8> {
    v.to_be_bytes().to_vec()
}

fn cat(parts: &[Vec<u8>]) -> Vec<u8> {
    let mut out = Vec::new();
    for p in parts {
        out.extend_from_slice(p);
    }
    out
}

fn header(version: u32) -> Vec<u8> {
    cat(&[b".RMF".to_vec(), be32(version), be32(0x1234)])
}

fn chunk(code: &[u8; 4], payload: &[u8]) -> Vec<u8> {
    cat(&[be32(payload.len() as u32 + 8), code.to_vec(), payload.to_vec()])
}

fn cont(title: &[u8], author: &[u8], copyright: &[u8], comment: &[u8]) -> Vec<u8> {
    cat(&[
        be16(title.len() as u16),
        be16(author.len() as u16),
        be16(copyright.len() as u16),
        be16(comment.len() as u16),
        title.to_vec(),
        author.to_vec(),
        copyright.to_vec(),
        comment.to_vec(),
    ])
}

fn parse(bytes: Vec<u8>) -> Result<Vec<Chunk>, MediaError> {
    let mut parser = ChunkParser::new(Reader::new(bytes));
    parser.set_debug(false);
    parser.parse_chunks()
}

fn props(c: &Chunk) -> Vec<(String, String, String)> {
    let mut list: Vec<Property> = Vec::new();
    c.fill_properties(&mut list);
    list.into_iter().map(|p| (p.name, p.value, p.readable_value)).collect()
}

fn plain(name: &str, value: &str) -> (String, String, String) {
    (name.to_string(), value.to_string(), value.to_string())
}

fn shown(name: &str, value: &str, readable: &str) -> (String, String, String) {
    (name.to_string(), value.to_string(), readable.to_string())
}

fn is_err(r: &Result<Vec<Chunk>, MediaError>, want: &str) -> bool {
    match r {
        Ok(_) => false,
        Err(e) => e.message() == want,
    }
}


#[test]
fn cont_chunk_with_only_a_title() {
    let stream = cat(&[header(0), chunk(b"CONT", &cont(b"Test", b"", b"", b""))]);
    let chunks = parse(stream).unwrap();
    assert_eq!(chunks.len(), 1);
    let c = &chunks[0];
    assert_eq!(c.chunk_type().as_str(), "CONT");
    assert_eq!(c.offset(), 12);
    assert_eq!(c.size(), 20);
    assert_eq!(c.description(), "Content Description");
    assert!(matches!(c.data, ChunkData::Cont(_)));
    assert!(c.children().is_empty());
    assert_eq!(props(c), vec![plain("title", "Test")]);
}

#[test]
fn cont_with_all_texts() {
    let stream = cat(&[header(0), chunk(b"CONT", &cont(b"A title\0", b"Somebody", b"(c) 2001", b"hello"))]);
    let chunks = parse(stream).unwrap();
    assert_eq!(
        props(&chunks[0]),
        vec![
            plain("title", "A title"),
            plain("author", "Somebody"),
            plain("copyright", "(c) 2001"),
            plain("comment", "hello"),
        ]
    );
    let stream = cat(&[header(0), chunk(b"CONT", &cont(b"", b"", b"", b""))]);
    assert!(props(&parse(stream).unwrap()[0]).is_empty());
    let stream = cat(&[header(0), chunk(b"CONT", &cont(b"", b"me", b"", b"note"))]);
    assert_eq!(props(&parse(stream).unwrap()[0]), vec![plain("author", "me"), plain("comment", "note")]);
}

#[test]
fn malformed_magic_fails_at_once() {
    let stream = cat(&[b"XXXX".to_vec(), be32(0), be32(0), chunk(b"CONT", &cont(b"Test", b"", b"", b""))]);
    let r = parse(stream);
    assert!(matches!(r, Err(MediaError::InvalidFormat(_))));
    assert!(is_err(&r, "Invalid format: Not a RealMedia file"));
    assert!(is_err(&parse(b".rmf\0\0\0\0\0\0\0\0".to_vec()), "Invalid format: Not a RealMedia file"));
}

#[test]
fn unsupported_version_fails() {
    let r = parse(cat(&[header(1), chunk(b"CONT", &cont(b"Test", b"", b"", b""))]));
    assert!(matches!(r, Err(MediaError::InvalidFormat(_))));
    assert!(is_err(&r, "Invalid format: Unsupported RealMedia version: 1"));
    let r = parse(header(0x0001_0000));
    assert!(is_err(&r, "Invalid format: Unsupported RealMedia version: 65536"));
}

#[test]
fn missing_marker_is_an_invalid_format() {
    assert!(is_err(&parse(Vec::new()), "Invalid format: Not a RealMedia file"));
    assert!(is_err(&parse(b".RM".to_vec()), "Invalid format: Not a RealMedia file"));
    assert!(matches!(parse(b".R".to_vec()), Err(MediaError::InvalidFormat(_))));
}

#[test]
fn short_file_header_gives_no_chunks() {
    assert!(parse(b".RMF".to_vec()).unwrap().is_empty());
    assert!(parse(b".RMF\0\0".to_vec()).unwrap().is_empty());
    assert!(parse(b".RMF\0\0\0\0".to_vec()).unwrap().is_empty());
    assert!(parse(b".RMF\0\0\0\0\0\0".to_vec()).unwrap().is_empty());
    assert!(is_err(&parse(b".RMF\0\0\0\x01".to_vec()), "Invalid format: Unsupported RealMedia version: 1"));
}

#[test]
fn position_after_parsing() {
    let stream = cat(&[vec![9, 9], header(0), chunk(b"DATA", &vec![0; 8]), be32(40), b"PROP".to_vec(), vec![0; 8]]);
    let mut reader = Reader::new(stream);
    reader.skip(2).unwrap();
    let mut parser = ChunkParser::new(reader);
    let chunks = parser.parse_chunks().unwrap();
    assert_eq!(chunks.len(), 1);
    assert_eq!(chunks[0].offset(), 14);
    assert!(matches!(parser.parse_chunks(), Err(MediaError::InvalidFormat(_))));
    let mut short = ChunkParser::new(Reader::new(b".RMF\0\0".to_vec()));
    assert!(short.parse_chunks().unwrap().is_empty());
    assert!(short.parse_chunks().unwrap().is_empty());
}

#[test]
fn header_alone_gives_no_chunks() {
    assert!(parse(header(0)).unwrap().is_empty());
    assert!(parse(cat(&[header(0), vec![0, 0, 0, 20, b'C', b'O', b'N']])).unwrap().is_empty());
}

#[test]
fn prop_fields() {
    let payload = cat(&[
        be32(500_000),
        be32(450_000),
        be32(1500),
        be32(1200),
        be32(9000),
        be32(60_000),
        be32(2000),
        be32(0x0001_0000),
        be32(0x200),
        be16(2),
        be16(0x000b),
    ]);
    assert_eq!(payload.len(), 40);
    let chunks = parse(cat(&[header(0), chunk(b"PROP", &payload)])).unwrap();
    assert_eq!(chunks.len(), 1);
    assert_eq!(chunks[0].description(), "File Properties");
    assert_eq!(
        props(&chunks[0]),
        vec![
            shown("max_bit_rate", "500000", "500000 bps"),
            shown("avg_bit_rate", "450000", "450000 bps"),
            shown("max_packet_size", "1500", "1500 bytes"),
            shown("avg_packet_size", "1200", "1200 bytes"),
            shown("num_packets", "9000", "9000 packets"),
            shown("duration", "60000", "60000 ms"),
            shown("preroll", "2000", "2000 ms"),
            shown("index_offset", "65536", "0x00010000"),
            shown("data_offset", "512", "0x00000200"),
            shown("num_streams", "2", "2 streams"),
            plain("flags", "0x000b"),
        ]
    );
}

#[test]
fn mdpr_fields() {
    let payload = cat(&[
        be16(1),
        be32(64_000),
        be32(60_000),
        be32(640),
        be32(600),
        be32(0),
        be32(1500),
        be32(30_000),
        vec![12, 10],
        be32(3),
        b"Audio Stream".to_vec(),
        b"audio/x-pn".to_vec(),
        vec![0x01, 0xab, 0xff],
    ]);
    let chunks = parse(cat(&[header(0), chunk(b"MDPR", &payload)])).unwrap();
    assert_eq!(chunks.len(), 1);
    assert_eq!(chunks[0].description(), "Media Properties");
    assert_eq!(
        props(&chunks[0]),
        vec![
            shown("stream_number", "1", "Stream #1"),
            shown("max_bit_rate", "64000", "64000 bps"),
            shown("avg_bit_rate", "60000", "60000 bps"),
            shown("max_packet_size", "640", "640 bytes"),
            shown("avg_packet_size", "600", "600 bytes"),
            shown("start_time", "0", "0 ms"),
            shown("preroll", "1500", "1500 ms"),
            shown("duration", "30000", "30000 ms"),
            plain("stream_name", "Audio Stream"),
            plain("mime_type", "audio/x-pn"),
            shown("type_specific_data", "3 bytes", "0x[01, ab, ff]"),
        ]
    );
    assert_eq!(props(&chunks[0])[10].2, format!("0x{:02x?}", vec![0x01u8, 0xab, 0xff]));
}

#[test]
fn mdpr_without_texts_or_bytes() {
    let payload = cat(&[be16(0), vec![0; 28], vec![0, 0], be32(0)]);
    let chunks = parse(cat(&[header(0), chunk(b"MDPR", &payload)])).unwrap();
    let list = props(&chunks[0]);
    assert_eq!(list.len(), 9);
    assert_eq!(list[0], shown("stream_number", "0", "Stream #0"));
    assert_eq!(list[8], shown("type_specific_data", "0 bytes", "0x[]"));
}

#[test]
fn data_chunk_passes_over_packets() {
    let payload = cat(&[be32(77), be32(0xdead_beef), vec![0x55; 50]]);
    let stream = cat(&[header(0), chunk(b"DATA", &payload), chunk(b"CONT", &cont(b"x", b"", b"", b""))]);
    let chunks = parse(stream).unwrap();
    assert_eq!(chunks.len(), 2);
    assert_eq!(chunks[0].description(), "Media Data");
    assert_eq!(chunks[0].size(), 66);
    assert_eq!(
        props(&chunks[0]),
        vec![shown("num_packets", "77", "77 packets"), plain("next_data_header", "0xdeadbeef")]
    );
    assert_eq!(chunks[1].offset(), 12 + 66);
    assert_eq!(props(&chunks[1]), vec![plain("title", "x")]);
}

#[test]
fn data_chunk_declared_beyond_the_end() {
    let stream = cat(&[header(0), be32(100_000), b"DATA".to_vec(), be32(1), be32(0)]);
    let chunks = parse(stream).unwrap();
    assert_eq!(chunks.len(), 1);
    assert_eq!(chunks[0].size(), 100_000);
}

#[test]
fn indx_entries() {
    let payload = cat(&[
        be32(2),
        be16(1),
        be32(0x40),
        be32(0),
        be32(0x100),
        be32(0),
        be32(1000),
        be32(0x2000),
        be32(25),
    ]);
    let chunks = parse(cat(&[header(0), chunk(b"INDX", &payload)])).unwrap();
    assert_eq!(chunks[0].description(), "Index");
    assert_eq!(
        props(&chunks[0]),
        vec![
            shown("num_entries", "2", "2 entries"),
            shown("stream_number", "1", "Stream #1"),
            plain("next_index_header", "0x00000040"),
            shown("entry[0].timestamp", "0", "0 ms"),
            plain("entry[0].offset", "0x00000100"),
            shown("entry[0].packet_count", "0", "0 packets"),
            shown("entry[1].timestamp", "1000", "1000 ms"),
            plain("entry[1].offset", "0x00002000"),
            shown("entry[1].packet_count", "25", "25 packets"),
        ]
    );
}

#[test]
fn indx_shows_five_entries_and_counts_the_rest() {
    let mut parts = vec![be32(9), be16(0), be32(0)];
    for i in 0..9u32 {
        parts.push(cat(&[be32(i * 10), be32(i), be32(i + 1)]));
    }
    let chunks = parse(cat(&[header(0), chunk(b"INDX", &cat(&parts))])).unwrap();
    let list = props(&chunks[0]);
    assert_eq!(list.len(), 3 + 15 + 1);
    assert_eq!(list[0], shown("num_entries", "9", "9 entries"));
    assert_eq!(list[15], shown("entry[4].timestamp", "40", "40 ms"));
    assert_eq!(list[17], shown("entry[4].packet_count", "5", "5 packets"));
    assert_eq!(list[18], plain("...", "4 more entries"));
}

#[test]
fn unknown_chunks_are_opaque() {
    let stream = cat(&[header(0), chunk(b"RMMD", &[1, 2, 3]), chunk(b"PADD", &[]), chunk(&[0xff, 0, 1, 2], &[9])]);
    let chunks = parse(stream).unwrap();
    assert_eq!(chunks.len(), 3);
    for c in &chunks {
        assert!(matches!(c.data, ChunkData::Unknown));
        assert_eq!(c.description(), "Unknown chunk type");
        assert!(props(c).is_empty());
    }
    assert_eq!(chunks[0].offset(), 12);
    assert_eq!(chunks[1].offset(), 23);
    assert_eq!(chunks[2].offset(), 31);
    assert_eq!(chunks[2].chunk_type().as_str(), "????");
}

#[test]
fn chunks_follow_one_another() {
    let stream = cat(&[
        header(0),
        chunk(b"PROP", &vec![0; 40]),
        chunk(b"CONT", &cont(b"T", b"A", b"", b"")),
        chunk(b"MDPR", &cat(&[vec![0; 30], vec![0, 0], be32(0)])),
        chunk(b"DATA", &vec![0; 30]),
        chunk(b"INDX", &cat(&[be32(0), be16(0), be32(0)])),
    ]);
    let total = stream.len() as u64;
    let chunks = parse(stream).unwrap();
    assert_eq!(chunks.len(), 5);
    assert_eq!(chunks[0].offset(), 12);
    for i in 0..chunks.len() - 1 {
        assert_eq!(chunks[i].offset() + chunks[i].size(), chunks[i + 1].offset());
    }
    assert_eq!(chunks[4].offset() + chunks[4].size(), total);
}

#[test]
fn chunk_longer_than_its_fields_is_padded() {
    let payload = cat(&[vec![0; 40], vec![0xee; 6]]);
    let stream = cat(&[header(0), chunk(b"PROP", &payload), chunk(b"CONT", &cont(b"after", b"", b"", b""))]);
    let chunks = parse(stream).unwrap();
    assert_eq!(chunks.len(), 2);
    assert_eq!(chunks[1].offset(), 12 + 54);
    assert_eq!(props(&chunks[1]), vec![plain("title", "after")]);
}

fn good() -> Vec<u8> {
    chunk(b"CONT", &cont(b"before", b"", b"", b""))
}

fn only_the_good_chunk(r: Result<Vec<Chunk>, MediaError>) {
    let chunks = r.unwrap();
    assert_eq!(chunks.len(), 1);
    assert_eq!(chunks[0].offset(), 12);
    assert_eq!(props(&chunks[0]), vec![plain("title", "before")]);
}

#[test]
fn chunk_size_under_header_size_ends_the_list() {
    let stream = cat(&[header(0), good(), be32(7), b"PROP".to_vec(), vec![0; 40], good()]);
    only_the_good_chunk(parse(stream));
    let stream = cat(&[header(0), be32(0), b"XXXX".to_vec()]);
    assert!(parse(stream).unwrap().is_empty());
}

#[test]
fn chunk_shorter_than_its_fields_ends_the_list() {
    assert!(parse(cat(&[header(0), chunk(b"PROP", &vec![0; 39])])).unwrap().is_empty());
    assert!(parse(cat(&[header(0), chunk(b"DATA", &vec![0; 7])])).unwrap().is_empty());
    assert!(parse(cat(&[header(0), chunk(b"INDX", &vec![0; 9])])).unwrap().is_empty());
    assert!(parse(cat(&[header(0), chunk(b"MDPR", &vec![0; 35])])).unwrap().is_empty());
    assert!(parse(cat(&[header(0), chunk(b"CONT", &vec![0; 7])])).unwrap().is_empty());
    let long_title = cat(&[be16(5), be16(0), be16(0), be16(0), b"Test".to_vec()]);
    only_the_good_chunk(parse(cat(&[header(0), good(), chunk(b"CONT", &long_title), good()])));
    let many = cat(&[be32(2), be16(0), be32(0), vec![0; 12]]);
    only_the_good_chunk(parse(cat(&[header(0), good(), chunk(b"INDX", &many), good()])));
}

#[test]
fn truncated_chunk_body_ends_the_list() {
    let stream = cat(&[header(0), good(), be32(48), b"PROP".to_vec()]);
    only_the_good_chunk(parse(stream));
    let mut stream = cat(&[header(0), chunk(b"PROP", &vec![0; 40])]);
    stream.truncate(stream.len() - 1);
    assert!(parse(stream).unwrap().is_empty());
    let mut stream = cat(&[header(0), chunk(b"CONT", &cont(b"Test", b"", b"", b""))]);
    stream.truncate(stream.len() - 2);
    assert!(parse(stream).unwrap().is_empty());
    let mut stream = cat(&[header(0), good(), chunk(b"INDX", &cat(&[be32(1), be16(0), be32(0), vec![0; 12]]))]);
    stream.truncate(stream.len() - 4);
    only_the_good_chunk(parse(stream));
    let three = cat(&[header(0), good(), chunk(b"DATA", &vec![0; 8]), chunk(b"PROP", &vec![1; 40]), be32(46), b"MDPR".to_vec(), vec![0; 10]]);
    let chunks = parse(three).unwrap();
    assert_eq!(chunks.len(), 3);
    assert_eq!(chunks[2].chunk_type().as_str(), "PROP");
}

#[test]
fn invalid_text_ends_the_list() {
    let stream = cat(&[header(0), good(), chunk(b"CONT", &cont(&[0xff, 0xfe], b"", b"", b"")), good()]);
    only_the_good_chunk(parse(stream));
    let stream = cat(&[header(0), chunk(b"CONT", &cont(b"ok", b"", &[0xc3], b""))]);
    assert!(parse(stream).unwrap().is_empty());
    let payload = cat(&[vec![0; 30], vec![1, 0], be32(0), vec![0x80]]);
    only_the_good_chunk(parse(cat(&[header(0), good(), chunk(b"MDPR", &payload)])));
}

#[test]
fn parsing_twice_gives_the_same_chunks() {
    let stream = cat(&[
        header(0),
        chunk(b"PROP", &vec![7; 40]),
        chunk(b"CONT", &cont(b"T", b"A", b"C", b"M")),
        chunk(b"DATA", &vec![1; 20]),
    ]);
    let first = parse(stream.clone()).unwrap();
    let second = parse(stream).unwrap();
    assert_eq!(first.len(), second.len());
    for i in 0..first.len() {
        assert_eq!(first[i].chunk_type().as_str(), second[i].chunk_type().as_str());
        assert_eq!(first[i].offset(), second[i].offset());
        assert_eq!(first[i].size(), second[i].size());
        assert_eq!(props(&first[i]), props(&second[i]));
        assert_eq!(first[i].children().len(), second[i].children().len());
    }
}

#[test]
fn kinds_of_chunk() {
    assert_eq!(ChunkKind::classify(&ChunkType::new(*b"PROP")), ChunkKind::Prop);
    assert_eq!(ChunkKind::classify(&ChunkType::new(*b"CONT")), ChunkKind::Cont);
    assert_eq!(ChunkKind::classify(&ChunkType::new(*b"MDPR")), ChunkKind::Mdpr);
    assert_eq!(ChunkKind::classify(&ChunkType::new(*b"DATA")), ChunkKind::Data);
    assert_eq!(ChunkKind::classify(&ChunkType::new(*b"INDX")), ChunkKind::Indx);
    assert_eq!(ChunkKind::classify(&ChunkType::new(*b"prop")), ChunkKind::Unknown);
}

#[test]
fn analyzer_presents_chunks_as_elements() {
    let stream = cat(&[header(0), chunk(b"CONT", &cont(b"Test", b"", b"", b"")), chunk(b"DATA", &vec![0; 8])]);
    let mut analyzer = RmffAnalyzer::new(stream).unwrap();
    analyzer.set_debug(false);
    let info = analyzer.analyze().unwrap();
    assert_eq!(info.format, "RealMedia");
    assert_eq!(info.structure.len(), 2);
    let c = &info.structure[0];
    assert_eq!(c.name, "CONT");
    assert_eq!(c.offset, "12");
    assert_eq!(c.size, "20");
    assert_eq!(c.readable_value, "Content Description");
    assert_eq!(c.properties.len(), 1);
    assert_eq!(c.properties[0].name, "title");
    assert_eq!(c.properties[0].value, "Test");
    assert_eq!(c.properties[0].readable_value, "Test");
    assert!(c.children.is_empty());
    assert_eq!(info.structure[1].name, "DATA");
    assert_eq!(info.structure[1].offset, "32");
    let mut bad = RmffAnalyzer::new(b"XXXX\0\0\0\0\0\0\0\0".to_vec()).unwrap();
    assert!(matches!(bad.analyze(), Err(MediaError::InvalidFormat(_))));
}

#[test]
fn chunk_can_hold_children() {
    let mut parent = Chunk::new(ChunkType::new(*b"ROOT"), 30, 0, ChunkData::Unknown);
    parent.add_child(Chunk::new(ChunkType::new(*b"KID1"), 10, 8, ChunkData::Unknown));
    parent.add_child(Chunk::new(ChunkType::new(*b"KID2"), 12, 18, ChunkData::Unknown));
    assert_eq!(parent.children().len(), 2);
    assert_eq!(parent.children()[1].chunk_type().as_str(), "KID2");
    let elements = RmffAnalyzer::convert_to_elements(&[parent]);
    assert_eq!(elements.len(), 1);
    assert_eq!(elements[0].children.len(), 2);
    assert_eq!(elements[0].children[0].name, "KID1");
    assert_eq!(elements[0].children[1].offset, "18");
}
