use media_inspector::analyzer::isobmff::boxes::GenericBox;
use media_inspector::analyzer::isobmff::types::{BoxType, Fixed16_16, Matrix, Mp4DateTime};
use media_inspector::analyzer::navigation::{
    collect_all_paths, collect_paths, find_element, should_show_element, split_path,
};
use media_inspector::analyzer::rmff::chunks::ChunkType;
use media_inspector::analyzer::{
    flags_string, indexed_string, push_labelled, push_measured, push_plain, push_remainder,
    push_shown, ElementInfo, Property,
};
use media_inspector::console::{tree_lines, TreeLine};
use media_inspector::error::{IoErrorKind, MediaError};

#[test]
fn property_without_readable_value_repeats_the_value() {
    let p = Property::new("version", "1".to_string(), None);
    assert_eq!(p.name, "version");
    assert_eq!(p.value, "1");
    assert_eq!(p.readable_value, "1");
    let q = Property::new("duration", "5000".to_string(), Some("5000 ms".to_string()));
    assert_eq!(q.value, "5000");
    assert_eq!(q.readable_value, "5000 ms");
}

#[test]
fn element_keeps_offset_and_size_as_text() {
    let mut e = ElementInfo::new("moov", 32, 1_000_000);
    assert_eq!(e.name, "moov");
    assert_eq!(e.offset, "32");
    assert_eq!(e.size, "1000000");
    assert_eq!(e.readable_value, "");
    assert!(e.children.is_empty());
    assert!(e.properties.is_empty());
    e.add_property("a", "1".to_string(), "one".to_string());
    e.add_property("b", "2".to_string(), "two".to_string());
    assert_eq!(e.properties.len(), 2);
    assert_eq!(e.properties[1].name, "b");
    assert_eq!(e.properties[1].value, "2");
    assert_eq!(e.properties[1].readable_value, "two");
    e.add_child(ElementInfo::new("mvhd", 40, 108));
    e.add_child(ElementInfo::new("trak", 148, 10));
    assert_eq!(e.children.len(), 2);
    assert_eq!(e.children[0].name, "mvhd");
    assert_eq!(e.children[1].offset, "148");
}

#[test]
fn property_helpers_render_values() {
    let mut props: Vec<Property> = Vec::new();
    push_plain(&mut props, "flags", flags_string(1));
    push_shown(&mut props, "x", "1".to_string(), "one".to_string());
    push_measured(&mut props, "duration", 1500, " ms");
    push_labelled(&mut props, "stream_number", "Stream #", 3);
    push_remainder(&mut props, 5, " more");
    push_remainder(&mut props, 8, " more entries");
    assert_eq!(props.len(), 5);
    assert_eq!(props[0].value, "0x000001");
    assert_eq!(props[0].readable_value, "0x000001");
    assert_eq!(props[1].readable_value, "one");
    assert_eq!(props[2].value, "1500");
    assert_eq!(props[2].readable_value, "1500 ms");
    assert_eq!(props[3].value, "3");
    assert_eq!(props[3].readable_value, "Stream #3");
    assert_eq!(props[4].name, "...");
    assert_eq!(props[4].value, "3 more entries");
    assert_eq!(indexed_string("entry[", 12, "].type"), "entry[12].type");
    assert_eq!(flags_string(0xabcdef), "0xabcdef");
}

#[test]
fn fourcc_text_or_question_marks() {
    assert_eq!(BoxType::new(*b"ftyp").as_str(), "ftyp");
    assert_eq!(BoxType::new(*b"url ").as_str(), "url ");
    assert_eq!(BoxType::new([0xa9, b'n', b'a', b'm']).as_str(), "????");
    assert_eq!(BoxType::new([0xff, 0xff, 0xff, 0xff]).as_str(), "????");
    assert_eq!(BoxType::new([0xc3, 0xa9, b'a', b'b']).as_str(), "????");
    assert_eq!(BoxType::new([0, 0, 0, 1]).as_str(), "????");
    assert_eq!(BoxType::new([0xff, 0xfe, 0xfd, 0xfc]).as_str(), "????");
    assert_eq!(BoxType::new([b'a', b'b', b'c', 0x7f]).as_str(), "????");
    assert_eq!(BoxType::new([b'a', b'b', 0x1f, b'd']).as_str(), "????");
    assert_eq!(BoxType::new(*b" ~Az").as_str(), " ~Az");
    assert_eq!(ChunkType::new([0, 0, 0, 0]).as_str(), "????");
    assert_eq!(ChunkType::new(*b".RMF").as_str(), ".RMF");
    assert_eq!(ChunkType::new(*b"PROP").as_str(), "PROP");
    assert_eq!(ChunkType::new([b'A', 0x80, b'B', b'C']).as_str(), "????");
    assert!(BoxType::new(*b"moov").is('m', 'o', 'o', 'v'));
    assert!(!BoxType::new(*b"moov").is('m', 'o', 'o', 'f'));
    assert!(ChunkType::new(*b".RMF").is('.', 'R', 'M', 'F'));
    assert!(!ChunkType::new(*b".RMG").is('.', 'R', 'M', 'F'));
}

#[test]
fn time_is_shown_as_unix_seconds() {
    assert_eq!(Mp4DateTime::new(2_082_844_800).to_text(), "0");
    assert_eq!(Mp4DateTime::new(2_082_844_801).to_text(), "1");
    assert_eq!(Mp4DateTime::new(0).to_text(), "0");
    assert_eq!(Mp4DateTime::new(100).to_text(), "0");
    assert_eq!(Mp4DateTime::new(3_800_000_000).to_text(), "1717155200");
    assert_eq!(Mp4DateTime::new(77).as_secs(), 77);
}

#[test]
fn matrix_and_fixed_point_text() {
    let m = Matrix::new([65536, 0, 0, 0, 65536, 0, 0, 0, 1073741824]);
    assert_eq!(m.to_text(), "[65536, 0, 0, 0, 65536, 0, 0, 0, 1073741824]");
    assert_eq!(m.to_text(), format!("{:?}", m.values));
    let n = Matrix::new([-1, 2, -3, 4, -5, 6, -7, 8, i32::MIN]);
    assert_eq!(n.to_text(), format!("{:?}", n.values));
    assert_eq!(Fixed16_16::new(0x0002_8000).to_text(), "2.5");
    assert_eq!(Fixed16_16::new(-0x0001_0000).to_text(), "-1");
}

#[test]
fn generic_box_shows_its_type() {
    let g = GenericBox::new(BoxType::new(*b"free"));
    assert_eq!(g.box_type().as_str(), "free");
    assert_eq!(g.description(), "Unknown Generic Box");
    let mut props: Vec<Property> = Vec::new();
    g.fill_properties(&mut props);
    assert_eq!(props.len(), 1);
    assert_eq!(props[0].name, "box type");
    assert_eq!(props[0].value, "free");
    assert_eq!(g.to_text(), "Generic Box (free)");
}

#[test]
fn error_messages() {
    assert_eq!(MediaError::Io(IoErrorKind::UnexpectedEof).message(), "IO error: failed to fill whole buffer");
    assert_eq!(
        MediaError::Io(IoErrorKind::InvalidData).message(),
        "IO error: stream did not contain valid UTF-8"
    );
    assert_eq!(
        MediaError::Io(IoErrorKind::InvalidInput).message(),
        "IO error: invalid seek to a negative or overflowing position"
    );
    assert_eq!(MediaError::InvalidBoxSize.message(), "Invalid box size");
    assert_eq!(MediaError::InvalidBoxType("abcd".to_string()).message(), "Invalid box type: abcd");
    assert_eq!(MediaError::UnexpectedEof.message(), "Unexpected EOF");
    assert_eq!(MediaError::Parse("bad field".to_string()).message(), "Parse error: bad field");
    assert_eq!(MediaError::InvalidFormat("x".to_string()).message(), "Invalid format: x");
    assert_eq!(MediaError::UnsupportedFormat("y".to_string()).message(), "Unsupported format: y");
    assert_eq!(IoErrorKind::UnexpectedEof.description(), "failed to fill whole buffer");
}

fn leaf(name: &str, offset: u64, props: &[(&str, &str, &str)]) -> ElementInfo {
    let mut e = ElementInfo::new(name, offset, 8);
    for (n, v, r) in props {
        e.add_property(n, v.to_string(), r.to_string());
    }
    e
}

fn small_tree() -> Vec<ElementInfo> {
    let mut moov = leaf("moov", 24, &[]);
    let mvhd = leaf("mvhd", 32, &[("timescale", "600", "600"), ("Rate", "1", "1")]);
    let mut trak = leaf("trak", 140, &[]);
    trak.add_child(leaf("tkhd", 148, &[("track ID", "1", "1")]));
    let mut other = leaf("trak", 240, &[]);
    other.add_child(leaf("mdia", 248, &[("language", "und", "Undetermined")]));
    moov.add_child(mvhd);
    moov.add_child(trak);
    moov.add_child(other);
    vec![leaf("ftyp", 0, &[("major brand", "isom", "isom")]), moov, leaf("mdat", 400, &[])]
}

#[test]
fn path_is_split_at_slashes() {
    assert_eq!(split_path(""), Vec::<Vec<u8>>::new());
    assert_eq!(split_path("/"), Vec::<Vec<u8>>::new());
    assert_eq!(split_path("moov"), vec![b"moov".to_vec()]);
    assert_eq!(split_path("/moov/trak/tkhd"), vec![b"moov".to_vec(), b"trak".to_vec(), b"tkhd".to_vec()]);
    assert_eq!(split_path("//a///b/"), vec![b"a".to_vec(), b"b".to_vec()]);
    assert_eq!(split_path("/\u{e9}/x"), vec![vec![0xc3, 0xa9], b"x".to_vec()]);
}

#[test]
fn path_leads_to_an_element() {
    let tree = small_tree();
    assert_eq!(find_element(&tree, "/ftyp").unwrap().offset, "0");
    assert_eq!(find_element(&tree, "/moov").unwrap().offset, "24");
    assert_eq!(find_element(&tree, "moov/mvhd").unwrap().offset, "32");
    assert_eq!(find_element(&tree, "/moov/trak").unwrap().offset, "140");
    assert_eq!(find_element(&tree, "/moov/trak/tkhd").unwrap().offset, "148");
    assert_eq!(find_element(&tree, "/moov/trak/mdia").unwrap().offset, "248");
    assert!(find_element(&tree, "/moov/trak/stbl").is_none());
    assert!(find_element(&tree, "/mvhd").is_none());
    assert!(find_element(&tree, "").is_none());
    assert!(find_element(&tree, "/").is_none());
    assert!(find_element(&tree, "/FTYP").is_none());
    assert!(find_element(&[], "/ftyp").is_none());
}

#[test]
fn search_shows_matching_elements() {
    let tree = small_tree();
    assert!(should_show_element(&tree[0], ""));
    assert!(should_show_element(&tree[0], "FTYP"));
    assert!(should_show_element(&tree[0], "ty"));
    assert!(should_show_element(&tree[0], "ISOM"));
    assert!(should_show_element(&tree[0], "major"));
    assert!(!should_show_element(&tree[0], "moov"));
    assert!(should_show_element(&tree[1], "tkhd"));
    assert!(should_show_element(&tree[1], "undetermined"));
    assert!(should_show_element(&tree[1], "rate"));
    assert!(should_show_element(&tree[1], "track id"));
    assert!(!should_show_element(&tree[1], "mdat"));
    assert!(!should_show_element(&tree[2], "isom"));
    assert!(should_show_element(&tree[2], "MDAT"));
}

#[test]
fn paths_of_all_elements() {
    let tree = small_tree();
    let mut paths: Vec<String> = vec!["kept".to_string()];
    collect_all_paths(&tree, &mut paths);
    assert_eq!(
        paths,
        vec![
            "kept",
            "/ftyp",
            "/moov",
            "/moov/mvhd",
            "/moov/trak",
            "/moov/trak/tkhd",
            "/moov/trak/mdia",
            "/mdat",
        ]
    );
    collect_all_paths(&tree, &mut paths);
    assert_eq!(paths.len(), 8);
    let mut again: Vec<String> = vec!["/moov/mvhd".to_string()];
    collect_paths(&tree[1], "", &mut again);
    assert_eq!(again, vec!["/moov/mvhd", "/moov", "/moov/trak", "/moov/trak/tkhd", "/moov/trak/mdia"]);
    let mut under: Vec<String> = Vec::new();
    collect_paths(&tree[1].children[1], "/root", &mut under);
    assert_eq!(under, vec!["/root/trak", "/root/trak/tkhd"]);
}

fn texts(lines: &[TreeLine]) -> Vec<String> {
    lines.iter().map(|l| l.to_text()).collect()
}

#[test]
fn outline_of_a_tree() {
    let tree = small_tree();
    let lines = tree_lines(&tree, "", 0);
    assert_eq!(
        texts(&lines),
        vec![
            "!---ftyp",
            "        offset: 0",
            "        size: 8",
            "        major brand:  isom",
            "!---moov",
            "        offset: 24",
            "        size: 8",
            "!   !---mvhd",
            "!           offset: 32",
            "!           size: 8",
            "!           timescale:  600",
            "!           Rate:  1",
            "!   !---trak",
            "!           offset: 140",
            "!           size: 8",
            "!   !   `---tkhd",
            "!   !           offset: 148",
            "!   !           size: 8",
            "!   !           track ID:  1",
            "!   `---trak",
            "!           offset: 240",
            "!           size: 8",
            "!       `---mdia",
            "!               offset: 248",
            "!               size: 8",
            "!               language:  Undetermined",
            "`---mdat",
            "        offset: 400",
            "        size: 8",
        ]
    );
    assert!(matches!(&lines[0], TreeLine::Element { last: false, palette: 0, .. }));
    assert!(matches!(&lines[7], TreeLine::Element { last: false, palette: 1, .. }));
    assert!(matches!(&lines[15], TreeLine::Element { last: true, palette: 2, .. }));
    assert!(matches!(&lines[26], TreeLine::Element { last: true, palette: 0, .. }));
}

#[test]
fn outline_colours_cycle_with_depth() {
    let mut e = ElementInfo::new("leaf", 0, 0);
    for i in 0..11 {
        let mut parent = ElementInfo::new("node", i, 0);
        parent.add_child(e);
        e = parent;
    }
    let lines = tree_lines(&[e], ">", 9);
    let palettes: Vec<u8> = lines
        .iter()
        .filter_map(|l| match l {
            TreeLine::Element { palette, .. } => Some(*palette),
            _ => None,
        })
        .collect();
    assert_eq!(palettes, vec![9, 0, 1, 2, 3, 4, 5, 6, 7, 8, 9, 0]);
    assert_eq!(lines[0].to_text(), ">`---node");
    assert_eq!(lines[3].to_text(), ">    `---node");
    let again = tree_lines(&[ElementInfo::new("x", 1, 2)], "", 23);
    assert!(matches!(&again[0], TreeLine::Element { palette: 3, .. }));
}

#[test]
fn outline_shows_twelve_properties_and_counts_the_rest() {
    let mut e = ElementInfo::new("stsc", 0, 200);
    for i in 0..15 {
        e.add_property(&format!("field{}", i), i.to_string(), format!("value {}", i));
    }
    let lines = tree_lines(&[e], "", 0);
    assert_eq!(lines.len(), 3 + 12 + 1);
    assert_eq!(lines[3].to_text(), "        field0:  value 0");
    assert_eq!(lines[14].to_text(), "        field11:  value 11");
    assert_eq!(lines[15].to_text(), "        ...:  3 more");
    assert!(matches!(&lines[15], TreeLine::More { count: 3, .. }));
    let mut twelve = ElementInfo::new("x", 0, 0);
    for i in 0..12 {
        twelve.add_property("n", i.to_string(), i.to_string());
    }
    assert_eq!(tree_lines(&[twelve], "", 0).len(), 3 + 12);
    assert!(tree_lines(&[], "", 0).is_empty());
}

fn same_element(a: &ElementInfo, b: &ElementInfo) {
    assert_eq!(a.name, b.name);
    assert_eq!(a.offset, b.offset);
    assert_eq!(a.size, b.size);
    assert_eq!(a.readable_value, b.readable_value);
    assert_eq!(a.properties.len(), b.properties.len());
    for i in 0..a.properties.len() {
        assert_eq!(a.properties[i].name, b.properties[i].name);
        assert_eq!(a.properties[i].value, b.properties[i].value);
        assert_eq!(a.properties[i].readable_value, b.properties[i].readable_value);
    }
    assert_eq!(a.children.len(), b.children.len());
    for i in 0..a.children.len() {
        same_element(&a.children[i], &b.children[i]);
    }
}

#[test]
fn clone_copies_the_whole_tree() {
    let tree = small_tree();
    let mut copy = tree[1].clone();
    same_element(&tree[1], &copy);
    copy.children[0].name.push('!');
    assert_eq!(tree[1].children[0].name, "mvhd");
    assert_eq!(copy.children[0].name, "mvhd!");
}
