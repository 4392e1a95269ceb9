use media_inspector::analyzer::detector::{
    format_for_extension, DetectionStrategy, FileFormat, FormatDetector,
};
use media_inspector::analyzer::{DefaultAnalyzer, MediaAnalyzer};
use media_inspector::error::MediaError;

fn message<T>(r: Result<T, MediaError>) -> String {
    match r {
        Ok(_) => panic!("an error was expected"),
        Err(e) => e.message(),
    }
}

#[test]
fn extensions_of_box_files() {
    let d = FormatDetector::new(DetectionStrategy::Extension);
    for ext in ["mp4", "mov", "m4a", "m4v"] {
        assert_eq!(d.detect_by_extension(Some(ext)).unwrap(), FileFormat::Isobmff);
        assert_eq!(format_for_extension(Some(ext)).unwrap(), FileFormat::Isobmff);
    }
}

#[test]
fn extensions_of_chunk_files() {
    let d = FormatDetector::new(DetectionStrategy::Extension);
    for ext in ["rm", "rmvb", "ra"] {
        assert_eq!(d.detect_by_extension(Some(ext)).unwrap(), FileFormat::RealMedia);
        assert_eq!(format_for_extension(Some(ext)).unwrap(), FileFormat::RealMedia);
    }
}

#[test]
fn extension_case_does_not_matter() {
    let d = FormatDetector::new(DetectionStrategy::Extension);
    assert_eq!(d.detect_by_extension(Some("MP4")).unwrap(), FileFormat::Isobmff);
    assert_eq!(d.detect_by_extension(Some("MoV")).unwrap(), FileFormat::Isobmff);
    assert_eq!(d.detect_by_extension(Some("RMVB")).unwrap(), FileFormat::RealMedia);
    assert!(format_for_extension(Some("MP4")).is_err());
}

#[test]
fn unknown_extension_is_unsupported() {
    let d = FormatDetector::new(DetectionStrategy::Extension);
    assert!(matches!(d.detect_by_extension(Some("avi")), Err(MediaError::UnsupportedFormat(_))));
    assert_eq!(message(d.detect_by_extension(Some("avi"))), "Unsupported format: Unknown file extension");
    assert_eq!(message(d.detect_by_extension(None)), "Unsupported format: Unknown file extension");
    assert_eq!(message(d.detect_by_extension(Some(""))), "Unsupported format: Unknown file extension");
    assert_eq!(message(d.detect_by_extension(Some("mp4 "))), "Unsupported format: Unknown file extension");
    assert_eq!(message(format_for_extension(None)), "Unsupported format: Unknown file extension");
}

#[test]
fn first_bytes_tell_the_family() {
    let d = FormatDetector::new(DetectionStrategy::Content);
    assert_eq!(d.detect_by_content(b".RMF\0\0\0\0").unwrap(), FileFormat::RealMedia);
    for magic in [b"ftyp", b"moov", b"mdat", b"free", b"wide", b"skip"] {
        assert_eq!(d.detect_by_content(magic).unwrap(), FileFormat::Isobmff);
    }
}

#[test]
fn unknown_first_bytes_are_unsupported() {
    let d = FormatDetector::new(DetectionStrategy::Content);
    let r = d.detect_by_content(&[0, 0, 0, 24, b'f', b't', b'y', b'p']);
    assert!(matches!(r, Err(MediaError::UnsupportedFormat(_))));
    assert_eq!(message(r), "Unsupported format: Unknown magic number: [0, 0, 0, 24]");
    assert_eq!(
        message(d.detect_by_content(b"RIFF")),
        format!("Unsupported format: Unknown magic number: {:?}", b"RIFF")
    );
    assert_eq!(
        message(d.detect_by_content(&[255, 1, 200, 9])),
        "Unsupported format: Unknown magic number: [255, 1, 200, 9]"
    );
}

#[test]
fn short_content_is_unsupported() {
    let d = FormatDetector::new(DetectionStrategy::Content);
    assert!(matches!(d.detect_by_content(b""), Err(MediaError::UnsupportedFormat(_))));
    assert_eq!(message(d.detect_by_content(b"")), "Unsupported format: Unknown magic number: []");
    assert_eq!(message(d.detect_by_content(b".RM")), "Unsupported format: Unknown magic number: [46, 82, 77]");
    assert_eq!(message(d.detect_by_content(b"f")), "Unsupported format: Unknown magic number: [102]");
}

#[test]
fn strategies() {
    let by_extension = FormatDetector::new(DetectionStrategy::Extension);
    let by_content = FormatDetector::new(DetectionStrategy::Content);
    let auto = FormatDetector::new(DetectionStrategy::Auto);
    assert_eq!(by_extension.detect_format(Some("mp4"), b".RMF").unwrap(), FileFormat::Isobmff);
    assert_eq!(by_content.detect_format(Some("mp4"), b".RMF").unwrap(), FileFormat::RealMedia);
    assert_eq!(auto.detect_format(Some("mp4"), b".RMF").unwrap(), FileFormat::Isobmff);
    assert_eq!(auto.detect_format(Some("bin"), b".RMF").unwrap(), FileFormat::RealMedia);
    assert_eq!(auto.detect_format(None, b"moov").unwrap(), FileFormat::Isobmff);
    assert!(by_extension.detect_format(Some("bin"), b".RMF").is_err());
    assert_eq!(
        message(auto.detect_format(Some("bin"), b"abcd")),
        "Unsupported format: Unknown magic number: [97, 98, 99, 100]"
    );
    assert_eq!(message(auto.detect_format(None, b"ab")), "Unsupported format: Unknown magic number: [97, 98]");
}

fn ftyp_file() -> Vec<u8> {
    let mut v = vec![0, 0, 0, 20];
    v.extend_from_slice(b"ftypisom");
    v.extend_from_slice(&[0, 0, 2, 0]);
    v.extend_from_slice(b"isom");
    v
}

fn rm_file() -> Vec<u8> {
    let mut v = b".RMF".to_vec();
    v.extend_from_slice(&[0, 0, 0, 0, 0, 0, 0, 0]);
    v.extend_from_slice(&[0, 0, 0, 16]);
    v.extend_from_slice(b"DATA");
    v.extend_from_slice(&[0, 0, 0, 3, 0, 0, 0, 0]);
    v
}

#[test]
fn default_analyzer_picks_the_parser() {
    let analyzer = DefaultAnalyzer::new(false);
    let info = analyzer.analyze(Some("mp4"), ftyp_file()).unwrap();
    assert_eq!(info.format, "ISOBMFF");
    assert_eq!(info.structure.len(), 1);
    assert_eq!(info.structure[0].name, "ftyp");
    assert_eq!(info.structure[0].properties[1].value, "512");
    let info = analyzer.analyze(Some("RM"), rm_file()).unwrap();
    assert_eq!(info.format, "RealMedia");
    assert_eq!(info.structure.len(), 1);
    assert_eq!(info.structure[0].name, "DATA");
    assert_eq!(info.structure[0].properties[0].readable_value, "3 packets");
    let info = analyzer.analyze(None, rm_file()).unwrap();
    assert_eq!(info.format, "RealMedia");
    let info = analyzer.analyze(Some("dat"), ftyp_file()[4..].to_vec()).unwrap();
    assert_eq!(info.format, "ISOBMFF");
}

#[test]
fn default_analyzer_reports_errors() {
    let analyzer = DefaultAnalyzer::with_strategy(true, DetectionStrategy::Extension);
    assert_eq!(message(analyzer.analyze(Some("txt"), ftyp_file())), "Unsupported format: Unknown file extension");
    assert_eq!(message(analyzer.analyze(Some("rm"), ftyp_file())), "Invalid format: Not a RealMedia file");
    let info = analyzer.analyze(Some("mp4"), rm_file()).unwrap();
    assert_eq!(info.format, "ISOBMFF");
    let by_content = DefaultAnalyzer::with_strategy(false, DetectionStrategy::Content);
    assert_eq!(
        message(by_content.analyze(Some("mp4"), ftyp_file())),
        "Unsupported format: Unknown magic number: [0, 0, 0, 20]"
    );
    assert!(matches!(by_content.analyze(Some("mp4"), Vec::new()), Err(MediaError::UnsupportedFormat(_))));
    let auto = DefaultAnalyzer::new(false);
    let mut cut = rm_file();
    cut.truncate(cut.len() - 3);
    let info = auto.analyze(Some("rm"), cut).unwrap();
    assert_eq!(info.format, "RealMedia");
    assert!(info.structure.is_empty());
    assert_eq!(message(auto.analyze(Some("rm"), Vec::new())), "Invalid format: Not a RealMedia file");
}
