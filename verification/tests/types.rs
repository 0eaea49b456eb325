use argus::types::{
    default_cli_engine, FileType, IndexConfig, Match, OcrConfig, OcrEngine, SearchConfig,
    SearchResult, SearchStats, FULL_CONFIDENCE,
};
use std::cmp::Ordering;

fn full() -> u64 {
    1.0f64.to_bits()
}

fn matches(n: usize) -> Vec<Match> {
    vec![Match::new("x".into(), "x".into()); n]
}

#[test]
fn file_type_from_extension_variants() {
    assert_eq!(FileType::from_extension("md"), FileType::Text);
    assert_eq!(FileType::from_extension("TOML"), FileType::Text);
    assert_eq!(FileType::from_extension("cpp"), FileType::Code);
    assert_eq!(FileType::from_extension("kt"), FileType::Code);
    assert_eq!(FileType::from_extension("pdf"), FileType::Pdf);
    assert_eq!(FileType::from_extension("docx"), FileType::Docx);
    assert_eq!(FileType::from_extension("JPEG"), FileType::Image);
    assert_eq!(FileType::from_extension("bin"), FileType::Other);
    assert_eq!(FileType::from_extension(""), FileType::Other);
}

#[test]
fn file_type_icon_and_color_distinct() {
    let variants = [
        FileType::Text,
        FileType::Code,
        FileType::Pdf,
        FileType::Docx,
        FileType::Image,
        FileType::Other,
    ];
    for v in variants {
        assert!(!v.icon().is_empty());
        assert!(!v.color().is_empty());
    }
}

#[test]
fn file_type_display_formats() {
    assert_eq!(FileType::Text.name(), "Text");
    assert_eq!(FileType::Code.name(), "Code");
    assert_eq!(FileType::Pdf.name(), "PDF");
    assert_eq!(FileType::Docx.name(), "DOCX");
    assert_eq!(FileType::Image.name(), "Image");
    assert_eq!(FileType::Other.name(), "Other");
}

#[test]
fn match_new_stores_fields() {
    let m = Match::new("foo".into(), "line with foo".into());
    assert_eq!(m.matched_text, "foo");
    assert_eq!(m.context, "line with foo");
}

#[test]
fn search_result_new_computes_confidence() {
    let r = SearchResult::new("a.txt".into(), FileType::Text, matches(5), 0.4f64.to_bits());
    assert!(r.confidence > 0 && r.confidence <= FULL_CONFIDENCE);
    assert_eq!(r.match_count(), 5);
}

#[test]
fn search_result_score_counts_up_to_one() {
    let r = SearchResult::new("a.txt".into(), FileType::Text, matches(5), 7.5f64.to_bits());
    assert_eq!(f64::from_bits(r.confidence), 1.0);
}

#[test]
fn search_result_empty_confidence_is_zero() {
    let r = SearchResult::new("a.txt".into(), FileType::Text, vec![], full());
    assert_eq!(f64::from_bits(r.confidence), 0.0);
    assert_eq!(r.match_count(), 0);
}

#[test]
fn search_result_with_error_has_no_matches() {
    let r = SearchResult::with_error("a.txt".into(), FileType::Text, "boom".into());
    assert!(r.matches.is_empty());
    assert_eq!(f64::from_bits(r.confidence), 0.0);
    assert_eq!(r.error.as_deref(), Some("boom"));
}

#[test]
fn search_result_filename_and_preview() {
    let ms = vec![Match::new("bar".into(), "  this is a line containing bar here".into())];
    let r = SearchResult::new("/tmp/foo.txt".into(), FileType::Text, ms, full());
    assert_eq!(r.filename(), "foo.txt");
    let preview = r.preview(10).unwrap();
    assert!(preview.ends_with("..."));
    assert!(preview.len() <= 13);
    assert_eq!(preview, "this is a ...");
}

#[test]
fn search_result_preview_short_context_not_truncated() {
    let ms = vec![Match::new("x".into(), "short".into())];
    let r = SearchResult::new("a.txt".into(), FileType::Text, ms, full());
    assert_eq!(r.preview(80).unwrap(), "short");
}

#[test]
fn search_result_preview_none_when_empty() {
    let r = SearchResult::new("a.txt".into(), FileType::Text, vec![], full());
    assert!(r.preview(80).is_none());
}

#[test]
fn preview_is_refused_inside_a_character() {
    let ms = vec![Match::new("é".into(), "éé".into())];
    let r = SearchResult::new("a.txt".into(), FileType::Text, ms, full());
    assert!(!r.can_preview(1));
    assert!(r.can_preview(2));
    assert!(r.can_preview(3) == false);
    assert!(r.can_preview(4));
    assert_eq!(r.preview(2).unwrap(), "é...");
}

#[test]
fn search_result_ord_sorts_by_match_count_desc() {
    let make = |count: usize, path: &str| {
        SearchResult::new(path.to_string(), FileType::Text, matches(count), full())
    };
    let v = argus::ranking::rank(vec![make(1, "a"), make(5, "b"), make(3, "c")]);
    assert_eq!(v[0].path, "b");
    assert_eq!(v[1].path, "c");
    assert_eq!(v[2].path, "a");
}

#[test]
fn ranking_is_stable_and_uses_the_confidence() {
    let make = |count: usize, path: &str, score: f64| {
        SearchResult::new(path.to_string(), FileType::Text, matches(count), score.to_bits())
    };
    let v = argus::ranking::rank(vec![
        make(2, "a", 0.5),
        make(2, "b", 0.75),
        make(2, "c", 0.5),
        make(3, "d", 0.1),
        make(2, "e", 0.75),
    ]);
    let order: Vec<&str> = v.iter().map(|r| r.path.as_str()).collect();
    assert_eq!(order, vec!["d", "b", "e", "a", "c"]);
}

#[test]
fn search_result_partial_ord_matches_ord() {
    let a = SearchResult::new("a".into(), FileType::Text, matches(1), full());
    let b = SearchResult::new("b".into(), FileType::Text, vec![], full());
    assert_eq!(a.partial_cmp(&b), Some(a.cmp(&b)));
    assert_eq!(a.cmp(&b), Ordering::Less);
}

#[test]
fn search_result_partial_eq_by_path() {
    let a = SearchResult::with_error("x".into(), FileType::Text, "e".into());
    let b = SearchResult::with_error("x".into(), FileType::Code, "other".into());
    assert_eq!(a, b);
    let c = SearchResult::with_error("./x/".into(), FileType::Code, "other".into());
    assert!(a != c);
    let d = SearchResult::with_error("x//./".into(), FileType::Code, "other".into());
    assert!(a == d);
}

#[test]
fn ocr_config_default_disabled() {
    let cfg = OcrConfig::default();
    assert!(!cfg.enabled);
    assert!(!cfg.fast_mode);
    assert_eq!(cfg.language, "eng");
}

#[test]
fn ocr_config_fast_enabled() {
    let cfg = OcrConfig::fast();
    assert!(cfg.enabled);
    assert!(cfg.fast_mode);
    assert_eq!(cfg.psm, Some(6));
    assert_eq!(cfg.oem, Some(1));
}

#[test]
fn search_config_default_is_sensible() {
    let cfg = SearchConfig::default();
    assert_eq!(cfg.directory, ".");
    assert!(cfg.pattern.is_empty());
    assert!(!cfg.case_sensitive);
    assert!(!cfg.use_regex);
    assert_eq!(cfg.limit, 20);
    assert!(cfg.extensions.is_empty());
}

#[test]
fn index_config_get_index_path_default() {
    let cfg = IndexConfig::default();
    assert_eq!(cfg.get_index_path("/tmp/project"), "/tmp/project/.argus_index.json");
}

#[test]
fn index_config_get_index_path_custom() {
    let cfg = IndexConfig {
        save_index: true,
        use_index: true,
        index_file: Some("/var/argus.json".into()),
    };
    assert_eq!(cfg.get_index_path("/tmp/project"), "/var/argus.json");
}

#[test]
fn search_stats_increments() {
    let mut s = SearchStats::new();
    s.inc_scanned();
    s.inc_scanned();
    s.inc_skipped();
    assert_eq!(s.files_scanned, 2);
    assert_eq!(s.files_skipped, 1);
    assert_eq!(s.files_matched, 0);
}

#[test]
fn search_stats_add_result_updates_by_type() {
    let mut s = SearchStats::new();
    let result = SearchResult::new("f.rs".into(), FileType::Code, matches(3), full());
    s.add_result(&result);
    assert_eq!(s.files_matched, 1);
    assert_eq!(s.total_matches, 3);
    assert_eq!(s.by_type.get(FileType::Code), Some(1));
    assert_eq!(s.by_type.get(FileType::Text), None);
    s.add_result(&result);
    assert_eq!(s.by_type.get(FileType::Code), Some(2));
}

#[test]
fn search_stats_add_result_ignores_empty_matches() {
    let mut s = SearchStats::new();
    let result = SearchResult::new("f.rs".into(), FileType::Code, vec![], full());
    s.add_result(&result);
    assert_eq!(s.files_matched, 0);
    assert_eq!(s.total_matches, 0);
    assert!(s.by_type.is_empty());
}

#[test]
fn default_engine_prefers_tesseract_then_ocrs() {
    assert_eq!(default_cli_engine(true, true, true), OcrEngine::Tesseract);
    assert_eq!(default_cli_engine(false, true, true), OcrEngine::Ocrs);
    assert_eq!(default_cli_engine(false, false, true), OcrEngine::VisionLlm);
    assert_eq!(default_cli_engine(false, false, false), OcrEngine::Tesseract);
}

#[test]
fn documented_extensions_have_their_types() {
    let lists = [
        (
            FileType::Text,
            "txt md markdown rst log csv json yaml yml toml xml html",
        ),
        (FileType::Code, "rs py js ts jsx tsx java c cpp go rb php swift"),
        (FileType::Pdf, "pdf"),
        (FileType::Docx, "docx"),
        (FileType::Image, "png jpg jpeg gif bmp tiff webp"),
    ];
    for (file_type, extensions) in lists {
        for ext in extensions.split(' ') {
            assert_eq!(FileType::from_extension(ext), file_type, "{ext}");
            assert_eq!(FileType::from_extension(&ext.to_uppercase()), file_type, "{ext}");
        }
    }
    assert_eq!(FileType::from_extension("\u{212a}T"), FileType::Code);
}
