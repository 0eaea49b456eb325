use argus::index::{FileMeta, Index, IndexEntry, IndexRead, INDEX_VERSION};
use argus::paths::{components, join};
use argus::search::{
    is_oversized, looks_binary, Extraction, FileOutcome, Lookup, ProgressHandle, SearchEngine, Tally, TextSource, WalkedFile,
};
use argus::types::{FileType, IndexConfig, SearchConfig, SearchResult, SearchStats};

/// A directory tree in memory: paths below the root, contents and times.
struct Tree {
    root: String,
    files: Vec<(String, Vec<u8>, u64)>,
}

impl Tree {
    fn new(files: &[(&str, &str)]) -> Tree {
        Tree {
            root: "/tree".to_string(),
            files: files
                .iter()
                .map(|(p, c)| (p.to_string(), c.as_bytes().to_vec(), 1000))
                .collect(),
        }
    }

    fn config(&self, pattern: &str) -> SearchConfig {
        SearchConfig {
            directory: self.root.clone(),
            pattern: pattern.to_string(),
            ..Default::default()
        }
    }

    fn file(&self, path: &str) -> Option<&(String, Vec<u8>, u64)> {
        self.files.iter().find(|(p, _, _)| join(&self.root, p) == path)
    }

    fn meta(&self, path: &str) -> Option<FileMeta> {
        self.file(path)
            .map(|(_, c, t)| FileMeta { modified: *t, size: c.len() as u64 })
    }

    /// The files that the walk reaches.
    fn walk(&self, engine: &SearchEngine) -> Vec<WalkedFile> {
        let mut out = Vec::new();
        for (path, contents, _) in &self.files {
            let parts = components(path);
            let mut reached = engine.config.max_depth.map_or(true, |d| parts.len() <= d);
            for (i, part) in parts.iter().enumerate() {
                let is_dir = i + 1 < parts.len();
                reached = reached && engine.should_process_entry(i + 1, part, is_dir);
            }
            if reached {
                let full = join(&self.root, path);
                let binary = engine.needs_probe(&full) && looks_binary(contents);
                out.push(WalkedFile { path: full, canonical: None, binary });
            }
        }
        out
    }

    fn extract(&self, path: &str, file_type: FileType) -> Extraction {
        let contents = &self.file(path).unwrap().1;
        if file_type == FileType::Pdf {
            return Extraction {
                text: String::new(),
                success: false,
                error: Some("not a PDF".to_string()),
            };
        }
        Extraction {
            text: String::from_utf8_lossy(contents).to_string(),
            success: true,
            error: None,
        }
    }

    fn search(&self, engine: &mut SearchEngine) -> (Vec<SearchResult>, SearchStats) {
        self.search_watched(engine, &mut ProgressHandle::default())
    }

    fn search_watched(
        &self,
        engine: &mut SearchEngine,
        progress: &mut ProgressHandle,
    ) -> (Vec<SearchResult>, SearchStats) {
        progress.reset();
        let walked = self.walk(engine);
        let mut tally = Tally::new();
        let files = engine.collect_files(&walked, &None);
        progress.set_total(files.len());
        for path in files {
            let meta = self.meta(&path);
            let source = match engine.lookup(&path, meta) {
                Lookup::Gone => {
                    tally.record(None, None);
                    progress.advance();
                    continue;
                }
                Lookup::Cached(text) => TextSource::Cached(text),
                Lookup::Extract(file_type) => TextSource::Extracted(self.extract(&path, file_type)),
            };
            let finding = engine.search_file_with_index(&path, meta.unwrap(), source);
            let result = finding.outcome.into_result(&path, 0.5f64.to_bits());
            tally.record(result, finding.entry);
            assert_eq!(progress.advance(), tally.stats.files_scanned);
        }
        engine.search(tally)
    }
}

fn engine(config: SearchConfig, index_config: IndexConfig) -> SearchEngine {
    match SearchEngine::new(config, index_config, IndexRead::Missing, 5) {
        Ok(engine) => engine,
        Err(e) => panic!("{}", e.message),
    }
}

fn run(tree: &Tree, config: SearchConfig) -> (Vec<SearchResult>, SearchStats) {
    let mut engine = engine(config, IndexConfig::default());
    tree.search(&mut engine)
}

#[test]
fn test_literal_search() {
    let tree = Tree::new(&[("test.txt", "Hello World\nHello Rust\nGoodbye World")]);
    let (results, stats) = run(&tree, tree.config("Hello"));
    assert_eq!(results.len(), 1);
    assert_eq!(results[0].matches.len(), 2);
    assert_eq!(stats.total_matches, 2);
    assert_eq!(results[0].matches[1].context, "Hello Rust");
}

#[test]
fn test_case_insensitive_search() {
    let tree = Tree::new(&[("test.txt", "hello HELLO Hello")]);
    let (results, _) = run(&tree, tree.config("hello"));
    assert_eq!(results.len(), 1);
    assert_eq!(results[0].matches.len(), 3);
    assert_eq!(results[0].matches[1].matched_text, "HELLO");
}

#[test]
fn test_regex_search() {
    let tree = Tree::new(&[("test.txt", "foo123 bar456 baz789")]);
    let config = SearchConfig { use_regex: true, ..tree.config(r"\w+\d+") };
    let (results, _) = run(&tree, config);
    assert_eq!(results.len(), 1);
    assert_eq!(results[0].matches.len(), 3);
}

#[test]
fn test_invalid_regex_returns_error() {
    let config = SearchConfig {
        directory: ".".into(),
        pattern: "[".into(),
        use_regex: true,
        ..Default::default()
    };
    let result = SearchEngine::new(config, IndexConfig::default(), IndexRead::Missing, 0);
    match result {
        Ok(_) => panic!("expected an error"),
        Err(e) => assert!(e.message.contains("unclosed character class")),
    }
}

#[test]
fn test_case_sensitive_literal_search() {
    let tree = Tree::new(&[("a.txt", "Hello HELLO hello")]);
    let config = SearchConfig { case_sensitive: true, ..tree.config("Hello") };
    let (results, _) = run(&tree, config);
    assert_eq!(results.len(), 1);
    assert_eq!(results[0].matches.len(), 1);
}

#[test]
fn test_no_matches_returns_empty() {
    let tree = Tree::new(&[("a.txt", "nothing here")]);
    let (results, stats) = run(&tree, tree.config("zzzzz"));
    assert!(results.is_empty());
    assert_eq!(stats.files_matched, 0);
}

#[test]
fn test_extension_filter() {
    let tree = Tree::new(&[("a.txt", "match"), ("b.log", "match")]);
    let config = SearchConfig { extensions: vec!["txt".into()], ..tree.config("match") };
    let (results, _) = run(&tree, config);
    assert_eq!(results.len(), 1);
    assert!(results[0].path.ends_with("a.txt"));
}

#[test]
fn test_extension_filter_with_dot_prefix() {
    let tree = Tree::new(&[("a.txt", "match"), ("b.log", "match")]);
    let config = SearchConfig { extensions: vec![".txt".into()], ..tree.config("match") };
    let (results, _) = run(&tree, config);
    assert_eq!(results.len(), 1);
}

#[test]
fn extension_filter_ignores_case_and_files_without_extension() {
    let tree = Tree::new(&[("a.TXT", "match"), ("b", "match"), (".txt", "match")]);
    let config = SearchConfig {
        extensions: vec!["..Txt".into()],
        include_hidden: true,
        ..tree.config("match")
    };
    let (results, stats) = run(&tree, config);
    assert_eq!(results.len(), 1);
    assert!(results[0].path.ends_with("a.TXT"));
    assert_eq!(stats.files_scanned, 1);
}

#[test]
fn test_hidden_files_skipped_by_default() {
    let tree = Tree::new(&[(".hidden.txt", "secret match"), ("visible.txt", "secret match")]);
    let (results, _) = run(&tree, tree.config("secret"));
    assert_eq!(results.len(), 1);
    assert!(results[0].path.ends_with("visible.txt"));
}

#[test]
fn test_hidden_files_included_when_enabled() {
    let tree = Tree::new(&[(".hidden.txt", "secret match"), ("visible.txt", "secret match")]);
    let config = SearchConfig { include_hidden: true, ..tree.config("secret") };
    let (results, _) = run(&tree, config);
    assert_eq!(results.len(), 2);
}

#[test]
fn test_max_depth_limits_descent() {
    let tree = Tree::new(&[("top.txt", "needle"), ("a/b/c/deep.txt", "needle")]);
    let config = SearchConfig { max_depth: Some(1), ..tree.config("needle") };
    let (results, _) = run(&tree, config);
    assert_eq!(results.len(), 1);
    assert!(results[0].path.ends_with("top.txt"));
}

#[test]
fn test_skipped_dirs_ignored() {
    let tree = Tree::new(&[("node_modules/bundle.js", "needle"), ("top.txt", "needle")]);
    let (results, _) = run(&tree, tree.config("needle"));
    assert_eq!(results.len(), 1);
    assert!(results[0].path.ends_with("top.txt"));
}

#[test]
fn skipped_names_are_those_of_directories() {
    let tree = Tree::new(&[("target", "needle"), (".git/x.txt", "needle")]);
    let config = SearchConfig { include_hidden: true, ..tree.config("needle") };
    let (results, _) = run(&tree, config);
    assert_eq!(results.len(), 1);
    assert!(results[0].path.ends_with("target"));
}

#[test]
fn test_limit_truncates_results() {
    let names = ["f0.txt", "f1.txt", "f2.txt", "f3.txt", "f4.txt"];
    let files: Vec<(&str, &str)> = names.iter().map(|n| (*n, "needle")).collect();
    let tree = Tree::new(&files);
    let config = SearchConfig { limit: 2, ..tree.config("needle") };
    let (results, stats) = run(&tree, config);
    assert_eq!(results.len(), 2);
    assert_eq!(stats.files_matched, 5);
}

#[test]
fn test_save_and_use_index_roundtrip() {
    let tree = Tree::new(&[("a.txt", "hello world")]);
    let save = IndexConfig {
        save_index: true,
        use_index: false,
        index_file: Some("/index/my_index.json".into()),
    };
    let mut first = engine(tree.config("hello"), save);
    let (results, _) = tree.search(&mut first);
    assert_eq!(results.len(), 1);
    let index = first.index.take().unwrap();
    assert_eq!(index.len(), 1);

    let use_it = IndexConfig {
        save_index: false,
        use_index: true,
        index_file: Some("/index/my_index.json".into()),
    };
    let mut second =
        match SearchEngine::new(tree.config("hello"), use_it, IndexRead::Parsed(index), 9) {
            Ok(e) => e,
            Err(e) => panic!("{}", e.message),
        };
    let meta = tree.meta("/tree/a.txt");
    assert!(matches!(second.lookup("/tree/a.txt", meta), Lookup::Cached(t) if t == "hello world"));
    let (results, _) = tree.search(&mut second);
    assert_eq!(results.len(), 1);
}

#[test]
fn test_stats_recorded() {
    let tree = Tree::new(&[("a.txt", "needle"), ("b.txt", "other")]);
    let (_results, stats) = run(&tree, tree.config("needle"));
    assert_eq!(stats.files_scanned, 2);
    assert_eq!(stats.files_matched, 1);
    assert_eq!(stats.total_matches, 1);
}

#[test]
fn test_extraction_failure_counted_as_skipped() {
    let tree = Tree::new(&[("broken.pdf", "this is not a PDF")]);
    let (results, stats) = run(&tree, tree.config("whatever"));
    assert!(results.is_empty());
    assert_eq!(stats.files_skipped, 1);
    assert_eq!(stats.errors, vec![("/tree/broken.pdf".to_string(), "not a PDF".to_string())]);
}

#[test]
fn extraction_failure_without_a_reason_is_unknown() {
    let tree = Tree::new(&[]);
    let e = engine(tree.config("x"), IndexConfig::default());
    let failed = Extraction { text: String::new(), success: false, error: None };
    match e.search_file("/tree/a.pdf", failed) {
        FileOutcome::Failed(result) => {
            assert_eq!(result.error.as_deref(), Some("Unknown error"));
            assert_eq!(result.file_type, FileType::Pdf);
        }
        _ => panic!("expected a failure"),
    }
    let empty = Extraction { text: "nothing".into(), success: true, error: None };
    assert!(matches!(e.search_file("/tree/a.txt", empty), FileOutcome::NoMatch));
}

#[test]
fn test_index_rebuild_when_load_fails() {
    let tree = Tree::new(&[("a.txt", "needle here")]);
    let index_config = IndexConfig {
        save_index: true,
        use_index: false,
        index_file: Some("/tree/corrupt.json".into()),
    };
    let read = IndexRead::Malformed("not valid json at all".into());
    let mut e = match SearchEngine::new(tree.config("needle"), index_config, read, 77) {
        Ok(e) => e,
        Err(e) => panic!("{}", e.message),
    };
    assert_eq!(e.index.as_ref().unwrap().created_at, 77);
    let (results, _) = tree.search(&mut e);
    assert_eq!(results.len(), 1);
    let index = e.index.unwrap();
    assert_eq!(index.get("/tree/a.txt").unwrap().extracted_text, "needle here");
}

#[test]
fn index_that_cannot_be_used_is_dropped_where_it_is_not_saved() {
    let tree = Tree::new(&[]);
    let index_config = IndexConfig { save_index: false, use_index: true, index_file: None };
    let stale = Index::without_entries(2, "/tree".into(), 0, 0);
    let e = match SearchEngine::new(tree.config("x"), index_config, IndexRead::Parsed(stale), 0) {
        Ok(e) => e,
        Err(e) => panic!("{}", e.message),
    };
    assert!(e.index.is_none());
}

#[test]
fn test_find_matches_literal_direct() {
    let config = SearchConfig { directory: ".".into(), pattern: "foo".into(), ..Default::default() };
    let engine = engine(config, IndexConfig::default());
    let matches = engine.find_matches("foo FOO Foo bar");
    assert_eq!(matches.len(), 3);
}

#[test]
fn test_find_matches_regex_direct() {
    let config = SearchConfig {
        directory: ".".into(),
        pattern: r"\d+".into(),
        use_regex: true,
        ..Default::default()
    };
    let engine = engine(config, IndexConfig::default());
    let matches = engine.find_matches("abc 123 def 456");
    assert_eq!(matches.len(), 2);
    assert_eq!(matches[0].matched_text, "123");
    assert_eq!(matches[1].context, "abc 123 def 456");
}

#[test]
fn regex_flags_reach_the_crate() {
    let with = |case_sensitive: bool, pattern: &str, text: &str| -> usize {
        let config = SearchConfig {
            pattern: pattern.into(),
            use_regex: true,
            case_sensitive,
            ..Default::default()
        };
        engine(config, IndexConfig::default()).find_matches(text).len()
    };
    assert_eq!(with(false, "abc", "ABC abc"), 2);
    assert_eq!(with(true, "abc", "ABC abc"), 1);
    assert_eq!(with(true, "^a", "ab\nac\nba"), 2);
}

#[test]
fn literal_search_finds_overlapping_matches() {
    let config = SearchConfig { pattern: "aa".into(), case_sensitive: true, ..Default::default() };
    let e = engine(config, IndexConfig::default());
    assert_eq!(e.find_matches("aaaa\nbaab").len(), 4);
}

fn found(pattern: &str, case_sensitive: bool, text: &str) -> Vec<(String, String)> {
    let config = SearchConfig { pattern: pattern.into(), case_sensitive, ..Default::default() };
    let e = engine(config, IndexConfig::default());
    e.find_matches(text).into_iter().map(|m| (m.matched_text, m.context)).collect()
}

fn texts(pattern: &str, case_sensitive: bool, text: &str) -> Vec<String> {
    found(pattern, case_sensitive, text).into_iter().map(|m| m.0).collect()
}

#[test]
fn literal_search_of_an_empty_pattern_stops_at_every_character() {
    assert_eq!(texts("", true, "abc\n\nd"), ["", "", "", "", ""]);
    assert_eq!(texts("", true, "éü").len(), 2);
    assert_eq!(texts("", false, "İ").len(), 1);
    assert!(texts("", true, "").is_empty());
}

#[test]
fn literal_search_finds_characters_of_any_width() {
    assert_eq!(found("é", true, "é"), [("é".to_string(), "é".to_string())]);
    assert_eq!(texts("é", true, "café, été"), ["é", "é", "é"]);
    assert_eq!(texts("привет", true, "привет, Привет"), ["привет"]);
    assert_eq!(texts("привет", false, "привет, Привет"), ["привет", "Привет"]);
    assert_eq!(texts("日本", true, "日本日本"), ["日本", "日本"]);
    assert_eq!(texts("ああ", true, "あああ"), ["ああ", "ああ"]);
    assert_eq!(texts("Café", false, "un CAFÉ, un café"), ["CAFÉ", "café"]);
    assert!(texts("é", true, "cafe").is_empty());
}

#[test]
fn matched_text_is_what_stands_in_the_line() {
    assert_eq!(texts("needle", false, "İ needle here"), ["needle"]);
    assert_eq!(texts("needle", false, "\u{212a} NEEDLE here"), ["NEEDLE"]);
    assert_eq!(texts("k", false, "5 \u{212a}"), ["\u{212a}"]);
    assert_eq!(texts("i", false, "xİy"), ["İ"]);
    assert_eq!(texts("\u{307}y", false, "xİy"), ["İy"]);
    assert_eq!(texts("οδος", false, "ΟΔΟΣ"), ["ΟΔΟΣ"]);
}

#[test]
fn file_with_a_match_gives_a_finding() {
    let tree = Tree::new(&[("été.txt", "L'été en été")]);
    let config = SearchConfig { case_sensitive: true, ..tree.config("été") };
    let (results, stats) = run(&tree, config);
    assert_eq!(results.len(), 1);
    assert_eq!(results[0].matches.len(), 2);
    assert_eq!(stats.total_matches, 2);
}

#[test]
fn counts_by_type_add_up_to_the_files_matched() {
    let tree = Tree::new(&[
        ("a.rs", "needle"),
        ("b.rs", "needle"),
        ("c.txt", "needle"),
        ("d.pdf", "needle"),
        ("e.txt", "nothing"),
    ]);
    let config = SearchConfig { limit: 1, ..tree.config("needle") };
    let (results, stats) = run(&tree, config);
    assert_eq!(results.len(), 1);
    assert_eq!(stats.files_scanned, 5);
    assert_eq!(stats.files_matched, 3);
    assert_eq!(stats.files_skipped, 1);
    let sum: usize = stats.by_type.counts.iter().map(|c| c.1).sum();
    assert_eq!(sum, stats.files_matched);
}

#[test]
fn saved_index_keeps_its_header_and_loads_again() {
    let tree = Tree::new(&[("a.txt", "hello"), ("b.txt", "nothing")]);
    let save = IndexConfig { save_index: true, use_index: true, index_file: Some("/i.json".into()) };
    let mut old = Index::new_at("/old".into(), 11);
    let kept = IndexEntry::new("/tree/c.txt".into(), FileType::Text, "kept".into(), 1, 4);
    old.upsert_entry(kept);
    let gone = IndexEntry::new("/tree/gone.txt".into(), FileType::Text, "gone".into(), 1, 4);
    old.upsert_entry(gone);
    let read = IndexRead::Parsed(old);
    let mut e = match SearchEngine::new(tree.config("hello"), save, read, 99) {
        Ok(e) => e,
        Err(e) => panic!("{}", e.message),
    };
    tree.search(&mut e);
    let mut index = e.index.unwrap();
    assert_eq!((index.version, index.created_at), (INDEX_VERSION, 11));
    assert_eq!(index.directory, "/old");
    let present: Vec<bool> = index.paths().iter().map(|p| !p.contains("gone")).collect();
    index.prune_missing(&present);
    index.stamp(100);
    let loaded = Index::from_entries(
        index.version,
        index.directory.clone(),
        index.created_at,
        index.updated_at,
        index.entries.clone(),
    );
    let loaded = match Index::load("/i.json", IndexRead::Parsed(loaded)) {
        Ok(index) => index,
        Err(e) => panic!("{}", e.message()),
    };
    assert_eq!(loaded.len(), 3);
    assert_eq!(loaded.get("/tree/a.txt").unwrap().extracted_text, "hello");
    assert_eq!(loaded.get("/tree/b.txt").unwrap().extracted_text, "nothing");
    assert_eq!(loaded.get("/tree/c.txt").unwrap().extracted_text, "kept");
    assert!(loaded.get("/tree/gone.txt").is_none());
}

#[test]
fn test_multiple_files_sorted_by_match_count() {
    let tree = Tree::new(&[("one.txt", "needle"), ("many.txt", "needle needle needle\nneedle")]);
    let (results, _) = run(&tree, tree.config("needle"));
    assert_eq!(results.len(), 2);
    assert!(results[0].path.ends_with("many.txt"));
}

#[test]
fn set_quiet_is_respected_without_breaking_results() {
    let tree = Tree::new(&[("a.txt", "needle")]);
    let mut e = engine(tree.config("needle"), IndexConfig::default());
    e.set_quiet(true);
    assert!(e.quiet);
    let (results, _) = tree.search(&mut e);
    assert_eq!(results.len(), 1);
}

#[test]
fn index_file_is_never_included_in_results() {
    let tree = Tree::new(&[
        ("hit.txt", "distinctive-token payload"),
        (".argus_index.json", "distinctive-token"),
        ("sub/.argus_index.json", "distinctive-token"),
    ]);
    let config = SearchConfig { include_hidden: true, ..tree.config("distinctive-token") };
    let (results, _) = run(&tree, config);
    assert_eq!(results.len(), 1);
    let paths: Vec<String> = results.iter().map(|r| r.path.clone()).collect();
    assert!(!paths.iter().any(|p| p.ends_with(".argus_index.json")));
}

#[test]
fn custom_index_file_path_is_also_excluded() {
    let tree = Tree::new(&[("a.txt", "token-x content"), ("my_custom.json", "token-x")]);
    let index_config = IndexConfig {
        save_index: true,
        use_index: false,
        index_file: Some("/tree/./my_custom.json".into()),
    };
    let mut e = engine(tree.config("token-x"), index_config);
    let (results, _) = tree.search(&mut e);
    let paths: Vec<String> = results.iter().map(|r| r.path.clone()).collect();
    assert_eq!(paths, vec!["/tree/a.txt".to_string()]);
}

#[test]
fn index_file_is_excluded_by_its_canonical_path() {
    let tree = Tree::new(&[]);
    let index_config = IndexConfig {
        save_index: true,
        use_index: false,
        index_file: Some("link.json".into()),
    };
    let e = engine(tree.config("x"), index_config);
    let walked = WalkedFile {
        path: "/tree/real.json".into(),
        canonical: Some("/real/real.json".into()),
        binary: false,
    };
    assert!(!e.select_file(&walked, &Some("/real//real.json".into())));
    assert!(e.select_file(&walked, &Some("/other.json".into())));
    assert!(e.select_file(&walked, &None));
}

#[test]
fn images_are_searched_only_with_ocr() {
    let tree = Tree::new(&[]);
    let file = |path: &str| WalkedFile { path: path.into(), canonical: None, binary: true };
    let mut e = engine(tree.config("x"), IndexConfig::default());
    assert!(!e.select_file(&file("/tree/a.PNG"), &None));
    assert!(e.select_file(&file("/tree/a.pdf"), &None));
    assert!(!e.select_file(&file("/tree/a.txt"), &None));
    assert!(!e.needs_probe("/tree/a.png"));
    assert!(e.needs_probe("/tree/a.txt"));
    e.config.ocr.enabled = true;
    assert!(e.select_file(&file("/tree/a.PNG"), &None));
}

#[test]
fn finds_match_in_nested_directory() {
    let tree = Tree::new(&[("a/b/note.txt", "deeply buried needle")]);
    let (results, stats) = run(&tree, tree.config("needle"));
    assert_eq!(results.len(), 1);
    assert_eq!(stats.total_matches, 1);
    assert!(results[0].path.ends_with("note.txt"));
}

#[test]
fn multiple_file_types_aggregated() {
    let tree = Tree::new(&[
        ("readme.md", "TODO: refactor"),
        ("main.rs", "// TODO: fix this"),
        ("notes.txt", "no match here"),
    ]);
    let (results, stats) = run(&tree, tree.config("TODO"));
    assert_eq!(results.len(), 2);
    assert_eq!(stats.files_scanned, 3);
    assert_eq!(stats.files_matched, 2);
    assert_eq!(stats.by_type.get(FileType::Text), Some(1));
    assert_eq!(stats.by_type.get(FileType::Code), Some(1));
}

#[test]
fn regex_with_case_sensitivity() {
    let tree = Tree::new(&[("a.txt", "Error: 42\nerror: 7\nOKAY")]);
    let config = SearchConfig {
        use_regex: true,
        case_sensitive: true,
        ..tree.config(r"^Error:\s+\d+")
    };
    let (results, _) = run(&tree, config);
    assert_eq!(results.len(), 1);
    assert_eq!(results[0].matches.len(), 1);
    assert_eq!(results[0].matches[0].matched_text, "Error: 42");
}

#[test]
fn binary_files_are_skipped() {
    let mut tree = Tree::new(&[("real.txt", "hello match")]);
    tree.files.push(("blob.dat".into(), vec![0u8; 4096], 1000));
    let (results, _) = run(&tree, tree.config("match"));
    assert_eq!(results.len(), 1);
    assert!(results[0].path.ends_with("real.txt"));
}

#[test]
fn index_reused_after_initial_save() {
    let tree = Tree::new(&[("a.txt", "alpha beta gamma"), ("b.txt", "only gamma here")]);
    let save = IndexConfig { save_index: true, use_index: false, index_file: Some("/i.json".into()) };
    let mut first = engine(tree.config("gamma"), save);
    let (results_first, _) = tree.search(&mut first);
    assert_eq!(results_first.len(), 2);
    let index = first.index.unwrap();

    let use_it = IndexConfig { save_index: false, use_index: true, index_file: Some("/i.json".into()) };
    let read = IndexRead::Parsed(index);
    let mut second = match SearchEngine::new(tree.config("gamma"), use_it, read, 0) {
        Ok(e) => e,
        Err(e) => panic!("{}", e.message),
    };
    let (results_second, _) = tree.search(&mut second);
    assert_eq!(results_second.len(), 2);
}

#[test]
fn index_survives_file_modification() {
    let mut tree = Tree::new(&[("doc.txt", "alpha alpha")]);
    let save = IndexConfig { save_index: true, use_index: false, index_file: Some("/i.json".into()) };
    let mut first = engine(tree.config("alpha"), save);
    let (_, stats) = tree.search(&mut first);
    assert_eq!(stats.total_matches, 2);

    tree.files[0].1 = b"alpha alpha alpha alpha".to_vec();
    tree.files[0].2 = 2000;
    let both = IndexConfig { save_index: true, use_index: true, index_file: Some("/i.json".into()) };
    let read = IndexRead::Parsed(first.index.unwrap());
    let mut second = match SearchEngine::new(tree.config("alpha"), both, read, 0) {
        Ok(e) => e,
        Err(e) => panic!("{}", e.message),
    };
    let (_, stats) = tree.search(&mut second);
    assert_eq!(stats.total_matches, 4);
    assert_eq!(second.index.unwrap().get("/tree/doc.txt").unwrap().file_size, 23);
}

#[test]
fn extensions_filter_cooperates_with_skipped_dirs() {
    let tree = Tree::new(&[("target/binary.rs", "needle"), ("lib.rs", "needle")]);
    let config = SearchConfig { extensions: vec!["rs".into()], ..tree.config("needle") };
    let (results, _) = run(&tree, config);
    assert_eq!(results.len(), 1);
    assert!(results[0].path.ends_with("lib.rs"));
}

#[test]
fn file_that_is_gone_is_scanned_and_nothing_else() {
    let tree = Tree::new(&[]);
    let e = engine(tree.config("x"), IndexConfig::default());
    assert!(matches!(e.lookup("/tree/gone.txt", None), Lookup::Gone));
    let mut tally = Tally::new();
    tally.record(None, None);
    assert_eq!(tally.stats.files_scanned, 1);
    assert!(tally.results.is_empty());
}

#[test]
fn files_over_fifty_megabytes_are_too_large() {
    assert!(!is_oversized(50 * 1024 * 1024));
    assert!(is_oversized(50 * 1024 * 1024 + 1));
}

#[test]
fn progress_handle_reports_total_and_current_after_search() {
    let names = ["f0.txt", "f1.txt", "f2.txt", "f3.txt"];
    let files: Vec<(&str, &str)> = names.iter().map(|n| (*n, "needle")).collect();
    let tree = Tree::new(&files);
    let mut engine = engine(tree.config("needle"), IndexConfig::default());
    let mut progress = ProgressHandle::default();
    let (_results, _stats) = tree.search_watched(&mut engine, &mut progress);
    assert_eq!(progress.total, 4);
    assert_eq!(progress.current, 4);
}

#[test]
fn progress_handle_resets_between_runs() {
    let tree = Tree::new(&[("a.txt", "needle")]);
    let mut engine = engine(tree.config("needle"), IndexConfig::default());
    let mut progress = ProgressHandle::default();
    let _ = tree.search_watched(&mut engine, &mut progress);
    let after_first = progress.current;
    assert!(after_first > 0);
    let _ = tree.search_watched(&mut engine, &mut progress);
    assert_eq!(
        progress.current,
        after_first,
        "second run should end at the same total as the first"
    );
}

#[test]
fn progress_counts_around() {
    let mut progress = ProgressHandle { current: usize::MAX, total: 3 };
    assert_eq!(progress.advance(), 0);
    assert_eq!(progress, ProgressHandle { current: 0, total: 3 });
}
