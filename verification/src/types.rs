//! Core data types: files, matches, results, options and statistics.

use crate::paths::{file_name, join, same_path};
use crate::text::{copied, joined, lowercase, one_of, trim};
use std::cmp::Ordering;
use vstd::prelude::*;
use vstd::std_specs::cmp::{PartialEqSpecImpl, PartialOrdSpecImpl};

verus! {

// ---- File types -----------------------------------------------------------

/// The type of a file that is searched.
#[derive(Debug, Clone, Copy, PartialEq, Eq, Hash, Structural)]
pub enum FileType {
    /// Plain text files (.txt, .md, etc.)
    Text,
    /// Source code files
    Code,
    /// PDF documents
    Pdf,
    /// Microsoft Word documents (.docx)
    Docx,
    /// Image files (when OCR is enabled)
    Image,
    /// Unknown/Other file types
    Other,
}

pub const TEXT_EXTENSIONS: [&'static str; 18] = [
    "txt", "md", "markdown", "rst", "log", "csv", "tsv", "json", "yaml", "yml", "toml", "ini",
    "cfg", "conf", "xml", "html", "htm", "css",
];

pub const CODE_EXTENSIONS: [&'static str; 53] = [
    "rs", "py", "js", "ts", "jsx", "tsx", "java", "c", "cpp", "cc", "cxx", "h", "hpp", "go", "rb",
    "php", "swift", "kt", "kts", "scala", "sh", "bash", "zsh", "fish", "ps1", "bat", "cmd", "sql",
    "r", "lua", "pl", "pm", "ex", "exs", "erl", "hrl", "hs", "lhs", "ml", "mli", "fs", "fsi", "fsx",
    "clj", "cljs", "cljc", "nim", "zig", "v", "d", "dart", "vue", "svelte",
];

pub const IMAGE_EXTENSIONS: [&'static str; 8] = [
    "png", "jpg", "jpeg", "gif", "bmp", "tiff", "tif", "webp",
];

/// The file type that a lowercase extension stands for.
pub open spec fn type_of_extension(ext: Seq<char>) -> FileType {
    if crate::text::listed(ext, TEXT_EXTENSIONS@) {
        FileType::Text
    } else if crate::text::listed(ext, CODE_EXTENSIONS@) {
        FileType::Code
    } else if ext == "pdf"@ {
        FileType::Pdf
    } else if ext == "docx"@ {
        FileType::Docx
    } else if crate::text::listed(ext, IMAGE_EXTENSIONS@) {
        FileType::Image
    } else {
        FileType::Other
    }
}

impl FileType {
    /// Get the emoji icon for this file type.
    pub fn icon(&self) -> (r: &'static str)
        ensures
            r@ == (match *self {
                FileType::Text => "📄"@,
                FileType::Code => "💻"@,
                FileType::Pdf => "📕"@,
                FileType::Docx => "📘"@,
                FileType::Image => "🖼️ "@,
                FileType::Other => "📎"@,
            }),
    {
        match self {
            FileType::Text => "📄",
            FileType::Code => "💻",
            FileType::Pdf => "📕",
            FileType::Docx => "📘",
            FileType::Image => "🖼️ ",
            FileType::Other => "📎",
        }
    }

    /// Get the color name for this file type.
    pub fn color(&self) -> (r: &'static str)
        ensures
            r@ == (match *self {
                FileType::Code => "cyan"@,
                FileType::Pdf => "red"@,
                FileType::Docx => "blue"@,
                FileType::Image => "magenta"@,
                FileType::Text => "white"@,
                FileType::Other => "white"@,
            }),
    {
        match self {
            FileType::Code => "cyan",
            FileType::Pdf => "red",
            FileType::Docx => "blue",
            FileType::Image => "magenta",
            FileType::Text => "white",
            FileType::Other => "white",
        }
    }

    /// Detect file type from extension.
    pub fn from_extension(ext: &str) -> (r: FileType)
        ensures
            r == type_of_extension(crate::text::lower_of(ext@)),
    {
        let lower = lowercase(ext);
        let e = lower.as_str();
        if one_of(e, TEXT_EXTENSIONS.as_slice()) {
            FileType::Text
        } else if one_of(e, CODE_EXTENSIONS.as_slice()) {
            FileType::Code
        } else if crate::text::same_text(e, "pdf") {
            FileType::Pdf
        } else if crate::text::same_text(e, "docx") {
            FileType::Docx
        } else if one_of(e, IMAGE_EXTENSIONS.as_slice()) {
            FileType::Image
        } else {
            FileType::Other
        }
    }

    /// The name of this file type, as it is shown to the user.
    pub open spec fn name_of(self) -> Seq<char> {
        match self {
            FileType::Text => "Text"@,
            FileType::Code => "Code"@,
            FileType::Pdf => "PDF"@,
            FileType::Docx => "DOCX"@,
            FileType::Image => "Image"@,
            FileType::Other => "Other"@,
        }
    }

    /// Get the name of this file type.
    pub fn name(&self) -> (r: &'static str)
        ensures
            r@ == self.name_of(),
    {
        match self {
            FileType::Text => "Text",
            FileType::Code => "Code",
            FileType::Pdf => "PDF",
            FileType::Docx => "DOCX",
            FileType::Image => "Image",
            FileType::Other => "Other",
        }
    }
}

// ---- Matches and results --------------------------------------------------

/// A single match within a file.
#[derive(Debug, Clone)]
pub struct Match {
    /// The matched text content.
    pub matched_text: String,
    /// Context around the match (the full line or surrounding text).
    pub context: String,
}

/// What a match consists of.
pub struct MatchView {
    pub matched_text: Seq<char>,
    pub context: Seq<char>,
}

impl View for Match {
    type V = MatchView;

    open spec fn view(&self) -> MatchView {
        MatchView { matched_text: self.matched_text@, context: self.context@ }
    }
}

/// The views of a sequence of matches.
pub open spec fn match_views(matches: Seq<Match>) -> Seq<MatchView> {
    matches.map_values(|m: Match| m@)
}

impl Match {
    /// Create a new match.
    pub fn new(matched_text: String, context: String) -> (r: Match)
        ensures
            r@ == (MatchView { matched_text: matched_text@, context: context@ }),
    {
        Match { matched_text, context }
    }
}

/// The confidence of a full score, 1.0.
pub const FULL_CONFIDENCE: u64 = 0x3ff0_0000_0000_0000;

/// The search result for a single file.
#[derive(Debug, Clone)]
pub struct SearchResult {
    /// Path to the file.
    pub path: String,
    /// Type of the file.
    pub file_type: FileType,
    /// All matches found in this file.
    pub matches: Vec<Match>,
    /// Confidence score between 0.0 and 1.0, as the bit pattern of a double:
    /// the patterns of non-negative doubles are ordered as the doubles are.
    pub confidence: u64,
    /// Error message if extraction partially failed.
    pub error: Option<String>,
}

/// `text` cut after `max_len` bytes, with three dots in place of the rest.
pub open spec fn preview_of(text: Seq<char>, max_len: nat) -> Seq<char> {
    let bytes = vstd::utf8::encode_utf8(text);
    if bytes.len() > max_len {
        vstd::utf8::decode_utf8(bytes.subrange(0, max_len as int)) + "..."@
    } else {
        text
    }
}

impl SearchResult {
    /// The confidence lies between 0.0 and 1.0, and is 0.0 without matches.
    pub open spec fn wf(self) -> bool {
        &&& self.confidence <= FULL_CONFIDENCE
        &&& self.matches@.len() == 0 ==> self.confidence == 0
    }

    /// Create a new search result. `score` rates a file that has matches; it
    /// counts as far as 1.0.
    pub fn new(path: String, file_type: FileType, matches: Vec<Match>, score: u64) -> (r:
        SearchResult)
        ensures
            r.wf(),
            r.path@ == path@,
            r.file_type == file_type,
            r.matches@ == matches@,
            r.confidence == (if matches@.len() == 0 {
                0
            } else if score > FULL_CONFIDENCE {
                FULL_CONFIDENCE
            } else {
                score
            }),
            r.error is None,
    {
        let confidence: u64 = if matches.is_empty() {
            0
        } else if score > FULL_CONFIDENCE {
            FULL_CONFIDENCE
        } else {
            score
        };
        SearchResult { path, file_type, matches, confidence, error: None }
    }

    /// Create a search result with an error.
    pub fn with_error(path: String, file_type: FileType, error: String) -> (r: SearchResult)
        ensures
            r.wf(),
            r.path@ == path@,
            r.file_type == file_type,
            r.matches@ == Seq::<Match>::empty(),
            r.confidence == 0,
            r.error == Some(error),
    {
        SearchResult { path, file_type, matches: Vec::new(), confidence: 0, error: Some(error) }
    }

    /// Get the number of matches.
    pub fn match_count(&self) -> (r: usize)
        ensures
            r == self.matches@.len(),
    {
        self.matches.len()
    }

    /// A preview of `max_len` bytes does not cut a character in two.
    pub open spec fn previewable(self, max_len: nat) -> bool {
        self.matches@.len() > 0 ==> {
            let bytes = vstd::utf8::encode_utf8(crate::text::trimmed(self.matches@[0].context@));
            bytes.len() > max_len ==> vstd::utf8::is_char_boundary(bytes, max_len as int)
        }
    }

    /// Whether a preview of `max_len` bytes would end between two characters.
    pub fn can_preview(&self, max_len: usize) -> (r: bool)
        ensures
            r == self.previewable(max_len as nat),
    {
        if self.matches.is_empty() {
            return true;
        }
        let context = trim(self.matches[0].context.as_str());
        let text = context.as_str();
        text.as_bytes().len() <= max_len || text.is_char_boundary(max_len)
    }

    /// Get a preview of the first match.
    pub fn preview(&self, max_len: usize) -> (r: Option<String>)
        requires
            self.previewable(max_len as nat),
        ensures
            crate::paths::opt_view(r) == (if self.matches@.len() == 0 {
                None
            } else {
                Some(preview_of(crate::text::trimmed(self.matches@[0].context@), max_len as nat))
            }),
    {
        if self.matches.is_empty() {
            return None;
        }
        let context = trim(self.matches[0].context.as_str());
        let text = context.as_str();
        if text.as_bytes().len() > max_len {
            let (head, _tail) = text.split_at(max_len);
            proof {
                vstd::utf8::encode_utf8_decode_utf8(head@);
            }
            Some(joined(head, "..."))
        } else {
            Some(context)
        }
    }

    /// The file name of a result, or `unknown` where its path has none.
    pub open spec fn filename_of(self) -> Seq<char> {
        match crate::paths::file_name_of(self.path@) {
            Some(name) => name,
            None => "unknown"@,
        }
    }

    /// Get the filename.
    pub fn filename(&self) -> (r: String)
        ensures
            r@ == self.filename_of(),
    {
        match file_name(self.path.as_str()) {
            Some(name) => name,
            None => copied("unknown"),
        }
    }

    /// How two results are ordered: more matches first, then more confidence.
    pub open spec fn ordering(self, other: SearchResult) -> Ordering {
        if self.matches@.len() > other.matches@.len() {
            Ordering::Less
        } else if self.matches@.len() < other.matches@.len() {
            Ordering::Greater
        } else if self.confidence > other.confidence {
            Ordering::Less
        } else if self.confidence < other.confidence {
            Ordering::Greater
        } else {
            Ordering::Equal
        }
    }

    /// Compare two results: sort by match count first (descending), then by
    /// confidence (descending).
    pub fn cmp(&self, other: &SearchResult) -> (r: Ordering)
        ensures
            r == self.ordering(*other),
    {
        if self.matches.len() > other.matches.len() {
            Ordering::Less
        } else if self.matches.len() < other.matches.len() {
            Ordering::Greater
        } else if self.confidence > other.confidence {
            Ordering::Less
        } else if self.confidence < other.confidence {
            Ordering::Greater
        } else {
            Ordering::Equal
        }
    }
}

impl PartialEq for SearchResult {
    fn eq(&self, other: &SearchResult) -> (r: bool) {
        same_path(self.path.as_str(), other.path.as_str())
    }
}

impl PartialEqSpecImpl for SearchResult {
    open spec fn obeys_eq_spec() -> bool {
        true
    }

    open spec fn eq_spec(&self, other: &SearchResult) -> bool {
        crate::paths::components_of(self.path@) == crate::paths::components_of(other.path@)
    }
}

impl Eq for SearchResult {

}

impl PartialOrd for SearchResult {
    fn partial_cmp(&self, other: &SearchResult) -> (r: Option<Ordering>) {
        Some(self.cmp(other))
    }
}

impl PartialOrdSpecImpl for SearchResult {
    open spec fn obeys_partial_cmp_spec() -> bool {
        true
    }

    open spec fn partial_cmp_spec(&self, other: &SearchResult) -> Option<Ordering> {
        Some(self.ordering(*other))
    }
}

// ---- Options --------------------------------------------------------------

/// The OCR backends.
#[derive(Debug, Clone, Copy, PartialEq, Eq, Structural)]
pub enum OcrEngine {
    /// Tesseract. Fast, low memory.
    Tesseract,
    /// The ocrs ONNX engine. Higher accuracy on modern documents.
    Ocrs,
    /// A vision model behind an OpenAI-compatible HTTP endpoint.
    VisionLlm,
}

impl Default for OcrEngine {
    fn default() -> (r: OcrEngine)
        ensures
            r == OcrEngine::Tesseract,
    {
        OcrEngine::Tesseract
    }
}

/// The OCR engine to start with, given which backends are there. Tesseract is
/// preferred to ocrs and ocrs to the vision model; with no backend at all the
/// choice is Tesseract.
pub fn default_cli_engine(tesseract: bool, ocrs: bool, vision_llm: bool) -> (r: OcrEngine)
    ensures
        r == (if tesseract {
            OcrEngine::Tesseract
        } else if ocrs {
            OcrEngine::Ocrs
        } else if vision_llm {
            OcrEngine::VisionLlm
        } else {
            OcrEngine::Tesseract
        }),
{
    if tesseract {
        OcrEngine::Tesseract
    } else if ocrs {
        OcrEngine::Ocrs
    } else if vision_llm {
        OcrEngine::VisionLlm
    } else {
        OcrEngine::Tesseract
    }
}

/// How the vision model is reached.
#[derive(Debug, Clone)]
pub struct VisionLlmConfig {
    /// OpenAI-compatible chat-completions URL.
    pub endpoint: String,
    /// Model name.
    pub model: String,
    /// Bearer token, if the endpoint wants one.
    pub api_key: Option<String>,
    /// Instruction sent along with the image.
    pub prompt: String,
    /// Timeout of one request, in seconds.
    pub timeout_secs: u64,
}

impl Default for VisionLlmConfig {
    fn default() -> (r: VisionLlmConfig)
        ensures
            r.endpoint@ == "http://localhost:11434/v1/chat/completions"@,
            r.model@ == "glm-ocr"@,
            r.api_key is None,
            r.prompt@
                == "Extract all visible text from this image. Preserve line breaks and reading order. Return only the text — no commentary, no formatting, no explanations."@,
            r.timeout_secs == 120,
    {
        VisionLlmConfig {
            endpoint: copied("http://localhost:11434/v1/chat/completions"),
            model: copied("glm-ocr"),
            api_key: None,
            prompt: copied(
                "Extract all visible text from this image. Preserve line breaks and reading order. Return only the text — no commentary, no formatting, no explanations.",
            ),
            timeout_secs: 120,
        }
    }
}

impl VisionLlmConfig {
    /// Two configurations hold the same values.
    pub open spec fn same(self, other: VisionLlmConfig) -> bool {
        &&& self.endpoint@ == other.endpoint@
        &&& self.model@ == other.model@
        &&& crate::paths::opt_view(self.api_key) == crate::paths::opt_view(other.api_key)
        &&& self.prompt@ == other.prompt@
        &&& self.timeout_secs == other.timeout_secs
    }

    /// A copy that holds the same values.
    pub fn duplicate(&self) -> (r: VisionLlmConfig)
        ensures
            r.same(*self),
    {
        VisionLlmConfig {
            endpoint: self.endpoint.clone(),
            model: self.model.clone(),
            api_key: match &self.api_key {
                Some(key) => Some(key.clone()),
                None => None,
            },
            prompt: self.prompt.clone(),
            timeout_secs: self.timeout_secs,
        }
    }
}

/// OCR configuration options.
#[derive(Debug, Clone)]
pub struct OcrConfig {
    /// Whether OCR is enabled for images.
    pub enabled: bool,
    /// The backend that reads the images.
    pub engine: OcrEngine,
    /// Language model to use (e.g., "eng", "eng_fast", "deu").
    pub language: String,
    /// Page Segmentation Mode (PSM):
    /// 0 = OSD only, 1 = Auto + OSD, 3 = Auto (default), 6 = Uniform block,
    /// 7 = Single line, 8 = Single word, 11 = Sparse text, 13 = Raw line
    pub psm: Option<u8>,
    /// OCR Engine Mode (OEM):
    /// 0 = Legacy only, 1 = LSTM only (fast), 2 = Legacy + LSTM, 3 = Default
    pub oem: Option<u8>,
    /// DPI for image processing (higher = better quality, slower).
    pub dpi: Option<u32>,
    /// Character whitelist (only recognize these characters).
    pub whitelist: Option<String>,
    /// Preprocessing: auto-scale images larger than this dimension.
    pub max_image_dimension: Option<u32>,
    /// Enable fast mode (uses eng_fast if available, PSM 6, OEM 1).
    pub fast_mode: bool,
    /// How the vision model is reached, where that is the engine.
    pub vision_llm: VisionLlmConfig,
}

impl Default for OcrConfig {
    fn default() -> (r: OcrConfig)
        ensures
            !r.enabled,
            r.engine == OcrEngine::Tesseract,
            r.language@ == "eng"@,
            r.psm is None,
            r.oem is None,
            r.dpi is None,
            r.whitelist is None,
            r.max_image_dimension is None,
            !r.fast_mode,
            call_ensures(VisionLlmConfig::default, (), r.vision_llm),
    {
        let vision_llm = VisionLlmConfig::default();
        OcrConfig {
            enabled: false,
            engine: OcrEngine::Tesseract,
            language: copied("eng"),
            psm: None,
            oem: None,
            dpi: None,
            whitelist: None,
            max_image_dimension: None,
            fast_mode: false,
            vision_llm,
        }
    }
}

impl OcrConfig {
    /// Create a fast OCR configuration optimized for speed.
    pub fn fast() -> (r: OcrConfig)
        ensures
            r.enabled,
            r.engine == OcrEngine::Tesseract,
            r.language@ == "eng"@,
            r.psm == Some(6u8),
            r.oem == Some(1u8),
            r.dpi is None,
            r.whitelist is None,
            r.max_image_dimension == Some(2000u32),
            r.fast_mode,
            call_ensures(VisionLlmConfig::default, (), r.vision_llm),
    {
        let vision_llm = VisionLlmConfig::default();
        OcrConfig {
            enabled: true,
            engine: OcrEngine::Tesseract,
            language: copied("eng"),
            psm: Some(6),  // Uniform block - fastest
            oem: Some(1),  // LSTM only - faster than combined
            dpi: None,
            whitelist: None,
            max_image_dimension: Some(2000),
            fast_mode: true,
            vision_llm,
        }
    }
}

/// Search configuration options.
#[derive(Debug, Clone)]
pub struct SearchConfig {
    /// Directory to search in.
    pub directory: String,
    /// Search pattern (text or regex).
    pub pattern: String,
    /// Whether the search is case-sensitive.
    pub case_sensitive: bool,
    /// Whether to use regex matching.
    pub use_regex: bool,
    /// OCR configuration.
    pub ocr: OcrConfig,
    /// Maximum number of results to return.
    pub limit: usize,
    /// Maximum directory depth.
    pub max_depth: Option<usize>,
    /// Include hidden files.
    pub include_hidden: bool,
    /// File extensions to include (empty = all).
    pub extensions: Vec<String>,
    /// Show content preview.
    pub show_preview: bool,
}

impl Default for SearchConfig {
    fn default() -> (r: SearchConfig)
        ensures
            r.directory@ == "."@,
            r.pattern@ == Seq::<char>::empty(),
            !r.case_sensitive,
            !r.use_regex,
            call_ensures(OcrConfig::default, (), r.ocr),
            r.limit == 20,
            r.max_depth is None,
            !r.include_hidden,
            r.extensions@ == Seq::<String>::empty(),
            !r.show_preview,
    {
        let ocr = OcrConfig::default();
        SearchConfig {
            directory: copied("."),
            pattern: String::new(),
            case_sensitive: false,
            use_regex: false,
            ocr,
            limit: 20,
            max_depth: None,
            include_hidden: false,
            extensions: Vec::new(),
            show_preview: false,
        }
    }
}

/// The name of the index file in a searched directory.
pub const INDEX_FILE_NAME: &'static str = ".argus_index.json";

/// Configuration for index file handling.
#[derive(Debug, Clone)]
pub struct IndexConfig {
    /// Whether to save an index after scanning.
    pub save_index: bool,
    /// Whether to use an existing index if available.
    pub use_index: bool,
    /// Path to the index file. If None, defaults to `.argus_index.json` in the search directory.
    pub index_file: Option<String>,
}

impl Default for IndexConfig {
    fn default() -> (r: IndexConfig)
        ensures
            !r.save_index,
            !r.use_index,
            r.index_file is None,
    {
        IndexConfig { save_index: false, use_index: false, index_file: None }
    }
}

impl IndexConfig {
    /// Where the index of `search_dir` is kept.
    pub open spec fn index_path_of(self, search_dir: Seq<char>) -> Seq<char> {
        match self.index_file {
            Some(path) => path@,
            None => crate::paths::joined_path(search_dir, INDEX_FILE_NAME@),
        }
    }

    /// Get the index file path, using the default if not specified.
    pub fn get_index_path(&self, search_dir: &str) -> (r: String)
        ensures
            r@ == self.index_path_of(search_dir@),
    {
        match &self.index_file {
            Some(path) => path.clone(),
            None => join(search_dir, INDEX_FILE_NAME),
        }
    }
}

// ---- Statistics -----------------------------------------------------------

/// How many files of each type had matches. No type stands in it twice.
#[derive(Debug, Clone)]
pub struct TypeCounts {
    pub counts: Vec<(FileType, usize)>,
}

/// The sum of all counts.
pub open spec fn sum_of(counts: Seq<(FileType, usize)>) -> nat
    decreases counts.len(),
{
    if counts.len() == 0 {
        0
    } else {
        sum_of(counts.drop_last()) + counts.last().1 as nat
    }
}

/// The sum of the counts of one type.
pub open spec fn counted_as(counts: Seq<(FileType, usize)>, file_type: FileType) -> nat
    decreases counts.len(),
{
    if counts.len() == 0 {
        0
    } else {
        counted_as(counts.drop_last(), file_type) + (if counts.last().0 == file_type {
            counts.last().1 as nat
        } else {
            0
        })
    }
}

/// Every count is that of one of the types.
pub proof fn lemma_sum_by_type(counts: Seq<(FileType, usize)>)
    ensures
        sum_of(counts) == counted_as(counts, FileType::Text) + counted_as(counts, FileType::Code)
            + counted_as(counts, FileType::Pdf) + counted_as(counts, FileType::Docx) + counted_as(
            counts,
            FileType::Image,
        ) + counted_as(counts, FileType::Other),
    decreases counts.len(),
{
    if counts.len() > 0 {
        lemma_sum_by_type(counts.drop_last());
    }
}

proof fn lemma_counted_once(counts: Seq<(FileType, usize)>, file_type: FileType)
    requires
        forall|i: int, j: int|
            0 <= i < j < counts.len() ==> (#[trigger] counts[i]).0 != (#[trigger] counts[j]).0,
    ensures
        forall|i: int|
            0 <= i < counts.len() && (#[trigger] counts[i]).0 == file_type ==> counted_as(
                counts,
                file_type,
            ) == counts[i].1,
        (forall|i: int| 0 <= i < counts.len() ==> (#[trigger] counts[i]).0 != file_type)
            ==> counted_as(counts, file_type) == 0,
    decreases counts.len(),
{
    if counts.len() > 0 {
        let init = counts.drop_last();
        assert forall|i: int, j: int| 0 <= i < j < init.len() implies (#[trigger] init[i]).0 != (
        #[trigger] init[j]).0 by {
            assert(init[i] == counts[i] && init[j] == counts[j]);
        }
        lemma_counted_once(init, file_type);
        let last = counts.len() - 1;
        assert(forall|i: int| 0 <= i < last ==> init[i] == #[trigger] counts[i]);
        if counts[last].0 == file_type {
            assert(forall|i: int| 0 <= i < last ==> (#[trigger] init[i]).0 != file_type);
        }
    }
}

/// The count of a type is the one that it has, or nothing.
pub proof fn lemma_counted_as(by_type: TypeCounts, file_type: FileType)
    requires
        by_type.wf(),
    ensures
        counted_as(by_type.counts@, file_type) == (if by_type.as_map().contains_key(file_type) {
            by_type.as_map()[file_type] as nat
        } else {
            0
        }),
{
    lemma_counted_once(by_type.counts@, file_type);
}

impl TypeCounts {
    pub open spec fn wf(self) -> bool {
        forall|i: int, j: int|
            0 <= i < j < self.counts@.len() ==> (#[trigger] self.counts@[i]).0
                != (#[trigger] self.counts@[j]).0
    }

    /// The count of each type that has one.
    pub open spec fn as_map(self) -> Map<FileType, usize> {
        Map::new(
            |t: FileType| exists|i: int| 0 <= i < self.counts@.len() && (#[trigger] self.counts@[i]).0 == t,
            |t: FileType|
                {
                    let i = choose|i: int|
                        0 <= i < self.counts@.len() && (#[trigger] self.counts@[i]).0 == t;
                    self.counts@[i].1
                },
        )
    }

    /// No counts at all.
    pub fn new() -> (r: TypeCounts)
        ensures
            r.wf(),
            r.counts@.len() == 0,
            r.as_map() == Map::<FileType, usize>::empty(),
    {
        let r = TypeCounts { counts: Vec::new() };
        proof {
            assert(r.as_map() =~= Map::<FileType, usize>::empty());
        }
        r
    }

    /// The count of a type, if it has one.
    pub fn get(&self, file_type: FileType) -> (r: Option<usize>)
        requires
            self.wf(),
        ensures
            r == (if self.as_map().contains_key(file_type) {
                Some(self.as_map()[file_type])
            } else {
                None
            }),
    {
        let mut i: usize = 0;
        while i < self.counts.len()
            invariant
                i <= self.counts@.len(),
                self.wf(),
                forall|k: int| 0 <= k < i ==> (#[trigger] self.counts@[k]).0 != file_type,
            decreases self.counts@.len() - i,
        {
            if self.counts[i].0 == file_type {
                proof {
                    assert(self.counts@[i as int].0 == file_type);
                }
                return Some(self.counts[i].1);
            }
            i += 1;
        }
        None
    }

    /// Whether nothing has been counted.
    pub fn is_empty(&self) -> (r: bool)
        ensures
            r == (self.counts@.len() == 0),
    {
        self.counts.is_empty()
    }

    /// Count one more file of a type.
    pub fn add_one(&mut self, file_type: FileType)
        requires
            old(self).wf(),
            old(self).as_map().contains_key(file_type) ==> old(self).as_map()[file_type]
                < usize::MAX,
        ensures
            final(self).wf(),
            final(self).as_map() == old(self).as_map().insert(
                file_type,
                if old(self).as_map().contains_key(file_type) {
                    (old(self).as_map()[file_type] + 1) as usize
                } else {
                    1
                },
            ),
    {
        let mut i: usize = 0;
        while i < self.counts.len()
            invariant
                i <= self.counts@.len(),
                self.wf(),
                *self == *old(self),
                forall|k: int| 0 <= k < i ==> (#[trigger] self.counts@[k]).0 != file_type,
                old(self).as_map().contains_key(file_type) ==> old(self).as_map()[file_type]
                    < usize::MAX,
            decreases self.counts@.len() - i,
        {
            if self.counts[i].0 == file_type {
                proof {
                    assert(self.counts@[i as int].0 == file_type);
                    assert(self.as_map().contains_key(file_type));
                }
                let n = self.counts[i].1;
                self.counts.set(i, (file_type, n + 1));
                proof {
                    self.lemma_slot(i as int, *old(self), file_type, (n + 1) as usize);
                }
                return ;
            }
            i += 1;
        }
        self.counts.push((file_type, 1));
        proof {
            self.lemma_slot(i as int, *old(self), file_type, 1);
        }
    }

    /// Where slot `at` alone differs from `before`, and holds `file_type` and
    /// `n`, the map differs in `file_type` alone.
    proof fn lemma_slot(self, at: int, before: TypeCounts, file_type: FileType, n: usize)
        requires
            before.wf(),
            0 <= at <= before.counts@.len(),
            self.counts@ == (if at < before.counts@.len() {
                before.counts@.update(at, (file_type, n))
            } else {
                before.counts@.push((file_type, n))
            }),
            forall|k: int|
                0 <= k < before.counts@.len() && k != at ==> (#[trigger] before.counts@[k]).0
                    != file_type,
            at < before.counts@.len() ==> before.counts@[at].0 == file_type,
        ensures
            self.wf(),
            self.as_map() == before.as_map().insert(file_type, n),
    {
        assert forall|i: int, j: int| 0 <= i < j < self.counts@.len() implies (
        #[trigger] self.counts@[i]).0 != (#[trigger] self.counts@[j]).0 by {
            if i != at && j != at {
                assert(before.counts@[i].0 != before.counts@[j].0);
            }
        }
        let m = before.as_map().insert(file_type, n);
        assert forall|t: FileType| self.as_map().contains_key(t) == m.contains_key(t) by {
            if m.contains_key(t) && t != file_type {
                let k = choose|k: int|
                    0 <= k < before.counts@.len() && (#[trigger] before.counts@[k]).0 == t;
                assert(self.counts@[k].0 == t);
            }
            if t == file_type {
                assert(self.counts@[at].0 == t);
            }
            if self.as_map().contains_key(t) && t != file_type {
                let k = choose|k: int|
                    0 <= k < self.counts@.len() && (#[trigger] self.counts@[k]).0 == t;
                assert(before.counts@[k].0 == t);
            }
        }
        assert forall|t: FileType| m.contains_key(t) implies self.as_map()[t] == m[t] by {
            assert(self.as_map().contains_key(t));
            let k = choose|k: int|
                0 <= k < self.counts@.len() && (#[trigger] self.counts@[k]).0 == t;
            if t == file_type {
                assert(self.counts@[at].0 == t);
                assert(k == at);
            } else {
                assert(before.counts@[k].0 == t);
                let j = choose|j: int|
                    0 <= j < before.counts@.len() && (#[trigger] before.counts@[j]).0 == t;
                assert(j == k);
            }
        }
        assert(self.as_map() =~= m);
    }
}

/// Statistics about the search operation.
#[derive(Debug, Clone)]
pub struct SearchStats {
    /// Total files scanned.
    pub files_scanned: usize,
    /// Files with matches.
    pub files_matched: usize,
    /// Total matches found.
    pub total_matches: usize,
    /// Files skipped due to errors.
    pub files_skipped: usize,
    /// Search duration in milliseconds.
    pub duration_ms: u64,
    /// Breakdown by file type.
    pub by_type: TypeCounts,
    /// The path of each skipped file, and why it was skipped.
    pub errors: Vec<(String, String)>,
}

impl SearchStats {
    pub open spec fn wf(self) -> bool {
        self.by_type.wf()
    }

    /// Create new empty stats.
    pub fn new() -> (r: SearchStats)
        ensures
            r.wf(),
            r.files_scanned == 0,
            r.files_matched == 0,
            r.total_matches == 0,
            r.files_skipped == 0,
            r.duration_ms == 0,
            r.by_type.counts@.len() == 0,
            r.by_type.as_map() == Map::<FileType, usize>::empty(),
            r.errors@ == Seq::<(String, String)>::empty(),
    {
        let by_type = TypeCounts::new();
        SearchStats {
            files_scanned: 0,
            files_matched: 0,
            total_matches: 0,
            files_skipped: 0,
            duration_ms: 0,
            by_type,
            errors: Vec::new(),
        }
    }

    /// Increment files scanned.
    pub fn inc_scanned(&mut self)
        requires
            old(self).files_scanned < usize::MAX,
        ensures
            *final(self) == (SearchStats {
                files_scanned: (old(self).files_scanned + 1) as usize,
                ..*old(self)
            }),
    {
        self.files_scanned = self.files_scanned + 1;
    }

    /// There is room to count one more result of `matches` matches.
    pub open spec fn has_room(self, file_type: FileType, matches: nat) -> bool {
        &&& self.files_matched < usize::MAX
        &&& self.total_matches + matches <= usize::MAX
        &&& self.by_type.as_map().contains_key(file_type) ==> self.by_type.as_map()[file_type]
            < usize::MAX
    }

    /// Add a match result.
    pub fn add_result(&mut self, result: &SearchResult)
        requires
            old(self).wf(),
            result.matches@.len() > 0 ==> old(self).has_room(
                result.file_type,
                result.matches@.len(),
            ),
        ensures
            final(self).wf(),
            result.matches@.len() == 0 ==> *final(self) == *old(self),
            result.matches@.len() > 0 ==> {
                &&& final(self).files_matched == old(self).files_matched + 1
                &&& final(self).total_matches == old(self).total_matches + result.matches@.len()
                &&& final(self).by_type.as_map() == old(self).by_type.as_map().insert(
                    result.file_type,
                    if old(self).by_type.as_map().contains_key(result.file_type) {
                        (old(self).by_type.as_map()[result.file_type] + 1) as usize
                    } else {
                        1
                    },
                )
                &&& final(self).files_scanned == old(self).files_scanned
                &&& final(self).files_skipped == old(self).files_skipped
                &&& final(self).duration_ms == old(self).duration_ms
                &&& final(self).errors == old(self).errors
            },
    {
        if !result.matches.is_empty() {
            self.files_matched = self.files_matched + 1;
            self.total_matches = self.total_matches + result.matches.len();
            self.by_type.add_one(result.file_type);
        }
    }

    /// Increment skipped files.
    pub fn inc_skipped(&mut self)
        requires
            old(self).files_skipped < usize::MAX,
        ensures
            *final(self) == (SearchStats {
                files_skipped: (old(self).files_skipped + 1) as usize,
                ..*old(self)
            }),
    {
        self.files_skipped = self.files_skipped + 1;
    }
}

} // verus!
