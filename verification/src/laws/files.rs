//! Which files are searched.

use crate::search::{SearchEngine, WalkedFile, SKIP_DIRS};
use crate::types::{FileType, CODE_EXTENSIONS, IMAGE_EXTENSIONS, TEXT_EXTENSIONS};
use vstd::prelude::*;

verus! {

/// A file passes the extension filter if its extension, in lowercase, is one of the
/// configured ones, in lowercase and without the dots before it, whichever it is;
/// where any is configured, a file passes only then.
pub proof fn law_extension_filter(engine: SearchEngine, path: Seq<char>)
    ensures
        engine.config.extensions@.len() == 0 ==> engine.extension_admitted(path),
        forall|k: int|
            0 <= k < engine.config.extensions@.len() && crate::paths::extension_of(path) is Some
                && crate::text::without_leading(
                crate::text::lower_of((#[trigger] engine.config.extensions@[k])@),
                '.',
            ) == crate::text::lower_of(crate::paths::extension_of(path)->0)
                ==> engine.extension_admitted(path),
        engine.config.extensions@.len() > 0 && engine.extension_admitted(path) ==> exists|k: int|
            0 <= k < engine.config.extensions@.len() && crate::paths::extension_of(path) is Some
                && crate::text::without_leading(
                crate::text::lower_of((#[trigger] engine.config.extensions@[k])@),
                '.',
            ) == crate::text::lower_of(crate::paths::extension_of(path)->0),
{
    let wanted = engine.extensions_of();
    if crate::paths::extension_of(path) is Some {
        let ext = crate::text::lower_of(crate::paths::extension_of(path)->0);
        assert forall|k: int|
            0 <= k < engine.config.extensions@.len() && crate::text::without_leading(
                crate::text::lower_of((#[trigger] engine.config.extensions@[k])@),
                '.',
            ) == ext implies engine.extension_admitted(path) by {
            assert(wanted[k] == ext);
        }
        if engine.config.extensions@.len() > 0 && engine.extension_admitted(path) {
            let k = choose|k: int| 0 <= k < wanted.len() && wanted[k] == ext;
            assert(engine.config.extensions@[k]@ == engine.config.extensions@[k]@);
        }
    }
}

/// A configured extension selects the files that have it, in whatever case either is
/// written and with or without a dot: what follows the last dot of the name decides.
pub proof fn law_named_extension_passes(
    engine: SearchEngine,
    path: Seq<char>,
    stem: Seq<char>,
    ext: Seq<char>,
    k: int,
    dots: nat,
)
    requires
        crate::paths::file_name_of(path) == Some(stem + (seq!['.'] + ext)),
        stem.len() > 0,
        ext.len() > 0,
        !ext.contains('.'),
        vstd::utf8::is_ascii_chars(ext),
        0 <= k < engine.config.extensions@.len(),
        engine.config.extensions@[k]@ == Seq::new(dots, |i: int| '.') + crate::text::lower_of(ext),
    ensures
        engine.extension_admitted(path),
{
    let low = crate::text::lower_of(ext);
    let wanted = engine.config.extensions@[k]@;
    let some = Seq::new(dots, |i: int| '.');
    crate::laws::paths::law_extension(path, stem, ext);
    crate::text::lemma_ascii_lowercase(ext);
    assert(vstd::utf8::is_ascii_chars(wanted)) by {
        assert forall|i: int| 0 <= i < wanted.len() implies '\0' <= #[trigger] wanted[i]
            <= '\u{7f}' by {
            if i >= dots {
                assert(wanted[i] == low[i - dots]);
            }
        }
    }
    assert(crate::text::lower_of(wanted) =~= wanted) by {
        assert forall|i: int| 0 <= i < wanted.len() implies crate::text::ascii_lower(
            #[trigger] wanted[i],
        ) == wanted[i] by {
            if i >= dots {
                assert(wanted[i] == low[i - dots]);
            }
        }
    }
    assert(low[0] != '.') by {
        assert(ext.contains(ext[0]));
    }
    crate::laws::texts::law_without_leading('.', dots, low);
    law_extension_filter(engine, path);
    assert(crate::text::without_leading(
        crate::text::lower_of(engine.config.extensions@[k]@),
        '.',
    ) == low);
}

/// A file is searched exactly if it is no index file, passes the extension filter,
/// and is of a type that is searched: a document always, an image where text in
/// images is read, and anything else unless it is binary.
pub proof fn law_which_files_are_searched(
    engine: SearchEngine,
    file: WalkedFile,
    index_canonical: Option<Seq<char>>,
)
    ensures
        ({
            let path = file.path@;
            let ext = match crate::paths::extension_of(path) {
                Some(ext) => ext,
                None => Seq::<char>::empty(),
            };
            let file_type = crate::types::type_of_extension(
                crate::text::lower_of(crate::text::lower_of(ext)),
            );
            let index_path = match engine.index_config.index_file {
                Some(named) => named@,
                None => crate::paths::joined_path(
                    engine.config.directory@,
                    ".argus_index.json"@,
                ),
            };
            engine.selects(file, index_canonical) <==> {
                &&& crate::paths::file_name_of(path) != Some(".argus_index.json"@)
                &&& crate::paths::components_of(path) != crate::paths::components_of(index_path)
                &&& !(index_canonical is Some && file.canonical is Some
                    && crate::paths::components_of(file.canonical->0@)
                    == crate::paths::components_of(index_canonical->0))
                &&& engine.extension_admitted(path)
                &&& (file_type == FileType::Pdf || file_type == FileType::Docx || (if file_type
                    == FileType::Image {
                    engine.config.ocr.enabled
                } else {
                    !file.binary
                }))
            }
        }),
{
}

/// The type of a file is the one that its extension stands for, in whatever case it
/// is written; a file without an extension is of no known type.
pub proof fn law_type_of_a_file(path: Seq<char>)
    ensures
        crate::paths::extension_of(path) matches Some(ext) ==> crate::search::type_of_path(path)
            == crate::types::type_of_extension(crate::text::lower_of(ext)),
        crate::paths::extension_of(path) is None ==> crate::search::type_of_path(path)
            == FileType::Other,
{
    let none = Seq::<char>::empty();
    if crate::paths::extension_of(path) is None {
        let low = crate::text::lower_of(none);
        assert(low =~= none);
        if crate::types::type_of_extension(none) != FileType::Other {
            crate::extensions::law_known_extensions_are_words(none);
        }
    }
}

/// Below the root a hidden entry is passed over unless hidden ones are asked for,
/// and so is a directory that is never entered; every other entry is looked at, and
/// the root always is.
pub proof fn law_which_entries_are_looked_at(
    engine: SearchEngine,
    depth: nat,
    name: Seq<char>,
    is_dir: bool,
)
    ensures
        ({
            let never = seq![
                "node_modules"@, "target"@, "__pycache__"@, ".git"@, ".svn"@, ".hg"@,
                "vendor"@, "dist"@, "build"@, ".cache"@, ".npm"@, ".cargo"@,
            ];
            engine.processes(depth, name, is_dir) <==> (depth == 0 || ((
            engine.config.include_hidden || name.len() == 0 || name[0] != '.') && !(is_dir
                && never.contains(name))))
        }),
{
    let never = seq![
        "node_modules"@, "target"@, "__pycache__"@, ".git"@, ".svn"@, ".hg"@, "vendor"@,
        "dist"@, "build"@, ".cache"@, ".npm"@, ".cargo"@,
    ];
    assert(never =~= SKIP_DIRS@.map_values(|s: &'static str| s@));
    if crate::text::listed(name, SKIP_DIRS@) {
        let k = choose|k: int| 0 <= k < SKIP_DIRS@.len() && (#[trigger] SKIP_DIRS@[k])@ == name;
        assert(never[k] == name);
    }
    if never.contains(name) {
        let k = choose|k: int| 0 <= k < never.len() && never[k] == name;
        assert(SKIP_DIRS@[k]@ == name);
    }
}

/// The extensions of text files.
pub proof fn law_text_extensions(ext: Seq<char>)
    ensures
        crate::types::type_of_extension(ext) == FileType::Text <==> seq![
            "txt"@, "md"@, "markdown"@, "rst"@, "log"@, "csv"@, "tsv"@, "json"@, "yaml"@,
            "yml"@, "toml"@, "ini"@, "cfg"@, "conf"@, "xml"@, "html"@, "htm"@, "css"@,
        ].contains(ext),
{
    let all = seq![
        "txt"@, "md"@, "markdown"@, "rst"@, "log"@, "csv"@, "tsv"@, "json"@, "yaml"@, "yml"@,
        "toml"@, "ini"@, "cfg"@, "conf"@, "xml"@, "html"@, "htm"@, "css"@,
    ];
    crate::extensions::law_extensions_have_one_type(ext);
    assert(all =~= TEXT_EXTENSIONS@.map_values(|s: &'static str| s@));
    if crate::text::listed(ext, TEXT_EXTENSIONS@) {
        let k = choose|k: int|
            0 <= k < TEXT_EXTENSIONS@.len() && (#[trigger] TEXT_EXTENSIONS@[k])@ == ext;
        assert(all[k] == ext);
    }
    if all.contains(ext) {
        let k = choose|k: int| 0 <= k < all.len() && all[k] == ext;
        assert(TEXT_EXTENSIONS@[k]@ == ext);
    }
}

/// The extensions of program code.
pub proof fn law_code_extensions(ext: Seq<char>)
    ensures
        crate::types::type_of_extension(ext) == FileType::Code <==> seq![
            "rs"@, "py"@, "js"@, "ts"@, "jsx"@, "tsx"@, "java"@, "c"@, "cpp"@, "cc"@, "cxx"@,
            "h"@, "hpp"@, "go"@, "rb"@, "php"@, "swift"@, "kt"@, "kts"@, "scala"@, "sh"@,
            "bash"@, "zsh"@, "fish"@, "ps1"@, "bat"@, "cmd"@, "sql"@, "r"@, "lua"@, "pl"@,
            "pm"@, "ex"@, "exs"@, "erl"@, "hrl"@, "hs"@, "lhs"@, "ml"@, "mli"@, "fs"@, "fsi"@,
            "fsx"@, "clj"@, "cljs"@, "cljc"@, "nim"@, "zig"@, "v"@, "d"@, "dart"@, "vue"@,
            "svelte"@,
        ].contains(ext),
{
    let all = seq![
        "rs"@, "py"@, "js"@, "ts"@, "jsx"@, "tsx"@, "java"@, "c"@, "cpp"@, "cc"@, "cxx"@, "h"@,
        "hpp"@, "go"@, "rb"@, "php"@, "swift"@, "kt"@, "kts"@, "scala"@, "sh"@, "bash"@,
        "zsh"@, "fish"@, "ps1"@, "bat"@, "cmd"@, "sql"@, "r"@, "lua"@, "pl"@, "pm"@, "ex"@,
        "exs"@, "erl"@, "hrl"@, "hs"@, "lhs"@, "ml"@, "mli"@, "fs"@, "fsi"@, "fsx"@, "clj"@,
        "cljs"@, "cljc"@, "nim"@, "zig"@, "v"@, "d"@, "dart"@, "vue"@, "svelte"@,
    ];
    crate::extensions::law_extensions_have_one_type(ext);
    assert(all =~= CODE_EXTENSIONS@.map_values(|s: &'static str| s@));
    if crate::text::listed(ext, CODE_EXTENSIONS@) {
        let k = choose|k: int|
            0 <= k < CODE_EXTENSIONS@.len() && (#[trigger] CODE_EXTENSIONS@[k])@ == ext;
        assert(all[k] == ext);
    }
    if all.contains(ext) {
        let k = choose|k: int| 0 <= k < all.len() && all[k] == ext;
        assert(CODE_EXTENSIONS@[k]@ == ext);
    }
}

/// The extensions of images, and those of documents.
pub proof fn law_image_and_document_extensions(ext: Seq<char>)
    ensures
        crate::types::type_of_extension(ext) == FileType::Image <==> seq![
            "png"@, "jpg"@, "jpeg"@, "gif"@, "bmp"@, "tiff"@, "tif"@, "webp"@,
        ].contains(ext),
        crate::types::type_of_extension(ext) == FileType::Pdf <==> ext == "pdf"@,
        crate::types::type_of_extension(ext) == FileType::Docx <==> ext == "docx"@,
{
    let all = seq![
        "png"@, "jpg"@, "jpeg"@, "gif"@, "bmp"@, "tiff"@, "tif"@, "webp"@,
    ];
    crate::extensions::law_extensions_have_one_type(ext);
    assert(all =~= IMAGE_EXTENSIONS@.map_values(|s: &'static str| s@));
    if crate::text::listed(ext, IMAGE_EXTENSIONS@) {
        let k = choose|k: int|
            0 <= k < IMAGE_EXTENSIONS@.len() && (#[trigger] IMAGE_EXTENSIONS@[k])@ == ext;
        assert(all[k] == ext);
    }
    if all.contains(ext) {
        let k = choose|k: int| 0 <= k < all.len() && all[k] == ext;
        assert(IMAGE_EXTENSIONS@[k]@ == ext);
    }
}

} // verus!
