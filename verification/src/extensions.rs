//! What holds of the extensions that file types are known by.

use crate::text;
use crate::types::{self, FileType, CODE_EXTENSIONS, IMAGE_EXTENSIONS, TEXT_EXTENSIONS};
use vstd::prelude::*;

verus! {

// ---- The lists ------------------------------------------------------------

/// A text that consists of lowercase ASCII letters and digits.
spec fn is_plain(l: Seq<char>) -> bool {
    forall|i: int| 0 <= i < l.len() ==> 'a' <= #[trigger] l[i] <= 'z' || '0' <= l[i] <= '9'
}

/// The length of a text, its first and its last character: enough to tell an
/// extension of one list from those of the others.
spec fn ends(l: Seq<char>) -> (nat, char, char) {
    (l.len(), l[0], l.last())
}

/// A plain text of `len` characters, from `first` to `last`.
spec fn is_word(l: Seq<char>, len: nat, first: char, last: char) -> bool {
    is_plain(l) && ends(l) == (len, first, last)
}

/// The ends of the extensions of text.
spec fn ends_of_text(e: (nat, char, char)) -> bool {
    ||| e == (3nat, 't', 't')
    ||| e == (2nat, 'm', 'd')
    ||| e == (8nat, 'm', 'n')
    ||| e == (3nat, 'r', 't')
    ||| e == (3nat, 'l', 'g')
    ||| e == (3nat, 'c', 'v')
    ||| e == (3nat, 't', 'v')
    ||| e == (4nat, 'j', 'n')
    ||| e == (4nat, 'y', 'l')
    ||| e == (3nat, 'y', 'l')
    ||| e == (4nat, 't', 'l')
    ||| e == (3nat, 'i', 'i')
    ||| e == (3nat, 'c', 'g')
    ||| e == (4nat, 'c', 'f')
    ||| e == (3nat, 'x', 'l')
    ||| e == (4nat, 'h', 'l')
    ||| e == (3nat, 'h', 'm')
    ||| e == (3nat, 'c', 's')
}

/// An extension that is listed as text.
proof fn lemma_text_word(l: Seq<char>)
    requires
        text::listed(l, TEXT_EXTENSIONS@),
    ensures
        is_plain(l),
        ends_of_text(ends(l)),
{
    assert(is_word("txt"@, 3, 't', 't')) by {
        reveal_strlit("txt");
    }
    assert(is_word("md"@, 2, 'm', 'd')) by {
        reveal_strlit("md");
    }
    assert(is_word("markdown"@, 8, 'm', 'n')) by {
        reveal_strlit("markdown");
    }
    assert(is_word("rst"@, 3, 'r', 't')) by {
        reveal_strlit("rst");
    }
    assert(is_word("log"@, 3, 'l', 'g')) by {
        reveal_strlit("log");
    }
    assert(is_word("csv"@, 3, 'c', 'v')) by {
        reveal_strlit("csv");
    }
    assert(is_word("tsv"@, 3, 't', 'v')) by {
        reveal_strlit("tsv");
    }
    assert(is_word("json"@, 4, 'j', 'n')) by {
        reveal_strlit("json");
    }
    assert(is_word("yaml"@, 4, 'y', 'l')) by {
        reveal_strlit("yaml");
    }
    assert(is_word("yml"@, 3, 'y', 'l')) by {
        reveal_strlit("yml");
    }
    assert(is_word("toml"@, 4, 't', 'l')) by {
        reveal_strlit("toml");
    }
    assert(is_word("ini"@, 3, 'i', 'i')) by {
        reveal_strlit("ini");
    }
    assert(is_word("cfg"@, 3, 'c', 'g')) by {
        reveal_strlit("cfg");
    }
    assert(is_word("conf"@, 4, 'c', 'f')) by {
        reveal_strlit("conf");
    }
    assert(is_word("xml"@, 3, 'x', 'l')) by {
        reveal_strlit("xml");
    }
    assert(is_word("html"@, 4, 'h', 'l')) by {
        reveal_strlit("html");
    }
    assert(is_word("htm"@, 3, 'h', 'm')) by {
        reveal_strlit("htm");
    }
    assert(is_word("css"@, 3, 'c', 's')) by {
        reveal_strlit("css");
    }
}

/// The ends of the extensions of code.
spec fn ends_of_code(e: (nat, char, char)) -> bool {
    ||| e == (2nat, 'r', 's')
    ||| e == (2nat, 'p', 'y')
    ||| e == (2nat, 'j', 's')
    ||| e == (2nat, 't', 's')
    ||| e == (3nat, 'j', 'x')
    ||| e == (3nat, 't', 'x')
    ||| e == (4nat, 'j', 'a')
    ||| e == (1nat, 'c', 'c')
    ||| e == (3nat, 'c', 'p')
    ||| e == (2nat, 'c', 'c')
    ||| e == (3nat, 'c', 'x')
    ||| e == (1nat, 'h', 'h')
    ||| e == (3nat, 'h', 'p')
    ||| e == (2nat, 'g', 'o')
    ||| e == (2nat, 'r', 'b')
    ||| e == (3nat, 'p', 'p')
    ||| e == (5nat, 's', 't')
    ||| e == (2nat, 'k', 't')
    ||| e == (3nat, 'k', 's')
    ||| e == (5nat, 's', 'a')
    ||| e == (2nat, 's', 'h')
    ||| e == (4nat, 'b', 'h')
    ||| e == (3nat, 'z', 'h')
    ||| e == (4nat, 'f', 'h')
    ||| e == (3nat, 'p', '1')
    ||| e == (3nat, 'b', 't')
    ||| e == (3nat, 'c', 'd')
    ||| e == (3nat, 's', 'l')
    ||| e == (1nat, 'r', 'r')
    ||| e == (3nat, 'l', 'a')
    ||| e == (2nat, 'p', 'l')
    ||| e == (2nat, 'p', 'm')
    ||| e == (2nat, 'e', 'x')
    ||| e == (3nat, 'e', 's')
    ||| e == (3nat, 'e', 'l')
    ||| e == (3nat, 'h', 'l')
    ||| e == (2nat, 'h', 's')
    ||| e == (3nat, 'l', 's')
    ||| e == (2nat, 'm', 'l')
    ||| e == (3nat, 'm', 'i')
    ||| e == (2nat, 'f', 's')
    ||| e == (3nat, 'f', 'i')
    ||| e == (3nat, 'f', 'x')
    ||| e == (3nat, 'c', 'j')
    ||| e == (4nat, 'c', 's')
    ||| e == (4nat, 'c', 'c')
    ||| e == (3nat, 'n', 'm')
    ||| e == (3nat, 'z', 'g')
    ||| e == (1nat, 'v', 'v')
    ||| e == (1nat, 'd', 'd')
    ||| e == (4nat, 'd', 't')
    ||| e == (3nat, 'v', 'e')
    ||| e == (6nat, 's', 'e')
}

/// An extension that is listed as code.
proof fn lemma_code_word(l: Seq<char>)
    requires
        text::listed(l, CODE_EXTENSIONS@),
    ensures
        is_plain(l),
        ends_of_code(ends(l)),
{
    assert(is_word("rs"@, 2, 'r', 's')) by {
        reveal_strlit("rs");
    }
    assert(is_word("py"@, 2, 'p', 'y')) by {
        reveal_strlit("py");
    }
    assert(is_word("js"@, 2, 'j', 's')) by {
        reveal_strlit("js");
    }
    assert(is_word("ts"@, 2, 't', 's')) by {
        reveal_strlit("ts");
    }
    assert(is_word("jsx"@, 3, 'j', 'x')) by {
        reveal_strlit("jsx");
    }
    assert(is_word("tsx"@, 3, 't', 'x')) by {
        reveal_strlit("tsx");
    }
    assert(is_word("java"@, 4, 'j', 'a')) by {
        reveal_strlit("java");
    }
    assert(is_word("c"@, 1, 'c', 'c')) by {
        reveal_strlit("c");
    }
    assert(is_word("cpp"@, 3, 'c', 'p')) by {
        reveal_strlit("cpp");
    }
    assert(is_word("cc"@, 2, 'c', 'c')) by {
        reveal_strlit("cc");
    }
    assert(is_word("cxx"@, 3, 'c', 'x')) by {
        reveal_strlit("cxx");
    }
    assert(is_word("h"@, 1, 'h', 'h')) by {
        reveal_strlit("h");
    }
    assert(is_word("hpp"@, 3, 'h', 'p')) by {
        reveal_strlit("hpp");
    }
    assert(is_word("go"@, 2, 'g', 'o')) by {
        reveal_strlit("go");
    }
    assert(is_word("rb"@, 2, 'r', 'b')) by {
        reveal_strlit("rb");
    }
    assert(is_word("php"@, 3, 'p', 'p')) by {
        reveal_strlit("php");
    }
    assert(is_word("swift"@, 5, 's', 't')) by {
        reveal_strlit("swift");
    }
    assert(is_word("kt"@, 2, 'k', 't')) by {
        reveal_strlit("kt");
    }
    assert(is_word("kts"@, 3, 'k', 's')) by {
        reveal_strlit("kts");
    }
    assert(is_word("scala"@, 5, 's', 'a')) by {
        reveal_strlit("scala");
    }
    assert(is_word("sh"@, 2, 's', 'h')) by {
        reveal_strlit("sh");
    }
    assert(is_word("bash"@, 4, 'b', 'h')) by {
        reveal_strlit("bash");
    }
    assert(is_word("zsh"@, 3, 'z', 'h')) by {
        reveal_strlit("zsh");
    }
    assert(is_word("fish"@, 4, 'f', 'h')) by {
        reveal_strlit("fish");
    }
    assert(is_word("ps1"@, 3, 'p', '1')) by {
        reveal_strlit("ps1");
    }
    assert(is_word("bat"@, 3, 'b', 't')) by {
        reveal_strlit("bat");
    }
    assert(is_word("cmd"@, 3, 'c', 'd')) by {
        reveal_strlit("cmd");
    }
    assert(is_word("sql"@, 3, 's', 'l')) by {
        reveal_strlit("sql");
    }
    assert(is_word("r"@, 1, 'r', 'r')) by {
        reveal_strlit("r");
    }
    assert(is_word("lua"@, 3, 'l', 'a')) by {
        reveal_strlit("lua");
    }
    assert(is_word("pl"@, 2, 'p', 'l')) by {
        reveal_strlit("pl");
    }
    assert(is_word("pm"@, 2, 'p', 'm')) by {
        reveal_strlit("pm");
    }
    assert(is_word("ex"@, 2, 'e', 'x')) by {
        reveal_strlit("ex");
    }
    assert(is_word("exs"@, 3, 'e', 's')) by {
        reveal_strlit("exs");
    }
    assert(is_word("erl"@, 3, 'e', 'l')) by {
        reveal_strlit("erl");
    }
    assert(is_word("hrl"@, 3, 'h', 'l')) by {
        reveal_strlit("hrl");
    }
    assert(is_word("hs"@, 2, 'h', 's')) by {
        reveal_strlit("hs");
    }
    assert(is_word("lhs"@, 3, 'l', 's')) by {
        reveal_strlit("lhs");
    }
    assert(is_word("ml"@, 2, 'm', 'l')) by {
        reveal_strlit("ml");
    }
    assert(is_word("mli"@, 3, 'm', 'i')) by {
        reveal_strlit("mli");
    }
    assert(is_word("fs"@, 2, 'f', 's')) by {
        reveal_strlit("fs");
    }
    assert(is_word("fsi"@, 3, 'f', 'i')) by {
        reveal_strlit("fsi");
    }
    assert(is_word("fsx"@, 3, 'f', 'x')) by {
        reveal_strlit("fsx");
    }
    assert(is_word("clj"@, 3, 'c', 'j')) by {
        reveal_strlit("clj");
    }
    assert(is_word("cljs"@, 4, 'c', 's')) by {
        reveal_strlit("cljs");
    }
    assert(is_word("cljc"@, 4, 'c', 'c')) by {
        reveal_strlit("cljc");
    }
    assert(is_word("nim"@, 3, 'n', 'm')) by {
        reveal_strlit("nim");
    }
    assert(is_word("zig"@, 3, 'z', 'g')) by {
        reveal_strlit("zig");
    }
    assert(is_word("v"@, 1, 'v', 'v')) by {
        reveal_strlit("v");
    }
    assert(is_word("d"@, 1, 'd', 'd')) by {
        reveal_strlit("d");
    }
    assert(is_word("dart"@, 4, 'd', 't')) by {
        reveal_strlit("dart");
    }
    assert(is_word("vue"@, 3, 'v', 'e')) by {
        reveal_strlit("vue");
    }
    assert(is_word("svelte"@, 6, 's', 'e')) by {
        reveal_strlit("svelte");
    }
}

/// The ends of the extensions of images.
spec fn ends_of_image(e: (nat, char, char)) -> bool {
    ||| e == (3nat, 'p', 'g')
    ||| e == (3nat, 'j', 'g')
    ||| e == (4nat, 'j', 'g')
    ||| e == (3nat, 'g', 'f')
    ||| e == (3nat, 'b', 'p')
    ||| e == (4nat, 't', 'f')
    ||| e == (3nat, 't', 'f')
    ||| e == (4nat, 'w', 'p')
}

/// An extension that is listed as an image.
proof fn lemma_image_word(l: Seq<char>)
    requires
        text::listed(l, IMAGE_EXTENSIONS@),
    ensures
        is_plain(l),
        ends_of_image(ends(l)),
{
    assert(is_word("png"@, 3, 'p', 'g')) by {
        reveal_strlit("png");
    }
    assert(is_word("jpg"@, 3, 'j', 'g')) by {
        reveal_strlit("jpg");
    }
    assert(is_word("jpeg"@, 4, 'j', 'g')) by {
        reveal_strlit("jpeg");
    }
    assert(is_word("gif"@, 3, 'g', 'f')) by {
        reveal_strlit("gif");
    }
    assert(is_word("bmp"@, 3, 'b', 'p')) by {
        reveal_strlit("bmp");
    }
    assert(is_word("tiff"@, 4, 't', 'f')) by {
        reveal_strlit("tiff");
    }
    assert(is_word("tif"@, 3, 't', 'f')) by {
        reveal_strlit("tif");
    }
    assert(is_word("webp"@, 4, 'w', 'p')) by {
        reveal_strlit("webp");
    }
}

/// The extensions of documents.
proof fn lemma_document_words()
    ensures
        is_word("pdf"@, 3, 'p', 'f'),
        is_word("docx"@, 4, 'd', 'x'),
{
    reveal_strlit("pdf");
    reveal_strlit("docx");
}

proof fn lemma_plain_is_lowercase(l: Seq<char>)
    requires
        is_plain(l),
    ensures
        text::lower_of(l) == l,
{
    assert(text::ascii_lowercase(l) =~= l);
}

// ---- Laws -----------------------------------------------------------------

/// Each list of extensions stands for its type, and `pdf` and `docx` alone for
/// theirs: no extension has two types.
pub proof fn law_extensions_have_one_type(ext: Seq<char>)
    ensures
        text::listed(ext, TEXT_EXTENSIONS@) <==> types::type_of_extension(ext) == FileType::Text,
        text::listed(ext, CODE_EXTENSIONS@) <==> types::type_of_extension(ext) == FileType::Code,
        ext == "pdf"@ <==> types::type_of_extension(ext) == FileType::Pdf,
        ext == "docx"@ <==> types::type_of_extension(ext) == FileType::Docx,
        text::listed(ext, IMAGE_EXTENSIONS@) <==> types::type_of_extension(ext) == FileType::Image,
{
    lemma_document_words();
    if text::listed(ext, TEXT_EXTENSIONS@) {
        lemma_text_word(ext);
    }
    if text::listed(ext, CODE_EXTENSIONS@) {
        lemma_code_word(ext);
    }
    if text::listed(ext, IMAGE_EXTENSIONS@) {
        lemma_image_word(ext);
    }
}

/// The extension is documented for the type.
pub open spec fn is_documented(l: Seq<char>, file_type: FileType) -> bool {
    match file_type {
        FileType::Text => {
            l == "txt"@ || l == "md"@ || l == "markdown"@ || l == "rst"@ || l == "log"@
                || l == "csv"@ || l == "json"@ || l == "yaml"@ || l == "yml"@ || l == "toml"@
                || l == "xml"@ || l == "html"@
        },
        FileType::Code => {
            l == "rs"@ || l == "py"@ || l == "js"@ || l == "ts"@ || l == "jsx"@ || l == "tsx"@
                || l == "java"@ || l == "c"@ || l == "cpp"@ || l == "go"@ || l == "rb"@
                || l == "php"@ || l == "swift"@
        },
        FileType::Pdf => l == "pdf"@,
        FileType::Docx => l == "docx"@,
        FileType::Image => {
            l == "png"@ || l == "jpg"@ || l == "jpeg"@ || l == "gif"@ || l == "bmp"@
                || l == "tiff"@ || l == "webp"@
        },
        FileType::Other => false,
    }
}

/// Every documented extension has the type that it is documented for, in whatever
/// case it is written.
pub proof fn law_documented_extensions(ext: Seq<char>, file_type: FileType)
    requires
        is_documented(text::lower_of(ext), file_type),
    ensures
        types::type_of_extension(text::lower_of(ext)) == file_type,
{
    assert(TEXT_EXTENSIONS@[0]@ == "txt"@);
    assert(TEXT_EXTENSIONS@[1]@ == "md"@);
    assert(TEXT_EXTENSIONS@[2]@ == "markdown"@);
    assert(TEXT_EXTENSIONS@[3]@ == "rst"@);
    assert(TEXT_EXTENSIONS@[4]@ == "log"@);
    assert(TEXT_EXTENSIONS@[5]@ == "csv"@);
    assert(TEXT_EXTENSIONS@[7]@ == "json"@);
    assert(TEXT_EXTENSIONS@[8]@ == "yaml"@);
    assert(TEXT_EXTENSIONS@[9]@ == "yml"@);
    assert(TEXT_EXTENSIONS@[10]@ == "toml"@);
    assert(TEXT_EXTENSIONS@[14]@ == "xml"@);
    assert(TEXT_EXTENSIONS@[15]@ == "html"@);
    assert(CODE_EXTENSIONS@[0]@ == "rs"@);
    assert(CODE_EXTENSIONS@[1]@ == "py"@);
    assert(CODE_EXTENSIONS@[2]@ == "js"@);
    assert(CODE_EXTENSIONS@[3]@ == "ts"@);
    assert(CODE_EXTENSIONS@[4]@ == "jsx"@);
    assert(CODE_EXTENSIONS@[5]@ == "tsx"@);
    assert(CODE_EXTENSIONS@[6]@ == "java"@);
    assert(CODE_EXTENSIONS@[7]@ == "c"@);
    assert(CODE_EXTENSIONS@[8]@ == "cpp"@);
    assert(CODE_EXTENSIONS@[13]@ == "go"@);
    assert(CODE_EXTENSIONS@[14]@ == "rb"@);
    assert(CODE_EXTENSIONS@[15]@ == "php"@);
    assert(CODE_EXTENSIONS@[16]@ == "swift"@);
    assert(IMAGE_EXTENSIONS@[0]@ == "png"@);
    assert(IMAGE_EXTENSIONS@[1]@ == "jpg"@);
    assert(IMAGE_EXTENSIONS@[2]@ == "jpeg"@);
    assert(IMAGE_EXTENSIONS@[3]@ == "gif"@);
    assert(IMAGE_EXTENSIONS@[4]@ == "bmp"@);
    assert(IMAGE_EXTENSIONS@[5]@ == "tiff"@);
    assert(IMAGE_EXTENSIONS@[7]@ == "webp"@);
    law_extensions_have_one_type(text::lower_of(ext));
}

/// An extension has the type of its lowercase form: an ASCII extension, and any
/// other whose lowercase form is known.
pub proof fn law_type_ignores_case(ext: Seq<char>)
    requires
        vstd::utf8::is_ascii_chars(ext) || types::type_of_extension(text::lower_of(ext))
            != FileType::Other,
    ensures
        types::type_of_extension(text::lower_of(text::lower_of(ext))) == types::type_of_extension(
            text::lower_of(ext),
        ),
{
    let l = text::lower_of(ext);
    if vstd::utf8::is_ascii_chars(ext) {
        text::lemma_ascii_lowercase(ext);
        assert(text::lower_of(l) =~= l);
    } else {
        law_extensions_have_one_type(l);
        lemma_document_words();
        match types::type_of_extension(l) {
            FileType::Text => lemma_text_word(l),
            FileType::Code => lemma_code_word(l),
            FileType::Image => lemma_image_word(l),
            _ => {},
        }
        lemma_plain_is_lowercase(l);
    }
}

/// An extension of a known type is written in lowercase ASCII letters and digits, and
/// is not empty.
pub proof fn law_known_extensions_are_words(ext: Seq<char>)
    requires
        types::type_of_extension(ext) != FileType::Other,
    ensures
        ext.len() > 0,
        forall|i: int|
            0 <= i < ext.len() ==> 'a' <= (#[trigger] ext[i]) <= 'z' || '0' <= ext[i] <= '9',
{
    law_extensions_have_one_type(ext);
    lemma_document_words();
    match types::type_of_extension(ext) {
        FileType::Text => lemma_text_word(ext),
        FileType::Code => lemma_code_word(ext),
        FileType::Image => lemma_image_word(ext),
        _ => {},
    }
}

} // verus!
