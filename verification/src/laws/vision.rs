//! Requests to a vision model, its replies, and the models of the other engine.

use crate::ocr_models::{Download, ModelPaths};
use crate::types::VisionLlmConfig;
use crate::vision_llm::{ImageKind, Json, ReadyError, ResponseError};
use vstd::prelude::*;

verus! {

// ---- Objects --------------------------------------------------------------

proof fn lemma_lookup(fields: Seq<(String, Json)>, name: Seq<char>, from: int, k: int)
    requires
        0 <= from <= k <= fields.len(),
        forall|j: int| from <= j < k ==> (#[trigger] fields[j]).0@ != name,
        k < fields.len() ==> fields[k].0@ == name,
    ensures
        k < fields.len() ==> crate::vision_llm::lookup(fields, name, from) == Some(fields[k].1),
        k == fields.len() ==> crate::vision_llm::lookup(fields, name, from) is None,
    decreases k - from,
{
    if from < k {
        lemma_lookup(fields, name, from + 1, k);
    }
}

/// A field of an object is the first one of its name; what is no object, or has no
/// field of the name, has none.
pub proof fn law_field(json: Json, name: Seq<char>, k: int)
    ensures
        json matches Json::Object(fields) ==> {
            &&& 0 <= k < fields@.len() && fields@[k].0@ == name && (forall|j: int|
                0 <= j < k ==> (#[trigger] fields@[j]).0@ != name) ==> json.field(name) == Some(
                fields@[k].1,
            )
            &&& (forall|j: int| 0 <= j < fields@.len() ==> (#[trigger] fields@[j]).0@ != name)
                ==> json.field(name) is None
        },
        json !is Object ==> json.field(name) is None,
{
    if let Json::Object(fields) = json {
        if 0 <= k < fields@.len() && fields@[k].0@ == name && (forall|j: int|
            0 <= j < k ==> (#[trigger] fields@[j]).0@ != name) {
            lemma_lookup(fields@, name, 0, k);
        }
        if forall|j: int| 0 <= j < fields@.len() ==> (#[trigger] fields@[j]).0@ != name {
            lemma_lookup(fields@, name, 0, fields@.len() as int);
        }
    }
}

// ---- Requests -------------------------------------------------------------

/// A request has three fields, its message two, and each part of this two, and no more.
pub proof fn law_request_has_no_more_fields(
    image: &[u8],
    mime: &str,
    cfg: VisionLlmConfig,
    r: Json,
)
    requires
        call_ensures(crate::vision_llm::build_request, (image, mime, &cfg), r),
    ensures
        r matches Json::Object(fields) && fields@.len() == 3 && fields@[0].0@ == "model"@
            && fields@[1].0@ == "temperature"@ && fields@[2].0@ == "messages"@,
        r.field("messages"@) matches Some(Json::List(messages)) && messages@.len() == 1 && {
            &&& messages@[0] matches Json::Object(fields) && fields@.len() == 2
            &&& messages@[0].field("content"@) matches Some(Json::List(parts)) && parts@.len() == 2
                && {
                &&& parts@[0] matches Json::Object(fields) && fields@.len() == 2
                &&& parts@[1] matches Json::Object(fields) && fields@.len() == 2
            }
        },
{
    let names = r.names();
    assert(names.len() == 3);
    if let Json::Object(fields) = r {
        assert(names[0] == fields@[0].0@ && names[1] == fields@[1].0@ && names[2]
            == fields@[2].0@);
    }
    let messages = r.field("messages"@)->0->List_0@;
    assert(messages[0].names().len() == 2);
    let parts = messages[0].field("content"@)->0->List_0@;
    assert(parts[0].names().len() == 2 && parts[1].names().len() == 2);
}

/// A request names the model, asks for temperature 0.0, and has one message of the user
/// with two parts: the prompt, and the image as a data URL of its type.
pub proof fn law_request(image: &[u8], mime: &str, cfg: VisionLlmConfig, r: Json)
    requires
        call_ensures(crate::vision_llm::build_request, (image, mime, &cfg), r),
    ensures
        r.field("model"@) matches Some(Json::Text(model)) && model@ == cfg.model@,
        r.field("temperature"@) matches Some(Json::Number(n)) && n@ == "0.0"@,
        r.field("messages"@) matches Some(Json::List(messages)) && messages@.len() == 1 && {
            let message = messages@[0];
            &&& message.field("role"@) matches Some(Json::Text(role)) && role@ == "user"@
            &&& message.field("content"@) matches Some(Json::List(parts)) && parts@.len() == 2 && {
                &&& parts@[0].field("type"@) matches Some(Json::Text(t)) && t@ == "text"@
                &&& parts@[0].field("text"@) matches Some(Json::Text(t)) && t@ == cfg.prompt@
                &&& parts@[1].field("type"@) matches Some(Json::Text(t)) && t@ == "image_url"@
                &&& parts@[1].field("image_url"@) matches Some(url) && url.field(
                    "url"@,
                ) matches Some(Json::Text(t)) && t@ == "data:"@ + mime@ + ";base64,"@
                    + crate::vision_llm::base64_of(image@)
            }
        },
{
}

// ---- Replies --------------------------------------------------------------

/// An error that the service reports comes before everything else: its message, or
/// itself where it is a text.
pub proof fn law_reported_error(json: Json, r: Result<String, ResponseError>)
    requires
        call_ensures(crate::vision_llm::parse_response, (&json,), r),
        json.field("error"@) is Some,
    ensures
        ({
            let error = json.field("error"@)->0;
            &&& r matches Err(ResponseError::Api(message)) && {
                &&& error.field("message"@) matches Some(Json::Text(text)) ==> message@ == text@
                &&& !(error.field("message"@) is Some && error.field("message"@)->0 is Text) && error
                    is Text ==> message@ == error->Text_0@
                &&& !(error.field("message"@) is Some && error.field("message"@)->0 is Text) && error
                    !is Text ==> message@ == "unknown error"@
            }
        }),
{
}

/// A reply without an error is read from the content of the message of its first
/// choice: a text, or the texts of a list of parts, without the white space at either
/// end. Where there is no choice, no content, or no text in it, that is the error.
pub proof fn law_reply(json: Json, r: Result<String, ResponseError>)
    requires
        call_ensures(crate::vision_llm::parse_response, (&json,), r),
        json.field("error"@) is None,
    ensures
        ({
            let choices = json.field("choices"@);
            let has_choice = choices is Some && choices->0 is List && choices->0->List_0@.len() > 0;
            let choice = choices->0->List_0@[0];
            let message = choice.field("message"@);
            let has_content = message is Some && message->0.field("content"@) is Some;
            let content = message->0.field("content"@)->0;
            let parts = content->List_0@;
            let all = crate::vision_llm::texts_of(parts, parts.len());
            &&& !has_choice ==> r == Err::<String, ResponseError>(ResponseError::NoChoices)
            &&& has_choice && !has_content ==> r == Err::<String, ResponseError>(
                ResponseError::NoContent,
            )
            &&& has_choice && has_content ==> {
                &&& content is Text ==> r is Ok && r->Ok_0@ == crate::text::trimmed(
                    content->Text_0@,
                )
                &&& content is List && all.len() > 0 ==> r is Ok && r->Ok_0@ == crate::text::trimmed(
                    all,
                )
                &&& content is List && all.len() == 0 || content !is Text && content !is List
                    ==> r == Err::<String, ResponseError>(ResponseError::UnexpectedContent)
            }
        }),
{
}

proof fn lemma_texts_of_start(parts: Seq<Json>, more: Seq<Json>, n: nat)
    requires
        n <= parts.len(),
    ensures
        crate::vision_llm::texts_of(parts + more, n) == crate::vision_llm::texts_of(parts, n),
    decreases n,
{
    if n > 0 {
        lemma_texts_of_start(parts, more, (n - 1) as nat);
        assert((parts + more)[n - 1] == parts[n - 1]);
    }
}

/// The texts of a list of parts stand on lines of their own, in the order of the parts:
/// one more part with a text is one more line, and one without a text is none.
pub proof fn law_texts_of_parts(parts: Seq<Json>, part: Json)
    ensures
        crate::vision_llm::texts_of(Seq::<Json>::empty(), 0).len() == 0,
        ({
            let before = crate::vision_llm::texts_of(parts, parts.len());
            let after = crate::vision_llm::texts_of(parts.push(part), parts.len() + 1);
            &&& !(part.field("text"@) is Some && part.field("text"@)->0 is Text) ==> after == before
            &&& part.field("text"@) matches Some(Json::Text(text)) ==> after == (if before.len()
                == 0 {
                text@
            } else {
                before + seq!['\n'] + text@
            })
        }),
{
    lemma_texts_of_start(parts, seq![part], parts.len());
    assert(parts + seq![part] =~= parts.push(part));
    let before = crate::vision_llm::texts_of(parts, parts.len());
    if let Some(Json::Text(text)) = part.field("text"@) {
        assert(before.push('\n') + text@ =~= before + seq!['\n'] + text@);
    }
}

// ---- Images ---------------------------------------------------------------

/// The type of an image is that of its bytes, and where these tell nothing, that of its
/// extension, in whatever case it is written; PNG where that tells nothing either.
pub proof fn law_mime(guessed: Option<ImageKind>, path: &str, r: &'static str)
    requires
        call_ensures(crate::vision_llm::mime_for, (guessed, path), r),
    ensures
        guessed == Some(ImageKind::Jpeg) ==> r@ == "image/jpeg"@,
        guessed == Some(ImageKind::Gif) ==> r@ == "image/gif"@,
        guessed == Some(ImageKind::WebP) ==> r@ == "image/webp"@,
        guessed == Some(ImageKind::Tiff) ==> r@ == "image/tiff"@,
        guessed == Some(ImageKind::Bmp) ==> r@ == "image/bmp"@,
        guessed == Some(ImageKind::Other) ==> r@ == "image/png"@,
        guessed is None && crate::paths::extension_of(path@) is None ==> r@ == "image/png"@,
        guessed is None && crate::paths::extension_of(path@) is Some ==> {
            let ext = crate::paths::extension_of(path@)->0;
            let low = Seq::new(
                ext.len(),
                |i: int|
                    if 'A' <= ext[i] && ext[i] <= 'Z' {
                        (ext[i] as u32 + 32) as char
                    } else {
                        ext[i]
                    },
            );
            &&& low == "jpg"@ || low == "jpeg"@ ==> r@ == "image/jpeg"@
            &&& low == "gif"@ ==> r@ == "image/gif"@
            &&& low == "webp"@ ==> r@ == "image/webp"@
            &&& low == "tiff"@ || low == "tif"@ ==> r@ == "image/tiff"@
            &&& low == "bmp"@ ==> r@ == "image/bmp"@
            &&& low != "jpg"@ && low != "jpeg"@ && low != "gif"@ && low != "webp"@ && low
                != "tiff"@ && low != "tif"@ && low != "bmp"@ ==> r@ == "image/png"@
        },
{
    reveal_strlit("jpg");
    reveal_strlit("jpeg");
    reveal_strlit("gif");
    reveal_strlit("webp");
    lemma_other_words();
    if guessed is None && crate::paths::extension_of(path@) is Some {
        let ext = crate::paths::extension_of(path@)->0;
        let low = Seq::new(
            ext.len(),
            |i: int|
                if 'A' <= ext[i] && ext[i] <= 'Z' {
                    (ext[i] as u32 + 32) as char
                } else {
                    ext[i]
                },
        );
        assert(low =~= crate::text::ascii_lowercase(ext));
        assert("jpg"@[0] == 'j' && "jpeg"@[0] == 'j' && "gif"@[0] == 'g' && "webp"@[0] == 'w');
        assert("tiff"@[0] == 't' && "tif"@[0] == 't' && "bmp"@[0] == 'b');
    }
}

proof fn lemma_other_words()
    ensures
        "tiff"@ == seq!['t', 'i', 'f', 'f'],
        "tif"@ == seq!['t', 'i', 'f'],
        "bmp"@ == seq!['b', 'm', 'p'],
{
    reveal_strlit("tiff");
    reveal_strlit("tif");
    reveal_strlit("bmp");
    assert("tiff"@ =~= seq!['t', 'i', 'f', 'f']);
    assert("tif"@ =~= seq!['t', 'i', 'f']);
    assert("bmp"@ =~= seq!['b', 'm', 'p']);
}

// ---- Readiness ------------------------------------------------------------

/// The origin of an endpoint is its scheme and its host, whatever path stands behind
/// them. An endpoint without a path, or that is no URL, is its own origin.
pub proof fn law_origin(scheme: Seq<char>, host: Seq<char>, path: Seq<char>)
    requires
        !scheme.contains(':'),
        !host.contains('/'),
    ensures
        crate::vision_llm::origin_of(scheme + seq![':', '/', '/'] + host + (seq!['/'] + path))
            == scheme + seq![':', '/', '/'] + host,
        crate::vision_llm::origin_of(scheme + seq![':', '/', '/'] + host) == scheme + seq![
            ':',
            '/',
            '/',
        ] + host,
        crate::vision_llm::origin_of(scheme) == scheme,
{
    reveal_strlit("://");
    let mark = "://"@;
    assert(mark =~= seq![':', '/', '/']);
    let origin = scheme + mark + host;
    let tail = seq!['/'] + path;
    let whole = origin + tail;
    let n: int = scheme.len() as int;
    assert forall|k: int| 0 <= k < n implies scheme[k] != ':' by {
        assert(scheme.contains(scheme[k]));
    }
    assert forall|k: int| 0 <= k < n implies !crate::text::occurs_at(whole, mark, k)
        && !crate::text::occurs_at(origin, mark, k) by {
        if crate::text::occurs_at(whole, mark, k) {
            assert(whole.subrange(k, k + 3)[0] == scheme[k]);
        }
        if crate::text::occurs_at(origin, mark, k) {
            assert(origin.subrange(k, k + 3)[0] == scheme[k]);
        }
    }
    assert(crate::text::occurs_at(whole, mark, n)) by {
        assert(whole.subrange(n, n + 3) =~= mark);
    }
    assert(crate::text::occurs_at(origin, mark, n)) by {
        assert(origin.subrange(n, n + 3) =~= mark);
    }
    lemma_first_from_is(whole, mark, 0, n);
    lemma_first_from_is(origin, mark, 0, n);
    let end: int = origin.len() as int;
    assert forall|k: int| n + 3 <= k < end implies whole[k] != '/' && origin[k] != '/' by {
        assert(host.contains(host[k - n - 3]));
    }
    assert(whole[end] == '/');
    crate::laws::lines::lemma_position(whole, '/', n + 3, end);
    lemma_no_slash(origin, n + 3);
    assert(whole.take(end) =~= origin);
    crate::text::lemma_first_from(scheme, mark, 0);
    if let Some(at) = crate::text::first_from(scheme, mark, 0) {
        assert(scheme.subrange(at, at + 3)[0] == scheme[at]);
    }
}

proof fn lemma_first_from_is(hay: Seq<char>, needle: Seq<char>, from: int, at: int)
    requires
        0 <= from <= at,
        crate::text::occurs_at(hay, needle, at),
        forall|k: int| from <= k < at ==> !crate::text::occurs_at(hay, needle, k),
    ensures
        crate::text::first_from(hay, needle, from) == Some(at),
    decreases at - from,
{
    if from < at {
        lemma_first_from_is(hay, needle, from + 1, at);
    }
}

proof fn lemma_no_slash(text: Seq<char>, from: int)
    requires
        0 <= from <= text.len(),
        forall|k: int| from <= k < text.len() ==> text[k] != '/',
    ensures
        crate::text::position_from(text, '/', from) == text.len(),
    decreases text.len() - from,
{
    if from < text.len() {
        lemma_no_slash(text, from + 1);
    }
}

/// The service is ready unless its endpoint or its model is blank, the endpoint first,
/// or it could not be reached; then its origin, the reason and the model are told.
pub proof fn law_ready(cfg: VisionLlmConfig, failure: Option<String>, r: Result<(), ReadyError>)
    requires
        call_ensures(crate::vision_llm::ensure_ready, (&cfg, failure), r),
    ensures
        ({
            let no_endpoint = crate::text::trimmed(cfg.endpoint@).len() == 0;
            let no_model = crate::text::trimmed(cfg.model@).len() == 0;
            &&& r is Ok <==> !no_endpoint && !no_model && failure is None
            &&& no_endpoint ==> r == Err::<(), ReadyError>(ReadyError::EmptyEndpoint)
            &&& !no_endpoint && no_model ==> r == Err::<(), ReadyError>(ReadyError::EmptyModel)
            &&& !no_endpoint && !no_model && failure is Some ==> (r matches Err(
                ReadyError::Unreachable { origin, reason, model },
            ) && origin@ == crate::vision_llm::origin_of(cfg.endpoint@) && reason@ == failure->0@
                && model@ == cfg.model@)
        }),
{
}

// ---- Models ---------------------------------------------------------------

/// A directory that the user named must hold both models; then their files are those in
/// it.
pub proof fn law_named_models(
    dir: &str,
    detection_exists: bool,
    recognition_exists: bool,
    r: Result<ModelPaths, String>,
)
    requires
        call_ensures(
            crate::ocr_models::override_paths,
            (dir, detection_exists, recognition_exists),
            r,
        ),
    ensures
        r is Ok <==> detection_exists && recognition_exists,
        r is Ok ==> r->Ok_0.detection@ == crate::paths::joined_path(dir@, "text-detection.rten"@)
            && r->Ok_0.recognition@ == crate::paths::joined_path(dir@, "text-recognition.rten"@),
        r is Err ==> r->Err_0@ == "ARGUS_OCRS_MODELS_DIR="@ + dir@ + " does not contain both "@
            + "text-detection.rten"@ + " and "@ + "text-recognition.rten"@,
{
}

/// What has to be fetched are the models whose files are not there, each from its place
/// to its file.
pub proof fn law_missing_models(
    paths: ModelPaths,
    detection_exists: bool,
    recognition_exists: bool,
    r: Vec<Download>,
)
    requires
        call_ensures(
            crate::ocr_models::missing_downloads,
            (&paths, detection_exists, recognition_exists),
            r,
        ),
    ensures
        detection_exists && recognition_exists ==> r@.len() == 0,
        detection_exists != recognition_exists ==> r@.len() == 1,
        !detection_exists && !recognition_exists ==> r@.len() == 2,
        !detection_exists ==> r@[0].dest@ == paths.detection@ && r@[0].url@
            == "https://ocrs-models.s3-accelerate.amazonaws.com/text-detection.rten"@,
        !recognition_exists ==> r@[r@.len() - 1].dest@ == paths.recognition@ && r@[r@.len()
            - 1].url@ == "https://ocrs-models.s3-accelerate.amazonaws.com/text-recognition.rten"@,
{
}

} // verus!
