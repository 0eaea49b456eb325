//! Reading images with a vision model behind an OpenAI-compatible endpoint: what
//! is sent, and what is made of the reply.

use crate::paths::extension;
use crate::text::{
    chars_of, copied, decimal, find_chars, is_blank, joined, joined3, same_text, string_of, trim,
    truncate,
};
use crate::types::VisionLlmConfig;
use base64::engine::general_purpose::STANDARD;
use base64::Engine;
use vstd::prelude::*;

verus! {

// ---- JSON -----------------------------------------------------------------

/// A JSON value.
pub enum Json {
    Null,
    Bool(bool),
    /// A number as it is written.
    Number(String),
    Text(String),
    List(Vec<Json>),
    /// The fields of an object.
    Object(Vec<(String, Json)>),
}

/// The first field of that name at or after `from`.
pub open spec fn lookup(fields: Seq<(String, Json)>, name: Seq<char>, from: int) -> Option<Json>
    decreases fields.len() - from,
{
    if from < 0 || from >= fields.len() {
        None
    } else if fields[from].0@ == name {
        Some(fields[from].1)
    } else {
        lookup(fields, name, from + 1)
    }
}

impl Json {
    /// A field of an object.
    pub open spec fn field(self, name: Seq<char>) -> Option<Json> {
        match self {
            Json::Object(fields) => lookup(fields@, name, 0),
            _ => None,
        }
    }

    /// The names of the fields of an object.
    pub open spec fn names(self) -> Seq<Seq<char>> {
        match self {
            Json::Object(fields) => fields@.map_values(|f: (String, Json)| f.0@),
            _ => Seq::empty(),
        }
    }

    /// The text of a string.
    pub open spec fn text(self) -> Option<Seq<char>> {
        match self {
            Json::Text(text) => Some(text@),
            _ => None,
        }
    }

    /// The items of an array.
    pub open spec fn items(self) -> Option<Seq<Json>> {
        match self {
            Json::List(items) => Some(items@),
            _ => None,
        }
    }

    /// The text of a field, if it is a string.
    pub open spec fn field_text(self, name: Seq<char>) -> Option<Seq<char>> {
        match self.field(name) {
            Some(value) => value.text(),
            None => None,
        }
    }

    /// A field of an object.
    pub fn get(&self, name: &str) -> (r: Option<&Json>)
        ensures
            match r {
                Some(value) => self.field(name@) == Some(*value),
                None => self.field(name@) is None,
            },
    {
        match self {
            Json::Object(fields) => {
                let mut i: usize = 0;
                while i < fields.len()
                    invariant
                        i <= fields@.len(),
                        lookup(fields@, name@, 0) == lookup(fields@, name@, i as int),
                        *self == Json::Object(*fields),
                    decreases fields@.len() - i,
                {
                    if same_text(fields[i].0.as_str(), name) {
                        return Some(&fields[i].1);
                    }
                    i += 1;
                }
                None
            },
            _ => None,
        }
    }

    /// The text of a string.
    pub fn as_text(&self) -> (r: Option<&str>)
        ensures
            match r {
                Some(s) => self.text() == Some(s@),
                None => self.text() is None,
            },
    {
        match self {
            Json::Text(text) => Some(text.as_str()),
            _ => None,
        }
    }

    /// The text of a field, if it is a string.
    pub fn get_text(&self, name: &str) -> (r: Option<&str>)
        ensures
            match r {
                Some(s) => self.field_text(name@) == Some(s@),
                None => self.field_text(name@) is None,
            },
    {
        match self.get(name) {
            Some(value) => value.as_text(),
            None => None,
        }
    }
}

// ---- The request ----------------------------------------------------------

/// The character of the standard base64 alphabet for a value of six bits.
pub open spec fn base64_char(value: int) -> char {
    if value < 26 {
        (value + 65) as u8 as char
    } else if value < 52 {
        (value + 71) as u8 as char
    } else if value < 62 {
        (value - 4) as u8 as char
    } else if value == 62 {
        '+'
    } else {
        '/'
    }
}

/// Bytes in base64: three bytes are four characters of six bits each, and what
/// is missing at the end is padded with `=`.
pub open spec fn base64_of(bytes: Seq<u8>) -> Seq<char>
    decreases bytes.len(),
{
    if bytes.len() == 0 {
        Seq::empty()
    } else {
        let n = bytes.len();
        let group = bytes[0] * 0x1_0000 + (if n > 1 {
            bytes[1] * 0x100
        } else {
            0
        }) + (if n > 2 {
            bytes[2] as int
        } else {
            0
        });
        seq![
            base64_char(group / 0x4_0000),
            base64_char((group / 0x1000) % 64),
            if n > 1 {
                base64_char((group / 64) % 64)
            } else {
                '='
            },
            if n > 2 {
                base64_char(group % 64)
            } else {
                '='
            },
        ] + base64_of(
            if n > 3 {
                bytes.skip(3)
            } else {
                Seq::empty()
            },
        )
    }
}

/// The text for that many bytes fits into memory.
pub open spec fn encodable(len: nat) -> bool {
    (len + 2) / 3 * 4 <= isize::MAX
}

/// `Engine::encode` of the `base64` crate with its `STANDARD` engine: the
/// standard alphabet, with padding. It panics where the text would not fit into
/// memory.
#[verifier::external_body]
fn encode_base64(bytes: &[u8]) -> (r: String)
    requires
        encodable(bytes@.len()),
    ensures
        r@ == base64_of(bytes@),
{
    STANDARD.encode(bytes)
}

/// An image as a URL.
pub open spec fn data_url(mime: Seq<char>, bytes: Seq<u8>) -> Seq<char> {
    "data:"@ + mime + ";base64,"@ + base64_of(bytes)
}

/// The request asks the model, with temperature 0.0, to do what the prompt says
/// with the image: one message of the user, with the prompt and the image as its
/// two parts.
pub open spec fn is_request(
    json: Json,
    image: Seq<u8>,
    mime: Seq<char>,
    model: Seq<char>,
    prompt: Seq<char>,
) -> bool {
    &&& json.names() == seq!["model"@, "temperature"@, "messages"@]
    &&& json.field_text("model"@) == Some(model)
    &&& json.field("temperature"@) matches Some(Json::Number(n)) && n@ == "0.0"@
    &&& json.field("messages"@) matches Some(Json::List(messages)) && messages@.len() == 1
        && is_message(messages@[0], image, mime, prompt)
}

/// A message of the user, with the prompt and the image as its two parts.
pub open spec fn is_message(
    message: Json,
    image: Seq<u8>,
    mime: Seq<char>,
    prompt: Seq<char>,
) -> bool {
    &&& message.names() == seq!["role"@, "content"@]
    &&& message.field_text("role"@) == Some("user"@)
    &&& message.field("content"@) matches Some(Json::List(parts)) && parts@.len() == 2 && {
        &&& parts@[0].names() == seq!["type"@, "text"@]
        &&& parts@[0].field_text("type"@) == Some("text"@)
        &&& parts@[0].field_text("text"@) == Some(prompt)
        &&& parts@[1].names() == seq!["type"@, "image_url"@]
        &&& parts@[1].field_text("type"@) == Some("image_url"@)
        &&& parts@[1].field("image_url"@) matches Some(url) && url.names() == seq!["url"@]
            && url.field_text("url"@) == Some(data_url(mime, image))
    }
}

/// An object with one field.
fn object1(name: &str, value: Json) -> (r: Json)
    ensures
        r.names() == seq![name@],
        r.field(name@) == Some(value),
{
    let mut fields: Vec<(String, Json)> = Vec::new();
    fields.push((copied(name), value));
    let r = Json::Object(fields);
    proof {
        reveal_with_fuel(lookup, 2);
        assert(r.names() =~= seq![name@]);
    }
    r
}

/// An object with two fields.
fn object2(a: &str, x: Json, b: &str, y: Json) -> (r: Json)
    requires
        a@ != b@,
    ensures
        r.names() == seq![a@, b@],
        r.field(a@) == Some(x),
        r.field(b@) == Some(y),
{
    let mut fields: Vec<(String, Json)> = Vec::new();
    fields.push((copied(a), x));
    fields.push((copied(b), y));
    let r = Json::Object(fields);
    proof {
        reveal_with_fuel(lookup, 3);
        assert(r.names() =~= seq![a@, b@]);
    }
    r
}

/// An object with three fields.
fn object3(a: &str, x: Json, b: &str, y: Json, c: &str, z: Json) -> (r: Json)
    requires
        a@ != b@,
        a@ != c@,
        b@ != c@,
    ensures
        r.names() == seq![a@, b@, c@],
        r.field(a@) == Some(x),
        r.field(b@) == Some(y),
        r.field(c@) == Some(z),
{
    let mut fields: Vec<(String, Json)> = Vec::new();
    fields.push((copied(a), x));
    fields.push((copied(b), y));
    fields.push((copied(c), z));
    let r = Json::Object(fields);
    proof {
        reveal_with_fuel(lookup, 4);
        assert(r.names() =~= seq![a@, b@, c@]);
    }
    r
}

/// Build the chat-completions payload for a single image.
pub fn build_request(image_bytes: &[u8], mime: &str, cfg: &VisionLlmConfig) -> (r: Json)
    requires
        encodable(image_bytes@.len()),
    ensures
        is_request(r, image_bytes@, mime@, cfg.model@, cfg.prompt@),
{
    let encoded = encode_base64(image_bytes);
    let mut url = joined3("data:", mime, ";base64,");
    url.append(encoded.as_str());
    proof {
        reveal_strlit("type");
        reveal_strlit("text");
        reveal_strlit("image_url");
        reveal_strlit("role");
        reveal_strlit("content");
        reveal_strlit("model");
        reveal_strlit("temperature");
        reveal_strlit("messages");
        assert("type"@[1] == 'y' && "text"@[1] == 'e');
        assert("model"@.len() != "temperature"@.len() && "model"@.len() != "messages"@.len());
        assert("temperature"@.len() != "messages"@.len());
        assert("role"@.len() != "content"@.len() && "type"@.len() != "image_url"@.len());
    }
    let text_part = object2(
        "type",
        Json::Text(copied("text")),
        "text",
        Json::Text(copied(cfg.prompt.as_str())),
    );
    let image_part = object2(
        "type",
        Json::Text(copied("image_url")),
        "image_url",
        object1("url", Json::Text(url)),
    );
    let mut parts: Vec<Json> = Vec::new();
    parts.push(text_part);
    parts.push(image_part);
    let message = object2("role", Json::Text(copied("user")), "content", Json::List(parts));
    let mut messages: Vec<Json> = Vec::new();
    messages.push(message);
    object3(
        "model",
        Json::Text(copied(cfg.model.as_str())),
        "temperature",
        Json::Number(copied("0.0")),
        "messages",
        Json::List(messages),
    )
}

/// The value of the `Authorization` header, where there is a key.
pub fn authorization(cfg: &VisionLlmConfig) -> (r: Option<String>)
    ensures
        crate::paths::opt_view(r) == (match cfg.api_key {
            Some(key) => Some("Bearer "@ + key@),
            None => None,
        }),
{
    match &cfg.api_key {
        Some(key) => Some(joined("Bearer ", key.as_str())),
        None => None,
    }
}

// ---- The reply ------------------------------------------------------------

/// What is wrong with a reply.
#[derive(Debug)]
pub enum ResponseError {
    /// The service reports an error.
    Api(String),
    /// There are no choices in it.
    NoChoices,
    /// The first choice has no content.
    NoContent,
    /// The content is neither a text nor a list of texts.
    UnexpectedContent,
}

/// The message of an error that the service reports.
pub open spec fn api_message(error: Json) -> Seq<char> {
    match error.field_text("message"@) {
        Some(message) => message,
        None => match error.text() {
            Some(text) => text,
            None => "unknown error"@,
        },
    }
}

/// The texts of the first `n` parts, each on a line of its own.
pub open spec fn texts_of(parts: Seq<Json>, n: nat) -> Seq<char>
    decreases n,
{
    if n == 0 {
        Seq::empty()
    } else {
        let before = texts_of(parts, (n - 1) as nat);
        match parts[n - 1].field_text("text"@) {
            Some(text) => if before.len() == 0 {
                text
            } else {
                before.push('\n') + text
            },
            None => before,
        }
    }
}

/// The first choice of a reply.
pub open spec fn first_choice(json: Json) -> Option<Json> {
    match json.field("choices"@) {
        Some(choices) => match choices.items() {
            Some(items) => if items.len() > 0 {
                Some(items[0])
            } else {
                None
            },
            None => None,
        },
        None => None,
    }
}

/// The content of a choice.
pub open spec fn content_of(choice: Json) -> Option<Json> {
    match choice.field("message"@) {
        Some(message) => message.field("content"@),
        None => None,
    }
}

/// The text of a content.
pub open spec fn content_text(content: Json) -> Option<Seq<char>> {
    match content {
        Json::Text(text) => Some(crate::text::trimmed(text@)),
        Json::List(parts) => {
            let all = texts_of(parts@, parts@.len());
            if all.len() > 0 {
                Some(crate::text::trimmed(all))
            } else {
                None
            }
        },
        _ => None,
    }
}

/// The texts of some parts, each on a line of its own.
fn collect_texts(parts: &Vec<Json>) -> (r: String)
    ensures
        r@ == texts_of(parts@, parts@.len()),
{
    let mut out = String::new();
    let mut i: usize = 0;
    proof {
        assert(out@ =~= texts_of(parts@, 0));
    }
    while i < parts.len()
        invariant
            i <= parts@.len(),
            out@ == texts_of(parts@, i as nat),
        decreases parts@.len() - i,
    {
        match parts[i].get_text("text") {
            Some(text) => {
                if !out.as_str().is_empty() {
                    out.push('\n');
                }
                out.append(text);
                proof {
                    assert(out@ =~= texts_of(parts@, (i + 1) as nat));
                }
            },
            None => {},
        }
        i += 1;
    }
    out
}

/// Pull the assistant text out of a reply: the content of the first choice, a
/// string or a list of parts with texts. Errors that the service reports come
/// first.
pub fn parse_response(json: &Json) -> (r: Result<String, ResponseError>)
    ensures
        match json.field("error"@) {
            Some(error) => r matches Err(ResponseError::Api(message)) && message@ == api_message(
                error,
            ),
            None => match first_choice(*json) {
                None => r == Err::<String, ResponseError>(ResponseError::NoChoices),
                Some(choice) => match content_of(choice) {
                    None => r == Err::<String, ResponseError>(ResponseError::NoContent),
                    Some(content) => match content_text(content) {
                        None => r == Err::<String, ResponseError>(
                            ResponseError::UnexpectedContent,
                        ),
                        Some(text) => r matches Ok(s) && s@ == text,
                    },
                },
            },
        },
{
    match json.get("error") {
        Some(error) => {
            let message = match error.get_text("message") {
                Some(message) => copied(message),
                None => match error.as_text() {
                    Some(text) => copied(text),
                    None => copied("unknown error"),
                },
            };
            return Err(ResponseError::Api(message));
        },
        None => {},
    }
    let choice = match json.get("choices") {
        Some(Json::List(items)) => {
            if items.len() > 0 {
                &items[0]
            } else {
                return Err(ResponseError::NoChoices);
            }
        },
        _ => {
            return Err(ResponseError::NoChoices);
        },
    };
    let content = match choice.get("message") {
        Some(message) => match message.get("content") {
            Some(content) => content,
            None => {
                return Err(ResponseError::NoContent);
            },
        },
        None => {
            return Err(ResponseError::NoContent);
        },
    };
    match content {
        Json::Text(text) => Ok(trim(text.as_str())),
        Json::List(parts) => {
            let all = collect_texts(parts);
            if all.as_str().is_empty() {
                Err(ResponseError::UnexpectedContent)
            } else {
                Ok(trim(all.as_str()))
            }
        },
        _ => Err(ResponseError::UnexpectedContent),
    }
}

/// How much of a JSON value an error message shows.
pub const SHOWN_JSON: usize = 200;

impl ResponseError {
    /// The text that describes the error; `shown` is the value that is not as it
    /// should be, written as JSON.
    pub open spec fn message_of(self, shown: Seq<char>) -> Seq<char> {
        match self {
            ResponseError::Api(message) => "vision-llm API error: "@ + message@,
            ResponseError::NoChoices => "vision-llm response had no choices: "@
                + crate::text::truncated(shown, SHOWN_JSON as nat),
            ResponseError::NoContent => "vision-llm response had no message.content"@,
            ResponseError::UnexpectedContent => "vision-llm response had unexpected content shape: "@
                + crate::text::truncated(shown, SHOWN_JSON as nat),
        }
    }

    /// Describes the error.
    pub fn message(&self, shown: &str) -> (r: String)
        ensures
            r@ == self.message_of(shown@),
    {
        match self {
            ResponseError::Api(message) => joined("vision-llm API error: ", message.as_str()),
            ResponseError::NoChoices => joined(
                "vision-llm response had no choices: ",
                truncate(shown, SHOWN_JSON).as_str(),
            ),
            ResponseError::NoContent => copied("vision-llm response had no message.content"),
            ResponseError::UnexpectedContent => joined(
                "vision-llm response had unexpected content shape: ",
                truncate(shown, SHOWN_JSON).as_str(),
            ),
        }
    }
}

/// How much of the body of an HTTP error is shown.
pub const SHOWN_BODY: usize = 400;

/// Describes a reply with an HTTP error.
pub fn http_error(code: u16, detail: &str) -> (r: String)
    ensures
        r@ == "vision-llm HTTP "@ + crate::text::decimal_of(code as nat) + ": "@
            + crate::text::truncated(detail@, SHOWN_BODY as nat),
{
    let mut s = joined3("vision-llm HTTP ", decimal(code as u64).as_str(), ": ");
    s.append(truncate(detail, SHOWN_BODY).as_str());
    s
}

// ---- The kind of image ----------------------------------------------------

/// The kinds of image that are told apart.
#[derive(Clone, Copy, Debug, PartialEq, Eq, Structural)]
pub enum ImageKind {
    Jpeg,
    Gif,
    WebP,
    Tiff,
    Bmp,
    Other,
}

/// The kind of image that `image::guess_format` takes bytes for.
pub uninterp spec fn guessed_kind(bytes: Seq<u8>) -> Option<ImageKind>;

/// `image::guess_format`: the format by the first bytes, a function of the bytes
/// alone; nothing where they are those of no format.
#[verifier::external_body]
fn guess_kind(bytes: &[u8]) -> (r: Option<ImageKind>)
    ensures
        r == guessed_kind(bytes@),
{
    match image::guess_format(bytes) {
        Ok(image::ImageFormat::Jpeg) => Some(ImageKind::Jpeg),
        Ok(image::ImageFormat::Gif) => Some(ImageKind::Gif),
        Ok(image::ImageFormat::WebP) => Some(ImageKind::WebP),
        Ok(image::ImageFormat::Tiff) => Some(ImageKind::Tiff),
        Ok(image::ImageFormat::Bmp) => Some(ImageKind::Bmp),
        Ok(_) => Some(ImageKind::Other),
        Err(_) => None,
    }
}

/// The kind of image that an extension in lowercase stands for.
pub open spec fn kind_of_extension(ext: Seq<char>) -> ImageKind {
    if ext == "jpg"@ || ext == "jpeg"@ {
        ImageKind::Jpeg
    } else if ext == "gif"@ {
        ImageKind::Gif
    } else if ext == "webp"@ {
        ImageKind::WebP
    } else if ext == "tiff"@ || ext == "tif"@ {
        ImageKind::Tiff
    } else if ext == "bmp"@ {
        ImageKind::Bmp
    } else {
        ImageKind::Other
    }
}

impl ImageKind {
    /// The MIME type of a kind of image; PNG stands for all that are not told
    /// apart.
    pub open spec fn mime_of(self) -> Seq<char> {
        match self {
            ImageKind::Jpeg => "image/jpeg"@,
            ImageKind::Gif => "image/gif"@,
            ImageKind::WebP => "image/webp"@,
            ImageKind::Tiff => "image/tiff"@,
            ImageKind::Bmp => "image/bmp"@,
            ImageKind::Other => "image/png"@,
        }
    }

    /// The MIME type of a kind of image.
    pub fn mime(self) -> (r: &'static str)
        ensures
            r@ == self.mime_of(),
    {
        match self {
            ImageKind::Jpeg => "image/jpeg",
            ImageKind::Gif => "image/gif",
            ImageKind::WebP => "image/webp",
            ImageKind::Tiff => "image/tiff",
            ImageKind::Bmp => "image/bmp",
            ImageKind::Other => "image/png",
        }
    }
}

/// The kind of an image: by its bytes, or else by the extension of its path.
pub open spec fn kind_of(guessed: Option<ImageKind>, path: Seq<char>) -> ImageKind {
    match guessed {
        Some(kind) => kind,
        None => match crate::paths::extension_of(path) {
            Some(ext) => kind_of_extension(crate::text::ascii_lowercase(ext)),
            None => ImageKind::Other,
        },
    }
}

/// A text with `A`..`Z` in lowercase.
fn ascii_lowercased(s: &str) -> (r: String)
    ensures
        r@ == crate::text::ascii_lowercase(s@),
{
    let v = chars_of(s);
    let mut out = String::new();
    let mut i: usize = 0;
    while i < v.len()
        invariant
            i <= v@.len(),
            v@ == s@,
            out@.len() == i,
            forall|k: int| 0 <= k < i ==> (#[trigger] out@[k]) == crate::text::ascii_lower(v@[k]),
        decreases v@.len() - i,
    {
        let c = v[i];
        if 'A' <= c && c <= 'Z' {
            out.push((c as u8 + 32) as char);
        } else {
            out.push(c);
        }
        i += 1;
    }
    proof {
        assert(out@ =~= crate::text::ascii_lowercase(s@));
    }
    out
}

/// The MIME type of an image, given the kind that its bytes were taken for.
pub fn mime_for(guessed: Option<ImageKind>, path: &str) -> (r: &'static str)
    ensures
        r@ == kind_of(guessed, path@).mime_of(),
{
    let kind = match guessed {
        Some(kind) => kind,
        None => match extension(path) {
            None => ImageKind::Other,
            Some(ext) => {
                let lower = ascii_lowercased(ext.as_str());
                let e = lower.as_str();
                if same_text(e, "jpg") || same_text(e, "jpeg") {
                    ImageKind::Jpeg
                } else if same_text(e, "gif") {
                    ImageKind::Gif
                } else if same_text(e, "webp") {
                    ImageKind::WebP
                } else if same_text(e, "tiff") || same_text(e, "tif") {
                    ImageKind::Tiff
                } else if same_text(e, "bmp") {
                    ImageKind::Bmp
                } else {
                    ImageKind::Other
                }
            },
        },
    };
    kind.mime()
}

/// Guess a MIME type from the first bytes of an image, falling back to the path's
/// extension and finally to `image/png`.
pub fn guess_mime(bytes: &[u8], path: &str) -> (r: &'static str)
    ensures
        r@ == kind_of(guessed_kind(bytes@), path@).mime_of(),
{
    mime_for(guess_kind(bytes), path)
}

// ---- Readiness ------------------------------------------------------------

/// The endpoint up to the path: scheme and host. An endpoint that is no URL
/// with a path is left as it is.
pub open spec fn origin_of(endpoint: Seq<char>) -> Seq<char> {
    match crate::text::first_from(endpoint, "://"@, 0) {
        None => endpoint,
        Some(at) => {
            let slash = crate::text::position_from(endpoint, '/', at + 3);
            if slash < endpoint.len() {
                endpoint.take(slash)
            } else {
                endpoint
            }
        },
    }
}

/// Derive a best-effort "origin" URL for the readiness check.
pub fn health_check_url(endpoint: &str) -> (r: String)
    ensures
        r@ == origin_of(endpoint@),
{
    let v = chars_of(endpoint);
    let mark = chars_of("://");
    match find_chars(&v, &mark, 0) {
        None => copied(endpoint),
        Some(at) => {
            proof {
                crate::text::lemma_first_from(v@, mark@, 0);
                reveal_strlit("://");
                assert(mark@.len() == 3);
                assert(at + 3 <= v.len());
            }
            let mut i: usize = at + 3;
            while i < v.len() && v[i] != '/'
                invariant
                    at + 3 <= i <= v@.len(),
                    crate::text::position_from(v@, '/', at + 3) == crate::text::position_from(
                        v@,
                        '/',
                        i as int,
                    ),
                decreases v@.len() - i,
            {
                i += 1;
            }
            if i < v.len() {
                let origin = string_of(&v, 0, i);
                proof {
                    assert(origin@ =~= endpoint@.take(i as int));
                }
                origin
            } else {
                copied(endpoint)
            }
        },
    }
}

/// Why the vision model cannot be used.
#[derive(Debug)]
pub enum ReadyError {
    EmptyEndpoint,
    EmptyModel,
    Unreachable { origin: String, reason: String, model: String },
}

impl ReadyError {
    /// The text that describes the error.
    pub open spec fn message_of(self) -> Seq<char> {
        match self {
            ReadyError::EmptyEndpoint => "vision-llm endpoint is empty"@,
            ReadyError::EmptyModel => "vision-llm model name is empty"@,
            ReadyError::Unreachable { origin, reason, model } =>
                "vision-llm endpoint unreachable at "@ + origin@ + ": "@ + reason@
                + ". If you're using Ollama, check that `ollama serve` is running and that the model is pulled (e.g. `ollama pull "@
                + model@ + "`)."@,
        }
    }

    /// Describes the error.
    pub fn message(&self) -> (r: String)
        ensures
            r@ == self.message_of(),
    {
        match self {
            ReadyError::EmptyEndpoint => copied("vision-llm endpoint is empty"),
            ReadyError::EmptyModel => copied("vision-llm model name is empty"),
            ReadyError::Unreachable { origin, reason, model } => {
                let mut s = joined3("vision-llm endpoint unreachable at ", origin.as_str(), ": ");
                s.append(reason.as_str());
                s.append(
                    ". If you're using Ollama, check that `ollama serve` is running and that the model is pulled (e.g. `ollama pull ",
                );
                s.append(model.as_str());
                s.append("`).");
                s
            },
        }
    }
}

/// The URL by which to see whether the service is there, unless the
/// configuration is unusable.
pub fn readiness_url(cfg: &VisionLlmConfig) -> (r: Result<String, ReadyError>)
    ensures
        if crate::text::trimmed(cfg.endpoint@).len() == 0 {
            r == Err::<String, ReadyError>(ReadyError::EmptyEndpoint)
        } else if crate::text::trimmed(cfg.model@).len() == 0 {
            r == Err::<String, ReadyError>(ReadyError::EmptyModel)
        } else {
            r matches Ok(url) && url@ == origin_of(cfg.endpoint@)
        },
{
    if is_blank(cfg.endpoint.as_str()) {
        return Err(ReadyError::EmptyEndpoint);
    }
    if is_blank(cfg.model.as_str()) {
        return Err(ReadyError::EmptyModel);
    }
    Ok(health_check_url(cfg.endpoint.as_str()))
}

/// Whether the service is there, given why it could not be reached, if so. Any
/// HTTP reply means that something is listening.
pub fn ensure_ready(cfg: &VisionLlmConfig, failure: Option<String>) -> (r: Result<(), ReadyError>)
    ensures
        if crate::text::trimmed(cfg.endpoint@).len() == 0 {
            r == Err::<(), ReadyError>(ReadyError::EmptyEndpoint)
        } else if crate::text::trimmed(cfg.model@).len() == 0 {
            r == Err::<(), ReadyError>(ReadyError::EmptyModel)
        } else {
            match failure {
                None => r is Ok,
                Some(why) => r matches Err(ReadyError::Unreachable { origin, reason, model })
                    && origin@ == origin_of(cfg.endpoint@) && reason@ == why@ && model@
                    == cfg.model@,
            }
        },
{
    match readiness_url(cfg) {
        Err(e) => Err(e),
        Ok(origin) => match failure {
            None => Ok(()),
            Some(reason) => Err(
                ReadyError::Unreachable { origin, reason, model: copied(cfg.model.as_str()) },
            ),
        },
    }
}

// ---- Laws -----------------------------------------------------------------

/// An image in base64 takes four characters for every three bytes that it has
/// begun.
pub proof fn law_base64_length(bytes: Seq<u8>)
    ensures
        base64_of(bytes).len() == (bytes.len() + 2) / 3 * 4,
    decreases bytes.len(),
{
    if bytes.len() > 3 {
        law_base64_length(bytes.skip(3));
        assert((bytes.skip(3).len() + 2) / 3 + 1 == (bytes.len() + 2) / 3);
    } else if bytes.len() > 0 {
        law_base64_length(Seq::empty());
    }
}

/// Bytes are encoded three by three: what stands behind a multiple of three bytes is
/// encoded by itself, and only the end is padded.
pub proof fn law_base64_goes_by_three(a: Seq<u8>, b: Seq<u8>)
    requires
        a.len() % 3 == 0,
    ensures
        base64_of(a + b) == base64_of(a) + base64_of(b),
    decreases a.len(),
{
    if a.len() == 0 {
        assert(a + b =~= b);
        assert(base64_of(a) + base64_of(b) =~= base64_of(b));
    } else {
        let rest = a.skip(3);
        law_base64_goes_by_three(rest, b);
        assert((a + b).skip(3) =~= rest + b);
        let first = base64_of(a).take(4);
        if a.len() > 3 {
            assert(base64_of(a) =~= first + base64_of(rest));
            assert(base64_of(a + b) =~= first + base64_of(rest + b));
        } else {
            assert(rest =~= Seq::<u8>::empty());
            assert(rest + b =~= b);
            assert(base64_of(Seq::<u8>::empty()).len() == 0);
            if b.len() == 0 {
                assert(a + b =~= a);
                assert(base64_of(b).len() == 0);
            } else {
                assert(base64_of(a) =~= first);
                assert(base64_of(a + b) =~= first + base64_of(b));
            }
        }
        assert(first + (base64_of(rest) + base64_of(b)) =~= first + base64_of(rest)
            + base64_of(b));
    }
}

/// The origin of an endpoint is the start of it.
pub proof fn law_origin_is_a_start(endpoint: Seq<char>)
    ensures
        origin_of(endpoint).len() <= endpoint.len(),
        origin_of(endpoint) == endpoint.take(origin_of(endpoint).len() as int),
{
    crate::text::lemma_first_from(endpoint, "://"@, 0);
    reveal_strlit("://");
    match crate::text::first_from(endpoint, "://"@, 0) {
        Some(at) => {
            crate::text::lemma_position_from(endpoint, '/', at + 3);
        },
        None => {},
    }
    assert(origin_of(endpoint) =~= endpoint.take(origin_of(endpoint).len() as int));
}

} // verus!
