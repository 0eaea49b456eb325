use argus::ocr_models::{
    missing_downloads, model_cache_dir, model_paths, override_paths, DETECTION_MODEL_URL,
    RECOGNITION_MODEL_URL,
};
use argus::types::VisionLlmConfig;
use argus::vision_llm::{
    authorization, build_request, ensure_ready, guess_mime, health_check_url, http_error, mime_for,
    parse_response, readiness_url, ImageKind, Json, ReadyError, ResponseError,
};

fn cfg() -> VisionLlmConfig {
    VisionLlmConfig {
        endpoint: "http://localhost:11434/v1/chat/completions".to_string(),
        model: "glm-ocr".to_string(),
        api_key: None,
        prompt: "Extract text.".to_string(),
        timeout_secs: 30,
    }
}

fn object(fields: Vec<(&str, Json)>) -> Json {
    Json::Object(fields.into_iter().map(|(n, v)| (n.to_string(), v)).collect())
}

fn string(s: &str) -> Json {
    Json::Text(s.to_string())
}

fn item(json: &Json, at: usize) -> &Json {
    match json {
        Json::List(items) => &items[at],
        _ => panic!("expected a list"),
    }
}

fn content(body: &Json, at: usize) -> &Json {
    item(item(body.get("messages").unwrap(), 0).get("content").unwrap(), at)
}

#[test]
fn build_request_has_expected_top_level_shape() {
    let body = build_request(b"\x89PNG\r\n\x1a\n", "image/png", &cfg());
    assert_eq!(body.get_text("model"), Some("glm-ocr"));
    assert!(matches!(body.get("temperature"), Some(Json::Number(n)) if n == "0.0"));
    match body.get("messages") {
        Some(Json::List(msgs)) => {
            assert_eq!(msgs.len(), 1);
            assert_eq!(msgs[0].get_text("role"), Some("user"));
        }
        _ => panic!("messages array"),
    }
}

#[test]
fn build_request_encodes_image_as_data_url() {
    let body = build_request(b"payload-bytes", "image/jpeg", &cfg());
    let url = content(&body, 1)
        .get("image_url")
        .unwrap()
        .get_text("url")
        .unwrap()
        .to_string();
    assert!(url.starts_with("data:image/jpeg;base64,"));
    assert!(url.ends_with("cGF5bG9hZC1ieXRlcw=="));
}

#[test]
fn images_are_encoded_with_padding() {
    for (bytes, encoded) in [
        (&b""[..], ""),
        (&b"f"[..], "Zg=="),
        (&b"fo"[..], "Zm8="),
        (&b"foo"[..], "Zm9v"),
        (&b"\xff\xfe\xfb\xef"[..], "//777w=="),
    ] {
        let body = build_request(bytes, "image/png", &cfg());
        let url = content(&body, 1).get("image_url").unwrap().get_text("url").unwrap();
        assert_eq!(url, format!("data:image/png;base64,{encoded}"));
    }
}

#[test]
fn build_request_places_prompt_as_first_content_part() {
    let body = build_request(b"x", "image/png", &cfg());
    assert_eq!(content(&body, 0).get_text("type"), Some("text"));
    assert_eq!(content(&body, 0).get_text("text"), Some("Extract text."));
}

fn reply(content: Json) -> Json {
    let message = object(vec![("role", string("assistant")), ("content", content)]);
    object(vec![("choices", Json::List(vec![object(vec![("message", message)])]))])
}

fn parsed(json: &Json) -> String {
    match parse_response(json) {
        Ok(text) => text,
        Err(e) => panic!("{}", e.message("")),
    }
}

#[test]
fn parse_response_openai_shape() {
    assert_eq!(parsed(&reply(string("  hello world  "))), "hello world");
}

#[test]
fn parse_response_anthropic_via_compat_shape() {
    let part = |t: &str| object(vec![("type", string("text")), ("text", string(t))]);
    let resp = reply(Json::List(vec![part("line one"), part("line two")]));
    assert_eq!(parsed(&resp), "line one\nline two");
}

#[test]
fn parse_response_surfaces_api_error_object() {
    let error =
        object(vec![("message", string("model not found")), ("type", string("invalid_request"))]);
    let resp = object(vec![("error", error)]);
    match parse_response(&resp) {
        Err(e) => {
            assert!(matches!(e, ResponseError::Api(_)));
            let err = e.message("");
            assert!(err.contains("model not found"), "got: {err}");
        }
        Ok(_) => panic!("expected an error"),
    }
}

#[test]
fn parse_response_errors_when_choices_missing() {
    let resp = object(vec![]);
    assert!(parse_response(&resp).is_err());
    assert!(matches!(parse_response(&resp), Err(ResponseError::NoChoices)));
}

#[test]
fn parse_response_errors_when_content_is_missing() {
    let choice = object(vec![("message", object(vec![]))]);
    let resp = object(vec![("choices", Json::List(vec![choice]))]);
    assert!(matches!(parse_response(&resp), Err(ResponseError::NoContent)));
}

#[test]
fn parse_response_errors_on_unexpected_content_shape() {
    let resp = reply(Json::Number("42".into()));
    assert!(parse_response(&resp).is_err());
    assert!(matches!(parse_response(&resp), Err(ResponseError::UnexpectedContent)));
}

#[test]
fn parse_response_ollama_shape_matches_openai_shape() {
    let message = object(vec![("role", string("assistant")), ("content", string("transcribed"))]);
    let choice = object(vec![
        ("index", Json::Number("0".into())),
        ("message", message),
        ("finish_reason", string("stop")),
    ]);
    let resp = object(vec![
        ("id", string("chatcmpl-1")),
        ("object", string("chat.completion")),
        ("created", Json::Number("0".into())),
        ("model", string("glm-ocr")),
        ("choices", Json::List(vec![choice])),
    ]);
    assert_eq!(parsed(&resp), "transcribed");
}

#[test]
fn guess_mime_detects_png_magic_bytes() {
    let png_magic = b"\x89PNG\r\n\x1a\nrest";
    assert_eq!(guess_mime(png_magic, "whatever.bin"), "image/png");
    assert_eq!(guess_mime(png_magic, "whatever.jpg"), "image/png");
}

#[test]
fn guess_mime_detects_jpeg_magic_bytes() {
    let jpeg_magic = b"\xff\xd8\xff\xe0\x00\x10JFIF\x00";
    assert_eq!(guess_mime(jpeg_magic, "whatever.bin"), "image/jpeg");
}

#[test]
fn guess_mime_falls_back_to_extension() {
    let unrecognizable = b"not an image";
    assert_eq!(guess_mime(unrecognizable, "scan.jpg"), "image/jpeg");
    assert_eq!(guess_mime(unrecognizable, "scan.JPEG"), "image/jpeg");
    assert_eq!(guess_mime(unrecognizable, "scan.bmp"), "image/bmp");
}

#[test]
fn guess_mime_final_fallback_is_png() {
    assert_eq!(guess_mime(b"not an image", "scan.unknown"), "image/png");
}

#[test]
fn mime_follows_the_kind_before_the_path() {
    assert_eq!(mime_for(Some(ImageKind::Gif), "scan.bmp"), "image/gif");
    assert_eq!(mime_for(Some(ImageKind::Other), "scan.bmp"), "image/png");
    assert_eq!(mime_for(None, "scan.TIF"), "image/tiff");
    assert_eq!(mime_for(None, "scan"), "image/png");
}

#[test]
fn health_check_url_strips_path() {
    assert_eq!(
        health_check_url("http://localhost:11434/v1/chat/completions"),
        "http://localhost:11434"
    );
    assert_eq!(
        health_check_url("https://api.openai.com/v1/chat/completions"),
        "https://api.openai.com"
    );
}

#[test]
fn health_check_url_tolerates_bare_host() {
    assert_eq!(health_check_url("http://localhost:11434"), "http://localhost:11434");
    assert_eq!(health_check_url("not-a-url"), "not-a-url");
}

#[test]
fn ensure_ready_rejects_empty_endpoint() {
    let mut c = cfg();
    c.endpoint = "   ".to_string();
    assert!(ensure_ready(&c, None).is_err());
    assert!(matches!(readiness_url(&c), Err(ReadyError::EmptyEndpoint)));
}

#[test]
fn ensure_ready_rejects_empty_model() {
    let mut c = cfg();
    c.model = String::new();
    assert!(ensure_ready(&c, None).is_err());
    assert!(matches!(readiness_url(&c), Err(ReadyError::EmptyModel)));
}

#[test]
fn ensure_ready_reports_an_unreachable_endpoint() {
    assert!(ensure_ready(&cfg(), None).is_ok());
    match ensure_ready(&cfg(), Some("connection refused".into())) {
        Err(e) => {
            let message = e.message();
            assert!(message.contains("http://localhost:11434: connection refused"));
            assert!(message.contains("ollama pull glm-ocr"));
        }
        Ok(()) => panic!("expected an error"),
    }
}

#[test]
fn key_is_sent_where_there_is_one() {
    let mut c = cfg();
    assert!(authorization(&c).is_none());
    c.api_key = Some("secret".into());
    assert_eq!(authorization(&c).as_deref(), Some("Bearer secret"));
}

#[test]
fn http_errors_name_the_code() {
    assert!(http_error(404, "no such model").contains("404"));
    assert!(http_error(404, "no such model").contains("no such model"));
}

#[test]
fn model_cache_dir_returns_nonempty_path() {
    let path = model_cache_dir("/home/someone/.cache/argus");
    assert!(!path.is_empty());
    assert!(path.ends_with("ocrs-models"));
}

#[test]
fn env_override_reports_missing_files() {
    let msg = match override_paths("/empty", false, false) {
        Err(msg) => msg,
        Ok(_) => panic!("should fail on empty override dir"),
    };
    assert!(msg.contains("text-detection.rten") || msg.contains("text-recognition.rten"));
    assert!(override_paths("/half", true, false).is_err());
    let paths = match override_paths("/full", true, true) {
        Ok(paths) => paths,
        Err(msg) => panic!("{msg}"),
    };
    assert_eq!(paths.detection, "/full/text-detection.rten");
    assert_eq!(paths.recognition, "/full/text-recognition.rten");
}

#[test]
fn missing_models_are_fetched() {
    let paths = model_paths("/models");
    assert!(missing_downloads(&paths, true, true).is_empty());
    let downloads = missing_downloads(&paths, false, false);
    assert_eq!(downloads.len(), 2);
    assert_eq!(downloads[0].url, DETECTION_MODEL_URL);
    assert_eq!(downloads[1].url, RECOGNITION_MODEL_URL);
    let downloads = missing_downloads(&paths, true, false);
    assert_eq!(downloads.len(), 1);
    assert_eq!(downloads[0].url, RECOGNITION_MODEL_URL);
}
