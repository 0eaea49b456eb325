//! The models of the ocrs engine: where they are looked for, and what has to be
//! fetched.

use crate::paths::join;
use crate::text::{copied, joined};
use vstd::prelude::*;

verus! {

pub const DETECTION_MODEL_URL: &'static str =
    "https://ocrs-models.s3-accelerate.amazonaws.com/text-detection.rten";

pub const RECOGNITION_MODEL_URL: &'static str =
    "https://ocrs-models.s3-accelerate.amazonaws.com/text-recognition.rten";

pub const DETECTION_MODEL_FILE: &'static str = "text-detection.rten";

pub const RECOGNITION_MODEL_FILE: &'static str = "text-recognition.rten";

/// No more than this is read of a download.
pub const MAX_DOWNLOAD_BYTES: u64 = 0xc80_0000;

/// The files of the two models.
#[derive(Debug, Clone)]
pub struct ModelPaths {
    pub detection: String,
    pub recognition: String,
}

/// The files are those of the models in a directory.
pub open spec fn are_in(paths: ModelPaths, dir: Seq<char>) -> bool {
    &&& paths.detection@ == crate::paths::joined_path(dir, DETECTION_MODEL_FILE@)
    &&& paths.recognition@ == crate::paths::joined_path(dir, RECOGNITION_MODEL_FILE@)
}

/// The files of the models in a directory.
pub fn model_paths(dir: &str) -> (r: ModelPaths)
    ensures
        are_in(r, dir@),
{
    ModelPaths {
        detection: join(dir, DETECTION_MODEL_FILE),
        recognition: join(dir, RECOGNITION_MODEL_FILE),
    }
}

/// What is said of a directory without both models.
pub open spec fn missing_models_message(dir: Seq<char>) -> Seq<char> {
    "ARGUS_OCRS_MODELS_DIR="@ + dir + " does not contain both "@ + DETECTION_MODEL_FILE@ + " and "@
        + RECOGNITION_MODEL_FILE@
}

/// The models in a directory that the user named, which must hold both of them:
/// none is fetched.
pub fn override_paths(dir: &str, detection_exists: bool, recognition_exists: bool) -> (r: Result<
    ModelPaths,
    String,
>)
    ensures
        if detection_exists && recognition_exists {
            r matches Ok(paths) && are_in(paths, dir@)
        } else {
            r matches Err(message) && message@ == missing_models_message(dir@)
        },
{
    if !detection_exists || !recognition_exists {
        let mut message = joined("ARGUS_OCRS_MODELS_DIR=", dir);
        message.append(" does not contain both ");
        message.append(DETECTION_MODEL_FILE);
        message.append(" and ");
        message.append(RECOGNITION_MODEL_FILE);
        return Err(message);
    }
    Ok(model_paths(dir))
}

/// A model that has to be fetched.
#[derive(Debug, Clone)]
pub struct Download {
    pub url: String,
    pub dest: String,
    /// What the user is told.
    pub notice: String,
}

/// A download of a model.
pub open spec fn is_download(
    d: Download,
    url: Seq<char>,
    dest: Seq<char>,
    notice: Seq<char>,
) -> bool {
    d.url@ == url && d.dest@ == dest && d.notice@ == notice
}

/// The models that have to be fetched: those whose files are not there, the
/// detection model first.
pub fn missing_downloads(
    paths: &ModelPaths,
    detection_exists: bool,
    recognition_exists: bool,
) -> (r: Vec<Download>)
    ensures
        r@.len() == (if detection_exists {
            0int
        } else {
            1int
        }) + (if recognition_exists {
            0int
        } else {
            1int
        }),
        !detection_exists ==> is_download(
            r@[0],
            DETECTION_MODEL_URL@,
            paths.detection@,
            "  downloading ocrs detection model (~5 MB)"@,
        ),
        !recognition_exists ==> is_download(
            r@.last(),
            RECOGNITION_MODEL_URL@,
            paths.recognition@,
            "  downloading ocrs recognition model (~20 MB)"@,
        ),
{
    let mut out: Vec<Download> = Vec::new();
    if !detection_exists {
        out.push(
            Download {
                url: copied(DETECTION_MODEL_URL),
                dest: copied(paths.detection.as_str()),
                notice: copied("  downloading ocrs detection model (~5 MB)"),
            },
        );
    }
    if !recognition_exists {
        out.push(
            Download {
                url: copied(RECOGNITION_MODEL_URL),
                dest: copied(paths.recognition.as_str()),
                notice: copied("  downloading ocrs recognition model (~20 MB)"),
            },
        );
    }
    out
}

/// The directory for the models in the cache of a user.
pub fn model_cache_dir(user_cache: &str) -> (r: String)
    ensures
        r@ == crate::paths::joined_path(user_cache@, "ocrs-models"@),
{
    join(user_cache, "ocrs-models")
}

} // verus!
