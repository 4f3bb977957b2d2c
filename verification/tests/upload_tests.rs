use yoinkx::conf::Config;
use yoinkx::file_type::{DeclaredMime, FileCategory};
use yoinkx::handler_err::HandlerError;
use yoinkx::upload::{finish_upload, ingest_upload};

const PNG_MAGIC: [u8; 8] = [0x89, 0x50, 0x4E, 0x47, 0x0D, 0x0A, 0x1A, 0x0A];

fn cfg(target: Option<&str>, subdirs: bool) -> Config {
    let mut c = Config::defaults();
    c.target_dir = target.map(str::to_string);
    c.enable_subdirectories = subdirs;
    c
}

fn png_declared() -> Option<DeclaredMime> {
    Some(DeclaredMime {
        top_level: "image".to_string(),
        essence: "image/png".to_string(),
        subtype: "png".to_string(),
    })
}

#[test]
fn persistence_disabled_goes_to_clipboard_only() {
    let config = cfg(None, false);
    let chunks: Vec<Vec<u8>> = vec![PNG_MAGIC.to_vec(), vec![0, 1, 2, 3]];
    let existing: Vec<String> = Vec::new();
    let out = ingest_upload(
        &config,
        &png_declared(),
        Some("shot.png".to_string()),
        &chunks,
        &existing,
        false,
    )
    .unwrap();
    // no target was configured, so nothing is persisted
    assert_eq!(out.location, None);
    assert_eq!(out.data, chunks.concat());
    // one decode and one clipboard handoff later, the response is the marker
    let response = finish_upload(out.location, true, true).unwrap();
    assert_eq!(response, "clipboard only");
}

#[test]
fn subdirectory_classification_places_the_file() {
    let config = cfg(Some("shots"), true);
    let chunks: Vec<Vec<u8>> = vec![PNG_MAGIC.to_vec()];
    let existing: Vec<String> = Vec::new();
    let out = ingest_upload(
        &config,
        &png_declared(),
        Some("myapp_ab12cd34ef.png".to_string()),
        &chunks,
        &existing,
        true,
    )
    .unwrap();
    assert_eq!(out.location, Some("shots/myapp/myapp_ab12cd34ef.png".to_string()));
    let response = finish_upload(out.location, true, true).unwrap();
    assert_eq!(response, "shots/myapp/myapp_ab12cd34ef.png");
}

#[test]
fn declared_image_with_text_magic_is_rejected() {
    let config = cfg(Some("shots"), false);
    let chunks: Vec<Vec<u8>> = vec![b"#!/bin/sh\necho nope\n".to_vec()];
    let existing: Vec<String> = Vec::new();
    let r = ingest_upload(
        &config,
        &png_declared(),
        Some("shot.png".to_string()),
        &chunks,
        &existing,
        true,
    );
    match r {
        Err(HandlerError::FileWasNotAnImage(t)) => {
            assert_eq!(t.category, FileCategory::Text);
        }
        other => panic!("expected a type-gate rejection, got {:?}", other),
    }
}

#[test]
fn sequential_uploads_get_distinct_names() {
    let config = cfg(Some("shots"), false);
    let chunks: Vec<Vec<u8>> = vec![PNG_MAGIC.to_vec()];
    let mut existing: Vec<String> = Vec::new();

    let first = ingest_upload(
        &config,
        &png_declared(),
        Some("shot.png".to_string()),
        &chunks,
        &existing,
        true,
    )
    .unwrap();
    assert_eq!(first.location, Some("shots/shot.png".to_string()));

    // the first upload's file now exists in the target directory
    existing.push("shot.png".to_string());
    let second = ingest_upload(
        &config,
        &png_declared(),
        Some("shot.png".to_string()),
        &chunks,
        &existing,
        true,
    )
    .unwrap();
    assert_eq!(second.location, Some("shots/shot_0.png".to_string()));
}

#[test]
fn oversized_upload_is_rejected_with_sizes() {
    let mut config = cfg(None, false);
    config.max_image_size = 6;
    let chunks: Vec<Vec<u8>> = vec![PNG_MAGIC.to_vec()];
    let existing: Vec<String> = Vec::new();
    let r = ingest_upload(
        &config,
        &png_declared(),
        Some("shot.png".to_string()),
        &chunks,
        &existing,
        false,
    );
    match r {
        Err(e) => {
            assert!(matches!(e, HandlerError::FileTooLarge(8, 6)));
            assert_eq!(e.status_code(), 413);
        }
        Ok(_) => panic!("an oversized upload must be rejected"),
    }
}

#[test]
fn missing_extension_is_added_before_placement() {
    let config = cfg(Some("shots"), false);
    let chunks: Vec<Vec<u8>> = vec![PNG_MAGIC.to_vec()];
    let existing: Vec<String> = Vec::new();
    let out = ingest_upload(
        &config,
        &png_declared(),
        Some("shot".to_string()),
        &chunks,
        &existing,
        true,
    )
    .unwrap();
    assert_eq!(out.location, Some("shots/shot.png".to_string()));
}

#[test]
fn decode_failure_aborts_the_request() {
    let r = finish_upload(Some("shots/shot.png".to_string()), false, true);
    assert!(matches!(r, Err(HandlerError::FailedToLoadImage)));
}

#[test]
fn clipboard_failure_is_reported_after_the_write() {
    let r = finish_upload(Some("shots/shot.png".to_string()), true, false);
    assert!(matches!(r, Err(HandlerError::ClipboardFailed)));
}

#[test]
fn stored_path_is_the_response_body() {
    let r = finish_upload(Some("shots/shot.png".to_string()), true, true).unwrap();
    assert_eq!(r, "shots/shot.png");
}
