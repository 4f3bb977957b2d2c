use yoinkx::file_type::{reconcile, DeclaredMime, FileCategory, FileType};

fn declared(top: &str, essence: &str, sub: &str) -> Option<DeclaredMime> {
    Some(DeclaredMime {
        top_level: top.to_string(),
        essence: essence.to_string(),
        subtype: sub.to_string(),
    })
}

const PNG_MAGIC: [u8; 8] = [0x89, 0x50, 0x4E, 0x47, 0x0D, 0x0A, 0x1A, 0x0A];

#[test]
fn reconcile_agree_known() {
    let d = FileType::from_declared(&declared("image", "image/png", "png"));
    let i = FileType::from_probe(&PNG_MAGIC.to_vec());
    let r = reconcile(d, i);
    assert_eq!(r.category, FileCategory::Image);
    assert_eq!(r.mime_type, "image/png");
    assert_eq!(r.file_extension, "png");
}

#[test]
fn reconcile_agree_unknown() {
    let d = FileType::from_declared(&None);
    let i = FileType::from_probe(&Vec::new());
    let r = reconcile(d, i);
    assert_eq!(r.category, FileCategory::Unknown);
    assert_eq!(r.mime_type, "application/octet-stream");
    assert_eq!(r.file_extension, "");
}

#[test]
fn reconcile_inferred_unknown_declared_wins() {
    let d = FileType::from_declared(&declared("image", "image/png", "png"));
    let i = FileType::from_probe(&Vec::new());
    assert_eq!(i.category, FileCategory::Unknown);
    let r = reconcile(d, i);
    assert_eq!(r.category, FileCategory::Image);
    assert_eq!(r.mime_type, "image/png");
}

#[test]
fn reconcile_disagree_both_known_inferred_wins() {
    let d = FileType::from_declared(&declared("text", "text/plain", "plain"));
    let i = FileType::from_probe(&PNG_MAGIC.to_vec());
    let r = reconcile(d, i);
    assert_eq!(r.category, FileCategory::Image);
    assert_eq!(r.mime_type, "image/png");
}

#[test]
fn declared_categories() {
    assert_eq!(
        FileType::from_declared(&declared("image", "image/png", "png")).category,
        FileCategory::Image
    );
    assert_eq!(
        FileType::from_declared(&declared("video", "video/mp4", "mp4")).category,
        FileCategory::Video
    );
    assert_eq!(
        FileType::from_declared(&declared("text", "text/plain", "plain")).category,
        FileCategory::Text
    );
    assert_eq!(
        FileType::from_declared(&declared("application", "application/json", "json")).category,
        FileCategory::Other
    );
    assert_eq!(FileType::from_declared(&None).category, FileCategory::Unknown);
}

#[test]
fn probe_detects_png() {
    let t = FileType::from_probe(&PNG_MAGIC.to_vec());
    assert_eq!(t.category, FileCategory::Image);
    assert_eq!(t.mime_type, "image/png");
    assert_eq!(t.file_extension, "png");
}

#[test]
fn probe_detects_shell_script_as_text() {
    let t = FileType::from_probe(&b"#!/bin/sh\necho hello\n".to_vec());
    assert_eq!(t.category, FileCategory::Text);
    assert_eq!(t.mime_type, "text/x-shellscript");
}

#[test]
fn probe_unknown_for_plain_bytes() {
    let t = FileType::from_probe(&b"just some words".to_vec());
    assert_eq!(t.category, FileCategory::Unknown);
    assert_eq!(t.mime_type, "application/octet-stream");
    assert_eq!(t.file_extension, "");
}

#[test]
fn duplicate_copies_every_field() {
    let t = FileType::from_probe(&PNG_MAGIC.to_vec());
    let c = t.duplicate();
    assert_eq!(c.category, t.category);
    assert_eq!(c.mime_type, t.mime_type);
    assert_eq!(c.file_extension, t.file_extension);
}
