//! The ingestion orchestrator: one upload request runs through sniffing,
//! the type gate, path resolution and the bounded write, in that order, and
//! is finished off by the decode and clipboard steps the caller performs.

use vstd::prelude::*;

use crate::conf::Config;
use crate::file_type::{DeclaredMime, DeclaredMimeV, FileCategory, FileType};
use crate::handler_err::HandlerError;
use crate::limit::{is_excess_chunk, sat_add_u64, write_all_chunks};
use crate::paths::{choose_filename, ensure_extension, placed_path_v, with_extension_v};
use crate::sniff::{base_name_of, prefix_bytes, sniff_upload, verdict_of};

verus! {

/// The view of an optional string.
pub open spec fn opt_str_v(o: Option<String>) -> Option<Seq<char>> {
    match o {
        Some(s) => Some(s@),
        None => None,
    }
}

/// The view of an optional declared MIME type.
pub open spec fn opt_mime_v(o: &Option<DeclaredMime>) -> Option<DeclaredMimeV> {
    match o {
        Some(m) => Some(m@),
        None => None,
    }
}

/// The type gate: only uploads whose reconciled verdict is an image pass.
/// It looks at the category alone; decoding later establishes the exact
/// format.
pub fn check_is_allowed_type(file_type: &FileType) -> (r: bool)
    ensures
        r == (file_type.category == FileCategory::Image),
{
    file_type.category == FileCategory::Image
}

/// A fully materialized upload: all its bytes, ready for the decode step,
/// and the path it was persisted under — `None` where it lives in an
/// ephemeral destination only.
#[derive(Debug)]
pub struct IngestOutcome {
    /// Every byte of the upload, probe included, in stream order.
    pub data: Vec<u8>,
    /// The persisted path, or `None` for "ephemeral only".
    pub location: Option<String>,
}

/// The file name the resolver works with: the declared name (or its fixed
/// stand-in), extension-corrected by the reconciled verdict.
pub open spec fn corrected_name_v(
    chunks: Seq<Seq<u8>>,
    declared: Option<DeclaredMimeV>,
    file_name: Option<Seq<char>>,
) -> Seq<char> {
    with_extension_v(base_name_of(file_name), verdict_of(chunks, declared).file_extension)
}

/// Run one upload through the pipeline: sniff the stream's head and
/// reconcile the verdict, reject anything that is not an image, resolve the
/// destination path (absence never fails the request), and drain the stream
/// under the configured size limit.
///
/// `existing` is the set of file names already present in the resolved
/// directory, and `dir_create_ok` reports whether the caller could ensure
/// that directory exists; both stand for the filesystem state the caller
/// observed at resolution time.
pub fn ingest_upload(
    config: &Config,
    declared: &Option<DeclaredMime>,
    file_name: Option<String>,
    chunks: &Vec<Vec<u8>>,
    existing: &Vec<String>,
    dir_create_ok: bool,
) -> (r: Result<IngestOutcome, HandlerError>)
    ensures
        ({
            let dv = chunks.deep_view();
            let ft = verdict_of(dv, opt_mime_v(declared));
            let name = corrected_name_v(dv, opt_mime_v(declared), opt_str_v(file_name));
            &&& (ft.category != FileCategory::Image ==> (r matches Err(e) && (e matches
                HandlerError::FileWasNotAnImage(t) && t@ == ft)))
            &&& (ft.category == FileCategory::Image && dv.flatten().len() <= config.max_image_size
                ==> (r matches Ok(out) && out.data@ == dv.flatten() && opt_str_v(out.location)
                == placed_path_v(config, name, existing.deep_view(), dir_create_ok)))
            &&& (ft.category == FileCategory::Image && dv.flatten().len() > config.max_image_size
                ==> (r matches Err(e) && (exists|k: int|
                    #[trigger] is_excess_chunk(dv, config.max_image_size as int, k)
                    && e == HandlerError::FileTooLarge(
                        sat_add_u64(prefix_bytes(dv, k).len() as u64, dv[k].len() as u64),
                        config.max_image_size,
                    ))))
        }),
{
    let sniffed = sniff_upload(chunks, declared, file_name);
    if !check_is_allowed_type(&sniffed.file_type) {
        return Err(HandlerError::FileWasNotAnImage(sniffed.file_type));
    }
    let name = ensure_extension(&sniffed.base_file_name, &sniffed.file_type.file_extension);
    let location = choose_filename(config, &name, existing, dir_create_ok);
    let data = match write_all_chunks(chunks, config.max_image_size) {
        Ok(d) => d,
        Err(e) => {
            return Err(e);
        },
    };
    Ok(IngestOutcome { data, location })
}

/// The response body of a successful upload: the persisted path, or the
/// fixed marker for an upload that went to the clipboard alone.
pub open spec fn response_v(location: Option<Seq<char>>) -> Seq<char> {
    match location {
        Some(l) => l,
        None => "clipboard only"@,
    }
}

/// Finish an upload after the caller ran the decode and clipboard steps on
/// the materialized bytes: a failed decode aborts the request, a failed
/// clipboard handoff is reported as an error without undoing the persisted
/// write, and success answers with the stored path or the ephemeral marker.
pub fn finish_upload(location: Option<String>, decode_ok: bool, clip_ok: bool) -> (r: Result<
    String,
    HandlerError,
>)
    ensures
        !decode_ok ==> r == Err::<String, HandlerError>(HandlerError::FailedToLoadImage),
        decode_ok && !clip_ok ==> r == Err::<String, HandlerError>(HandlerError::ClipboardFailed),
        decode_ok && clip_ok ==> (r matches Ok(s) && s@ == response_v(opt_str_v(location))),
{
    if !decode_ok {
        Err(HandlerError::FailedToLoadImage)
    } else if !clip_ok {
        Err(HandlerError::ClipboardFailed)
    } else {
        match location {
            Some(l) => Ok(l),
            None => Ok("clipboard only".to_owned()),
        }
    }
}

} // verus!
