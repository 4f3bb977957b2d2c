//! File-type verdicts: the magic-number verdict over a probe of the upload's
//! first bytes, the verdict derived from the client-declared MIME type, and
//! the rule that reconciles the two.

use vstd::prelude::*;

verus! {

/// Coarse category of an upload, the granularity at which the type gate
/// decides; the authoritative format check is the decode step later on.
#[derive(Clone, Copy, Debug, PartialEq, Eq, Structural)]
pub enum FileCategory {
    Image,
    Video,
    Text,
    Other,
    Unknown,
}

/// An upload's type as the pipeline sees it: category, MIME name, and the
/// matching extension.
#[derive(Debug)]
pub struct FileType {
    pub category: FileCategory,
    pub mime_type: String,
    pub file_extension: String,
}

/// Mathematical image of a [`FileType`].
pub ghost struct FileTypeV {
    pub category: FileCategory,
    pub mime_type: Seq<char>,
    pub file_extension: Seq<char>,
}

impl View for FileType {
    type V = FileTypeV;

    open spec fn view(&self) -> FileTypeV {
        FileTypeV {
            category: self.category,
            mime_type: self.mime_type@,
            file_extension: self.file_extension@,
        }
    }
}

/// The verdict used when nothing is known of a file: no category, the
/// catch-all MIME type, no extension.
pub open spec fn unknown_type_v() -> FileTypeV {
    FileTypeV {
        category: FileCategory::Unknown,
        mime_type: "application/octet-stream"@,
        file_extension: ""@,
    }
}

impl FileType {
    /// An exact copy; written out so that verified callers know the copy's
    /// value, which a derived clone would not give them.
    pub fn duplicate(&self) -> (r: FileType)
        ensures
            r@ == self@,
    {
        FileType {
            category: self.category,
            mime_type: self.mime_type.clone(),
            file_extension: self.file_extension.clone(),
        }
    }

    /// The verdict that stands for "nothing known".
    pub fn unknown() -> (r: FileType)
        ensures
            r@ == unknown_type_v(),
    {
        FileType {
            category: FileCategory::Unknown,
            mime_type: "application/octet-stream".to_owned(),
            file_extension: "".to_owned(),
        }
    }
}

/// The client-declared content type of a multipart part, reduced to the
/// three pieces the pipeline reads: the top-level type (e.g. `image`), the
/// essence (e.g. `image/png`, parameters dropped) and the subtype
/// (e.g. `png`).
pub struct DeclaredMime {
    pub top_level: String,
    pub essence: String,
    pub subtype: String,
}

/// Mathematical image of a [`DeclaredMime`].
pub ghost struct DeclaredMimeV {
    pub top_level: Seq<char>,
    pub essence: Seq<char>,
    pub subtype: Seq<char>,
}

impl View for DeclaredMime {
    type V = DeclaredMimeV;

    open spec fn view(&self) -> DeclaredMimeV {
        DeclaredMimeV {
            top_level: self.top_level@,
            essence: self.essence@,
            subtype: self.subtype@,
        }
    }
}

/// Category a declared top-level MIME type maps to.
pub open spec fn category_of_top_level(top: Seq<char>) -> FileCategory {
    if top == "image"@ {
        FileCategory::Image
    } else if top == "video"@ {
        FileCategory::Video
    } else if top == "text"@ {
        FileCategory::Text
    } else {
        FileCategory::Other
    }
}

/// Verdict derived from a declared MIME type.
pub open spec fn declared_type_v(m: DeclaredMimeV) -> FileTypeV {
    FileTypeV {
        category: category_of_top_level(m.top_level),
        mime_type: m.essence,
        file_extension: m.subtype,
    }
}

/// Verdict derived from an optional declared MIME type: a missing
/// declaration means nothing is known.
pub open spec fn declared_or_unknown(m: Option<DeclaredMimeV>) -> FileTypeV {
    match m {
        Some(p) => declared_type_v(p),
        None => unknown_type_v(),
    }
}

/// True iff the string equals the literal; a small verified comparison used
/// to map declared top-level types onto categories.
fn string_eq_str(s: &String, lit: &str) -> (r: bool)
    ensures
        r == (s@ == lit@),
{
    *s == lit.to_owned()
}

impl FileType {
    /// Map the client-declared MIME type (if any) onto a verdict.
    pub fn from_declared(m: &Option<DeclaredMime>) -> (r: FileType)
        ensures
            r@ == match m {
                Some(p) => declared_type_v(p@),
                None => unknown_type_v(),
            },
    {
        match m {
            Some(p) => {
                let category = if string_eq_str(&p.top_level, "image") {
                    FileCategory::Image
                } else if string_eq_str(&p.top_level, "video") {
                    FileCategory::Video
                } else if string_eq_str(&p.top_level, "text") {
                    FileCategory::Text
                } else {
                    FileCategory::Other
                };
                FileType {
                    category,
                    mime_type: p.essence.clone(),
                    file_extension: p.subtype.clone(),
                }
            },
            None => FileType::unknown(),
        }
    }
}

/// What `infer::get` answers on a byte buffer, mapped onto the library's
/// shape: `None` where no signature matches, else the matched category,
/// MIME type and extension.  The answer is a function of the bytes alone.
pub uninterp spec fn infer_verdict(bytes: Seq<u8>) -> Option<FileTypeV>;

/// Relies on `infer::get`: magic-number signature matching over the buffer
/// alone.  The matcher's verdict is mapped variant by variant onto the
/// library's categories; its MIME type and extension are carried over.
#[verifier::external_body]
fn infer_from_bytes(buf: &Vec<u8>) -> (r: Option<FileType>)
    ensures
        r is Some <==> infer_verdict(buf@) is Some,
        r matches Some(t) ==> infer_verdict(buf@) == Some(t@),
{
    infer::get(buf).map(|t| FileType {
        category: match t.matcher_type() {
            infer::MatcherType::Image => FileCategory::Image,
            infer::MatcherType::Text => FileCategory::Text,
            infer::MatcherType::Video => FileCategory::Video,
            _ => FileCategory::Other,
        },
        mime_type: t.mime_type().to_owned(),
        file_extension: t.extension().to_owned(),
    })
}

/// Verdict inferred from a probe of the file's first bytes: the magic-number
/// answer where a signature matches, else "nothing known".
pub open spec fn inferred_or_unknown(bytes: Seq<u8>) -> FileTypeV {
    match infer_verdict(bytes) {
        Some(v) => v,
        None => unknown_type_v(),
    }
}

impl FileType {
    /// Infer a verdict from the first bytes of a file by magic-number
    /// signature matching.
    pub fn from_probe(buf: &Vec<u8>) -> (r: FileType)
        ensures
            r@ == inferred_or_unknown(buf@),
    {
        match infer_from_bytes(buf) {
            Some(t) => t,
            None => FileType::unknown(),
        }
    }
}

/// How the two verdicts are put together: the magic numbers outrank the
/// client's declaration, unless they found nothing and the declaration
/// knows more.
pub open spec fn reconcile_v(declared: FileTypeV, inferred: FileTypeV) -> FileTypeV {
    if inferred.category == FileCategory::Unknown && declared.category != FileCategory::Unknown {
        declared
    } else {
        inferred
    }
}

/// Reconcile the client-declared verdict with the magic-number verdict.
pub fn reconcile(declared: FileType, inferred: FileType) -> (r: FileType)
    ensures
        r@ == reconcile_v(declared@, inferred@),
{
    if inferred.category == FileCategory::Unknown && !(declared.category
        == FileCategory::Unknown) {
        declared
    } else {
        inferred
    }
}

/// Reconciliation favors the inferred verdict unless the inferred one is
/// `Unknown` and the declared one is not: all four quadrants of the truth
/// table, over whether each side's category is known.
pub proof fn lemma_reconcile_quadrants(declared: FileTypeV, inferred: FileTypeV)
    ensures
        declared.category != FileCategory::Unknown && inferred.category != FileCategory::Unknown
            ==> reconcile_v(declared, inferred) == inferred,
        declared.category == FileCategory::Unknown && inferred.category == FileCategory::Unknown
            ==> reconcile_v(declared, inferred) == inferred,
        declared.category == FileCategory::Unknown && inferred.category != FileCategory::Unknown
            ==> reconcile_v(declared, inferred) == inferred,
        declared.category != FileCategory::Unknown && inferred.category == FileCategory::Unknown
            ==> reconcile_v(declared, inferred) == declared,
{
}

} // verus!
