//! The decisions of the plain file operations: where a rename or an upload
//! may touch the filesystem. The filesystem work itself (removing, renaming,
//! writing bytes) is the driver's; these functions validate the paths and
//! hand the driver the exact targets.

use vstd::prelude::*;

use crate::errors::FileError;
use crate::sandbox::{
    concat_path_str, is_traversal, push_segment, spec_is_traversal, spec_join, spec_push_segment,
    CanonOutcome,
};

verus! {

/// A name search request.
pub struct QueryArgs {
    pub name: String,
}

/// A rename request: both endpoints are caller-supplied relative paths.
pub struct RenameArgs {
    pub from: String,
    pub to: String,
}

/// One form field of an upload request, as the transport hands it over.
pub enum UploadField {
    /// A "path" field carrying the target folder.
    FolderPath(String),
    /// A "file" field: the client-given file name, if any, and the bytes.
    FileData(Option<String>, Vec<u8>),
    /// A field under any other name.
    Other,
}

/// The view of an optional string, for the upload state machine.
pub open spec fn opt_path_view(o: Option<String>) -> Option<Seq<char>> {
    match o {
        None => None,
        Some(s) => Some(s@),
    }
}

/// The upload field state machine: "path" fields set the target folder (a
/// later one wins), the first "file" field ends the walk and must carry a
/// file name and follow a "path" field, and a field under any other name is
/// malformed; running out of fields leaves the upload incomplete.
pub open spec fn spec_parse_upload(fields: Seq<UploadField>, path: Option<Seq<char>>) -> Result<
    (Seq<char>, Seq<char>, Seq<u8>),
    FileError,
>
    decreases fields.len(),
{
    if fields.len() == 0 {
        Err(FileError::ContentError)
    } else {
        match fields[0] {
            UploadField::FolderPath(p) => spec_parse_upload(fields.drop_first(), Some(p@)),
            UploadField::FileData(name, data) => match name {
                Some(n) => match path {
                    Some(p) => Ok((p, n@, data@)),
                    None => Err(FileError::ContentError),
                },
                None => Err(FileError::ContentError),
            },
            UploadField::Other => Err(FileError::ContentError),
        }
    }
}

/// Collect an upload's form fields into the target folder, the file name and
/// the bytes, failing `ContentError` on any malformed or incomplete request.
pub fn upload_parse_fields(fields: Vec<UploadField>) -> (r: Result<
    (String, String, Vec<u8>),
    FileError,
>)
    ensures
        (match spec_parse_upload(fields@, None) {
            Ok(t) => r matches Ok(v) && v.0@ == t.0 && v.1@ == t.1 && v.2@ == t.2,
            Err(e) => r matches Err(e2) && e2 == e,
        }),
{
    let mut rest = fields;
    let mut path: Option<String> = None;
    while rest.len() > 0
        invariant
            spec_parse_upload(fields@, None) == spec_parse_upload(rest@, opt_path_view(path)),
        decreases rest@.len(),
    {
        let ghost pre = rest@;
        let f = rest.remove(0);
        proof {
            assert(rest@ =~= pre.drop_first());
        }
        match f {
            UploadField::FolderPath(p) => {
                path = Some(p);
            },
            UploadField::FileData(name_opt, data) => {
                let n = match name_opt {
                    Some(n) => n,
                    None => {
                        return Err(FileError::ContentError);
                    },
                };
                let p = match path {
                    Some(p) => p,
                    None => {
                        return Err(FileError::ContentError);
                    },
                };
                return Ok((p, n, data));
            },
            UploadField::Other => {
                return Err(FileError::ContentError);
            },
        }
    }
    Err(FileError::ContentError)
}

/// Validate a rename: both endpoints are joined onto the root and both must
/// pass the traversal check (the filesystem's reports are `outcome_from` and
/// `outcome_to` for the joined paths); the accepted pair is handed to the
/// driver.
pub fn rename_request(
    root: &str,
    args: &RenameArgs,
    outcome_from: &CanonOutcome,
    outcome_to: &CanonOutcome,
) -> (r: Result<(String, String), FileError>)
    ensures
        r is Ok <==> (!spec_is_traversal(root@, spec_join(root@, args.from@), *outcome_from)
            && !spec_is_traversal(root@, spec_join(root@, args.to@), *outcome_to)),
        r matches Ok(p) ==> p.0@ == spec_join(root@, args.from@) && p.1@ == spec_join(
            root@,
            args.to@,
        ),
        r matches Err(e) ==> e == FileError::PathError,
{
    let from = concat_path_str(root, args.from.as_str());
    let to = concat_path_str(root, args.to.as_str());
    if is_traversal(root, from.as_str(), outcome_from) {
        return Err(FileError::PathError);
    }
    if is_traversal(root, to.as_str(), outcome_to) {
        return Err(FileError::PathError);
    }
    Ok((from, to))
}

/// Validate an upload target: the form's folder path is joined onto the
/// root, the uploaded file's name is pushed onto it, and the result must
/// pass the traversal check (the filesystem's report is `outcome`) and must
/// not overwrite an existing file (`target_is_file` is the driver's word on
/// that).
pub fn upload_target(
    root: &str,
    path: &str,
    name: &str,
    outcome: &CanonOutcome,
    target_is_file: bool,
) -> (r: Result<String, FileError>)
    ensures
        ({
            let target = spec_push_segment(spec_join(root@, path@), name@);
            &&& (r is Ok <==> (!spec_is_traversal(root@, target, *outcome) && !target_is_file))
            &&& (r matches Ok(t) ==> t@ == target)
            &&& (r matches Err(e) ==> e == FileError::PathError)
        }),
{
    let joined = concat_path_str(root, path);
    let target = push_segment(joined, name);
    if is_traversal(root, target.as_str(), outcome) {
        return Err(FileError::PathError);
    }
    if target_is_file {
        return Err(FileError::PathError);
    }
    Ok(target)
}

} // verus!
