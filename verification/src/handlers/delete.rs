//! Deleting a stored file by name.
//!
//! A delete request is decided in two steps with the removal between them:
//! `delete_file` turns the requested name into the path to remove, or into
//! the answer for a name that is no file name; `PendingDelete::finish`
//! turns the outcome of the removal into the answer.

use vstd::prelude::*;
use crate::config::AppConfig;
use crate::utils::naming::{joined_path, storage_path};
use crate::utils::sanitize::{base_name, sanitize};

verus! {

/// How a delete request ended.
#[derive(Debug, Clone, Copy, PartialEq, Eq, Structural)]
pub enum DeleteStatus {
    /// The file was removed.
    Success,
    /// The file was not there, or could not be removed. The causes are not
    /// told apart.
    NotFoundOrError,
    /// The requested name is no file name.
    InvalidName,
}

impl DeleteStatus {
    /// The word that reports this status to the client.
    pub open spec fn label_text(self) -> Seq<char> {
        match self {
            DeleteStatus::Success => "success"@,
            DeleteStatus::NotFoundOrError => "error"@,
            DeleteStatus::InvalidName => "error"@,
        }
    }

    /// The word that reports this status to the client: `success` or
    /// `error`.
    pub fn label(&self) -> (label: String)
        ensures
            label@ == self.label_text(),
    {
        match self {
            DeleteStatus::Success => "success".to_owned(),
            DeleteStatus::NotFoundOrError => "error".to_owned(),
            DeleteStatus::InvalidName => "error".to_owned(),
        }
    }
}

/// The answer to a delete request.
#[derive(Debug, Clone, PartialEq, Eq)]
pub struct DeleteResult {
    pub status: DeleteStatus,
    /// What happened, in words.
    pub message: String,
    /// The requested name as the client wrote it; present on success only.
    pub filename: Option<String>,
}

/// A `DeleteResult` as a mathematical value.
pub ghost struct DeleteResultView {
    pub status: DeleteStatus,
    pub message: Seq<char>,
    pub filename: Option<Seq<char>>,
}

impl View for DeleteResult {
    type V = DeleteResultView;

    open spec fn view(&self) -> DeleteResultView {
        DeleteResultView {
            status: self.status,
            message: self.message@,
            filename: self.filename.deep_view(),
        }
    }
}

/// The answer for a requested name that is no file name.
pub open spec fn invalid_name_result() -> DeleteResultView {
    DeleteResultView {
        status: DeleteStatus::InvalidName,
        message: "Invalid filename format"@,
        filename: None,
    }
}

/// The answer for a file that was removed. It repeats the name as the
/// client wrote it.
pub open spec fn deleted_result(filename: Seq<char>) -> DeleteResultView {
    DeleteResultView {
        status: DeleteStatus::Success,
        message: "File deleted"@,
        filename: Some(filename),
    }
}

/// The answer for a file that could not be removed, whatever the cause.
pub open spec fn not_deleted_result() -> DeleteResultView {
    DeleteResultView {
        status: DeleteStatus::NotFoundOrError,
        message: "File not found or could not be deleted"@,
        filename: None,
    }
}

/// A delete request that waits for the file to be removed.
#[derive(Debug, Clone, PartialEq, Eq)]
pub struct PendingDelete {
    /// The path to remove.
    pub path: String,
    /// The requested name as the client wrote it.
    pub filename: String,
}

/// What to do next for a delete request.
#[derive(Debug, Clone, PartialEq, Eq)]
pub enum DeleteStep {
    /// Answer at once; nothing is to be removed.
    Respond(DeleteResult),
    /// Remove the file at `path`, then call `finish` with the outcome.
    Remove(PendingDelete),
}

/// Decides what a request to delete `filename` touches.
///
/// Only the base name of `filename` is used, so the path to remove always
/// names an entry of the upload directory. A name without a base name is
/// answered as invalid, and nothing is to be removed.
pub fn delete_file(config: &AppConfig, filename: String) -> (step: DeleteStep)
    ensures
        match base_name(filename@) {
            Some(name) => step matches DeleteStep::Remove(pending) && pending.path@ == joined_path(
                config.upload_dir@,
                name,
            ) && pending.filename@ == filename@,
            None => step matches DeleteStep::Respond(result) && result@ == invalid_name_result(),
        },
{
    match sanitize(filename.as_str()) {
        Some(name) => {
            let path = storage_path(config.upload_dir.as_str(), name.as_str());
            DeleteStep::Remove(PendingDelete { path, filename })
        },
        None => DeleteStep::Respond(
            DeleteResult {
                status: DeleteStatus::InvalidName,
                message: "Invalid filename format".to_owned(),
                filename: None,
            },
        ),
    }
}

impl PendingDelete {
    /// The answer to the request, given whether the file was removed.
    pub fn finish(self, removed: bool) -> (result: DeleteResult)
        ensures
            result@ == if removed {
                deleted_result(self.filename@)
            } else {
                not_deleted_result()
            },
    {
        if removed {
            DeleteResult {
                status: DeleteStatus::Success,
                message: "File deleted".to_owned(),
                filename: Some(self.filename),
            }
        } else {
            DeleteResult {
                status: DeleteStatus::NotFoundOrError,
                message: "File not found or could not be deleted".to_owned(),
                filename: None,
            }
        }
    }
}

/// Success is reported for a removed file and for nothing else: an answer
/// given without a removal, or after a removal that failed, has another
/// status and another label.
pub proof fn lemma_success_means_removed(filename: Seq<char>)
    ensures
        deleted_result(filename).status == DeleteStatus::Success,
        not_deleted_result().status == DeleteStatus::NotFoundOrError,
        invalid_name_result().status == DeleteStatus::InvalidName,
        DeleteStatus::NotFoundOrError.label_text() != DeleteStatus::Success.label_text(),
        DeleteStatus::InvalidName.label_text() != DeleteStatus::Success.label_text(),
{
    reveal_strlit("success");
    reveal_strlit("error");
    assert("success"@.len() != "error"@.len());
}

} // verus!
