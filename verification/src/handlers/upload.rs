//! Storing the files of a multipart upload.
//!
//! An upload is a run of steps with the caller's work between them. The
//! caller asks the request for its next field and hands the outcome to
//! `UploadSession::next_field`; reads the body of a field that is to be
//! stored and hands it to `upload_file`; writes the file that `upload_file`
//! asks for and hands the outcome to `PendingWrite::finish`. Each step says
//! what to do next, and the session carries the records of the files stored
//! so far.

use vstd::prelude::*;
use vstd::string::StringExecFns;
use crate::config::AppConfig;
use crate::error::HttpError;
use crate::utils::naming::{
    fresh_identifier, is_generated_name, is_v4_identifier, joined_path,
    lemma_generated_name_is_plain, lemma_joined_path_keeps_name, stored_extension, stored_name,
    stored_name_of, storage_path,
};
use crate::utils::sanitize::base_name;
use crate::utils::transcode::{bytes_to_store, is_image_type, transcode};

verus! {

/// The largest request body that the upload endpoint accepts, in bytes.
pub const MAX_BODY_BYTES: usize = 10 * 1024 * 1024;

/// Name of the form field that carries a file.
pub const FILE_FIELD: &'static str = "file";

/// What a multipart field declares about itself.
#[derive(Debug, Clone, PartialEq, Eq)]
pub struct FieldHeader {
    /// The name of the form field.
    pub name: Option<String>,
    /// The file name that the client gave.
    pub file_name: Option<String>,
    /// The content type that the client gave.
    pub content_type: Option<String>,
}

/// What the request gave when asked for its next field.
#[derive(Debug, Clone, PartialEq, Eq)]
pub enum FieldEvent {
    /// The body is no well-formed multipart body.
    Malformed,
    /// The body has no further field.
    End,
    /// The body has a further field.
    Field(FieldHeader),
}

/// The record of one stored file, as reported to the client.
#[derive(Debug, Clone, PartialEq, Eq)]
pub struct UploadedFileRecord {
    /// The file name that the client gave.
    pub original_name: String,
    /// The name under which the file is stored.
    pub stored_name: String,
    /// Where the file can be fetched.
    pub url: String,
    /// The content type that the client gave.
    pub mime_type: String,
}

/// An `UploadedFileRecord` as a mathematical value.
pub ghost struct RecordView {
    pub original_name: Seq<char>,
    pub stored_name: Seq<char>,
    pub url: Seq<char>,
    pub mime_type: Seq<char>,
}

impl View for UploadedFileRecord {
    type V = RecordView;

    open spec fn view(&self) -> RecordView {
        RecordView {
            original_name: self.original_name@,
            stored_name: self.stored_name@,
            url: self.url@,
            mime_type: self.mime_type@,
        }
    }
}

/// The records of a list, as mathematical values.
pub open spec fn records_view(records: Seq<UploadedFileRecord>) -> Seq<RecordView> {
    records.map_values(|record: UploadedFileRecord| record@)
}

/// Whether a field carries a file: whether its name is `file`.
pub open spec fn is_file_field(header: FieldHeader) -> bool {
    header.name matches Some(name) && name@ == FILE_FIELD@
}

/// The file name of a field: the one it declares, or `unknown`.
pub open spec fn declared_name(header: FieldHeader) -> Seq<char> {
    match header.file_name {
        Some(name) => name@,
        None => "unknown"@,
    }
}

/// The content type of a field: the one it declares, or
/// `application/octet-stream`.
pub open spec fn declared_type(header: FieldHeader) -> Seq<char> {
    match header.content_type {
        Some(content_type) => content_type@,
        None => "application/octet-stream"@,
    }
}

/// Where a file stored under `stored_name` can be fetched.
pub open spec fn file_url(stored_name: Seq<char>) -> Seq<char> {
    "/files/"@ + stored_name
}

/// Whether `record` is the record of an upload: its stored name is a
/// generated name for its original name, and its address is that of the
/// stored name.
pub open spec fn is_upload_record(record: RecordView) -> bool {
    &&& is_generated_name(record.stored_name, record.original_name)
    &&& record.url == file_url(record.stored_name)
}

/// An upload in progress: the records of the files stored so far.
#[derive(Debug)]
pub struct UploadSession {
    records: Vec<UploadedFileRecord>,
}

/// A file field whose body is to be read.
#[derive(Debug)]
pub struct PendingField {
    session: UploadSession,
    original_name: String,
    content_type: String,
}

/// A `PendingField` as a mathematical value.
pub ghost struct PendingFieldView {
    pub session: Seq<RecordView>,
    pub original_name: Seq<char>,
    pub content_type: Seq<char>,
}

/// A file that is to be written.
#[derive(Debug)]
pub struct PendingWrite {
    session: UploadSession,
    record: UploadedFileRecord,
    path: String,
    bytes: Vec<u8>,
}

/// A `PendingWrite` as a mathematical value.
pub ghost struct PendingWriteView {
    pub session: Seq<RecordView>,
    pub record: RecordView,
    pub path: Seq<char>,
    pub bytes: Seq<u8>,
}

/// What to do after asking for a field.
#[derive(Debug)]
pub enum FieldStep {
    /// Answer the request: with the records of the stored files, or with an
    /// error.
    Finish(Result<Vec<UploadedFileRecord>, HttpError>),
    /// Pass over this field and ask for the next one.
    Skip(UploadSession),
    /// Read the body of this field and hand it to `upload_file`.
    Read(PendingField),
}

/// What to do after reading a body.
#[derive(Debug)]
pub enum BodyStep {
    /// Pass over this field and ask for the next one.
    Skip(UploadSession),
    /// Write the file and hand the outcome to `PendingWrite::finish`.
    Write(PendingWrite),
}

impl View for UploadSession {
    type V = Seq<RecordView>;

    closed spec fn view(&self) -> Seq<RecordView> {
        records_view(self.records@)
    }
}

impl View for PendingField {
    type V = PendingFieldView;

    closed spec fn view(&self) -> PendingFieldView {
        PendingFieldView {
            session: self.session@,
            original_name: self.original_name@,
            content_type: self.content_type@,
        }
    }
}

impl View for PendingWrite {
    type V = PendingWriteView;

    closed spec fn view(&self) -> PendingWriteView {
        PendingWriteView {
            session: self.session@,
            record: self.record@,
            path: self.path@,
            bytes: self.bytes@,
        }
    }
}

/// The write that stores the body of a field under a name built from
/// `identifier`: the record to report, the path to write, and the bytes.
pub open spec fn planned_write(
    config: &AppConfig,
    field: PendingFieldView,
    body: Seq<u8>,
    converted: Option<Seq<u8>>,
    identifier: Seq<char>,
) -> PendingWriteView {
    let stored = stored_name_of(identifier, stored_extension(field.original_name));
    PendingWriteView {
        session: field.session,
        record: RecordView {
            original_name: field.original_name,
            stored_name: stored,
            url: file_url(stored),
            mime_type: field.content_type,
        },
        path: joined_path(config.upload_dir@, stored),
        bytes: bytes_to_store(body, field.content_type, converted),
    }
}

impl UploadSession {
    #[verifier::type_invariant]
    spec fn well_formed(self) -> bool {
        forall|i: int| 0 <= i < self.records.len() ==> is_upload_record(#[trigger] self.records[i]@)
    }

    /// A session in which nothing was stored yet.
    pub fn new() -> (session: UploadSession)
        ensures
            session@ == Seq::<RecordView>::empty(),
    {
        let session = UploadSession { records: Vec::new() };
        assert(session@ =~= Seq::<RecordView>::empty());
        session
    }

    /// Decides what to do with the outcome of asking for the next field.
    ///
    /// A malformed body ends the upload with a bad-request error. The end
    /// of the body ends it with the records of all files stored. A field
    /// named `file` is to be read, with `unknown` for a missing file name
    /// and `application/octet-stream` for a missing content type; any other
    /// field is passed over.
    pub fn next_field(self, event: FieldEvent) -> (step: FieldStep)
        ensures
            match event {
                FieldEvent::Malformed => step matches FieldStep::Finish(Err(error)) && error
                    == HttpError::BadRequest,
                FieldEvent::End => {
                    &&& step matches FieldStep::Finish(Ok(records))
                    &&& records_view(records@) == self@
                    &&& forall|i: int|
                        0 <= i < records.len() ==> is_upload_record(#[trigger] records[i]@)
                },
                FieldEvent::Field(header) => if is_file_field(header) {
                    step matches FieldStep::Read(pending) && pending@ == (PendingFieldView {
                        session: self@,
                        original_name: declared_name(header),
                        content_type: declared_type(header),
                    })
                } else {
                    step matches FieldStep::Skip(session) && session@ == self@
                },
            },
    {
        proof {
            use_type_invariant(&self);
        }
        match event {
            FieldEvent::Malformed => FieldStep::Finish(Err(HttpError::BadRequest)),
            FieldEvent::End => FieldStep::Finish(Ok(self.records)),
            FieldEvent::Field(header) => {
                let carries_file = match &header.name {
                    Some(name) => {
                        let expected = FILE_FIELD.to_owned();
                        *name == expected
                    },
                    None => false,
                };
                if carries_file {
                    let original_name = match header.file_name {
                        Some(name) => name,
                        None => "unknown".to_owned(),
                    };
                    let content_type = match header.content_type {
                        Some(content_type) => content_type,
                        None => "application/octet-stream".to_owned(),
                    };
                    FieldStep::Read(PendingField { session: self, original_name, content_type })
                } else {
                    FieldStep::Skip(self)
                }
            },
        }
    }
}

impl PendingField {
    /// The file name of the field.
    pub fn original_name(&self) -> (name: &str)
        ensures
            name@ == self@.original_name,
    {
        self.original_name.as_str()
    }

    /// The content type of the field.
    pub fn content_type(&self) -> (content_type: &str)
        ensures
            content_type@ == self@.content_type,
    {
        self.content_type.as_str()
    }
}

/// Decides what to store for a file field whose body was read, under a name
/// built from the given identifier.
///
/// `body` is the body of the field, `None` if it could not be read: such a
/// field is passed over. `converted` is what the codec made of the body,
/// `None` if it failed or was not asked. The file goes to the upload
/// directory under the identifier, a dot and the extension of the original
/// name.
pub fn upload_file_as(
    config: &AppConfig,
    pending: PendingField,
    body: Option<Vec<u8>>,
    converted: Option<Vec<u8>>,
    identifier: &str,
) -> (step: BodyStep)
    requires
        is_v4_identifier(identifier@),
    ensures
        match body {
            Some(bytes) => step matches BodyStep::Write(write) && write@ == planned_write(
                config,
                pending@,
                bytes@,
                converted.deep_view(),
                identifier@,
            ),
            None => step matches BodyStep::Skip(session) && session@ == pending@.session,
        },
{
    match body {
        Some(bytes) => {
            let PendingField { session, original_name, content_type } = pending;
            let bytes = transcode(bytes, content_type.as_str(), converted);
            let stored = stored_name(identifier, original_name.as_str());
            let path = storage_path(config.upload_dir.as_str(), stored.as_str());
            let mut url = "/files/".to_owned();
            url.append(stored.as_str());
            assert(stored@.subrange(0, 36) == identifier@);
            let record = UploadedFileRecord {
                original_name,
                stored_name: stored,
                url,
                mime_type: content_type,
            };
            BodyStep::Write(PendingWrite { session, record, path, bytes })
        },
        None => BodyStep::Skip(pending.session),
    }
}

/// Decides what to store for a file field whose body was read.
///
/// As `upload_file_as`, with a fresh random identifier: the first 36
/// characters of the stored name.
pub fn upload_file(
    config: &AppConfig,
    pending: PendingField,
    body: Option<Vec<u8>>,
    converted: Option<Vec<u8>>,
) -> (step: BodyStep)
    ensures
        match body {
            Some(bytes) => {
                &&& step matches BodyStep::Write(write)
                &&& write@.record.stored_name.len() >= 36
                &&& is_v4_identifier(write@.record.stored_name.subrange(0, 36))
                &&& write@ == planned_write(
                    config,
                    pending@,
                    bytes@,
                    converted.deep_view(),
                    write@.record.stored_name.subrange(0, 36),
                )
            },
            None => step matches BodyStep::Skip(session) && session@ == pending@.session,
        },
{
    let identifier = fresh_identifier();
    let step = upload_file_as(config, pending, body, converted, identifier.as_str());
    assert(step matches BodyStep::Write(write) ==> write@.record.stored_name.subrange(0, 36)
        == identifier@);
    step
}

impl PendingWrite {
    #[verifier::type_invariant]
    spec fn well_formed(self) -> bool {
        is_upload_record(self.record@)
    }

    /// The path of the file to write.
    pub fn path(&self) -> (path: &str)
        ensures
            path@ == self@.path,
    {
        self.path.as_str()
    }

    /// The bytes to write.
    pub fn bytes(&self) -> (bytes: &[u8])
        ensures
            bytes@ == self@.bytes,
    {
        self.bytes.as_slice()
    }

    /// The record that will be reported for the file once it is written.
    pub fn record(&self) -> (record: &UploadedFileRecord)
        ensures
            record@ == self@.record,
            is_upload_record(record@),
    {
        proof {
            use_type_invariant(self);
        }
        &self.record
    }

    /// Takes note of the outcome of the write.
    ///
    /// After a successful write the record of the file joins the session.
    /// A failed write ends the upload with an internal error; files stored
    /// before stay where they are.
    pub fn finish(self, written: bool) -> (outcome: Result<UploadSession, HttpError>)
        ensures
            match outcome {
                Ok(session) => written && session@ == self@.session.push(self@.record),
                Err(error) => !written && error == HttpError::InternalError,
            },
    {
        proof {
            use_type_invariant(&self);
            use_type_invariant(&self.session);
        }
        if written {
            let PendingWrite { session, record, path: _, bytes: _ } = self;
            let mut records = session.records;
            let ghost before = records@;
            records.push(record);
            assert(records_view(records@) =~= records_view(before).push(record@));
            Ok(UploadSession { records })
        } else {
            Err(HttpError::InternalError)
        }
    }
}

/// A file is written into the upload directory under its stored name and
/// nowhere else, whatever name the client gave it; and the stored name is
/// its own base name, so a request to delete the name reported for an
/// upload removes the path that the upload wrote.
pub proof fn lemma_stored_file_is_found_again(
    config: &AppConfig,
    field: PendingFieldView,
    body: Seq<u8>,
    converted: Option<Seq<u8>>,
    identifier: Seq<char>,
)
    requires
        is_v4_identifier(identifier),
    ensures
        ({
            let write = planned_write(config, field, body, converted, identifier);
            let stored = write.record.stored_name;
            &&& is_upload_record(write.record)
            &&& base_name(write.path) == Some(stored)
            &&& base_name(stored) == Some(stored)
            &&& write.path == joined_path(config.upload_dir@, base_name(stored).unwrap())
        }),
{
    let write = planned_write(config, field, body, converted, identifier);
    let stored = write.record.stored_name;
    assert(stored.subrange(0, 36) == identifier);
    lemma_generated_name_is_plain(stored, field.original_name);
    lemma_joined_path_keeps_name(config.upload_dir@, stored);
}

/// A conversion that failed costs nothing: the body is stored byte for byte
/// as it was read, for an image as for any other upload. The same holds of
/// an upload that is no image, whatever the codec returned for it.
pub proof fn lemma_unconverted_upload_is_stored_unchanged(
    config: &AppConfig,
    field: PendingFieldView,
    body: Seq<u8>,
    converted: Option<Seq<u8>>,
    identifier: Seq<char>,
)
    requires
        converted is None || !is_image_type(field.content_type),
    ensures
        planned_write(config, field, body, converted, identifier).bytes == body,
{
}

} // verus!
