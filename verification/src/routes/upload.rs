//! The result reported for each uploaded file, and the summary of an
//! upload. Each file is handled on its own: one bad file does not fail the
//! others.

use vstd::prelude::*;

use crate::error::AppError;
use crate::error::IngestError;
use crate::ingest::Ingestor;
use crate::ingest::IngestorKind;
use crate::ingest::Record;
use crate::ingest::RecordModel;
use crate::ingest::ingest_spec;
use crate::ingest::outcome_view;
use crate::ingest::records_view;
use crate::ingest::resolve_ingestor;
use crate::ingest::resolve_spec;
use crate::text::concat2;
use crate::text::owned;

verus! {

/// What was stored for one file: its batch, and how many records the batch
/// holds.
#[derive(Debug, Clone, Copy, PartialEq, Eq)]
pub struct BatchSummary {
    /// The batch's UUID, as its 128-bit value.
    pub batch_id: u128,
    pub records_inserted: i64,
}

/// The outcome reported for one uploaded file.
#[derive(Debug, Clone, PartialEq, Eq)]
pub struct FileResult {
    pub filename: String,
    /// "ok" or "error"
    pub status: String,
    pub asset_type: Option<String>,
    /// The batch's UUID, as its 128-bit value.
    pub batch_id: Option<u128>,
    pub records_inserted: Option<i64>,
    pub error: Option<String>,
}

pub struct FileResultModel {
    pub filename: Seq<char>,
    pub status: Seq<char>,
    pub asset_type: Option<Seq<char>>,
    pub batch_id: Option<u128>,
    pub records_inserted: Option<i64>,
    pub error: Option<Seq<char>>,
}

pub open spec fn opt_string_view(s: Option<String>) -> Option<Seq<char>> {
    match s {
        Some(v) => Some(v@),
        None => None,
    }
}

impl View for FileResult {
    type V = FileResultModel;

    open spec fn view(&self) -> FileResultModel {
        FileResultModel {
            filename: self.filename@,
            status: self.status@,
            asset_type: opt_string_view(self.asset_type),
            batch_id: self.batch_id,
            records_inserted: self.records_inserted,
            error: opt_string_view(self.error),
        }
    }
}

/// The result of a file that failed with `error`.
pub open spec fn failed_file(
    filename: Seq<char>,
    asset_type: Option<Seq<char>>,
    error: Seq<char>,
) -> FileResultModel {
    FileResultModel {
        filename,
        status: "error"@,
        asset_type,
        batch_id: None,
        records_inserted: None,
        error: Some(error),
    }
}

/// The result of a file whose records were stored as `batch`.
pub open spec fn stored_file(
    filename: Seq<char>,
    asset_type: Seq<char>,
    batch: BatchSummary,
) -> FileResultModel {
    FileResultModel {
        filename,
        status: "ok"@,
        asset_type: Some(asset_type),
        batch_id: Some(batch.batch_id),
        records_inserted: Some(batch.records_inserted),
        error: None,
    }
}

/// A stored file is reported with the batch it was stored as: status "ok",
/// that batch's id, the number of records that batch holds, and no error.
pub proof fn lemma_stored_file_reports_its_batch(
    filename: Seq<char>,
    asset_type: Seq<char>,
    batch: BatchSummary,
)
    ensures
        stored_file(filename, asset_type, batch).filename == filename,
        stored_file(filename, asset_type, batch).status == "ok"@,
        stored_file(filename, asset_type, batch).asset_type == Some(asset_type),
        stored_file(filename, asset_type, batch).batch_id == Some(batch.batch_id),
        stored_file(filename, asset_type, batch).records_inserted == Some(batch.records_inserted),
        stored_file(filename, asset_type, batch).error is None,
{
}

/// A file's status is "ok" exactly when it has a batch, and then it has no
/// error; otherwise it has an error and no batch.
pub open spec fn well_formed_result(r: FileResultModel) -> bool {
    ||| (r.status == "ok"@ && r.batch_id is Some && r.records_inserted is Some && r.error is None)
    ||| (r.status == "error"@ && r.batch_id is None && r.records_inserted is None && r.error is Some)
}

fn failed(filename: &str, asset_type: Option<String>, error: String) -> (r: FileResult)
    ensures
        r@ == failed_file(filename@, opt_string_view(asset_type), error@),
{
    FileResult {
        filename: owned(filename),
        status: owned("error"),
        asset_type,
        batch_id: None,
        records_inserted: None,
        error: Some(error),
    }
}

/// The records of a file, ready to be stored, and the asset type they are
/// stored under: that of the first record.
#[derive(Debug)]
pub struct PreparedFile {
    pub asset_type: String,
    pub records: Vec<Record>,
}

/// The asset type a batch of records is stored under: that of its first
/// record, or empty when there is none.
pub open spec fn batch_asset_type(records: Seq<RecordModel>) -> Seq<char> {
    if records.len() > 0 {
        records[0].asset_type
    } else {
        Seq::empty()
    }
}

/// Picks the ingestor for an uploaded file and parses it. A file that
/// cannot be ingested gets its error result at once; otherwise its records
/// come back with the asset type to store them under.
pub fn prepare_file(filename: &str, data: &[u8]) -> (r: Result<PreparedFile, FileResult>)
    ensures
        match resolve_spec(filename@, data@) {
            Err(m) => r matches Err(fr) && fr@ == failed_file(filename@, None, m),
            Ok(kind) => match r {
                Ok(p) => ingest_spec(kind, filename@, data@) == Ok::<Seq<RecordModel>, Seq<char>>(
                    records_view(p.records@),
                ) && p.asset_type@ == batch_asset_type(records_view(p.records@)),
                Err(fr) => match ingest_spec(kind, filename@, data@) {
                    Err(m) => fr@ == failed_file(filename@, None, m),
                    Ok(_) => false,
                },
            },
        },
        r matches Err(fr) ==> well_formed_result(fr@),
{
    let kind = match resolve_ingestor(filename, data) {
        Ok(k) => k,
        Err(e) => {
            return Err(failed(filename, None, e.to_string()));
        },
    };
    let parsed = kind.parse(filename, data);
    match parsed {
        Err(e) => {
            let m = e.to_string();
            assert(outcome_view(parsed) == Err::<Seq<RecordModel>, Seq<char>>(m@));
            Err(failed(filename, None, m))
        },
        Ok(records) => {
            let asset_type = if records.len() > 0 {
                owned(records[0].asset_type)
            } else {
                String::new()
            };
            Ok(PreparedFile { asset_type, records })
        },
    }
}

/// The result of a prepared file once the attempt to store its records is
/// over: stored as a batch, or failed with the database's error text.
pub fn stored_result(filename: &str, asset_type: String, stored: Result<BatchSummary, String>) -> (r:
    FileResult)
    ensures
        r@ == match stored {
            Ok(batch) => stored_file(filename@, asset_type@, batch),
            Err(e) => failed_file(filename@, Some(asset_type@), "database error: "@ + e@),
        },
        well_formed_result(r@),
        r.filename@ == filename@,
        opt_string_view(r.asset_type) == Some(asset_type@),
        stored matches Ok(b) ==> (r.status@ == "ok"@ && r.batch_id == Some(b.batch_id)
            && r.records_inserted == Some(b.records_inserted) && r.error is None),
        stored matches Err(e) ==> (r.status@ == "error"@ && r.batch_id is None
            && r.records_inserted is None && opt_string_view(r.error) == Some("database error: "@ + e@)),
{
    match stored {
        Ok(batch) => FileResult {
            filename: owned(filename),
            status: owned("ok"),
            asset_type: Some(asset_type),
            batch_id: Some(batch.batch_id),
            records_inserted: Some(batch.records_inserted),
            error: None,
        },
        Err(e) => failed(filename, Some(asset_type), concat2("database error: ", e.as_str())),
    }
}

/// The result of a file whose bytes could not be read from the upload.
pub fn unreadable_file(filename: &str, reason: &str) -> (r: FileResult)
    ensures
        r@ == failed_file(filename@, None, "failed to read upload stream: "@ + reason@),
        well_formed_result(r@),
{
    failed(filename, None, concat2("failed to read upload stream: ", reason))
}

/// The answer to an upload: one result per file, in upload order.
#[derive(Debug, Clone, PartialEq, Eq)]
pub struct UploadSummary {
    pub files: Vec<FileResult>,
}

pub open spec fn results_view(v: Seq<FileResult>) -> Seq<FileResultModel> {
    v.map_values(|r: FileResult| r@)
}

/// One multipart field of an upload, as the upload sees it: a plain form
/// field, or a file with the result it was given.
pub enum UploadEvent {
    OtherField,
    File(FileResultModel),
}

/// Where an upload stands: the results of its files so far, and whether any
/// file was seen.
pub struct UploadState {
    pub results: Seq<FileResultModel>,
    pub saw_any_file: bool,
}

/// An upload before its first field.
pub open spec fn upload_start() -> UploadState {
    UploadState { results: Seq::empty(), saw_any_file: false }
}

/// One field moves an upload on: a file adds its result after the others,
/// a plain field changes nothing.
pub open spec fn upload_step(s: UploadState, e: UploadEvent) -> UploadState {
    match e {
        UploadEvent::OtherField => s,
        UploadEvent::File(r) => UploadState { results: s.results.push(r), saw_any_file: true },
    }
}

/// Where an upload stands after these fields, in order.
pub open spec fn upload_run(events: Seq<UploadEvent>) -> UploadState
    decreases events.len(),
{
    if events.len() == 0 {
        upload_start()
    } else {
        upload_step(upload_run(events.drop_last()), events.last())
    }
}

/// The answer an upload in this state finishes with.
pub open spec fn upload_answer(s: UploadState) -> Result<Seq<FileResultModel>, AppError> {
    if s.saw_any_file {
        Ok(s.results)
    } else {
        Err(AppError::NoFileProvided)
    }
}

proof fn lemma_upload_run_concat(a: Seq<UploadEvent>, b: Seq<UploadEvent>)
    ensures
        upload_run(a + b).results == upload_run(a).results + upload_run(b).results,
        upload_run(a + b).saw_any_file == (upload_run(a).saw_any_file || upload_run(b).saw_any_file),
    decreases b.len(),
{
    if b.len() == 0 {
        assert(a + b =~= a);
        assert(upload_run(a).results + upload_run(b).results =~= upload_run(a).results);
    } else {
        lemma_upload_run_concat(a, b.drop_last());
        assert((a + b).drop_last() =~= a + b.drop_last());
        assert((a + b).last() == b.last());
        match b.last() {
            UploadEvent::OtherField => {},
            UploadEvent::File(r) => {
                assert(upload_run(a).results + upload_run(b.drop_last()).results.push(r)
                    =~= (upload_run(a).results + upload_run(b.drop_last()).results).push(r));
            },
        }
    }
}

/// Each file of an upload gets its own result, in upload order: the result
/// of a file stands right after those of the files before it, whatever the
/// fields before and after it were, and the results of the other files are
/// those they would have had without it.
pub proof fn lemma_upload_results_in_order(
    before: Seq<UploadEvent>,
    r: FileResultModel,
    after: Seq<UploadEvent>,
)
    ensures
        ({
            let all = upload_run(before.push(UploadEvent::File(r)) + after);
            let k = upload_run(before).results.len();
            &&& all.results.len() == k + 1 + upload_run(after).results.len()
            &&& all.results[k as int] == r
            &&& all.results.subrange(0, k as int) == upload_run(before).results
            &&& all.results.subrange(k + 1int, all.results.len() as int) == upload_run(after).results
            &&& upload_answer(all) == Ok::<Seq<FileResultModel>, AppError>(all.results)
        }),
{
    let b1 = before.push(UploadEvent::File(r));
    lemma_upload_run_concat(b1, after);
    assert(b1.drop_last() =~= before);
    let all = upload_run(b1 + after);
    let k = upload_run(before).results.len();
    assert(all.results.subrange(0, k as int) =~= upload_run(before).results);
    assert(all.results.subrange(k + 1int, all.results.len() as int) =~= upload_run(after).results);
}

/// An upload is answered with `NoFileProvided` exactly when none of its
/// fields is a file.
pub proof fn lemma_upload_without_files(events: Seq<UploadEvent>)
    ensures
        upload_answer(upload_run(events)) == Err::<Seq<FileResultModel>, AppError>(
            AppError::NoFileProvided,
        ) <==> forall|i: int| 0 <= i < events.len() ==> #[trigger] events[i] is OtherField,
    decreases events.len(),
{
    if events.len() > 0 {
        lemma_upload_without_files(events.drop_last());
        let n = events.len() - 1;
        if forall|i: int| 0 <= i < events.len() ==> #[trigger] events[i] is OtherField {
            assert forall|i: int| 0 <= i < events.drop_last().len() implies #[trigger] events.drop_last()[i] is OtherField by {
                assert(events[i] is OtherField);
            }
        } else {
            if events.last() is OtherField {
                let j = choose|j: int| 0 <= j < events.len() && !(events[j] is OtherField);
                assert(j < n);
                assert(!(events.drop_last()[j] is OtherField));
            }
        }
    }
}

/// The progress of an upload through its multipart fields.
pub struct UploadProgress {
    pub files: Vec<FileResult>,
    pub saw_any_file: bool,
}

impl View for UploadProgress {
    type V = UploadState;

    open spec fn view(&self) -> UploadState {
        UploadState { results: results_view(self.files@), saw_any_file: self.saw_any_file }
    }
}

impl UploadProgress {
    /// An upload before its first field.
    pub fn new() -> (p: UploadProgress)
        ensures
            p@ == upload_start(),
            p.files@.len() == 0,
    {
        let p = UploadProgress { files: Vec::new(), saw_any_file: false };
        assert(p@.results =~= Seq::<FileResultModel>::empty());
        p
    }

    /// A field that is no file (a plain form field) is skipped.
    pub fn skip_field(&mut self)
        ensures
            final(self)@ == upload_step(old(self)@, UploadEvent::OtherField),
            final(self).files@ == old(self).files@,
    {
    }

    /// A file field has been handled, with this result: it is added after
    /// the results before it, which stay as they were.
    pub fn add_file(&mut self, result: FileResult)
        ensures
            final(self)@ == upload_step(old(self)@, UploadEvent::File(result@)),
            final(self).files@ == old(self).files@.push(result),
    {
        let ghost before = self.files@;
        self.files.push(result);
        self.saw_any_file = true;
        assert(results_view(self.files@) =~= results_view(before).push(result@));
    }

    /// The answer once every field is read: the results of all files, or
    /// `NoFileProvided` when the upload held no file at all.
    pub fn finish(self) -> (r: Result<UploadSummary, AppError>)
        ensures
            match upload_answer(self@) {
                Ok(results) => r matches Ok(s) && results_view(s.files@) == results
                    && s.files@ == self.files@,
                Err(e) => r == Err::<UploadSummary, AppError>(e),
            },
    {
        if !self.saw_any_file {
            return Err(AppError::NoFileProvided);
        }
        Ok(UploadSummary { files: self.files })
    }
}

} // verus!
