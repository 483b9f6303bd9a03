//! JSON files: a top-level array gives one record per element, any other
//! document one record.

use vstd::prelude::*;

use super::Ingestor;
use super::Payload;
use super::PayloadModel;
use super::Record;
use super::RecordModel;
use super::outcome_view;
use crate::error::IngestError;
use crate::text::concat3;
use crate::text::concat4;

verus! {

/// A parsed JSON value, carried through unchanged into the payload.
#[verifier::external_type_specification]
#[verifier::external_body]
pub struct ExJsonValue(serde_json::Value);

/// The JSON ingestor.
pub struct JsonIngestor;

/// A parsed JSON document: the elements of a top-level array, or the one
/// value that the document is.
#[derive(Debug)]
pub enum JsonDocument {
    Array(Vec<serde_json::Value>),
    Single(serde_json::Value),
}

/// The mathematical value of a parsed document.
pub enum JsonDocumentModel {
    Array(Seq<serde_json::Value>),
    Single(serde_json::Value),
}

/// What `serde_json::from_slice::<serde_json::Value>` makes of these bytes:
/// the error's text when it refuses them, else the elements of a top-level
/// array, else the one value the document is.
pub uninterp spec fn json_document(bytes: Seq<u8>) -> Result<JsonDocumentModel, Seq<char>>;

/// The value of a parse result, in the terms of `json_document`.
pub open spec fn document_view(r: Result<JsonDocument, String>) -> Result<
    JsonDocumentModel,
    Seq<char>,
> {
    match r {
        Ok(JsonDocument::Array(items)) => Ok(JsonDocumentModel::Array(items@)),
        Ok(JsonDocument::Single(v)) => Ok(JsonDocumentModel::Single(v)),
        Err(e) => Err(e@),
    }
}

/// `serde_json::from_slice::<serde_json::Value>(bytes)`, with a top-level
/// array taken apart into its elements and an error kept by its `Display`
/// text. The result is the name `json_document` of the bytes.
#[verifier::external_body]
pub(crate) fn read_json_document(bytes: &[u8]) -> (r: Result<JsonDocument, String>)
    ensures
        document_view(r) == json_document(bytes@),
{
    match serde_json::from_slice::<serde_json::Value>(bytes) {
        Ok(serde_json::Value::Array(items)) => Ok(JsonDocument::Array(items)),
        Ok(other) => Ok(JsonDocument::Single(other)),
        Err(e) => Err(e.to_string()),
    }
}

/// The record for element `i` of a top-level array.
pub open spec fn json_element_record(value: serde_json::Value, i: int) -> RecordModel {
    RecordModel { asset_type: "json"@, payload: PayloadModel::Json(value), row_index: Some(i as i32) }
}

/// What the JSON ingestor answers for a parsed document: refused JSON and
/// an empty array are errors; an array gives one record per element, in
/// order and numbered from 0; any other document gives one record holding
/// it, without a row index.
pub open spec fn json_records_spec(
    filename: Seq<char>,
    doc: Result<JsonDocumentModel, Seq<char>>,
) -> Result<Seq<RecordModel>, Seq<char>> {
    match doc {
        Err(e) => Err("'"@ + filename + "': invalid JSON: "@ + e),
        Ok(JsonDocumentModel::Array(items)) => if items.len() == 0 {
            Err("'"@ + filename + "' contained an empty array"@)
        } else {
            Ok(Seq::new(items.len(), |i: int| json_element_record(items[i], i)))
        },
        Ok(JsonDocumentModel::Single(v)) => Ok(
            seq![RecordModel { asset_type: "json"@, payload: PayloadModel::Json(v), row_index: None }],
        ),
    }
}

/// A top-level array with at least one element is accepted, whatever its
/// length: each element becomes one record of type "json", in order, holding
/// that element and numbered by its position. Only the empty array is
/// refused.
pub proof fn lemma_json_arrays_accepted(filename: Seq<char>, items: Seq<serde_json::Value>)
    ensures
        (json_records_spec(filename, Ok(JsonDocumentModel::Array(items))) is Ok) == (items.len()
            > 0),
        items.len() > 0 ==> (json_records_spec(filename, Ok(JsonDocumentModel::Array(items)))
            matches Ok(rs) && rs.len() == items.len() && forall|i: int|
            0 <= i < rs.len() ==> (#[trigger] rs[i]).asset_type == "json"@ && rs[i].payload
                == PayloadModel::Json(items[i]) && rs[i].row_index == Some(i as i32)),
{
}

/// The JSON ingestor refuses exactly two things: bytes the parser refuses,
/// answered with the parser's error text, and an empty top-level array.
pub proof fn lemma_json_refusals(filename: Seq<char>, e: Seq<char>)
    ensures
        json_records_spec(filename, Err(e)) == Err::<Seq<RecordModel>, Seq<char>>(
            "'"@ + filename + "': invalid JSON: "@ + e,
        ),
        json_records_spec(filename, Ok(JsonDocumentModel::Array(Seq::empty()))) == Err::<
            Seq<RecordModel>,
            Seq<char>,
        >("'"@ + filename + "' contained an empty array"@),
{
}

/// Any document other than an array is accepted as one record of type
/// "json" holding it, without a row index.
pub proof fn lemma_json_single_document_accepted(filename: Seq<char>, v: serde_json::Value)
    ensures
        json_records_spec(filename, Ok(JsonDocumentModel::Single(v))) == Ok::<
            Seq<RecordModel>,
            Seq<char>,
        >(seq![RecordModel { asset_type: "json"@, payload: PayloadModel::Json(v), row_index: None }]),
{
}

/// What the JSON ingestor answers for a file.
pub open spec fn json_parse_spec(filename: Seq<char>, bytes: Seq<u8>) -> Result<
    Seq<RecordModel>,
    Seq<char>,
> {
    json_records_spec(filename, json_document(bytes))
}

impl JsonIngestor {
    /// Turns a parsed document into records.
    pub fn records_from_document(filename: &str, doc: Result<JsonDocument, String>) -> (r: Result<
        Vec<Record>,
        IngestError,
    >)
        ensures
            outcome_view(r) == json_records_spec(filename@, document_view(doc)),
    {
        match doc {
            Err(e) => Err(
                IngestError::Malformed(concat4("'", filename, "': invalid JSON: ", e.as_str())),
            ),
            Ok(JsonDocument::Single(v)) => {
                let mut records: Vec<Record> = Vec::new();
                records.push(Record { asset_type: "json", payload: Payload::Json(v), row_index: None });
                assert(super::records_view(records@) =~= seq![
                    RecordModel { asset_type: "json"@, payload: PayloadModel::Json(v), row_index: None },
                ]);
                Ok(records)
            },
            Ok(JsonDocument::Array(items)) => {
                let ghost all = items@;
                if items.len() == 0 {
                    return Err(
                        IngestError::Malformed(
                            concat3("'", filename, "' contained an empty array"),
                        ),
                    );
                }
                let n = items.len();
                let mut records: Vec<Record> = Vec::new();
                let mut idx: usize = 0;
                for item in it: items
                    invariant
                        it.seq() == all,
                        n == all.len(),
                        idx == it.index(),
                        idx <= n,
                        records@.len() == idx,
                        forall|k: int|
                            0 <= k < idx ==> (#[trigger] records@[k])@ == json_element_record(
                                all[k],
                                k,
                            ),
                {
                    records.push(
                        Record { asset_type: "json", payload: Payload::Json(item), row_index: Some(idx as i32) },
                    );
                    idx = idx + 1;
                }
                assert(super::records_view(records@) =~= Seq::new(
                    all.len(),
                    |i: int| json_element_record(all[i], i),
                ));
                Ok(records)
            },
        }
    }
}

} // verus!

verus! {

impl Ingestor for JsonIngestor {
    fn parse(&self, filename: &str, bytes: &[u8]) -> (r: Result<Vec<Record>, IngestError>)
        ensures
            outcome_view(r) == json_parse_spec(filename@, bytes@),
    {
        let doc = read_json_document(bytes);
        JsonIngestor::records_from_document(filename, doc)
    }
}

} // verus!
