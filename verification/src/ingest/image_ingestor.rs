//! Images: one record with the file's name, size and EXIF fields. An image
//! without readable EXIF data still gives its record.

use vstd::prelude::*;

use super::Ingestor;
use super::Payload;
use super::PayloadModel;
use super::Record;
use super::RecordModel;
use super::opt_pairs_view;
use super::outcome_view;
use super::last_wins;
use super::dedup_last_wins;
use crate::error::IngestError;
use crate::text::owned;

verus! {

/// The image metadata ingestor.
pub struct ImageMetaIngestor;

/// What is recorded of an image: its file name exactly as given, its size
/// in bytes, and its EXIF fields (tag name and displayed value, no tag
/// twice), or `None` when no EXIF data could be read.
#[derive(Debug, Clone, PartialEq, Eq)]
pub struct ImageMetadata {
    pub filename: String,
    pub size_bytes: usize,
    pub exif: Option<Vec<(String, String)>>,
}

/// The EXIF fields that the `exif` crate reads from an image container,
/// each as its tag's name and its value displayed with its unit; `None`
/// when the reader refuses the bytes.
pub uninterp spec fn exif_fields(bytes: Seq<u8>) -> Option<Seq<(Seq<char>, Seq<char>)>>;

/// `exif::Reader::new().read_from_container` over the bytes, then for each
/// field `Tag`'s `Display` text and `display_value().with_unit(..)`'s
/// `Display` text. The result is the name `exif_fields` of the bytes.
#[verifier::external_body]
fn read_exif_fields(bytes: &[u8]) -> (r: Option<Vec<(String, String)>>)
    ensures
        opt_pairs_view(r) == exif_fields(bytes@),
{
    let mut cursor = std::io::Cursor::new(bytes);
    match exif::Reader::new().read_from_container(&mut cursor) {
        Ok(data) => Some(
            data.fields().map(|f| (f.tag.to_string(), f.display_value().with_unit(&data).to_string()))
                .collect(),
        ),
        Err(_) => None,
    }
}

/// The record of an image with these EXIF fields. As in a JSON object
/// filled field by field, a tag that occurs again replaces the earlier
/// value, so no tag repeats.
pub open spec fn image_record_model(
    filename: Seq<char>,
    size_bytes: usize,
    exif: Option<Seq<(Seq<char>, Seq<char>)>>,
) -> RecordModel {
    RecordModel {
        asset_type: "image_metadata"@,
        payload: PayloadModel::ImageMetadata {
            filename,
            size_bytes,
            exif: match exif {
                Some(fields) => Some(last_wins(fields)),
                None => None,
            },
        },
        row_index: None,
    }
}

/// The record of an uploaded image file.
pub open spec fn image_record_spec(filename: Seq<char>, bytes: Seq<u8>) -> RecordModel {
    image_record_model(filename, bytes.len() as usize, exif_fields(bytes))
}

/// Whatever the container format and leading bytes of an image, its
/// record holds the file name as given, the byte count, and the EXIF fields
/// the reader finds in the bytes (a later value of a tag replacing an
/// earlier one); EXIF is absent only when the reader finds none.
pub proof fn lemma_image_record_holds_reader_exif(filename: Seq<char>, bytes: Seq<u8>)
    requires
        bytes.len() <= usize::MAX,
    ensures
        image_record_spec(filename, bytes).asset_type == "image_metadata"@,
        image_record_spec(filename, bytes).row_index is None,
        image_record_spec(filename, bytes).payload == (PayloadModel::ImageMetadata {
            filename,
            size_bytes: bytes.len() as usize,
            exif: match exif_fields(bytes) {
                Some(fields) => Some(last_wins(fields)),
                None => None,
            },
        }),
        (image_record_spec(filename, bytes).payload->exif is Some) == (exif_fields(bytes) is Some),
{
}

impl ImageMetaIngestor {
    /// The record of an image whose EXIF fields were read as `exif`.
    pub fn image_record(filename: &str, size_bytes: usize, exif: Option<Vec<(String, String)>>) -> (r:
        Record)
        ensures
            r@ == image_record_model(filename@, size_bytes, opt_pairs_view(exif)),
    {
        let exif = match exif {
            Some(fields) => Some(dedup_last_wins(&fields)),
            None => None,
        };
        Record {
            asset_type: "image_metadata",
            payload: Payload::ImageMetadata(
                ImageMetadata { filename: owned(filename), size_bytes, exif },
            ),
            row_index: None,
        }
    }
}

impl Ingestor for ImageMetaIngestor {
    fn parse(&self, filename: &str, bytes: &[u8]) -> (r: Result<Vec<Record>, IngestError>)
        ensures
            outcome_view(r) == Ok::<Seq<RecordModel>, Seq<char>>(
                seq![image_record_spec(filename@, bytes@)],
            ),
    {
        let exif = read_exif_fields(bytes);
        let rec = ImageMetaIngestor::image_record(filename, bytes.len(), exif);
        let mut records: Vec<Record> = Vec::new();
        records.push(rec);
        assert(super::records_view(records@) =~= seq![image_record_spec(filename@, bytes@)]);
        Ok(records)
    }
}

} // verus!
