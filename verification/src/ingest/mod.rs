//! Records, the `Ingestor` trait, and the choice of ingestor for an upload:
//! the file extension first, then the content.

use vstd::prelude::*;
use vstd::utf8::valid_utf8;

use crate::error::IngestError;
use crate::text::chars_of;
use crate::text::concat3;
use crate::text::concat5;
use crate::text::starts_with;
use crate::text::str_eq;
use crate::text::str_starts_with;

pub mod csv_ingestor;
pub mod image_ingestor;
pub mod json_ingestor;

pub use csv_ingestor::CellValue;
pub use csv_ingestor::CsvIngestor;
pub use image_ingestor::ImageMetaIngestor;
pub use image_ingestor::ImageMetadata;
pub use json_ingestor::JsonIngestor;

use csv_ingestor::CellModel;
use json_ingestor::json_document;
use json_ingestor::read_json_document;

verus! {

/// What a record carries, stored as one JSONB value.
#[derive(Debug)]
pub enum Payload {
    /// A CSV data row: each header with its typed cell, in header order.
    CsvRow(Vec<(String, CellValue)>),
    /// A JSON document, or one element of a top-level JSON array.
    Json(serde_json::Value),
    /// What was learnt about an image.
    ImageMetadata(ImageMetadata),
}

/// The mathematical value of a `Payload`.
pub enum PayloadModel {
    CsvRow(Seq<(Seq<char>, CellModel)>),
    Json(serde_json::Value),
    ImageMetadata {
        filename: Seq<char>,
        size_bytes: usize,
        exif: Option<Seq<(Seq<char>, Seq<char>)>>,
    },
}

pub open spec fn fields_view(v: Seq<(String, CellValue)>) -> Seq<(Seq<char>, CellModel)> {
    v.map_values(|p: (String, CellValue)| (p.0@, p.1@))
}

pub open spec fn pairs_view(v: Seq<(String, String)>) -> Seq<(Seq<char>, Seq<char>)> {
    v.map_values(|p: (String, String)| (p.0@, p.1@))
}

pub open spec fn opt_pairs_view(v: Option<Vec<(String, String)>>) -> Option<
    Seq<(Seq<char>, Seq<char>)>,
> {
    match v {
        Some(p) => Some(pairs_view(p@)),
        None => None,
    }
}

impl View for Payload {
    type V = PayloadModel;

    open spec fn view(&self) -> PayloadModel {
        match self {
            Payload::CsvRow(fields) => PayloadModel::CsvRow(fields_view(fields@)),
            Payload::Json(v) => PayloadModel::Json(*v),
            Payload::ImageMetadata(m) => PayloadModel::ImageMetadata {
                filename: m.filename@,
                size_bytes: m.size_bytes,
                exif: opt_pairs_view(m.exif),
            },
        }
    }
}

/// Position `j` holds the last occurrence of its key among the first `n`.
pub open spec fn is_last_key(keys: Seq<Seq<char>>, n: int, j: int) -> bool {
    forall|k: int| j < k < n ==> keys[k] != keys[j]
}

/// The positions below `m` that hold the last occurrence of their key among
/// the first `n`, in increasing order. Keeping only these gives the fields
/// of a JSON object filled in order, where a later value of a key replaces
/// an earlier one.
pub open spec fn last_key_positions(keys: Seq<Seq<char>>, n: int, m: int) -> Seq<int>
    decreases m,
{
    if m <= 0 {
        Seq::empty()
    } else {
        let rest = last_key_positions(keys, n, m - 1);
        if is_last_key(keys, n, m - 1) {
            rest.push(m - 1)
        } else {
            rest
        }
    }
}

/// The positions are increasing, below `m`, each the last of its key, and
/// every such position below `m` is among them.
pub proof fn lemma_last_key_positions(keys: Seq<Seq<char>>, n: int, m: int)
    requires
        0 <= m,
    ensures
        forall|i: int|
            0 <= i < last_key_positions(keys, n, m).len() ==> 0 <= #[trigger] last_key_positions(
                keys,
                n,
                m,
            )[i] < m && is_last_key(keys, n, last_key_positions(keys, n, m)[i]),
        forall|i: int, j: int|
            0 <= i < j < last_key_positions(keys, n, m).len() ==> #[trigger] last_key_positions(
                keys,
                n,
                m,
            )[i] < #[trigger] last_key_positions(keys, n, m)[j],
        forall|q: int|
            0 <= q < m && #[trigger] is_last_key(keys, n, q) ==> last_key_positions(
                keys,
                n,
                m,
            ).contains(q),
    decreases m,
{
    if m > 0 {
        lemma_last_key_positions(keys, n, m - 1);
        let rest = last_key_positions(keys, n, m - 1);
        if is_last_key(keys, n, m - 1) {
            assert(rest.push(m - 1)[rest.len() as int] == m - 1);
            assert forall|q: int|
                0 <= q < m && #[trigger] is_last_key(keys, n, q) implies rest.push(m - 1).contains(
                q,
            ) by {
                if q < m - 1 {
                    let i = choose|i: int| 0 <= i < rest.len() && rest[i] == q;
                    assert(rest.push(m - 1)[i] == q);
                }
            }
        }
    }
}

/// Every key among the first `n` has a last occurrence.
pub proof fn lemma_last_occurrence(keys: Seq<Seq<char>>, n: int, j: int)
    requires
        0 <= j < n,
    ensures
        exists|l: int| j <= l < n && keys[l] == keys[j] && #[trigger] is_last_key(keys, n, l),
    decreases n - j,
{
    if !is_last_key(keys, n, j) {
        let k = choose|k: int| j < k < n && keys[k] == keys[j];
        lemma_last_occurrence(keys, n, k);
    } else {
        assert(is_last_key(keys, n, j));
    }
}

/// Whether position `j` holds the last occurrence of its key among the
/// first `n` keys.
pub fn key_is_last(keys: &Vec<String>, n: usize, j: usize) -> (r: bool)
    requires
        j < n <= keys@.len(),
    ensures
        r == is_last_key(csv_ingestor::strings_view(keys@), n as int, j as int),
{
    let ghost kv = csv_ingestor::strings_view(keys@);
    let mut k = j + 1;
    while k < n
        invariant
            j < k <= n <= keys@.len(),
            kv == csv_ingestor::strings_view(keys@),
            forall|q: int| j < q < k ==> kv[q] != kv[j as int],
        decreases n - k,
    {
        if crate::text::str_eq(keys[k].as_str(), keys[j].as_str()) {
            assert(kv[k as int] == keys@[k as int]@ && kv[j as int] == keys@[j as int]@);
            return false;
        }
        k = k + 1;
    }
    true
}

/// The keys of a sequence of pairs.
pub open spec fn pair_keys(pairs: Seq<(Seq<char>, Seq<char>)>) -> Seq<Seq<char>> {
    pairs.map_values(|p: (Seq<char>, Seq<char>)| p.0)
}

/// The pairs whose key is not repeated later: a later value of a key
/// replaces an earlier one, and no key occurs twice.
pub open spec fn last_wins(pairs: Seq<(Seq<char>, Seq<char>)>) -> Seq<(Seq<char>, Seq<char>)> {
    let keys = pair_keys(pairs);
    last_key_positions(keys, pairs.len() as int, pairs.len() as int).map_values(|j: int| pairs[j])
}

/// After `last_wins`, no key occurs twice, every key of the input is kept,
/// and each kept pair is the last pair of the input with its key.
pub proof fn lemma_last_wins(pairs: Seq<(Seq<char>, Seq<char>)>)
    ensures
        forall|a: int, b: int|
            0 <= a < b < last_wins(pairs).len() ==> (#[trigger] last_wins(pairs)[a]).0 != (
            #[trigger] last_wins(pairs)[b]).0,
        forall|j: int|
            0 <= j < pairs.len() ==> last_wins(pairs).map_values(
                |x: (Seq<char>, Seq<char>)| x.0,
            ).contains(#[trigger] pairs[j].0),
        forall|f: int|
            #![trigger last_wins(pairs)[f]]
            0 <= f < last_wins(pairs).len() ==> exists|j: int|
                0 <= j < pairs.len() && #[trigger] is_last_key(
                    pair_keys(pairs),
                    pairs.len() as int,
                    j,
                ) && last_wins(pairs)[f] == pairs[j],
{
    let keys = pair_keys(pairs);
    let n = pairs.len() as int;
    lemma_last_key_positions(keys, n, n);
    let p = last_key_positions(keys, n, n);
    let w = last_wins(pairs);
    assert forall|a: int, b: int| 0 <= a < b < w.len() implies (#[trigger] w[a]).0 != (
    #[trigger] w[b]).0 by {
        assert(p[a] < p[b]);
        assert(keys[p[a]] == w[a].0 && keys[p[b]] == w[b].0);
    }
    assert forall|j: int| 0 <= j < pairs.len() implies w.map_values(
        |x: (Seq<char>, Seq<char>)| x.0,
    ).contains(#[trigger] pairs[j].0) by {
        lemma_last_occurrence(keys, n, j);
        let l = choose|l: int| j <= l < n && keys[l] == keys[j] && #[trigger] is_last_key(keys, n, l);
        assert(p.contains(l));
        let f = choose|f: int| 0 <= f < p.len() && p[f] == l;
        assert(w.map_values(|x: (Seq<char>, Seq<char>)| x.0)[f] == pairs[j].0);
    }
    assert forall|f: int| #![trigger w[f]] 0 <= f < w.len() implies exists|j: int|
        0 <= j < pairs.len() && #[trigger] is_last_key(keys, n, j) && w[f] == pairs[j] by {
        assert(is_last_key(keys, n, p[f]));
    }
}

/// Keeps, for each key, only its last pair, in the order of those last pairs.
pub fn dedup_last_wins(pairs: &Vec<(String, String)>) -> (r: Vec<(String, String)>)
    ensures
        pairs_view(r@) == last_wins(pairs_view(pairs@)),
{
    let n = pairs.len();
    let mut keys: Vec<String> = Vec::new();
    for i in 0..n
        invariant
            n == pairs@.len(),
            keys@.len() == i,
            forall|k: int| 0 <= k < i ==> (#[trigger] keys@[k])@ == pairs@[k].0@,
    {
        keys.push(pairs[i].0.clone());
    }
    let ghost pv = pairs_view(pairs@);
    let ghost kv = pair_keys(pv);
    assert(csv_ingestor::strings_view(keys@) =~= kv);
    let mut out: Vec<(String, String)> = Vec::new();
    for j in 0..n
        invariant
            n == pairs@.len(),
            pv == pairs_view(pairs@),
            kv == pair_keys(pv),
            keys@.len() == n,
            csv_ingestor::strings_view(keys@) == kv,
            pairs_view(out@) == last_key_positions(kv, n as int, j as int).map_values(
                |q: int| pv[q],
            ),
    {
        let last = key_is_last(&keys, n, j);
        let ghost before = out@;
        if last {
            out.push((pairs[j].0.clone(), pairs[j].1.clone()));
            assert(pairs_view(out@) =~= pairs_view(before).push(pv[j as int]));
        }
        assert(last_key_positions(kv, n as int, j + 1).map_values(|q: int| pv[q])
            =~= if last {
            last_key_positions(kv, n as int, j as int).map_values(|q: int| pv[q]).push(pv[j as int])
        } else {
            last_key_positions(kv, n as int, j as int).map_values(|q: int| pv[q])
        });
    }
    out
}

/// A single unit of parsed data, ready to be inserted as one row.
/// `asset_type` becomes the discriminator column; `payload` is stored as JSONB.
#[derive(Debug)]
pub struct Record {
    pub asset_type: &'static str,
    pub payload: Payload,
    pub row_index: Option<i32>,
}

/// The mathematical value of a `Record`.
pub struct RecordModel {
    pub asset_type: Seq<char>,
    pub payload: PayloadModel,
    pub row_index: Option<i32>,
}

impl View for Record {
    type V = RecordModel;

    open spec fn view(&self) -> RecordModel {
        RecordModel { asset_type: self.asset_type@, payload: self.payload@, row_index: self.row_index }
    }
}

pub open spec fn records_view(v: Seq<Record>) -> Seq<RecordModel> {
    v.map_values(|r: Record| r@)
}

/// What an ingestor's answer denotes: the records, or the error's text.
pub open spec fn outcome_view(r: Result<Vec<Record>, IngestError>) -> Result<
    Seq<RecordModel>,
    Seq<char>,
> {
    match r {
        Ok(v) => Ok(records_view(v@)),
        Err(e) => Err(e.message()),
    }
}

/// Implemented by every per-format parser: it turns the raw bytes of an
/// uploaded file into records ready for insertion.
pub trait Ingestor: Send + Sync {
    fn parse(&self, filename: &str, bytes: &[u8]) -> Result<Vec<Record>, IngestError>;
}

/// The ingestors, one per asset type.
#[derive(Debug, Clone, Copy, PartialEq, Eq, Structural)]
pub enum IngestorKind {
    Csv,
    Json,
    ImageMeta,
}

/// What the ingestor of `kind` answers for a file.
pub open spec fn ingest_spec(kind: IngestorKind, filename: Seq<char>, bytes: Seq<u8>) -> Result<
    Seq<RecordModel>,
    Seq<char>,
> {
    match kind {
        IngestorKind::Csv => csv_ingestor::csv_parse_spec(filename, bytes),
        IngestorKind::Json => json_ingestor::json_parse_spec(filename, bytes),
        IngestorKind::ImageMeta => Ok(seq![image_ingestor::image_record_spec(filename, bytes)]),
    }
}

impl Ingestor for IngestorKind {
    fn parse(&self, filename: &str, bytes: &[u8]) -> (r: Result<Vec<Record>, IngestError>)
        ensures
            outcome_view(r) == ingest_spec(*self, filename@, bytes@),
    {
        match self {
            IngestorKind::Csv => CsvIngestor.parse(filename, bytes),
            IngestorKind::Json => JsonIngestor.parse(filename, bytes),
            IngestorKind::ImageMeta => ImageMetaIngestor.parse(filename, bytes),
        }
    }
}

/// The extension of a file name: the part after its last `.`. A name
/// without any `.` has no extension.
pub open spec fn extension(name: Seq<char>) -> Option<Seq<char>> {
    if exists|k: int| 0 <= k < name.len() && name[k] == '.' {
        let k = choose|k: int|
            0 <= k < name.len() && name[k] == '.' && forall|j: int| k < j < name.len() ==> name[j]
                != '.';
        Some(name.skip(k + 1))
    } else {
        None
    }
}

/// The ingestor that a file name's extension names, compared without
/// regard to case; `None` when the name has no extension or an unknown one.
pub open spec fn extension_kind(name: Seq<char>) -> Option<IngestorKind> {
    match extension(name) {
        Some(ext) => kind_for_extension(lowercase(ext)),
        None => None,
    }
}

/// The ingestor that a (lowercased) file extension names.
pub open spec fn kind_for_extension(ext: Seq<char>) -> Option<IngestorKind> {
    if ext == "csv"@ {
        Some(IngestorKind::Csv)
    } else if ext == "json"@ {
        Some(IngestorKind::Json)
    } else if ext == "jpg"@ || ext == "jpeg"@ || ext == "png"@ || ext == "tiff"@ || ext == "tif"@ {
        Some(IngestorKind::ImageMeta)
    } else {
        None
    }
}

/// The choice made from the content when the extension names no ingestor:
/// a recognised binary signature decides (images are accepted, any other
/// known binary format is refused), then valid JSON, then any UTF-8 text as
/// CSV; anything else is refused.
pub open spec fn kind_for_content_spec(
    filename: Seq<char>,
    mime: Option<Seq<char>>,
    json_ok: bool,
    utf8_ok: bool,
) -> Result<IngestorKind, Seq<char>> {
    match mime {
        Some(m) => if starts_with(m, "image/"@) {
            Ok(IngestorKind::ImageMeta)
        } else {
            Err("file '"@ + filename + "' was detected as '"@ + m + "', which has no ingestor"@)
        },
        None => if json_ok {
            Ok(IngestorKind::Json)
        } else if utf8_ok {
            Ok(IngestorKind::Csv)
        } else {
            Err("could not determine asset type for file '"@ + filename + "'"@)
        },
    }
}

pub open spec fn kind_outcome(r: Result<IngestorKind, IngestError>) -> Result<
    IngestorKind,
    Seq<char>,
> {
    match r {
        Ok(k) => Ok(k),
        Err(e) => Err(e.message()),
    }
}

/// The ingestor `resolve_ingestor` picks for a file.
pub open spec fn resolve_spec(filename: Seq<char>, bytes: Seq<u8>) -> Result<
    IngestorKind,
    Seq<char>,
> {
    match extension_kind(filename) {
        Some(k) => Ok(k),
        None => kind_for_content_spec(
            filename,
            inferred_mime(bytes),
            json_document(bytes) is Ok,
            valid_utf8(bytes),
        ),
    }
}

/// The extension decides before the content: two files whose extensions
/// are equal once lowercased, and name an ingestor, get that same ingestor
/// whatever their names and bytes hold otherwise.
pub proof fn lemma_extension_decides(f1: Seq<char>, f2: Seq<char>, b1: Seq<u8>, b2: Seq<u8>)
    requires
        extension(f1) is Some,
        extension(f2) is Some,
        lowercase(extension(f1)->0) == lowercase(extension(f2)->0),
        kind_for_extension(lowercase(extension(f1)->0)) is Some,
    ensures
        resolve_spec(f1, b1) == resolve_spec(f2, b2),
        resolve_spec(f1, b1) == Ok::<IngestorKind, Seq<char>>(
            kind_for_extension(lowercase(extension(f1)->0))->0,
        ),
{
}

/// A file name without any `.` has no extension: however it is spelled
/// (even "csv" or "json"), the choice is made from the content.
pub proof fn lemma_dotless_name_is_sniffed(filename: Seq<char>, bytes: Seq<u8>)
    requires
        forall|k: int| 0 <= k < filename.len() ==> filename[k] != '.',
    ensures
        resolve_spec(filename, bytes) == kind_for_content_spec(
            filename,
            inferred_mime(bytes),
            json_document(bytes) is Ok,
            valid_utf8(bytes),
        ),
{
}

/// A file without a known extension whose bytes carry the signature of a
/// binary format other than an image is refused, never read as text.
pub proof fn lemma_unsupported_binary_refused(filename: Seq<char>, bytes: Seq<u8>)
    requires
        extension_kind(filename) is None,
        inferred_mime(bytes) matches Some(m) && !starts_with(m, "image/"@),
    ensures
        resolve_spec(filename, bytes) is Err,
{
}

/// Any image found by its signature is read as an image, whatever its
/// format: a file whose extension names no ingestor and whose sniffed MIME
/// type begins with "image/" goes to the image ingestor.
pub proof fn lemma_sniffed_images_accepted(filename: Seq<char>, bytes: Seq<u8>, m: Seq<char>)
    requires
        extension_kind(filename) is None,
        inferred_mime(bytes) == Some(m),
        m.len() >= 6,
        m.subrange(0, 6) == "image/"@,
    ensures
        resolve_spec(filename, bytes) == Ok::<IngestorKind, Seq<char>>(IngestorKind::ImageMeta),
        forall|j: bool, u: bool|
            kind_for_content_spec(filename, Some(m), j, u) == Ok::<IngestorKind, Seq<char>>(
                IngestorKind::ImageMeta,
            ),
{
    reveal_strlit("image/");
    assert(m.take(6) =~= m.subrange(0, 6));
}

/// Without a known extension or a recognised binary signature, valid JSON
/// is read as JSON, any other UTF-8 text as CSV, and anything else is
/// refused.
pub proof fn lemma_text_sniffing_order(filename: Seq<char>, bytes: Seq<u8>)
    requires
        extension_kind(filename) is None,
        inferred_mime(bytes) is None,
    ensures
        json_document(bytes) is Ok ==> resolve_spec(filename, bytes) == Ok::<
            IngestorKind,
            Seq<char>,
        >(IngestorKind::Json),
        json_document(bytes) is Err && valid_utf8(bytes) ==> resolve_spec(filename, bytes) == Ok::<
            IngestorKind,
            Seq<char>,
        >(IngestorKind::Csv),
        json_document(bytes) is Err && !valid_utf8(bytes) ==> resolve_spec(filename, bytes) is Err,
{
}

/// The Unicode lowercase form of a string, as `str::to_lowercase` gives it.
pub uninterp spec fn lowercase(s: Seq<char>) -> Seq<char>;

/// `str::to_lowercase`: the result is the name `lowercase` of the argument.
#[verifier::external_body]
fn to_lowercase(s: &str) -> (r: String)
    ensures
        r@ == lowercase(s@),
{
    s.to_lowercase()
}

/// The MIME type that the `infer` crate's built-in matchers find in a
/// buffer, if any.
pub uninterp spec fn inferred_mime(bytes: Seq<u8>) -> Option<Seq<char>>;

/// `infer::get(bytes)` followed by `Type::mime_type`: the result is the
/// name `inferred_mime` of the bytes.
#[verifier::external_body]
fn sniff_mime(bytes: &[u8]) -> (r: Option<&'static str>)
    ensures
        match r {
            Some(m) => inferred_mime(bytes@) == Some(m@),
            None => inferred_mime(bytes@) is None,
        },
{
    infer::get(bytes).map(|kind| kind.mime_type())
}

/// `std::str::from_utf8(bytes).is_ok()`: true exactly when the bytes are
/// valid UTF-8.
#[verifier::external_body]
fn is_utf8(bytes: &[u8]) -> (r: bool)
    ensures
        r == valid_utf8(bytes@),
{
    std::str::from_utf8(bytes).is_ok()
}

/// The extension of `filename`: the part after its last `.`; `None` when
/// the name holds no `.`.
pub fn extension_of(filename: &str) -> (ext: Option<&str>)
    ensures
        match ext {
            Some(e) => extension(filename@) == Some(e@),
            None => extension(filename@) is None,
        },
{
    let cs = chars_of(filename);
    let n = cs.len();
    let mut i = n;
    while i > 0
        invariant
            i <= n == cs@.len(),
            cs@ == filename@,
            forall|j: int| i <= j < n ==> cs@[j] != '.',
        decreases i,
    {
        if cs[i - 1] == '.' {
            let ghost k = i - 1;
            proof {
                let name = filename@;
                assert(exists|k: int| 0 <= k < name.len() && name[k] == '.');
                let c = choose|c: int|
                    0 <= c < name.len() && name[c] == '.' && forall|j: int|
                        c < j < name.len() ==> name[j] != '.';
                assert(name[k] == '.');
                assert(c == k);
            }
            return Some(filename.substring_char(i, n));
        }
        i = i - 1;
    }
    proof {
        assert(!exists|k: int| 0 <= k < filename@.len() && filename@[k] == '.');
    }
    None
}

/// The ingestor that a lowercased file extension names, if any.
pub fn kind_for_extension_exec(ext: &str) -> (r: Option<IngestorKind>)
    ensures
        r == kind_for_extension(ext@),
{
    if str_eq(ext, "csv") {
        Some(IngestorKind::Csv)
    } else if str_eq(ext, "json") {
        Some(IngestorKind::Json)
    } else if str_eq(ext, "jpg") || str_eq(ext, "jpeg") || str_eq(ext, "png") || str_eq(
        ext,
        "tiff",
    ) || str_eq(ext, "tif") {
        Some(IngestorKind::ImageMeta)
    } else {
        None
    }
}

/// The choice made from what the content checks found: the MIME type that
/// a binary signature gave, whether the bytes are valid JSON, and whether
/// they are valid UTF-8.
pub fn kind_for_content(filename: &str, mime: Option<&str>, json_ok: bool, utf8_ok: bool) -> (r:
    Result<IngestorKind, IngestError>)
    ensures
        kind_outcome(r) == kind_for_content_spec(
            filename@,
            match mime {
                Some(m) => Some(m@),
                None => None,
            },
            json_ok,
            utf8_ok,
        ),
{
    match mime {
        Some(m) => {
            if str_starts_with(m, "image/") {
                Ok(IngestorKind::ImageMeta)
            } else {
                let msg = concat5("file '", filename, "' was detected as '", m, "', which has no ingestor");
                Err(IngestError::Malformed(msg))
            }
        },
        None => {
            if json_ok {
                Ok(IngestorKind::Json)
            } else if utf8_ok {
                Ok(IngestorKind::Csv)
            } else {
                Err(
                    IngestError::Malformed(
                        concat3("could not determine asset type for file '", filename, "'"),
                    ),
                )
            }
        },
    }
}

/// Resolves which ingestor to use for an upload: the file extension first
/// (compared without regard to case), then content sniffing for a missing
/// (no `.` in the name), unknown or mislabelled extension.
pub fn resolve_ingestor(filename: &str, bytes: &[u8]) -> (r: Result<IngestorKind, IngestError>)
    ensures
        kind_outcome(r) == resolve_spec(filename@, bytes@),
{
    match extension_of(filename) {
        Some(ext) => {
            let lower = to_lowercase(ext);
            match kind_for_extension_exec(lower.as_str()) {
                Some(kind) => return Ok(kind),
                None => {},
            }
        },
        None => {},
    }
    let mime = sniff_mime(bytes);
    if mime.is_some() {
        return kind_for_content(filename, mime, false, false);
    }
    let json_ok = read_json_document(bytes).is_ok();
    if json_ok {
        return kind_for_content(filename, None, true, false);
    }
    kind_for_content(filename, None, false, is_utf8(bytes))
}

} // verus!
