//! Analysis results kept in a PDF's Info dictionary: the result and the
//! user's instruction as Base64 text, the date and a version as plain text.

use vstd::prelude::*;
use vstd::string::StrSliceExecFns;
use vstd::utf8::{decode_utf8, encode_utf8, valid_utf8};
use crate::base64::{
    base64_decode, base64_encode, decode_text, encode_text, lemma_text_round_trip,
    string_from_utf8,
};
use crate::error::AppError;
use crate::history::{is_time_stamp, local_timestamp};
use crate::text::opt_view;

verus! {

/// The key of the Base64 text of the result.
pub const RESULT_KEY: &'static str = "ShoruiCheckerResult";

/// The key of the Base64 text of the user's instruction.
pub const INSTRUCTION_KEY: &'static str = "ShoruiCheckerInstruction";

/// The key of the date of the analysis.
pub const DATE_KEY: &'static str = "ShoruiCheckerDate";

/// The key of the version of this layout.
pub const VERSION_KEY: &'static str = "ShoruiCheckerVersion";

/// The version of this layout.
pub const VERSION: &'static str = "1.0";

/// What a PDF carries of an earlier analysis.
#[derive(Clone)]
pub struct PdfEmbeddedData {
    pub result: String,
    pub instruction: Option<String>,
    pub date: String,
}

/// What embedded data holds.
pub ghost struct DataView {
    pub result: Seq<char>,
    pub instruction: Option<Seq<char>>,
    pub date: Seq<char>,
}

impl View for PdfEmbeddedData {
    type V = DataView;

    open spec fn view(&self) -> DataView {
        DataView {
            result: self.result@,
            instruction: opt_view(self.instruction),
            date: self.date@,
        }
    }
}

/// The view of data that may be missing.
pub open spec fn data_view(d: Option<PdfEmbeddedData>) -> Option<DataView> {
    match d {
        Some(v) => Some(v@),
        None => None,
    }
}

/// The string entries of a dictionary, by key.
pub type Entries = Map<Seq<char>, Seq<u8>>;

/// The text that bytes encode, if they are UTF-8.
pub open spec fn text_of(bytes: Seq<u8>) -> Option<Seq<char>> {
    if valid_utf8(bytes) {
        Some(decode_utf8(bytes))
    } else {
        None
    }
}

/// The text that the entry under `key` holds in Base64, if there is such an
/// entry and it decodes.
pub open spec fn decoded_entry(entries: Entries, key: Seq<char>) -> Option<Seq<char>> {
    if entries.contains_key(key) {
        match text_of(entries[key]) {
            Some(t) => decode_text(t),
            None => None,
        }
    } else {
        None
    }
}

/// The plain text of the entry under `key`, or the empty text.
pub open spec fn plain_entry(entries: Entries, key: Seq<char>) -> Seq<char> {
    if entries.contains_key(key) {
        match text_of(entries[key]) {
            Some(t) => t,
            None => seq![],
        }
    } else {
        seq![]
    }
}

/// What the entries carry: nothing without a result that decodes, else the
/// result, the instruction if one decodes, and the date.
pub open spec fn embedded_data(entries: Entries) -> Option<DataView> {
    match decoded_entry(entries, RESULT_KEY@) {
        Some(result) => Some(
            DataView {
                result,
                instruction: decoded_entry(entries, INSTRUCTION_KEY@),
                date: plain_entry(entries, DATE_KEY@),
            },
        ),
        None => None,
    }
}

/// The entries after an embed: result, date and version are set, the
/// instruction is set if it is not empty and removed if it is; every other
/// entry stays.
pub open spec fn embedded_entries(
    before: Entries,
    result: Seq<char>,
    instruction: Seq<char>,
    date: Seq<char>,
) -> Entries {
    let with_result = before.insert(RESULT_KEY@, encode_utf8(encode_text(result)));
    let with_instruction = if instruction.len() > 0 {
        with_result.insert(INSTRUCTION_KEY@, encode_utf8(encode_text(instruction)))
    } else {
        with_result.remove(INSTRUCTION_KEY@)
    };
    with_instruction.insert(DATE_KEY@, encode_utf8(date)).insert(VERSION_KEY@, encode_utf8(VERSION@))
}

/// The instruction as it is read back: `None` for an empty one.
pub open spec fn instruction_read(instruction: Seq<char>) -> Option<Seq<char>> {
    if instruction.len() > 0 {
        Some(instruction)
    } else {
        None
    }
}

proof fn lemma_keys_differ()
    ensures
        RESULT_KEY@ != INSTRUCTION_KEY@,
        RESULT_KEY@ != DATE_KEY@,
        RESULT_KEY@ != VERSION_KEY@,
        INSTRUCTION_KEY@ != DATE_KEY@,
        INSTRUCTION_KEY@ != VERSION_KEY@,
        DATE_KEY@ != VERSION_KEY@,
{
    reveal_strlit("ShoruiCheckerResult");
    reveal_strlit("ShoruiCheckerInstruction");
    reveal_strlit("ShoruiCheckerDate");
    reveal_strlit("ShoruiCheckerVersion");
    assert(RESULT_KEY@.len() == 19);
    assert(INSTRUCTION_KEY@.len() == 24);
    assert(DATE_KEY@.len() == 17);
    assert(VERSION_KEY@.len() == 20);
}

/// The entries hold exactly what an embed of these values writes: the
/// result and the instruction as Base64 text, no instruction entry for an
/// empty instruction, the date and the version as plain text.
pub open spec fn carries(
    entries: Entries,
    result: Seq<char>,
    instruction: Seq<char>,
    date: Seq<char>,
) -> bool {
    &&& entries.contains_key(RESULT_KEY@)
    &&& entries[RESULT_KEY@] == encode_utf8(encode_text(result))
    &&& if instruction.len() > 0 {
        entries.contains_key(INSTRUCTION_KEY@) && entries[INSTRUCTION_KEY@] == encode_utf8(
            encode_text(instruction),
        )
    } else {
        !entries.contains_key(INSTRUCTION_KEY@)
    }
    &&& entries.contains_key(DATE_KEY@)
    &&& entries[DATE_KEY@] == encode_utf8(date)
    &&& entries.contains_key(VERSION_KEY@)
    &&& entries[VERSION_KEY@] == encode_utf8(VERSION@)
}

/// After an embed the entries carry the embedded values, whatever they
/// held before.
pub proof fn lemma_embedded_carries(
    before: Entries,
    result: Seq<char>,
    instruction: Seq<char>,
    date: Seq<char>,
)
    ensures
        carries(embedded_entries(before, result, instruction, date), result, instruction, date),
{
    lemma_keys_differ();
}

/// Entries that carry embedded values are read back as these values: the
/// same result and date, and the same instruction, `None` for an empty one.
pub proof fn lemma_carried_is_read(
    entries: Entries,
    result: Seq<char>,
    instruction: Seq<char>,
    date: Seq<char>,
)
    requires
        carries(entries, result, instruction, date),
    ensures
        embedded_data(entries) == Some(
            DataView { result, instruction: instruction_read(instruction), date },
        ),
{
    lemma_text_round_trip(result);
    lemma_text_round_trip(instruction);
    vstd::utf8::encode_utf8_valid_utf8(encode_text(result));
    vstd::utf8::encode_utf8_decode_utf8(encode_text(result));
    vstd::utf8::encode_utf8_valid_utf8(encode_text(instruction));
    vstd::utf8::encode_utf8_decode_utf8(encode_text(instruction));
    vstd::utf8::encode_utf8_valid_utf8(date);
    vstd::utf8::encode_utf8_decode_utf8(date);
}

/// What was embedded is read back, whatever the entries held before: the
/// same result and date, and the same instruction, `None` for an empty one.
pub proof fn lemma_embed_read_round_trip(
    before: Entries,
    result: Seq<char>,
    instruction: Seq<char>,
    date: Seq<char>,
)
    ensures
        embedded_data(embedded_entries(before, result, instruction, date)) == Some(
            DataView { result, instruction: instruction_read(instruction), date },
        ),
{
    lemma_embedded_carries(before, result, instruction, date);
    lemma_carried_is_read(
        embedded_entries(before, result, instruction, date),
        result,
        instruction,
        date,
    );
}

/// The text of bytes, if they are UTF-8 and decode as Base64.
fn decode_entry(bytes: Option<Vec<u8>>) -> (r: Option<String>)
    ensures
        opt_view(r) == match bytes {
            Some(b) => match text_of(b@) {
                Some(t) => decode_text(t),
                None => None,
            },
            None => None,
        },
{
    match bytes {
        Some(b) => match string_from_utf8(b) {
            Some(t) => base64_decode(t.as_str()),
            None => None,
        },
        None => None,
    }
}

/// The data that three entries of an Info dictionary carry.
pub fn data_from_entries(
    result: Option<Vec<u8>>,
    instruction: Option<Vec<u8>>,
    date: Option<Vec<u8>>,
) -> (r: Option<PdfEmbeddedData>)
    ensures
        data_view(r) == match decode_entry_spec(result) {
            Some(text) => Some(
                DataView {
                    result: text,
                    instruction: decode_entry_spec(instruction),
                    date: plain_entry_spec(date),
                },
            ),
            None => None,
        },
{
    let result = match decode_entry(result) {
        Some(t) => t,
        None => { return None; },
    };
    let instruction = decode_entry(instruction);
    let date = match date {
        Some(b) => match string_from_utf8(b) {
            Some(t) => t,
            None => String::new(),
        },
        None => String::new(),
    };
    Some(PdfEmbeddedData { result, instruction, date })
}

/// The Base64 text that entry bytes hold, decoded.
pub open spec fn decode_entry_spec(bytes: Option<Vec<u8>>) -> Option<Seq<char>> {
    match bytes {
        Some(b) => match text_of(b@) {
            Some(t) => decode_text(t),
            None => None,
        },
        None => None,
    }
}

/// The plain text that entry bytes hold, or the empty text.
pub open spec fn plain_entry_spec(bytes: Option<Vec<u8>>) -> Seq<char> {
    match bytes {
        Some(b) => match text_of(b@) {
            Some(t) => t,
            None => seq![],
        },
        None => seq![],
    }
}

#[verifier::external_type_specification]
#[verifier::external_body]
pub struct ExDocument(lopdf::Document);

#[verifier::external_type_specification]
#[verifier::external_body]
pub struct ExPdfError(lopdf::Error);

/// The object that the trailer's `Info` entry refers to, if it is a reference.
pub uninterp spec fn info_ref_of(doc: lopdf::Document) -> Option<(u32, u16)>;

/// Whether the object with this number and generation is, after following
/// references, a dictionary.
pub uninterp spec fn is_dictionary_at(doc: lopdf::Document, number: u32, generation: u16) -> bool;

/// The string entries of the dictionary that the object with this number
/// and generation leads to, by key.
pub uninterp spec fn strings_at(doc: lopdf::Document, number: u32, generation: u16) -> Entries;

/// A dictionary without a string entry.
pub open spec fn no_entries() -> Entries {
    Map::empty()
}

/// The object leads to a dictionary that has a string entry under `key`.
pub open spec fn has_string(doc: lopdf::Document, id: (u32, u16), key: Seq<char>) -> bool {
    is_dictionary_at(doc, id.0, id.1) && strings_at(doc, id.0, id.1).contains_key(key)
}

/// The string entries of a document's Info dictionary, if the trailer
/// refers to one.
pub open spec fn info_strings(doc: lopdf::Document) -> Option<Entries> {
    match info_ref_of(doc) {
        Some(id) => if is_dictionary_at(doc, id.0, id.1) {
            Some(strings_at(doc, id.0, id.1))
        } else {
            None
        },
        None => None,
    }
}

/// `lopdf::Document::load_mem`: parses a PDF held in memory. The parser may
/// work on several threads, so nothing is said of what it gives.
#[verifier::external_body]
fn parse_document(bytes: &[u8]) -> (r: Result<lopdf::Document, lopdf::Error>) {
    lopdf::Document::load_mem(bytes)
}

/// The bytes that `Document::save_to` writes of a document, or `None` where
/// the writer fails.
pub uninterp spec fn saved_bytes(doc: lopdf::Document) -> Option<Seq<u8>>;

/// `lopdf::Document::save_to` on a copy of the document, with a vector as
/// its target: the writer walks the objects in the order of their numbers
/// and sets entries of the copy's trailer, so what it writes is a function
/// of the document. An error comes back as its text.
#[verifier::external_body]
fn write_document(doc: &lopdf::Document) -> (r: Result<Vec<u8>, String>)
    ensures
        r is Ok <==> saved_bytes(*doc) is Some,
        r is Ok ==> r->Ok_0@ == saved_bytes(*doc).unwrap(),
{
    let mut copy = doc.clone();
    let mut out: Vec<u8> = Vec::new();
    match copy.save_to(&mut out) {
        Ok(()) => Ok(out),
        Err(e) => Err(e.to_string()),
    }
}

/// The text of a `lopdf::Error`, as its `Display` gives it.
#[verifier::external_body]
fn error_text(e: &lopdf::Error) -> (r: String) {
    e.to_string()
}

/// `Dictionary::get` on the trailer with the key `Info`, then
/// `Object::as_reference`: the object that the entry refers to.
#[verifier::external_body]
fn info_reference(doc: &lopdf::Document) -> (r: Option<(u32, u16)>)
    ensures
        r == info_ref_of(*doc),
{
    doc.trailer.get(b"Info").ok().and_then(|o| o.as_reference().ok())
}

/// `Document::try_add_object` with an empty dictionary: on success the new
/// object is a dictionary without entries, and the trailer is as before.
#[verifier::external_body]
fn add_dictionary(doc: &mut lopdf::Document) -> (r: Option<(u32, u16)>)
    ensures
        info_ref_of(*final(doc)) == info_ref_of(*old(doc)),
        r is Some ==> is_dictionary_at(*final(doc), r.unwrap().0, r.unwrap().1),
        r is Some ==> strings_at(*final(doc), r.unwrap().0, r.unwrap().1) == no_entries(),
{
    doc.try_add_object(lopdf::Object::Dictionary(lopdf::Dictionary::new())).ok()
}

/// `Dictionary::set` on the trailer: its `Info` entry becomes a reference to
/// the given object; the objects themselves are not touched.
#[verifier::external_body]
fn set_info_reference(doc: &mut lopdf::Document, id: (u32, u16))
    ensures
        info_ref_of(*final(doc)) == Some(id),
        is_dictionary_at(*final(doc), id.0, id.1) == is_dictionary_at(*old(doc), id.0, id.1),
        strings_at(*final(doc), id.0, id.1) == strings_at(*old(doc), id.0, id.1),
{
    doc.trailer.set("Info", lopdf::Object::Reference(id));
}

/// `Document::get_object_mut`, then `Dictionary::set` with a literal string:
/// if the object leads to a dictionary, the entry is set there and `true`
/// comes back; else nothing changes.
#[verifier::external_body]
fn set_string(doc: &mut lopdf::Document, id: (u32, u16), key: &str, value: Vec<u8>) -> (r: bool)
    ensures
        r == is_dictionary_at(*old(doc), id.0, id.1),
        info_ref_of(*final(doc)) == info_ref_of(*old(doc)),
        is_dictionary_at(*final(doc), id.0, id.1) == is_dictionary_at(*old(doc), id.0, id.1),
        strings_at(*final(doc), id.0, id.1) == if r {
            strings_at(*old(doc), id.0, id.1).insert(key@, value@)
        } else {
            strings_at(*old(doc), id.0, id.1)
        },
{
    match doc.get_object_mut(id) {
        Ok(lopdf::Object::Dictionary(info)) => {
            info.set(key, lopdf::Object::String(value, lopdf::StringFormat::Literal));
            true
        },
        _ => false,
    }
}

/// `Document::get_object`, then `Dictionary::get`: the bytes of the string
/// entry under `key`, if the object leads to a dictionary that has one.
#[verifier::external_body]
fn get_string(doc: &lopdf::Document, id: (u32, u16), key: &str) -> (r: Option<Vec<u8>>)
    ensures
        r is Some <==> has_string(*doc, id, key@),
        r is Some ==> r.unwrap()@ == strings_at(*doc, id.0, id.1)[key@],
{
    match doc.get_object(id) {
        Ok(lopdf::Object::Dictionary(info)) => match info.get(key.as_bytes()) {
            Ok(lopdf::Object::String(bytes, _)) => Some(bytes.clone()),
            _ => None,
        },
        _ => None,
    }
}

/// `Document::get_object_mut`, then `Dictionary::remove`: if the object
/// leads to a dictionary, its entry under `key` is gone and `true` comes
/// back; else nothing changes.
#[verifier::external_body]
fn remove_entry(doc: &mut lopdf::Document, id: (u32, u16), key: &str) -> (r: bool)
    ensures
        r == is_dictionary_at(*old(doc), id.0, id.1),
        info_ref_of(*final(doc)) == info_ref_of(*old(doc)),
        is_dictionary_at(*final(doc), id.0, id.1) == is_dictionary_at(*old(doc), id.0, id.1),
        strings_at(*final(doc), id.0, id.1) == if r {
            strings_at(*old(doc), id.0, id.1).remove(key@)
        } else {
            strings_at(*old(doc), id.0, id.1)
        },
{
    match doc.get_object_mut(id) {
        Ok(lopdf::Object::Dictionary(info)) => {
            info.remove(key.as_bytes());
            true
        },
        _ => false,
    }
}

/// The entries that an embed starts from: those of the Info dictionary, or
/// none for a document without one.
pub open spec fn prior_entries(doc: lopdf::Document) -> Entries {
    match info_strings(doc) {
        Some(m) => m,
        None => no_entries(),
    }
}

/// Writes result, instruction, date and version into the document's Info
/// dictionary, which is made if the trailer names none; an empty
/// instruction removes the instruction entry. `false`, with the entries as
/// they were, when the trailer's entry leads to no dictionary or none can
/// be added.
pub fn embed_in_document(
    doc: &mut lopdf::Document,
    result: &str,
    custom_instruction: &str,
    date: &str,
) -> (done: bool)
    ensures
        done <==> info_strings(*final(doc)) is Some,
        done ==> info_strings(*final(doc)) == Some(
            embedded_entries(prior_entries(*old(doc)), result@, custom_instruction@, date@),
        ),
        done <==> (info_ref_of(*old(doc)) is Some ==> info_strings(*old(doc)) is Some)
            && info_ref_of(*final(doc)) is Some,
        !done && info_ref_of(*old(doc)) is Some ==> info_strings(*final(doc)) == info_strings(
            *old(doc),
        ),
        done ==> carries(
            info_strings(*final(doc)).unwrap(),
            result@,
            custom_instruction@,
            date@,
        ),
        done ==> embedded_data(info_strings(*final(doc)).unwrap()) == Some(
            DataView {
                result: result@,
                instruction: instruction_read(custom_instruction@),
                date: date@,
            },
        ),
{
    proof {
        lemma_embedded_carries(prior_entries(*doc), result@, custom_instruction@, date@);
        lemma_embed_read_round_trip(prior_entries(*doc), result@, custom_instruction@, date@);
    }
    let id = match info_reference(doc) {
        Some(id) => id,
        None => {
            match add_dictionary(doc) {
                Some(id) => {
                    set_info_reference(doc, id);
                    id
                },
                None => { return false; },
            }
        },
    };
    let encoded = base64_encode(result);
    if !set_string(doc, id, RESULT_KEY, encoded.as_str().as_bytes_vec()) {
        return false;
    }
    if custom_instruction.unicode_len() > 0 {
        let encoded_instruction = base64_encode(custom_instruction);
        set_string(doc, id, INSTRUCTION_KEY, encoded_instruction.as_str().as_bytes_vec());
    } else {
        remove_entry(doc, id, INSTRUCTION_KEY);
    }
    set_string(doc, id, DATE_KEY, date.as_bytes_vec());
    set_string(doc, id, VERSION_KEY, VERSION.as_bytes_vec());
    true
}

/// What the document's Info dictionary carries of an earlier analysis.
pub fn read_embedded_data(doc: &lopdf::Document) -> (r: Option<PdfEmbeddedData>)
    ensures
        data_view(r) == match info_strings(*doc) {
            Some(entries) => embedded_data(entries),
            None => None,
        },
{
    let id = match info_reference(doc) {
        Some(id) => id,
        None => { return None; },
    };
    let result = get_string(doc, id, RESULT_KEY);
    let instruction = get_string(doc, id, INSTRUCTION_KEY);
    let date = get_string(doc, id, DATE_KEY);
    data_from_entries(result, instruction, date)
}

/// What a finished embed returns: the saved bytes, or the PDF error of a
/// save that failed.
pub fn embed_outcome(saved: Result<Vec<u8>, String>) -> (r: Result<Vec<u8>, AppError>)
    ensures
        match saved {
            Ok(bytes) => r == Ok::<Vec<u8>, AppError>(bytes),
            Err(e) => r is Err && r->Err_0 is Pdf && r->Err_0.detail() == "PDF保存エラー: "@ + e@,
        },
{
    match saved {
        Ok(bytes) => Ok(bytes),
        Err(e) => {
            let mut text = String::new();
            vstd::string::StringExecFns::append(&mut text, "PDF保存エラー: ");
            vstd::string::StringExecFns::append(&mut text, e.as_str());
            assert(text@ =~= "PDF保存エラー: "@ + e@);
            Err(AppError::Pdf(text))
        },
    }
}

/// The PDF error of a document that could not be parsed.
pub fn load_failure(detail: &str) -> (r: AppError)
    ensures
        r is Pdf,
        r.detail() == "PDF読み込みエラー: "@ + detail@,
{
    let mut text = String::new();
    vstd::string::StringExecFns::append(&mut text, "PDF読み込みエラー: ");
    vstd::string::StringExecFns::append(&mut text, detail);
    assert(text@ =~= "PDF読み込みエラー: "@ + detail@);
    AppError::Pdf(text)
}

/// Embeds the values in the document and writes it: the bytes of the
/// document as it stands after the embed, or the PDF error of a writer that
/// failed. A document whose trailer leads to no Info dictionary, and that
/// can get none, is written as it is.
pub fn embed_and_write(
    doc: &mut lopdf::Document,
    result: &str,
    custom_instruction: &str,
    date: &str,
) -> (r: Result<Vec<u8>, AppError>)
    ensures
        info_strings(*final(doc)) is Some <==> (info_ref_of(*old(doc)) is Some ==> info_strings(
            *old(doc),
        ) is Some) && info_ref_of(*final(doc)) is Some,
        info_strings(*final(doc)) is Some ==> info_strings(*final(doc)) == Some(
            embedded_entries(prior_entries(*old(doc)), result@, custom_instruction@, date@),
        ),
        r is Ok <==> saved_bytes(*final(doc)) is Some,
        r is Ok ==> written_with(*final(doc), r->Ok_0@, result@, custom_instruction@, date@),
        r is Err ==> r->Err_0 is Pdf,
{
    let _ = embed_in_document(doc, result, custom_instruction, date);
    embed_outcome(write_document(doc))
}

/// `bytes` are what the writer makes of the document, and the document's
/// Info dictionary, if its trailer leads to one, carries the values.
pub open spec fn written_with(
    doc: lopdf::Document,
    bytes: Seq<u8>,
    result: Seq<char>,
    instruction: Seq<char>,
    date: Seq<char>,
) -> bool {
    &&& saved_bytes(doc) == Some(bytes)
    &&& info_strings(doc) is Some ==> carries(
        info_strings(doc).unwrap(),
        result,
        instruction,
        date,
    )
}

/// `bytes` are what the writer makes of a document that carries the values
/// with a date in the form of a time stamp.
pub open spec fn embeds(bytes: Seq<u8>, result: Seq<char>, instruction: Seq<char>) -> bool {
    exists|doc: lopdf::Document, date: Seq<char>|
        #[trigger] written_with(doc, bytes, result, instruction, date) && is_time_stamp(date)
}

/// Embeds a result and the user's instruction in a PDF given as bytes and
/// returns the PDF's new bytes; the date is the current local time. Fails
/// with a PDF error when the parser refuses the bytes or the writer fails.
pub fn embed_result_in_pdf_with_instruction(pdf: &[u8], result: &str, custom_instruction: &str) -> (r:
    Result<Vec<u8>, AppError>)
    ensures
        r is Err ==> r->Err_0 is Pdf,
        r is Ok ==> embeds(r->Ok_0@, result@, custom_instruction@),
{
    let mut doc = match parse_document(pdf) {
        Ok(d) => d,
        Err(e) => {
            let detail = error_text(&e);
            return Err(load_failure(detail.as_str()));
        },
    };
    let now = local_timestamp();
    let r = embed_and_write(&mut doc, result, custom_instruction, now.as_str());
    proof {
        if r is Ok {
            assert(written_with(doc, r->Ok_0@, result@, custom_instruction@, now@));
        }
    }
    r
}

/// Embeds a result without an instruction.
pub fn embed_result_in_pdf(pdf: &[u8], result: &str) -> (r: Result<Vec<u8>, AppError>)
    ensures
        r is Err ==> r->Err_0 is Pdf,
        r is Ok ==> embeds(r->Ok_0@, result@, Seq::<char>::empty()),
{
    proof {
        reveal_strlit("");
        assert(""@ =~= Seq::<char>::empty());
    }
    embed_result_in_pdf_with_instruction(pdf, result, "")
}

/// The document's Info dictionary carries this data of an earlier analysis.
pub open spec fn document_carries(doc: lopdf::Document, data: DataView) -> bool {
    match info_strings(doc) {
        Some(entries) => embedded_data(entries) == Some(data),
        None => false,
    }
}

/// What a PDF given as bytes carries of an earlier analysis: what the Info
/// dictionary of the parsed document carries; `None` when the parser
/// refuses the bytes, the document has no Info dictionary or it carries no
/// result.
pub fn read_embedded_data_from_pdf(pdf: &[u8]) -> (r: Option<PdfEmbeddedData>)
    ensures
        r is Some ==> exists|doc: lopdf::Document| #[trigger] document_carries(doc, r.unwrap()@),
{
    match parse_document(pdf) {
        Ok(doc) => {
            let r = read_embedded_data(&doc);
            proof {
                if r is Some {
                    assert(document_carries(doc, r.unwrap()@));
                }
            }
            r
        },
        Err(_) => None,
    }
}

/// The result and date of embedded data.
pub fn result_and_date(data: Option<PdfEmbeddedData>) -> (r: Option<(String, String)>)
    ensures
        match data {
            Some(d) => r == Some((d.result, d.date)),
            None => r is None,
        },
{
    match data {
        Some(d) => Some((d.result, d.date)),
        None => None,
    }
}

/// The document's Info dictionary carries data with this result and date.
pub open spec fn document_dates(doc: lopdf::Document, result: Seq<char>, date: Seq<char>) -> bool {
    match info_strings(doc) {
        Some(entries) => embedded_data(entries) is Some && embedded_data(entries).unwrap().result
            == result && embedded_data(entries).unwrap().date == date,
        None => false,
    }
}

/// The result and date that a PDF given as bytes carries.
pub fn read_result_from_pdf(pdf: &[u8]) -> (r: Option<(String, String)>)
    ensures
        r is Some ==> exists|doc: lopdf::Document| #[trigger]
            document_dates(doc, r.unwrap().0@, r.unwrap().1@),
{
    match parse_document(pdf) {
        Ok(doc) => {
            let r = result_and_date(read_embedded_data(&doc));
            proof {
                if r is Some {
                    assert(document_dates(doc, r.unwrap().0@, r.unwrap().1@));
                }
            }
            r
        },
        Err(_) => None,
    }
}

} // verus!
