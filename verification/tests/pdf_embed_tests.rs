use shoruichecker::base64::base64_encode;
use shoruichecker::error::AppError;
use shoruichecker::pdf_embed::{
    data_from_entries, embed_and_write, embed_in_document, embed_result_in_pdf,
    embed_result_in_pdf_with_instruction, read_embedded_data, read_embedded_data_from_pdf,
    read_result_from_pdf,
};

fn blank_pdf(with_info: bool) -> Vec<u8> {
    let mut doc = lopdf::Document::with_version("1.5");
    let pages_id = doc.new_object_id();
    let mut page = lopdf::Dictionary::new();
    page.set("Type", lopdf::Object::Name(b"Page".to_vec()));
    page.set("Parent", lopdf::Object::Reference(pages_id));
    let page_id = doc.add_object(lopdf::Object::Dictionary(page));
    let mut pages = lopdf::Dictionary::new();
    pages.set("Type", lopdf::Object::Name(b"Pages".to_vec()));
    pages.set("Kids", lopdf::Object::Array(vec![lopdf::Object::Reference(page_id)]));
    pages.set("Count", lopdf::Object::Integer(1));
    doc.objects.insert(pages_id, lopdf::Object::Dictionary(pages));
    let mut catalog = lopdf::Dictionary::new();
    catalog.set("Type", lopdf::Object::Name(b"Catalog".to_vec()));
    catalog.set("Pages", lopdf::Object::Reference(pages_id));
    let catalog_id = doc.add_object(lopdf::Object::Dictionary(catalog));
    doc.trailer.set("Root", lopdf::Object::Reference(catalog_id));
    if with_info {
        let mut info = lopdf::Dictionary::new();
        info.set(
            "Title",
            lopdf::Object::String(b"t".to_vec(), lopdf::StringFormat::Literal),
        );
        let info_id = doc.add_object(lopdf::Object::Dictionary(info));
        doc.trailer.set("Info", lopdf::Object::Reference(info_id));
    }
    let mut out = Vec::new();
    doc.save_to(&mut out).unwrap();
    out
}

#[test]
fn untouched_pdf_carries_nothing() {
    assert!(read_embedded_data_from_pdf(&blank_pdf(true)).is_none());
    assert!(read_embedded_data_from_pdf(&blank_pdf(false)).is_none());
    assert!(read_result_from_pdf(&blank_pdf(false)).is_none());
    assert!(read_embedded_data_from_pdf(b"not a pdf").is_none());
}

#[test]
fn unparsable_pdf_is_a_pdf_error() {
    match embed_result_in_pdf(b"not a pdf", "r") {
        Err(AppError::Pdf(m)) => assert!(m.starts_with("PDF読み込みエラー: ")),
        _ => panic!("bytes that are no PDF must be refused"),
    }
}

#[test]
fn embed_then_read_gives_the_same_result_and_instruction() {
    for with_info in [true, false] {
        let pdf = blank_pdf(with_info);
        let text = "契約書の内容です\n⚠ 金額に不整合があります";
        let out = embed_result_in_pdf_with_instruction(&pdf, text, "印影を確認 (重要)").unwrap();
        let data = read_embedded_data_from_pdf(&out).unwrap();
        assert_eq!(data.result, text);
        assert_eq!(data.instruction, Some("印影を確認 (重要)".to_string()));
        assert_eq!(data.date.len(), 19);
        let (result, date) = read_result_from_pdf(&out).unwrap();
        assert_eq!(result, text);
        assert_eq!(date, data.date);
    }
}

#[test]
fn empty_instruction_reads_back_as_none() {
    let out = embed_result_in_pdf(&blank_pdf(true), "r").unwrap();
    let data = read_embedded_data_from_pdf(&out).unwrap();
    assert_eq!(data.result, "r");
    assert_eq!(data.instruction, None);
}

#[test]
fn second_embed_overwrites_result_and_instruction() {
    let first = embed_result_in_pdf_with_instruction(&blank_pdf(false), "one", "i").unwrap();
    let second = embed_result_in_pdf_with_instruction(&first, "two", "j").unwrap();
    let data = read_embedded_data_from_pdf(&second).unwrap();
    assert_eq!(data.result, "two");
    assert_eq!(data.instruction, Some("j".to_string()));
}

#[test]
fn embed_with_an_empty_instruction_removes_an_older_one() {
    let first = embed_result_in_pdf_with_instruction(&blank_pdf(false), "one", "i").unwrap();
    let second = embed_result_in_pdf(&first, "two").unwrap();
    let data = read_embedded_data_from_pdf(&second).unwrap();
    assert_eq!(data.result, "two");
    assert_eq!(data.instruction, None);
    let mut doc = lopdf::Document::load_mem(&first).unwrap();
    assert!(embed_in_document(&mut doc, "three", "", "2024-01-01 00:00:00"));
    let info = doc.trailer.get(b"Info").unwrap().as_reference().unwrap();
    let dict = doc.get_object(info).unwrap().as_dict().unwrap();
    assert!(dict.get(b"ShoruiCheckerInstruction").is_err());
    assert!(dict.get(b"ShoruiCheckerResult").is_ok());
}

#[test]
fn embed_keeps_the_other_entries_of_the_info_dictionary() {
    let out = embed_result_in_pdf_with_instruction(&blank_pdf(true), "r", "i").unwrap();
    let doc = lopdf::Document::load_mem(&out).unwrap();
    let info = doc.trailer.get(b"Info").unwrap().as_reference().unwrap();
    let dict = doc.get_object(info).unwrap().as_dict().unwrap();
    assert_eq!(dict.get(b"Title").unwrap().as_str().unwrap(), b"t");
    assert_eq!(dict.get(b"ShoruiCheckerVersion").unwrap().as_str().unwrap(), b"1.0");
    assert_eq!(dict.get(b"ShoruiCheckerInstruction").unwrap().as_str().unwrap(), b"aQ==");
    let date = dict.get(b"ShoruiCheckerDate").unwrap().as_str().unwrap();
    assert_eq!(date.len(), 19);
    assert_eq!((date[4], date[7], date[10], date[13], date[16]), (b'-', b'-', b' ', b':', b':'));
}

#[test]
fn embed_and_write_gives_the_bytes_of_the_embedded_document() {
    let mut doc = lopdf::Document::load_mem(&blank_pdf(false)).unwrap();
    let bytes = embed_and_write(&mut doc, "r", "i", "2024-01-01 00:00:00").unwrap();
    let data = read_embedded_data(&doc).unwrap();
    assert_eq!((data.result.as_str(), data.instruction.as_deref()), ("r", Some("i")));
    let back = read_embedded_data_from_pdf(&bytes).unwrap();
    assert_eq!(
        (back.result.as_str(), back.instruction.as_deref(), back.date.as_str()),
        ("r", Some("i"), "2024-01-01 00:00:00")
    );
    let again = embed_and_write(&mut doc, "r", "i", "2024-01-01 00:00:00").unwrap();
    assert_eq!(bytes, again);
}

#[test]
fn embed_in_a_document_in_memory() {
    let mut doc = lopdf::Document::load_mem(&blank_pdf(false)).unwrap();
    assert!(read_embedded_data(&doc).is_none());
    assert!(embed_in_document(&mut doc, "r", "", "2024-01-01 00:00:00"));
    let data = read_embedded_data(&doc).unwrap();
    assert_eq!(data.result, "r");
    assert_eq!(data.instruction, None);
    assert_eq!(data.date, "2024-01-01 00:00:00");
    let info = doc.trailer.get(b"Info").unwrap().as_reference().unwrap();
    let dict = doc.get_object(info).unwrap().as_dict().unwrap();
    assert_eq!(dict.get(b"ShoruiCheckerVersion").unwrap().as_str().unwrap(), b"1.0");
    assert_eq!(dict.get(b"ShoruiCheckerResult").unwrap().as_str().unwrap(), b"cg==");
}

#[test]
fn embed_fails_when_info_is_no_dictionary() {
    let mut doc = lopdf::Document::load_mem(&blank_pdf(false)).unwrap();
    let id = doc.add_object(lopdf::Object::Integer(1));
    doc.trailer.set("Info", lopdf::Object::Reference(id));
    assert!(!embed_in_document(&mut doc, "r", "i", "d"));
    assert!(read_embedded_data(&doc).is_none());
}

#[test]
fn data_from_raw_entries() {
    let r = base64_encode("結果").into_bytes();
    let i = base64_encode("指示").into_bytes();
    let d = data_from_entries(Some(r.clone()), Some(i), Some(b"2024-01-01".to_vec())).unwrap();
    assert_eq!((d.result.as_str(), d.instruction.as_deref(), d.date.as_str()), ("結果", Some("指示"), "2024-01-01"));
    let d = data_from_entries(Some(r.clone()), Some(b"***".to_vec()), None).unwrap();
    assert_eq!((d.instruction, d.date.as_str()), (None, ""));
    let d = data_from_entries(Some(r), None, Some(vec![0xff])).unwrap();
    assert_eq!(d.date, "");
    assert!(data_from_entries(None, None, None).is_none());
    assert!(data_from_entries(Some(b"ab*d".to_vec()), None, None).is_none());
    assert!(data_from_entries(Some(vec![0xff, 0xfe]), None, None).is_none());
}
