use file_processor::body::{insert_field, wire_key};
use file_processor::entry::{MetaValue, UploadFileInfo, UploadFileInfoFiled};
use file_processor::params::FileUploadProcessParams;
use file_processor::resolver::{resolve_manifest, FsItem, RootListing};

fn config() -> FileUploadProcessParams {
    FileUploadProcessParams {
        target_kind_key: String::new(),
        target_obj_key: String::new(),
        target_version: String::new(),
        overwrite: true,
        check_key_url: None,
        check_key: None,
        upload_metadata_url: "http://localhost/meta".to_string(),
        upload_metadata_rename_filed: None,
        upload_fixed_metadata: None,
        upload_fixed_headers: None,
    }
}

fn report() -> UploadFileInfo {
    UploadFileInfo {
        id: 0,
        name: "report.pdf".to_string(),
        relative_path: "report.pdf".to_string(),
        size: 10,
        mime_type: "application/pdf".to_string(),
        is_directory: false,
    }
}

fn text(s: &str) -> MetaValue {
    MetaValue::Text(s.to_string())
}

#[test]
fn plain_body_of_single_file() {
    let body = report().to_body(&config());
    assert_eq!(
        body,
        vec![
            ("name".to_string(), text("report.pdf")),
            ("relative_path".to_string(), text("report.pdf")),
            ("size".to_string(), MetaValue::Number(10)),
            ("mime_type".to_string(), text("application/pdf")),
        ]
    );
}

#[test]
fn renamed_fields_use_destination_keys() {
    let mut c = config();
    c.upload_metadata_rename_filed = Some(vec![
        (UploadFileInfoFiled::Name, "title".to_string()),
        (UploadFileInfoFiled::Size, "bytes".to_string()),
        (UploadFileInfoFiled::Name, "ignored".to_string()),
    ]);
    let body = report().to_body(&c);
    let keys: Vec<&str> = body.iter().map(|(k, _)| k.as_str()).collect();
    assert_eq!(keys, vec!["title", "relative_path", "bytes", "mime_type"]);
    assert_eq!(body[2].1, MetaValue::Number(10));
}

#[test]
fn rename_onto_a_later_canonical_key_is_overwritten_in_place() {
    let mut c = config();
    c.upload_metadata_rename_filed = Some(vec![(UploadFileInfoFiled::Name, "size".to_string())]);
    let body = report().to_body(&c);
    assert_eq!(
        body,
        vec![
            ("size".to_string(), MetaValue::Number(10)),
            ("relative_path".to_string(), text("report.pdf")),
            ("mime_type".to_string(), text("application/pdf")),
        ]
    );
}

#[test]
fn fixed_fields_override_and_extend() {
    let mut c = config();
    c.upload_fixed_metadata = Some(vec![
        ("size".to_string(), serde_json::Value::from(99u64)),
        ("folder".to_string(), serde_json::Value::from("kb-74")),
        ("folder".to_string(), serde_json::Value::from("kb-75")),
    ]);
    let body = report().to_body(&c);
    assert_eq!(
        body,
        vec![
            ("name".to_string(), text("report.pdf")),
            ("relative_path".to_string(), text("report.pdf")),
            ("size".to_string(), MetaValue::Json(serde_json::Value::from(99u64))),
            ("mime_type".to_string(), text("application/pdf")),
            ("folder".to_string(), MetaValue::Json(serde_json::Value::from("kb-75"))),
        ]
    );
}

#[test]
fn body_is_deterministic() {
    let mut c = config();
    c.upload_metadata_rename_filed = Some(vec![(UploadFileInfoFiled::MimeType, "type".to_string())]);
    c.upload_fixed_metadata = Some(vec![("kind".to_string(), serde_json::Value::Bool(true))]);
    let first = report().to_body(&c);
    let second = report().to_body(&c);
    assert_eq!(first, second);
}

#[test]
fn wire_key_falls_back_to_canonical_name() {
    let mut c = config();
    assert_eq!(wire_key(&c, UploadFileInfoFiled::RelativePath), "relative_path");
    c.upload_metadata_rename_filed = Some(vec![(UploadFileInfoFiled::Size, "len".to_string())]);
    assert_eq!(wire_key(&c, UploadFileInfoFiled::Size), "len");
    assert_eq!(wire_key(&c, UploadFileInfoFiled::MimeType), "mime_type");
}

#[test]
fn insert_field_replaces_or_appends() {
    let mut b = vec![("a".to_string(), MetaValue::Number(1)), ("b".to_string(), MetaValue::Number(2))];
    insert_field(&mut b, "a".to_string(), MetaValue::Number(3));
    insert_field(&mut b, "c".to_string(), MetaValue::Number(4));
    assert_eq!(
        b,
        vec![
            ("a".to_string(), MetaValue::Number(3)),
            ("b".to_string(), MetaValue::Number(2)),
            ("c".to_string(), MetaValue::Number(4)),
        ]
    );
}

#[test]
fn field_names_and_order() {
    let all = UploadFileInfoFiled::get_all();
    let names: Vec<&str> = all.iter().map(|f| f.to_str_filed()).collect();
    assert_eq!(names, vec!["name", "relative_path", "size", "mime_type"]);
    assert_eq!(report().get_value_by_map(UploadFileInfoFiled::Size), MetaValue::Number(10));
}

#[test]
fn resolved_pdf_gives_the_plain_body() {
    let parts = |p: &str| -> Vec<String> { p.split('/').filter(|s| !s.is_empty()).map(String::from).collect() };
    let l = RootListing {
        root: parts("/tmp/in/report.pdf"),
        items: vec![FsItem { path: parts("/tmp/in/report.pdf"), is_dir: false, size: 10 }],
    };
    let mut m = resolve_manifest(&vec![l]).unwrap();
    let e = m.remove(0);
    assert_eq!(
        e.to_body(&config()),
        vec![
            ("name".to_string(), text("report.pdf")),
            ("relative_path".to_string(), text("report.pdf")),
            ("size".to_string(), MetaValue::Number(10)),
            ("mime_type".to_string(), text("application/pdf")),
        ]
    );
}
