use vstd::prelude::*;

verus! {

/// A semantic metadata field of a manifest entry.
#[derive(Debug, Clone, Copy, PartialEq, Eq, Structural, Hash)]
pub enum UploadFileInfoFiled {
    Name,
    RelativePath,
    Size,
    MimeType,
}

/// The canonical wire name of a field.
pub open spec fn canonical_name(f: UploadFileInfoFiled) -> Seq<char> {
    match f {
        UploadFileInfoFiled::Name => "name"@,
        UploadFileInfoFiled::RelativePath => "relative_path"@,
        UploadFileInfoFiled::Size => "size"@,
        UploadFileInfoFiled::MimeType => "mime_type"@,
    }
}

/// The semantic fields in the order in which a request body is built.
pub open spec fn all_fields() -> Seq<UploadFileInfoFiled> {
    seq![
        UploadFileInfoFiled::Name,
        UploadFileInfoFiled::RelativePath,
        UploadFileInfoFiled::Size,
        UploadFileInfoFiled::MimeType,
    ]
}

impl UploadFileInfoFiled {
    pub fn get_all() -> (r: Vec<UploadFileInfoFiled>)
        ensures
            r@ == all_fields(),
    {
        let r = vec![
            UploadFileInfoFiled::Name,
            UploadFileInfoFiled::RelativePath,
            UploadFileInfoFiled::Size,
            UploadFileInfoFiled::MimeType,
        ];
        assert(r@ =~= all_fields());
        r
    }

    pub fn to_str_filed(&self) -> (r: &'static str)
        ensures
            r@ == canonical_name(*self),
    {
        proof {
            reveal_strlit("name");
            reveal_strlit("relative_path");
            reveal_strlit("size");
            reveal_strlit("mime_type");
        }
        match self {
            UploadFileInfoFiled::Name => "name",
            UploadFileInfoFiled::RelativePath => "relative_path",
            UploadFileInfoFiled::Size => "size",
            UploadFileInfoFiled::MimeType => "mime_type",
        }
    }
}

/// One resolved item of a batch: a file, or a placeholder standing for a
/// directory subtree that holds no file.
#[derive(Debug)]
pub struct UploadFileInfo {
    /// Unique within a batch: the entry's position in the manifest.
    pub id: u64,
    pub name: String,
    /// Path components below the parent of the supplied root, joined by `/`.
    pub relative_path: String,
    pub size: u64,
    pub mime_type: String,
    pub is_directory: bool,
}

pub struct UploadFileInfoView {
    pub id: u64,
    pub name: Seq<char>,
    pub relative_path: Seq<char>,
    pub size: u64,
    pub mime_type: Seq<char>,
    pub is_directory: bool,
}

impl View for UploadFileInfo {
    type V = UploadFileInfoView;

    open spec fn view(&self) -> UploadFileInfoView {
        UploadFileInfoView {
            id: self.id,
            name: self.name@,
            relative_path: self.relative_path@,
            size: self.size,
            mime_type: self.mime_type@,
            is_directory: self.is_directory,
        }
    }
}

impl Clone for UploadFileInfo {
    fn clone(&self) -> (r: Self)
        ensures
            r@ == self@,
    {
        UploadFileInfo {
            id: self.id,
            name: self.name.clone(),
            relative_path: self.relative_path.clone(),
            size: self.size,
            mime_type: self.mime_type.clone(),
            is_directory: self.is_directory,
        }
    }
}

/// The view of every entry of `v`.
pub open spec fn infos_view(v: Seq<UploadFileInfo>) -> Seq<UploadFileInfoView> {
    v.map_values(|e: UploadFileInfo| e@)
}

/// A value of the metadata request body.
#[derive(Debug, PartialEq)]
pub enum MetaValue {
    Text(String),
    Number(u64),
    /// A fixed field carried through as the configuration gave it.
    Json(serde_json::Value),
}

pub enum MetaValueView {
    Text(Seq<char>),
    Number(u64),
    Json(serde_json::Value),
}

impl View for MetaValue {
    type V = MetaValueView;

    open spec fn view(&self) -> MetaValueView {
        match self {
            MetaValue::Text(s) => MetaValueView::Text(s@),
            MetaValue::Number(n) => MetaValueView::Number(*n),
            MetaValue::Json(v) => MetaValueView::Json(*v),
        }
    }
}

/// The value that an entry gives to a semantic field.
pub open spec fn field_value(e: UploadFileInfoView, f: UploadFileInfoFiled) -> MetaValueView {
    match f {
        UploadFileInfoFiled::Name => MetaValueView::Text(e.name),
        UploadFileInfoFiled::RelativePath => MetaValueView::Text(e.relative_path),
        UploadFileInfoFiled::Size => MetaValueView::Number(e.size),
        UploadFileInfoFiled::MimeType => MetaValueView::Text(e.mime_type),
    }
}

impl UploadFileInfo {
    pub fn get_value_by_map(&self, filed: UploadFileInfoFiled) -> (r: MetaValue)
        ensures
            r@ == field_value(self@, filed),
    {
        match filed {
            UploadFileInfoFiled::Name => MetaValue::Text(self.name.clone()),
            UploadFileInfoFiled::RelativePath => MetaValue::Text(self.relative_path.clone()),
            UploadFileInfoFiled::Size => MetaValue::Number(self.size),
            UploadFileInfoFiled::MimeType => MetaValue::Text(self.mime_type.clone()),
        }
    }
}

} // verus!
