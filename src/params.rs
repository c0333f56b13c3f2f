use vstd::prelude::*;

use crate::entry::UploadFileInfoFiled;

verus! {

/// Destination keys that replace the canonical wire names of semantic fields;
/// where a field is listed more than once, its first mapping applies.
pub type UploadMapFiled = Vec<(UploadFileInfoFiled, String)>;

/// What a launch hands the uploader.
#[derive(Debug, Clone)]
pub struct FileProcessParams {
    pub title: String,
    pub upload: Option<FileUploadProcessParams>,
}

/// The configuration of one batch: immutable while the batch runs.
#[derive(Debug, Clone)]
pub struct FileUploadProcessParams {
    pub target_kind_key: String,
    pub target_obj_key: String,
    pub target_version: String,
    pub overwrite: bool,
    pub check_key_url: Option<String>,
    pub check_key: Option<String>,
    /// Endpoint of the metadata POST.
    pub upload_metadata_url: String,
    pub upload_metadata_rename_filed: Option<UploadMapFiled>,
    /// Merged into every request body, after the semantic fields.
    pub upload_fixed_metadata: Option<Vec<(String, serde_json::Value)>>,
    /// Sent with every metadata POST.
    pub upload_fixed_headers: Option<Vec<(String, String)>>,
}

pub open spec fn renames_view(r: Seq<(UploadFileInfoFiled, String)>) -> Seq<(UploadFileInfoFiled, Seq<char>)> {
    r.map_values(|p: (UploadFileInfoFiled, String)| (p.0, p.1@))
}

pub open spec fn fixed_view(v: Seq<(String, serde_json::Value)>) -> Seq<(Seq<char>, serde_json::Value)> {
    v.map_values(|p: (String, serde_json::Value)| (p.0@, p.1))
}

impl FileUploadProcessParams {
    /// The rename mapping, if one is configured.
    pub open spec fn renames(&self) -> Option<Seq<(UploadFileInfoFiled, Seq<char>)>> {
        match self.upload_metadata_rename_filed {
            Some(r) => Some(renames_view(r@)),
            None => None,
        }
    }

    /// The fixed metadata fields, in the order in which they are merged.
    pub open spec fn fixed_fields(&self) -> Seq<(Seq<char>, serde_json::Value)> {
        match self.upload_fixed_metadata {
            Some(v) => fixed_view(v@),
            None => seq![],
        }
    }
}

/// The title that marks a demonstration launch, whose uploads are simulated.
pub open spec fn demo_title() -> Seq<char> {
    "请按使用文档调用（以下为示例）"@
}

impl FileProcessParams {
    /// Whether this launch is a demonstration.
    pub fn is_demo(&self) -> (r: bool)
        ensures
            r == (self.title@ == demo_title()),
    {
        proof {
            reveal_strlit("请按使用文档调用（以下为示例）");
        }
        let demo = "请按使用文档调用（以下为示例）".to_owned();
        self.title.eq(&demo)
    }
}

/// The request that registers the check key: `url?check_key=key`, sent only
/// where the launch targets this application's version and names both a URL
/// and a key.
pub fn check_key_request(
    target_version: &String,
    app_version: &String,
    check_key_url: &Option<String>,
    check_key: &Option<String>,
) -> (r: Option<String>)
    ensures
        r is Some <==> target_version@ == app_version@ && check_key_url is Some && check_key is Some,
        r matches Some(u) ==> u@ == check_key_url->Some_0@ + "?check_key="@ + check_key->Some_0@,
{
    if !target_version.eq(app_version) {
        return None;
    }
    match (check_key_url, check_key) {
        (Some(url), Some(key)) => {
            proof {
                reveal_strlit("?check_key=");
            }
            let mut u = url.clone();
            u.append("?check_key=");
            u.append(key.as_str());
            Some(u)
        },
        _ => None,
    }
}

} // verus!
