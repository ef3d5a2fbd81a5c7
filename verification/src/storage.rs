//! Where file contents are stored: the path of a file's content, and the
//! settings of an S3 bucket derived from the configuration.
use vstd::prelude::*;
use crate::file::File;
use crate::ids::uuid_text;
use crate::text::concat;

verus! {

/// The path of a file's content: `/<owner>/<name>`.
pub open spec fn content_path(owner_id: u128, name: Seq<char>) -> Seq<char> {
    "/"@ + uuid_text(owner_id) + "/"@ + name
}

/// The path under which the content of `file` is stored.
pub fn path_for(file: &File) -> (p: String)
    ensures
        p@ == content_path(file@.owner_id, file@.name),
{
    let owner = file.owner_id.to_uuid_string();
    let head = concat("/", owner.as_str());
    let dir = concat(head.as_str(), "/");
    concat(dir.as_str(), file.name.as_str())
}

/// How objects are addressed in the bucket.
#[derive(Clone, Copy, Debug, PartialEq, Eq, Structural)]
pub enum UrlStyle {
    /// `https://endpoint/bucket/key`.
    Path,
    /// `https://bucket.endpoint/key`.
    Vhost,
}

impl Default for UrlStyle {
    fn default() -> (s: UrlStyle)
        ensures
            s is Path,
    {
        UrlStyle::Path
    }
}

/// The storage class that new objects get.
#[derive(Clone, Copy, Debug, PartialEq, Eq, Structural)]
pub enum StorageClass {
    DeepArchive,
    Glacier,
    GlacierIr,
    IntelligentTiering,
    OnezoneIa,
    Outposts,
    ReducedRedundancy,
    Standard,
    StandardIa,
}

/// The name of a storage class, as S3 spells it.
pub open spec fn storage_class_name(c: StorageClass) -> Seq<char> {
    match c {
        StorageClass::DeepArchive => "DEEP_ARCHIVE"@,
        StorageClass::Glacier => "GLACIER"@,
        StorageClass::GlacierIr => "GLACIER_IR"@,
        StorageClass::IntelligentTiering => "INTELLIGENT_TIERING"@,
        StorageClass::OnezoneIa => "ONEZONE_IA"@,
        StorageClass::Outposts => "OUTPOSTS"@,
        StorageClass::ReducedRedundancy => "REDUCED_REDUNDANCY"@,
        StorageClass::Standard => "STANDARD"@,
        StorageClass::StandardIa => "STANDARD_IA"@,
    }
}

impl StorageClass {
    /// The name of this storage class, as S3 spells it.
    pub fn as_str(&self) -> (s: &'static str)
        ensures
            s@ == storage_class_name(*self),
    {
        match self {
            StorageClass::DeepArchive => "DEEP_ARCHIVE",
            StorageClass::Glacier => "GLACIER",
            StorageClass::GlacierIr => "GLACIER_IR",
            StorageClass::IntelligentTiering => "INTELLIGENT_TIERING",
            StorageClass::OnezoneIa => "ONEZONE_IA",
            StorageClass::Outposts => "OUTPOSTS",
            StorageClass::ReducedRedundancy => "REDUCED_REDUNDANCY",
            StorageClass::Standard => "STANDARD",
            StorageClass::StandardIa => "STANDARD_IA",
        }
    }
}

/// An access key and its secret.
#[derive(Clone, Debug)]
pub struct StaticCredentials {
    pub access_key: String,
    pub secret_key: String,
}

/// The configuration of an S3 bucket for file contents.
#[derive(Clone, Debug)]
pub struct Config {
    pub bucket: String,
    pub prefix: Option<String>,
    pub endpoint: Option<String>,
    pub region: Option<String>,
    pub url_style: UrlStyle,
    pub storage_class: Option<StorageClass>,
    pub credentials: Option<StaticCredentials>,
}

/// The settings that the S3 service is built with.
#[derive(Clone, Debug)]
pub struct S3Settings {
    pub bucket: String,
    pub root: Option<String>,
    pub endpoint: Option<String>,
    pub region: Option<String>,
    pub enable_virtual_host_style: bool,
    pub default_storage_class: Option<String>,
    pub access_key_id: Option<String>,
    pub secret_access_key: Option<String>,
}

/// The plain-value form of an optional text.
pub open spec fn opt_chars(o: Option<String>) -> Option<Seq<char>> {
    match o {
        Some(s) => Some(s@),
        None => None,
    }
}

/// The S3 settings for `cfg`: the prefix is the root, virtual-host addressing
/// is on for `Vhost`, the storage class is given by name, and static
/// credentials, when configured, become the access key pair.
pub fn s3_settings(cfg: Config) -> (s: S3Settings)
    ensures
        s.bucket@ == cfg.bucket@,
        opt_chars(s.root) == opt_chars(cfg.prefix),
        opt_chars(s.endpoint) == opt_chars(cfg.endpoint),
        opt_chars(s.region) == opt_chars(cfg.region),
        s.enable_virtual_host_style <==> cfg.url_style is Vhost,
        opt_chars(s.default_storage_class) == (match cfg.storage_class {
            Some(c) => Some(storage_class_name(c)),
            None => None::<Seq<char>>,
        }),
        opt_chars(s.access_key_id) == (match cfg.credentials {
            Some(c) => Some(c.access_key@),
            None => None::<Seq<char>>,
        }),
        opt_chars(s.secret_access_key) == (match cfg.credentials {
            Some(c) => Some(c.secret_key@),
            None => None::<Seq<char>>,
        }),
{
    let default_storage_class = match cfg.storage_class {
        Some(c) => Some(String::from_str(c.as_str())),
        None => None,
    };
    let (access_key_id, secret_access_key) = match cfg.credentials {
        Some(c) => (Some(c.access_key), Some(c.secret_key)),
        None => (None, None),
    };
    S3Settings {
        bucket: cfg.bucket,
        root: cfg.prefix,
        endpoint: cfg.endpoint,
        region: cfg.region,
        enable_virtual_host_style: matches!(cfg.url_style, UrlStyle::Vhost),
        default_storage_class,
        access_key_id,
        secret_access_key,
    }
}

} // verus!
