use vstd::prelude::*;

verus! {

/// A file to upload: its name and its text. A backend never changes it.
pub struct LocalFile {
    pub name: String,
    pub content: String,
}

impl LocalFile {
    pub fn new(name: String, content: String) -> (r: LocalFile)
        ensures
            r.name == name,
            r.content == content,
    {
        LocalFile { name, content }
    }
}

/// The files of an upload as (name, content) pairs of character sequences.
pub open spec fn local_files_view(files: Seq<LocalFile>) -> Seq<(Seq<char>, Seq<char>)> {
    files.map_values(|f: LocalFile| (f.name@, f.content@))
}

/// What is known of a remote file's text: `truncated` marks an excerpt,
/// `value` is `None` while the text has not been fetched.
pub struct PasteContents {
    pub truncated: bool,
    pub value: Option<String>,
}

impl PasteContents {
    /// Whether the text must still be fetched from the file's raw URL: it is
    /// missing, or only an excerpt.
    pub fn needs_fetch(&self) -> (r: bool)
        ensures
            r == (self.truncated || self.value is None),
    {
        self.truncated || self.value.is_none()
    }

    pub fn unresolved() -> (r: PasteContents)
        ensures
            !r.truncated,
            r.value is None,
    {
        PasteContents { truncated: false, value: None }
    }
}

/// One file of a fetched paste.
pub struct RemoteFile {
    pub name: String,
    pub id: String,
    pub backend: String,
    pub html_url: String,
    pub raw_url: String,
    pub contents: PasteContents,
}

/// A fetched paste. `files` keeps the order in which the backend's adapter
/// lists them (gist files come in ascending order of name), so an index into
/// it is stable.
pub struct Info {
    pub id: String,
    pub name: Option<String>,
    pub url: String,
    pub raw_url: Option<String>,
    pub raw: bool,
    pub files: Vec<RemoteFile>,
    pub selected_index: Option<usize>,
    pub contents: PasteContents,
    pub backend: String,
}

/// A URL of a paste: to its page, to its raw text, or a raw URL whose text was
/// already downloaded while the URL was being worked out.
pub enum PasteUrl {
    Html { name: Option<String>, url: String },
    Raw { name: Option<String>, url: String },
    Downloaded { url: String, file_name: String, content: String },
}

impl PasteUrl {
    pub open spec fn url_view(&self) -> Seq<char> {
        match self {
            PasteUrl::Html { url, .. } => url@,
            PasteUrl::Raw { url, .. } => url@,
            PasteUrl::Downloaded { url, .. } => url@,
        }
    }

    pub fn url(&self) -> (r: &str)
        ensures
            r@ == self.url_view(),
    {
        match self {
            PasteUrl::Html { url, .. } => url.as_str(),
            PasteUrl::Raw { url, .. } => url.as_str(),
            PasteUrl::Downloaded { url, .. } => url.as_str(),
        }
    }
}

pub enum PasteUrlModel {
    Html(Option<Seq<char>>, Seq<char>),
    Raw(Option<Seq<char>>, Seq<char>),
    Downloaded(Seq<char>, Seq<char>, Seq<char>),
}

pub open spec fn opt_name(o: Option<String>) -> Option<Seq<char>> {
    match o {
        Some(s) => Some(s@),
        None => None,
    }
}

impl View for PasteUrl {
    type V = PasteUrlModel;

    open spec fn view(&self) -> PasteUrlModel {
        match self {
            PasteUrl::Html { name, url } => PasteUrlModel::Html(opt_name(*name), url@),
            PasteUrl::Raw { name, url } => PasteUrlModel::Raw(opt_name(*name), url@),
            PasteUrl::Downloaded { url, file_name, content } => PasteUrlModel::Downloaded(
                url@,
                file_name@,
                content@,
            ),
        }
    }
}

pub open spec fn paste_urls_view(v: Seq<PasteUrl>) -> Seq<PasteUrlModel> {
    v.map_values(|u: PasteUrl| u@)
}

/// The one request that an upload makes: where it goes and what it carries.
/// `json` marks a JSON body.
pub struct UploadRequest {
    pub url: String,
    pub body: String,
    pub json: bool,
}

pub struct RemoteFileModel {
    pub name: Seq<char>,
    pub id: Seq<char>,
    pub backend: Seq<char>,
    pub html_url: Seq<char>,
    pub raw_url: Seq<char>,
    pub truncated: bool,
    pub value: Option<Seq<char>>,
}

impl View for RemoteFile {
    type V = RemoteFileModel;

    open spec fn view(&self) -> RemoteFileModel {
        RemoteFileModel {
            name: self.name@,
            id: self.id@,
            backend: self.backend@,
            html_url: self.html_url@,
            raw_url: self.raw_url@,
            truncated: self.contents.truncated,
            value: opt_name(self.contents.value),
        }
    }
}

pub open spec fn remote_files_view(v: Seq<RemoteFile>) -> Seq<RemoteFileModel> {
    v.map_values(|f: RemoteFile| f@)
}

} // verus!
