use vstd::prelude::*;

use crate::error::{BinFeature, BinsError, ErrorModel};
use crate::paste::{
    paste_urls_view, Info, LocalFile, PasteContents, PasteUrl, PasteUrlModel, RemoteFile,
    RemoteFileModel,
    UploadRequest,
};
use crate::range::{lemma_split_nonempty, split_on, split_spec};
use crate::wire::{
    json_array_items, json_array_texts, json_member_str, json_member_text, opt_text,
    url_path_segments, url_segments,
};

verus! {

pub open spec fn hastebin_html_url(id: Seq<char>) -> Seq<char> {
    "https://hastebin.com/"@ + id
}

pub open spec fn hastebin_raw_url(id: Seq<char>) -> Seq<char> {
    "https://hastebin.com/raw/"@ + id
}

/// The id in a hastebin URL: its last path segment up to the first `.`.
pub open spec fn hastebin_id(url: Seq<char>) -> Option<Seq<char>> {
    match url_segments(url) {
        Some(segs) => if segs.len() > 0 {
            Some(split_spec(segs.last(), '.')[0])
        } else {
            None
        },
        None => None,
    }
}

/// One entry of a multi-file index: its name and URL.
pub open spec fn index_entry(item: Seq<char>) -> Option<(Seq<char>, Seq<char>)> {
    match (json_member_text(item, "name"@), json_member_text(item, "url"@)) {
        (Some(n), Some(u)) => Some((n, u)),
        _ => None,
    }
}

/// The entries when `content` is an index of files: a JSON array of objects
/// each with a string `name` and `url`.
pub open spec fn hastebin_index(content: Seq<char>) -> Option<Seq<(Seq<char>, Seq<char>)>> {
    match json_array_texts(content) {
        Some(items) => if forall|k: int| 0 <= k < items.len() ==> (#[trigger] index_entry(items[k])) is Some {
            Some(items.map_values(|t: Seq<char>| index_entry(t)->Some_0))
        } else {
            None
        },
        None => None,
    }
}

/// The raw URLs of a paste from what its raw URL served: one per entry of an
/// index, or else the served text itself.
pub open spec fn hastebin_raw_urls(id: Seq<char>, content: Seq<char>) -> Result<Seq<PasteUrlModel>, ErrorModel> {
    match hastebin_index(content) {
        Some(es) => if forall|k: int| 0 <= k < es.len() ==> (#[trigger] hastebin_id(es[k].1)) is Some {
            Ok(
                Seq::new(
                    es.len(),
                    |k: int| PasteUrlModel::Raw(Some(es[k].0), hastebin_raw_url(hastebin_id(es[k].1)->Some_0)),
                ),
            )
        } else {
            Err(ErrorModel::InvalidResponse)
        },
        None => Ok(seq![PasteUrlModel::Downloaded(hastebin_raw_url(id), id, content)]),
    }
}

/// What an upload's answer means: the page of the new paste, the service's
/// own refusal, or an answer of unknown shape.
pub open spec fn hastebin_upload_result(status_ok: bool, body: Seq<char>) -> Result<Seq<char>, ErrorModel> {
    if !status_ok {
        Err(ErrorModel::RemoteRejected(body))
    } else {
        match json_member_text(body, "key"@) {
            Some(k) => Ok(hastebin_html_url(k)),
            None => match json_member_text(body, "error"@) {
                Some(e) => Err(ErrorModel::RemoteRejected(e)),
                None => Err(ErrorModel::InvalidResponse),
            },
        }
    }
}

pub open spec fn text_result(r: Result<String, BinsError>) -> Result<Seq<char>, ErrorModel> {
    match r {
        Ok(s) => Ok(s@),
        Err(e) => Err(e@),
    }
}

pub open spec fn urls_result(r: Result<Vec<PasteUrl>, BinsError>) -> Result<Seq<PasteUrlModel>, ErrorModel> {
    match r {
        Ok(v) => Ok(paste_urls_view(v@)),
        Err(e) => Err(e@),
    }
}

/// The hastebin.com backend: single anonymous public uploads, one file per paste.
pub struct Hastebin {}

impl Hastebin {
    pub fn new() -> (r: Hastebin) {
        Hastebin {  }
    }

    pub fn name(&self) -> (r: &'static str)
        ensures
            r@ == "hastebin"@,
    {
        "hastebin"
    }

    pub fn html_host(&self) -> (r: &'static str)
        ensures
            r@ == "hastebin.com"@,
    {
        "hastebin.com"
    }

    pub fn raw_host(&self) -> (r: &'static str)
        ensures
            r@ == "hastebin.com"@,
    {
        "hastebin.com"
    }

    /// The flags hastebin accepts: public and anonymous pastes only.
    pub fn features(&self) -> (r: Vec<BinFeature>)
        ensures
            r@ == seq![BinFeature::Public, BinFeature::Anonymous],
    {
        let r = vec![BinFeature::Public, BinFeature::Anonymous];
        assert(r@ =~= seq![BinFeature::Public, BinFeature::Anonymous]);
        r
    }

    /// Hastebin uploads one file at a time.
    pub fn capabilities(&self) -> (r: Vec<BinFeature>)
        ensures
            r@ == seq![BinFeature::SingleUpload],
    {
        let r = vec![BinFeature::SingleUpload];
        assert(r@ =~= seq![BinFeature::SingleUpload]);
        r
    }

    pub fn format_raw_url(&self, id: &str) -> (r: String)
        ensures
            r@ == hastebin_raw_url(id@),
    {
        String::from_str("https://hastebin.com/raw/").concat(id)
    }

    pub fn format_html_url(&self, id: &str) -> (r: String)
        ensures
            r@ == hastebin_html_url(id@),
    {
        String::from_str("https://hastebin.com/").concat(id)
    }

    fn id_from_url(&self, url: &str) -> (r: Option<String>)
        ensures
            opt_text(r) == hastebin_id(url@),
    {
        match url_path_segments(url) {
            None => None,
            Some(segs) => {
                let last = &segs[segs.len() - 1];
                proof {
                    assert(segs@.map_values(|s: String| s@).last() == last@);
                    lemma_split_nonempty(last@, '.');
                }
                let parts = split_on(last.as_str(), '.');
                Some(String::from_str(parts[0]))
            },
        }
    }

    pub fn id_from_html_url(&self, url: &str) -> (r: Option<String>)
        ensures
            opt_text(r) == hastebin_id(url@),
    {
        self.id_from_url(url)
    }

    pub fn id_from_raw_url(&self, url: &str) -> (r: Option<String>)
        ensures
            opt_text(r) == hastebin_id(url@),
    {
        self.id_from_url(url)
    }

    /// The page of a paste; a hastebin paste has one page whatever its files.
    pub fn create_html_url(&self, id: &str) -> (r: Vec<PasteUrl>)
        ensures
            paste_urls_view(r@) == seq![PasteUrlModel::Html(None, hastebin_html_url(id@))],
    {
        let r = vec![PasteUrl::Html { name: None, url: self.format_html_url(id) }];
        assert(paste_urls_view(r@) =~= seq![PasteUrlModel::Html(None, hastebin_html_url(id@))]);
        r
    }

    /// The raw URLs of paste `id`, given `content`, what its raw URL served.
    pub fn create_raw_url(&self, id: &str, content: &str) -> (r: Result<Vec<PasteUrl>, BinsError>)
        ensures
            urls_result(r) == hastebin_raw_urls(id@, content@),
    {
        let downloaded = PasteUrl::Downloaded {
            url: self.format_raw_url(id),
            file_name: String::from_str(id),
            content: String::from_str(content),
        };
        let items = match json_array_items(content) {
            None => {
                let r = vec![downloaded];
                assert(paste_urls_view(r@) =~= hastebin_raw_urls(id@, content@)->Ok_0);
                return Ok(r);
            },
            Some(items) => items,
        };
        let ghost its = json_array_texts(content@)->Some_0;
        let mut entries: Vec<(String, String)> = Vec::new();
        let mut k: usize = 0;
        while k < items.len()
            invariant
                downloaded@ == PasteUrlModel::Downloaded(hastebin_raw_url(id@), id@, content@),
                its == json_array_texts(content@)->Some_0,
                items@.len() == its.len(),
                forall|j: int| 0 <= j < its.len() ==> (#[trigger] items@[j])@ == its[j],
                k <= items@.len(),
                entries@.len() == k,
                forall|j: int|
                    0 <= j < k ==> index_entry(its[j]) == Some(
                        ((#[trigger] entries@[j]).0@, entries@[j].1@),
                    ),
            decreases items@.len() - k,
        {
            let name = json_member_str(items[k].as_str(), "name");
            let url = json_member_str(items[k].as_str(), "url");
            match (name, url) {
                (Some(n), Some(u)) => {
                    entries.push((n, u));
                },
                _ => {
                    proof {
                        assert(index_entry(its[k as int]) is None);
                        assert(hastebin_index(content@) is None);
                    }
                    let r = vec![downloaded];
                    assert(paste_urls_view(r@) =~= hastebin_raw_urls(id@, content@)->Ok_0);
                    return Ok(r);
                },
            }
            k = k + 1;
        }
        assert forall|j: int| 0 <= j < its.len() implies (#[trigger] index_entry(its[j])) is Some by {
            assert(index_entry(its[j]) == Some((entries@[j].0@, entries@[j].1@)));
        }
        assert(hastebin_index(content@) is Some);
        let ghost es = hastebin_index(content@)->Some_0;
        assert(es.len() == entries@.len());
        assert forall|j: int| 0 <= j < es.len() implies es[j] == ((#[trigger] entries@[j]).0@, entries@[j].1@) by {
            assert(index_entry(its[j]) == Some((entries@[j].0@, entries@[j].1@)));
        }
        let mut out: Vec<PasteUrl> = Vec::new();
        let mut k: usize = 0;
        while k < entries.len()
            invariant
                hastebin_index(content@) is Some,
                es == hastebin_index(content@)->Some_0,
                es.len() == entries@.len(),
                forall|j: int| 0 <= j < es.len() ==> es[j] == ((#[trigger] entries@[j]).0@, entries@[j].1@),
                k <= entries@.len(),
                out@.len() == k,
                forall|j: int| 0 <= j < k ==> hastebin_id(es[j].1) is Some,
                forall|j: int|
                    0 <= j < k ==> (#[trigger] out@[j])@ == PasteUrlModel::Raw(
                        Some(es[j].0),
                        hastebin_raw_url(hastebin_id(es[j].1)->Some_0),
                    ),
            decreases entries@.len() - k,
        {
            match self.id_from_url(entries[k].1.as_str()) {
                None => {
                    assert(hastebin_id(es[k as int].1) is None);
                    return Err(BinsError::InvalidResponse);
                },
                Some(i) => {
                    out.push(PasteUrl::Raw { name: Some(entries[k].0.clone()), url: self.format_raw_url(i.as_str()) });
                },
            }
            k = k + 1;
        }
        assert(paste_urls_view(out@) =~= hastebin_raw_urls(id@, content@)->Ok_0);
        Ok(out)
    }

    /// The request that uploads one file: its text is the whole body.
    pub fn upload_request(&self, file: &LocalFile) -> (r: UploadRequest)
        ensures
            r.url@ == "https://hastebin.com/documents"@,
            r.body@ == file.content@,
            !r.json,
    {
        UploadRequest {
            url: String::from_str("https://hastebin.com/documents"),
            body: file.content.clone(),
            json: false,
        }
    }

    /// Reads the answer to an upload; `status_ok` tells whether its HTTP
    /// status was a success.
    pub fn read_upload_response(&self, status_ok: bool, body: &str) -> (r: Result<String, BinsError>)
        ensures
            text_result(r) == hastebin_upload_result(status_ok, body@),
    {
        if !status_ok {
            return Err(BinsError::RemoteRejected(String::from_str(body)));
        }
        match json_member_str(body, "key") {
            Some(k) => Ok(self.format_html_url(k.as_str())),
            None => match json_member_str(body, "error") {
                Some(e) => Err(BinsError::RemoteRejected(e)),
                None => Err(BinsError::InvalidResponse),
            },
        }
    }

    /// The info of paste `id`, one file whose text is `content`, what the
    /// paste's raw URL served.
    pub fn produce_info(&self, id: &str, content: &str, raw: bool) -> (r: Info)
        ensures
            hastebin_info_matches(r, id@, content@, raw),
    {
        let file = RemoteFile {
            name: String::from_str(id),
            id: String::from_str(id),
            backend: String::from_str("hastebin"),
            html_url: self.format_html_url(id),
            raw_url: self.format_raw_url(id),
            contents: PasteContents { truncated: false, value: Some(String::from_str(content)) },
        };
        Info {
            id: String::from_str(id),
            name: None,
            url: self.format_html_url(id),
            raw_url: Some(self.format_raw_url(id)),
            raw,
            files: vec![file],
            selected_index: None,
            contents: PasteContents::unresolved(),
            backend: String::from_str("hastebin"),
        }
    }
}

pub open spec fn hastebin_info_matches(info: Info, id: Seq<char>, content: Seq<char>, raw: bool) -> bool {
    &&& info.id@ == id
    &&& info.name is None
    &&& info.url@ == hastebin_html_url(id)
    &&& opt_text(info.raw_url) == Some(hastebin_raw_url(id))
    &&& info.raw == raw
    &&& info.files@.len() == 1
    &&& info.files@[0]@ == (RemoteFileModel {
        name: id,
        id: id,
        backend: "hastebin"@,
        html_url: hastebin_html_url(id),
        raw_url: hastebin_raw_url(id),
        truncated: false,
        value: Some(content),
    })
    &&& info.selected_index is None
    &&& !info.contents.truncated
    &&& info.contents.value is None
    &&& info.backend@ == "hastebin"@
}

} // verus!
