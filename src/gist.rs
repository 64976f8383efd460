use vstd::prelude::*;

use crate::error::{BinFeature, BinsError, ErrorModel};
use crate::hastebin::text_result;
use crate::paste::{
    local_files_view, remote_files_view, Info, LocalFile, PasteContents, RemoteFile,
    RemoteFileModel, UploadRequest,
};
use crate::wire::{
    json_member_bool, json_member_entries, json_member_flag, json_member_str, json_member_text,
    json_object_entries, json_quote, json_quoted, lower_of, lowercase, opt_text, texts_view,
    string_from_chars, url_path_segments, url_segments,
};

verus! {

pub open spec fn gist_api_url(id: Seq<char>) -> Seq<char> {
    "https://api.github.com/gists/"@ + id
}

/// The id of a gist: the last segment of its URL's path.
pub open spec fn gist_id(url: Seq<char>) -> Option<Seq<char>> {
    match url_segments(url) {
        Some(segs) => if segs.len() > 0 {
            Some(segs.last())
        } else {
            None
        },
        None => None,
    }
}

/// `"name":{"content":"text"}` for one file.
pub open spec fn gist_file_json(f: (Seq<char>, Seq<char>)) -> Seq<char> {
    json_quoted(f.0) + ":{\"content\":"@ + json_quoted(f.1) + "}"@
}

/// The files of an upload, comma-separated, in the order given.
pub open spec fn gist_files_json(fs: Seq<(Seq<char>, Seq<char>)>) -> Seq<char>
    decreases fs.len(),
{
    if fs.len() == 0 {
        Seq::empty()
    } else if fs.len() == 1 {
        gist_file_json(fs[0])
    } else {
        gist_files_json(fs.drop_last()) + ","@ + gist_file_json(fs.last())
    }
}

pub open spec fn gist_upload_head(public: bool) -> Seq<char> {
    "{\"description\":\"\",\"public\":"@ + (if public {
        "true"@
    } else {
        "false"@
    }) + ",\"files\":{"@
}

/// The JSON body that creates a gist holding `fs`.
pub open spec fn gist_upload_body(fs: Seq<(Seq<char>, Seq<char>)>, public: bool) -> Seq<char> {
    gist_upload_head(public) + gist_files_json(fs) + "}}"@
}

pub open spec fn gist_upload_result(created: bool, body: Seq<char>) -> Result<Seq<char>, ErrorModel> {
    if !created {
        Err(ErrorModel::RemoteRejected(body))
    } else {
        match json_member_text(body, "html_url"@) {
            Some(u) => Ok(u),
            None => Err(ErrorModel::InvalidResponse),
        }
    }
}

pub open spec fn is_anchor_char(c: char) -> bool {
    ('a' <= c && c <= 'z') || ('0' <= c && c <= '9') || c == '-' || c == '_'
}

/// A file name as GitHub writes it in a page anchor.
pub open spec fn gist_anchor(name: Seq<char>) -> Seq<char> {
    lower_of(name).map_values(|c: char| if is_anchor_char(c) { c } else { '-' })
}

pub open spec fn gist_file_url(html_url: Seq<char>, name: Seq<char>) -> Seq<char> {
    html_url + "#file-"@ + gist_anchor(name)
}

/// One file of a fetched gist, from its name and its JSON object.
pub open spec fn gist_remote_file(html_url: Seq<char>, name: Seq<char>, obj: Seq<char>) -> Result<
    RemoteFileModel,
    ErrorModel,
> {
    match (
        json_member_text(obj, "raw_url"@),
        json_member_text(obj, "content"@),
        json_member_bool(obj, "truncated"@),
    ) {
        (Some(raw), Some(content), Some(truncated)) => Ok(
            RemoteFileModel {
                name: name,
                id: name,
                backend: "gist"@,
                html_url: gist_file_url(html_url, name),
                raw_url: raw,
                truncated: truncated,
                value: Some(content),
            },
        ),
        _ => Err(ErrorModel::InvalidResponse),
    }
}

/// The files of a fetched gist, in the order of `es`, or the error of the
/// first bad one.
pub open spec fn gist_remote_files(html_url: Seq<char>, es: Seq<(Seq<char>, Seq<char>)>) -> Result<
    Seq<RemoteFileModel>,
    ErrorModel,
>
    decreases es.len(),
{
    if es.len() == 0 {
        Ok(Seq::empty())
    } else {
        match gist_remote_files(html_url, es.drop_last()) {
            Err(e) => Err(e),
            Ok(v) => match gist_remote_file(html_url, es.last().0, es.last().1) {
                Err(e) => Err(e),
                Ok(f) => Ok(v.push(f)),
            },
        }
    }
}

/// The id, page URL and files of the gist the API described in `body`.
pub open spec fn gist_parts(body: Seq<char>) -> Result<(Seq<char>, Seq<char>, Seq<RemoteFileModel>), ErrorModel> {
    match (
        json_member_text(body, "html_url"@),
        json_member_text(body, "id"@),
        json_object_entries(body, "files"@),
    ) {
        (Some(html), Some(id), Some(es)) => match gist_remote_files(html, es) {
            Ok(fs) => Ok((id, html, fs)),
            Err(e) => Err(e),
        },
        _ => Err(ErrorModel::InvalidResponse),
    }
}

/// What a gist's info holds, given the URL asked for, whether raw contents
/// were asked for, and the API's description of the gist.
pub open spec fn gist_info_matches(info: Info, url: Seq<char>, raw: bool, body: Seq<char>) -> bool {
    &&& gist_parts(body) is Ok
    &&& info.id@ == gist_parts(body)->Ok_0.0
    &&& remote_files_view(info.files@) == gist_parts(body)->Ok_0.2
    &&& opt_text(info.name) == json_member_text(body, "description"@)
    &&& info.url@ == url
    &&& info.raw_url is None
    &&& info.raw == raw
    &&& info.selected_index is None
    &&& !info.contents.truncated
    &&& info.contents.value is None
    &&& info.backend@ == "gist"@
}

pub open spec fn gist_raw_urls(urls: Seq<Seq<char>>, body: Seq<char>) -> Result<Seq<Seq<char>>, ErrorModel> {
    if urls.len() != 1 {
        Err(ErrorModel::InternalInvariant("multiple gist urls given"@))
    } else {
        match gist_parts(body) {
            Ok(p) => Ok(p.2.map_values(|f: RemoteFileModel| f.raw_url)),
            Err(e) => Err(e),
        }
    }
}

/// The gist.github.com backend: single and multi-file uploads, public or
/// secret, anonymous or signed in.
pub struct Gist {}

impl Gist {
    pub fn new() -> (r: Gist) {
        Gist {  }
    }

    pub fn name(&self) -> (r: &'static str)
        ensures
            r@ == "gist"@,
    {
        "gist"
    }

    pub fn domain(&self) -> (r: &'static str)
        ensures
            r@ == "gist.github.com"@,
    {
        "gist.github.com"
    }

    /// The flags GitHub gists accept: public or secret, anonymous or signed in.
    pub fn features(&self) -> (r: Vec<BinFeature>)
        ensures
            r@ == seq![
                BinFeature::Public,
                BinFeature::Private,
                BinFeature::Anonymous,
                BinFeature::Authenticated,
            ],
    {
        let r = vec![
            BinFeature::Public,
            BinFeature::Private,
            BinFeature::Anonymous,
            BinFeature::Authenticated,
        ];
        assert(r@ =~= seq![
            BinFeature::Public,
            BinFeature::Private,
            BinFeature::Anonymous,
            BinFeature::Authenticated,
        ]);
        r
    }

    /// A gist holds one file or many.
    pub fn capabilities(&self) -> (r: Vec<BinFeature>)
        ensures
            r@ == seq![BinFeature::SingleUpload, BinFeature::BatchUpload],
    {
        let r = vec![BinFeature::SingleUpload, BinFeature::BatchUpload];
        assert(r@ =~= seq![BinFeature::SingleUpload, BinFeature::BatchUpload]);
        r
    }

    /// A gist URL has one path segment (the id) or two (owner and id).
    pub fn verify_url(&self, url: &str) -> (r: bool)
        ensures
            r == (url_segments(url@) matches Some(segs) && (segs.len() == 1 || segs.len() == 2)),
    {
        match url_path_segments(url) {
            Some(segs) => segs.len() == 1 || segs.len() == 2,
            None => false,
        }
    }

    pub fn id_from_url(&self, url: &str) -> (r: Option<String>)
        ensures
            opt_text(r) == gist_id(url@),
    {
        match url_path_segments(url) {
            Some(segs) => {
                let last = segs[segs.len() - 1].clone();
                assert(segs@.map_values(|s: String| s@).last() == last@);
                Some(last)
            },
            None => None,
        }
    }

    /// The API URL that describes gist `id`.
    pub fn api_url(&self, id: &str) -> (r: String)
        ensures
            r@ == gist_api_url(id@),
    {
        String::from_str("https://api.github.com/gists/").concat(id)
    }

    /// The one request that creates a gist of all `files`, in their order.
    pub fn upload_request(&self, files: &Vec<LocalFile>, private: bool) -> (r: UploadRequest)
        ensures
            r.url@ == "https://api.github.com/gists"@,
            r.body@ == gist_upload_body(local_files_view(files@), !private),
            r.json,
    {
        let ghost fs = local_files_view(files@);
        let mut body = String::from_str("{\"description\":\"\",\"public\":");
        if private {
            body.append("false");
        } else {
            body.append("true");
        }
        body.append(",\"files\":{");
        let mut k: usize = 0;
        assert(fs.subrange(0, 0) =~= Seq::<(Seq<char>, Seq<char>)>::empty());
        assert(body@ =~= gist_upload_head(!private) + gist_files_json(fs.subrange(0, 0)));
        while k < files.len()
            invariant
                fs == local_files_view(files@),
                k <= files@.len(),
                body@ == gist_upload_head(!private) + gist_files_json(fs.subrange(0, k as int)),
            decreases files@.len() - k,
        {
            let ghost before = body@;
            if k > 0 {
                body.append(",");
            }
            let name = json_quote(files[k].name.as_str());
            let content = json_quote(files[k].content.as_str());
            body.append(name.as_str());
            body.append(":{\"content\":");
            body.append(content.as_str());
            body.append("}");
            proof {
                let pre = fs.subrange(0, k as int);
                let next = fs.subrange(0, k as int + 1);
                assert(next.drop_last() =~= pre);
                assert(next.last() == fs[k as int]);
                assert(fs[k as int] == (files@[k as int].name@, files@[k as int].content@));
                if k == 0 {
                    assert(body@ =~= before + gist_file_json(fs[k as int]));
                } else {
                    assert(body@ =~= before + ","@ + gist_file_json(fs[k as int]));
                }
                assert(body@ =~= gist_upload_head(!private) + gist_files_json(next));
            }
            k = k + 1;
        }
        body.append("}}");
        proof {
            assert(fs.subrange(0, k as int) =~= fs);
            assert(body@ =~= gist_upload_body(fs, !private));
        }
        UploadRequest { url: String::from_str("https://api.github.com/gists"), body, json: true }
    }

    /// Reads the answer to an upload; `created` tells whether its HTTP status
    /// was 201 Created.
    pub fn read_upload_response(&self, created: bool, body: &str) -> (r: Result<String, BinsError>)
        ensures
            text_result(r) == gist_upload_result(created, body@),
    {
        if !created {
            return Err(BinsError::RemoteRejected(String::from_str(body)));
        }
        match json_member_str(body, "html_url") {
            Some(u) => Ok(u),
            None => Err(BinsError::InvalidResponse),
        }
    }

    /// The URL of one file on the gist's page.
    pub fn file_html_url(html_url: &str, name: &str) -> (r: String)
        ensures
            r@ == gist_file_url(html_url@, name@),
    {
        let lower = lowercase(name);
        let n = lower.as_str().unicode_len();
        let mut out: Vec<char> = Vec::new();
        let mut i: usize = 0;
        while i < n
            invariant
                n == lower@.len(),
                i <= n,
                out@.len() == i,
                forall|j: int|
                    0 <= j < i ==> #[trigger] out@[j] == (if is_anchor_char(lower@[j]) {
                        lower@[j]
                    } else {
                        '-'
                    }),
            decreases n - i,
        {
            let c = lower.as_str().get_char(i);
            if ('a' <= c && c <= 'z') || ('0' <= c && c <= '9') || c == '-' || c == '_' {
                out.push(c);
            } else {
                out.push('-');
            }
            i = i + 1;
        }
        let anchor = string_from_chars(&out);
        assert(anchor@ =~= gist_anchor(name@));
        String::from_str(html_url).concat("#file-").concat(anchor.as_str())
    }

    fn remote_file(html_url: &str, name: &str, obj: &str) -> (r: Result<RemoteFile, BinsError>)
        ensures
            file_result(r) == gist_remote_file(html_url@, name@, obj@),
    {
        let raw_url = json_member_str(obj, "raw_url");
        let content = json_member_str(obj, "content");
        let truncated = json_member_flag(obj, "truncated");
        match (raw_url, content, truncated) {
            (Some(raw_url), Some(content), Some(truncated)) => Ok(
                RemoteFile {
                    name: String::from_str(name),
                    id: String::from_str(name),
                    backend: String::from_str("gist"),
                    html_url: Gist::file_html_url(html_url, name),
                    raw_url,
                    contents: PasteContents { truncated, value: Some(content) },
                },
            ),
            _ => Err(BinsError::InvalidResponse),
        }
    }

    fn remote_files(html_url: &str, entries: &Vec<(String, String)>) -> (r: Result<Vec<RemoteFile>, BinsError>)
        ensures
            files_result(r) == gist_remote_files(html_url@, pairs_view(entries@)),
    {
        let ghost es = pairs_view(entries@);
        let mut out: Vec<RemoteFile> = Vec::new();
        let mut k: usize = 0;
        assert(es.subrange(0, 0) =~= Seq::<(Seq<char>, Seq<char>)>::empty());
        assert(remote_files_view(out@) =~= Seq::<RemoteFileModel>::empty());
        while k < entries.len()
            invariant
                es == pairs_view(entries@),
                k <= entries@.len(),
                gist_remote_files(html_url@, es.subrange(0, k as int)) == Ok::<Seq<RemoteFileModel>, ErrorModel>(
                    remote_files_view(out@),
                ),
            decreases entries@.len() - k,
        {
            let f = Gist::remote_file(html_url, entries[k].0.as_str(), entries[k].1.as_str());
            proof {
                let next = es.subrange(0, k as int + 1);
                assert(next.drop_last() =~= es.subrange(0, k as int));
                assert(next.last() == (entries@[k as int].0@, entries@[k as int].1@));
            }
            match f {
                Ok(f) => {
                    out.push(f);
                    assert(remote_files_view(out@) =~= gist_remote_files(
                        html_url@,
                        es.subrange(0, k as int),
                    )->Ok_0.push(f@));
                },
                Err(e) => {
                    proof {
                        lemma_files_prefix_err(html_url@, es, k as int + 1);
                    }
                    return Err(e);
                },
            }
            k = k + 1;
        }
        assert(es.subrange(0, k as int) =~= es);
        Ok(out)
    }

    /// Builds the info of the gist at `url` from the API's description of
    /// it, `body`.
    pub fn produce_info(&self, url: &str, body: &str) -> (r: Result<Info, BinsError>)
        ensures
            match r {
                Ok(info) => gist_info_matches(info, url@, false, body@),
                Err(e) => gist_parts(body@) == Err::<(Seq<char>, Seq<char>, Seq<RemoteFileModel>), ErrorModel>(e@),
            },
    {
        let html_url = json_member_str(body, "html_url");
        let id = json_member_str(body, "id");
        let entries = json_member_entries(body, "files");
        match (html_url, id, entries) {
            (Some(html_url), Some(id), Some(entries)) => {
                let files = Gist::remote_files(html_url.as_str(), &entries)?;
                Ok(
                    Info {
                        id,
                        name: json_member_str(body, "description"),
                        url: String::from_str(url),
                        raw_url: None,
                        raw: false,
                        files,
                        selected_index: None,
                        contents: PasteContents::unresolved(),
                        backend: String::from_str("gist"),
                    },
                )
            },
            _ => Err(BinsError::InvalidResponse),
        }
    }

    /// As `produce_info`, with the files' contents marked as raw text.
    pub fn produce_raw_info(&self, url: &str, body: &str) -> (r: Result<Info, BinsError>)
        ensures
            match r {
                Ok(info) => gist_info_matches(info, url@, true, body@),
                Err(e) => gist_parts(body@) == Err::<(Seq<char>, Seq<char>, Seq<RemoteFileModel>), ErrorModel>(e@),
            },
    {
        let mut info = self.produce_info(url, body)?;
        info.raw = true;
        Ok(info)
    }

    /// The raw infos of several gists: `urls[k]` described by `bodies[k]`.
    /// Stops at the first gist whose description is unusable.
    pub fn produce_raw_info_all(&self, urls: &Vec<String>, bodies: &Vec<String>) -> (r: Result<Vec<Info>, BinsError>)
        requires
            urls@.len() == bodies@.len(),
        ensures
            match r {
                Ok(v) => v@.len() == urls@.len() && forall|k: int|
                    0 <= k < v@.len() ==> gist_info_matches(#[trigger] v@[k], urls@[k]@, true, bodies@[k]@),
                Err(e) => exists|k: int|
                    0 <= k < bodies@.len() && gist_parts(#[trigger] bodies@[k]@) == Err::<
                        (Seq<char>, Seq<char>, Seq<RemoteFileModel>),
                        ErrorModel,
                    >(e@) && forall|j: int| 0 <= j < k ==> gist_parts(#[trigger] bodies@[j]@) is Ok,
            },
    {
        let mut out: Vec<Info> = Vec::new();
        let mut k: usize = 0;
        while k < urls.len()
            invariant
                urls@.len() == bodies@.len(),
                k <= urls@.len(),
                out@.len() == k,
                forall|j: int| 0 <= j < k ==> gist_info_matches(#[trigger] out@[j], urls@[j]@, true, bodies@[j]@),
            decreases urls@.len() - k,
        {
            match self.produce_raw_info(urls[k].as_str(), bodies[k].as_str()) {
                Ok(info) => {
                    out.push(info);
                },
                Err(e) => {
                    assert forall|j: int| 0 <= j < k implies gist_parts(#[trigger] bodies@[j]@) is Ok by {
                        assert(gist_info_matches(out@[j], urls@[j]@, true, bodies@[j]@));
                    }
                    return Err(e);
                },
            }
            k = k + 1;
        }
        Ok(out)
    }

    /// A single gist URL never maps to a single raw URL; the orchestrator
    /// goes through `convert_urls_to_raw_urls` instead.
    pub fn convert_url_to_raw_url(&self, url: &str) -> (r: Result<String, BinsError>)
        ensures
            text_result(r) == Err::<Seq<char>, ErrorModel>(
                ErrorModel::InternalInvariant("gist urls are not a one-to-one conversion"@),
            ),
    {
        Err(BinsError::InternalInvariant(String::from_str("gist urls are not a one-to-one conversion")))
    }

    /// The raw URLs of the files of the one gist in `urls`, from the API's
    /// description of it, `body`.
    pub fn convert_urls_to_raw_urls(&self, urls: &Vec<String>, body: &str) -> (r: Result<Vec<String>, BinsError>)
        ensures
            texts_result(r) == gist_raw_urls(texts_view(urls@), body@),
    {
        if urls.len() != 1 {
            return Err(BinsError::InternalInvariant(String::from_str("multiple gist urls given")));
        }
        let info = self.produce_info(urls[0].as_str(), body)?;
        let mut out: Vec<String> = Vec::new();
        let mut k: usize = 0;
        while k < info.files.len()
            invariant
                k <= info.files@.len(),
                out@.len() == k,
                forall|j: int| 0 <= j < k ==> (#[trigger] out@[j])@ == info.files@[j].raw_url@,
            decreases info.files@.len() - k,
        {
            out.push(info.files[k].raw_url.clone());
            k = k + 1;
        }
        assert(texts_view(out@) =~= remote_files_view(info.files@).map_values(|f: RemoteFileModel| f.raw_url));
        Ok(out)
    }
}

pub open spec fn file_result(r: Result<RemoteFile, BinsError>) -> Result<RemoteFileModel, ErrorModel> {
    match r {
        Ok(f) => Ok(f@),
        Err(e) => Err(e@),
    }
}

pub open spec fn files_result(r: Result<Vec<RemoteFile>, BinsError>) -> Result<Seq<RemoteFileModel>, ErrorModel> {
    match r {
        Ok(v) => Ok(remote_files_view(v@)),
        Err(e) => Err(e@),
    }
}

pub open spec fn texts_result(r: Result<Vec<String>, BinsError>) -> Result<Seq<Seq<char>>, ErrorModel> {
    match r {
        Ok(v) => Ok(texts_view(v@)),
        Err(e) => Err(e@),
    }
}

pub open spec fn pairs_view(v: Seq<(String, String)>) -> Seq<(Seq<char>, Seq<char>)> {
    v.map_values(|p: (String, String)| (p.0@, p.1@))
}

proof fn lemma_files_prefix_err(html: Seq<char>, es: Seq<(Seq<char>, Seq<char>)>, j: int)
    requires
        0 <= j <= es.len(),
        gist_remote_files(html, es.subrange(0, j)) is Err,
    ensures
        gist_remote_files(html, es) == gist_remote_files(html, es.subrange(0, j)),
    decreases es.len(),
{
    if j < es.len() {
        assert(es.drop_last().subrange(0, j) =~= es.subrange(0, j));
        lemma_files_prefix_err(html, es.drop_last(), j);
    } else {
        assert(es.subrange(0, j) =~= es);
    }
}

} // verus!
