use vstd::prelude::*;

use crate::error::{BinFeature, BinsError, ErrorModel};
use crate::gist::{
    gist_api_url, gist_id, gist_info_matches, gist_parts, gist_upload_body, gist_upload_result, Gist,
};
use crate::hastebin::{
    hastebin_id, hastebin_info_matches, hastebin_raw_url, hastebin_upload_result, text_result, Hastebin,
};
use crate::orchestrator::{plan_upload, upload_mode_spec, UploadFlags, UploadMode};
use crate::paste::{local_files_view, Info, LocalFile, RemoteFileModel, UploadRequest};
use crate::wire::{opt_text, texts_view, url_host, url_host_str};

verus! {

/// One backend, chosen from the registry.
pub enum Engine {
    Hastebin(Hastebin),
    Gist(Gist),
}

pub open spec fn engine_name(e: Engine) -> Seq<char> {
    match e {
        Engine::Hastebin(_) => "hastebin"@,
        Engine::Gist(_) => "gist"@,
    }
}

pub open spec fn engine_host(e: Engine) -> Seq<char> {
    match e {
        Engine::Hastebin(_) => "hastebin.com"@,
        Engine::Gist(_) => "gist.github.com"@,
    }
}

pub open spec fn engine_features(e: Engine) -> Seq<BinFeature> {
    match e {
        Engine::Hastebin(_) => seq![BinFeature::Public, BinFeature::Anonymous],
        Engine::Gist(_) => seq![
            BinFeature::Public,
            BinFeature::Private,
            BinFeature::Anonymous,
            BinFeature::Authenticated,
        ],
    }
}

pub open spec fn engine_capabilities(e: Engine) -> Seq<BinFeature> {
    match e {
        Engine::Hastebin(_) => seq![BinFeature::SingleUpload],
        Engine::Gist(_) => seq![BinFeature::SingleUpload, BinFeature::BatchUpload],
    }
}

/// The request an upload of `fs` makes, as (url, body, json), or why it is
/// refused before any request.
pub open spec fn engine_upload_spec(e: Engine, fs: Seq<(Seq<char>, Seq<char>)>, flags: UploadFlags) -> Result<
    (Seq<char>, Seq<char>, bool),
    ErrorModel,
> {
    match upload_mode_spec(engine_features(e), engine_capabilities(e), fs.len(), flags) {
        Err(err) => Err(err),
        Ok(mode) => match e {
            Engine::Hastebin(_) => if mode == UploadMode::Single {
                Ok(("https://hastebin.com/documents"@, fs[0].1, false))
            } else {
                Err(ErrorModel::InternalInvariant("hastebin has no batch upload"@))
            },
            Engine::Gist(_) => Ok(("https://api.github.com/gists"@, gist_upload_body(fs, !flags.private), true)),
        },
    }
}

pub open spec fn request_result(r: Result<UploadRequest, BinsError>) -> Result<(Seq<char>, Seq<char>, bool), ErrorModel> {
    match r {
        Ok(q) => Ok((q.url@, q.body@, q.json)),
        Err(e) => Err(e@),
    }
}

/// What the answer to an upload means, given its HTTP status and body:
/// hastebin answers any success status, GitHub answers 201 Created.
pub open spec fn engine_upload_result(e: Engine, status: u16, body: Seq<char>) -> Result<Seq<char>, ErrorModel> {
    match e {
        Engine::Hastebin(_) => hastebin_upload_result(200 <= status < 300, body),
        Engine::Gist(_) => gist_upload_result(status == 201, body),
    }
}

/// The id in a URL of the backend, as a page URL first, then as a raw URL.
pub open spec fn engine_paste_id(e: Engine, url: Seq<char>) -> Option<Seq<char>> {
    match e {
        Engine::Hastebin(_) => hastebin_id(url),
        Engine::Gist(_) => gist_id(url),
    }
}

/// Where the text that describes paste `id` is fetched from.
pub open spec fn engine_info_source(e: Engine, id: Seq<char>) -> Seq<char> {
    match e {
        Engine::Hastebin(_) => hastebin_raw_url(id),
        Engine::Gist(_) => gist_api_url(id),
    }
}

/// Whether `r` is the info of paste `id` at `url`, built from `body`, what
/// `engine_info_source` served.
pub open spec fn engine_info_matches(
    e: Engine,
    r: Result<Info, BinsError>,
    url: Seq<char>,
    id: Seq<char>,
    body: Seq<char>,
    raw: bool,
) -> bool {
    match e {
        Engine::Hastebin(_) => r matches Ok(info) && hastebin_info_matches(info, id, body, raw),
        Engine::Gist(_) => match r {
            Ok(info) => gist_info_matches(info, url, raw, body),
            Err(err) => gist_parts(body) == Err::<(Seq<char>, Seq<char>, Seq<RemoteFileModel>), ErrorModel>(
                err@,
            ),
        },
    }
}

impl Engine {
    pub fn name(&self) -> (r: &'static str)
        ensures
            r@ == engine_name(*self),
    {
        match self {
            Engine::Hastebin(h) => h.name(),
            Engine::Gist(g) => g.name(),
        }
    }

    pub fn host(&self) -> (r: &'static str)
        ensures
            r@ == engine_host(*self),
    {
        match self {
            Engine::Hastebin(h) => h.html_host(),
            Engine::Gist(g) => g.domain(),
        }
    }

    pub fn features(&self) -> (r: Vec<BinFeature>)
        ensures
            r@ == engine_features(*self),
    {
        match self {
            Engine::Hastebin(h) => h.features(),
            Engine::Gist(g) => g.features(),
        }
    }

    pub fn capabilities(&self) -> (r: Vec<BinFeature>)
        ensures
            r@ == engine_capabilities(*self),
    {
        match self {
            Engine::Hastebin(h) => h.capabilities(),
            Engine::Gist(g) => g.capabilities(),
        }
    }

    /// The single request that uploads `files`, or the reason it is refused
    /// before any request is made.
    pub fn upload_request(&self, files: &Vec<LocalFile>, flags: UploadFlags) -> (r: Result<UploadRequest, BinsError>)
        requires
            files@.len() >= 1,
        ensures
            request_result(r) == engine_upload_spec(*self, local_files_view(files@), flags),
    {
        let features = self.features();
        let capabilities = self.capabilities();
        let mode = plan_upload(&features, &capabilities, files.len(), flags)?;
        match self {
            Engine::Hastebin(h) => {
                if mode == UploadMode::Single {
                    Ok(h.upload_request(&files[0]))
                } else {
                    Err(BinsError::InternalInvariant(String::from_str("hastebin has no batch upload")))
                }
            },
            Engine::Gist(g) => Ok(g.upload_request(files, flags.private)),
        }
    }

    /// The URL of the new paste, from the answer to the upload request.
    pub fn read_upload_response(&self, status: u16, body: &str) -> (r: Result<String, BinsError>)
        ensures
            text_result(r) == engine_upload_result(*self, status, body@),
    {
        match self {
            Engine::Hastebin(h) => h.read_upload_response(200 <= status && status < 300, body),
            Engine::Gist(g) => g.read_upload_response(status == 201, body),
        }
    }

    /// The id of the paste at `url`, when the URL is one of this backend's.
    pub fn paste_id(&self, url: &str) -> (r: Option<String>)
        ensures
            opt_text(r) == engine_paste_id(*self, url@),
    {
        match self {
            Engine::Hastebin(h) => match h.id_from_html_url(url) {
                Some(id) => Some(id),
                None => h.id_from_raw_url(url),
            },
            Engine::Gist(g) => g.id_from_url(url),
        }
    }

    pub fn info_source(&self, id: &str) -> (r: String)
        ensures
            r@ == engine_info_source(*self, id@),
    {
        match self {
            Engine::Hastebin(h) => h.format_raw_url(id),
            Engine::Gist(g) => g.api_url(id),
        }
    }

    /// Builds the info of paste `id` at `url` from `body`, the text fetched
    /// from `info_source(id)`; `raw` marks the contents as raw text.
    pub fn produce_info(&self, url: &str, id: &str, body: &str, raw: bool) -> (r: Result<Info, BinsError>)
        ensures
            engine_info_matches(*self, r, url@, id@, body@, raw),
    {
        match self {
            Engine::Hastebin(h) => Ok(h.produce_info(id, body, raw)),
            Engine::Gist(g) => if raw {
                g.produce_raw_info(url, body)
            } else {
                g.produce_info(url, body)
            },
        }
    }
}

/// Whether two texts are the same.
pub fn same_text(a: &str, b: &str) -> (r: bool)
    ensures
        r == (a@ == b@),
{
    let n = a.unicode_len();
    if n != b.unicode_len() {
        return false;
    }
    let mut i: usize = 0;
    while i < n
        invariant
            n == a@.len(),
            n == b@.len(),
            i <= n,
            forall|j: int| 0 <= j < i ==> a@[j] == b@[j],
        decreases n - i,
    {
        if a.get_char(i) != b.get_char(i) {
            return false;
        }
        i = i + 1;
    }
    assert(a@ =~= b@);
    true
}

/// The backends this tool knows, built once and only read afterwards.
pub struct Engines {}

impl Engines {
    pub fn new() -> (r: Engines) {
        Engines {  }
    }

    pub fn names(&self) -> (r: Vec<String>)
        ensures
            texts_view(r@) == seq!["gist"@, "hastebin"@],
    {
        let r = vec![String::from_str("gist"), String::from_str("hastebin")];
        assert(texts_view(r@) =~= seq!["gist"@, "hastebin"@]);
        r
    }

    /// The backend called `name`.
    pub fn resolve(&self, name: &str) -> (r: Result<Engine, BinsError>)
        ensures
            name@ == "gist"@ ==> r matches Ok(Engine::Gist(_)),
            name@ == "hastebin"@ ==> r matches Ok(Engine::Hastebin(_)),
            name@ != "gist"@ && name@ != "hastebin"@ ==> (r matches Err(e) && e@ == ErrorModel::UnknownService(name@)),
    {
        proof {
            reveal_strlit("gist");
            reveal_strlit("hastebin");
            assert("gist"@.len() != "hastebin"@.len());
        }
        if same_text(name, "gist") {
            Ok(Engine::Gist(Gist::new()))
        } else if same_text(name, "hastebin") {
            Ok(Engine::Hastebin(Hastebin::new()))
        } else {
            Err(BinsError::UnknownService(String::from_str(name)))
        }
    }

    /// The backend whose host serves `url`, if any.
    pub fn detect(&self, url: &str) -> (r: Option<Engine>)
        ensures
            (url_host(url@) == Some("gist.github.com"@)) ==> r matches Some(Engine::Gist(_)),
            (url_host(url@) == Some("hastebin.com"@)) ==> r matches Some(Engine::Hastebin(_)),
            (url_host(url@) != Some("gist.github.com"@) && url_host(url@) != Some("hastebin.com"@)) ==> r is None,
    {
        proof {
            reveal_strlit("gist.github.com");
            reveal_strlit("hastebin.com");
            assert("gist.github.com"@.len() != "hastebin.com"@.len());
        }
        match url_host_str(url) {
            None => None,
            Some(host) => {
                if same_text(host.as_str(), "gist.github.com") {
                    Some(Engine::Gist(Gist::new()))
                } else if same_text(host.as_str(), "hastebin.com") {
                    Some(Engine::Hastebin(Hastebin::new()))
                } else {
                    None
                }
            },
        }
    }
}

/// A backend without batch upload refuses two or more files as unsupported,
/// so no request is ever built for them.
pub proof fn lemma_no_batch_refuses_many(h: Hastebin, fs: Seq<(Seq<char>, Seq<char>)>, flags: UploadFlags)
    requires
        fs.len() >= 2,
    ensures
        engine_upload_spec(Engine::Hastebin(h), fs, flags) matches Err(ErrorModel::UnsupportedFeature(_)),
{
    let features = engine_features(Engine::Hastebin(h));
    let capabilities = engine_capabilities(Engine::Hastebin(h));
    if capabilities.contains(BinFeature::BatchUpload) {
        let k = choose|k: int| 0 <= k < capabilities.len() && capabilities[k] == BinFeature::BatchUpload;
        assert(k == 0);
    }
    crate::orchestrator::lemma_many_files_need_batch(features, capabilities, fs.len(), flags);
}

/// A backend with batch upload sends any number of files as one request
/// whose body lists them in the order given.
pub proof fn lemma_batch_is_one_request_in_order(g: Gist, fs: Seq<(Seq<char>, Seq<char>)>, flags: UploadFlags)
    requires
        fs.len() >= 1,
    ensures
        engine_upload_spec(Engine::Gist(g), fs, flags) == Ok::<(Seq<char>, Seq<char>, bool), ErrorModel>(
            ("https://api.github.com/gists"@, gist_upload_body(fs, !flags.private), true),
        ),
{
    let features = engine_features(Engine::Gist(g));
    assert(features[0] == BinFeature::Public);
    assert(features[1] == BinFeature::Private);
    assert(features[2] == BinFeature::Anonymous);
    assert(features[3] == BinFeature::Authenticated);
    assert(engine_capabilities(Engine::Gist(g))[1] == BinFeature::BatchUpload);
}

} // verus!
