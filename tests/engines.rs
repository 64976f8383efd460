use bins::engines::{Engine, Engines};
use bins::error::{BinFeature, BinsError};
use bins::gist::Gist;
use bins::hastebin::Hastebin;
use bins::orchestrator::UploadFlags;
use bins::paste::{LocalFile, PasteUrl};

fn file(name: &str, content: &str) -> LocalFile {
    LocalFile::new(name.to_string(), content.to_string())
}

const PUBLIC_ANON: UploadFlags = UploadFlags { private: false, auth: false };

#[test]
fn no_batch_backend_refuses_two_files() {
    let engine = Engine::Hastebin(Hastebin::new());
    let files = vec![file("a.txt", "A"), file("b.txt", "B")];
    assert!(matches!(
        engine.upload_request(&files, PUBLIC_ANON),
        Err(BinsError::UnsupportedFeature(BinFeature::BatchUpload))
    ));
}

#[test]
fn batch_backend_sends_one_request_in_order() {
    let engine = Engine::Gist(Gist::new());
    let files = vec![file("a.txt", "A"), file("b.txt", "B")];
    let req = match engine.upload_request(&files, PUBLIC_ANON) {
        Ok(r) => r,
        Err(e) => panic!("refused: {}", e.describe()),
    };
    assert_eq!(req.url, "https://api.github.com/gists");
    assert!(req.json);
    assert_eq!(
        req.body,
        r#"{"description":"","public":true,"files":{"a.txt":{"content":"A"},"b.txt":{"content":"B"}}}"#
    );
}

#[test]
fn gist_body_escapes_text_and_marks_secret() {
    let files = vec![file("q.txt", "say \"hi\"\n")];
    let req = Gist::new().upload_request(&files, true);
    assert_eq!(
        req.body,
        r#"{"description":"","public":false,"files":{"q.txt":{"content":"say \"hi\"\n"}}}"#
    );
    let parsed: serde_json::Value = serde_json::from_str(&req.body).unwrap();
    assert_eq!(parsed["files"]["q.txt"]["content"], "say \"hi\"\n");
}

#[test]
fn hastebin_single_upload_sends_the_text() {
    let engine = Engine::Hastebin(Hastebin::new());
    let files = vec![file("a.txt", "hello")];
    let req = match engine.upload_request(&files, PUBLIC_ANON) {
        Ok(r) => r,
        Err(_) => panic!("refused"),
    };
    assert_eq!(req.url, "https://hastebin.com/documents");
    assert_eq!(req.body, "hello");
    assert!(!req.json);
    assert!(matches!(
        engine.upload_request(&files, UploadFlags { private: true, auth: false }),
        Err(BinsError::UnsupportedFeature(BinFeature::Private))
    ));
}

#[test]
fn hastebin_reads_upload_answers() {
    let h = Hastebin::new();
    assert_eq!(h.read_upload_response(true, r#"{"key":"abc"}"#).ok(), Some("https://hastebin.com/abc".to_string()));
    assert!(matches!(h.read_upload_response(true, r#"{"error":"boom"}"#), Err(BinsError::RemoteRejected(m)) if m == "boom"));
    assert!(matches!(h.read_upload_response(true, "<html>"), Err(BinsError::InvalidResponse)));
    assert!(matches!(h.read_upload_response(false, "down"), Err(BinsError::RemoteRejected(m)) if m == "down"));
}

#[test]
fn hastebin_ids_come_from_the_last_segment() {
    let h = Hastebin::new();
    assert_eq!(h.id_from_html_url("https://hastebin.com/abcdef.rs"), Some("abcdef".to_string()));
    assert_eq!(h.id_from_raw_url("https://hastebin.com/raw/xyz"), Some("xyz".to_string()));
    assert_eq!(h.id_from_html_url("not a url"), None);
    assert_eq!(h.format_raw_url("k"), "https://hastebin.com/raw/k");
    let urls = h.create_html_url("k");
    assert_eq!(urls.len(), 1);
    assert_eq!(urls[0].url(), "https://hastebin.com/k");
}

#[test]
fn hastebin_index_gives_raw_urls() {
    let h = Hastebin::new();
    let index = r#"[{"name":"a.rs","url":"https://hastebin.com/x1.rs"},{"name":"b.md","url":"https://hastebin.com/x2"}]"#;
    let urls = match h.create_raw_url("idx", index) {
        Ok(u) => u,
        Err(_) => panic!("index refused"),
    };
    assert_eq!(urls.len(), 2);
    assert!(matches!(&urls[0], PasteUrl::Raw { name: Some(n), url } if n == "a.rs" && url == "https://hastebin.com/raw/x1"));
    assert!(matches!(&urls[1], PasteUrl::Raw { name: Some(n), url } if n == "b.md" && url == "https://hastebin.com/raw/x2"));
    let bad = r#"[{"name":"a","url":"nope"}]"#;
    assert!(matches!(h.create_raw_url("idx", bad), Err(BinsError::InvalidResponse)));
}

#[test]
fn hastebin_plain_text_is_downloaded() {
    let h = Hastebin::new();
    let urls = match h.create_raw_url("abc", "just text") {
        Ok(u) => u,
        Err(_) => panic!("refused"),
    };
    assert_eq!(urls.len(), 1);
    assert!(matches!(&urls[0], PasteUrl::Downloaded { url, file_name, content }
        if url == "https://hastebin.com/raw/abc" && file_name == "abc" && content == "just text"));
}

#[test]
fn hastebin_info_has_one_file() {
    let info = Hastebin::new().produce_info("abc", "body", true);
    assert_eq!(info.id, "abc");
    assert!(info.raw);
    assert_eq!(info.files.len(), 1);
    assert_eq!(info.files[0].raw_url, "https://hastebin.com/raw/abc");
    assert_eq!(info.files[0].contents.value.as_deref(), Some("body"));
}

#[test]
fn gist_anchor_urls() {
    assert_eq!(
        Gist::file_html_url("https://gist.github.com/abc", "My File.RS"),
        "https://gist.github.com/abc#file-my-file-rs"
    );
}

#[test]
fn gist_reads_upload_answers() {
    let g = Gist::new();
    assert_eq!(
        g.read_upload_response(true, r#"{"html_url":"https://gist.github.com/z"}"#).ok(),
        Some("https://gist.github.com/z".to_string())
    );
    assert!(matches!(g.read_upload_response(true, "{}"), Err(BinsError::InvalidResponse)));
    assert!(matches!(g.read_upload_response(false, "no"), Err(BinsError::RemoteRejected(m)) if m == "no"));
}

const GIST_BODY: &str = r#"{"id":"g1","html_url":"https://gist.github.com/u/g1","description":"two files",
 "files":{"b.txt":{"content":"B","raw_url":"https://r/b","truncated":false},
          "a.txt":{"content":"A","raw_url":"https://r/a","truncated":true}}}"#;

#[test]
fn gist_info_lists_files() {
    let g = Gist::new();
    let info = match g.produce_info("https://gist.github.com/u/g1", GIST_BODY) {
        Ok(i) => i,
        Err(e) => panic!("refused: {}", e.describe()),
    };
    assert_eq!(info.id, "g1");
    assert_eq!(info.name.as_deref(), Some("two files"));
    assert!(!info.raw);
    let names: Vec<&str> = info.files.iter().map(|f| f.name.as_str()).collect();
    assert_eq!(names, vec!["a.txt", "b.txt"]);
    assert_eq!(info.files[0].html_url, "https://gist.github.com/u/g1#file-a-txt");
    assert!(info.files[0].contents.truncated);
    let raw = match g.produce_raw_info("https://gist.github.com/u/g1", GIST_BODY) {
        Ok(i) => i,
        Err(_) => panic!("refused"),
    };
    assert!(raw.raw);
}

#[test]
fn gist_info_without_raw_url_is_invalid() {
    let body = r#"{"id":"g","html_url":"h","files":{"a":{"content":"A","truncated":false}}}"#;
    assert!(matches!(Gist::new().produce_info("u", body), Err(BinsError::InvalidResponse)));
}

#[test]
fn gist_raw_urls_need_exactly_one_url() {
    let g = Gist::new();
    assert!(matches!(g.convert_url_to_raw_url("https://gist.github.com/x"), Err(BinsError::InternalInvariant(_))));
    let two = vec!["a".to_string(), "b".to_string()];
    assert!(matches!(g.convert_urls_to_raw_urls(&two, GIST_BODY), Err(BinsError::InternalInvariant(_))));
    let one = vec!["https://gist.github.com/u/g1".to_string()];
    assert_eq!(
        g.convert_urls_to_raw_urls(&one, GIST_BODY).ok(),
        Some(vec!["https://r/a".to_string(), "https://r/b".to_string()])
    );
}

#[test]
fn gist_urls_and_ids() {
    let g = Gist::new();
    assert!(g.verify_url("https://gist.github.com/abc"));
    assert!(g.verify_url("https://gist.github.com/user/abc"));
    assert!(!g.verify_url("https://gist.github.com/a/b/c"));
    assert_eq!(g.id_from_url("https://gist.github.com/user/abc"), Some("abc".to_string()));
    assert_eq!(g.api_url("abc"), "https://api.github.com/gists/abc");
}

#[test]
fn registry_resolves_and_detects() {
    let engines = Engines::new();
    assert_eq!(engines.names(), vec!["gist".to_string(), "hastebin".to_string()]);
    assert!(matches!(engines.resolve("gist"), Ok(Engine::Gist(_))));
    assert!(matches!(engines.resolve("hastebin"), Ok(Engine::Hastebin(_))));
    assert!(matches!(engines.resolve("pastebin"), Err(BinsError::UnknownService(s)) if s == "pastebin"));
    assert!(matches!(engines.detect("https://gist.github.com/u/abc"), Some(Engine::Gist(_))));
    assert!(matches!(engines.detect("https://hastebin.com/abc"), Some(Engine::Hastebin(_))));
    assert!(engines.detect("https://example.com/abc").is_none());
    assert!(engines.detect("nonsense").is_none());
}

#[test]
fn engine_download_steps() {
    let engines = Engines::new();
    let engine = match engines.detect("https://gist.github.com/u/g1") {
        Some(e) => e,
        None => panic!("not detected"),
    };
    let id = match engine.paste_id("https://gist.github.com/u/g1") {
        Some(i) => i,
        None => panic!("no id"),
    };
    assert_eq!(engine.info_source(&id), "https://api.github.com/gists/g1");
    let info = match engine.produce_info("https://gist.github.com/u/g1", &id, GIST_BODY, false) {
        Ok(i) => i,
        Err(_) => panic!("refused"),
    };
    assert_eq!(info.files.len(), 2);
    assert_eq!(engine.name(), "gist");
    assert_eq!(engine.host(), "gist.github.com");
    assert_eq!(Engine::Hastebin(Hastebin::new()).info_source("k"), "https://hastebin.com/raw/k");
}

#[test]
fn gist_raw_infos_of_several_gists() {
    let g = Gist::new();
    let urls = vec!["https://gist.github.com/u/g1".to_string(), "https://gist.github.com/u/g2".to_string()];
    let bodies = vec![GIST_BODY.to_string(), GIST_BODY.to_string()];
    let infos = match g.produce_raw_info_all(&urls, &bodies) {
        Ok(v) => v,
        Err(_) => panic!("refused"),
    };
    assert_eq!(infos.len(), 2);
    assert!(infos.iter().all(|i| i.raw));
    assert_eq!(infos[1].url, "https://gist.github.com/u/g2");
    let bad = vec![GIST_BODY.to_string(), "{}".to_string()];
    assert!(matches!(g.produce_raw_info_all(&urls, &bad), Err(BinsError::InvalidResponse)));
}

#[test]
fn features_list_flags_and_capabilities_apart() {
    let h = Hastebin::new();
    assert_eq!(h.features(), vec![BinFeature::Public, BinFeature::Anonymous]);
    assert_eq!(h.capabilities(), vec![BinFeature::SingleUpload]);
    let g = Gist::new();
    assert_eq!(
        g.features(),
        vec![BinFeature::Public, BinFeature::Private, BinFeature::Anonymous, BinFeature::Authenticated]
    );
    assert_eq!(g.capabilities(), vec![BinFeature::SingleUpload, BinFeature::BatchUpload]);
    assert_eq!(Engine::Gist(g).capabilities(), vec![BinFeature::SingleUpload, BinFeature::BatchUpload]);
}

#[test]
fn raw_info_differs_only_in_raw() {
    let g = Gist::new();
    let plain = match g.produce_info("https://gist.github.com/u/g1", GIST_BODY) {
        Ok(i) => i,
        Err(_) => panic!("refused"),
    };
    let raw = match g.produce_raw_info("https://gist.github.com/u/g1", GIST_BODY) {
        Ok(i) => i,
        Err(_) => panic!("refused"),
    };
    assert!(!plain.raw && raw.raw);
    assert!(!plain.contents.truncated && !raw.contents.truncated);
    assert_eq!(plain.id, raw.id);
    assert_eq!(plain.files.len(), raw.files.len());
}
