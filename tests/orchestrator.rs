use bins::error::{BinFeature, BinsError};
use bins::orchestrator::{file_urls, plan_upload, select_files, select_indices, UploadFlags, UploadMode};
use bins::paste::{Info, PasteContents, RemoteFile};
use bins::range::parse_range_set;

fn ranges(s: &str) -> Vec<bins::range::BidirectionalRange> {
    match parse_range_set(s) {
        Ok(v) => v,
        Err(_) => panic!("bad range"),
    }
}

fn info_of(n: usize) -> Info {
    let mut files = Vec::new();
    for i in 0..n {
        files.push(RemoteFile {
            name: format!("f{}", i),
            id: format!("f{}", i),
            backend: "gist".to_string(),
            html_url: format!("https://gist.github.com/x#file-f{}", i),
            raw_url: format!("https://gist.githubusercontent.com/raw/f{}", i),
            contents: PasteContents::unresolved(),
        });
    }
    Info {
        id: "x".to_string(),
        name: None,
        url: "https://gist.github.com/x".to_string(),
        raw_url: None,
        raw: false,
        files,
        selected_index: None,
        contents: PasteContents::unresolved(),
        backend: "gist".to_string(),
    }
}

#[test]
fn range_selects_in_ascending_order_either_way() {
    let up = ranges("0-1");
    let down = ranges("1-0");
    assert_eq!(select_indices(3, false, Some(&up)).ok(), Some(vec![0, 1]));
    assert_eq!(select_indices(3, false, Some(&down)).ok(), Some(vec![0, 1]));
    let mixed = ranges("2-0,1");
    assert_eq!(select_indices(3, false, Some(&mixed)).ok(), Some(vec![0, 1, 2]));
}

#[test]
fn all_selects_every_file() {
    assert_eq!(select_indices(4, true, None).ok(), Some(vec![0, 1, 2, 3]));
    assert_eq!(select_indices(0, true, None).ok(), Some(vec![]));
}

#[test]
fn default_selects_first_file() {
    assert_eq!(select_indices(5, false, None).ok(), Some(vec![0]));
    assert!(matches!(select_indices(0, false, None), Err(BinsError::RangeOutOfBounds(0))));
}

#[test]
fn index_past_the_files_is_out_of_bounds() {
    let rs = ranges("1-5");
    assert!(matches!(select_indices(3, false, Some(&rs)), Err(BinsError::RangeOutOfBounds(3))));
    let rs = ranges("0,7");
    assert!(matches!(select_indices(3, false, Some(&rs)), Err(BinsError::RangeOutOfBounds(7))));
    let rs = ranges("9,6-4");
    assert!(matches!(select_indices(3, false, Some(&rs)), Err(BinsError::RangeOutOfBounds(4))));
}

#[test]
fn select_files_uses_the_info_files() {
    let info = info_of(3);
    let rs = ranges("2");
    let chosen = match select_files(&info, false, Some(&rs)) {
        Ok(v) => v,
        Err(_) => panic!("selection failed"),
    };
    assert_eq!(chosen, vec![2]);
    assert_eq!(file_urls(&info, &chosen, false), vec!["https://gist.github.com/x#file-f2".to_string()]);
    assert_eq!(file_urls(&info, &chosen, true), vec!["https://gist.githubusercontent.com/raw/f2".to_string()]);
}

#[test]
fn plan_picks_batch_or_single() {
    let public_anon = UploadFlags { private: false, auth: false };
    let flags = vec![BinFeature::Public, BinFeature::Anonymous];
    let single_only = vec![BinFeature::SingleUpload];
    assert!(matches!(plan_upload(&flags, &single_only, 1, public_anon), Ok(UploadMode::Single)));
    assert!(matches!(
        plan_upload(&flags, &single_only, 2, public_anon),
        Err(BinsError::UnsupportedFeature(BinFeature::BatchUpload))
    ));
    let both = vec![BinFeature::SingleUpload, BinFeature::BatchUpload];
    assert!(matches!(plan_upload(&flags, &both, 1, public_anon), Ok(UploadMode::Batch)));
    assert!(matches!(plan_upload(&flags, &both, 3, public_anon), Ok(UploadMode::Batch)));
    let none: Vec<BinFeature> = Vec::new();
    assert!(matches!(
        plan_upload(&flags, &none, 1, public_anon),
        Err(BinsError::UnsupportedFeature(BinFeature::SingleUpload))
    ));
}

#[test]
fn plan_checks_flags_first() {
    let flags = vec![BinFeature::Public, BinFeature::Anonymous];
    let single_only = vec![BinFeature::SingleUpload];
    assert!(matches!(
        plan_upload(&flags, &single_only, 1, UploadFlags { private: true, auth: false }),
        Err(BinsError::UnsupportedFeature(BinFeature::Private))
    ));
    assert!(matches!(
        plan_upload(&flags, &single_only, 1, UploadFlags { private: false, auth: true }),
        Err(BinsError::UnsupportedFeature(BinFeature::Authenticated))
    ));
}

#[test]
fn capabilities_are_not_flags() {
    let flags = vec![BinFeature::Public, BinFeature::Anonymous, BinFeature::SingleUpload, BinFeature::BatchUpload];
    let none: Vec<BinFeature> = Vec::new();
    assert!(matches!(
        plan_upload(&flags, &none, 2, UploadFlags { private: false, auth: false }),
        Err(BinsError::UnsupportedFeature(BinFeature::BatchUpload))
    ));
}

#[test]
fn contents_need_fetch_when_missing_or_truncated() {
    assert!(PasteContents::unresolved().needs_fetch());
    assert!(PasteContents { truncated: true, value: Some("x".to_string()) }.needs_fetch());
    assert!(!PasteContents { truncated: false, value: Some("x".to_string()) }.needs_fetch());
}
