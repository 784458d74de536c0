use webhapp_install::archive::{is_safe_name, plan_unpack, read_entries, ArchiveEntry};
use webhapp_install::action::FsAction;
use webhapp_install::classify::{
    classify, classify_plain_attempt, classify_web_attempt, Classified, ClassifyStep, InstallError,
    PlainAttempt, WebAttempt,
};
use webhapp_install::digest::content_digest;
use webhapp_install::hex::to_hex;

fn make_zip(dirs: &[&str], files: &[(&str, &[u8])]) -> Vec<u8> {
    let mut w = zip::ZipWriter::new(std::io::Cursor::new(Vec::new()));
    let opts = zip::write::SimpleFileOptions::default();
    for d in dirs {
        w.add_directory(*d, opts).unwrap();
    }
    for (name, data) in files {
        w.start_file(*name, opts).unwrap();
        std::io::Write::write_all(&mut w, data).unwrap();
    }
    w.finish().unwrap().into_inner()
}

#[test]
fn hex_rendering_is_exact() {
    assert_eq!(to_hex(&vec![]), b"".to_vec());
    assert_eq!(to_hex(&vec![0x00, 0xff, 0x1a]), b"00ff1a".to_vec());
}

#[test]
fn digest_matches_known_vector() {
    // SHA-256 of the empty byte sequence.
    assert_eq!(
        content_digest(&vec![]),
        b"e3b0c44298fc1c149afbf4c8996fb92427ae41e4649b934ca495991b7852b855".to_vec()
    );
}

#[test]
fn digest_is_stable_across_runs() {
    let b = b"some package bytes".to_vec();
    let d1 = content_digest(&b);
    let d2 = content_digest(&b);
    assert_eq!(d1, d2);
    assert_eq!(d1.len(), 64);
    // and it agrees with an independent computation of SHA-256
    let raw = <sha2::Sha256 as sha2::Digest>::digest(b.as_slice()).to_vec();
    assert_eq!(d1, to_hex(&raw));
}

#[test]
fn classify_plain_yields_plain() {
    let app = b"app bundle bytes".to_vec();
    let r = classify(
        WebAttempt::NotRecognized(String::from("bad magic")),
        PlainAttempt::Decoded { app_bundle: app.clone() },
    );
    match r {
        Ok(Classified::Plain { app_bundle }) => assert_eq!(app_bundle, app),
        _ => panic!("expected a plain classification"),
    }
}

#[test]
fn classify_web_yields_both_components() {
    let app = b"app bundle bytes".to_vec();
    let ui = b"ui archive bytes".to_vec();
    let r = classify(
        WebAttempt::Recognized { app_bundle: app.clone(), ui_zip: ui.clone() },
        PlainAttempt::Failed(String::from("ignored")),
    );
    match r {
        Ok(Classified::WebWrapped { app_bundle, ui_zip }) => {
            assert_eq!(app_bundle, app);
            assert_eq!(ui_zip, ui);
        }
        _ => panic!("expected a web-wrapped classification"),
    }
}

#[test]
fn classify_extract_failure_is_fatal_not_fallback() {
    let r = classify(
        WebAttempt::UiExtractFailed(String::from("bad ui")),
        PlainAttempt::Decoded { app_bundle: b"would succeed".to_vec() },
    );
    match r {
        Err(e) => {
            assert!(matches!(e, InstallError::DecodeError(_)));
            assert_eq!(e.message(), "Failed to extract ui zip bytes: bad ui");
        }
        Ok(_) => panic!("extraction failure after recognition must not fall back"),
    }
}

#[test]
fn classify_total_failure_surfaces_plain_error() {
    let r = classify(
        WebAttempt::NotRecognized(String::from("not a webhapp")),
        PlainAttempt::Failed(String::from("not a happ either")),
    );
    match r {
        Err(e) => {
            assert_eq!(e.message(), "Failed to decode .webhapp file: not a happ either");
        }
        Ok(_) => panic!("neither kind decoded, classification must fail"),
    }
}

#[test]
fn classify_web_step_alone() {
    match classify_web_attempt(WebAttempt::NotRecognized(String::from("nope"))) {
        ClassifyStep::TryPlain => {}
        _ => panic!("an unrecognized blob must fall through to the plain attempt"),
    }
    match classify_plain_attempt(PlainAttempt::Decoded { app_bundle: vec![1, 2] }) {
        Ok(Classified::Plain { app_bundle }) => assert_eq!(app_bundle, vec![1, 2]),
        _ => panic!("a decoded plain bundle must classify as plain"),
    }
}

#[test]
fn read_entries_returns_names_and_contents() {
    let zip_bytes = make_zip(&["assets/"], &[("index.html", b"<html>"), ("assets/app.js", b"js")]);
    let entries = read_entries(zip_bytes).unwrap();
    let got: Vec<(Vec<u8>, Vec<u8>)> =
        entries.into_iter().map(|e| (e.name, e.data)).collect();
    assert!(got.contains(&(b"assets/".to_vec(), b"".to_vec())));
    assert!(got.contains(&(b"index.html".to_vec(), b"<html>".to_vec())));
    assert!(got.contains(&(b"assets/app.js".to_vec(), b"js".to_vec())));
    assert_eq!(got.len(), 3);
}

#[test]
fn read_entries_rejects_garbage() {
    let r = read_entries(b"this is not a zip archive".to_vec());
    match r {
        Err(e) => {
            assert!(matches!(e, InstallError::ExtractionError(_)));
            assert!(e.message().starts_with("Failed to unpack zip archive: "));
        }
        Ok(_) => panic!("garbage bytes must not read as an archive"),
    }
}

#[test]
fn unsafe_names_are_rejected() {
    assert!(is_safe_name(&b"index.html".to_vec()));
    assert!(is_safe_name(&b"assets/app.js".to_vec()));
    assert!(is_safe_name(&b"assets/".to_vec()));
    assert!(is_safe_name(&b"a..b/c".to_vec()));
    assert!(!is_safe_name(&b"".to_vec()));
    assert!(!is_safe_name(&b"/etc/passwd".to_vec()));
    assert!(!is_safe_name(&b"../evil.txt".to_vec()));
    assert!(!is_safe_name(&b"good/../../evil.txt".to_vec()));
    assert!(!is_safe_name(&b"a//b".to_vec()));
    assert!(!is_safe_name(&b"./hidden".to_vec()));
    assert!(!is_safe_name(&b"a/./b".to_vec()));
    assert!(!is_safe_name(&b"a/..".to_vec()));
    assert!(!is_safe_name(&b"c:\\windows".to_vec()));
    assert!(!is_safe_name(&b"nul\0byte".to_vec()));
}

#[test]
fn traversal_entries_plan_no_action() {
    let dest = b"/tmp/ui".to_vec();
    let entries = vec![
        ArchiveEntry { name: b"../evil.txt".to_vec(), data: b"x".to_vec() },
        ArchiveEntry { name: b"/abs.txt".to_vec(), data: b"y".to_vec() },
        ArchiveEntry { name: b"ok.txt".to_vec(), data: b"z".to_vec() },
    ];
    let plan = plan_unpack(&dest, &entries);
    // only the safe entry plans anything: its parent directory and its write
    assert_eq!(plan.len(), 2);
    for a in &plan {
        let path = match a {
            FsAction::MkDirAll { path } => path,
            FsAction::WriteFile { path, .. } => path,
            FsAction::RemoveFile { path } => path,
        };
        assert!(path.starts_with(b"/tmp/ui"));
        assert!(!path.windows(2).any(|w| w == b".."));
    }
    match &plan[1] {
        FsAction::WriteFile { path, data } => {
            assert_eq!(path, &b"/tmp/ui/ok.txt".to_vec());
            assert_eq!(data, &b"z".to_vec());
        }
        _ => panic!("the safe file entry must be written"),
    }
}

#[test]
fn nested_file_entry_plans_parent_directory() {
    let dest = b"ui".to_vec();
    let entries = vec![ArchiveEntry { name: b"assets/js/app.js".to_vec(), data: b"j".to_vec() }];
    let plan = plan_unpack(&dest, &entries);
    assert_eq!(plan.len(), 2);
    match &plan[0] {
        FsAction::MkDirAll { path } => assert_eq!(path, &b"ui/assets/js".to_vec()),
        _ => panic!("the parent directory must be created first"),
    }
    match &plan[1] {
        FsAction::WriteFile { path, data } => {
            assert_eq!(path, &b"ui/assets/js/app.js".to_vec());
            assert_eq!(data, &b"j".to_vec());
        }
        _ => panic!("the file must be written after its parent exists"),
    }
}
