use webhapp_install::action::FsAction;
use webhapp_install::classify::{Classified, InstallError, WebAttempt};
use webhapp_install::digest::content_digest;
use webhapp_install::install::{path_exists, plan_install_fixed, plan_install_hashed};

fn make_ui_zip() -> Vec<u8> {
    let mut w = zip::ZipWriter::new(std::io::Cursor::new(Vec::new()));
    let opts = zip::write::SimpleFileOptions::default();
    w.start_file("index.html", opts).unwrap();
    std::io::Write::write_all(&mut w, b"<html></html>").unwrap();
    w.start_file("assets/app.js", opts).unwrap();
    std::io::Write::write_all(&mut w, b"console").unwrap();
    w.finish().unwrap().into_inner()
}

fn action_path(a: &FsAction) -> &Vec<u8> {
    match a {
        FsAction::MkDirAll { path } => path,
        FsAction::WriteFile { path, .. } => path,
        FsAction::RemoveFile { path } => path,
    }
}

#[test]
fn mode_a_web_scenario_four_fields() {
    let ui = make_ui_zip();
    let app = b"canonical app bundle bytes".to_vec();
    let package = b"whole original package bytes".to_vec();
    let c = Classified::WebWrapped { app_bundle: app.clone(), ui_zip: ui.clone() };
    let h = plan_install_hashed(&package, c, &b"/uis".to_vec(), &b"/happs".to_vec()).unwrap();

    let app_digest = content_digest(&app);
    let ui_digest = content_digest(&ui);
    let package_digest = content_digest(&package);

    // the persisted bundle path is named by the digest of the bytes written
    let mut expected_path = b"/happs/".to_vec();
    expected_path.extend_from_slice(&app_digest);
    expected_path.extend_from_slice(b".happ");
    assert_eq!(h.happ_path, expected_path);
    assert_eq!(h.app_digest, app_digest);
    assert_eq!(h.ui_digest.as_ref().unwrap(), &ui_digest);
    assert_eq!(h.package_digest.as_ref().unwrap(), &package_digest);

    // the summary has exactly four $-delimited fields, in the fixed order
    let fields: Vec<&[u8]> = h.summary.split(|b| *b == b'$').collect();
    assert_eq!(fields.len(), 4);
    assert_eq!(fields[0], expected_path.as_slice());
    assert_eq!(fields[1], app_digest.as_slice());
    assert_eq!(fields[2], ui_digest.as_slice());
    assert_eq!(fields[3], package_digest.as_slice());

    // the UI tree goes under <uis_dir>/<ui_digest>/assets and contains both files
    let mut assets = b"/uis/".to_vec();
    assets.extend_from_slice(&ui_digest);
    assets.extend_from_slice(b"/assets");
    let mut index_path = assets.clone();
    index_path.extend_from_slice(b"/index.html");
    let mut js_path = assets.clone();
    js_path.extend_from_slice(b"/assets/app.js");
    assert!(h.actions.iter().any(|a| matches!(
        a,
        FsAction::WriteFile { path, data } if *path == index_path && data == b"<html></html>"
    )));
    assert!(h.actions.iter().any(|a| matches!(
        a,
        FsAction::WriteFile { path, data } if *path == js_path && data == b"console"
    )));

    // the staged ui.zip is written and then removed, with no write in between
    // and after the removal
    let mut staging = assets.clone();
    staging.extend_from_slice(b"/ui.zip");
    let remove_at = h
        .actions
        .iter()
        .position(|a| matches!(a, FsAction::RemoveFile { path } if *path == staging))
        .expect("the staged archive copy must be removed");
    for a in &h.actions[remove_at + 1..] {
        assert!(!matches!(a, FsAction::WriteFile { path, .. } if *path == staging));
    }

    // every action stays under the two installation directories
    for a in &h.actions {
        let p = action_path(a);
        assert!(p.starts_with(b"/uis/") || p.starts_with(b"/happs"));
        assert!(!p.windows(2).any(|w| w == b".."));
    }
}

#[test]
fn mode_a_plain_scenario_two_fields() {
    let app = b"plain app bundle".to_vec();
    let package = b"plain app bundle".to_vec();
    let c = Classified::Plain { app_bundle: app.clone() };
    let h = plan_install_hashed(&package, c, &b"/uis".to_vec(), &b"/happs".to_vec()).unwrap();

    let app_digest = content_digest(&app);
    let mut expected_path = b"/happs/".to_vec();
    expected_path.extend_from_slice(&app_digest);
    expected_path.extend_from_slice(b".happ");

    let fields: Vec<&[u8]> = h.summary.split(|b| *b == b'$').collect();
    assert_eq!(fields.len(), 2);
    assert_eq!(fields[0], expected_path.as_slice());
    assert_eq!(fields[1], app_digest.as_slice());
    assert!(h.ui_digest.is_none());
    assert!(h.package_digest.is_none());

    // no UI directory is created or written
    assert_eq!(h.actions.len(), 2);
    for a in &h.actions {
        assert!(!action_path(a).starts_with(b"/uis"));
    }
    assert!(matches!(&h.actions[0], FsAction::MkDirAll { path } if *path == b"/happs".to_vec()));
    assert!(
        matches!(&h.actions[1], FsAction::WriteFile { path, data } if *path == expected_path && *data == app)
    );
}

#[test]
fn mode_a_is_idempotent() {
    let ui = make_ui_zip();
    let app = b"app".to_vec();
    let package = b"package".to_vec();
    let c1 = Classified::WebWrapped { app_bundle: app.clone(), ui_zip: ui.clone() };
    let c2 = Classified::WebWrapped { app_bundle: app.clone(), ui_zip: ui.clone() };
    let h1 = plan_install_hashed(&package, c1, &b"u".to_vec(), &b"h".to_vec()).unwrap();
    let h2 = plan_install_hashed(&package, c2, &b"u".to_vec(), &b"h".to_vec()).unwrap();
    assert_eq!(h1.happ_path, h2.happ_path);
    assert_eq!(h1.summary, h2.summary);
    assert_eq!(h1.app_digest, h2.app_digest);
    assert_eq!(h1.ui_digest, h2.ui_digest);
    assert_eq!(h1.package_digest, h2.package_digest);
    assert_eq!(h1.actions.len(), h2.actions.len());
    // and a second run plans no exclusive creation that could collide: every
    // action is an idempotent directory creation, an overwrite, or a removal
    // of a file the plan itself wrote earlier
    let staged: Vec<&Vec<u8>> = h1
        .actions
        .iter()
        .filter_map(|a| match a {
            FsAction::WriteFile { path, .. } => Some(path),
            _ => None,
        })
        .collect();
    for a in &h1.actions {
        if let FsAction::RemoveFile { path } = a {
            assert!(staged.contains(&path));
        }
    }
}

#[test]
fn mode_b_rejects_plain_input() {
    let r = plan_install_fixed(
        WebAttempt::NotRecognized(String::from("invalid utf-8 sequence")),
        &b"my-app".to_vec(),
        &b"/uis".to_vec(),
        &b"/happs".to_vec(),
    );
    match r {
        Err(e) => {
            assert!(matches!(e, InstallError::DecodeError(_)));
            assert_eq!(e.message(), "Failed to decode .webhapp file: invalid utf-8 sequence");
        }
        Ok(_) => panic!("Mode B must fail on a non-web-wrapped input, not fall back"),
    }
}

#[test]
fn mode_b_installs_under_caller_identity() {
    let ui = make_ui_zip();
    let app = b"bundle".to_vec();
    let f = plan_install_fixed(
        WebAttempt::Recognized { app_bundle: app.clone(), ui_zip: ui.clone() },
        &b"my-app".to_vec(),
        &b"/uis".to_vec(),
        &b"/happs".to_vec(),
    )
    .unwrap();
    assert_eq!(f.happ_path, b"/happs/my-app.happ".to_vec());
    // the UI tree is written directly into uis_dir, no digest-derived subpath
    assert!(f.actions.iter().any(|a| matches!(
        a,
        FsAction::WriteFile { path, .. } if *path == b"/uis/index.html".to_vec()
    )));
    // the staged copy is /uis/ui.zip and is removed
    assert!(f.actions.iter().any(|a| matches!(
        a,
        FsAction::RemoveFile { path } if *path == b"/uis/ui.zip".to_vec()
    )));
    // the bundle write is the last action
    assert!(matches!(
        f.actions.last().unwrap(),
        FsAction::WriteFile { path, data } if *path == f.happ_path && *data == app
    ));
}

#[test]
fn corrupt_input_fails_with_no_plan() {
    // Mode A: recognized wrapper but corrupt UI archive — no actions exist at all
    let c = Classified::WebWrapped {
        app_bundle: b"app".to_vec(),
        ui_zip: b"truncated garbage".to_vec(),
    };
    let r = plan_install_hashed(&b"pkg".to_vec(), c, &b"/uis".to_vec(), &b"/happs".to_vec());
    match r {
        Err(e) => {
            assert!(matches!(e, InstallError::ExtractionError(_)));
            assert!(e.message().starts_with("Failed to unpack zip archive: "));
        }
        Ok(_) => panic!("a corrupt UI archive must fail Mode A"),
    }

    // Mode B: same corrupt archive
    let r = plan_install_fixed(
        WebAttempt::Recognized { app_bundle: b"app".to_vec(), ui_zip: b"junk".to_vec() },
        &b"id".to_vec(),
        &b"/uis".to_vec(),
        &b"/happs".to_vec(),
    );
    match r {
        Err(e) => {
            assert!(matches!(e, InstallError::ExtractionError(_)));
            assert!(e.message().starts_with("Failed to unpack zip archive: "));
        }
        Ok(_) => panic!("a corrupt UI archive must fail Mode B"),
    }
}

#[test]
fn path_exists_queries_the_filesystem() {
    assert!(path_exists(&std::path::PathBuf::from(".")));
    assert!(!path_exists(&std::path::PathBuf::from("no-such-file-in-this-directory-0192837465")));
}
