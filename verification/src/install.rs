//! The extraction orchestrator: plans a whole installation.
//!
//! Both operating modes share the classify → extract → persist skeleton and
//! differ in how the persisted application bundle is named and where the UI
//! tree is placed. Mode A (hash-addressed) derives every name from content
//! digests and reports a `$`-delimited summary; Mode B (fixed-identity) uses a
//! caller-supplied identifier and fixed directories and reports nothing.
//!
//! A plan is computed before any filesystem work: on any failure no action
//! list exists at all, so nothing is written. Every planned action is an
//! idempotent creation, a full overwrite, or a removal, and the staged UI
//! archive copy is always removed after the entries it contains are written.

use vstd::prelude::*;

use vstd::string::StringExecFns;

use crate::action::{actions_view, lemma_actions_view_concat, FsAction, FsActionSpec};
use crate::archive::{plan_unpack, read_entries, unpack_actions, zip_all_readable, zip_parse};
use crate::bytes::{
    bytes_clone, bytes_push_all, count_byte, join_path, joined, lemma_count_absent,
    lemma_count_concat, DOLLAR, DOT, SLASH,
};
use crate::classify::{
    app_extract_context, extraction_context, ui_extract_context, web_decode_context, Classified,
    InstallError, InstallErrorSpec, WebAttempt,
};
use crate::digest::{content_digest, digest_of};

verus! {

/// The file extension given to a persisted application bundle: `.happ`.
pub open spec fn happ_ext() -> Seq<u8> {
    seq![DOT, 104u8, 97u8, 112u8, 112u8]
}

/// The name of the staged UI archive copy: `ui.zip`.
pub open spec fn ui_zip_name() -> Seq<u8> {
    seq![117u8, 105u8, DOT, 122u8, 105u8, 112u8]
}

/// The subdirectory that receives a hash-addressed UI tree: `assets`.
pub open spec fn assets_name() -> Seq<u8> {
    seq![97u8, 115u8, 115u8, 101u8, 116u8, 115u8]
}

fn push_happ_ext(v: &mut Vec<u8>)
    ensures
        final(v)@ == old(v)@ + happ_ext(),
{
    v.push(DOT);
    v.push(104);
    v.push(97);
    v.push(112);
    v.push(112);
    assert(v@ =~= old(v)@ + happ_ext());
}

fn ui_zip_name_vec() -> (r: Vec<u8>)
    ensures
        r@ == ui_zip_name(),
{
    let mut r: Vec<u8> = Vec::new();
    r.push(117);
    r.push(105);
    r.push(DOT);
    r.push(122);
    r.push(105);
    r.push(112);
    assert(r@ =~= ui_zip_name());
    r
}

fn assets_name_vec() -> (r: Vec<u8>)
    ensures
        r@ == assets_name(),
{
    let mut r: Vec<u8> = Vec::new();
    r.push(97);
    r.push(115);
    r.push(115);
    r.push(101);
    r.push(116);
    r.push(115);
    assert(r@ =~= assets_name());
    r
}

/// The persisted path of a hash-addressed application bundle:
/// `<happs_dir>/<digest>.happ`, the digest taken over the canonical bytes
/// actually written.
pub open spec fn hashed_happ_path(happs_dir: Seq<u8>, app: Seq<u8>) -> Seq<u8> {
    joined(happs_dir, digest_of(app) + happ_ext())
}

/// The persisted path of a fixed-identity application bundle:
/// `<happs_dir>/<app_id>.happ`.
pub open spec fn fixed_happ_path(happs_dir: Seq<u8>, app_id: Seq<u8>) -> Seq<u8> {
    joined(happs_dir, app_id + happ_ext())
}

/// The directory a hash-addressed UI tree is extracted into:
/// `<uis_dir>/<ui_digest>/assets`.
pub open spec fn ui_assets_dir(uis_dir: Seq<u8>, ui: Seq<u8>) -> Seq<u8> {
    joined(joined(uis_dir, digest_of(ui)), assets_name())
}

/// Where the UI archive is staged before extraction: `<dest>/ui.zip`.
pub open spec fn staging_path(dest: Seq<u8>) -> Seq<u8> {
    joined(dest, ui_zip_name())
}

/// The Mode A summary for a plain bundle: `<happ_path>$<app_digest>`.
pub open spec fn summary_plain(happs_dir: Seq<u8>, app: Seq<u8>) -> Seq<u8> {
    hashed_happ_path(happs_dir, app) + seq![DOLLAR] + digest_of(app)
}

/// The Mode A summary for a web-wrapped bundle:
/// `<happ_path>$<app_digest>$<ui_digest>$<package_digest>`.
pub open spec fn summary_web(happs_dir: Seq<u8>, app: Seq<u8>, ui: Seq<u8>, package: Seq<u8>) -> Seq<
    u8,
> {
    summary_plain(happs_dir, app) + seq![DOLLAR] + digest_of(ui) + seq![DOLLAR] + digest_of(package)
}

/// Mode A's actions for a plain bundle: create the store directory, then
/// persist the canonical bundle bytes under their digest-derived name.
pub open spec fn plain_actions(happs_dir: Seq<u8>, app: Seq<u8>) -> Seq<FsActionSpec> {
    seq![
        FsActionSpec::MkDirAll { path: happs_dir },
        FsActionSpec::WriteFile { path: hashed_happ_path(happs_dir, app), data: app },
    ]
}

/// The shared tail of a web-wrapped install: remove the staged archive copy,
/// create the store directory, persist the bundle.
pub open spec fn persist_tail(dest: Seq<u8>, happs_dir: Seq<u8>, happ_path: Seq<u8>, app: Seq<u8>) -> Seq<
    FsActionSpec,
> {
    seq![
        FsActionSpec::RemoveFile { path: staging_path(dest) },
        FsActionSpec::MkDirAll { path: happs_dir },
        FsActionSpec::WriteFile { path: happ_path, data: app },
    ]
}

/// The actions that stage, extract and discard a UI archive under `dest` and
/// then persist the application bundle at `happ_path`: create `dest`, write
/// the staged `ui.zip`, extract every safely named entry, remove the staged
/// copy, and persist. The staged copy is removed after every write of the
/// extraction, so no staging zip remains in the tree.
pub open spec fn web_install_actions(
    dest: Seq<u8>,
    ui: Seq<u8>,
    happs_dir: Seq<u8>,
    happ_path: Seq<u8>,
    app: Seq<u8>,
) -> Seq<FsActionSpec>
    recommends
        zip_parse(ui) is Some,
{
    seq![
        FsActionSpec::MkDirAll { path: dest },
        FsActionSpec::WriteFile { path: staging_path(dest), data: ui },
    ] + unpack_actions(dest, zip_parse(ui)->Some_0) + persist_tail(dest, happs_dir, happ_path, app)
}

/// A planned Mode A installation.
pub struct HashedInstall {
    /// The filesystem actions, in execution order.
    pub actions: Vec<FsAction>,
    /// Where the application bundle is persisted.
    pub happ_path: Vec<u8>,
    /// The digest of the persisted application-bundle bytes.
    pub app_digest: Vec<u8>,
    /// The digest of the UI archive bytes, for a web-wrapped input.
    pub ui_digest: Option<Vec<u8>>,
    /// The digest of the whole original package, for a web-wrapped input.
    pub package_digest: Option<Vec<u8>>,
    /// The `$`-delimited summary string reported to the caller.
    pub summary: Vec<u8>,
}

/// The spec-level value of a [`HashedInstall`].
pub struct HashedSpec {
    pub actions: Seq<FsActionSpec>,
    pub happ_path: Seq<u8>,
    pub app_digest: Seq<u8>,
    pub ui_digest: Option<Seq<u8>>,
    pub package_digest: Option<Seq<u8>>,
    pub summary: Seq<u8>,
}

impl View for HashedInstall {
    type V = HashedSpec;

    open spec fn view(&self) -> HashedSpec {
        HashedSpec {
            actions: actions_view(self.actions@),
            happ_path: self.happ_path@,
            app_digest: self.app_digest@,
            ui_digest: match self.ui_digest {
                Some(d) => Some(d@),
                None => None,
            },
            package_digest: match self.package_digest {
                Some(d) => Some(d@),
                None => None,
            },
            summary: self.summary@,
        }
    }
}

/// The UI archive bytes of a classified package, when it has any.
pub open spec fn classified_ui(c: Classified) -> Option<Seq<u8>> {
    match c {
        Classified::WebWrapped { ui_zip, .. } => Some(ui_zip@),
        Classified::Plain { .. } => None,
    }
}

/// Everything a successful Mode A install of the given content plans and
/// reports — a function of the package bytes, the classified components and
/// the two directories alone.
pub open spec fn hashed_outcome(
    package: Seq<u8>,
    app: Seq<u8>,
    ui: Option<Seq<u8>>,
    uis_dir: Seq<u8>,
    happs_dir: Seq<u8>,
) -> HashedSpec {
    match ui {
        Some(u) => HashedSpec {
            actions: web_install_actions(
                ui_assets_dir(uis_dir, u),
                u,
                happs_dir,
                hashed_happ_path(happs_dir, app),
                app,
            ),
            happ_path: hashed_happ_path(happs_dir, app),
            app_digest: digest_of(app),
            ui_digest: Some(digest_of(u)),
            package_digest: Some(digest_of(package)),
            summary: summary_web(happs_dir, app, u, package),
        },
        None => HashedSpec {
            actions: plain_actions(happs_dir, app),
            happ_path: hashed_happ_path(happs_dir, app),
            app_digest: digest_of(app),
            ui_digest: None,
            package_digest: None,
            summary: summary_plain(happs_dir, app),
        },
    }
}

/// Plans a Mode A (hash-addressed) install of a classified package.
///
/// For a web-wrapped package the UI digest and the whole-package digest are
/// computed, the UI archive is staged and extracted under
/// `<uis_dir>/<ui_digest>/assets`, and the summary carries four `$`-delimited
/// fields; a plain package plans no UI work and a two-field summary. In both
/// cases the canonical application-bundle bytes are persisted under their own
/// digest. A plain package always plans successfully; a web-wrapped one plans
/// successfully whenever its UI archive is well-formed and fully readable, and
/// fails — with an extraction error naming the failing operation, and no plan
/// at all — when the archive cannot be read.
pub fn plan_install_hashed(
    package: &Vec<u8>,
    c: Classified,
    uis_dir: &Vec<u8>,
    happs_dir: &Vec<u8>,
) -> (r: Result<HashedInstall, InstallError>)
    ensures
        c matches Classified::Plain { .. } ==> r is Ok,
        (c matches Classified::WebWrapped { ui_zip, .. } && zip_parse(ui_zip@) is Some
            && zip_all_readable(ui_zip@)) ==> r is Ok,
        (c matches Classified::WebWrapped { ui_zip, .. } && zip_parse(ui_zip@) is None) ==> r
            is Err,
        r matches Ok(h) ==> h@ == hashed_outcome(
            package@,
            c.spec_app_bundle(),
            classified_ui(c),
            uis_dir@,
            happs_dir@,
        ),
        r matches Ok(h) ==> (c matches Classified::WebWrapped { ui_zip, .. } ==> zip_parse(ui_zip@)
            is Some),
        r matches Err(e) ==> (e@ matches InstallErrorSpec::ExtractionError(m)
            && extraction_context(m)),
{
    match c {
        Classified::WebWrapped { app_bundle, ui_zip } => {
            let ghost appv = app_bundle@;
            let ghost uiv = ui_zip@;
            let ui_digest = content_digest(&ui_zip);
            let package_digest = content_digest(package);
            let ui_root = join_path(uis_dir, &ui_digest);
            let assets = join_path(&ui_root, &assets_name_vec());
            let staging = join_path(&assets, &ui_zip_name_vec());
            let entries = match read_entries(bytes_clone(&ui_zip)) {
                Ok(v) => v,
                Err(e) => {
                    return Err(e);
                },
            };
            let mut unpack = plan_unpack(&assets, &entries);
            let app_digest = content_digest(&app_bundle);
            let mut file_name = bytes_clone(&app_digest);
            push_happ_ext(&mut file_name);
            let happ_path = join_path(happs_dir, &file_name);

            let mut actions: Vec<FsAction> = Vec::new();
            actions.push(FsAction::MkDirAll { path: bytes_clone(&assets) });
            actions.push(
                FsAction::WriteFile { path: bytes_clone(&staging), data: bytes_clone(&ui_zip) },
            );
            let ghost head = actions@;
            let ghost unpacked = unpack@;
            actions.append(&mut unpack);
            proof {
                lemma_actions_view_concat(head, unpacked);
            }
            let ghost mid = actions@;
            actions.push(FsAction::RemoveFile { path: staging });
            actions.push(FsAction::MkDirAll { path: bytes_clone(happs_dir) });
            actions.push(FsAction::WriteFile { path: bytes_clone(&happ_path), data: app_bundle });

            let mut summary = bytes_clone(&happ_path);
            summary.push(DOLLAR);
            bytes_push_all(&mut summary, &app_digest);
            summary.push(DOLLAR);
            bytes_push_all(&mut summary, &ui_digest);
            summary.push(DOLLAR);
            bytes_push_all(&mut summary, &package_digest);

            proof {
                let dest = ui_assets_dir(uis_dir@, uiv);
                assert(assets@ == dest);
                assert(happ_path@ == hashed_happ_path(happs_dir@, appv));
                assert(actions_view(head) =~= seq![
                    FsActionSpec::MkDirAll { path: dest },
                    FsActionSpec::WriteFile { path: staging_path(dest), data: uiv },
                ]);
                assert(actions_view(actions@) =~= web_install_actions(
                    dest,
                    uiv,
                    happs_dir@,
                    hashed_happ_path(happs_dir@, appv),
                    appv,
                ));
                assert(summary@ =~= summary_web(happs_dir@, appv, uiv, package@));
            }
            Ok(
                HashedInstall {
                    actions,
                    happ_path,
                    app_digest,
                    ui_digest: Some(ui_digest),
                    package_digest: Some(package_digest),
                    summary,
                },
            )
        },
        Classified::Plain { app_bundle } => {
            let ghost appv = app_bundle@;
            let app_digest = content_digest(&app_bundle);
            let mut file_name = bytes_clone(&app_digest);
            push_happ_ext(&mut file_name);
            let happ_path = join_path(happs_dir, &file_name);

            let mut actions: Vec<FsAction> = Vec::new();
            actions.push(FsAction::MkDirAll { path: bytes_clone(happs_dir) });
            actions.push(FsAction::WriteFile { path: bytes_clone(&happ_path), data: app_bundle });

            let mut summary = bytes_clone(&happ_path);
            summary.push(DOLLAR);
            bytes_push_all(&mut summary, &app_digest);

            proof {
                assert(happ_path@ == hashed_happ_path(happs_dir@, appv));
                assert(actions_view(actions@) =~= plain_actions(happs_dir@, appv));
                assert(summary@ =~= summary_plain(happs_dir@, appv));
            }
            Ok(
                HashedInstall {
                    actions,
                    happ_path,
                    app_digest,
                    ui_digest: None,
                    package_digest: None,
                    summary,
                },
            )
        },
    }
}

/// A planned Mode B installation.
pub struct FixedInstall {
    /// The filesystem actions, in execution order.
    pub actions: Vec<FsAction>,
    /// Where the application bundle is persisted.
    pub happ_path: Vec<u8>,
}

/// The spec-level value of a [`FixedInstall`].
pub struct FixedSpec {
    pub actions: Seq<FsActionSpec>,
    pub happ_path: Seq<u8>,
}

impl View for FixedInstall {
    type V = FixedSpec;

    open spec fn view(&self) -> FixedSpec {
        FixedSpec { actions: actions_view(self.actions@), happ_path: self.happ_path@ }
    }
}

/// Everything a successful Mode B install plans — the UI tree goes directly
/// under `uis_dir`, and the bundle under the caller's identifier.
pub open spec fn fixed_outcome(
    app: Seq<u8>,
    ui: Seq<u8>,
    app_id: Seq<u8>,
    uis_dir: Seq<u8>,
    happs_dir: Seq<u8>,
) -> FixedSpec {
    FixedSpec {
        actions: web_install_actions(
            uis_dir,
            ui,
            happs_dir,
            fixed_happ_path(happs_dir, app_id),
            app,
        ),
        happ_path: fixed_happ_path(happs_dir, app_id),
    }
}

/// Plans a Mode B (fixed-identity) install from the host's web-wrapped decode
/// attempt.
///
/// Mode B presumes a web-wrapped package: when the blob is not recognized as
/// one — in particular when it is a plain application bundle — the plan fails
/// with the decode error, never by silently treating the input as acceptable.
/// A recognized package plans successfully whenever its UI archive is
/// well-formed and fully readable: its UI tree is extracted directly under
/// `uis_dir` and its bundle persisted at `<happs_dir>/<app_id>.happ`; nothing
/// beyond success is reported.
pub fn plan_install_fixed(
    web: WebAttempt,
    app_id: &Vec<u8>,
    uis_dir: &Vec<u8>,
    happs_dir: &Vec<u8>,
) -> (r: Result<FixedInstall, InstallError>)
    ensures
        web matches WebAttempt::NotRecognized(m) ==> (r matches Err(e) && e@
            == InstallErrorSpec::DecodeError(web_decode_context(m@))),
        web matches WebAttempt::UiExtractFailed(m) ==> (r matches Err(e) && e@
            == InstallErrorSpec::DecodeError(ui_extract_context(m@))),
        web matches WebAttempt::AppExtractFailed(m) ==> (r matches Err(e) && e@
            == InstallErrorSpec::DecodeError(app_extract_context(m@))),
        (web matches WebAttempt::Recognized { ui_zip, .. } && zip_parse(ui_zip@) is Some
            && zip_all_readable(ui_zip@)) ==> r is Ok,
        (web matches WebAttempt::Recognized { ui_zip, .. } && zip_parse(ui_zip@) is None) ==> (r
            is Err && r->Err_0@ matches InstallErrorSpec::ExtractionError(_)),
        web matches WebAttempt::Recognized { .. } ==> (r matches Err(e) ==> (e@
            matches InstallErrorSpec::ExtractionError(m) && extraction_context(m))),
        r matches Ok(f) ==> (web matches WebAttempt::Recognized { app_bundle, ui_zip } && f@
            == fixed_outcome(app_bundle@, ui_zip@, app_id@, uis_dir@, happs_dir@)),
{
    match web {
        WebAttempt::NotRecognized(m) => Err(
            InstallError::DecodeError(
                String::from_str("Failed to decode .webhapp file: ").concat(m.as_str()),
            ),
        ),
        WebAttempt::UiExtractFailed(m) => Err(
            InstallError::DecodeError(
                String::from_str("Failed to extract ui zip bytes: ").concat(m.as_str()),
            ),
        ),
        WebAttempt::AppExtractFailed(m) => Err(
            InstallError::DecodeError(
                String::from_str("Failed to get happ bundle from webapp bundle bytes: ").concat(
                    m.as_str(),
                ),
            ),
        ),
        WebAttempt::Recognized { app_bundle, ui_zip } => {
            let ghost appv = app_bundle@;
            let ghost uiv = ui_zip@;
            let staging = join_path(uis_dir, &ui_zip_name_vec());
            let entries = match read_entries(bytes_clone(&ui_zip)) {
                Ok(v) => v,
                Err(e) => {
                    return Err(e);
                },
            };
            let mut unpack = plan_unpack(uis_dir, &entries);
            let mut file_name = bytes_clone(app_id);
            push_happ_ext(&mut file_name);
            let happ_path = join_path(happs_dir, &file_name);

            let mut actions: Vec<FsAction> = Vec::new();
            actions.push(FsAction::MkDirAll { path: bytes_clone(uis_dir) });
            actions.push(
                FsAction::WriteFile { path: bytes_clone(&staging), data: bytes_clone(&ui_zip) },
            );
            let ghost head = actions@;
            let ghost unpacked = unpack@;
            actions.append(&mut unpack);
            proof {
                lemma_actions_view_concat(head, unpacked);
            }
            actions.push(FsAction::RemoveFile { path: staging });
            actions.push(FsAction::MkDirAll { path: bytes_clone(happs_dir) });
            actions.push(FsAction::WriteFile { path: bytes_clone(&happ_path), data: app_bundle });

            proof {
                assert(happ_path@ == fixed_happ_path(happs_dir@, app_id@));
                assert(actions_view(head) =~= seq![
                    FsActionSpec::MkDirAll { path: uis_dir@ },
                    FsActionSpec::WriteFile { path: staging_path(uis_dir@), data: uiv },
                ]);
                assert(actions_view(actions@) =~= web_install_actions(
                    uis_dir@,
                    uiv,
                    happs_dir@,
                    fixed_happ_path(happs_dir@, app_id@),
                    appv,
                ));
            }
            Ok(FixedInstall { actions, happ_path })
        },
    }
}

#[verifier::external_type_specification]
#[verifier::external_body]
pub struct ExPathBuf(std::path::PathBuf);

/// Relies on std::path::Path::exists: asks the filesystem whether the path
/// exists right now. The answer depends on the filesystem's state, so nothing
/// is promised of it.
#[verifier::external_body]
fn fs_path_exists(path: &std::path::PathBuf) -> bool {
    std::path::Path::new(path).exists()
}

/// Whether a path currently exists on the filesystem. Planned actions never
/// depend on the answer — every action tolerates a pre-existing target — but
/// hosts may consult it before performing a plan.
pub fn path_exists(path: &std::path::PathBuf) -> bool {
    fs_path_exists(path)
}

/// Mode A is idempotent: planning the installation of byte-identical content
/// into the same directories yields the identical persisted path, digests,
/// summary and actions, both times. And since every planned action is an
/// idempotent directory creation, a full overwrite, or a removal of a file the
/// same plan wrote earlier, performing the identical plan a second time does
/// not fail because its targets already exist.
pub proof fn lemma_mode_a_idempotent(
    package_a: Seq<u8>,
    app_a: Seq<u8>,
    ui_a: Option<Seq<u8>>,
    uis_dir_a: Seq<u8>,
    happs_dir_a: Seq<u8>,
    package_b: Seq<u8>,
    app_b: Seq<u8>,
    ui_b: Option<Seq<u8>>,
    uis_dir_b: Seq<u8>,
    happs_dir_b: Seq<u8>,
)
    requires
        package_a == package_b,
        app_a == app_b,
        ui_a == ui_b,
        uis_dir_a == uis_dir_b,
        happs_dir_a == happs_dir_b,
    ensures
        hashed_outcome(package_a, app_a, ui_a, uis_dir_a, happs_dir_a) == hashed_outcome(
            package_b,
            app_b,
            ui_b,
            uis_dir_b,
            happs_dir_b,
        ),
{
}

proof fn lemma_count_single(c: u8, d: u8)
    ensures
        count_byte(seq![c], d) == if c == d {
            1int
        } else {
            0int
        },
{
    assert(count_byte(Seq::<u8>::empty(), d) == 0);
    assert(seq![c].subrange(0, 0) =~= Seq::<u8>::empty());
    assert(seq![c].len() == 1 && seq![c][0] == c);
}

proof fn lemma_digest_no_dollar(b: Seq<u8>)
    ensures
        count_byte(digest_of(b), DOLLAR) == 0,
{
    crate::hex::lemma_hex_of_is_hex(crate::digest::sha256_of(b));
    lemma_count_absent(digest_of(b), DOLLAR);
}

proof fn lemma_happ_path_no_dollar(happs_dir: Seq<u8>, name: Seq<u8>)
    requires
        count_byte(happs_dir, DOLLAR) == 0,
        count_byte(name, DOLLAR) == 0,
    ensures
        count_byte(joined(happs_dir, name + happ_ext()), DOLLAR) == 0,
{
    assert forall|i: int| 0 <= i < happ_ext().len() implies happ_ext()[i] != DOLLAR by {
        assert(happ_ext().len() == 5);
    }
    lemma_count_absent(happ_ext(), DOLLAR);
    lemma_count_single(SLASH, DOLLAR);
    lemma_count_concat(name, happ_ext(), DOLLAR);
    lemma_count_concat(happs_dir, seq![SLASH], DOLLAR);
    lemma_count_concat(happs_dir + seq![SLASH], name + happ_ext(), DOLLAR);
    assert(joined(happs_dir, name + happ_ext()) =~= (happs_dir + seq![SLASH]) + (name
        + happ_ext()));
}

/// The Mode A summary's field structure: when the store directory's path is
/// free of the delimiter — as every field must be — the summary for a plain
/// bundle contains exactly one `$` (two fields: path and bundle digest), and
/// the summary for a web-wrapped bundle exactly three (four fields: path and
/// the bundle, UI and whole-package digests, in that order).
pub proof fn lemma_summary_fields(happs_dir: Seq<u8>, app: Seq<u8>, ui: Seq<u8>, package: Seq<u8>)
    requires
        count_byte(happs_dir, DOLLAR) == 0,
    ensures
        count_byte(summary_plain(happs_dir, app), DOLLAR) == 1,
        count_byte(summary_web(happs_dir, app, ui, package), DOLLAR) == 3,
{
    lemma_digest_no_dollar(app);
    lemma_digest_no_dollar(ui);
    lemma_digest_no_dollar(package);
    lemma_happ_path_no_dollar(happs_dir, digest_of(app));
    lemma_count_single(DOLLAR, DOLLAR);
    let p = hashed_happ_path(happs_dir, app);
    lemma_count_concat(p, seq![DOLLAR], DOLLAR);
    lemma_count_concat(p + seq![DOLLAR], digest_of(app), DOLLAR);
    assert(summary_plain(happs_dir, app) =~= (p + seq![DOLLAR]) + digest_of(app));
    let sp = summary_plain(happs_dir, app);
    lemma_count_concat(sp, seq![DOLLAR], DOLLAR);
    lemma_count_concat(sp + seq![DOLLAR], digest_of(ui), DOLLAR);
    let su = sp + seq![DOLLAR] + digest_of(ui);
    lemma_count_concat(su, seq![DOLLAR], DOLLAR);
    lemma_count_concat(su + seq![DOLLAR], digest_of(package), DOLLAR);
    assert(summary_web(happs_dir, app, ui, package) =~= (su + seq![DOLLAR]) + digest_of(package));
}

/// Whether an action list removes the staged archive at `staged` and never
/// writes that path again afterwards.
pub open spec fn staging_discarded(actions: Seq<FsActionSpec>, staged: Seq<u8>) -> bool {
    exists|j: int|
        0 <= j < actions.len() && (#[trigger] actions[j]) == (FsActionSpec::RemoveFile {
            path: staged,
        }) && (forall|k: int|
            j < k < actions.len() ==> ((#[trigger] actions[k]) matches FsActionSpec::WriteFile {
                path,
                ..
            } ==> path != staged))
}

/// No staging zip remains: a web-wrapped install's plan removes the staged
/// `ui.zip` copy after every write of the extraction, and the only later write
/// targets the persisted `.happ` file, whose name can never equal the staged
/// copy's.
pub proof fn lemma_staging_discarded(
    dest: Seq<u8>,
    ui: Seq<u8>,
    happs_dir: Seq<u8>,
    happ_name: Seq<u8>,
    app: Seq<u8>,
)
    requires
        zip_parse(ui) is Some,
    ensures
        staging_discarded(
            web_install_actions(dest, ui, happs_dir, joined(happs_dir, happ_name + happ_ext()), app),
            staging_path(dest),
        ),
{
    let happ_path = joined(happs_dir, happ_name + happ_ext());
    let staged = staging_path(dest);
    let u = unpack_actions(dest, zip_parse(ui)->Some_0);
    let acts = web_install_actions(dest, ui, happs_dir, happ_path, app);
    // the two paths differ in their next-to-last byte: `.happ` vs `ui.zip`
    assert(happ_path[happ_path.len() - 2] == 112) by {
        assert(happ_ext()[3] == 112);
        assert(happ_path.len() == happs_dir.len() + 1 + happ_name.len() + 5);
    }
    assert(staged[staged.len() - 2] == 105) by {
        assert(ui_zip_name()[4] == 105);
        assert(staged.len() == dest.len() + 1 + 6);
    }
    assert(happ_path != staged);
    let j: int = 2 + u.len() as int;
    assert(acts.len() == j + 3);
    assert(acts[j] == (FsActionSpec::RemoveFile { path: staged }));
    assert(acts[j + 1] == (FsActionSpec::MkDirAll { path: happs_dir }));
    assert(acts[j + 2] == (FsActionSpec::WriteFile { path: happ_path, data: app }));
    assert forall|k: int|
        j < k < acts.len() implies ((#[trigger] acts[k]) matches FsActionSpec::WriteFile {
        path,
        ..
    } ==> path != staged) by {
        assert(k == j + 1 || k == j + 2);
    }
}

proof fn lemma_safe_ui_zip_name()
    ensures
        crate::archive::safe_name(ui_zip_name()),
{
    let n = ui_zip_name();
    assert(n.len() == 6);
    assert forall|i: int| 0 <= i < n.len() implies crate::archive::ok_byte(#[trigger] n[i]) && n[i]
        != SLASH by {
        assert(n[0] == 117 && n[1] == 105 && n[2] == 46 && n[3] == 122 && n[4] == 105 && n[5]
            == 112);
    }
    assert forall|i: int|
        0 <= i < n.len() && #[trigger] crate::archive::component_starts(n, i) implies
        !crate::archive::dot_at(n, i) && !crate::archive::dotdot_at(n, i) by {
        if i > 0 {
            assert(n[i - 1] != SLASH);
        }
        assert(i == 0);
        assert(n[0] != DOT);
    }
}

proof fn lemma_safe_happ_file_name(app: Seq<u8>)
    ensures
        crate::archive::safe_name(digest_of(app) + happ_ext()),
{
    let d = digest_of(app);
    let n = d + happ_ext();
    crate::hex::lemma_hex_of_is_hex(crate::digest::sha256_of(app));
    assert(happ_ext().len() == 5);
    assert forall|i: int| 0 <= i < n.len() implies crate::archive::ok_byte(#[trigger] n[i]) && n[i]
        != SLASH by {
        if i < d.len() {
            assert(n[i] == d[i]);
            assert(crate::hex::is_hex_ascii(d[i]));
        } else {
            assert(n[i] == happ_ext()[i - d.len()]);
        }
    }
    assert forall|i: int|
        0 <= i < n.len() && #[trigger] crate::archive::component_starts(n, i) implies
        !crate::archive::dot_at(n, i) && !crate::archive::dotdot_at(n, i) by {
        if i > 0 {
            assert(n[i - 1] != SLASH);
        }
        assert(i == 0);
        if d.len() > 0 {
            assert(n[0] == d[0]);
            assert(crate::hex::is_hex_ascii(d[0]));
            assert(n[0] != DOT);
        } else {
            assert(n[1] == happ_ext()[1] && n[1] == 104);
        }
    }
}

/// The filesystem footprint of a Mode A plan: a web-wrapped install touches
/// only the extraction directory `<uis_dir>/<ui_digest>/assets` (or safely
/// named paths under it) and the store directory `happs_dir` (or the `.happ`
/// file under it); a plain install touches the store directory alone. Nothing
/// is planned anywhere else on the filesystem.
pub proof fn lemma_hashed_plan_within_roots(
    package: Seq<u8>,
    app: Seq<u8>,
    ui: Seq<u8>,
    uis_dir: Seq<u8>,
    happs_dir: Seq<u8>,
)
    requires
        zip_parse(ui) is Some,
    ensures
        forall|k: int|
            0 <= k < hashed_outcome(package, app, Some(ui), uis_dir, happs_dir).actions.len()
                ==> crate::archive::within_dest(
                ui_assets_dir(uis_dir, ui),
                (#[trigger] hashed_outcome(package, app, Some(ui), uis_dir, happs_dir).actions[k]).path(),
            ) || crate::archive::within_dest(
                happs_dir,
                hashed_outcome(package, app, Some(ui), uis_dir, happs_dir).actions[k].path(),
            ),
        forall|k: int|
            0 <= k < hashed_outcome(package, app, None, uis_dir, happs_dir).actions.len()
                ==> crate::archive::within_dest(
                happs_dir,
                (#[trigger] hashed_outcome(package, app, None, uis_dir, happs_dir).actions[k]).path(),
            ),
{
    let dest = ui_assets_dir(uis_dir, ui);
    let u = unpack_actions(dest, zip_parse(ui)->Some_0);
    let acts = hashed_outcome(package, app, Some(ui), uis_dir, happs_dir).actions;
    let happ_path = hashed_happ_path(happs_dir, app);
    crate::archive::lemma_unpack_within(dest, zip_parse(ui)->Some_0);
    lemma_safe_ui_zip_name();
    lemma_safe_happ_file_name(app);
    assert(acts.len() == u.len() + 5);
    assert forall|k: int| 0 <= k < acts.len() implies crate::archive::within_dest(
        dest,
        (#[trigger] acts[k]).path(),
    ) || crate::archive::within_dest(happs_dir, acts[k].path()) by {
        if k == 0 {
            assert(acts[k].path() == dest);
        } else if k == 1 {
            assert(acts[k].path() == staging_path(dest));
            assert(staging_path(dest) == joined(dest, ui_zip_name()));
        } else if k < 2 + u.len() {
            assert(acts[k] == u[k - 2]);
            assert(crate::archive::within_dest(dest, u[k - 2].path()));
        } else if k == 2 + u.len() {
            assert(acts[k].path() == staging_path(dest));
        } else if k == 3 + u.len() {
            assert(acts[k].path() == happs_dir);
        } else {
            assert(acts[k].path() == happ_path);
            assert(happ_path == joined(happs_dir, digest_of(app) + happ_ext()));
        }
    }
    let plain = hashed_outcome(package, app, None, uis_dir, happs_dir).actions;
    assert forall|k: int| 0 <= k < plain.len() implies crate::archive::within_dest(
        happs_dir,
        (#[trigger] plain[k]).path(),
    ) by {
        if k == 0 {
            assert(plain[k].path() == happs_dir);
        } else {
            assert(plain[k].path() == happ_path);
        }
    }
}

/// Completeness of a web-wrapped install: every file entry of the UI archive
/// whose recorded name is safe has its contents written, in full, at that name
/// joined under the extraction directory.
pub proof fn lemma_web_install_complete(
    dest: Seq<u8>,
    ui: Seq<u8>,
    happs_dir: Seq<u8>,
    happ_path: Seq<u8>,
    app: Seq<u8>,
)
    requires
        zip_parse(ui) is Some,
    ensures
        forall|k: int|
            0 <= k < zip_parse(ui)->Some_0.len() && crate::archive::safe_name(
                (#[trigger] zip_parse(ui)->Some_0[k]).0,
            ) && !crate::archive::is_dir_name(zip_parse(ui)->Some_0[k].0)
                ==> web_install_actions(dest, ui, happs_dir, happ_path, app).contains(
                FsActionSpec::WriteFile {
                    path: joined(dest, zip_parse(ui)->Some_0[k].0),
                    data: zip_parse(ui)->Some_0[k].1,
                },
            ),
{
    let entries = zip_parse(ui)->Some_0;
    let u = unpack_actions(dest, entries);
    let acts = web_install_actions(dest, ui, happs_dir, happ_path, app);
    crate::archive::lemma_unpack_complete(dest, entries);
    assert forall|k: int|
        0 <= k < entries.len() && crate::archive::safe_name((#[trigger] entries[k]).0)
            && !crate::archive::is_dir_name(entries[k].0) implies acts.contains(
        FsActionSpec::WriteFile { path: joined(dest, entries[k].0), data: entries[k].1 },
    ) by {
        let w = FsActionSpec::WriteFile { path: joined(dest, entries[k].0), data: entries[k].1 };
        assert(u.contains(w));
        let j = choose|j: int| 0 <= j < u.len() && u[j] == w;
        assert(acts[2 + j] == w);
    }
}

} // verus!
