//! Bundle classification: deciding whether a package blob is a web-wrapped
//! bundle or a plain application bundle.
//!
//! The binary container format's own decode routines are an outside capability
//! that the host performs; this module holds the decision logic over their
//! outcomes. Classification attempts the web-wrapped reading first; only when
//! the blob is not recognized as web-wrapped at all does it fall back to the
//! plain reading. A failure to extract a component from a *recognized*
//! web-wrapped container is a hard failure, never a fallback trigger.

use vstd::prelude::*;

use vstd::string::StringExecFns;

verus! {

/// A fatal installation failure, carrying the failing operation's context and
/// the underlying cause.
#[derive(Debug)]
pub enum InstallError {
    /// The blob was recognized as neither container kind, or a recognized
    /// web-wrapped container's embedded component could not be extracted.
    DecodeError(String),
    /// The UI archive could not be opened, or one of its entries could not be
    /// read.
    ExtractionError(String),
}

/// The spec-level value of an [`InstallError`].
pub enum InstallErrorSpec {
    DecodeError(Seq<char>),
    ExtractionError(Seq<char>),
}

impl View for InstallError {
    type V = InstallErrorSpec;

    open spec fn view(&self) -> InstallErrorSpec {
        match self {
            InstallError::DecodeError(m) => InstallErrorSpec::DecodeError(m@),
            InstallError::ExtractionError(m) => InstallErrorSpec::ExtractionError(m@),
        }
    }
}

impl InstallError {
    /// The human-readable text of the error.
    pub fn message(&self) -> (r: &String)
        ensures
            self@ matches InstallErrorSpec::DecodeError(m) ==> r@ == m,
            self@ matches InstallErrorSpec::ExtractionError(m) ==> r@ == m,
    {
        match self {
            InstallError::DecodeError(m) => m,
            InstallError::ExtractionError(m) => m,
        }
    }
}

/// The host's attempt to read the blob as a web-wrapped bundle, reported to
/// the classifier. A recognized container hands over the canonical
/// (re-encoded) application-bundle bytes and the UI archive bytes as plain
/// values.
pub enum WebAttempt {
    /// The blob was not recognized as a web-wrapped container at all.
    NotRecognized(String),
    /// Recognized, but the embedded UI archive could not be extracted.
    UiExtractFailed(String),
    /// Recognized, but the application-bundle component could not be
    /// extracted or re-encoded.
    AppExtractFailed(String),
    /// Recognized and split into its two components.
    Recognized { app_bundle: Vec<u8>, ui_zip: Vec<u8> },
}

/// The host's attempt to read the blob directly as a plain application
/// bundle.
pub enum PlainAttempt {
    /// The plain decode failed with the decoder's own message.
    Failed(String),
    /// Decoded; the canonical (re-encoded) application-bundle bytes.
    Decoded { app_bundle: Vec<u8> },
}

/// The classifier's verdict on a package blob.
pub enum Classified {
    /// An application bundle together with a zipped UI asset tree.
    WebWrapped { app_bundle: Vec<u8>, ui_zip: Vec<u8> },
    /// An application bundle alone.
    Plain { app_bundle: Vec<u8> },
}

impl Classified {
    /// The canonical application-bundle bytes of either verdict.
    pub open spec fn spec_app_bundle(self) -> Seq<u8> {
        match self {
            Classified::WebWrapped { app_bundle, .. } => app_bundle@,
            Classified::Plain { app_bundle } => app_bundle@,
        }
    }
}

/// What the classifier decided after the web-wrapped attempt alone.
pub enum ClassifyStep {
    /// The blob is web-wrapped; no further attempt is made.
    Classified(Classified),
    /// The blob is not web-wrapped; the plain attempt must be consulted.
    TryPlain,
    /// The blob is web-wrapped but broken: a hard failure, not a fallback.
    Rejected(InstallError),
}

pub open spec fn ui_extract_context(m: Seq<char>) -> Seq<char> {
    "Failed to extract ui zip bytes: "@ + m
}

pub open spec fn app_extract_context(m: Seq<char>) -> Seq<char> {
    "Failed to get happ bundle from webapp bundle bytes: "@ + m
}

pub open spec fn web_decode_context(m: Seq<char>) -> Seq<char> {
    "Failed to decode .webhapp file: "@ + m
}

pub open spec fn unpack_context(m: Seq<char>) -> Seq<char> {
    "Failed to unpack zip archive: "@ + m
}

pub open spec fn entry_read_context(m: Seq<char>) -> Seq<char> {
    "Failed to read zip entry: "@ + m
}

/// Whether an extraction failure's message names the failing operation as
/// spec'd: opening the archive, or reading one of its entries, each with the
/// underlying cause appended.
pub open spec fn extraction_context(m: Seq<char>) -> bool {
    (exists|raw: Seq<char>| m == #[trigger] unpack_context(raw)) || (exists|raw: Seq<char>|
        m == #[trigger] entry_read_context(raw))
}

/// First classification arm: the outcome of the attempt to read the blob as a
/// web-wrapped bundle. A recognized container is classified at once; failure
/// to extract either component of a recognized container is a hard decode
/// error; only an unrecognized blob falls through to the plain attempt.
pub fn classify_web_attempt(web: WebAttempt) -> (r: ClassifyStep)
    ensures
        web matches WebAttempt::Recognized { app_bundle, ui_zip } ==> r == ClassifyStep::Classified(
            Classified::WebWrapped { app_bundle, ui_zip },
        ),
        web matches WebAttempt::NotRecognized(_) ==> r == ClassifyStep::TryPlain,
        web matches WebAttempt::UiExtractFailed(m) ==> (r matches ClassifyStep::Rejected(e)
            && e@ == InstallErrorSpec::DecodeError(ui_extract_context(m@))),
        web matches WebAttempt::AppExtractFailed(m) ==> (r matches ClassifyStep::Rejected(e)
            && e@ == InstallErrorSpec::DecodeError(app_extract_context(m@))),
{
    match web {
        WebAttempt::Recognized { app_bundle, ui_zip } => ClassifyStep::Classified(
            Classified::WebWrapped { app_bundle, ui_zip },
        ),
        WebAttempt::NotRecognized(_) => ClassifyStep::TryPlain,
        WebAttempt::UiExtractFailed(m) => ClassifyStep::Rejected(
            InstallError::DecodeError(
                String::from_str("Failed to extract ui zip bytes: ").concat(m.as_str()),
            ),
        ),
        WebAttempt::AppExtractFailed(m) => ClassifyStep::Rejected(
            InstallError::DecodeError(
                String::from_str("Failed to get happ bundle from webapp bundle bytes: ").concat(
                    m.as_str(),
                ),
            ),
        ),
    }
}

/// Second classification arm, consulted only when the blob was not recognized
/// as web-wrapped: the outcome of the attempt to read it as a plain
/// application bundle. On failure the plain decoder's message is surfaced,
/// wrapped with context; there is no third fallback.
pub fn classify_plain_attempt(plain: PlainAttempt) -> (r: Result<Classified, InstallError>)
    ensures
        plain matches PlainAttempt::Decoded { app_bundle } ==> r == Result::<Classified,
            InstallError,
        >::Ok(Classified::Plain { app_bundle }),
        plain matches PlainAttempt::Failed(m) ==> (r matches Err(e) && e@
            == InstallErrorSpec::DecodeError(web_decode_context(m@))),
{
    match plain {
        PlainAttempt::Decoded { app_bundle } => Ok(Classified::Plain { app_bundle }),
        PlainAttempt::Failed(m) => Err(
            InstallError::DecodeError(
                String::from_str("Failed to decode .webhapp file: ").concat(m.as_str()),
            ),
        ),
    }
}

/// Full classification of a blob from both attempts' outcomes. The plain
/// attempt is consulted only when the web-wrapped attempt did not recognize
/// the blob; a host that attempts lazily can call the two arms itself.
///
/// A valid plain application bundle is classified `Plain`; a valid
/// web-wrapped bundle is classified `WebWrapped` with exactly one
/// application-bundle component and one UI archive byte sequence.
pub fn classify(web: WebAttempt, plain: PlainAttempt) -> (r: Result<Classified, InstallError>)
    ensures
        web matches WebAttempt::Recognized { app_bundle, ui_zip } ==> r == Result::<Classified,
            InstallError,
        >::Ok(Classified::WebWrapped { app_bundle, ui_zip }),
        web matches WebAttempt::UiExtractFailed(m) ==> (r matches Err(e) && e@
            == InstallErrorSpec::DecodeError(ui_extract_context(m@))),
        web matches WebAttempt::AppExtractFailed(m) ==> (r matches Err(e) && e@
            == InstallErrorSpec::DecodeError(app_extract_context(m@))),
        web matches WebAttempt::NotRecognized(_) ==> {
            &&& plain matches PlainAttempt::Decoded { app_bundle } ==> r == Result::<
                Classified,
                InstallError,
            >::Ok(Classified::Plain { app_bundle })
            &&& plain matches PlainAttempt::Failed(m) ==> (r matches Err(e) && e@
                == InstallErrorSpec::DecodeError(web_decode_context(m@)))
        },
{
    match classify_web_attempt(web) {
        ClassifyStep::Classified(c) => Ok(c),
        ClassifyStep::Rejected(e) => Err(e),
        ClassifyStep::TryPlain => classify_plain_attempt(plain),
    }
}

} // verus!
