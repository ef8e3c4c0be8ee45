//! The calls into the verification engine (c2pa) and the media-type sniffer
//! (infer). Each function here is believed as its contract states.

use vstd::prelude::*;

use crate::report::{ActionRecord, AgentInfo, IngredientRecord, ValidationState};

verus! {

#[verifier::external_type_specification]
#[verifier::external_body]
pub struct ExEngineError(c2pa::Error);

#[verifier::external_type_specification]
#[verifier::external_body]
pub struct ExReader(c2pa::Reader);

#[verifier::external_type_specification]
#[verifier::external_body]
pub struct ExSettings(c2pa::Settings);

#[verifier::external_type_specification]
#[verifier::external_body]
pub struct ExContext(c2pa::Context);

#[verifier::external_type_specification]
#[verifier::external_body]
pub struct ExManifest(c2pa::Manifest);

#[verifier::external_type_specification]
#[verifier::external_body]
pub struct ExActions(c2pa::assertions::Actions);

#[verifier::external_type_specification]
#[verifier::external_body]
pub struct ExAction(c2pa::assertions::Action);

#[verifier::external_type_specification]
#[verifier::external_body]
pub struct ExIngredient(c2pa::Ingredient);

/// The media type that magic-number detection finds in a buffer, if any.
pub uninterp spec fn sniffed_type_of(bytes: Seq<u8>) -> Option<Seq<char>>;

/// Relies on `infer::get` and `Type::mime_type`: the media type read from
/// the buffer's leading bytes; it depends on the bytes alone.
#[verifier::external_body]
pub(crate) fn sniff_media_type(bytes: &[u8]) -> (r: Option<String>)
    ensures
        match r {
            Some(t) => sniffed_type_of(bytes@) == Some(t@),
            None => sniffed_type_of(bytes@) is None,
        },
{
    infer::get(bytes).map(|k| k.mime_type().to_string())
}

/// Relies on `c2pa::Settings::new`: the engine's default settings, as a
/// value of their own that no other request sees.
#[verifier::external_body]
pub(crate) fn default_settings() -> (r: c2pa::Settings) {
    c2pa::Settings::new()
}

/// Whether the engine accepts a TOML settings document over its defaults.
pub uninterp spec fn settings_accept(toml: Seq<char>) -> bool;

/// Relies on `c2pa::Settings::new` and `Settings::with_toml`: the engine's
/// defaults overlaid with a TOML document, or the engine's error where it
/// rejects the document. The defaults are fixed values and the overlay reads
/// nothing but the document, so acceptance depends on its text alone.
#[verifier::external_body]
pub(crate) fn overlay_defaults(toml: &str) -> (r: Result<c2pa::Settings, c2pa::Error>)
    ensures
        r is Ok <==> settings_accept(toml@),
{
    c2pa::Settings::new().with_toml(toml)
}

/// Relies on `c2pa::Context::new` and `Context::with_settings`: an engine
/// context that runs under exactly these settings.
#[verifier::external_body]
pub(crate) fn engine_context(settings: c2pa::Settings) -> (r: Result<c2pa::Context, c2pa::Error>) {
    c2pa::Context::new().with_settings(settings)
}

/// Relies on the `Display` impl of `c2pa::Error`: its text.
#[verifier::external_body]
pub(crate) fn engine_error_text(e: &c2pa::Error) -> (r: String) {
    e.to_string()
}

/// Relies on the variant `c2pa::Error::JumbfNotFound`: whether the engine
/// found no manifest container in the asset.
#[verifier::external_body]
pub(crate) fn is_container_missing(e: &c2pa::Error) -> (r: bool) {
    matches!(e, c2pa::Error::JumbfNotFound)
}

/// Relies on `c2pa::Reader::from_context` and `Reader::with_stream`: reads
/// and validates the manifest store of an asset of the given media type,
/// under the context's settings.
#[verifier::external_body]
pub(crate) fn read_store(context: c2pa::Context, format: &str, bytes: &[u8]) -> (r: Result<
    c2pa::Reader,
    c2pa::Error,
>) {
    c2pa::Reader::from_context(context).with_stream(format, std::io::Cursor::new(bytes))
}

/// Relies on `c2pa::Reader::validation_state`: the verdict on the store.
#[verifier::external_body]
pub(crate) fn store_validation_state(reader: &c2pa::Reader) -> (r: ValidationState) {
    match reader.validation_state() {
        c2pa::ValidationState::Invalid => ValidationState::Invalid,
        c2pa::ValidationState::Valid => ValidationState::Valid,
        c2pa::ValidationState::Trusted => ValidationState::Trusted,
    }
}

/// Relies on `c2pa::Reader::validation_status` and `ValidationStatus::code`:
/// the status codes, in order; none where the engine gives no list.
#[verifier::external_body]
pub(crate) fn store_status_codes(reader: &c2pa::Reader) -> (r: Vec<String>) {
    reader.validation_status().map(
        |status| status.iter().map(|s| s.code().to_string()).collect(),
    ).unwrap_or_default()
}

/// Relies on `c2pa::Reader::active_manifest`: the manifest the engine
/// selected as authoritative, if any.
#[verifier::external_body]
pub(crate) fn store_active_manifest(reader: &c2pa::Reader) -> (r: Option<&c2pa::Manifest>) {
    reader.active_manifest()
}

/// Relies on `c2pa::Reader::iter_manifests`: every manifest of the store.
#[verifier::external_body]
pub(crate) fn store_manifests(reader: &c2pa::Reader) -> (r: Vec<&c2pa::Manifest>) {
    reader.iter_manifests().collect()
}

/// Relies on `c2pa::Manifest::issuer`: the issuer of the signing credential.
#[verifier::external_body]
pub(crate) fn manifest_issuer(m: &c2pa::Manifest) -> (r: Option<String>) {
    m.issuer()
}

/// Relies on `c2pa::Manifest::signature_info` and `SignatureInfo::cert_chain`:
/// the PEM text of the signing credential's chain, where there is a signature.
#[verifier::external_body]
pub(crate) fn manifest_cert_chain(m: &c2pa::Manifest) -> (r: Option<String>) {
    m.signature_info().map(|info| info.cert_chain().to_string())
}

/// Relies on `c2pa::Manifest::find_assertion` for the actions assertion:
/// the action history, where the manifest holds one that can be read.
#[verifier::external_body]
pub(crate) fn manifest_actions(m: &c2pa::Manifest) -> (r: Option<c2pa::assertions::Actions>) {
    m.find_assertion::<c2pa::assertions::Actions>(c2pa::assertions::Actions::LABEL).ok()
}

/// Relies on `c2pa::assertions::Actions::actions`: the actions, in order.
#[verifier::external_body]
pub(crate) fn actions_list(a: &c2pa::assertions::Actions) -> (r: Vec<&c2pa::assertions::Action>) {
    a.actions().iter().collect()
}

/// Relies on `action`, `when`, `software_agent` and `description` of
/// `c2pa::assertions::Action`: the action's fields, the agent as a plain name
/// or as the name of its generator record.
#[verifier::external_body]
pub(crate) fn action_record(a: &c2pa::assertions::Action) -> (r: ActionRecord) {
    ActionRecord {
        action: a.action().to_string(),
        when: a.when().map(|v| v.to_string()),
        software_agent: a.software_agent().map(|agent| match agent {
            c2pa::assertions::SoftwareAgent::String(v) => AgentInfo::Text(v.clone()),
            c2pa::assertions::SoftwareAgent::ClaimGeneratorInfo(g) => AgentInfo::Generator(g.name.clone()),
        }),
        description: a.description().map(|v| v.to_string()),
    }
}

/// Relies on `c2pa::Manifest::label`.
#[verifier::external_body]
pub(crate) fn manifest_label(m: &c2pa::Manifest) -> (r: Option<String>) {
    m.label().map(|v| v.to_string())
}

/// Relies on `c2pa::Manifest::title`.
#[verifier::external_body]
pub(crate) fn manifest_title(m: &c2pa::Manifest) -> (r: Option<String>) {
    m.title().map(|v| v.to_string())
}

/// Relies on `c2pa::Manifest::format`.
#[verifier::external_body]
pub(crate) fn manifest_format(m: &c2pa::Manifest) -> (r: Option<String>) {
    m.format().map(|v| v.to_string())
}

/// Relies on `c2pa::Manifest::claim_generator`.
#[verifier::external_body]
pub(crate) fn manifest_generator(m: &c2pa::Manifest) -> (r: Option<String>) {
    m.claim_generator().map(|v| v.to_string())
}

/// Relies on `c2pa::Manifest::ingredients`: the ingredients, in order.
#[verifier::external_body]
pub(crate) fn manifest_ingredients(m: &c2pa::Manifest) -> (r: Vec<&c2pa::Ingredient>) {
    m.ingredients().iter().collect()
}

/// Relies on `title`, `format`, `document_id`, `relationship` (through its
/// `Debug` text) and `active_manifest` of `c2pa::Ingredient`.
#[verifier::external_body]
pub(crate) fn ingredient_record(i: &c2pa::Ingredient) -> (r: IngredientRecord) {
    IngredientRecord {
        title: i.title().map(|v| v.to_string()),
        format: i.format().map(|v| v.to_string()),
        document_id: i.document_id().map(|v| v.to_string()),
        relationship: format!("{:?}", i.relationship()),
        manifest: i.active_manifest().map(|v| v.to_string()),
    }
}

} // verus!
