use vstd::prelude::*;

use crate::engine::{
    action_record, actions_list, engine_context, engine_error_text, ingredient_record,
    is_container_missing, manifest_actions, manifest_cert_chain, manifest_format,
    manifest_generator, manifest_ingredients, manifest_issuer, manifest_label, manifest_title,
    read_store, sniff_media_type, sniffed_type_of, store_active_manifest, store_manifests,
    store_status_codes, store_validation_state,
};
use crate::error::ProvenanceError;
use crate::report::{
    assemble_report, engine_error, ActionRecord, ActiveRecord, IngredientRecord, Interpretation,
    ManifestRecord,
};
use crate::trust::TrustedIssuers;

verus! {

/// The failure for an error of the engine.
fn engine_failure(e: &c2pa::Error) -> (r: ProvenanceError)
    ensures
        r is ManifestMissing || r is C2pa,
{
    let missing = is_container_missing(e);
    let detail = if missing {
        String::new()
    } else {
        engine_error_text(e)
    };
    engine_error(missing, detail)
}

/// The descriptive data of one manifest, with its ingredients in order.
fn manifest_data(m: &c2pa::Manifest) -> (r: ManifestRecord) {
    let list = manifest_ingredients(m);
    let mut ingredients: Vec<IngredientRecord> = Vec::new();
    let mut i: usize = 0;
    while i < list.len()
        invariant
            i <= list@.len(),
        decreases list@.len() - i,
    {
        ingredients.push(ingredient_record(list[i]));
        i = i + 1;
    }
    ManifestRecord {
        label: manifest_label(m),
        title: manifest_title(m),
        format: manifest_format(m),
        generator: manifest_generator(m),
        ingredients,
    }
}

/// The action history of a manifest, where it records one.
fn action_data(m: &c2pa::Manifest) -> (r: Option<Vec<ActionRecord>>) {
    match manifest_actions(m) {
        None => None,
        Some(actions) => {
            let list = actions_list(&actions);
            let mut out: Vec<ActionRecord> = Vec::new();
            let mut i: usize = 0;
            while i < list.len()
                invariant
                    i <= list@.len(),
                decreases list@.len() - i,
            {
                out.push(action_record(list[i]));
                i = i + 1;
            }
            Some(out)
        },
    }
}

/// Reads the provenance data embedded in an asset and reports on it.
///
/// Fails with `UnsupportedMediaType` where the buffer is empty or its media
/// type cannot be sniffed from its content, whatever the trust configuration;
/// otherwise the engine runs under the settings of `trusted`. A missing
/// manifest container fails with `ManifestMissing`, any other engine failure
/// with `C2pa`; what the engine read is then judged by `assemble_report`. A
/// report always holds at least one claim.
pub fn interpret_bytes(bytes: &[u8], trusted: &TrustedIssuers) -> (r: Result<
    Interpretation,
    ProvenanceError,
>)
    ensures
        bytes@.len() == 0 || sniffed_type_of(bytes@) is None ==> r == Err::<
            Interpretation,
            ProvenanceError,
        >(ProvenanceError::UnsupportedMediaType),
        bytes@.len() > 0 && sniffed_type_of(bytes@) is Some ==> !(r matches Err(
            ProvenanceError::UnsupportedMediaType,
        )),
        r matches Err(e) ==> (e is UnsupportedMediaType || e is ManifestMissing || e is C2pa),
        r matches Ok(report) ==> report.claims@.len() > 0,
{
    if bytes.len() == 0 {
        return Err(ProvenanceError::UnsupportedMediaType);
    }
    let format = match sniff_media_type(bytes) {
        Some(f) => f,
        None => return Err(ProvenanceError::UnsupportedMediaType),
    };
    let settings = trusted.apply()?;
    let context = match engine_context(settings.into_settings()) {
        Ok(c) => c,
        Err(e) => return Err(ProvenanceError::C2pa(engine_error_text(&e))),
    };
    let reader = match read_store(context, format.as_str(), bytes) {
        Ok(r) => r,
        Err(e) => return Err(engine_failure(&e)),
    };
    let validation_state = store_validation_state(&reader);
    let validation_status = store_status_codes(&reader);
    let active = match store_active_manifest(&reader) {
        Some(m) => Some(
            ActiveRecord {
                issuer: manifest_issuer(m),
                cert_chain: manifest_cert_chain(m),
                actions: action_data(m),
            },
        ),
        None => None,
    };
    let all = store_manifests(&reader);
    let mut manifests: Vec<ManifestRecord> = Vec::new();
    let mut i: usize = 0;
    while i < all.len()
        invariant
            i <= all@.len(),
        decreases all@.len() - i,
    {
        manifests.push(manifest_data(all[i]));
        i = i + 1;
    }
    assemble_report(active, manifests, validation_state, validation_status)
}

} // verus!
