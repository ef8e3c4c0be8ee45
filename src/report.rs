use vstd::prelude::*;

use crate::error::ProvenanceError;
use crate::pem::{parse_pem_chain, pem_chain_of};

verus! {

/// The verifier's verdict on a manifest store.
#[derive(Debug, Clone, Copy, PartialEq, Eq, Structural)]
pub enum ValidationState {
    Invalid,
    Valid,
    Trusted,
}

/// One entry of a manifest's action history.
#[derive(Debug, Clone)]
pub struct Edit {
    pub action: String,
    pub when: Option<String>,
    pub software_agent: Option<String>,
    pub description: Option<String>,
}

/// An asset that a manifest declares as an input.
#[derive(Debug, Clone)]
pub struct IngredientSummary {
    pub title: Option<String>,
    pub format: Option<String>,
    pub document_id: Option<String>,
    pub relationship: Option<String>,
    pub manifest: Option<String>,
}

/// The descriptive data of one manifest.
#[derive(Debug, Clone)]
pub struct ClaimSummary {
    pub label: Option<String>,
    pub title: Option<String>,
    pub format: Option<String>,
    pub generator: Option<String>,
    pub ingredients: Vec<IngredientSummary>,
}

/// The report on one asset.
#[derive(Debug, Clone)]
pub struct Interpretation {
    /// The issuer of the signing credential, if present.
    pub issuer: Option<String>,
    /// The certificate chain of the signing credential, one PEM block each, leaf first.
    pub certificate_chain: Vec<String>,
    /// The action history of the active manifest, in order.
    pub edits: Vec<Edit>,
    /// One summary per manifest found in the asset.
    pub claims: Vec<ClaimSummary>,
    pub validation_state: ValidationState,
    /// The verifier's status codes, in order.
    pub validation_status: Vec<String>,
}

/// Who performed an action, as the engine records it: a plain name, or a
/// structured generator record, of which the name is kept.
#[derive(Debug, Clone)]
pub enum AgentInfo {
    Text(String),
    Generator(String),
}

/// One action as the engine hands it over.
#[derive(Debug, Clone)]
pub struct ActionRecord {
    pub action: String,
    pub when: Option<String>,
    pub software_agent: Option<AgentInfo>,
    pub description: Option<String>,
}

/// One ingredient as the engine hands it over; `relationship` is the name of
/// the engine's relationship value (`ParentOf`, `ComponentOf`, `InputTo`).
#[derive(Debug, Clone)]
pub struct IngredientRecord {
    pub title: Option<String>,
    pub format: Option<String>,
    pub document_id: Option<String>,
    pub relationship: String,
    pub manifest: Option<String>,
}

/// The descriptive data of one manifest as the engine hands it over.
#[derive(Debug, Clone)]
pub struct ManifestRecord {
    pub label: Option<String>,
    pub title: Option<String>,
    pub format: Option<String>,
    pub generator: Option<String>,
    pub ingredients: Vec<IngredientRecord>,
}

/// The name of the agent of an action, whichever form it came in.
pub open spec fn agent_name(a: Option<AgentInfo>) -> Option<String> {
    match a {
        Some(AgentInfo::Text(s)) => Some(s),
        Some(AgentInfo::Generator(n)) => Some(n),
        None => None,
    }
}

/// The report entry of an action.
pub open spec fn edit_spec(a: ActionRecord) -> Edit {
    Edit {
        action: a.action,
        when: a.when,
        software_agent: agent_name(a.software_agent),
        description: a.description,
    }
}

/// The report entry of an ingredient.
pub open spec fn ingredient_spec(i: IngredientRecord) -> IngredientSummary {
    IngredientSummary {
        title: i.title,
        format: i.format,
        document_id: i.document_id,
        relationship: Some(i.relationship),
        manifest: i.manifest,
    }
}

/// Whether a claim summary reports a manifest.
pub open spec fn claim_reports(c: ClaimSummary, m: ManifestRecord) -> bool {
    &&& c.label == m.label
    &&& c.title == m.title
    &&& c.format == m.format
    &&& c.generator == m.generator
    &&& c.ingredients@ == m.ingredients@.map_values(|i: IngredientRecord| ingredient_spec(i))
}

/// The PEM blocks of the signing credential's chain; none without one.
pub open spec fn chain_spec(cert_chain: Option<String>) -> Seq<Seq<char>> {
    match cert_chain {
        Some(p) => pem_chain_of(p@),
        None => seq![],
    }
}

/// The report entry of an action.
pub fn edit_of(a: ActionRecord) -> (r: Edit)
    ensures
        r == edit_spec(a),
{
    let software_agent = match a.software_agent {
        Some(AgentInfo::Text(s)) => Some(s),
        Some(AgentInfo::Generator(n)) => Some(n),
        None => None,
    };
    Edit { action: a.action, when: a.when, software_agent, description: a.description }
}

/// The report entry of an ingredient.
pub fn ingredient_summary(i: IngredientRecord) -> (r: IngredientSummary)
    ensures
        r == ingredient_spec(i),
{
    IngredientSummary {
        title: i.title,
        format: i.format,
        document_id: i.document_id,
        relationship: Some(i.relationship),
        manifest: i.manifest,
    }
}

/// The summary of one manifest: its descriptive data and its ingredients, in order.
pub fn claim_summary(m: ManifestRecord) -> (r: ClaimSummary)
    ensures
        claim_reports(r, m),
{
    let ghost orig = m.ingredients@;
    let mut rest = m.ingredients;
    let mut ingredients: Vec<IngredientSummary> = Vec::new();
    let ghost mut k: int = 0;
    while rest.len() > 0
        invariant
            0 <= k <= orig.len(),
            rest@ == orig.subrange(k, orig.len() as int),
            ingredients@ == orig.subrange(0, k).map_values(|i: IngredientRecord| ingredient_spec(i)),
        decreases rest@.len(),
    {
        let i = rest.remove(0);
        ingredients.push(ingredient_summary(i));
        proof {
            assert(orig.subrange(0, k + 1) =~= orig.subrange(0, k).push(orig[k]));
            assert(ingredients@ =~= orig.subrange(0, k + 1).map_values(
                |i: IngredientRecord| ingredient_spec(i),
            ));
            k = k + 1;
            assert(rest@ =~= orig.subrange(k, orig.len() as int));
        }
    }
    assert(orig.subrange(0, k) =~= orig);
    ClaimSummary {
        label: m.label,
        title: m.title,
        format: m.format,
        generator: m.generator,
        ingredients,
    }
}

/// The report entries of an action history, in order; none where the
/// manifest records no history.
pub fn edits_of(actions: Option<Vec<ActionRecord>>) -> (r: Vec<Edit>)
    ensures
        r@ == match actions {
            Some(v) => v@.map_values(|a: ActionRecord| edit_spec(a)),
            None => seq![],
        },
{
    let mut edits: Vec<Edit> = Vec::new();
    match actions {
        Some(v) => {
            let ghost orig = v@;
            let mut rest = v;
            let ghost mut k: int = 0;
            while rest.len() > 0
                invariant
                    0 <= k <= orig.len(),
                    rest@ == orig.subrange(k, orig.len() as int),
                    edits@ == orig.subrange(0, k).map_values(|a: ActionRecord| edit_spec(a)),
                decreases rest@.len(),
            {
                let a = rest.remove(0);
                edits.push(edit_of(a));
                proof {
                    assert(orig.subrange(0, k + 1) =~= orig.subrange(0, k).push(orig[k]));
                    assert(edits@ =~= orig.subrange(0, k + 1).map_values(
                        |a: ActionRecord| edit_spec(a),
                    ));
                    k = k + 1;
                    assert(rest@ =~= orig.subrange(k, orig.len() as int));
                }
            }
            assert(orig.subrange(0, k) =~= orig);
            edits
        },
        None => {
            assert(edits@ =~= Seq::<Edit>::empty());
            edits
        },
    }
}

/// The summaries of the manifests, in the order given.
pub fn claims_of(manifests: Vec<ManifestRecord>) -> (r: Vec<ClaimSummary>)
    ensures
        r@.len() == manifests@.len(),
        forall|i: int| 0 <= i < r@.len() ==> claim_reports(#[trigger] r@[i], manifests@[i]),
{
    let ghost orig = manifests@;
    let mut rest = manifests;
    let mut claims: Vec<ClaimSummary> = Vec::new();
    let ghost mut k: int = 0;
    while rest.len() > 0
        invariant
            0 <= k <= orig.len(),
            rest@ == orig.subrange(k, orig.len() as int),
            claims@.len() == k,
            forall|i: int| 0 <= i < k ==> claim_reports(#[trigger] claims@[i], orig[i]),
        decreases rest@.len(),
    {
        let m = rest.remove(0);
        claims.push(claim_summary(m));
        proof {
            k = k + 1;
            assert(rest@ =~= orig.subrange(k, orig.len() as int));
        }
    }
    claims
}

/// Assembles the report from what the engine handed over about the active
/// manifest (issuer, certificate chain, action history), about every manifest
/// of the asset, and its verdict with its status codes.
pub fn build_report(
    issuer: Option<String>,
    cert_chain: Option<String>,
    actions: Option<Vec<ActionRecord>>,
    manifests: Vec<ManifestRecord>,
    validation_state: ValidationState,
    validation_status: Vec<String>,
) -> (r: Interpretation)
    ensures
        r.issuer == issuer,
        r.certificate_chain@.map_values(|x: String| x@) == chain_spec(cert_chain),
        r.edits@ == match actions {
            Some(v) => v@.map_values(|a: ActionRecord| edit_spec(a)),
            None => seq![],
        },
        r.claims@.len() == manifests@.len(),
        forall|i: int| 0 <= i < r.claims@.len() ==> claim_reports(#[trigger] r.claims@[i], manifests@[i]),
        r.validation_state == validation_state,
        r.validation_status == validation_status,
{
    let certificate_chain = match &cert_chain {
        Some(p) => parse_pem_chain(p.as_str()),
        None => {
            let v: Vec<String> = Vec::new();
            assert(v@.map_values(|x: String| x@) =~= Seq::<Seq<char>>::empty());
            v
        },
    };
    let edits = edits_of(actions);
    let claims = claims_of(manifests);
    Interpretation {
        issuer,
        certificate_chain,
        edits,
        claims,
        validation_state,
        validation_status,
    }
}

/// What the engine hands over about the active manifest.
#[derive(Debug, Clone)]
pub struct ActiveRecord {
    pub issuer: Option<String>,
    /// The PEM text of the signing credential's chain, where there is a signature.
    pub cert_chain: Option<String>,
    /// The action history, where the manifest records one.
    pub actions: Option<Vec<ActionRecord>>,
}

/// The outcome of a read that the engine completed: `ManifestMissing` where
/// it selected no active manifest or found no manifest at all; otherwise the
/// report on what it handed over.
pub fn assemble_report(
    active: Option<ActiveRecord>,
    manifests: Vec<ManifestRecord>,
    validation_state: ValidationState,
    validation_status: Vec<String>,
) -> (r: Result<Interpretation, ProvenanceError>)
    ensures
        active is None || manifests@.len() == 0 <==> r == Err::<Interpretation, ProvenanceError>(
            ProvenanceError::ManifestMissing,
        ),
        active is Some && manifests@.len() > 0 ==> r is Ok,
        r matches Ok(report) ==> {
            let a = active->0;
            &&& report.issuer == a.issuer
            &&& report.certificate_chain@.map_values(|x: String| x@) == chain_spec(a.cert_chain)
            &&& report.edits@ == match a.actions {
                Some(v) => v@.map_values(|x: ActionRecord| edit_spec(x)),
                None => seq![],
            }
            &&& report.claims@.len() == manifests@.len()
            &&& report.claims@.len() > 0
            &&& forall|i: int|
                0 <= i < report.claims@.len() ==> claim_reports(
                    #[trigger] report.claims@[i],
                    manifests@[i],
                )
            &&& report.validation_state == validation_state
            &&& report.validation_status == validation_status
        },
{
    let a = match active {
        Some(a) => a,
        None => return Err(ProvenanceError::ManifestMissing),
    };
    if manifests.len() == 0 {
        return Err(ProvenanceError::ManifestMissing);
    }
    Ok(
        build_report(
            a.issuer,
            a.cert_chain,
            a.actions,
            manifests,
            validation_state,
            validation_status,
        ),
    )
}

/// The failure for an engine error: `ManifestMissing` where the asset holds
/// no manifest container, else the engine's error with its text.
pub fn engine_error(container_missing: bool, detail: String) -> (r: ProvenanceError)
    ensures
        container_missing ==> r == ProvenanceError::ManifestMissing,
        !container_missing ==> r == ProvenanceError::C2pa(detail),
{
    if container_missing {
        ProvenanceError::ManifestMissing
    } else {
        ProvenanceError::C2pa(detail)
    }
}

} // verus!
