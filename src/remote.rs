use vstd::prelude::*;

use crate::allow::{rule_matches, AllowedUrl, RuleSpec, UrlParts, UrlSpec};
use crate::error::ProvenanceError;

verus! {

/// What decides whether remote assets may be fetched: a global switch and the rules of
/// the allow list.
#[derive(Debug, Clone)]
pub struct RemoteLoader {
    allowed: Vec<AllowedUrl>,
    enabled: bool,
}

/// The mathematical value of a [`RemoteLoader`].
pub struct LoaderSpec {
    pub enabled: bool,
    pub rules: Seq<RuleSpec>,
}

impl View for RemoteLoader {
    type V = LoaderSpec;

    closed spec fn view(&self) -> LoaderSpec {
        LoaderSpec { enabled: self.enabled, rules: self.allowed@.map_values(|x: AllowedUrl| x@) }
    }
}

/// Whether some rule admits the URL.
pub open spec fn any_rule_matches(rules: Seq<RuleSpec>, u: UrlSpec) -> bool {
    exists|i: int| 0 <= i < rules.len() && rule_matches(rules[i], u)
}

impl RemoteLoader {
    /// A loader that refuses every URL.
    pub fn disabled() -> (r: RemoteLoader)
        ensures
            !r@.enabled,
            r@.rules == Seq::<RuleSpec>::empty(),
    {
        let r = RemoteLoader { allowed: Vec::new(), enabled: false };
        assert(r@.rules =~= Seq::<RuleSpec>::empty());
        r
    }

    pub fn new(enabled: bool, allowed: Vec<AllowedUrl>) -> (r: RemoteLoader)
        ensures
            r@.enabled == enabled,
            r@.rules == allowed@.map_values(|x: AllowedUrl| x@),
    {
        RemoteLoader { allowed, enabled }
    }

    pub fn enabled(&self) -> (r: bool)
        ensures
            r == self@.enabled,
    {
        self.enabled
    }

    /// Whether some rule of the allow list admits `url`.
    pub fn is_allowed(&self, url: &UrlParts) -> (r: bool)
        ensures
            r == any_rule_matches(self@.rules, url@),
    {
        let mut i: usize = 0;
        while i < self.allowed.len()
            invariant
                i <= self.allowed@.len(),
                forall|k: int| 0 <= k < i ==> !rule_matches(self@.rules[k], url@),
            decreases self.allowed@.len() - i,
        {
            if self.allowed[i].matches(url) {
                assert(rule_matches(self@.rules[i as int], url@));
                return true;
            }
            i = i + 1;
        }
        false
    }

    /// Decides, before any request is made, whether `url` may be fetched:
    /// `RemoteDisabled` while fetching is off, whatever the URL;
    /// `RemoteUrlNotAllowed` with the URL's text where no rule admits it.
    pub fn authorize(&self, url: &UrlParts) -> (r: Result<(), ProvenanceError>)
        ensures
            !self@.enabled ==> r == Err::<(), ProvenanceError>(ProvenanceError::RemoteDisabled),
            self@.enabled && !any_rule_matches(self@.rules, url@) ==> match r {
                Err(ProvenanceError::RemoteUrlNotAllowed(t)) => t@ == url.href@,
                _ => false,
            },
            self@.enabled && any_rule_matches(self@.rules, url@) ==> r is Ok,
    {
        if !self.enabled {
            return Err(ProvenanceError::RemoteDisabled);
        }
        if !self.is_allowed(url) {
            return Err(ProvenanceError::RemoteUrlNotAllowed(url.href.clone()));
        }
        Ok(())
    }
}

/// Whether a remote answer's status lets its body through: any 2xx status
/// does; any other fails with `RemoteStatus`.
pub fn check_status(status: u16) -> (r: Result<(), ProvenanceError>)
    ensures
        200 <= status <= 299 ==> r is Ok,
        !(200 <= status <= 299) ==> r == Err::<(), ProvenanceError>(
            ProvenanceError::RemoteStatus(status),
        ),
{
    if 200 <= status && status <= 299 {
        Ok(())
    } else {
        Err(ProvenanceError::RemoteStatus(status))
    }
}

} // verus!
