use vstd::prelude::*;

use crate::error::ProvenanceError;
use crate::pem::{chars_of, starts_with, trim, trim_bounds};

verus! {

/// What the allow list reads of an absolute URL.
#[derive(Debug, Clone)]
pub struct UrlParts {
    /// The URL as its parser serializes it.
    pub href: String,
    pub scheme: String,
    pub host: Option<String>,
    /// The explicit port, or the scheme's default port where it has one.
    pub port: Option<u16>,
    pub path: String,
}

/// The mathematical value of a [`UrlParts`].
pub struct UrlSpec {
    pub href: Seq<char>,
    pub scheme: Seq<char>,
    pub host: Option<Seq<char>>,
    pub port: Option<u16>,
    pub path: Seq<char>,
}

impl View for UrlParts {
    type V = UrlSpec;

    open spec fn view(&self) -> UrlSpec {
        UrlSpec {
            href: self.href@,
            scheme: self.scheme@,
            host: match self.host {
                Some(h) => Some(h@),
                None => None,
            },
            port: self.port,
            path: self.path@,
        }
    }
}

/// What the URL parser makes of a text: `None` where it is no absolute URL.
pub uninterp spec fn parsed_url_of(text: Seq<char>) -> Option<UrlSpec>;

/// Relies on `url::Url::parse`, and on `as_str`, `scheme`, `host_str`,
/// `port_or_known_default` and `path` of the parsed URL, to split a text into
/// the parts of a URL; the outcome depends on the text alone.
#[verifier::external_body]
fn parse_url_parts(text: &str) -> (r: Option<UrlParts>)
    ensures
        match r {
            Some(u) => parsed_url_of(text@) == Some(u@),
            None => parsed_url_of(text@) is None,
        },
{
    url::Url::parse(text).ok().map(
        |u| UrlParts {
            href: u.as_str().to_string(),
            scheme: u.scheme().to_string(),
            host: u.host_str().map(|h| h.to_string()),
            port: u.port_or_known_default(),
            path: u.path().to_string(),
        },
    )
}

impl UrlParts {
    /// Parses an absolute URL; a text that is none fails with `InvalidUrl`.
    pub fn parse(text: &str) -> (r: Result<UrlParts, ProvenanceError>)
        ensures
            match r {
                Ok(u) => parsed_url_of(text@) == Some(u@),
                Err(e) => parsed_url_of(text@) is None && match e {
                    ProvenanceError::InvalidUrl(t) => t@ == text@,
                    _ => false,
                },
            },
    {
        match parse_url_parts(text) {
            Some(u) => Ok(u),
            None => Err(ProvenanceError::InvalidUrl(String::from_str(text))),
        }
    }
}

/// Two characters are equal once ASCII upper case is lowered.
pub open spec fn char_eq_ignore_case(a: char, b: char) -> bool {
    a == b || ('A' <= a <= 'Z' && b as u32 == a as u32 + 32) || ('A' <= b <= 'Z' && a as u32
        == b as u32 + 32)
}

/// Two texts are equal once ASCII upper case is lowered.
pub open spec fn eq_ignore_case(a: Seq<char>, b: Seq<char>) -> bool {
    a.len() == b.len() && forall|i: int| 0 <= i < a.len() ==> char_eq_ignore_case(a[i], b[i])
}

/// Whether two texts are equal once ASCII upper case is lowered.
pub fn eq_ignore_ascii_case(a: &str, b: &str) -> (r: bool)
    ensures
        r == eq_ignore_case(a@, b@),
{
    let x = chars_of(a);
    let y = chars_of(b);
    if x.len() != y.len() {
        return false;
    }
    let mut i: usize = 0;
    while i < x.len()
        invariant
            x@ == a@,
            y@ == b@,
            x@.len() == y@.len(),
            i <= x@.len(),
            forall|k: int| 0 <= k < i ==> char_eq_ignore_case(x@[k], y@[k]),
        decreases x@.len() - i,
    {
        let c = x[i];
        let d = y[i];
        let same = c == d || ('A' <= c && c <= 'Z' && d as u32 == c as u32 + 32) || ('A' <= d
            && d <= 'Z' && c as u32 == d as u32 + 32);
        if !same {
            return false;
        }
        i = i + 1;
    }
    true
}

/// A rule of the allow list.
#[derive(Debug, Clone)]
pub enum AllowedUrl {
    /// Any URL whose host is this one, ignoring ASCII case.
    Host(String),
    /// URLs with the same scheme, port and host (ignoring ASCII case) whose
    /// path starts with this URL's path.
    Prefix(UrlParts),
}

/// The mathematical value of an [`AllowedUrl`].
pub enum RuleSpec {
    Host(Seq<char>),
    Prefix(UrlSpec),
}

impl View for AllowedUrl {
    type V = RuleSpec;

    open spec fn view(&self) -> RuleSpec {
        match self {
            AllowedUrl::Host(h) => RuleSpec::Host(h@),
            AllowedUrl::Prefix(u) => RuleSpec::Prefix(u@),
        }
    }
}

/// Whether a rule admits a URL.
pub open spec fn rule_matches(rule: RuleSpec, u: UrlSpec) -> bool {
    match rule {
        RuleSpec::Host(h) => u.host is Some && eq_ignore_case(u.host->0, h),
        RuleSpec::Prefix(p) => {
            &&& u.scheme == p.scheme
            &&& u.port == p.port
            &&& u.host is Some
            &&& p.host is Some
            &&& eq_ignore_case(u.host->0, p.host->0)
            &&& starts_with(u.path, p.path)
        },
    }
}

/// A host rule looks at the host alone: two URLs whose hosts are equal
/// ignoring ASCII case are admitted alike, whatever their scheme, port and
/// path.
pub proof fn lemma_host_rule_reads_host_only(h: Seq<char>, u: UrlSpec, v: UrlSpec)
    requires
        u.host is Some,
        v.host is Some,
        eq_ignore_case(u.host->0, v.host->0),
    ensures
        rule_matches(RuleSpec::Host(h), u) == rule_matches(RuleSpec::Host(h), v),
        rule_matches(RuleSpec::Host(h), u) <==> eq_ignore_case(u.host->0, h),
{
    let a = u.host->0;
    let b = v.host->0;
    assert forall|x: char, y: char, z: char|
        char_eq_ignore_case(x, y) && #[trigger] char_eq_ignore_case(y, z) implies #[trigger] char_eq_ignore_case(x, z) by {
        vstd::utf8::char_u32_cast(x, x as u32);
        vstd::utf8::char_u32_cast(y, y as u32);
        vstd::utf8::char_u32_cast(z, z as u32);
    }
    if eq_ignore_case(a, h) {
        assert forall|i: int| 0 <= i < b.len() implies char_eq_ignore_case(b[i], h[i]) by {
            assert(char_eq_ignore_case(a[i], b[i]));
            assert(char_eq_ignore_case(a[i], h[i]));
        }
    }
    if eq_ignore_case(b, h) {
        assert forall|i: int| 0 <= i < a.len() implies char_eq_ignore_case(a[i], h[i]) by {
            assert(char_eq_ignore_case(a[i], b[i]));
            assert(char_eq_ignore_case(b[i], h[i]));
        }
    }
}

/// Whether `p` is a prefix of `s`.
fn has_prefix(s: &str, p: &str) -> (r: bool)
    ensures
        r == starts_with(s@, p@),
{
    let x = chars_of(s);
    let y = chars_of(p);
    if y.len() > x.len() {
        return false;
    }
    let mut i: usize = 0;
    while i < y.len()
        invariant
            x@ == s@,
            y@ == p@,
            y@.len() <= x@.len(),
            i <= y@.len(),
            forall|k: int| 0 <= k < i ==> x@[k] == y@[k],
        decreases y@.len() - i,
    {
        if x[i] != y[i] {
            assert(s@.subrange(0, p@.len() as int)[i as int] != p@[i as int]);
            return false;
        }
        i = i + 1;
    }
    assert(s@.subrange(0, p@.len() as int) =~= p@);
    true
}

impl AllowedUrl {
    /// A rule that admits every URL on `host`.
    pub fn host(host: &str) -> (r: AllowedUrl)
        ensures
            r@ == RuleSpec::Host(host@),
    {
        AllowedUrl::Host(String::from_str(host))
    }

    /// A rule that admits the URLs below `url`.
    pub fn prefix(url: UrlParts) -> (r: AllowedUrl)
        ensures
            r@ == RuleSpec::Prefix(url@),
    {
        AllowedUrl::Prefix(url)
    }

    /// Whether this rule admits `candidate`.
    pub fn matches(&self, candidate: &UrlParts) -> (r: bool)
        ensures
            r == rule_matches(self@, candidate@),
    {
        match self {
            AllowedUrl::Host(host) => match &candidate.host {
                Some(h) => eq_ignore_ascii_case(h.as_str(), host.as_str()),
                None => false,
            },
            AllowedUrl::Prefix(prefix) => {
                if candidate.scheme != prefix.scheme {
                    return false;
                }
                if candidate.port != prefix.port {
                    return false;
                }
                match (&candidate.host, &prefix.host) {
                    (Some(lhs), Some(rhs)) => {
                        if eq_ignore_ascii_case(lhs.as_str(), rhs.as_str()) {
                            has_prefix(candidate.path.as_str(), prefix.path.as_str())
                        } else {
                            false
                        }
                    },
                    _ => false,
                }
            },
        }
    }
}


pub open spec fn is_separator(c: char) -> bool {
    c == ',' || c == '\n'
}

/// Scans an allow-list text left to right: the pieces already ended by a
/// separator, and the characters of the piece still open.
pub open spec fn scan_pieces(s: Seq<char>) -> (Seq<Seq<char>>, Seq<char>)
    decreases s.len(),
{
    if s.len() == 0 {
        (seq![], seq![])
    } else {
        let (done, cur) = scan_pieces(s.drop_last());
        if is_separator(s.last()) {
            (done.push(cur), seq![])
        } else {
            (done, cur.push(s.last()))
        }
    }
}

/// The pieces of a text between commas and newlines, empty ones included.
pub open spec fn pieces_of(s: Seq<char>) -> Seq<Seq<char>> {
    scan_pieces(s).0.push(scan_pieces(s).1)
}

/// The rule a trimmed entry stands for: a prefix where it parses as a URL,
/// else a host name.
pub open spec fn rule_of_token(t: Seq<char>) -> RuleSpec {
    match parsed_url_of(t) {
        Some(u) => RuleSpec::Prefix(u),
        None => RuleSpec::Host(t),
    }
}

/// The rules of the pieces, in order; pieces that are empty once trimmed are
/// dropped.
pub open spec fn rules_of_pieces(ps: Seq<Seq<char>>) -> Seq<RuleSpec>
    decreases ps.len(),
{
    if ps.len() == 0 {
        seq![]
    } else {
        let r = rules_of_pieces(ps.drop_last());
        let t = trim(ps.last());
        if t.len() > 0 {
            r.push(rule_of_token(t))
        } else {
            r
        }
    }
}

/// The rules of an allow-list text.
pub open spec fn allow_list_of(s: Seq<char>) -> Seq<RuleSpec> {
    rules_of_pieces(pieces_of(s))
}

proof fn lemma_scan_pieces_step(s: Seq<char>, i: int)
    requires
        0 <= i < s.len(),
    ensures
        scan_pieces(s.subrange(0, i + 1)) == (if is_separator(s[i]) {
            (scan_pieces(s.subrange(0, i)).0.push(scan_pieces(s.subrange(0, i)).1), Seq::<char>::empty())
        } else {
            (scan_pieces(s.subrange(0, i)).0, scan_pieces(s.subrange(0, i)).1.push(s[i]))
        }),
{
    assert(s.subrange(0, i + 1).drop_last() =~= s.subrange(0, i));
}

/// Adds the rule of the piece `v[a..b]` of `text`, unless it is empty once
/// trimmed.
fn add_piece(text: &str, v: &Vec<char>, a: usize, b: usize, out: &mut Vec<AllowedUrl>)
    requires
        v@ == text@,
        a <= b <= v@.len(),
    ensures
        ({
            let t = trim(v@.subrange(a as int, b as int));
            final(out)@.map_values(|x: AllowedUrl| x@) == if t.len() > 0 {
                old(out)@.map_values(|x: AllowedUrl| x@).push(rule_of_token(t))
            } else {
                old(out)@.map_values(|x: AllowedUrl| x@)
            }
        }),
{
    let (lo, hi) = trim_bounds(v, a, b);
    if lo == hi {
        return;
    }
    let token = text.substring_char(lo, hi);
    let rule = match parse_url_parts(token) {
        Some(u) => AllowedUrl::prefix(u),
        None => AllowedUrl::host(token),
    };
    out.push(rule);
    assert(out@.map_values(|x: AllowedUrl| x@) =~= old(out)@.map_values(|x: AllowedUrl| x@).push(
        rule_of_token(trim(v@.subrange(a as int, b as int))),
    ));
}

/// Parses an allow-list text: entries are separated by commas and newlines
/// and trimmed; empty entries are dropped; an entry that parses as a URL is a
/// prefix rule, any other a host rule.
pub fn parse_allow_list(spec: &str) -> (r: Vec<AllowedUrl>)
    ensures
        r@.map_values(|x: AllowedUrl| x@) == allow_list_of(spec@),
{
    let v = chars_of(spec);
    let n = v.len();
    let mut out: Vec<AllowedUrl> = Vec::new();
    let mut start: usize = 0;
    let mut i: usize = 0;
    assert(v@.subrange(0, 0) =~= Seq::<char>::empty());
    assert(out@.map_values(|x: AllowedUrl| x@) =~= rules_of_pieces(Seq::<Seq<char>>::empty()));
    while i < n
        invariant
            n == v@.len(),
            v@ == spec@,
            start <= i <= n,
            scan_pieces(v@.subrange(0, i as int)).1 == v@.subrange(start as int, i as int),
            out@.map_values(|x: AllowedUrl| x@) == rules_of_pieces(
                scan_pieces(v@.subrange(0, i as int)).0,
            ),
        decreases n - i,
    {
        proof {
            lemma_scan_pieces_step(v@, i as int);
        }
        if v[i] == ',' || v[i] == '\n' {
            let ghost done = scan_pieces(v@.subrange(0, i as int)).0;
            let ghost piece = v@.subrange(start as int, i as int);
            assert(done.push(piece).drop_last() =~= done);
            add_piece(spec, &v, start, i, &mut out);
            start = i + 1;
            assert(v@.subrange(start as int, i + 1) =~= Seq::<char>::empty());
        } else {
            assert(v@.subrange(start as int, i + 1) =~= v@.subrange(start as int, i as int).push(
                v@[i as int],
            ));
        }
        i = i + 1;
    }
    assert(v@.subrange(0, n as int) =~= v@);
    let ghost done = scan_pieces(v@).0;
    let ghost piece = v@.subrange(start as int, n as int);
    assert(done.push(piece).drop_last() =~= done);
    add_piece(spec, &v, start, n, &mut out);
    out
}


/// A rule as an allow-list entry: the host name, or the URL as serialized.
pub open spec fn rule_text(r: RuleSpec) -> Seq<char> {
    match r {
        RuleSpec::Host(h) => h,
        RuleSpec::Prefix(u) => u.href,
    }
}

/// The entries joined with a comma between each two.
pub open spec fn join_entries(ts: Seq<Seq<char>>) -> Seq<char>
    decreases ts.len(),
{
    if ts.len() == 0 {
        seq![]
    } else if ts.len() == 1 {
        ts[0]
    } else {
        join_entries(ts.drop_last()) + seq![','] + ts.last()
    }
}

/// Writes rules back as an allow-list text, comma separated.
pub fn serialize_allow_list(rules: &Vec<AllowedUrl>) -> (r: String)
    ensures
        r@ == join_entries(rules@.map_values(|x: AllowedUrl| rule_text(x@))),
{
    let ghost texts = rules@.map_values(|x: AllowedUrl| rule_text(x@));
    let mut out = String::new();
    let mut i: usize = 0;
    assert(texts.subrange(0, 0) =~= Seq::<Seq<char>>::empty());
    while i < rules.len()
        invariant
            i <= rules@.len(),
            texts == rules@.map_values(|x: AllowedUrl| rule_text(x@)),
            out@ == join_entries(texts.subrange(0, i as int)),
        decreases rules@.len() - i,
    {
        if i > 0 {
            proof {
                reveal_strlit(",");
            }
            out.append(",");
        }
        match &rules[i] {
            AllowedUrl::Host(h) => out.append(h.as_str()),
            AllowedUrl::Prefix(u) => out.append(u.href.as_str()),
        }
        proof {
            let next = texts.subrange(0, i + 1);
            assert(next.drop_last() =~= texts.subrange(0, i as int));
            assert(next.last() == rule_text(rules@[i as int]@));
            assert(out@ =~= join_entries(next));
        }
        i = i + 1;
    }
    assert(texts.subrange(0, rules@.len() as int) =~= texts);
    out
}

pub open spec fn has_no_separator(t: Seq<char>) -> bool {
    forall|i: int| 0 <= i < t.len() ==> !is_separator(t[i])
}

/// An entry already in the form its rule writes back: trimmed, non-empty,
/// free of separators, and, where it is a URL, serialized as its parser
/// serializes it.
pub open spec fn is_clean_entry(t: Seq<char>) -> bool {
    &&& t.len() > 0
    &&& trim(t) == t
    &&& has_no_separator(t)
    &&& rule_text(rule_of_token(t)) == t
}

proof fn lemma_scan_pieces_append(t: Seq<char>, q: Seq<char>)
    requires
        has_no_separator(q),
    ensures
        scan_pieces(t + q) == (scan_pieces(t).0, scan_pieces(t).1 + q),
    decreases q.len(),
{
    if q.len() == 0 {
        assert(t + q =~= t);
        assert(scan_pieces(t).1 + q =~= scan_pieces(t).1);
    } else {
        let q0 = q.drop_last();
        lemma_scan_pieces_append(t, q0);
        assert((t + q).drop_last() =~= t + q0);
        assert((t + q).last() == q.last());
        assert((scan_pieces(t).1 + q0).push(q.last()) =~= scan_pieces(t).1 + q);
    }
}

proof fn lemma_scan_joined(ts: Seq<Seq<char>>)
    requires
        ts.len() > 0,
        forall|k: int| 0 <= k < ts.len() ==> has_no_separator(#[trigger] ts[k]),
    ensures
        scan_pieces(join_entries(ts)) == (ts.drop_last(), ts.last()),
    decreases ts.len(),
{
    if ts.len() == 1 {
        lemma_scan_pieces_append(Seq::<char>::empty(), ts[0]);
        assert(Seq::<char>::empty() + ts[0] =~= ts[0]);
        assert(ts.drop_last() =~= Seq::<Seq<char>>::empty());
    } else {
        let prev = ts.drop_last();
        assert forall|k: int| 0 <= k < prev.len() implies has_no_separator(#[trigger] prev[k]) by {
            assert(prev[k] == ts[k]);
        }
        lemma_scan_joined(prev);
        let head = join_entries(prev) + seq![','];
        assert(head.drop_last() =~= join_entries(prev));
        assert(prev.drop_last().push(prev.last()) =~= prev);
        assert(has_no_separator(ts[ts.len() - 1]));
        lemma_scan_pieces_append(head, ts.last());
        assert(Seq::<char>::empty() + ts.last() =~= ts.last());
    }
}

proof fn lemma_rules_of_clean_pieces(ts: Seq<Seq<char>>)
    requires
        forall|k: int| 0 <= k < ts.len() ==> is_clean_entry(#[trigger] ts[k]),
    ensures
        rules_of_pieces(ts) == ts.map_values(|t: Seq<char>| rule_of_token(t)),
    decreases ts.len(),
{
    if ts.len() == 0 {
        assert(ts.map_values(|t: Seq<char>| rule_of_token(t)) =~= Seq::<RuleSpec>::empty());
    } else {
        let prev = ts.drop_last();
        assert forall|k: int| 0 <= k < prev.len() implies is_clean_entry(#[trigger] prev[k]) by {
            assert(prev[k] == ts[k]);
        }
        lemma_rules_of_clean_pieces(prev);
        assert(is_clean_entry(ts[ts.len() - 1]));
        assert(prev.map_values(|t: Seq<char>| rule_of_token(t)).push(rule_of_token(ts.last()))
            =~= ts.map_values(|t: Seq<char>| rule_of_token(t)));
    }
}

/// Parsing an allow list whose entries are already clean gives one rule per
/// entry, in order; writing those rules back gives the same text; so parsing
/// again gives the same rules.
pub proof fn lemma_allow_list_idempotent(entries: Seq<Seq<char>>)
    requires
        forall|k: int| 0 <= k < entries.len() ==> is_clean_entry(#[trigger] entries[k]),
    ensures
        allow_list_of(join_entries(entries)) == entries.map_values(|t: Seq<char>| rule_of_token(t)),
        join_entries(allow_list_of(join_entries(entries)).map_values(|r: RuleSpec| rule_text(r)))
            == join_entries(entries),
        allow_list_of(
            join_entries(allow_list_of(join_entries(entries)).map_values(|r: RuleSpec| rule_text(r))),
        ) == allow_list_of(join_entries(entries)),
{
    if entries.len() == 0 {
        let s = join_entries(entries);
        assert(s =~= Seq::<char>::empty());
        assert(pieces_of(s) =~= seq![Seq::<char>::empty()]);
        assert(pieces_of(s).drop_last() =~= Seq::<Seq<char>>::empty());
        assert(trim(Seq::<char>::empty()) =~= Seq::<char>::empty());
        assert(rules_of_pieces(pieces_of(s)) == rules_of_pieces(Seq::<Seq<char>>::empty()));
        assert(allow_list_of(s) =~= Seq::<RuleSpec>::empty());
        assert(entries.map_values(|t: Seq<char>| rule_of_token(t)) =~= Seq::<RuleSpec>::empty());
        assert(Seq::<RuleSpec>::empty().map_values(|r: RuleSpec| rule_text(r)) =~= entries);
    } else {
        assert forall|k: int| 0 <= k < entries.len() implies has_no_separator(
            #[trigger] entries[k],
        ) by {
            assert(is_clean_entry(entries[k]));
        }
        lemma_scan_joined(entries);
        assert(pieces_of(join_entries(entries)) =~= entries);
        lemma_rules_of_clean_pieces(entries);
        assert(allow_list_of(join_entries(entries)) == entries.map_values(
            |t: Seq<char>| rule_of_token(t),
        ));
        let rules = entries.map_values(|t: Seq<char>| rule_of_token(t));
        let texts = rules.map_values(|r: RuleSpec| rule_text(r));
        assert forall|k: int| 0 <= k < entries.len() implies #[trigger] texts[k] == entries[k] by {
            assert(is_clean_entry(entries[k]));
        }
        assert(texts =~= entries);
    }
}

} // verus!
