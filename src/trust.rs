use vstd::prelude::*;

use crate::engine::{default_settings, engine_error_text, overlay_defaults, settings_accept};
use crate::error::ProvenanceError;
use crate::pem::{chars_of, string_of};

verus! {

/// Control characters that a TOML multi-line basic string may not hold
/// as they are (tab and line feed may; carriage return is treated apart).
pub open spec fn is_toml_control(c: char) -> bool {
    (c as u32) <= 8 || c == '\u{0B}' || c == '\u{0C}' || (0x0E <= (c as u32) && (c as u32) <= 0x1F)
        || (c as u32) == 0x7F
}

/// The upper-case hexadecimal digit of `n` (below 16).
pub open spec fn hex_digit(n: u32) -> char {
    if n == 0 {
        '0'
    } else if n == 1 {
        '1'
    } else if n == 2 {
        '2'
    } else if n == 3 {
        '3'
    } else if n == 4 {
        '4'
    } else if n == 5 {
        '5'
    } else if n == 6 {
        '6'
    } else if n == 7 {
        '7'
    } else if n == 8 {
        '8'
    } else if n == 9 {
        '9'
    } else if n == 10 {
        'A'
    } else if n == 11 {
        'B'
    } else if n == 12 {
        'C'
    } else if n == 13 {
        'D'
    } else if n == 14 {
        'E'
    } else {
        'F'
    }
}

/// The value of a hexadecimal digit, either case.
pub open spec fn hex_value(c: char) -> Option<u32> {
    if '0' <= c && c <= '9' {
        Some((c as u32 - '0' as u32) as u32)
    } else if 'A' <= c && c <= 'F' {
        Some((c as u32 - 'A' as u32 + 10) as u32)
    } else if 'a' <= c && c <= 'f' {
        Some((c as u32 - 'a' as u32 + 10) as u32)
    } else {
        None
    }
}

/// The character with the given code.
pub open spec fn char_with_code(n: u32) -> char {
    n as char
}

/// The `\u00XX` escape of a control character.
pub open spec fn unicode_escape(c: char) -> Seq<char> {
    seq!['\\', 'u', '0', '0', hex_digit((c as u32) / 16), hex_digit((c as u32) % 16)]
}

/// The body of a TOML multi-line basic string for `s`, after `run` double
/// quotes written as they are: backslashes, carriage returns and control
/// characters are escaped, and a double quote only where it would make a
/// third in a row; everything else is copied.
pub open spec fn escape_from(s: Seq<char>, run: nat) -> Seq<char>
    decreases s.len(),
{
    if s.len() == 0 {
        seq![]
    } else {
        let c = s[0];
        let rest = s.drop_first();
        if c == '"' {
            if run >= 2 {
                seq!['\\', '"'] + escape_from(rest, 0)
            } else {
                seq!['"'] + escape_from(rest, run + 1)
            }
        } else if c == '\\' {
            seq!['\\', '\\'] + escape_from(rest, 0)
        } else if c == '\r' {
            seq!['\\', 'r'] + escape_from(rest, 0)
        } else if is_toml_control(c) {
            unicode_escape(c) + escape_from(rest, 0)
        } else {
            seq![c] + escape_from(rest, 0)
        }
    }
}

/// The body of a TOML multi-line basic string that reads back as `s`.
pub open spec fn escape_toml(s: Seq<char>) -> Seq<char> {
    escape_from(s, 0)
}

pub open spec fn prepend(c: char, r: Option<Seq<char>>) -> Option<Seq<char>> {
    match r {
        Some(x) => Some(seq![c] + x),
        None => None,
    }
}

/// How TOML reads the body of a multi-line basic string, left to right,
/// after `run` double quotes read as they are. It knows the escapes `\\`,
/// `\"`, `\r` and `\u00XX`, and gives `None` on anything else TOML would not
/// read back as text: another escape, a third double quote in a row (it
/// closes the string), a bare carriage return, a control character.
pub open spec fn read_body(e: Seq<char>, run: nat) -> Option<Seq<char>>
    decreases e.len(),
{
    if e.len() == 0 {
        Some(seq![])
    } else if e[0] == '\\' {
        if e.len() >= 2 && (e[1] == '\\' || e[1] == '"') {
            prepend(e[1], read_body(e.subrange(2, e.len() as int), 0))
        } else if e.len() >= 2 && e[1] == 'r' {
            prepend('\r', read_body(e.subrange(2, e.len() as int), 0))
        } else if e.len() >= 6 && e[1] == 'u' && e[2] == '0' && e[3] == '0' && hex_value(e[4]) is Some
            && hex_value(e[5]) is Some {
            prepend(
                char_with_code((hex_value(e[4])->0 * 16 + hex_value(e[5])->0) as u32),
                read_body(e.subrange(6, e.len() as int), 0),
            )
        } else {
            None
        }
    } else if e[0] == '"' {
        if run >= 2 {
            None
        } else {
            prepend('"', read_body(e.drop_first(), run + 1))
        }
    } else if e[0] == '\r' || is_toml_control(e[0]) {
        None
    } else {
        prepend(e[0], read_body(e.drop_first(), 0))
    }
}

proof fn lemma_read_escape_from(s: Seq<char>, run: nat)
    requires
        run <= 2,
    ensures
        read_body(escape_from(s, run), run) == Some(s),
    decreases s.len(),
{
    if s.len() == 0 {
    } else {
        let c = s[0];
        let rest = s.drop_first();
        let e = escape_from(s, run);
        assert(seq![c] + rest =~= s);
        if c == '"' && run < 2 {
            lemma_read_escape_from(rest, run + 1);
            assert(e.drop_first() =~= escape_from(rest, run + 1));
        } else if c == '"' || c == '\\' || c == '\r' {
            lemma_read_escape_from(rest, 0);
            assert(e.subrange(2, e.len() as int) =~= escape_from(rest, 0));
        } else if is_toml_control(c) {
            lemma_read_escape_from(rest, 0);
            assert(e.subrange(6, e.len() as int) =~= escape_from(rest, 0));
            let n = c as u32;
            assert(hex_value(hex_digit(n / 16)) == Some(n / 16));
            assert(hex_value(hex_digit(n % 16)) == Some(n % 16));
            assert((n / 16) * 16 + n % 16 == n);
            vstd::utf8::char_u32_cast(c, n);
            assert(char_with_code(n) == c);
        } else {
            lemma_read_escape_from(rest, 0);
            assert(e.drop_first() =~= escape_from(rest, 0));
        }
    }
}

/// Embedded material reads back exactly: the escaped text, read as the body
/// of a TOML multi-line basic string, gives the input again, so no content
/// can close the string early or make the document unreadable.
pub proof fn lemma_embedding_reads_back(s: Seq<char>)
    ensures
        read_body(escape_toml(s), 0) == Some(s),
{
    lemma_read_escape_from(s, 0);
}

/// Text with no backslash, carriage return or control character, and no
/// three double quotes in a row, is embedded as it is.
pub open spec fn is_plain_text(s: Seq<char>) -> bool {
    &&& forall|i: int|
        0 <= i < s.len() ==> #[trigger] s[i] != '\\' && s[i] != '\r' && !is_toml_control(s[i])
    &&& forall|i: int|
        0 <= i < s.len() - 2 ==> !(#[trigger] s[i] == '"' && s[i + 1] == '"' && s[i + 2] == '"')
}

proof fn lemma_plain_from(s: Seq<char>, run: nat)
    requires
        is_plain_text(s),
        run <= 2,
        run == 2 ==> (s.len() == 0 || s[0] != '"'),
        run == 1 ==> !(s.len() >= 2 && s[0] == '"' && s[1] == '"'),
    ensures
        escape_from(s, run) == s,
    decreases s.len(),
{
    if s.len() > 0 {
        let rest = s.drop_first();
        assert(is_plain_text(rest)) by {
            assert forall|i: int| 0 <= i < rest.len() implies #[trigger] rest[i] != '\\' && rest[i]
                != '\r' && !is_toml_control(rest[i]) by {
                assert(rest[i] == s[i + 1]);
            }
            assert forall|i: int| 0 <= i < rest.len() - 2 implies !(#[trigger] rest[i] == '"'
                && rest[i + 1] == '"' && rest[i + 2] == '"') by {
                assert(rest[i] == s[i + 1]);
                assert(s[i + 1] == '"' ==> !(s[i + 2] == '"' && s[i + 3] == '"'));
            }
        }
        assert(s[0] != '\\' && s[0] != '\r' && !is_toml_control(s[0]));
        if s[0] == '"' {
            if s.len() >= 3 {
                assert(!(s[0] == '"' && s[1] == '"' && s[2] == '"'));
            }
            lemma_plain_from(rest, run + 1);
        } else {
            lemma_plain_from(rest, 0);
        }
        assert(seq![s[0]] + rest =~= s);
    }
}

/// Plain text (see [`is_plain_text`]) is embedded verbatim.
pub proof fn lemma_plain_text_embeds_verbatim(s: Seq<char>)
    requires
        is_plain_text(s),
    ensures
        escape_toml(s) == s,
{
    lemma_plain_from(s, 0);
}

/// `s` ended by a newline: as it is where it already ends with one.
pub open spec fn with_final_newline(s: Seq<char>) -> Seq<char> {
    if s.len() > 0 && s.last() == '\n' {
        s
    } else {
        s.push('\n')
    }
}

/// A TOML multi-line basic string that reads back as `s` ended by a newline;
/// the newline after the opening delimiter is not part of the value.
pub open spec fn block_literal(s: Seq<char>) -> Seq<char> {
    "\"\"\"\n"@ + escape_toml(with_final_newline(s)) + "\"\"\"\n"@
}

/// The settings document for the given trust material: none where there is
/// none, so that the engine keeps its default policy.
pub open spec fn trust_config_of(
    anchors_pem: Option<Seq<char>>,
    trust_list: Option<Seq<char>>,
) -> Option<Seq<char>> {
    if anchors_pem is None && trust_list is None {
        None
    } else {
        Some(
            "[trust]\nverify_trust_list = true\n"@ + match anchors_pem {
                Some(p) => "user_anchors = "@ + block_literal(p),
                None => seq![],
            } + match trust_list {
                Some(t) => "trust_config = "@ + block_literal(t),
                None => seq![],
            } + "[verify]\nverify_trust = true\n"@,
        )
    }
}

fn push_hex_digit(out: &mut Vec<char>, n: u32)
    requires
        n < 16,
    ensures
        final(out)@ == old(out)@.push(hex_digit(n)),
{
    let c = if n == 0 {
        '0'
    } else if n == 1 {
        '1'
    } else if n == 2 {
        '2'
    } else if n == 3 {
        '3'
    } else if n == 4 {
        '4'
    } else if n == 5 {
        '5'
    } else if n == 6 {
        '6'
    } else if n == 7 {
        '7'
    } else if n == 8 {
        '8'
    } else if n == 9 {
        '9'
    } else if n == 10 {
        'A'
    } else if n == 11 {
        'B'
    } else if n == 12 {
        'C'
    } else if n == 13 {
        'D'
    } else if n == 14 {
        'E'
    } else {
        'F'
    };
    out.push(c);
}

/// `value` as a TOML multi-line basic string, on lines of its own.
pub fn multiline_value(value: &str) -> (r: String)
    ensures
        r@ == block_literal(value@),
{
    let mut v = chars_of(value);
    if v.len() == 0 || v[v.len() - 1] != '\n' {
        v.push('\n');
    }
    let ghost text = with_final_newline(value@);
    assert(v@ =~= text);
    let n = v.len();
    let mut body: Vec<char> = Vec::new();
    let mut run: usize = 0;
    let mut i: usize = 0;
    assert(v@.subrange(0, n as int) =~= v@);
    assert(body@ + escape_from(v@.subrange(0, n as int), 0) =~= escape_toml(text));
    while i < n
        invariant
            n == v@.len(),
            v@ == text,
            i <= n,
            run <= 2,
            body@ + escape_from(v@.subrange(i as int, n as int), run as nat) == escape_toml(text),
        decreases n - i,
    {
        let ghost before = body@;
        let ghost rest = v@.subrange(i as int + 1, n as int);
        assert(v@.subrange(i as int, n as int).drop_first() =~= rest);
        assert(v@.subrange(i as int, n as int)[0] == v@[i as int]);
        let c = v[i];
        if c == '"' {
            if run >= 2 {
                body.push('\\');
                body.push('"');
                run = 0;
            } else {
                body.push('"');
                run = run + 1;
            }
        } else if c == '\\' {
            body.push('\\');
            body.push('\\');
            run = 0;
        } else if c == '\r' {
            body.push('\\');
            body.push('r');
            run = 0;
        } else if (c as u32) <= 8 || c == '\u{0B}' || c == '\u{0C}' || (0x0E <= (c as u32) && (c
            as u32) <= 0x1F) || (c as u32) == 0x7F {
            body.push('\\');
            body.push('u');
            body.push('0');
            body.push('0');
            push_hex_digit(&mut body, (c as u32) / 16);
            push_hex_digit(&mut body, (c as u32) % 16);
            run = 0;
        } else {
            body.push(c);
            run = 0;
        }
        assert(body@ + escape_from(rest, run as nat) =~= escape_toml(text));
        i = i + 1;
    }
    assert(escape_from(v@.subrange(n as int, n as int), run as nat) =~= Seq::<char>::empty());
    assert(body@ =~= escape_toml(text));
    let inner = string_of(&body);
    let r = String::from_str("\"\"\"\n").concat(inner.as_str()).concat("\"\"\"\n");
    assert(r@ =~= block_literal(value@));
    r
}

/// The trust material handed to the verification engine before each
/// verification; immutable once made.
#[derive(Debug, Clone)]
pub struct TrustedIssuers {
    config: Option<String>,
}

impl View for TrustedIssuers {
    type V = Option<Seq<char>>;

    /// The settings document this instance installs, if any.
    closed spec fn view(&self) -> Option<Seq<char>> {
        match self.config {
            Some(c) => Some(c@),
            None => None,
        }
    }
}

impl TrustedIssuers {
    /// The trust configuration for optional PEM trust anchors and an optional
    /// trust-list document; both absent leaves the engine's default policy.
    pub fn new(anchors_pem: Option<String>, trust_list_json: Option<String>) -> (r: TrustedIssuers)
        ensures
            r@ == trust_config_of(
                match anchors_pem {
                    Some(p) => Some(p@),
                    None => None,
                },
                match trust_list_json {
                    Some(t) => Some(t@),
                    None => None,
                },
            ),
    {
        if anchors_pem.is_none() && trust_list_json.is_none() {
            return TrustedIssuers { config: None };
        }
        let mut toml = String::from_str("[trust]\nverify_trust_list = true\n");
        let ghost head = toml@;
        match &anchors_pem {
            Some(pem) => {
                toml.append("user_anchors = ");
                let block = multiline_value(pem.as_str());
                toml.append(block.as_str());
            },
            None => {},
        }
        let ghost mid = toml@;
        match &trust_list_json {
            Some(json) => {
                toml.append("trust_config = ");
                let block = multiline_value(json.as_str());
                toml.append(block.as_str());
            },
            None => {},
        }
        toml.append("[verify]\nverify_trust = true\n");
        let r = TrustedIssuers { config: Some(toml) };
        assert(r@->0 =~= trust_config_of(
            match anchors_pem {
                Some(p) => Some(p@),
                None => None,
            },
            match trust_list_json {
                Some(t) => Some(t@),
                None => None,
            },
        )->0);
        r
    }

    /// The settings document this configuration installs, if any.
    pub fn config(&self) -> (r: Option<String>)
        ensures
            match r {
                Some(c) => self@ == Some(c@),
                None => self@ is None,
            },
    {
        match &self.config {
            Some(c) => Some(c.clone()),
            None => None,
        }
    }

    /// The engine settings that one verification runs under: the engine's
    /// defaults, overlaid with this configuration where there is one. Each
    /// call starts again from the defaults, so nothing of an earlier request
    /// remains; a document the engine rejects fails with its error.
    pub fn apply(&self) -> (r: Result<EngineSettings, ProvenanceError>)
        ensures
            self@ is None ==> r is Ok,
            self@ matches Some(d) ==> (r is Ok <==> settings_accept(d)),
            r matches Ok(s) ==> s@ == self@,
            r matches Err(e) ==> e is C2pa,
    {
        match &self.config {
            None => Ok(EngineSettings { settings: default_settings(), doc: Ghost(None) }),
            Some(config) => match overlay_defaults(config.as_str()) {
                Ok(s) => Ok(EngineSettings { settings: s, doc: Ghost(Some(config@)) }),
                Err(e) => Err(ProvenanceError::C2pa(engine_error_text(&e))),
            },
        }
    }
}

/// Settings of the verification engine, with the settings document laid
/// over the engine's defaults to make them (none for the defaults alone).
pub struct EngineSettings {
    settings: c2pa::Settings,
    doc: Ghost<Option<Seq<char>>>,
}

impl View for EngineSettings {
    type V = Option<Seq<char>>;

    closed spec fn view(&self) -> Option<Seq<char>> {
        self.doc@
    }
}

impl EngineSettings {
    /// The engine's own settings value.
    pub fn into_settings(self) -> c2pa::Settings {
        self.settings
    }
}

impl Default for TrustedIssuers {
    /// No trust material: the engine keeps its default policy.
    fn default() -> (r: TrustedIssuers)
        ensures
            r@ is None,
    {
        TrustedIssuers { config: None }
    }
}

} // verus!
