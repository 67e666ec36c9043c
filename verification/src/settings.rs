//! The persisted settings record and its file format: a whole-record JSON
//! object, rendered and parsed here so that saving and loading are exact
//! inverses. Absence of a file means the documented defaults; malformed
//! content is a visible parse failure, never silently replaced.

use vstd::prelude::*;
use vstd::string::*;

verus! {

/// The user-configurable options, persisted as one record.
#[derive(Clone, Debug)]
pub struct AppSettings {
    pub openai_model: String,
    pub openai_base_url: String,
    pub ocr_enabled: bool,
    pub first_launch: bool,
}

/// The mathematical value of a settings record.
pub struct SettingsView {
    pub openai_model: Seq<char>,
    pub openai_base_url: Seq<char>,
    pub ocr_enabled: bool,
    pub first_launch: bool,
}

impl View for AppSettings {
    type V = SettingsView;

    open spec fn view(&self) -> SettingsView {
        SettingsView {
            openai_model: self.openai_model@,
            openai_base_url: self.openai_base_url@,
            ocr_enabled: self.ocr_enabled,
            first_launch: self.first_launch,
        }
    }
}

/// The documented default record.
pub open spec fn default_view() -> SettingsView {
    SettingsView {
        openai_model: "gpt-4o"@,
        openai_base_url: "https://api.openai.com/v1"@,
        ocr_enabled: false,
        first_launch: true,
    }
}

impl Default for AppSettings {
    /// The defaults used when no settings were ever saved.
    fn default() -> (r: AppSettings)
        ensures
            r@ == default_view(),
    {
        AppSettings {
            openai_model: "gpt-4o".to_owned(),
            openai_base_url: "https://api.openai.com/v1".to_owned(),
            ocr_enabled: false,
            first_launch: true,
        }
    }
}

/// Failures of the settings store: content that does not parse, and an
/// inaccessible storage location (reported by the surrounding I/O layer).
#[derive(Debug)]
pub enum SettingsError {
    ParseError,
    StorageError,
}

/// How one character appears inside a rendered string value: the quote and
/// the backslash are escaped, everything else stands as itself.
pub open spec fn esc_char(c: char) -> Seq<char> {
    if c == '"' || c == '\\' {
        seq!['\\', c]
    } else {
        seq![c]
    }
}

/// A string value's characters with the necessary escapes applied.
pub open spec fn escape_text(s: Seq<char>) -> Seq<char>
    decreases s.len(),
{
    if s.len() == 0 {
        Seq::<char>::empty()
    } else {
        esc_char(s[0]) + escape_text(s.skip(1))
    }
}

/// A rendered string value: the escaped characters between quotes.
pub open spec fn quoted(s: Seq<char>) -> Seq<char> {
    seq!['"'] + escape_text(s) + seq!['"']
}

/// A rendered boolean value.
pub open spec fn bool_text(b: bool) -> Seq<char> {
    if b {
        "true"@
    } else {
        "false"@
    }
}

/// The rendered settings record: one JSON object with the four members in a
/// fixed order.
pub open spec fn settings_text(v: SettingsView) -> Seq<char> {
    "{"@ + "\n  "@ + "\"openai_model\""@ + ":"@ + " "@ + quoted(v.openai_model) + ","@ + "\n  "@
        + "\"openai_base_url\""@ + ":"@ + " "@ + quoted(v.openai_base_url) + ","@ + "\n  "@
        + "\"ocr_enabled\""@ + ":"@ + " "@ + bool_text(v.ocr_enabled) + ","@ + "\n  "@
        + "\"first_launch\""@ + ":"@ + " "@ + bool_text(v.first_launch) + "\n"@ + "}"@
}

/// Escaping distributes over concatenation.
proof fn lemma_escape_append(a: Seq<char>, b: Seq<char>)
    ensures
        escape_text(a + b) == escape_text(a) + escape_text(b),
    decreases a.len(),
{
    if a.len() == 0 {
        assert(a + b =~= b);
        assert(escape_text(a) + escape_text(b) =~= escape_text(b));
    } else {
        assert((a + b).skip(1) =~= a.skip(1) + b);
        lemma_escape_append(a.skip(1), b);
        assert(escape_text(a + b) =~= escape_text(a) + escape_text(b));
    }
}

/// Escaping one character.
proof fn lemma_escape_single(c: char)
    ensures
        escape_text(seq![c]) == esc_char(c),
{
    reveal_with_fuel(escape_text, 2);
    assert(seq![c].skip(1) =~= Seq::<char>::empty());
    assert(escape_text(seq![c]) =~= esc_char(c));
}

/// Relies on String::push: appends one character to the string.
#[verifier::external_body]
fn push_char(s: &mut String, c: char)
    ensures
        final(s)@ == old(s)@.push(c),
{
    s.push(c);
}

/// Appends a quoted, escaped string value.
fn append_quoted(out: &mut String, value: &str)
    ensures
        final(out)@ == old(out)@ + quoted(value@),
{
    let ghost start = out@;
    out.append("\"");
    proof {
        reveal_strlit("\"");
        assert("\""@ =~= seq!['"']);
        assert(escape_text(value@.take(0)) =~= Seq::<char>::empty());
        assert(out@ =~= start + seq!['"'] + escape_text(value@.take(0)));
    }
    let n = value.unicode_len();
    let mut i: usize = 0;
    while i < n
        invariant
            n == value@.len(),
            i <= n,
            out@ == start + seq!['"'] + escape_text(value@.take(i as int)),
        decreases n - i,
    {
        let c = value.get_char(i);
        if c == '"' || c == '\\' {
            push_char(out, '\\');
            push_char(out, c);
        } else {
            push_char(out, c);
        }
        proof {
            assert(value@.take(i as int + 1) =~= value@.take(i as int) + seq![value@[i as int]]);
            lemma_escape_append(value@.take(i as int), seq![value@[i as int]]);
            lemma_escape_single(value@[i as int]);
            assert(out@ =~= start + seq!['"'] + escape_text(value@.take(i as int + 1)));
        }
        i += 1;
    }
    proof {
        assert(value@.take(n as int) =~= value@);
    }
    out.append("\"");
    proof {
        reveal_strlit("\"");
        assert("\""@ =~= seq!['"']);
        assert(out@ =~= start + quoted(value@));
    }
}

/// Appends a rendered boolean value.
fn append_bool(out: &mut String, b: bool)
    ensures
        final(out)@ == old(out)@ + bool_text(b),
{
    if b {
        out.append("true");
    } else {
        out.append("false");
    }
}

/// Renders the settings record to the text that `settings_text` describes.
pub fn render_settings(s: &AppSettings) -> (r: String)
    ensures
        r@ == settings_text(s@),
{
    let mut out = String::new();
    out.append("{");
    out.append("\n  ");
    out.append("\"openai_model\"");
    out.append(":");
    out.append(" ");
    append_quoted(&mut out, s.openai_model.as_str());
    out.append(",");
    out.append("\n  ");
    out.append("\"openai_base_url\"");
    out.append(":");
    out.append(" ");
    append_quoted(&mut out, s.openai_base_url.as_str());
    out.append(",");
    out.append("\n  ");
    out.append("\"ocr_enabled\"");
    out.append(":");
    out.append(" ");
    append_bool(&mut out, s.ocr_enabled);
    out.append(",");
    out.append("\n  ");
    out.append("\"first_launch\"");
    out.append(":");
    out.append(" ");
    append_bool(&mut out, s.first_launch);
    out.append("\n");
    out.append("}");
    proof {
        assert(out@ =~= settings_text(s@));
    }
    out
}

/// JSON insignificant whitespace.
pub open spec fn is_ws(c: char) -> bool {
    c == ' ' || c == '\n' || c == '\t' || c == '\r'
}

/// The first position at or after `i` holding no whitespace.
pub open spec fn skip_ws(s: Seq<char>, i: int) -> int
    decreases s.len() - i,
{
    if 0 <= i < s.len() && is_ws(s[i]) {
        skip_ws(s, i + 1)
    } else {
        i
    }
}

/// The position after an exact occurrence of `lit` at `i`, if it is there.
pub open spec fn parse_lit(s: Seq<char>, i: int, lit: Seq<char>) -> Option<int> {
    if 0 <= i && i + lit.len() <= s.len() && s.subrange(i, i + lit.len()) == lit {
        Some(i + lit.len())
    } else {
        None
    }
}

/// The character an escape letter stands for, if it is a recognized escape.
pub open spec fn unescape(c: char) -> Option<char> {
    if c == '"' {
        Some('"')
    } else if c == '\\' {
        Some('\\')
    } else if c == '/' {
        Some('/')
    } else if c == 'n' {
        Some('\n')
    } else if c == 'r' {
        Some('\r')
    } else if c == 't' {
        Some('\t')
    } else {
        None
    }
}

/// The value and end position of a string body starting at `i` (just past the
/// opening quote): characters up to the closing quote, with escapes resolved.
pub open spec fn parse_string_body(s: Seq<char>, i: int) -> Option<(Seq<char>, int)>
    decreases s.len() - i,
{
    if i < 0 || i >= s.len() {
        None
    } else if s[i] == '"' {
        Some((Seq::<char>::empty(), i + 1))
    } else if s[i] == '\\' {
        if i + 1 < s.len() {
            match unescape(s[i + 1]) {
                Some(c) => match parse_string_body(s, i + 2) {
                    Some((rest, j)) => Some((seq![c] + rest, j)),
                    None => None,
                },
                None => None,
            }
        } else {
            None
        }
    } else {
        match parse_string_body(s, i + 1) {
            Some((rest, j)) => Some((seq![s[i]] + rest, j)),
            None => None,
        }
    }
}

/// A quoted string value at `i`.
pub open spec fn parse_quoted(s: Seq<char>, i: int) -> Option<(Seq<char>, int)> {
    if 0 <= i < s.len() && s[i] == '"' {
        parse_string_body(s, i + 1)
    } else {
        None
    }
}

/// A boolean value at `i`.
pub open spec fn parse_bool(s: Seq<char>, i: int) -> Option<(bool, int)> {
    match parse_lit(s, i, "true"@) {
        Some(j) => Some((true, j)),
        None => match parse_lit(s, i, "false"@) {
            Some(j) => Some((false, j)),
            None => None,
        },
    }
}

/// A member key at `i`: whitespace, the quoted key, whitespace, a colon,
/// whitespace; the result is the position of the member's value.
pub open spec fn parse_member_key(s: Seq<char>, i: int, key: Seq<char>) -> Option<int> {
    match parse_lit(s, skip_ws(s, i), key) {
        Some(a) => match parse_lit(s, skip_ws(s, a), ":"@) {
            Some(b) => Some(skip_ws(s, b)),
            None => None,
        },
        None => None,
    }
}

/// A separating comma at `i`, surrounded by whitespace.
pub open spec fn parse_comma(s: Seq<char>, i: int) -> Option<int> {
    parse_lit(s, skip_ws(s, i), ","@)
}

/// The whole settings record: one object with the four members in order,
/// nothing but whitespace around the tokens, and nothing after the record.
pub open spec fn parse_settings_view(s: Seq<char>) -> Option<SettingsView> {
    match parse_lit(s, skip_ws(s, 0), "{"@) {
        None => None,
        Some(i1) => match parse_member_key(s, i1, "\"openai_model\""@) {
            None => None,
            Some(p1) => match parse_quoted(s, p1) {
                None => None,
                Some((model, q1)) => match parse_comma(s, q1) {
                    None => None,
                    Some(i2) => match parse_member_key(s, i2, "\"openai_base_url\""@) {
                        None => None,
                        Some(p2) => match parse_quoted(s, p2) {
                            None => None,
                            Some((url, q2)) => match parse_comma(s, q2) {
                                None => None,
                                Some(i3) => match parse_member_key(s, i3, "\"ocr_enabled\""@) {
                                    None => None,
                                    Some(p3) => match parse_bool(s, p3) {
                                        None => None,
                                        Some((ocr, q3)) => match parse_comma(s, q3) {
                                            None => None,
                                            Some(i4) => match parse_member_key(
                                                s,
                                                i4,
                                                "\"first_launch\""@,
                                            ) {
                                                None => None,
                                                Some(p4) => match parse_bool(s, p4) {
                                                    None => None,
                                                    Some((first, q4)) => match parse_lit(
                                                        s,
                                                        skip_ws(s, q4),
                                                        "}"@,
                                                    ) {
                                                        None => None,
                                                        Some(i5) => if skip_ws(s, i5) == s.len() {
                                                            Some(
                                                                SettingsView {
                                                                    openai_model: model,
                                                                    openai_base_url: url,
                                                                    ocr_enabled: ocr,
                                                                    first_launch: first,
                                                                },
                                                            )
                                                        } else {
                                                            None
                                                        },
                                                    },
                                                },
                                            },
                                        },
                                    },
                                },
                            },
                        },
                    },
                },
            },
        },
    }
}

/// Skipping whitespace lands exactly at the end of a whitespace block.
proof fn lemma_skip_ws_block(s: Seq<char>, i: int, j: int)
    requires
        0 <= i <= j <= s.len(),
        forall|k: int| i <= k < j ==> is_ws(s[k]),
        j == s.len() || !is_ws(s[j]),
    ensures
        skip_ws(s, i) == j,
    decreases j - i,
{
    if i < j {
        lemma_skip_ws_block(s, i + 1, j);
    }
}

/// A string body that is an escaped value followed by a closing quote parses
/// back to exactly that value.
proof fn lemma_parse_escaped(s: Seq<char>, i: int, v: Seq<char>)
    requires
        0 <= i,
        i + escape_text(v).len() + 1 <= s.len(),
        s.subrange(i, i + escape_text(v).len() + 1) == escape_text(v) + seq!['"'],
    ensures
        parse_string_body(s, i) == Some((v, i + escape_text(v).len() + 1)),
    decreases v.len(),
{
    let e = escape_text(v);
    if v.len() == 0 {
        assert(s[i] == (e + seq!['"'])[0]);
        assert(s[i] == '"');
        assert(v =~= Seq::<char>::empty());
    } else {
        let e0 = esc_char(v[0]);
        let rest = v.skip(1);
        assert(e == e0 + escape_text(rest));
        assert(seq![v[0]] + rest =~= v);
        if v[0] == '"' || v[0] == '\\' {
            assert(s[i] == (e + seq!['"'])[0]);
            assert(s[i] == '\\');
            assert(s[i + 1] == (e + seq!['"'])[1]);
            assert(s[i + 1] == v[0]);
            assert(unescape(v[0]) == Some(v[0]));
            let er = escape_text(rest);
            assert forall|k: int| 0 <= k < er.len() + 1 implies s.subrange(
                i + 2,
                i + 2 + er.len() + 1,
            )[k] == (er + seq!['"'])[k] by {
                assert(s[i + 2 + k] == s.subrange(i, i + e.len() + 1)[2 + k]);
            }
            assert(s.subrange(i + 2, i + 2 + er.len() + 1) =~= er + seq!['"']);
            lemma_parse_escaped(s, i + 2, rest);
        } else {
            assert(s[i] == (e + seq!['"'])[0]);
            assert(s[i] == v[0]);
            let er = escape_text(rest);
            assert forall|k: int| 0 <= k < er.len() + 1 implies s.subrange(
                i + 1,
                i + 1 + er.len() + 1,
            )[k] == (er + seq!['"'])[k] by {
                assert(s[i + 1 + k] == s.subrange(i, i + e.len() + 1)[1 + k]);
            }
            assert(s.subrange(i + 1, i + 1 + er.len() + 1) =~= er + seq!['"']);
            lemma_parse_escaped(s, i + 1, rest);
        }
    }
}

/// A rendered boolean parses back to exactly that boolean.
proof fn lemma_parse_bool_at(s: Seq<char>, i: int, b: bool)
    requires
        0 <= i,
        i + bool_text(b).len() <= s.len(),
        s.subrange(i, i + bool_text(b).len()) == bool_text(b),
    ensures
        parse_bool(s, i) == Some((b, i + bool_text(b).len())),
{
    reveal_strlit("true");
    reveal_strlit("false");
    assert("true"@.len() == 4);
    assert("false"@.len() == 5);
    if b {
        assert(parse_lit(s, i, "true"@) == Some(i + 4));
    } else {
        assert(s[i] == "false"@[0]);
        if i + 4 <= s.len() && s.subrange(i, i + 4) == "true"@ {
            assert(s[i] == "true"@[0]);
            assert(false);
        }
        assert(parse_lit(s, i, "true"@) is None);
        assert(parse_lit(s, i, "false"@) == Some(i + 5));
    }
}

/// A member key written as newline, indent, the quoted key, a colon and one
/// space parses to the position right after that space.
proof fn lemma_member_at(s: Seq<char>, p: int, key: Seq<char>)
    requires
        0 <= p,
        p + 3 + key.len() + 2 < s.len(),
        s[p] == '\n',
        s[p + 1] == ' ',
        s[p + 2] == ' ',
        s.subrange(p + 3, p + 3 + key.len()) == key,
        key.len() > 0,
        !is_ws(key[0]),
        s[p + 3 + key.len()] == ':',
        s[p + 3 + key.len() + 1] == ' ',
        !is_ws(s[p + 3 + key.len() + 2]),
    ensures
        parse_member_key(s, p, key) == Some(p + 3 + key.len() + 2),
{
    assert(s[p + 3] == key[0]);
    lemma_skip_ws_block(s, p, p + 3);
    assert(parse_lit(s, p + 3, key) == Some(p + 3 + key.len()));
    let x = p + 3 + key.len();
    lemma_skip_ws_block(s, x, x);
    reveal_strlit(":");
    assert(":"@.len() == 1);
    assert(s.subrange(x, x + 1) =~= ":"@);
    assert(parse_lit(s, x, ":"@) == Some(x + 1));
    lemma_skip_ws_block(s, x + 1, x + 2);
}

/// A separating comma directly after a value parses past itself.
proof fn lemma_comma_at(s: Seq<char>, q: int)
    requires
        0 <= q,
        q + 1 <= s.len(),
        s[q] == ',',
    ensures
        parse_comma(s, q) == Some(q + 1),
{
    lemma_skip_ws_block(s, q, q);
    reveal_strlit(",");
    assert(","@.len() == 1);
    assert(s.subrange(q, q + 1) =~= ","@);
}

/// Offsets of the rendered record's tokens: where each member's value ends.
spec fn rt_q1(v: SettingsView) -> int {
    22 + escape_text(v.openai_model).len() as int
}

spec fn rt_v2(v: SettingsView) -> int {
    rt_q1(v) + 23
}

spec fn rt_q2(v: SettingsView) -> int {
    rt_v2(v) + escape_text(v.openai_base_url).len() as int + 2
}

spec fn rt_v3(v: SettingsView) -> int {
    rt_q2(v) + 19
}

spec fn rt_q3(v: SettingsView) -> int {
    rt_v3(v) + bool_text(v.ocr_enabled).len() as int
}

spec fn rt_v4(v: SettingsView) -> int {
    rt_q3(v) + 20
}

spec fn rt_q4(v: SettingsView) -> int {
    rt_v4(v) + bool_text(v.first_launch).len() as int
}

/// The rendered record's total length.
proof fn lemma_rt_len(v: SettingsView)
    ensures
        settings_text(v).len() == rt_q4(v) + 2,
        bool_text(v.ocr_enabled).len() >= 4,
        bool_text(v.first_launch).len() >= 4,
        "{"@.len() == 1,
        "}"@.len() == 1,
        "\n  "@.len() == 3,
        "\n"@.len() == 1,
        " "@.len() == 1,
        ","@.len() == 1,
        ":"@.len() == 1,
        "true"@.len() == 4,
        "false"@.len() == 5,
        "\"openai_model\""@.len() == 14,
        "\"openai_base_url\""@.len() == 17,
        "\"ocr_enabled\""@.len() == 13,
        "\"first_launch\""@.len() == 14,
{
    reveal_strlit("{");
    reveal_strlit("}");
    reveal_strlit("\n  ");
    reveal_strlit("\n");
    reveal_strlit(" ");
    reveal_strlit(",");
    reveal_strlit(":");
    reveal_strlit("true");
    reveal_strlit("false");
    reveal_strlit("\"openai_model\"");
    reveal_strlit("\"openai_base_url\"");
    reveal_strlit("\"ocr_enabled\"");
    reveal_strlit("\"first_launch\"");
    assert("{"@.len() == 1);
    assert("}"@.len() == 1);
    assert("\n  "@.len() == 3);
    assert("\n"@.len() == 1);
    assert(" "@.len() == 1);
    assert(","@.len() == 1);
    assert(":"@.len() == 1);
    assert("true"@.len() == 4);
    assert("false"@.len() == 5);
    assert("\"openai_model\""@.len() == 14);
    assert("\"openai_base_url\""@.len() == 17);
    assert("\"ocr_enabled\""@.len() == 13);
    assert("\"first_launch\""@.len() == 14);
}

/// The opening brace parses first.
proof fn lemma_rt_open(v: SettingsView)
    ensures
        parse_lit(settings_text(v), skip_ws(settings_text(v), 0), "{"@) == Some(1int),
{
    reveal_strlit("{");
    assert("{"@.len() == 1);
    lemma_rt_len(v);
    let s = settings_text(v);
    assert(s[0] == '{');
    lemma_skip_ws_block(s, 0, 0);
    assert(s.subrange(0, 1) =~= "{"@);
}

/// The first member parses to the model string.
#[verifier::rlimit(50)]
proof fn lemma_rt_member1(v: SettingsView)
    ensures
        parse_member_key(settings_text(v), 1, "\"openai_model\""@) == Some(20int),
        parse_quoted(settings_text(v), 20) == Some((v.openai_model, rt_q1(v))),
{
    reveal_strlit("\n  ");
    reveal_strlit(":");
    reveal_strlit(" ");
    reveal_strlit("\"openai_model\"");
    assert("\n  "@.len() == 3);
    assert("\"openai_model\""@.len() == 14);
    assert("\"openai_model\""@[0] == '"');
    lemma_rt_len(v);
    let s = settings_text(v);
    let em = escape_text(v.openai_model).len() as int;
    assert(s[1] == '\n' && s[2] == ' ' && s[3] == ' ');
    assert(s.subrange(4, 18) =~= "\"openai_model\""@);
    assert(s[18] == ':' && s[19] == ' ');
    assert(s[20] == '"');
    lemma_member_at(s, 1, "\"openai_model\""@);
    assert(s.subrange(21, 21 + em + 1) =~= escape_text(v.openai_model) + seq!['"']);
    lemma_parse_escaped(s, 21, v.openai_model);
}

/// The second member parses to the base-url string.
#[verifier::rlimit(50)]
proof fn lemma_rt_member2(v: SettingsView)
    ensures
        parse_comma(settings_text(v), rt_q1(v)) == Some(rt_q1(v) + 1),
        parse_member_key(settings_text(v), rt_q1(v) + 1, "\"openai_base_url\""@) == Some(rt_v2(v)),
        parse_quoted(settings_text(v), rt_v2(v)) == Some((v.openai_base_url, rt_q2(v))),
{
    reveal_strlit(",");
    reveal_strlit("\n  ");
    reveal_strlit(":");
    reveal_strlit(" ");
    reveal_strlit("\"openai_base_url\"");
    assert("\n  "@.len() == 3);
    assert("\"openai_base_url\""@.len() == 17);
    assert("\"openai_base_url\""@[0] == '"');
    lemma_rt_len(v);
    let s = settings_text(v);
    let q1 = rt_q1(v);
    let v2 = rt_v2(v);
    let eu = escape_text(v.openai_base_url).len() as int;
    assert(s[q1] == ',');
    lemma_comma_at(s, q1);
    let p = q1 + 1;
    assert(s[p] == '\n' && s[p + 1] == ' ' && s[p + 2] == ' ');
    assert(s.subrange(p + 3, p + 20) =~= "\"openai_base_url\""@);
    assert(s[p + 20] == ':' && s[p + 21] == ' ');
    assert(s[v2] == '"');
    lemma_member_at(s, p, "\"openai_base_url\""@);
    assert(s.subrange(v2 + 1, v2 + 1 + eu + 1) =~= escape_text(v.openai_base_url) + seq!['"']);
    lemma_parse_escaped(s, v2 + 1, v.openai_base_url);
}

/// The third member parses to the ocr switch.
#[verifier::rlimit(50)]
proof fn lemma_rt_member3(v: SettingsView)
    ensures
        parse_comma(settings_text(v), rt_q2(v)) == Some(rt_q2(v) + 1),
        parse_member_key(settings_text(v), rt_q2(v) + 1, "\"ocr_enabled\""@) == Some(rt_v3(v)),
        parse_bool(settings_text(v), rt_v3(v)) == Some((v.ocr_enabled, rt_q3(v))),
{
    reveal_strlit(",");
    reveal_strlit("\n  ");
    reveal_strlit(":");
    reveal_strlit(" ");
    reveal_strlit("\"ocr_enabled\"");
    reveal_strlit("true");
    reveal_strlit("false");
    assert("\n  "@.len() == 3);
    assert("\"ocr_enabled\""@.len() == 13);
    assert("\"ocr_enabled\""@[0] == '"');
    assert("true"@[0] == 't' && "false"@[0] == 'f');
    lemma_rt_len(v);
    let s = settings_text(v);
    let q2 = rt_q2(v);
    let v3 = rt_v3(v);
    let eo = bool_text(v.ocr_enabled).len() as int;
    assert(s[q2] == ',');
    lemma_comma_at(s, q2);
    let p = q2 + 1;
    assert(s[p] == '\n' && s[p + 1] == ' ' && s[p + 2] == ' ');
    assert(s.subrange(p + 3, p + 16) =~= "\"ocr_enabled\""@);
    assert(s[p + 16] == ':' && s[p + 17] == ' ');
    assert(s[v3] == bool_text(v.ocr_enabled)[0]);
    assert(!is_ws(s[v3]));
    lemma_member_at(s, p, "\"ocr_enabled\""@);
    assert(s.subrange(v3, v3 + eo) =~= bool_text(v.ocr_enabled));
    lemma_parse_bool_at(s, v3, v.ocr_enabled);
}

/// The fourth member parses to the first-launch switch.
#[verifier::rlimit(50)]
proof fn lemma_rt_member4(v: SettingsView)
    ensures
        parse_comma(settings_text(v), rt_q3(v)) == Some(rt_q3(v) + 1),
        parse_member_key(settings_text(v), rt_q3(v) + 1, "\"first_launch\""@) == Some(rt_v4(v)),
        parse_bool(settings_text(v), rt_v4(v)) == Some((v.first_launch, rt_q4(v))),
{
    reveal_strlit(",");
    reveal_strlit("\n  ");
    reveal_strlit(":");
    reveal_strlit(" ");
    reveal_strlit("\"first_launch\"");
    reveal_strlit("true");
    reveal_strlit("false");
    assert("\n  "@.len() == 3);
    assert("\"first_launch\""@.len() == 14);
    assert("\"first_launch\""@[0] == '"');
    assert("true"@[0] == 't' && "false"@[0] == 'f');
    lemma_rt_len(v);
    let s = settings_text(v);
    let q3 = rt_q3(v);
    let v4 = rt_v4(v);
    let ef = bool_text(v.first_launch).len() as int;
    assert(s[q3] == ',');
    lemma_comma_at(s, q3);
    let p = q3 + 1;
    assert(s[p] == '\n' && s[p + 1] == ' ' && s[p + 2] == ' ');
    assert(s.subrange(p + 3, p + 17) =~= "\"first_launch\""@);
    assert(s[p + 17] == ':' && s[p + 18] == ' ');
    assert(s[v4] == bool_text(v.first_launch)[0]);
    assert(!is_ws(s[v4]));
    lemma_member_at(s, p, "\"first_launch\""@);
    assert(s.subrange(v4, v4 + ef) =~= bool_text(v.first_launch));
    lemma_parse_bool_at(s, v4, v.first_launch);
}

/// The closing brace parses last, with nothing after it.
proof fn lemma_rt_close(v: SettingsView)
    ensures
        skip_ws(settings_text(v), rt_q4(v)) == rt_q4(v) + 1,
        parse_lit(settings_text(v), rt_q4(v) + 1, "}"@) == Some(rt_q4(v) + 2),
        skip_ws(settings_text(v), rt_q4(v) + 2) == settings_text(v).len(),
        settings_text(v).len() == rt_q4(v) + 2,
{
    reveal_strlit("}");
    reveal_strlit("\n");
    lemma_rt_len(v);
    let s = settings_text(v);
    let q4 = rt_q4(v);
    assert(s[q4] == '\n');
    assert(s[q4 + 1] == '}');
    lemma_skip_ws_block(s, q4, q4 + 1);
    assert(s.subrange(q4 + 1, q4 + 2) =~= "}"@);
    lemma_skip_ws_block(s, q4 + 2, s.len() as int);
}

/// Loading a saved record yields that record: rendering and parsing are
/// exact inverses, for every settings value.
pub proof fn lemma_settings_round_trip(v: SettingsView)
    ensures
        parse_settings_view(settings_text(v)) == Some(v),
{
    lemma_rt_open(v);
    lemma_rt_member1(v);
    lemma_rt_member2(v);
    lemma_rt_member3(v);
    lemma_rt_member4(v);
    lemma_rt_close(v);
    let s = settings_text(v);
    assert(parse_settings_view(s) == Some(
        SettingsView {
            openai_model: v.openai_model,
            openai_base_url: v.openai_base_url,
            ocr_enabled: v.ocr_enabled,
            first_launch: v.first_launch,
        },
    ));
}

/// Advances past whitespace, as `skip_ws` describes.
fn skip_ws_exec(s: &str, n: usize, i: usize) -> (r: usize)
    requires
        n == s@.len(),
        i <= n,
    ensures
        r as int == skip_ws(s@, i as int),
        i <= r <= n,
    decreases n - i,
{
    if i < n {
        let c = s.get_char(i);
        if c == ' ' || c == '\n' || c == '\t' || c == '\r' {
            return skip_ws_exec(s, n, i + 1);
        }
    }
    i
}

/// Matches an exact literal, as `parse_lit` describes.
fn match_lit(s: &str, n: usize, i: usize, lit: &str) -> (r: Option<usize>)
    requires
        n == s@.len(),
        i <= n,
    ensures
        match parse_lit(s@, i as int, lit@) {
            Some(j) => r matches Some(x) && x as int == j && x <= n,
            None => r is None,
        },
{
    let litn = lit.unicode_len();
    if litn > n - i {
        return None;
    }
    let mut k: usize = 0;
    while k < litn
        invariant
            n == s@.len(),
            litn == lit@.len(),
            i + litn <= n,
            k <= litn,
            forall|m: int| 0 <= m < k ==> s@[i + m] == lit@[m],
        decreases litn - k,
    {
        if s.get_char(i + k) != lit.get_char(k) {
            proof {
                assert(s@.subrange(i as int, i as int + litn) != lit@) by {
                    assert(s@.subrange(i as int, i as int + litn)[k as int] == s@[i as int
                        + k as int]);
                }
            }
            return None;
        }
        k += 1;
    }
    proof {
        assert(s@.subrange(i as int, i as int + litn) =~= lit@);
    }
    Some(i + litn)
}

/// Reads a string body, as `parse_string_body` describes.
fn parse_string_body_exec(s: &str, n: usize, i: usize) -> (r: Option<(String, usize)>)
    requires
        n == s@.len(),
        i <= n,
    ensures
        match parse_string_body(s@, i as int) {
            Some((v, j)) => r matches Some((t, x)) && t@ == v && x as int == j && x <= n,
            None => r is None,
        },
    decreases n - i,
{
    if i >= n {
        return None;
    }
    let c = s.get_char(i);
    if c == '"' {
        return Some((String::new(), i + 1));
    }
    if c == '\\' {
        if i + 1 < n {
            let e = s.get_char(i + 1);
            let unescaped: Option<char> = if e == '"' {
                Some('"')
            } else if e == '\\' {
                Some('\\')
            } else if e == '/' {
                Some('/')
            } else if e == 'n' {
                Some('\n')
            } else if e == 'r' {
                Some('\r')
            } else if e == 't' {
                Some('\t')
            } else {
                None
            };
            match unescaped {
                Some(u) => match parse_string_body_exec(s, n, i + 2) {
                    Some((rest, j)) => {
                        let mut t = String::new();
                        push_char(&mut t, u);
                        t.append(rest.as_str());
                        proof {
                            assert(t@ =~= seq![u] + rest@);
                        }
                        Some((t, j))
                    },
                    None => None,
                },
                None => None,
            }
        } else {
            None
        }
    } else {
        match parse_string_body_exec(s, n, i + 1) {
            Some((rest, j)) => {
                let mut t = String::new();
                push_char(&mut t, c);
                t.append(rest.as_str());
                proof {
                    assert(t@ =~= seq![c] + rest@);
                }
                Some((t, j))
            },
            None => None,
        }
    }
}

/// Reads a quoted string value, as `parse_quoted` describes.
fn parse_quoted_exec(s: &str, n: usize, i: usize) -> (r: Option<(String, usize)>)
    requires
        n == s@.len(),
        i <= n,
    ensures
        match parse_quoted(s@, i as int) {
            Some((v, j)) => r matches Some((t, x)) && t@ == v && x as int == j && x <= n,
            None => r is None,
        },
{
    if i < n && s.get_char(i) == '"' {
        parse_string_body_exec(s, n, i + 1)
    } else {
        None
    }
}

/// Reads a boolean value, as `parse_bool` describes.
fn parse_bool_exec(s: &str, n: usize, i: usize) -> (r: Option<(bool, usize)>)
    requires
        n == s@.len(),
        i <= n,
    ensures
        match parse_bool(s@, i as int) {
            Some((b, j)) => r matches Some((c, x)) && c == b && x as int == j && x <= n,
            None => r is None,
        },
{
    match match_lit(s, n, i, "true") {
        Some(j) => Some((true, j)),
        None => match match_lit(s, n, i, "false") {
            Some(j) => Some((false, j)),
            None => None,
        },
    }
}

/// Reads a member key and its colon, as `parse_member_key` describes.
fn parse_member_key_exec(s: &str, n: usize, i: usize, key: &str) -> (r: Option<usize>)
    requires
        n == s@.len(),
        i <= n,
    ensures
        match parse_member_key(s@, i as int, key@) {
            Some(j) => r matches Some(x) && x as int == j && x <= n,
            None => r is None,
        },
{
    let a = skip_ws_exec(s, n, i);
    match match_lit(s, n, a, key) {
        None => None,
        Some(b) => {
            let c = skip_ws_exec(s, n, b);
            match match_lit(s, n, c, ":") {
                None => None,
                Some(d) => Some(skip_ws_exec(s, n, d)),
            }
        },
    }
}

/// Reads a separating comma, as `parse_comma` describes.
fn parse_comma_exec(s: &str, n: usize, i: usize) -> (r: Option<usize>)
    requires
        n == s@.len(),
        i <= n,
    ensures
        match parse_comma(s@, i as int) {
            Some(j) => r matches Some(x) && x as int == j && x <= n,
            None => r is None,
        },
{
    let a = skip_ws_exec(s, n, i);
    match_lit(s, n, a, ",")
}

/// Parses the settings record that `parse_settings_view` describes; any text
/// it does not describe is a visible parse failure.
pub fn parse_settings(text: &str) -> (r: Result<AppSettings, SettingsError>)
    ensures
        match parse_settings_view(text@) {
            Some(v) => r matches Ok(st) && st@ == v,
            None => r matches Err(e) && e is ParseError,
        },
{
    let n = text.unicode_len();
    let i0 = skip_ws_exec(text, n, 0);
    let i1 = match match_lit(text, n, i0, "{") {
        None => {
            return Err(SettingsError::ParseError);
        },
        Some(x) => x,
    };
    let p1 = match parse_member_key_exec(text, n, i1, "\"openai_model\"") {
        None => {
            return Err(SettingsError::ParseError);
        },
        Some(x) => x,
    };
    let (model, q1) = match parse_quoted_exec(text, n, p1) {
        None => {
            return Err(SettingsError::ParseError);
        },
        Some(x) => x,
    };
    let i2 = match parse_comma_exec(text, n, q1) {
        None => {
            return Err(SettingsError::ParseError);
        },
        Some(x) => x,
    };
    let p2 = match parse_member_key_exec(text, n, i2, "\"openai_base_url\"") {
        None => {
            return Err(SettingsError::ParseError);
        },
        Some(x) => x,
    };
    let (url, q2) = match parse_quoted_exec(text, n, p2) {
        None => {
            return Err(SettingsError::ParseError);
        },
        Some(x) => x,
    };
    let i3 = match parse_comma_exec(text, n, q2) {
        None => {
            return Err(SettingsError::ParseError);
        },
        Some(x) => x,
    };
    let p3 = match parse_member_key_exec(text, n, i3, "\"ocr_enabled\"") {
        None => {
            return Err(SettingsError::ParseError);
        },
        Some(x) => x,
    };
    let (ocr, q3) = match parse_bool_exec(text, n, p3) {
        None => {
            return Err(SettingsError::ParseError);
        },
        Some(x) => x,
    };
    let i4 = match parse_comma_exec(text, n, q3) {
        None => {
            return Err(SettingsError::ParseError);
        },
        Some(x) => x,
    };
    let p4 = match parse_member_key_exec(text, n, i4, "\"first_launch\"") {
        None => {
            return Err(SettingsError::ParseError);
        },
        Some(x) => x,
    };
    let (first, q4) = match parse_bool_exec(text, n, p4) {
        None => {
            return Err(SettingsError::ParseError);
        },
        Some(x) => x,
    };
    let i5w = skip_ws_exec(text, n, q4);
    let i5 = match match_lit(text, n, i5w, "}") {
        None => {
            return Err(SettingsError::ParseError);
        },
        Some(x) => x,
    };
    let i6 = skip_ws_exec(text, n, i5);
    if i6 != n {
        return Err(SettingsError::ParseError);
    }
    Ok(
        AppSettings {
            openai_model: model,
            openai_base_url: url,
            ocr_enabled: ocr,
            first_launch: first,
        },
    )
}

/// Loads the settings record from the file's content: no file at all means
/// exactly the default record, and content that does not parse is a visible
/// failure, never replaced by defaults.
pub fn load_from_content(content: Option<&str>) -> (r: Result<AppSettings, SettingsError>)
    ensures
        content is None ==> (r matches Ok(s) && s@ == default_view()),
        content matches Some(text) ==> match parse_settings_view(text@) {
            Some(v) => r matches Ok(st) && st@ == v,
            None => r matches Err(e) && e is ParseError,
        },
{
    match content {
        None => Ok(AppSettings::default()),
        Some(text) => parse_settings(text),
    }
}

} // verus!
