//! The persisted user defaults: the preference values, their precedence
//! rules, and the line-oriented file format they are stored in.
//!
//! The file holds at most two lines, `mensa = "<value>"` and
//! `lang = "<value>"`, each optional; a missing field falls back to the
//! built-in default. Double quotes, backslashes and line breaks inside a
//! value are escaped, so storing and loading round-trips every value.
//! Reading and writing the file is plumbing outside the library; the
//! encoding, the parsing and the merge rules live here.

use vstd::prelude::*;
use crate::error::MensarError;

verus! {

/// The persisted user preferences: default facility query and language.
#[derive(Clone, Debug)]
pub struct Defaults {
    pub mensa: String,
    pub lang: String,
}

/// The maintenance subcommands that write through the defaults store.
#[derive(Clone, Debug)]
pub enum Commands {
    SetMensa { name: String },
    SetLanguage { name: String },
}

impl Defaults {
    /// The built-in default facility query.
    pub fn default_mensa() -> (r: String)
        ensures
            r@ == "polyterrasse"@,
    {
        String::from_str("polyterrasse")
    }

    /// The built-in default language.
    pub fn default_lang() -> (r: String)
        ensures
            r@ == "en"@,
    {
        String::from_str("en")
    }

    /// The defaults used when no file is present: the built-in values.
    pub fn built_in() -> (r: Defaults)
        ensures
            r.mensa@ == "polyterrasse"@,
            r.lang@ == "en"@,
    {
        Defaults { mensa: Defaults::default_mensa(), lang: Defaults::default_lang() }
    }

    /// Replaces the stored default facility query.
    pub fn set_mensa(&mut self, value: String)
        ensures
            final(self).mensa == value,
            final(self).lang == old(self).lang,
    {
        self.mensa = value;
    }

    /// Replaces the stored default language.
    pub fn set_lang(&mut self, value: String)
        ensures
            final(self).lang == value,
            final(self).mensa == old(self).mensa,
    {
        self.lang = value;
    }
}

/// Applies one maintenance subcommand to the stored defaults.
pub fn apply_command(d: &mut Defaults, c: &Commands)
    ensures
        match *c {
            Commands::SetMensa { name } => final(d).mensa == name && final(d).lang == old(d).lang,
            Commands::SetLanguage { name } => final(d).lang == name && final(d).mensa == old(d).mensa,
        },
{
    match c {
        Commands::SetMensa { name } => d.set_mensa(name.clone()),
        Commands::SetLanguage { name } => d.set_lang(name.clone()),
    }
}

/// The effective settings of one invocation: a per-call override wins over
/// the stored value. The stored value itself already carries the built-in
/// default for any field the file left out, so the precedence is override,
/// then stored, then built-in.
pub fn effective(cli_mensa: Option<String>, cli_lang: Option<String>, stored: &Defaults) -> (r:
    Defaults)
    ensures
        r.mensa@ == match cli_mensa {
            Some(m) => m@,
            None => stored.mensa@,
        },
        r.lang@ == match cli_lang {
            Some(l) => l@,
            None => stored.lang@,
        },
{
    let mensa = match cli_mensa {
        Some(m) => m,
        None => stored.mensa.clone(),
    };
    let lang = match cli_lang {
        Some(l) => l,
        None => stored.lang.clone(),
    };
    Defaults { mensa, lang }
}

/// How one character of a value is written inside the quotes: a backslash,
/// a double quote and a line break are escaped, anything else stands as is.
pub open spec fn spec_escape_char(c: char) -> Seq<char> {
    if c == '\\' {
        seq!['\\', '\\']
    } else if c == '"' {
        seq!['\\', '"']
    } else if c == '\n' {
        seq!['\\', 'n']
    } else {
        seq![c]
    }
}

/// A value as it is written inside the quotes, character by character.
pub open spec fn spec_escape(s: Seq<char>) -> Seq<char>
    decreases s.len(),
{
    if s.len() == 0 {
        Seq::empty()
    } else {
        spec_escape_char(s[0]) + spec_escape(s.drop_first())
    }
}

/// The value a quoted body stands for: escape pairs are mapped back, a bare
/// double quote, an unknown escape or a trailing backslash is malformed.
pub open spec fn spec_unescape(s: Seq<char>) -> Option<Seq<char>>
    decreases s.len(),
{
    if s.len() == 0 {
        Some(Seq::empty())
    } else if s[0] == '\\' {
        if s.len() < 2 {
            None
        } else {
            let mapped = if s[1] == '\\' {
                Some('\\')
            } else if s[1] == '"' {
                Some('"')
            } else if s[1] == 'n' {
                Some('\n')
            } else {
                None
            };
            match mapped {
                None => None,
                Some(c) => match spec_unescape(s.skip(2)) {
                    None => None,
                    Some(t) => Some(seq![c] + t),
                },
            }
        }
    } else if s[0] == '"' {
        None
    } else {
        match spec_unescape(s.drop_first()) {
            None => None,
            Some(t) => Some(seq![s[0]] + t),
        }
    }
}

/// One line of the file: the key, ` = "`, the escaped value, and a closing
/// quote.
pub open spec fn spec_line(key_prefix: Seq<char>, body: Seq<char>) -> Seq<char> {
    key_prefix + body + "\""@
}

/// The whole encoded file: the mensa line, then the lang line, each with a
/// trailing newline and its value escaped.
pub open spec fn spec_encode(mensa: Seq<char>, lang: Seq<char>) -> Seq<char> {
    spec_line("mensa = \""@, spec_escape(mensa)) + "\n"@ + spec_line(
        "lang = \""@,
        spec_escape(lang),
    ) + "\n"@
}

/// Escapes a value for the quoted body of its line.
fn escape_value(s: &str) -> (r: String)
    ensures
        r@ == spec_escape(s@),
{
    let n = s.unicode_len();
    let mut out = String::new();
    let mut i: usize = 0;
    proof {
        assert(s@.skip(0) =~= s@);
    }
    while i < n
        invariant
            i <= n,
            n == s@.len(),
            out@ + spec_escape(s@.skip(i as int)) == spec_escape(s@),
        decreases n - i,
    {
        proof {
            assert(s@.skip(i as int)[0] == s@[i as int]);
            assert(s@.skip(i as int).drop_first() =~= s@.skip(i + 1));
        }
        let c = s.get_char(i);
        if c == '\\' {
            out.append("\\\\");
            proof {
                reveal_strlit("\\\\");
                assert("\\\\"@ =~= spec_escape_char('\\'));
            }
        } else if c == '"' {
            out.append("\\\"");
            proof {
                reveal_strlit("\\\"");
                assert("\\\""@ =~= spec_escape_char('"'));
            }
        } else if c == '\n' {
            out.append("\\n");
            proof {
                reveal_strlit("\\n");
                assert("\\n"@ =~= spec_escape_char('\n'));
            }
        } else {
            let piece = s.substring_char(i, i + 1);
            out.append(piece);
            proof {
                assert(piece@ =~= spec_escape_char(s@[i as int]));
            }
        }
        proof {
            assert(out@ + spec_escape(s@.skip(i + 1)) =~= spec_escape(s@));
        }
        i += 1;
    }
    proof {
        assert(s@.skip(n as int) =~= Seq::<char>::empty());
        assert(out@ + spec_escape(Seq::<char>::empty()) =~= out@);
    }
    out
}

/// Maps a quoted body back to its value, or reports it malformed.
fn unescape_value(s: &str) -> (r: Option<String>)
    ensures
        match r {
            Some(v) => spec_unescape(s@) == Some(v@),
            None => spec_unescape(s@) is None,
        },
{
    let n = s.unicode_len();
    let mut out = String::new();
    let mut i: usize = 0;
    proof {
        assert(s@.skip(0) =~= s@);
    }
    while i < n
        invariant
            i <= n,
            n == s@.len(),
            spec_unescape(s@) == match spec_unescape(s@.skip(i as int)) {
                None => None::<Seq<char>>,
                Some(t) => Some(out@ + t),
            },
        decreases n - i,
    {
        proof {
            assert(s@.skip(i as int)[0] == s@[i as int]);
            assert(s@.skip(i as int).drop_first() =~= s@.skip(i + 1));
        }
        let c = s.get_char(i);
        if c == '\\' {
            if n - i < 2 {
                proof {
                    assert(s@.skip(i as int).len() == 1);
                }
                return None;
            }
            let d = s.get_char(i + 1);
            proof {
                assert(s@.skip(i as int)[1] == s@[i + 1]);
                assert(s@.skip(i as int).skip(2) =~= s@.skip(i + 2));
            }
            if d == '\\' {
                out.append("\\");
                proof {
                    reveal_strlit("\\");
                    assert("\\"@ =~= seq!['\\']);
                }
            } else if d == '"' {
                out.append("\"");
                proof {
                    reveal_strlit("\"");
                    assert("\""@ =~= seq!['"']);
                }
            } else if d == 'n' {
                out.append("\n");
                proof {
                    reveal_strlit("\n");
                    assert("\n"@ =~= seq!['\n']);
                }
            } else {
                return None;
            }
            proof {
                assert(spec_unescape(s@) == match spec_unescape(s@.skip(i + 2)) {
                    None => None::<Seq<char>>,
                    Some(t) => Some(out@ + t),
                });
            }
            i += 2;
        } else if c == '"' {
            return None;
        } else {
            let piece = s.substring_char(i, i + 1);
            out.append(piece);
            proof {
                assert(piece@ =~= seq![s@[i as int]]);
                assert(spec_unescape(s@) == match spec_unescape(s@.skip(i + 1)) {
                    None => None::<Seq<char>>,
                    Some(t) => Some(out@ + t),
                });
            }
            i += 1;
        }
    }
    proof {
        assert(s@.skip(n as int) =~= Seq::<char>::empty());
    }
    Some(out)
}

/// Encodes the defaults in the persisted file format, escaping each value.
pub fn encode_defaults(d: &Defaults) -> (r: String)
    ensures
        r@ == spec_encode(d.mensa@, d.lang@),
{
    let escaped_mensa = escape_value(d.mensa.as_str());
    let escaped_lang = escape_value(d.lang.as_str());
    let mut out = String::from_str("mensa = \"");
    out.append(escaped_mensa.as_str());
    out.append("\"");
    out.append("\n");
    out.append("lang = \"");
    out.append(escaped_lang.as_str());
    out.append("\"");
    out.append("\n");
    proof {
        assert(out@ =~= spec_encode(d.mensa@, d.lang@));
    }
    out
}

/// The lines of a text, split on `'\n'`; a trailing newline yields a final
/// empty line, and an empty text is one empty line.
pub open spec fn spec_lines(s: Seq<char>) -> Seq<Seq<char>>
    decreases s.len(),
{
    if s.len() == 0 {
        seq![Seq::<char>::empty()]
    } else if s[0] == '\n' {
        seq![Seq::<char>::empty()] + spec_lines(s.drop_first())
    } else {
        let rest = spec_lines(s.drop_first());
        rest.update(0, seq![s[0]] + rest[0])
    }
}

/// Splitting always yields at least one line.
pub proof fn lemma_lines_nonempty(s: Seq<char>)
    ensures
        spec_lines(s).len() >= 1,
    decreases s.len(),
{
    if s.len() == 0 {
    } else if s[0] == '\n' {
    } else {
        lemma_lines_nonempty(s.drop_first());
    }
}

/// The first of the lines, extended at the front.
pub open spec fn prepend_first(p: Seq<char>, ls: Seq<Seq<char>>) -> Seq<Seq<char>> {
    ls.update(0, p + ls[0])
}

/// One keyed line parses against its prefix when it starts with the prefix,
/// ends with a closing quote, and what stands between unescapes to a value.
pub open spec fn spec_parse_keyed(line: Seq<char>, prefix: Seq<char>) -> Option<Seq<char>> {
    if line.len() >= prefix.len() + 1 && line.subrange(0, prefix.len() as int) == prefix
        && line.last() == '"' {
        spec_unescape(line.subrange(prefix.len() as int, line.len() - 1))
    } else {
        None
    }
}

/// A non-empty line is either a mensa line or a lang line; anything else is
/// a parse failure.
pub open spec fn spec_parse_line(line: Seq<char>) -> Option<(bool, Seq<char>)> {
    match spec_parse_keyed(line, "mensa = \""@) {
        Some(v) => Some((true, v)),
        None => match spec_parse_keyed(line, "lang = \""@) {
            Some(v) => Some((false, v)),
            None => None,
        },
    }
}

/// Walks the lines in order: empty lines are skipped, a malformed line
/// fails the whole parse, and a repeated key keeps the last value.
pub open spec fn spec_parse_acc(
    lines: Seq<Seq<char>>,
    mensa: Option<Seq<char>>,
    lang: Option<Seq<char>>,
) -> Option<(Option<Seq<char>>, Option<Seq<char>>)>
    decreases lines.len(),
{
    if lines.len() == 0 {
        Some((mensa, lang))
    } else if lines[0].len() == 0 {
        spec_parse_acc(lines.drop_first(), mensa, lang)
    } else {
        match spec_parse_line(lines[0]) {
            None => None,
            Some(kv) => if kv.0 {
                spec_parse_acc(lines.drop_first(), Some(kv.1), lang)
            } else {
                spec_parse_acc(lines.drop_first(), mensa, Some(kv.1))
            },
        }
    }
}

/// The whole parse: the fields found in the text, or `None` on a malformed
/// line.
pub open spec fn spec_parse(s: Seq<char>) -> Option<(Option<Seq<char>>, Option<Seq<char>>)> {
    spec_parse_acc(spec_lines(s), None, None)
}

/// The view of an optionally found field.
pub open spec fn found_view(o: Option<String>) -> Option<Seq<char>> {
    match o {
        None => None,
        Some(t) => Some(t@),
    }
}

/// Splitting a newline-terminated line off the front of a text yields that
/// line, then the lines of the remainder.
proof fn lemma_lines_of_terminated_line(x: Seq<char>, rest: Seq<char>)
    requires
        forall|i: int| 0 <= i < x.len() ==> x[i] != '\n',
    ensures
        spec_lines(x + "\n"@ + rest) == seq![x] + spec_lines(rest),
    decreases x.len(),
{
    reveal_strlit("\n");
    let s = x + "\n"@ + rest;
    if x.len() == 0 {
        assert(s[0] == '\n');
        assert(s.drop_first() =~= rest);
        assert(spec_lines(s) =~~= seq![x] + spec_lines(rest));
    } else {
        assert(s[0] == x[0]);
        assert(s.drop_first() =~= x.drop_first() + "\n"@ + rest);
        lemma_lines_of_terminated_line(x.drop_first(), rest);
        let tail_lines = spec_lines(x.drop_first() + "\n"@ + rest);
        lemma_lines_nonempty(rest);
        assert(tail_lines[0] == x.drop_first());
        assert(seq![s[0]] + x.drop_first() =~= x);
        assert(spec_lines(s) =~~= seq![x] + spec_lines(rest));
    }
}

/// Unescaping undoes escaping: the codec loses nothing, for any value.
pub proof fn lemma_unescape_escape(v: Seq<char>)
    ensures
        spec_unescape(spec_escape(v)) == Some(v),
    decreases v.len(),
{
    if v.len() == 0 {
    } else {
        lemma_unescape_escape(v.drop_first());
        let escaped = spec_escape(v);
        let head = spec_escape_char(v[0]);
        let rest = spec_escape(v.drop_first());
        if v[0] == '\\' || v[0] == '"' || v[0] == '\n' {
            assert(escaped[0] == '\\');
            assert(escaped[1] == head[1]);
            assert(escaped.skip(2) =~= rest);
        } else {
            assert(escaped[0] == v[0]);
            assert(escaped.drop_first() =~= rest);
        }
        assert(seq![v[0]] + v.drop_first() =~= v);
    }
}

/// An escaped value holds no line break: a written line stays one line.
proof fn lemma_escape_no_newline(v: Seq<char>)
    ensures
        forall|i: int| 0 <= i < spec_escape(v).len() ==> spec_escape(v)[i] != '\n',
    decreases v.len(),
{
    if v.len() == 0 {
    } else {
        lemma_escape_no_newline(v.drop_first());
        let head = spec_escape_char(v[0]);
        let rest = spec_escape(v.drop_first());
        assert forall|i: int| 0 <= i < spec_escape(v).len() implies spec_escape(v)[i] != '\n' by {
            if i < head.len() {
                assert(spec_escape(v)[i] == head[i]);
            } else {
                assert(spec_escape(v)[i] == rest[i - head.len()]);
            }
        }
    }
}

/// The round trip of the defaults store: a stored file parses back to the
/// values it was written from, for every pair of values; double quotes,
/// backslashes and line breaks survive through their escaped form.
pub proof fn lemma_store_load_round_trip(mensa: Seq<char>, lang: Seq<char>)
    ensures
        spec_parse(spec_encode(mensa, lang)) == Some((Some(mensa), Some(lang))),
{
    reveal_strlit("mensa = \"");
    reveal_strlit("lang = \"");
    reveal_strlit("\"");
    reveal_strlit("\n");
    let key_m = "mensa = \""@;
    let key_l = "lang = \""@;
    let em = spec_escape(mensa);
    let el = spec_escape(lang);
    let lm = spec_line(key_m, em);
    let ll = spec_line(key_l, el);
    assert(key_m.len() == 9);
    assert(key_l.len() == 8);
    assert(lm.len() == 10 + em.len());
    assert(ll.len() == 9 + el.len());
    lemma_escape_no_newline(mensa);
    lemma_escape_no_newline(lang);
    lemma_unescape_escape(mensa);
    lemma_unescape_escape(lang);

    // The two lines hold no newline, so the encoded text splits into them.
    assert forall|i: int| 0 <= i < lm.len() implies lm[i] != '\n' by {
        if i < 9 {
            assert(lm[i] == key_m[i]);
        } else if i < 9 + em.len() {
            assert(lm[i] == em[i - 9]);
        } else {
            assert(lm[i] == '"');
        }
    }
    assert forall|i: int| 0 <= i < ll.len() implies ll[i] != '\n' by {
        if i < 8 {
            assert(ll[i] == key_l[i]);
        } else if i < 8 + el.len() {
            assert(ll[i] == el[i - 8]);
        } else {
            assert(ll[i] == '"');
        }
    }
    let rest1 = ll + "\n"@;
    assert(spec_encode(mensa, lang) =~= lm + "\n"@ + rest1);
    lemma_lines_of_terminated_line(lm, rest1);
    assert(rest1 =~= ll + "\n"@ + Seq::<char>::empty());
    lemma_lines_of_terminated_line(ll, Seq::<char>::empty());
    let all_lines = spec_lines(spec_encode(mensa, lang));
    assert(all_lines =~~= seq![lm, ll, Seq::<char>::empty()]);

    // The mensa line parses as the mensa key with the mensa value.
    assert(lm.subrange(0, 9) =~= key_m);
    assert(lm.last() == '"');
    assert(lm.subrange(9, lm.len() - 1) =~= em);
    assert(spec_parse_keyed(lm, key_m) == Some(mensa));
    assert(spec_parse_line(lm) == Some((true, mensa)));

    // The lang line does not parse as a mensa line (the keys differ), and
    // parses as the lang key with the lang value.
    assert(spec_parse_keyed(ll, key_m) is None) by {
        if ll.len() >= key_m.len() + 1 && ll.subrange(0, key_m.len() as int) == key_m {
            assert(ll.subrange(0, 9)[0] == ll[0]);
            assert(ll[0] == 'l');
            assert(key_m[0] == 'm');
        }
    }
    assert(ll.subrange(0, 8) =~= key_l);
    assert(ll.last() == '"');
    assert(ll.subrange(8, ll.len() - 1) =~= el);
    assert(spec_parse_keyed(ll, key_l) == Some(lang));
    assert(spec_parse_line(ll) == Some((false, lang)));

    // Walking the three lines accumulates both values; the final empty line
    // is skipped.
    let ln2 = seq![ll, Seq::<char>::empty()];
    let ln3 = seq![Seq::<char>::empty()];
    assert(all_lines.drop_first() =~~= ln2);
    assert(ln2.drop_first() =~~= ln3);
    assert(ln3.drop_first() =~~= Seq::<Seq<char>>::empty());
    assert(all_lines[0] == lm && lm.len() > 0);
    assert(spec_parse_acc(all_lines, None, None) == spec_parse_acc(ln2, Some(mensa), None));
    assert(ln2[0] == ll && ll.len() > 0);
    assert(spec_parse_acc(ln2, Some(mensa), None) == spec_parse_acc(ln3, Some(mensa), Some(lang)));
    assert(ln3[0].len() == 0);
    assert(spec_parse_acc(ln3, Some(mensa), Some(lang)) == spec_parse_acc(
        Seq::<Seq<char>>::empty(),
        Some(mensa),
        Some(lang),
    ));
    assert(spec_parse_acc(Seq::<Seq<char>>::empty(), Some(mensa), Some(lang)) == Some(
        (Some(mensa), Some(lang)),
    ));
}

/// `p` is a prefix of `s`.
fn has_prefix(s: &str, p: &str) -> (r: bool)
    ensures
        r == (s@.len() >= p@.len() && s@.subrange(0, p@.len() as int) == p@),
{
    let n = s.unicode_len();
    let m = p.unicode_len();
    if n < m {
        return false;
    }
    let mut i: usize = 0;
    while i < m
        invariant
            i <= m,
            m == p@.len(),
            n == s@.len(),
            n >= m,
            forall|j: int| 0 <= j < i ==> s@[j] == p@[j],
        decreases m - i,
    {
        if s.get_char(i) != p.get_char(i) {
            proof {
                assert(s@.subrange(0, m as int)[i as int] == s@[i as int]);
            }
            return false;
        }
        i += 1;
    }
    proof {
        assert(s@.subrange(0, m as int) =~= p@);
    }
    true
}

/// Parses one keyed line against a prefix, handing back the quoted value.
fn parse_keyed(line: &str, prefix: &str) -> (r: Option<String>)
    ensures
        match r {
            Some(v) => spec_parse_keyed(line@, prefix@) == Some(v@),
            None => spec_parse_keyed(line@, prefix@) is None,
        },
{
    let n = line.unicode_len();
    let m = prefix.unicode_len();
    if n <= m {
        return None;
    }
    if !has_prefix(line, prefix) {
        return None;
    }
    if line.get_char(n - 1) != '"' {
        return None;
    }
    let body = line.substring_char(m, n - 1);
    unescape_value(body)
}

/// Parses one non-empty line of the defaults file.
fn parse_line(line: &str) -> (r: Option<(bool, String)>)
    ensures
        match r {
            Some(kv) => spec_parse_line(line@) == Some((kv.0, kv.1@)),
            None => spec_parse_line(line@) is None,
        },
{
    match parse_keyed(line, "mensa = \"") {
        Some(v) => Some((true, v)),
        None => match parse_keyed(line, "lang = \"") {
            Some(v) => Some((false, v)),
            None => None,
        },
    }
}

/// Splits a text into its lines, as `spec_lines` describes.
fn split_lines(s: &str) -> (r: Vec<String>)
    ensures
        r@.map_values(|t: String| t@) == spec_lines(s@),
{
    let n = s.unicode_len();
    let mut done: Vec<String> = Vec::new();
    let mut start: usize = 0;
    let mut i: usize = 0;
    proof {
        lemma_lines_nonempty(s@.skip(0));
        assert(s@.skip(0) =~= s@);
        assert(s@.subrange(0, 0) =~= Seq::<char>::empty());
        assert(prepend_first(Seq::<char>::empty(), spec_lines(s@)) =~~= spec_lines(s@));
        assert(done@.map_values(|t: String| t@) =~~= Seq::<Seq<char>>::empty());
    }
    while i < n
        invariant
            start <= i <= n,
            n == s@.len(),
            spec_lines(s@) == done@.map_values(|t: String| t@) + prepend_first(
                s@.subrange(start as int, i as int),
                spec_lines(s@.skip(i as int)),
            ),
        decreases n - i,
    {
        proof {
            assert(s@.skip(i as int)[0] == s@[i as int]);
            assert(s@.skip(i as int).drop_first() =~= s@.skip(i + 1));
            lemma_lines_nonempty(s@.skip(i + 1));
        }
        let c = s.get_char(i);
        if c == '\n' {
            let line = s.substring_char(start, i);
            let ghost old_done = done@;
            done.push(String::from_str(line));
            proof {
                let cur = s@.subrange(start as int, i as int);
                let rest = spec_lines(s@.skip(i + 1));
                assert(spec_lines(s@.skip(i as int)) == seq![Seq::<char>::empty()] + rest);
                assert(prepend_first(cur, seq![Seq::<char>::empty()] + rest) =~~= seq![cur] + rest);
                old_done.lemma_push_map_commute(|t: String| t@, done@.last());
                assert(done@.map_values(|t: String| t@) =~~= old_done.map_values(|t: String| t@)
                    + seq![cur]);
                assert(s@.subrange(i + 1, i + 1) =~= Seq::<char>::empty());
                assert(prepend_first(Seq::<char>::empty(), rest) =~~= rest);
                assert(spec_lines(s@) =~~= done@.map_values(|t: String| t@) + prepend_first(
                    s@.subrange(i + 1, i + 1),
                    spec_lines(s@.skip(i + 1)),
                ));
            }
            start = i + 1;
        } else {
            proof {
                let cur = s@.subrange(start as int, i as int);
                let rest = spec_lines(s@.skip(i + 1));
                assert(spec_lines(s@.skip(i as int)) == prepend_first(seq![s@[i as int]], rest));
                assert(s@.subrange(start as int, i + 1) =~= cur + seq![s@[i as int]]);
                assert(prepend_first(cur, prepend_first(seq![s@[i as int]], rest)) =~~=
                    prepend_first(cur + seq![s@[i as int]], rest));
            }
        }
        i += 1;
    }
    let line = s.substring_char(start, n);
    let ghost old_done = done@;
    done.push(String::from_str(line));
    proof {
        let cur = s@.subrange(start as int, n as int);
        assert(s@.skip(n as int) =~= Seq::<char>::empty());
        assert(prepend_first(cur, seq![Seq::<char>::empty()]) =~~= seq![cur]);
        old_done.lemma_push_map_commute(|t: String| t@, done@.last());
        assert(done@.map_values(|t: String| t@) =~~= old_done.map_values(|t: String| t@)
            + seq![cur]);
        assert(done@.map_values(|t: String| t@) =~~= spec_lines(s@));
    }
    done
}

/// Parses the persisted defaults file. A field the file does not mention
/// falls back to its built-in default; a malformed line is the terminal
/// defaults failure.
pub fn parse_defaults(s: &str) -> (r: Result<Defaults, MensarError>)
    ensures
        match spec_parse(s@) {
            Some(kv) => r matches Ok(d) && d.mensa@ == match kv.0 {
                Some(m) => m,
                None => "polyterrasse"@,
            } && d.lang@ == match kv.1 {
                Some(l) => l,
                None => "en"@,
            },
            None => r matches Err(e) && e matches MensarError::DefaultsError(msg) && msg@
                == "unable to parse defaults"@,
        },
{
    let lines = split_lines(s);
    let ghost lviews = lines@.map_values(|t: String| t@);
    let mut found_mensa: Option<String> = None;
    let mut found_lang: Option<String> = None;
    let mut i: usize = 0;
    proof {
        assert(lviews.skip(0) =~~= lviews);
    }
    while i < lines.len()
        invariant
            i <= lines@.len(),
            lviews == lines@.map_values(|t: String| t@),
            lviews == spec_lines(s@),
            spec_parse(s@) == spec_parse_acc(
                lviews.skip(i as int),
                found_view(found_mensa),
                found_view(found_lang),
            ),
        decreases lines@.len() - i,
    {
        proof {
            assert(lviews.skip(i as int)[0] == lviews[i as int]);
            assert(lviews[i as int] == lines@[i as int]@);
            assert(lviews.skip(i as int).drop_first() =~~= lviews.skip(i + 1));
        }
        let line = &lines[i];
        if line.as_str().unicode_len() == 0 {
        } else {
            match parse_line(line.as_str()) {
                None => {
                    return Err(
                        MensarError::DefaultsError(String::from_str("unable to parse defaults")),
                    );
                },
                Some((is_mensa, v)) => {
                    if is_mensa {
                        found_mensa = Some(v);
                    } else {
                        found_lang = Some(v);
                    }
                },
            }
        }
        i += 1;
    }
    proof {
        assert(lviews.skip(lines@.len() as int) =~~= Seq::<Seq<char>>::empty());
    }
    let mensa = match found_mensa {
        Some(v) => v,
        None => Defaults::default_mensa(),
    };
    let lang = match found_lang {
        Some(v) => v,
        None => Defaults::default_lang(),
    };
    Ok(Defaults { mensa, lang })
}

} // verus!
