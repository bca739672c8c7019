//! Parsing of Nix profile configuration text: settings sections, package
//! lists, assignments and comments, by plain pattern matching.

use vstd::prelude::*;
use vstd::string::StringExecFns;

use crate::strutil::{
    chars_vec, contains_sub, find_index, has_sub, i64_to_string, parse_i64,
    spec_ends_with, spec_find, spec_find_char, spec_i64_dec, spec_lines, spec_parse_i64,
    spec_split_ws, spec_starts_with, spec_trim, spec_trim_char, spec_trim_end_char, split_ws,
    starts_with, string_from_chars, trim_char_both, trim_chars, trim_end_char, trim_str,
};

verus! {

/// Parsed profile configuration.
#[derive(Debug)]
pub struct ProfileConfig {
    pub name: String,
    pub path: String,
    pub system_settings: Vec<ConfigEntry>,
    pub user_settings: Vec<ConfigEntry>,
    pub system_packages: Vec<String>,
    pub home_packages: Vec<String>,
}

/// Configuration entry: a key-value pair with metadata.
#[derive(Debug)]
pub struct ConfigEntry {
    pub key: String,
    pub value: ConfigValue,
    pub entry_type: EntryType,
    pub description: Option<String>,
    pub line_number: Option<usize>,
}

/// Configuration value types.
#[derive(Debug)]
pub enum ConfigValue {
    Bool(bool),
    String(String),
    Number(i64),
    List(Vec<String>),
    Null,
}

/// Entry type classification.
#[derive(Debug, Clone, Copy, PartialEq, Eq, Structural)]
pub enum EntryType {
    Boolean,
    String,
    Number,
    List,
    Unknown,
}

impl ConfigValue {
    /// The display text of a value: booleans and numbers in decimal
    /// form, lists bracketed and comma-separated.
    pub open spec fn spec_display(self) -> Seq<char> {
        match self {
            ConfigValue::Bool(b) => if b {
                "true"@
            } else {
                "false"@
            },
            ConfigValue::String(s) => s@,
            ConfigValue::Number(n) => spec_i64_dec(n as int),
            ConfigValue::List(l) => seq!['['] + spec_join_comma(l@) + seq![']'],
            ConfigValue::Null => "null"@,
        }
    }

    pub fn as_bool(&self) -> (r: Option<bool>)
        ensures
            match *self {
                ConfigValue::Bool(b) => r == Some(b),
                _ => r is None,
            },
    {
        match self {
            ConfigValue::Bool(b) => Some(*b),
            _ => None,
        }
    }

    pub fn as_string(&self) -> (r: Option<&str>)
        ensures
            match self {
                ConfigValue::String(s) => r matches Some(t) && t@ == s@,
                _ => r is None,
            },
    {
        match self {
            ConfigValue::String(s) => Some(s.as_str()),
            _ => None,
        }
    }

    /// Renders the value as text; see [`Self::spec_display`].
    pub fn display(&self) -> (r: String)
        ensures
            r@ == self.spec_display(),
    {
        match self {
            ConfigValue::Bool(b) => {
                if *b {
                    String::from_str("true")
                } else {
                    String::from_str("false")
                }
            },
            ConfigValue::String(s) => s.clone(),
            ConfigValue::Number(n) => i64_to_string(*n),
            ConfigValue::List(l) => {
                let mut r = String::from_str("[");
                let mut i: usize = 0;
                proof {
                    reveal_strlit("[");
                    reveal_strlit("]");
                    assert(l@.take(0) =~= Seq::<String>::empty());
                    assert(r@ =~= seq!['['] + spec_join_comma(l@.take(0)));
                }
                while i < l.len()
                    invariant
                        0 <= i <= l@.len(),
                        r@ == seq!['['] + spec_join_comma(l@.take(i as int)),
                    decreases l@.len() - i,
                {
                    proof {
                        assert(l@.take(i as int + 1).drop_last() =~= l@.take(i as int));
                        assert(l@.take(i as int + 1).last() == l@[i as int]);
                    }
                    if i > 0 {
                        r.append(", ");
                    }
                    r.append(l[i].as_str());
                    proof {
                        assert(r@ =~= seq!['['] + spec_join_comma(l@.take(i as int + 1)));
                    }
                    i = i + 1;
                }
                proof {
                    assert(l@.take(l@.len() as int) =~= l@);
                }
                r.append("]");
                proof {
                    reveal_strlit("]");
                    assert(r@ =~= self.spec_display());
                }
                r
            },
            ConfigValue::Null => String::from_str("null"),
        }
    }
}

/// The elements joined by a comma and a space.
pub open spec fn spec_join_comma(l: Seq<String>) -> Seq<char>
    decreases l.len(),
{
    if l.len() == 0 {
        Seq::empty()
    } else if l.len() == 1 {
        l[0]@
    } else {
        spec_join_comma(l.drop_last()) + ", "@ + l.last()@
    }
}

/// What parsing `key = value;` makes of a line: the trimmed key before
/// the first equals sign and the trimmed value after it, unless the value
/// is a complex expression.
pub open spec fn spec_parse_assignment(line: Seq<char>) -> Option<(Seq<char>, Seq<char>)> {
    match spec_find_char(line, '=') {
        None => None,
        Some(k) => {
            let key = spec_trim(line.take(k));
            let value = spec_trim(spec_trim_end_char(spec_trim(line.skip(k + 1)), ';'));
            if has_sub(value, "import "@) || has_sub(value, "pkgs."@) || has_sub(value, "${"@)
                || spec_starts_with(value, "with "@) || spec_starts_with(value, "let "@) {
                None
            } else {
                Some((key, value))
            }
        },
    }
}

/// Parses a `key = value;` assignment, skipping complex expressions.
pub fn parse_assignment(line: &str) -> (r: Option<(String, String)>)
    ensures
        match r {
            Some(kv) => spec_parse_assignment(line@) matches Some(s) && kv.0@ == s.0 && kv.1@
                == s.1,
            None => spec_parse_assignment(line@) is None,
        },
{
    let v = chars_vec(line);
    let n = v.len();
    let k = match crate::strutil::find_char_index(v.as_slice(), '=') {
        Some(k) => k,
        None => {
            return None;
        },
    };
    let key_part = vstd::slice::slice_to_vec(vstd::slice::slice_subrange(v.as_slice(), 0, k));
    let val_part = vstd::slice::slice_to_vec(
        vstd::slice::slice_subrange(v.as_slice(), k + 1, n),
    );
    proof {
        assert(key_part@ =~= line@.take(k as int));
        assert(val_part@ =~= line@.skip(k as int + 1));
    }
    let key = trim_chars(key_part.as_slice());
    let value0 = trim_chars(val_part.as_slice());
    let value1 = trim_end_char(value0.as_slice(), ';');
    let value = trim_chars(value1.as_slice());
    let needle_import = chars_vec("import ");
    let needle_pkgs = chars_vec("pkgs.");
    let needle_interp = chars_vec("${");
    let needle_with = chars_vec("with ");
    let needle_let = chars_vec("let ");
    if contains_sub(value.as_slice(), needle_import.as_slice()) || contains_sub(
        value.as_slice(),
        needle_pkgs.as_slice(),
    ) || contains_sub(value.as_slice(), needle_interp.as_slice()) || starts_with(
        value.as_slice(),
        needle_with.as_slice(),
    ) || starts_with(value.as_slice(), needle_let.as_slice()) {
        return None;
    }
    Some((string_from_chars(key.as_slice()), string_from_chars(value.as_slice())))
}

/// The type a raw value text denotes.
pub open spec fn spec_infer_type(v: Seq<char>) -> EntryType {
    if v == "true"@ || v == "false"@ {
        EntryType::Boolean
    } else if v.len() > 0 && v[0] == '"' && spec_ends_with(v, "\""@) {
        EntryType::String
    } else if spec_parse_i64(v) is Some {
        EntryType::Number
    } else if v.len() > 0 && v[0] == '[' {
        EntryType::List
    } else {
        EntryType::Unknown
    }
}

/// Infers the type of a raw value text.
pub fn infer_type(value: &str) -> (r: EntryType)
    ensures
        r == spec_infer_type(value@),
{
    let v = chars_vec(value);
    if crate::strutil::str_eq(value, "true") || crate::strutil::str_eq(value, "false") {
        return EntryType::Boolean;
    }
    let quote = chars_vec("\"");
    if v.len() > 0 && v[0] == '"' && crate::strutil::ends_with(v.as_slice(), quote.as_slice()) {
        return EntryType::String;
    }
    if parse_i64(v.as_slice()).is_some() {
        return EntryType::Number;
    }
    if v.len() > 0 && v[0] == '[' {
        return EntryType::List;
    }
    EntryType::Unknown
}

/// The items of a raw list value: each token unquoted, empties dropped.
pub open spec fn spec_list_items(toks: Seq<Seq<char>>) -> Seq<Seq<char>>
    decreases toks.len(),
{
    if toks.len() == 0 {
        Seq::empty()
    } else {
        let rest = spec_list_items(toks.drop_last());
        let t = spec_trim_char(toks.last(), '"');
        if t.len() > 0 {
            rest.push(t)
        } else {
            rest
        }
    }
}

/// The raw value of a list, between its brackets.
pub open spec fn spec_list_inner(v: Seq<char>) -> Seq<Seq<char>> {
    spec_list_items(spec_split_ws(spec_trim_end_char(crate::strutil::spec_trim_start_char(v, '['), ']')))
}

/// The parsed value matches the raw text under the inferred type.
pub open spec fn value_matches(r: ConfigValue, raw: Seq<char>, t: EntryType) -> bool {
    match t {
        EntryType::Boolean => r == ConfigValue::Bool(raw == "true"@),
        EntryType::String => r matches ConfigValue::String(s) && s@ == spec_trim_char(raw, '"'),
        EntryType::Number => r matches ConfigValue::Number(n) && Some(n) == (
        if spec_parse_i64(raw) is Some {
            spec_parse_i64(raw)
        } else {
            Some(0i64)
        }),
        EntryType::List => r matches ConfigValue::List(l) && l@.len() == spec_list_inner(
            raw,
        ).len() && (forall|i: int|
            0 <= i < l@.len() ==> (#[trigger] l@[i])@ == spec_list_inner(raw)[i]),
        EntryType::Unknown => r matches ConfigValue::String(s) && s@ == raw,
    }
}

/// Parses a raw value text under an already inferred type.
pub fn parse_value(value: &str, entry_type: &EntryType) -> (r: ConfigValue)
    ensures
        value_matches(r, value@, *entry_type),
{
    match entry_type {
        EntryType::Boolean => ConfigValue::Bool(crate::strutil::str_eq(value, "true")),
        EntryType::String => {
            let v = chars_vec(value);
            let t = trim_char_both(v.as_slice(), '"');
            ConfigValue::String(string_from_chars(t.as_slice()))
        },
        EntryType::Number => {
            let v = chars_vec(value);
            match parse_i64(v.as_slice()) {
                Some(n) => ConfigValue::Number(n),
                None => ConfigValue::Number(0),
            }
        },
        EntryType::List => {
            let v = chars_vec(value);
            let no_open = crate::strutil::trim_start_char(v.as_slice(), '[');
            let inner = trim_end_char(no_open.as_slice(), ']');
            let toks = split_ws(inner.as_slice());
            let ghost toks_view = spec_split_ws(inner@);
            let mut items: Vec<String> = Vec::new();
            let mut i: usize = 0;
            proof {
                assert(toks_view.take(0) =~= Seq::<Seq<char>>::empty());
            }
            while i < toks.len()
                invariant
                    0 <= i <= toks@.len(),
                    toks_view == crate::strutil::views_of(toks@),
                    items@.len() == spec_list_items(toks_view.take(i as int)).len(),
                    forall|j: int|
                        0 <= j < items@.len() ==> (#[trigger] items@[j])@ == spec_list_items(
                            toks_view.take(i as int),
                        )[j],
                decreases toks@.len() - i,
            {
                proof {
                    assert(toks_view.take(i as int + 1).drop_last() =~= toks_view.take(i as int));
                    assert(toks_view.take(i as int + 1).last() == toks_view[i as int]);
                }
                let t = trim_char_both(toks[i].as_slice(), '"');
                if t.len() > 0 {
                    items.push(string_from_chars(t.as_slice()));
                }
                i = i + 1;
            }
            proof {
                assert(toks_view.take(toks_view.len() as int) =~= toks_view);
            }
            ConfigValue::List(items)
        },
        EntryType::Unknown => ConfigValue::String(value.to_owned()),
    }
}

/// One assignment found in a settings section: its key, its raw value
/// text, and the line it stood on.
pub ghost struct RawEntry {
    pub key: Seq<char>,
    pub raw: Seq<char>,
    pub line: int,
}

/// A line the settings scan passes over: comments and blank lines.
pub open spec fn spec_skip_line(t: Seq<char>) -> bool {
    spec_starts_with(t, "#"@) || t.len() == 0 || spec_starts_with(t, "/*"@)
}

/// A line that closes the settings section.
pub open spec fn spec_stop_line(t: Seq<char>) -> bool {
    t == "};"@ || t == "}"@
}

/// The assignments of the section's lines from `i` on: comment and blank
/// lines are passed over, a closing brace ends the scan after its own
/// line was considered.
pub open spec fn spec_settings_from(ls: Seq<Seq<char>>, i: int) -> Seq<RawEntry>
    decreases ls.len() - i,
{
    if i < 0 || i >= ls.len() {
        Seq::empty()
    } else {
        let t = spec_trim(ls[i]);
        if spec_skip_line(t) {
            spec_settings_from(ls, i + 1)
        } else {
            let here = match spec_parse_assignment(t) {
                Some(kv) => seq![RawEntry { key: kv.0, raw: kv.1, line: i }],
                None => Seq::empty(),
            };
            if spec_stop_line(t) {
                here
            } else {
                here + spec_settings_from(ls, i + 1)
            }
        }
    }
}

/// An optional description text equals an optional sequence.
pub open spec fn opt_text_matches(o: Option<String>, s: Option<Seq<char>>) -> bool {
    match (o, s) {
        (Some(a), Some(b)) => a@ == b,
        (None, None) => true,
        _ => false,
    }
}

/// A built entry agrees with a raw assignment of the section: key, type,
/// parsed value, comment and line number.
pub open spec fn entry_matches(e: ConfigEntry, v: RawEntry, ls: Seq<Seq<char>>) -> bool {
    &&& e.key@ == v.key
    &&& e.entry_type == spec_infer_type(v.raw)
    &&& value_matches(e.value, v.raw, spec_infer_type(v.raw))
    &&& opt_text_matches(e.description, spec_extract_comment(ls, v.line))
    &&& v.line >= 0 && e.line_number == Some(v.line as usize)
}

/// The built entry list is exactly what scanning the named section of
/// the content yields.
pub open spec fn spec_settings_ok(v: Seq<ConfigEntry>, content: Seq<char>, section: Seq<char>)
    -> bool {
    match spec_find(content, section + " = {"@) {
        None => v.len() == 0,
        Some(start) => {
            let ls = spec_lines(content.skip(start));
            let es = spec_settings_from(ls, 0);
            v.len() == es.len() && (forall|i: int|
                0 <= i < v.len() ==> entry_matches(#[trigger] v[i], es[i], ls))
        },
    }
}

/// Extracts the `key = value;` entries of a named settings section: the
/// scan starts at the section marker and ends at the section's closing
/// brace. An absent section has no entries.
pub fn extract_settings(content: &str, section: &str) -> (r: Vec<ConfigEntry>)
    ensures
        spec_settings_ok(r@, content@, section@),
{
    let cv = chars_vec(content);
    let n = cv.len();
    let marker_str = String::from_str(section).concat(" = {");
    let marker = chars_vec(marker_str.as_str());
    let start = match find_index(cv.as_slice(), marker.as_slice()) {
        Some(s) => s,
        None => {
            return Vec::new();
        },
    };
    let sect = vstd::slice::slice_to_vec(vstd::slice::slice_subrange(cv.as_slice(), start, n));
    proof {
        assert(sect@ =~= content@.skip(start as int));
    }
    let sect_str = string_from_chars(sect.as_slice());
    let lines = crate::strutil::lines_vec(sect_str.as_str());
    let ghost ls = spec_lines(content@.skip(start as int));
    let ghost es = spec_settings_from(ls, 0);
    let mut r: Vec<ConfigEntry> = Vec::new();
    let mut i: usize = 0;
    proof {
        assert(es.take(0) =~= Seq::<RawEntry>::empty());
        assert(es =~= es.take(0) + spec_settings_from(ls, 0));
    }
    loop
        invariant
            0 <= i <= lines@.len(),
            lines@.len() == ls.len(),
            forall|j: int| 0 <= j < ls.len() ==> (#[trigger] lines@[j])@ == ls[j],
            spec_find(content@, section@ + " = {"@) == Some(start as int),
            sect_str@ == content@.skip(start as int),
            ls == spec_lines(content@.skip(start as int)),
            es == spec_settings_from(ls, 0),
            r@.len() + spec_settings_from(ls, i as int).len() == es.len(),
            es == es.take(r@.len() as int) + spec_settings_from(ls, i as int),
            forall|j: int| 0 <= j < r@.len() ==> entry_matches(#[trigger] r@[j], es[j], ls),
        decreases ls.len() - i,
    {
        if i >= lines.len() {
            proof {
                assert(spec_settings_from(ls, i as int) =~= Seq::<RawEntry>::empty());
                assert(es =~= es.take(r@.len() as int));
            }
            return r;
        }
        let trimmed = trim_str(lines[i].as_str());
        let tv = chars_vec(trimmed.as_str());
        let hash = chars_vec("#");
        let block = chars_vec("/*");
        let skip_this = starts_with(tv.as_slice(), hash.as_slice()) || tv.len() == 0
            || starts_with(tv.as_slice(), block.as_slice());
        if !skip_this {
            let ghost len_before = r@.len() as int;
            match parse_assignment(trimmed.as_str()) {
                Some((key, value)) => {
                    let entry_type = infer_type(value.as_str());
                    let config_value = parse_value(value.as_str(), &entry_type);
                    let description = extract_comment(sect_str.as_str(), i);
                    r.push(
                        ConfigEntry {
                            key,
                            value: config_value,
                            entry_type,
                            description,
                            line_number: Some(i),
                        },
                    );
                    proof {
                        let t = spec_trim(ls[i as int]);
                        assert(trimmed@ == t);
                        let rest = spec_settings_from(ls, i as int);
                        match spec_parse_assignment(t) {
                            Some(kv) => {
                                let single = seq![
                                    RawEntry { key: kv.0, raw: kv.1, line: i as int },
                                ];
                                if spec_stop_line(t) {
                                    assert(rest == single);
                                } else {
                                    assert(rest == single + spec_settings_from(
                                        ls,
                                        i as int + 1,
                                    ));
                                    assert((single + spec_settings_from(ls, i as int + 1))[0]
                                        == single[0]);
                                }
                                assert(rest[0] == single[0]);
                                assert(len_before <= es.len());
                                assert(es.take(len_before).len() == len_before);
                                assert((es.take(len_before) + rest)[len_before] == rest[0]);
                                assert(es[len_before] == single[0]);
                                assert(entry_matches(r@[len_before], es[len_before], ls));
                                assert(es.take(len_before + 1) =~= es.take(len_before).push(
                                    es[len_before],
                                ));
                            },
                            None => {
                                assert(false);
                            },
                        }
                    }
                },
                None => {},
            }
            let stop = crate::strutil::str_eq(trimmed.as_str(), "};")
                || crate::strutil::str_eq(trimmed.as_str(), "}");
            if stop {
                proof {
                    assert(es =~= es.take(r@.len() as int));
                }
                return r;
            }
            proof {
                assert(es =~= es.take(r@.len() as int) + spec_settings_from(ls, i as int + 1));
            }
        }
        i = i + 1;
    }
}

/// The package names of the list's lines from `i` on: blank and comment
/// lines are passed over; each other line, stripped of trailing commas
/// and semicolons, names one package unless it opens a block comment.
pub open spec fn spec_pkg_lines(ls: Seq<Seq<char>>, i: int) -> Seq<Seq<char>>
    decreases ls.len() - i,
{
    if i < 0 || i >= ls.len() {
        Seq::empty()
    } else {
        let t = spec_trim(ls[i]);
        if t.len() == 0 || spec_starts_with(t, "#"@) {
            spec_pkg_lines(ls, i + 1)
        } else {
            let clean = spec_trim(
                spec_trim_end_char(spec_trim_end_char(t, ','), ';'),
            );
            if clean.len() > 0 && !spec_starts_with(clean, "/*"@) {
                seq![clean] + spec_pkg_lines(ls, i + 1)
            } else {
                spec_pkg_lines(ls, i + 1)
            }
        }
    }
}

/// The packages of a section: the text between the section's opening
/// bracket — under either list pattern — and the next closing bracket.
pub open spec fn spec_extract_packages(content: Seq<char>, section: Seq<char>) -> Seq<Seq<char>> {
    let p1 = section + " = pkgs: pkgs-unstable: ["@;
    let p2 = section + " = ["@;
    match spec_packages_after(content, p1) {
        Some(pkgs) => pkgs,
        None => match spec_packages_after(content, p2) {
            Some(pkgs) => pkgs,
            None => Seq::empty(),
        },
    }
}

/// The packages inside the bracketed list that follows the first
/// occurrence of `pattern`, when both the pattern and a closing bracket
/// exist.
pub open spec fn spec_packages_after(content: Seq<char>, pattern: Seq<char>) -> Option<
    Seq<Seq<char>>,
> {
    match spec_find(content, pattern) {
        Some(start) => {
            let after = content.skip(start + pattern.len());
            match spec_find_char(after, ']') {
                Some(end) => Some(spec_pkg_lines(spec_lines(after.take(end)), 0)),
                None => None,
            }
        },
        None => None,
    }
}

fn packages_after(content: &Vec<char>, pattern: &str) -> (r: Option<Vec<String>>)
    ensures
        ({
            match spec_packages_after(content@, pattern@) {
                Some(pkgs) => r matches Some(v) && v@.len() == pkgs.len() && (forall|i: int|
                    0 <= i < v@.len() ==> (#[trigger] v@[i])@ == pkgs[i]),
                None => r is None,
            }
        }),
{
    let pat = chars_vec(pattern);
    let n = content.len();
    let start = match find_index(content.as_slice(), pat.as_slice()) {
        Some(s) => s,
        None => {
            return None;
        },
    };
    let after = vstd::slice::slice_to_vec(
        vstd::slice::slice_subrange(content.as_slice(), start + pat.len(), n),
    );
    proof {
        assert(after@ =~= content@.skip(start as int + pattern@.len()));
    }
    let end = match crate::strutil::find_char_index(after.as_slice(), ']') {
        Some(e) => e,
        None => {
            return None;
        },
    };
    let inner = vstd::slice::slice_to_vec(vstd::slice::slice_subrange(after.as_slice(), 0, end));
    proof {
        assert(inner@ =~= after@.take(end as int));
    }
    let inner_str = string_from_chars(inner.as_slice());
    let lines = crate::strutil::lines_vec(inner_str.as_str());
    let ghost ls = spec_lines(inner@);
    let ghost pkgs = spec_pkg_lines(ls, 0);
    let mut out: Vec<String> = Vec::new();
    let mut i: usize = 0;
    proof {
        assert(pkgs.take(0) =~= Seq::<Seq<char>>::empty());
        assert(pkgs =~= pkgs.take(0) + spec_pkg_lines(ls, 0));
    }
    while i < lines.len()
        invariant
            0 <= i <= lines@.len(),
            lines@.len() == ls.len(),
            forall|j: int| 0 <= j < ls.len() ==> (#[trigger] lines@[j])@ == ls[j],
            pkgs == spec_pkg_lines(ls, 0),
            out@.len() + spec_pkg_lines(ls, i as int).len() == pkgs.len(),
            pkgs == pkgs.take(out@.len() as int) + spec_pkg_lines(ls, i as int),
            forall|j: int| 0 <= j < out@.len() ==> (#[trigger] out@[j])@ == pkgs[j],
        decreases lines@.len() - i,
    {
        let trimmed = trim_str(lines[i].as_str());
        let tv = chars_vec(trimmed.as_str());
        let hash = chars_vec("#");
        if tv.len() == 0 || starts_with(tv.as_slice(), hash.as_slice()) {
            i = i + 1;
            continue ;
        }
        let no_comma = trim_end_char(tv.as_slice(), ',');
        let no_semi = trim_end_char(no_comma.as_slice(), ';');
        let clean = crate::strutil::trim_chars(no_semi.as_slice());
        let block = chars_vec("/*");
        if clean.len() > 0 && !starts_with(clean.as_slice(), block.as_slice()) {
            let ghost len_before = out@.len() as int;
            out.push(string_from_chars(clean.as_slice()));
            proof {
                let t = spec_trim(ls[i as int]);
                assert(trimmed@ == t);
                let cleaned = spec_trim(spec_trim_end_char(spec_trim_end_char(t, ','), ';'));
                assert(clean@ == cleaned);
                let rest = spec_pkg_lines(ls, i as int);
                let single = seq![cleaned];
                assert(rest == single + spec_pkg_lines(ls, i as int + 1));
                assert((single + spec_pkg_lines(ls, i as int + 1))[0] == single[0]);
                assert(rest[0] == cleaned);
                assert(len_before <= pkgs.len());
                assert(pkgs.take(len_before).len() == len_before);
                assert((pkgs.take(len_before) + rest)[len_before] == rest[0]);
                assert(pkgs[len_before] == cleaned);
                assert(pkgs.take(len_before + 1) =~= pkgs.take(len_before).push(
                    pkgs[len_before],
                ));
                assert(pkgs =~= pkgs.take(out@.len() as int) + spec_pkg_lines(
                    ls,
                    i as int + 1,
                ));
            }
        } else {
            proof {
                assert(pkgs =~= pkgs.take(out@.len() as int) + spec_pkg_lines(
                    ls,
                    i as int + 1,
                ));
            }
        }
        i = i + 1;
    }
    proof {
        assert(spec_pkg_lines(ls, i as int) =~= Seq::<Seq<char>>::empty());
        assert(pkgs =~= pkgs.take(out@.len() as int));
    }
    Some(out)
}

/// The built name list is exactly the section's package list.
pub open spec fn spec_packages_ok(v: Seq<String>, content: Seq<char>, section: Seq<char>)
    -> bool {
    let pkgs = spec_extract_packages(content, section);
    v.len() == pkgs.len() && (forall|i: int| 0 <= i < v.len() ==> (#[trigger] v[i])@ == pkgs[i])
}

/// Extracts the package names of a named package list; see
/// [`spec_extract_packages`].
pub fn extract_packages(content: &str, section: &str) -> (r: Vec<String>)
    ensures
        spec_packages_ok(r@, content@, section@),
{
    let cv = chars_vec(content);
    let p1 = String::from_str(section).concat(" = pkgs: pkgs-unstable: [");
    let p2 = String::from_str(section).concat(" = [");
    if let Some(pkgs) = packages_after(&cv, p1.as_str()) {
        return pkgs;
    }
    if let Some(pkgs) = packages_after(&cv, p2.as_str()) {
        return pkgs;
    }
    Vec::new()
}

/// The quoted text standing after `key = "` in the content, up to the
/// next quote, if both are present.
pub open spec fn spec_extract_value(content: Seq<char>, key: Seq<char>) -> Option<Seq<char>> {
    let pattern = key + " = \""@;
    match spec_find(content, pattern) {
        Some(start) => {
            let after = content.skip(start + pattern.len());
            match spec_find_char(after, '"') {
                Some(end) => Some(after.take(end)),
                None => None,
            }
        },
        None => None,
    }
}

/// Extracts a quoted string value from configuration text.
pub fn extract_value(content: &str, key: &str) -> (r: Option<String>)
    ensures
        match r {
            Some(v) => spec_extract_value(content@, key@) matches Some(s) && v@ == s,
            None => spec_extract_value(content@, key@) is None,
        },
{
    let cv = chars_vec(content);
    let n = cv.len();
    let pattern_str = String::from_str(key).concat(" = \"");
    let pattern = chars_vec(pattern_str.as_str());
    let start = match find_index(cv.as_slice(), pattern.as_slice()) {
        Some(s) => s,
        None => {
            return None;
        },
    };
    let after = vstd::slice::slice_to_vec(
        vstd::slice::slice_subrange(cv.as_slice(), start + pattern.len(), n),
    );
    proof {
        assert(after@ =~= content@.skip(start as int + pattern@.len()));
    }
    match crate::strutil::find_char_index(after.as_slice(), '"') {
        Some(end) => {
            let piece = vstd::slice::slice_to_vec(
                vstd::slice::slice_subrange(after.as_slice(), 0, end),
            );
            proof {
                assert(piece@ =~= after@.take(end as int));
            }
            Some(string_from_chars(piece.as_slice()))
        },
        None => None,
    }
}

/// The comment belonging to a line: an inline comment after `#`, else a
/// whole-line comment directly above.
pub open spec fn spec_prev_comment(ls: Seq<Seq<char>>, target: int) -> Option<Seq<char>> {
    if target > 0 {
        let prev = spec_trim(ls[target - 1]);
        if spec_starts_with(prev, "#"@) {
            Some(spec_trim(prev.skip(1)))
        } else {
            None
        }
    } else {
        None
    }
}

/// See [`spec_prev_comment`]: the inline comment wins when it is
/// nonempty.
pub open spec fn spec_extract_comment(ls: Seq<Seq<char>>, target: int) -> Option<Seq<char>> {
    if target < 0 || target >= ls.len() {
        None
    } else {
        match spec_find_char(ls[target], '#') {
            Some(p) => {
                let c = spec_trim(ls[target].skip(p + 1));
                if c.len() > 0 {
                    Some(c)
                } else {
                    spec_prev_comment(ls, target)
                }
            },
            None => spec_prev_comment(ls, target),
        }
    }
}

/// Extracts the comment belonging to a line of the text, inline or from
/// the line above.
pub fn extract_comment(content: &str, target_line: usize) -> (r: Option<String>)
    ensures
        match r {
            Some(c) => spec_extract_comment(spec_lines(content@), target_line as int) matches Some(
                s,
            ) && c@ == s,
            None => spec_extract_comment(spec_lines(content@), target_line as int) is None,
        },
{
    let lines = crate::strutil::lines_vec(content);
    proof {
        assert(lines@.map_values(|s: String| s@) =~= spec_lines(content@));
    }
    if target_line >= lines.len() {
        return None;
    }
    let lv = chars_vec(lines[target_line].as_str());
    let ln = lv.len();
    if let Some(p) = crate::strutil::find_char_index(lv.as_slice(), '#') {
        let after = vstd::slice::slice_to_vec(
            vstd::slice::slice_subrange(lv.as_slice(), p + 1, ln),
        );
        proof {
            assert(after@ =~= lv@.skip(p as int + 1));
        }
        let c = trim_chars(after.as_slice());
        if c.len() > 0 {
            return Some(string_from_chars(c.as_slice()));
        }
    }
    prev_comment(&lines, target_line)
}

fn prev_comment(lines: &Vec<String>, target_line: usize) -> (r: Option<String>)
    requires
        target_line < lines@.len(),
    ensures
        ({
            let ls = lines@.map_values(|s: String| s@);
            match r {
                Some(c) => spec_prev_comment(ls, target_line as int) matches Some(s) && c@ == s,
                None => spec_prev_comment(ls, target_line as int) is None,
            }
        }),
{
    let ghost ls = lines@.map_values(|s: String| s@);
    if target_line == 0 {
        return None;
    }
    let pv = chars_vec(lines[target_line - 1].as_str());
    let prev = trim_chars(pv.as_slice());
    let hash = chars_vec("#");
    if starts_with(prev.as_slice(), hash.as_slice()) {
        proof {
            reveal_strlit("#");
        }
        let after = vstd::slice::slice_to_vec(
            vstd::slice::slice_subrange(prev.as_slice(), 1, prev.len()),
        );
        proof {
            assert(after@ =~= spec_trim(ls[target_line - 1]).skip(1));
        }
        let c = trim_chars(after.as_slice());
        Some(string_from_chars(c.as_slice()))
    } else {
        None
    }
}

/// Assembles a profile's parsed configuration out of its file text: the
/// two settings sections and the two package lists.
pub fn parse_profile_text(profile_name: &str, profile_path: &str, content: &str) -> (r:
    ProfileConfig)
    ensures
        r.name@ == profile_name@,
        r.path@ == profile_path@,
        spec_settings_ok(r.system_settings@, content@, "systemSettings"@),
        spec_settings_ok(r.user_settings@, content@, "userSettings"@),
        spec_packages_ok(r.system_packages@, content@, "systemPackages"@),
        spec_packages_ok(r.home_packages@, content@, "homePackages"@),
{
    ProfileConfig {
        name: profile_name.to_owned(),
        path: profile_path.to_owned(),
        system_settings: extract_settings(content, "systemSettings"),
        user_settings: extract_settings(content, "userSettings"),
        system_packages: extract_packages(content, "systemPackages"),
        home_packages: extract_packages(content, "homePackages"),
    }
}

} // verus!
