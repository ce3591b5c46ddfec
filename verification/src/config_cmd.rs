//! The configuration file, and what the `config` command shows of a setting.
use crate::text::{
    extend_from, extend_str, find_from, first_match_from, int_spans, is_ascii_digit, is_digit,
    lemma_first_match, line_spans_of, lines, matches_at, spans_view, spans_within, str_eq, string_of,
    string_of_all, to_chars, trim, trim_span,
};
use vstd::prelude::*;
use vstd::string::StringSliceAdditionalSpecFns;
use vstd::utf8::{decode_utf8, is_char_boundary};

verus! {

broadcast use vstd::utf8::encode_utf8_decode_utf8;

/// A secret as shown: `***` for up to 7 bytes, else its first 3 and last 4
/// bytes around `...`.
pub open spec fn spec_mask_key(key: &str) -> Seq<char> {
    let b = key.spec_bytes();
    if b.len() <= 7 {
        "***"@
    } else {
        decode_utf8(b.take(3)) + "..."@ + decode_utf8(b.skip(b.len() - 4))
    }
}

/// The byte positions that masking cuts at are character boundaries (slicing
/// panics otherwise).
pub open spec fn maskable(key: &str) -> bool {
    let b = key.spec_bytes();
    b.len() > 7 ==> is_char_boundary(b, 3) && is_char_boundary(b, b.len() - 4)
}

/// A secret as shown by the `config` command.
pub fn mask_key(key: &str) -> (r: String)
    requires
        maskable(key),
    ensures
        r@ == spec_mask_key(key),
{
    let n = key.as_bytes().len();
    assert(n == key.spec_bytes().len());
    if n <= 7 {
        return String::from_str("***");
    }
    let (head, _) = key.split_at(3);
    let (_, tail) = key.split_at(n - 4);
    assert(head@ == decode_utf8(head.spec_bytes()));
    assert(tail@ == decode_utf8(tail.spec_bytes()));
    assert(tail.spec_bytes() =~= key.spec_bytes().skip(key.spec_bytes().len() - 4));
    assert(head.spec_bytes() =~= key.spec_bytes().take(3));
    let s = String::from_str(head);
    let s = s.concat("...");
    s.concat(tail)
}

/// Where a setting comes from: the environment first, then the config file.
pub open spec fn spec_resolve_with_source(
    env_value: Option<Seq<char>>,
    file_value: Option<Seq<char>>,
) -> (Option<Seq<char>>, Option<Seq<char>>) {
    match env_value {
        Some(v) => (Some(v), Some("env"@)),
        None => match file_value {
            Some(v) => (Some(v), Some("config file"@)),
            None => (None, None),
        },
    }
}

/// The view of an optional string.
pub open spec fn opt_seq(o: Option<String>) -> Option<Seq<char>> {
    match o {
        Some(s) => Some(s@),
        None => None,
    }
}

/// The view of an optional string slice.
pub open spec fn opt_str(o: Option<&'static str>) -> Option<Seq<char>> {
    match o {
        Some(s) => Some(s@),
        None => None,
    }
}

/// The value of a setting and its source; `env_value` is the value of its
/// environment variable, if set.
pub fn resolve_with_source(env_value: Option<String>, file_value: &Option<String>) -> (r: (
    Option<String>,
    Option<&'static str>,
))
    ensures
        (opt_seq(r.0), opt_str(r.1)) == spec_resolve_with_source(opt_seq(env_value), opt_seq(*file_value)),
{
    if let Some(val) = env_value {
        return (Some(val), Some("env"));
    }
    if let Some(val) = file_value {
        return (Some(val.clone()), Some("config file"));
    }
    (None, None)
}

/// How a setting's value is shown: masked if secret, `not set` if absent.
pub open spec fn spec_display_value(value: Option<&str>, is_secret: bool) -> Seq<char> {
    match value {
        Some(v) => if is_secret {
            spec_mask_key(v)
        } else {
            v@
        },
        None => "not set"@,
    }
}

/// How a setting's value is shown.
pub fn display_value(value: Option<&str>, is_secret: bool) -> (r: String)
    requires
        is_secret ==> (value matches Some(v) ==> maskable(v)),
    ensures
        r@ == spec_display_value(value, is_secret),
{
    match value {
        Some(v) => if is_secret {
            mask_key(v)
        } else {
            String::from_str(v)
        },
        None => String::from_str("not set"),
    }
}

// ---------------------------------------------------------------------------
// The configuration file
// ---------------------------------------------------------------------------

/// A value without the double quotes around it, if it has them.
pub open spec fn unquote(v: Seq<char>) -> Seq<char> {
    if v.len() >= 2 && v[0] == '"' && v.last() == '"' {
        v.subrange(1, v.len() - 1)
    } else {
        v
    }
}

/// A setting line `key = value`: the trimmed text before the first `=`, and
/// the trimmed text after it without surrounding double quotes. Blank lines,
/// `#` comments and lines without `=` set nothing.
pub open spec fn setting_line(line: Seq<char>) -> Option<(Seq<char>, Seq<char>)> {
    let t = trim(line);
    let e = first_match_from(t, seq!['='], 0);
    if t.len() == 0 || t[0] == '#' || e < 0 {
        None
    } else {
        Some((trim(t.take(e)), unquote(trim(t.skip(e + 1)))))
    }
}

/// The value that the last line setting `key` gives it, if any.
pub open spec fn last_value(ls: Seq<Seq<char>>, key: Seq<char>) -> Option<Seq<char>>
    decreases ls.len(),
{
    if ls.len() == 0 {
        None
    } else {
        match setting_line(ls.last()) {
            Some((k, v)) => if k == key {
                Some(v)
            } else {
                last_value(ls.drop_last(), key)
            },
            None => last_value(ls.drop_last(), key),
        }
    }
}

/// The value a configuration file gives `key`: that of its last line setting it.
pub open spec fn file_value(text: Seq<char>, key: Seq<char>) -> Option<Seq<char>> {
    last_value(lines(text), key)
}

/// The setting on one line, if it holds one.
fn setting_of(l: &Vec<char>) -> (r: Option<(String, String)>)
    ensures
        match setting_line(l@) {
            Some((k, v)) => r matches Some((a, b)) && a@ == k && b@ == v,
            None => r is None,
        },
{
    let (a, b) = trim_span(l, 0, l.len());
    assert(l@.subrange(0, l@.len() as int) =~= l@);
    let mut t: Vec<char> = Vec::new();
    extend_from(&mut t, l, a, b);
    assert(t@ =~= trim(l@));
    if t.len() == 0 || t[0] == '#' {
        return None;
    }
    let mut eq: Vec<char> = Vec::new();
    eq.push('=');
    assert(eq@ =~= seq!['=']);
    proof {
        lemma_first_match(t@, eq@, 0);
    }
    let e = match find_from(&t, &eq, 0) {
        Some(e) => e,
        None => return None,
    };
    assert(e + 1 <= t@.len());
    let (ka, kb) = trim_span(&t, 0, e);
    assert(t@.take(e as int) =~= t@.subrange(0, e as int));
    let (va, vb) = trim_span(&t, e + 1, t.len());
    assert(t@.skip(e + 1) =~= t@.subrange(e + 1, t@.len() as int));
    let ghost v = t@.subrange(va as int, vb as int);
    let (ua, ub) = if vb - va >= 2 && t[va] == '"' && t[vb - 1] == '"' {
        assert(v.subrange(1, v.len() - 1) =~= t@.subrange(va + 1, vb - 1));
        (va + 1, vb - 1)
    } else {
        (va, vb)
    };
    Some((string_of(&t, ka, kb), string_of(&t, ua, ub)))
}

proof fn lemma_keys_differ()
    ensures
        "api_key"@ != "model"@,
        "api_key"@ != "level"@,
        "api_key"@ != "parallel"@,
        "api_key"@ != "jobs"@,
        "api_base"@ != "api_key"@,
        "api_base"@ != "model"@,
        "api_base"@ != "level"@,
        "api_base"@ != "parallel"@,
        "api_base"@ != "jobs"@,
        "model"@ != "parallel"@,
        "level"@ != "model"@,
        "level"@ != "parallel"@,
        "jobs"@ != "model"@,
        "jobs"@ != "level"@,
        "jobs"@ != "parallel"@,
{
    reveal_strlit("api_key");
    reveal_strlit("api_base");
    reveal_strlit("model");
    reveal_strlit("level");
    reveal_strlit("parallel");
    reveal_strlit("jobs");
    assert("api_key"@.len() != "model"@.len());
    assert("api_key"@.len() != "level"@.len());
    assert("api_key"@.len() != "parallel"@.len());
    assert("api_key"@.len() != "jobs"@.len());
    assert("api_base"@.len() != "api_key"@.len());
    assert("api_base"@.len() != "model"@.len());
    assert("api_base"@.len() != "level"@.len());
    assert("api_base"@[0] != "parallel"@[0]);
    assert("api_base"@.len() != "jobs"@.len());
    assert("model"@.len() != "parallel"@.len());
    assert("level"@[0] != "model"@[0]);
    assert("level"@.len() != "parallel"@.len());
    assert("jobs"@.len() != "model"@.len());
    assert("jobs"@.len() != "level"@.len());
    assert("jobs"@.len() != "parallel"@.len());
}

/// The settings of a configuration file: for each key, the value of the last
/// line setting it; `parallel` and `jobs` are kept only when that value is a
/// boolean or a whole number.
pub fn parse_config_file(text: &str) -> (r: ConfigFile)
    ensures
        opt_seq(r.api_key) == file_value(text@, "api_key"@),
        opt_seq(r.api_base) == file_value(text@, "api_base"@),
        opt_seq(r.model) == file_value(text@, "model"@),
        opt_seq(r.level) == file_value(text@, "level"@),
        r.parallel == (match file_value(text@, "parallel"@) {
            Some(v) => spec_parse_bool(v),
            None => None,
        }),
        match file_value(text@, "jobs"@) {
            Some(v) => match spec_parse_usize(v) {
                Some(n) => r.jobs == Some(n as usize),
                None => r.jobs is None,
            },
            None => r.jobs is None,
        },
{
    let v = to_chars(text);
    let spans = line_spans_of(&v);
    let ghost ls = lines(v@);
    let mut api_key: Option<String> = None;
    let mut api_base: Option<String> = None;
    let mut model: Option<String> = None;
    let mut level: Option<String> = None;
    let mut parallel: Option<String> = None;
    let mut jobs: Option<String> = None;
    let mut i: usize = 0;
    while i < spans.len()
        invariant
            ls == lines(v@),
            v@ == text@,
            ls == spans_view(v@, int_spans(spans@)),
            spans_within(int_spans(spans@), v@.len() as int),
            i <= spans@.len(),
            opt_seq(api_key) == last_value(ls.take(i as int), "api_key"@),
            opt_seq(api_base) == last_value(ls.take(i as int), "api_base"@),
            opt_seq(model) == last_value(ls.take(i as int), "model"@),
            opt_seq(level) == last_value(ls.take(i as int), "level"@),
            opt_seq(parallel) == last_value(ls.take(i as int), "parallel"@),
            opt_seq(jobs) == last_value(ls.take(i as int), "jobs"@),
        decreases spans@.len() - i,
    {
        let (lo, hi) = spans[i];
        proof {
            lemma_keys_differ();
        }
        assert(int_spans(spans@)[i as int] == (lo as int, hi as int));
        assert(ls.take(i + 1).drop_last() =~= ls.take(i as int));
        let mut l: Vec<char> = Vec::new();
        extend_from(&mut l, &v, lo, hi);
        assert(l@ =~= v@.subrange(lo as int, hi as int));
        assert(ls.take(i + 1).last() == l@);
        match setting_of(&l) {
            Some((k, val)) => {
                if str_eq(k.as_str(), "api_key") {
                    api_key = Some(val);
                } else if str_eq(k.as_str(), "api_base") {
                    api_base = Some(val);
                } else if str_eq(k.as_str(), "model") {
                    model = Some(val);
                } else if str_eq(k.as_str(), "level") {
                    level = Some(val);
                } else if str_eq(k.as_str(), "parallel") {
                    parallel = Some(val);
                } else if str_eq(k.as_str(), "jobs") {
                    jobs = Some(val);
                }
            },
            None => {},
        }
        i += 1;
    }
    assert(ls.take(spans@.len() as int) =~= ls);
    let parallel_value = match &parallel {
        Some(p) => parse_bool(p.as_str()),
        None => None,
    };
    let jobs_value = match &jobs {
        Some(j) => parse_usize(j.as_str()),
        None => None,
    };
    ConfigFile { api_key, api_base, model, level, parallel: parallel_value, jobs: jobs_value }
}

// ---------------------------------------------------------------------------
// The `config` command
// ---------------------------------------------------------------------------

/// What `distill config` was asked to do.
#[derive(Debug)]
pub enum ConfigCommand {
    /// Show every setting and where it comes from.
    Show,
    /// Change a setting; the arguments after `set` follow.
    SetValue,
    /// Show where the configuration file is.
    Path,
    /// Anything else: refused with the usage.
    Unknown(String),
}

/// The subcommand named by the first argument of `distill config`.
pub fn parse_command(args: &Vec<String>) -> (r: ConfigCommand)
    ensures
        args@.len() == 0 ==> r is Show,
        args@.len() > 0 ==> (if args@[0]@ == "set"@ {
            r is SetValue
        } else if args@[0]@ == "path"@ {
            r is Path
        } else {
            r matches ConfigCommand::Unknown(other) && other@ == args@[0]@
        }),
{
    if args.len() == 0 {
        ConfigCommand::Show
    } else if str_eq(args[0].as_str(), "set") {
        ConfigCommand::SetValue
    } else if str_eq(args[0].as_str(), "path") {
        ConfigCommand::Path
    } else {
        ConfigCommand::Unknown(args[0].clone())
    }
}

/// The settings kept in the configuration file.
#[derive(Debug, Clone)]
pub struct ConfigFile {
    pub api_key: Option<String>,
    pub api_base: Option<String>,
    pub model: Option<String>,
    pub level: Option<String>,
    pub parallel: Option<bool>,
    pub jobs: Option<usize>,
}

/// Why `config set` refused its arguments.
#[derive(Debug, Clone, PartialEq, Eq)]
pub enum SetError {
    /// Not exactly a key and a value.
    Usage,
    /// `parallel` takes `true` or `false`.
    InvalidParallel,
    /// `jobs` takes a whole number.
    InvalidJobs,
    /// No setting has this name.
    UnknownKey(String),
}

/// The message shown for a refused `config set`.
pub open spec fn spec_set_error_message(e: SetError) -> Seq<char> {
    match e {
        SetError::Usage => "usage: distill config set <key> <value>"@,
        SetError::InvalidParallel => "invalid value for parallel: expected true or false"@,
        SetError::InvalidJobs => "invalid value for jobs: expected a positive integer"@,
        SetError::UnknownKey(k) => "unknown config key: "@ + k@
            + "\nvalid keys: api_key, api_base, model, level, parallel, jobs"@,
    }
}

impl SetError {
    /// The message shown for this refusal.
    pub fn message(&self) -> (r: String)
        ensures
            r@ == spec_set_error_message(*self),
    {
        match self {
            SetError::Usage => String::from_str("usage: distill config set <key> <value>"),
            SetError::InvalidParallel => String::from_str(
                "invalid value for parallel: expected true or false",
            ),
            SetError::InvalidJobs => String::from_str(
                "invalid value for jobs: expected a positive integer",
            ),
            SetError::UnknownKey(k) => {
                let mut out: Vec<char> = Vec::new();
                extend_str(&mut out, "unknown config key: ");
                extend_str(&mut out, k.as_str());
                extend_str(&mut out, "\nvalid keys: api_key, api_base, model, level, parallel, jobs");
                string_of_all(&out)
            },
        }
    }
}

/// `bool::from_str`: exactly `true` or `false`.
pub open spec fn spec_parse_bool(s: Seq<char>) -> Option<bool> {
    if s == "true"@ {
        Some(true)
    } else if s == "false"@ {
        Some(false)
    } else {
        None
    }
}

/// A boolean setting's value.
pub fn parse_bool(s: &str) -> (r: Option<bool>)
    ensures
        r == spec_parse_bool(s@),
{
    if str_eq(s, "true") {
        Some(true)
    } else if str_eq(s, "false") {
        Some(false)
    } else {
        None
    }
}

/// The number that a string of decimal digits writes.
pub open spec fn digits_value(d: Seq<char>) -> nat
    decreases d.len(),
{
    if d.len() == 0 {
        0
    } else {
        digits_value(d.drop_last()) * 10 + ((d.last() as u32) - 48) as nat
    }
}

/// The digits of an unsigned number: the text after an optional `+`.
pub open spec fn unsigned_digits(s: Seq<char>) -> Seq<char> {
    if s.len() > 0 && s[0] == '+' {
        s.skip(1)
    } else {
        s
    }
}

/// `usize::from_str`: an optional `+` and at least one decimal digit, of a
/// value that fits.
pub open spec fn spec_parse_usize(s: Seq<char>) -> Option<nat> {
    let d = unsigned_digits(s);
    if d.len() == 0 || exists|i: int| 0 <= i < d.len() && !is_digit(#[trigger] d[i]) {
        None
    } else if digits_value(d) > usize::MAX {
        None
    } else {
        Some(digits_value(d))
    }
}

proof fn lemma_digits_value_grows(d: Seq<char>, i: int)
    requires
        0 <= i <= d.len(),
        forall|k: int| 0 <= k < d.len() ==> is_digit(#[trigger] d[k]),
    ensures
        digits_value(d.take(i)) <= digits_value(d),
    decreases d.len() - i,
{
    if i < d.len() {
        lemma_digits_value_grows(d, i + 1);
        assert(d.take(i + 1).drop_last() =~= d.take(i));
    } else {
        assert(d.take(i) =~= d);
    }
}

/// A whole-number setting's value.
pub fn parse_usize(s: &str) -> (r: Option<usize>)
    ensures
        match r {
            Some(n) => spec_parse_usize(s@) == Some(n as nat),
            None => spec_parse_usize(s@) is None,
        },
{
    let v = to_chars(s);
    let start: usize = if v.len() > 0 && v[0] == '+' {
        1
    } else {
        0
    };
    let ghost d = unsigned_digits(s@);
    assert(d =~= v@.skip(start as int));
    if start == v.len() {
        return None;
    }
    let mut i: usize = start;
    while i < v.len()
        invariant
            start <= i <= v@.len(),
            v@ == s@,
            d == unsigned_digits(s@),
            d =~= v@.skip(start as int),
            forall|k: int| 0 <= k < i - start ==> is_digit(#[trigger] d[k]),
        decreases v@.len() - i,
    {
        if !is_ascii_digit(v[i]) {
            assert(!is_digit(d[i - start]));
            return None;
        }
        i += 1;
    }
    let mut acc: usize = 0;
    let mut j: usize = start;
    while j < v.len()
        invariant
            start <= j <= v@.len(),
            v@ == s@,
            d == unsigned_digits(s@),
            d =~= v@.skip(start as int),
            forall|k: int| 0 <= k < d.len() ==> is_digit(#[trigger] d[k]),
            acc as nat == digits_value(d.take(j - start)),
        decreases v@.len() - j,
    {
        let ghost k = (j - start) as int;
        assert(d.take(k + 1).drop_last() =~= d.take(k));
        assert(d.take(k + 1).last() == v@[j as int]);
        assert(is_digit(d[k]));
        let digit = (v[j] as u32 - 48) as usize;
        let grown = match acc.checked_mul(10) {
            Some(t) => t.checked_add(digit),
            None => None,
        };
        match grown {
            Some(n) => acc = n,
            None => {
                proof {
                    lemma_digits_value_grows(d, k + 1);
                }
                return None;
            },
        }
        j += 1;
    }
    assert(d.take(d.len() as int) =~= d);
    Some(acc)
}

/// Changes one setting of the file from the arguments of `config set`: a key
/// and a value. `parallel` takes a boolean, `jobs` a whole number, the others
/// any text; the file is unchanged when the arguments are refused.
pub open spec fn set_ok(old_file: ConfigFile, args: Seq<String>, new_file: ConfigFile, r: Result<(), SetError>) -> bool {
    if args.len() != 2 {
        r == Err::<(), SetError>(SetError::Usage) && new_file == old_file
    } else {
        let key = args[0]@;
        let value = args[1];
        if key == "api_key"@ {
            r is Ok && new_file == ConfigFile { api_key: Some(value), ..old_file }
        } else if key == "api_base"@ {
            r is Ok && new_file == ConfigFile { api_base: Some(value), ..old_file }
        } else if key == "model"@ {
            r is Ok && new_file == ConfigFile { model: Some(value), ..old_file }
        } else if key == "level"@ {
            r is Ok && new_file == ConfigFile { level: Some(value), ..old_file }
        } else if key == "parallel"@ {
            match spec_parse_bool(value@) {
                Some(b) => r is Ok && new_file == ConfigFile { parallel: Some(b), ..old_file },
                None => r == Err::<(), SetError>(SetError::InvalidParallel) && new_file == old_file,
            }
        } else if key == "jobs"@ {
            match spec_parse_usize(value@) {
                Some(n) => r is Ok && new_file == ConfigFile { jobs: Some(n as usize), ..old_file },
                None => r == Err::<(), SetError>(SetError::InvalidJobs) && new_file == old_file,
            }
        } else {
            r matches Err(SetError::UnknownKey(k)) && k@ == key && new_file == old_file
        }
    }
}

/// Applies `config set <key> <value>` to the settings of the file.
pub fn apply_setting(file: &mut ConfigFile, args: &Vec<String>) -> (r: Result<(), SetError>)
    ensures
        set_ok(*old(file), args@, *final(file), r),
{
    if args.len() != 2 {
        return Err(SetError::Usage);
    }
    let key = args[0].as_str();
    let value = &args[1];
    if str_eq(key, "api_key") {
        file.api_key = Some(value.clone());
    } else if str_eq(key, "api_base") {
        file.api_base = Some(value.clone());
    } else if str_eq(key, "model") {
        file.model = Some(value.clone());
    } else if str_eq(key, "level") {
        file.level = Some(value.clone());
    } else if str_eq(key, "parallel") {
        match parse_bool(value.as_str()) {
            Some(b) => file.parallel = Some(b),
            None => return Err(SetError::InvalidParallel),
        }
    } else if str_eq(key, "jobs") {
        match parse_usize(value.as_str()) {
            Some(n) => file.jobs = Some(n),
            None => return Err(SetError::InvalidJobs),
        }
    } else {
        return Err(SetError::UnknownKey(args[0].clone()));
    }
    Ok(())
}

/// The line that confirms a change: the value masked for the API key.
pub fn set_confirmation(key: &str, value: &str) -> (r: String)
    requires
        key@ == "api_key"@ ==> maskable(value),
    ensures
        r@ == "set "@ + key@ + " = "@ + (if key@ == "api_key"@ {
            spec_mask_key(value)
        } else {
            value@
        }),
{
    let shown = if str_eq(key, "api_key") {
        mask_key(value)
    } else {
        String::from_str(value)
    };
    let mut out: Vec<char> = Vec::new();
    extend_str(&mut out, "set ");
    extend_str(&mut out, key);
    extend_str(&mut out, " = ");
    extend_str(&mut out, shown.as_str());
    string_of_all(&out)
}


} // verus!
