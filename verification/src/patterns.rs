//! Compiled alias patterns.
//!
//! Alias rules are regular-expression patterns paired with replacement
//! labels. The patterns are compiled once, when the configuration is
//! loaded, and matching is read-only thereafter. Compilation and matching
//! are done by the `regex` crate behind trusted wrappers; everything a
//! contract says about a pattern goes through its source text.

use vstd::prelude::*;
use vstd::string::StringExecFns;
use crate::config::Config;
use crate::strmap::str_entries;

verus! {

/// Declares the `regex` crate's compiled-expression type, so that it can
/// stand in fields; values of it are opaque here.
#[verifier::external_type_specification]
#[verifier::external_body]
pub struct ExRegex(regex::Regex);

/// Whether `regex::Regex::new` accepts a pattern. Compilation is a
/// deterministic function of the pattern text alone.
pub uninterp spec fn regex_ok(pattern: Seq<char>) -> bool;

/// Whether the regular expression compiled from `pattern` matches anywhere
/// in `text`. A deterministic function of the two texts alone.
pub uninterp spec fn regex_match(pattern: Seq<char>, text: Seq<char>) -> bool;

/// A compiled alias pattern: the compiled regular expression together with
/// its source text and the replacement label it maps to.
///
/// The fields are private: every value is built by `compile_raw`, so the
/// compiled expression always stems from the stored source. The contract of
/// `is_match` relies on exactly that.
#[derive(Debug)]
pub struct CompiledPattern {
    source: String,
    regex: regex::Regex,
    replacement: String,
}

impl CompiledPattern {
    /// The source text the pattern was compiled from.
    pub closed spec fn src(&self) -> Seq<char> {
        self.source@
    }

    /// The replacement label configured for the pattern.
    pub closed spec fn repl(&self) -> Seq<char> {
        self.replacement@
    }

    /// Relies on `regex::Regex::is_match`: true exactly when the pattern
    /// matches anywhere in `text`, a function of the pattern source and the
    /// text alone. The `regex` field was compiled from `source` (the only
    /// constructor is `compile_raw`), so the result is `regex_match` of the
    /// stored source.
    #[verifier::external_body]
    pub(crate) fn is_match(&self, text: &str) -> (r: bool)
        ensures
            r == regex_match(self.src(), text@),
    {
        self.regex.is_match(text)
    }

    /// The replacement label, cloned.
    pub fn replacement(&self) -> (r: String)
        ensures
            r@ == self.repl(),
    {
        self.replacement.clone()
    }
}

/// Relies on `regex::Regex::new`: compilation succeeds exactly on the
/// patterns the crate accepts, a deterministic function of the pattern
/// text; the error value is its rendered message.
#[verifier::external_body]
fn compile_raw(pattern: &str, replacement: &str) -> (r: Result<CompiledPattern, String>)
    ensures
        r is Ok <==> regex_ok(pattern@),
        r is Ok ==> r->Ok_0.src() == pattern@ && r->Ok_0.repl() == replacement@,
{
    match regex::Regex::new(pattern) {
        Ok(re) => Ok(CompiledPattern {
            source: pattern.to_string(),
            regex: re,
            replacement: replacement.to_string(),
        }),
        Err(e) => Err(format!("{}", e)),
    }
}

/// A pattern-compilation failure, carrying a rendered description of the
/// offending pattern.
#[derive(Debug)]
pub enum RegexError {
    Pattern(String),
}

impl RegexError {
    /// A rendered description of the failure.
    pub fn message(&self) -> (r: String)
        ensures
            self matches RegexError::Pattern(m) && r@ == m@,
    {
        match self {
            RegexError::Pattern(m) => m.clone(),
        }
    }
}

/// Whether a compilation failure names `pattern`: its message starts with
/// the fixed prefix, the offending pattern text, and the separator that
/// precedes the rendered detail.
pub open spec fn spec_error_names_pattern(e: RegexError, pattern: Seq<char>) -> bool {
    e matches RegexError::Pattern(m) && {
        let head = "Invalid regex pattern '"@ + pattern + "': "@;
        m@.len() >= head.len() && m@.take(head.len() as int) == head
    }
}

/// Whether `pattern` is one of the pattern keys of an alias table.
pub open spec fn spec_has_pattern_key(
    m: Seq<(Seq<char>, Seq<char>)>,
    pattern: Seq<char>,
) -> bool {
    exists|i: int| 0 <= i < m.len() && (#[trigger] m[i]).0 == pattern
}

/// The (source, replacement) view of a compiled pattern list.
pub open spec fn pattern_pairs(ps: Seq<CompiledPattern>) -> Seq<(Seq<char>, Seq<char>)> {
    ps.map(|i: int, p: CompiledPattern| (p.src(), p.repl()))
}

/// Whether every pattern key of an alias table compiles.
pub open spec fn all_patterns_ok(m: Seq<(Seq<char>, Seq<char>)>) -> bool {
    forall|j: int| 0 <= j < m.len() ==> regex_ok(#[trigger] m[j].0)
}

/// Compiles a single alias rule.
pub fn compile_pattern(pattern: &str, replacement: &str) -> (r: Result<
    CompiledPattern,
    RegexError,
>)
    ensures
        r is Ok <==> regex_ok(pattern@),
        r is Ok ==> r->Ok_0.src() == pattern@ && r->Ok_0.repl() == replacement@,
        r is Err ==> spec_error_names_pattern(r->Err_0, pattern@),
{
    match compile_raw(pattern, replacement) {
        Ok(p) => Ok(p),
        Err(detail) => {
            let mut msg = String::from_str("Invalid regex pattern '");
            msg.append(pattern);
            msg.append("': ");
            msg.append(detail.as_str());
            proof {
                let head = "Invalid regex pattern '"@ + pattern@ + "': "@;
                assert(msg@ == head + detail@);
                assert(msg@.take(head.len() as int) =~= head);
            }
            Err(RegexError::Pattern(msg))
        },
    }
}

/// Compiles an alias table in order; fails on the first invalid pattern.
pub fn compile_patterns(patterns: &Vec<(String, String)>) -> (r: Result<
    Vec<CompiledPattern>,
    RegexError,
>)
    ensures
        r is Ok <==> all_patterns_ok(str_entries(patterns@)),
        r is Ok ==> pattern_pairs(r->Ok_0@) == str_entries(patterns@),
        r is Err ==> exists|i: int|
            0 <= i < str_entries(patterns@).len() && !regex_ok(
                #[trigger] str_entries(patterns@)[i].0,
            ) && (forall|j: int| 0 <= j < i ==> regex_ok(#[trigger] str_entries(patterns@)[j].0))
                && spec_error_names_pattern(r->Err_0, str_entries(patterns@)[i].0),
{
    let ghost entries = str_entries(patterns@);
    let mut out: Vec<CompiledPattern> = Vec::new();
    let mut i: usize = 0;
    while i < patterns.len()
        invariant
            i <= patterns.len(),
            entries == str_entries(patterns@),
            out@.len() == i,
            forall|j: int| 0 <= j < i ==> regex_ok(#[trigger] entries[j].0),
            forall|j: int| 0 <= j < i ==> (#[trigger] out@[j].src(), out@[j].repl())
                == entries[j],
        decreases patterns.len() - i,
    {
        match compile_pattern(patterns[i].0.as_str(), patterns[i].1.as_str()) {
            Ok(p) => {
                out.push(p);
            },
            Err(e) => {
                proof {
                    assert(!regex_ok(entries[i as int].0));
                    assert(spec_error_names_pattern(e, entries[i as int].0));
                }
                return Err(e);
            },
        }
        i += 1;
    }
    proof {
        assert(pattern_pairs(out@) =~= entries);
    }
    Ok(out)
}

/// Compiled alias patterns for every window-property category.
#[derive(Debug)]
pub struct Compiled {
    pub class: Vec<CompiledPattern>,
    pub instance: Vec<CompiledPattern>,
    pub name: Vec<CompiledPattern>,
    pub app_id: Vec<CompiledPattern>,
}

impl Compiled {
    /// Whether the compiled tables carry exactly the alias rules of
    /// `config`, in configured order.
    pub open spec fn spec_matches_config(&self, config: Config) -> bool {
        &&& pattern_pairs(self.class@) == str_entries(config.aliases.class@)
        &&& pattern_pairs(self.instance@) == str_entries(config.aliases.instance@)
        &&& pattern_pairs(self.name@) == str_entries(config.aliases.name@)
        &&& pattern_pairs(self.app_id@) == str_entries(config.aliases.app_id@)
    }
}

/// Whether every alias pattern of a configuration compiles.
pub open spec fn spec_config_patterns_ok(config: Config) -> bool {
    &&& all_patterns_ok(str_entries(config.aliases.class@))
    &&& all_patterns_ok(str_entries(config.aliases.instance@))
    &&& all_patterns_ok(str_entries(config.aliases.name@))
    &&& all_patterns_ok(str_entries(config.aliases.app_id@))
}

/// An error coming out of `compile_patterns` names an invalid pattern key
/// of the table it worked on.
proof fn lemma_table_error_names_key(e: RegexError, entries: Seq<(Seq<char>, Seq<char>)>)
    requires
        exists|i: int|
            0 <= i < entries.len() && !regex_ok(#[trigger] entries[i].0) && (forall|j: int|
                0 <= j < i ==> regex_ok(#[trigger] entries[j].0)) && spec_error_names_pattern(
                e,
                entries[i].0,
            ),
    ensures
        exists|p: Seq<char>|
            !(#[trigger] regex_ok(p)) && spec_has_pattern_key(entries, p)
                && spec_error_names_pattern(e, p),
{
    let i = choose|i: int|
        0 <= i < entries.len() && !regex_ok(#[trigger] entries[i].0) && (forall|j: int|
            0 <= j < i ==> regex_ok(#[trigger] entries[j].0)) && spec_error_names_pattern(
            e,
            entries[i].0,
        );
    let p = entries[i].0;
    assert(spec_has_pattern_key(entries, p));
    assert(!regex_ok(p) && spec_has_pattern_key(entries, p) && spec_error_names_pattern(e, p));
}

/// Compiles every alias table of the configuration. Fails exactly when some
/// pattern is invalid — a fatal configuration error at startup, never a
/// lookup-time one — and the error then names an offending pattern.
pub fn parse_config(config: &Config) -> (r: Result<Compiled, RegexError>)
    ensures
        r is Ok <==> spec_config_patterns_ok(*config),
        r is Ok ==> r->Ok_0.spec_matches_config(*config),
        r is Err ==> exists|p: Seq<char>|
            !(#[trigger] regex_ok(p)) && (spec_has_pattern_key(
                str_entries(config.aliases.class@),
                p,
            ) || spec_has_pattern_key(str_entries(config.aliases.instance@), p)
                || spec_has_pattern_key(str_entries(config.aliases.name@), p)
                || spec_has_pattern_key(str_entries(config.aliases.app_id@), p))
                && spec_error_names_pattern(r->Err_0, p),
{
    let class = match compile_patterns(&config.aliases.class) {
        Ok(v) => v,
        Err(e) => {
            proof {
                lemma_table_error_names_key(e, str_entries(config.aliases.class@));
            }
            return Err(e);
        },
    };
    let instance = match compile_patterns(&config.aliases.instance) {
        Ok(v) => v,
        Err(e) => {
            proof {
                lemma_table_error_names_key(e, str_entries(config.aliases.instance@));
            }
            return Err(e);
        },
    };
    let name = match compile_patterns(&config.aliases.name) {
        Ok(v) => v,
        Err(e) => {
            proof {
                lemma_table_error_names_key(e, str_entries(config.aliases.name@));
            }
            return Err(e);
        },
    };
    let app_id = match compile_patterns(&config.aliases.app_id) {
        Ok(v) => v,
        Err(e) => {
            proof {
                lemma_table_error_names_key(e, str_entries(config.aliases.app_id@));
            }
            return Err(e);
        },
    };
    Ok(Compiled { class, instance, name, app_id })
}

} // verus!
