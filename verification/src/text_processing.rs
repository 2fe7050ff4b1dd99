//! Multi-pattern and regular-expression text search.
//!
//! The automaton construction and the match scan are the outside crates'
//! work, named and trusted at the wrapper boundary; everything around them —
//! the empty-pattern short cut, the case-sensitivity switch and the match
//! cap — is verified.

use vstd::prelude::*;

verus! {

/// Configuration for text processing.
#[derive(Clone, Copy, Debug, PartialEq, Eq, Structural)]
pub struct TextProcessingConfig {
    /// Case-sensitive matching.
    pub case_sensitive: bool,
    /// Use overlapping matches.
    pub overlapping: bool,
    /// Maximum match count (zero for unlimited).
    pub max_matches: u32,
}

impl Default for TextProcessingConfig {
    /// Case-sensitive, non-overlapping, unlimited matches.
    fn default() -> (c: Self)
        ensures
            c.case_sensitive,
            !c.overlapping,
            c.max_matches == 0,
    {
        TextProcessingConfig { case_sensitive: true, overlapping: false, max_matches: 0 }
    }
}

/// One match: its byte span in the text, the matched text, and which pattern
/// matched.
#[derive(Clone, Debug)]
pub struct TextMatch {
    /// Start byte position of the match.
    pub start: u32,
    /// End byte position of the match.
    pub end: u32,
    /// The matched text.
    pub text: String,
    /// Pattern index (for multi-pattern search).
    pub pattern_index: u32,
}

/// A text processor holding its immutable configuration.
pub struct TextProcessor {
    /// The processor's configuration.
    pub config: TextProcessingConfig,
}

/// Whether the leftmost-first automaton can be built over these patterns: a
/// function of the patterns and the case flag alone.
pub uninterp spec fn ac_build_ok(patterns: Seq<Seq<char>>, case_insensitive: bool) -> bool;

/// The matches the leftmost-first automaton reports for `patterns` over
/// `text`, in order of appearance: byte start, byte end, matched text and
/// pattern index. A function of its arguments alone.
pub uninterp spec fn ac_found(
    patterns: Seq<Seq<char>>,
    case_insensitive: bool,
    text: Seq<char>,
) -> Seq<(u32, u32, Seq<char>, u32)>;

/// Whether the regular-expression pattern compiles: a function of the
/// pattern alone.
pub uninterp spec fn regex_build_ok(pattern: Seq<char>) -> bool;

/// The non-overlapping leftmost-first matches of a regular expression over a
/// text, in order of appearance: byte start, byte end and matched text. A
/// function of its arguments alone.
pub uninterp spec fn regex_found(pattern: Seq<char>, text: Seq<char>) -> Seq<(u32, u32, Seq<char>)>;

/// How many matches are reported when `total` were found and at most
/// `max_matches` (zero: all of them) are kept.
pub open spec fn match_limit(total: nat, max_matches: u32) -> nat {
    if max_matches > 0 && total > max_matches {
        max_matches as nat
    } else {
        total
    }
}

/// The reported match `m` carries the found span, text and pattern index `f`.
pub open spec fn text_match_is(m: TextMatch, f: (u32, u32, Seq<char>, u32)) -> bool {
    m.start == f.0 && m.end == f.1 && m.text@ == f.2 && m.pattern_index == f.3
}

/// The reported match `m` carries the found span and text `f`; single-pattern
/// searches report pattern index zero.
pub open spec fn regex_match_is(m: TextMatch, f: (u32, u32, Seq<char>)) -> bool {
    m.start == f.0 && m.end == f.1 && m.text@ == f.2 && m.pattern_index == 0
}

/// Relies on `aho_corasick::AhoCorasick` (leftmost-first match kind, optional
/// ASCII case folding): whether the automaton builds, and which matches it
/// reports over a text, are functions of the patterns, the case flag and the
/// text alone; each reported pattern index names one of the given patterns.
/// The matched text is cut from the text's bytes and decoded lossily: an
/// empty pattern matches at every byte offset, boundary or not, so slicing
/// the string itself could abort there.
#[verifier::external_body]
fn ac_find_matches(patterns: &Vec<String>, case_insensitive: bool, text: &str) -> (r: Result<
    Vec<(u32, u32, String, u32)>,
    String,
>)
    ensures
        r is Ok <==> ac_build_ok(patterns.deep_view(), case_insensitive),
        r matches Ok(v) ==> v.deep_view() == ac_found(
            patterns.deep_view(),
            case_insensitive,
            text@,
        ),
        r matches Ok(v) ==> forall|k: int|
            0 <= k < v.deep_view().len() ==> (#[trigger] v.deep_view()[k]).3
                < patterns.deep_view().len(),
{
    let ac = match aho_corasick::AhoCorasick::builder().match_kind(
        aho_corasick::MatchKind::LeftmostFirst,
    ).ascii_case_insensitive(case_insensitive).build(patterns) {
        Ok(ac) => ac,
        Err(e) => { return Err(e.to_string()) },
    };
    Ok(ac.find_iter(text).map(
        |m| (
            m.start() as u32,
            m.end() as u32,
            String::from_utf8_lossy(&text.as_bytes()[m.start()..m.end()]).into_owned(),
            m.pattern().as_u32(),
        ),
    ).collect())
}

/// Relies on `regex::Regex::new` and `Regex::find_iter`: whether a pattern
/// compiles, and the non-overlapping leftmost-first matches it yields over a
/// text, are functions of the pattern and the text alone.
#[verifier::external_body]
fn regex_find_matches(pattern: &str, text: &str) -> (r: Result<Vec<(u32, u32, String)>, String>)
    ensures
        r is Ok <==> regex_build_ok(pattern@),
        r matches Ok(v) ==> v.deep_view() == regex_found(pattern@, text@),
{
    let re = match regex::Regex::new(pattern) {
        Ok(re) => re,
        Err(e) => { return Err(e.to_string()) },
    };
    Ok(re.find_iter(text).map(|m| (m.start() as u32, m.end() as u32, m.as_str().to_string())).collect())
}

impl TextProcessor {
    /// Builds a processor from an optional configuration.
    pub fn new(config: Option<TextProcessingConfig>) -> (r: Self)
        ensures
            match config {
                Some(c) => r.config == c,
                None => r.config.case_sensitive && !r.config.overlapping && r.config.max_matches
                    == 0,
            },
    {
        let config = match config {
            Some(c) => c,
            None => TextProcessingConfig::default(),
        };
        TextProcessor { config }
    }

    /// Finds every occurrence of the given patterns in the text with a
    /// leftmost-first multi-pattern scan, honoring the configured case
    /// sensitivity, and reports at most `max_matches` of them (zero: all),
    /// in order of appearance. With no patterns there is nothing to find;
    /// a pattern set the automaton cannot be built over is rejected.
    pub fn find_substrings(&self, text: String, patterns: Vec<String>) -> (r: Result<
        Vec<TextMatch>,
        String,
    >)
        ensures
            patterns@.len() == 0 ==> (r matches Ok(v) && v@.len() == 0),
            patterns@.len() > 0 ==> ((r is Ok) <==> ac_build_ok(
                patterns.deep_view(),
                !self.config.case_sensitive,
            )),
            patterns@.len() > 0 ==> (r matches Ok(v) ==> {
                let all = ac_found(patterns.deep_view(), !self.config.case_sensitive, text@);
                &&& v@.len() == match_limit(all.len(), self.config.max_matches)
                &&& forall|k: int| 0 <= k < v@.len() ==> text_match_is(#[trigger] v@[k], all[k])
            }),
    {
        if patterns.len() == 0 {
            return Ok(Vec::new());
        }
        let found = match ac_find_matches(&patterns, !self.config.case_sensitive, text.as_str()) {
            Ok(f) => f,
            Err(e) => { return Err(e) },
        };
        let ghost all = ac_found(patterns.deep_view(), !self.config.case_sensitive, text@);
        proof {
            assert(found.deep_view().len() == found@.len());
        }
        let limit: usize = if self.config.max_matches > 0 && (self.config.max_matches as usize)
            < found.len() {
            self.config.max_matches as usize
        } else {
            found.len()
        };
        let mut matches: Vec<TextMatch> = Vec::new();
        let mut t: usize = 0;
        while t < limit
            invariant
                t <= limit <= found@.len(),
                found.deep_view() == all,
                matches@.len() == t,
                forall|k: int| 0 <= k < t ==> text_match_is(#[trigger] matches@[k], all[k]),
            decreases limit - t,
        {
            let m = TextMatch {
                start: found[t].0,
                end: found[t].1,
                text: found[t].2.clone(),
                pattern_index: found[t].3,
            };
            matches.push(m);
            proof {
                assert(found.deep_view()[t as int] == (
                    found@[t as int].0,
                    found@[t as int].1,
                    found@[t as int].2@,
                    found@[t as int].3,
                ));
            }
            t += 1;
        }
        Ok(matches)
    }

    /// Finds the non-overlapping matches of a regular expression in the
    /// text, in order of appearance, capped at `max_matches` (zero: all).
    /// When the configuration is case-insensitive the pattern is compiled
    /// with the case-folding flag prepended. An uncompilable pattern is
    /// rejected.
    pub fn find_regex_matches(&self, text: String, pattern: String) -> (r: Result<
        Vec<TextMatch>,
        String,
    >)
        ensures
            ({
                let p = if self.config.case_sensitive {
                    pattern@
                } else {
                    "(?i)"@ + pattern@
                };
                &&& ((r is Ok) <==> regex_build_ok(p))
                &&& r matches Ok(v) ==> {
                    let all = regex_found(p, text@);
                    &&& v@.len() == match_limit(all.len(), self.config.max_matches)
                    &&& forall|k: int|
                        0 <= k < v@.len() ==> regex_match_is(#[trigger] v@[k], all[k])
                }
            }),
    {
        let full = if !self.config.case_sensitive {
            let mut p = String::new();
            p.append("(?i)");
            p.append(pattern.as_str());
            proof {
                assert(p@ =~= "(?i)"@ + pattern@);
            }
            p
        } else {
            pattern
        };
        let found = match regex_find_matches(full.as_str(), text.as_str()) {
            Ok(f) => f,
            Err(e) => { return Err(e) },
        };
        let ghost all = regex_found(full@, text@);
        proof {
            assert(found.deep_view().len() == found@.len());
        }
        let limit: usize = if self.config.max_matches > 0 && (self.config.max_matches as usize)
            < found.len() {
            self.config.max_matches as usize
        } else {
            found.len()
        };
        let mut matches: Vec<TextMatch> = Vec::new();
        let mut t: usize = 0;
        while t < limit
            invariant
                t <= limit <= found@.len(),
                found.deep_view() == all,
                matches@.len() == t,
                forall|k: int| 0 <= k < t ==> regex_match_is(#[trigger] matches@[k], all[k]),
            decreases limit - t,
        {
            let m = TextMatch {
                start: found[t].0,
                end: found[t].1,
                text: found[t].2.clone(),
                pattern_index: 0,
            };
            matches.push(m);
            proof {
                assert(found.deep_view()[t as int] == (
                    found@[t as int].0,
                    found@[t as int].1,
                    found@[t as int].2@,
                ));
            }
            t += 1;
        }
        Ok(matches)
    }
}

/// One-call substring search: a processor with the given case sensitivity
/// (the default: sensitive), non-overlapping, unlimited matches.
pub fn quick_substring_search(
    text: String,
    patterns: Vec<String>,
    case_sensitive: Option<bool>,
) -> (r: Result<Vec<TextMatch>, String>)
    ensures
        ({
            let ci = !(match case_sensitive {
                Some(c) => c,
                None => true,
            });
            &&& patterns@.len() == 0 ==> (r matches Ok(v) && v@.len() == 0)
            &&& patterns@.len() > 0 ==> ((r is Ok) <==> ac_build_ok(patterns.deep_view(), ci))
            &&& patterns@.len() > 0 ==> (r matches Ok(v) ==> {
                let all = ac_found(patterns.deep_view(), ci, text@);
                &&& v@.len() == all.len()
                &&& forall|k: int| 0 <= k < v@.len() ==> text_match_is(#[trigger] v@[k], all[k])
            })
        }),
{
    let cs = match case_sensitive {
        Some(c) => c,
        None => true,
    };
    let processor = TextProcessor::new(
        Some(TextProcessingConfig { case_sensitive: cs, overlapping: false, max_matches: 0 }),
    );
    processor.find_substrings(text, patterns)
}

} // verus!
