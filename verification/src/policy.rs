//! The inclusion policy: which relative paths may be taken into the cache.
//!
//! The policy is a set of glob patterns, compiled and matched by the
//! `globset` crate. What that crate computes is not proved here; it enters
//! the contracts under the names declared below. They speak of globs that
//! `Glob::new` has parsed, with the crate's default options, which are the
//! only globs that this library makes, and of the crate's results on a
//! platform whose only path separator is `/`.

use crate::config::ConfigError;
use crate::model::strings_view;
use globset::{Glob, GlobSet};
use vstd::prelude::*;

verus! {

#[verifier::external_type_specification]
#[verifier::external_body]
pub struct ExGlob(Glob);

#[verifier::external_type_specification]
#[verifier::external_body]
pub struct ExGlobSet(GlobSet);

#[verifier::external_type_specification]
#[verifier::external_body]
pub struct ExGlobError(globset::Error);

/// Whether `Glob::new` accepts `pattern`.
pub uninterp spec fn glob_parses(pattern: Seq<char>) -> bool;

/// The pattern that `Glob::new` has parsed a glob from.
pub uninterp spec fn glob_source(glob: Glob) -> Seq<char>;

/// Whether `GlobSet::new` succeeds on the globs that `Glob::new` makes of
/// `patterns`.
pub uninterp spec fn glob_set_compiles(patterns: Seq<Seq<char>>) -> bool;

/// The patterns of the globs that `GlobSet::new` has built a set from, in
/// their order.
pub uninterp spec fn glob_set_sources(set: GlobSet) -> Seq<Seq<char>>;

/// Whether the set that `GlobSet::new` builds from the globs of `patterns`
/// matches `path`, that is, whether `GlobSet::is_match` finds a glob of
/// the set that matches it.
pub uninterp spec fn glob_set_matches(patterns: Seq<Seq<char>>, path: Seq<char>) -> bool;

/// The patterns that a list of globs was parsed from.
pub open spec fn glob_sources(globs: Seq<Glob>) -> Seq<Seq<char>> {
    Seq::new(globs.len(), |i: int| glob_source(globs[i]))
}

/// `Glob::new`: parses one pattern with the crate's default options. The
/// result is `Ok` exactly for the patterns that the parser accepts, and the
/// glob remembers the pattern it came from. Trusted.
#[verifier::external_body]
fn parse_glob(pattern: &str) -> (parsed: Result<Glob, globset::Error>)
    ensures
        parsed is Ok == glob_parses(pattern@),
        parsed matches Ok(glob) ==> glob_source(glob) == pattern@,
{
    Glob::new(pattern)
}

/// `GlobSet::new`: compiles globs into one matcher. Whether that succeeds
/// depends on the globs' patterns alone, and the set stands for those
/// patterns. Trusted.
#[verifier::external_body]
fn compile_globs(globs: &Vec<Glob>) -> (compiled: Result<GlobSet, globset::Error>)
    ensures
        compiled is Ok == glob_set_compiles(glob_sources(globs@)),
        compiled matches Ok(set) ==> glob_set_sources(set) == glob_sources(globs@),
{
    GlobSet::new(globs)
}

/// `GlobSet::is_match`: whether any glob of the set matches `path`. The
/// answer depends on the set's patterns and the path alone. Trusted.
#[verifier::external_body]
fn glob_set_is_match(set: &GlobSet, path: &str) -> (matched: bool)
    ensures
        matched == glob_set_matches(glob_set_sources(*set), path@),
{
    set.is_match(path)
}

/// The text of a `globset::Error`, as its `Display` gives it. Nothing is
/// claimed of the text.
#[verifier::external_body]
fn glob_error_text(error: &globset::Error) -> String {
    error.to_string()
}

/// Every one of `patterns` is a valid glob.
pub open spec fn all_parse(patterns: Seq<Seq<char>>) -> bool {
    forall|i: int| 0 <= i < patterns.len() ==> glob_parses(#[trigger] patterns[i])
}

/// What a policy built from `patterns` says of `path`. Without a pattern
/// nothing is allowed.
pub open spec fn allows(patterns: Seq<Seq<char>>, path: Seq<char>) -> bool {
    patterns.len() > 0 && glob_set_matches(patterns, path)
}

/// A predicate over relative paths, built from allow patterns.
pub struct InclusionPolicy {
    patterns: Vec<String>,
    matcher: Option<GlobSet>,
}

impl View for InclusionPolicy {
    type V = Seq<Seq<char>>;

    /// The policy's patterns.
    closed spec fn view(&self) -> Seq<Seq<char>> {
        strings_view(self.patterns@)
    }
}

impl InclusionPolicy {
    #[verifier::type_invariant]
    spec fn consistent(&self) -> bool {
        match self.matcher {
            Some(set) => self@.len() > 0 && glob_set_sources(set) == self@,
            None => self@.len() == 0,
        }
    }

    /// Builds the policy for `patterns`. It is built exactly when every
    /// pattern is a valid glob and the patterns compile together; otherwise
    /// the error names the first invalid pattern, or the failure to compile.
    pub fn new(patterns: &Vec<String>) -> (built: Result<InclusionPolicy, ConfigError>)
        ensures
            match built {
                Ok(policy) => {
                    &&& policy@ == strings_view(patterns@)
                    &&& all_parse(policy@)
                    &&& policy@.len() > 0 ==> glob_set_compiles(policy@)
                },
                Err(ConfigError::InvalidPattern { pattern, reason }) => exists|i: int|
                    {
                        &&& 0 <= i < patterns.len()
                        &&& #[trigger] patterns[i]@ == pattern@
                        &&& !glob_parses(pattern@)
                        &&& all_parse(strings_view(patterns@).take(i))
                    },
                Err(ConfigError::PatternSet { reason }) => {
                    &&& patterns.len() > 0
                    &&& all_parse(strings_view(patterns@))
                    &&& !glob_set_compiles(strings_view(patterns@))
                },
                Err(_) => false,
            },
    {
        let ghost texts = strings_view(patterns@);
        let mut kept: Vec<String> = Vec::new();
        let mut globs: Vec<Glob> = Vec::new();
        let mut i: usize = 0;
        while i < patterns.len()
            invariant
                i <= patterns.len(),
                texts == strings_view(patterns@),
                kept.len() == i,
                globs.len() == i,
                forall|j: int| 0 <= j < i ==> (#[trigger] kept@[j])@ == texts[j],
                forall|j: int| 0 <= j < i ==> glob_source(#[trigger] globs@[j]) == texts[j],
                forall|j: int| 0 <= j < i ==> glob_parses(#[trigger] texts[j]),
            decreases patterns.len() - i,
        {
            match parse_glob(patterns[i].as_str()) {
                Ok(glob) => {
                    globs.push(glob);
                    kept.push(patterns[i].clone());
                },
                Err(error) => {
                    assert(texts[i as int] == patterns[i as int]@);
                    assert forall|j: int| 0 <= j < texts.take(i as int).len() implies glob_parses(
                        #[trigger] texts.take(i as int)[j],
                    ) by {
                        assert(texts.take(i as int)[j] == texts[j]);
                    }
                    return Err(
                        ConfigError::InvalidPattern {
                            pattern: patterns[i].clone(),
                            reason: glob_error_text(&error),
                        },
                    );
                },
            }
            i += 1;
        }
        assert(strings_view(kept@) =~= texts);
        assert(glob_sources(globs@) =~= texts);
        if patterns.len() == 0 {
            return Ok(InclusionPolicy { patterns: kept, matcher: None });
        }
        match compile_globs(&globs) {
            Ok(set) => Ok(InclusionPolicy { patterns: kept, matcher: Some(set) }),
            Err(error) => Err(ConfigError::PatternSet { reason: glob_error_text(&error) }),
        }
    }

    /// The patterns that the policy was built from.
    pub fn patterns(&self) -> (patterns: &Vec<String>)
        ensures
            strings_view(patterns@) == self@,
    {
        &self.patterns
    }

    /// Whether the policy has no pattern, and so allows nothing.
    pub fn is_inert(&self) -> (inert: bool)
        ensures
            inert == (self@.len() == 0),
    {
        self.patterns.len() == 0
    }

    /// Whether the policy allows the relative path `path`. A policy without
    /// patterns allows no path.
    pub fn is_allowed(&self, path: &str) -> (allowed: bool)
        ensures
            allowed == allows(self@, path@),
            self@.len() == 0 ==> !allowed,
    {
        proof {
            use_type_invariant(self);
        }
        match &self.matcher {
            Some(set) => glob_set_is_match(set, path),
            None => false,
        }
    }
}

} // verus!
