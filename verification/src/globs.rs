//! Selection of paths by glob patterns.
//!
//! Patterns are compiled and matched by the `globset` crate, as it does so on
//! the platform that the crate is built for. What `globset` computes is not
//! proved here: it is named, and the rules of precedence are proved over
//! those names.

use vstd::prelude::*;
use vstd::utf8::encode_utf8;
use globset::{Glob, GlobSet, GlobSetBuilder};
use crate::error::MergeError;
use crate::strings::views;

verus! {

/// `globset::Glob`, a parsed pattern. Nothing inside it is seen here.
#[verifier::external_type_specification]
#[verifier::external_body]
pub struct ExGlob(globset::Glob);

/// `globset::GlobSetBuilder`, which collects globs for a set.
#[verifier::external_type_specification]
#[verifier::external_body]
pub struct ExGlobSetBuilder(globset::GlobSetBuilder);

/// `globset::GlobSet`, a matcher for several globs at once.
#[verifier::external_type_specification]
#[verifier::external_body]
pub struct ExGlobSet(globset::GlobSet);

/// `globset::Error`, the failure to parse a glob or to build a set.
#[verifier::external_type_specification]
#[verifier::external_body]
pub struct ExGlobError(globset::Error);

// Every glob in this crate comes from `Glob::new`, which parses with the
// default options, so a glob is known by the text of its pattern, and a
// builder or a set by the texts of the globs it holds, in order. Nothing
// here takes a glob, a builder or a set from a caller.

/// The largest index that the literal matcher inside a `GlobSet` can give to
/// a state, a transition or a recorded match: `i32::MAX - 1`.
pub const MATCHER_CAPACITY: usize = 2_147_483_646;

/// More than the number of states and transitions that the literal matcher
/// holds before any pattern is added to it.
pub const MATCHER_OVERHEAD: usize = 4096;

/// The number of bytes of all of `patterns` together, in UTF-8.
pub open spec fn pattern_bytes(patterns: Seq<Seq<char>>) -> nat
    decreases patterns.len(),
{
    if patterns.len() == 0 {
        0
    } else {
        pattern_bytes(patterns.drop_last()) + encode_utf8(patterns.last()).len()
    }
}

/// What the literal matcher for `patterns` may come to hold at most.
///
/// A pattern adds to it at most one literal, which is not empty and no
/// longer than the pattern. So its states and its transitions are at most
/// the bytes of the patterns and the overhead, and its table of the states
/// near the start has fewer entries than the overhead for each pattern. At a
/// state it records every literal that ends there, a literal given twice
/// twice, so its recorded matches are at most the number of patterns for
/// each state. The product bounds all of these.
pub open spec fn matcher_need(patterns: Seq<Seq<char>>) -> int {
    (patterns.len() + 1) * (pattern_bytes(patterns) + MATCHER_OVERHEAD)
}

/// Whether the literal matcher for `patterns` is sure to fit its indices.
pub open spec fn within_limit(patterns: Seq<Seq<char>>) -> bool {
    matcher_need(patterns) <= MATCHER_CAPACITY
}

/// Whether `Glob::new` accepts `pattern`.
pub uninterp spec fn glob_parses(pattern: Seq<char>) -> bool;

/// The pattern that a glob was parsed from, as `Glob::glob` returns it.
pub uninterp spec fn glob_text(glob: Glob) -> Seq<char>;

/// The patterns of the globs added to a builder, in the order of their
/// addition.
pub uninterp spec fn builder_globs(builder: GlobSetBuilder) -> Seq<Seq<char>>;

/// The patterns of the globs that a set was built from, in order.
pub uninterp spec fn set_globs(set: GlobSet) -> Seq<Seq<char>>;

/// Whether `GlobSetBuilder::build` succeeds on the globs parsed from
/// `patterns`.
pub uninterp spec fn set_builds(patterns: Seq<Seq<char>>) -> bool;

/// What `GlobSet::is_match` returns for `path` on the set built from the
/// globs parsed from `patterns`: whether any of the globs matches the path.
pub uninterp spec fn set_matches(patterns: Seq<Seq<char>>, path: Seq<char>) -> bool;

/// `Glob::new` parses a pattern with the default options. It succeeds exactly
/// on the patterns that `glob_parses` names, and the glob it returns holds the
/// pattern it was given.
pub assume_specification[ Glob::new ](glob: &str) -> (r: Result<Glob, globset::Error>)
    ensures
        r is Ok <==> glob_parses(glob@),
        r matches Ok(g) ==> glob_text(g) == glob@,
;

/// `GlobSetBuilder::new` returns a builder that holds no glob.
pub assume_specification[ GlobSetBuilder::new ]() -> (builder: GlobSetBuilder)
    ensures
        builder_globs(builder) == Seq::<Seq<char>>::empty(),
;

/// `GlobSetBuilder::add` appends the glob to those the builder holds.
#[verifier::external_body]
fn builder_add(builder: &mut GlobSetBuilder, glob: Glob)
    ensures
        builder_globs(*final(builder)) == builder_globs(*old(builder)).push(glob_text(glob)),
{
    builder.add(glob);
}

/// `GlobSetBuilder::build` builds a set from the globs added so far, in their
/// order. Whether it succeeds depends on those globs alone, and it succeeds
/// where there are none. It panics where the literal matcher inside it
/// (`AhoCorasick::new`) cannot be built, which happens only when a state, a
/// transition or a recorded match gets an index above `MATCHER_CAPACITY`; so
/// it is called only where `matcher_need` shows that none can.
pub assume_specification[ GlobSetBuilder::build ](builder: &GlobSetBuilder) -> (r: Result<
    GlobSet,
    globset::Error,
>)
    requires
        within_limit(builder_globs(*builder)),
    ensures
        r is Ok <==> set_builds(builder_globs(*builder)),
        r matches Ok(set) ==> set_globs(set) == builder_globs(*builder),
        builder_globs(*builder).len() == 0 ==> r is Ok,
;

/// `GlobSet::is_match` tells whether any glob of the set matches the path.
/// The answer depends on the globs of the set and on the path alone, and a
/// set without globs matches nothing.
#[verifier::external_body]
fn set_is_match(set: &GlobSet, path: &str) -> (r: bool)
    ensures
        r == set_matches(set_globs(*set), path@),
        set_globs(*set).len() == 0 ==> !r,
{
    set.is_match(path)
}

/// Whether every one of `patterns` is a well-formed glob.
pub open spec fn all_parse(patterns: Seq<Seq<char>>) -> bool {
    forall|i: int| 0 <= i < patterns.len() ==> glob_parses(#[trigger] patterns[i])
}

/// Whether `i` is the place of the first malformed glob among `patterns`.
pub open spec fn first_malformed(patterns: Seq<Seq<char>>, i: int) -> bool {
    &&& 0 <= i < patterns.len()
    &&& !glob_parses(patterns[i])
    &&& forall|j: int| 0 <= j < i ==> glob_parses(#[trigger] patterns[j])
}

/// What compiling `patterns` yields: the set of their globs, or the failure.
pub open spec fn compiles_to(patterns: Seq<Seq<char>>, r: Result<GlobSet, MergeError>) -> bool {
    match r {
        Ok(set) => compilable(patterns) && set_globs(set) == patterns,
        Err(MergeError::InvalidPattern(p)) => exists|i: int|
            first_malformed(patterns, i) && p@ == #[trigger] patterns[i],
        Err(MergeError::InvalidPatternSet) => all_parse(patterns) && !(within_limit(patterns)
            && set_builds(patterns)),
        Err(_) => false,
    }
}

/// A list of patterns has at least the bytes of each of its beginnings.
pub proof fn lemma_pattern_bytes_grow(patterns: Seq<Seq<char>>, n: int)
    requires
        0 <= n <= patterns.len(),
    ensures
        pattern_bytes(patterns.take(n)) <= pattern_bytes(patterns),
    decreases patterns.len() - n,
{
    if n < patterns.len() {
        assert(patterns.take(n + 1).drop_last() =~= patterns.take(n));
        lemma_pattern_bytes_grow(patterns, n + 1);
    } else {
        assert(patterns.take(n) =~= patterns);
    }
}

/// Whether the literal matcher for the patterns of a list is sure to fit its
/// indices.
fn fits_limit(patterns: &Vec<String>) -> (fits: bool)
    ensures
        fits == within_limit(views(patterns@)),
{
    let ghost texts = views(patterns@);
    let mut bytes: usize = 0;
    let mut i: usize = 0;
    assert(texts.take(0) =~= Seq::<Seq<char>>::empty());
    while i < patterns.len()
        invariant
            i <= patterns.len(),
            texts == views(patterns@),
            bytes == pattern_bytes(texts.take(i as int)),
            bytes <= MATCHER_CAPACITY,
        decreases patterns.len() - i,
    {
        assert(texts.take(i + 1).drop_last() =~= texts.take(i as int));
        let len: usize = patterns[i].as_str().as_bytes().len();
        assert(len == encode_utf8(texts[i as int]).len());
        if len > MATCHER_CAPACITY - bytes {
            proof {
                lemma_pattern_bytes_grow(texts, i + 1);
                assert(matcher_need(texts) >= pattern_bytes(texts) + MATCHER_OVERHEAD)
                    by (nonlinear_arith)
                    requires
                        matcher_need(texts) == (texts.len() + 1) * (pattern_bytes(texts)
                            + MATCHER_OVERHEAD),
                ;
            }
            return false;
        }
        bytes = bytes + len;
        i += 1;
    }
    assert(texts.take(i as int) =~= texts);
    if patterns.len() > MATCHER_CAPACITY {
        assert(matcher_need(texts) > MATCHER_CAPACITY) by (nonlinear_arith)
            requires
                matcher_need(texts) == (texts.len() + 1) * (pattern_bytes(texts)
                    + MATCHER_OVERHEAD),
                texts.len() > MATCHER_CAPACITY,
        ;
        return false;
    }
    let count: usize = patterns.len() + 1;
    let size: usize = bytes + MATCHER_OVERHEAD;
    match count.checked_mul(size) {
        Some(need) => need <= MATCHER_CAPACITY,
        None => false,
    }
}

/// Compiles a list of glob patterns into one set.
///
/// Fails with `InvalidPattern`, naming the first malformed pattern, if there
/// is one. Well-formed patterns fail, with `InvalidPatternSet`, only where
/// `globset` cannot build one matcher for them, or where they are so many
/// and so long that its literal matcher might not fit its indices. An empty
/// list always compiles.
pub fn compile_globs(patterns: &Vec<String>) -> (r: Result<GlobSet, MergeError>)
    ensures
        compiles_to(views(patterns@), r),
        patterns@.len() == 0 ==> r is Ok,
{
    let ghost texts = views(patterns@);
    let mut builder: GlobSetBuilder = GlobSetBuilder::new();
    let mut i: usize = 0;
    while i < patterns.len()
        invariant
            i <= patterns.len(),
            texts == views(patterns@),
            builder_globs(builder) == texts.take(i as int),
            forall|j: int| 0 <= j < i ==> glob_parses(#[trigger] texts[j]),
        decreases patterns.len() - i,
    {
        match Glob::new(patterns[i].as_str()) {
            Ok(glob) => {
                builder_add(&mut builder, glob);
            },
            Err(_) => {
                assert(first_malformed(texts, i as int));
                return Err(MergeError::InvalidPattern(patterns[i].clone()));
            },
        }
        i += 1;
    }
    assert(texts.take(i as int) =~= texts);
    if !fits_limit(patterns) {
        return Err(MergeError::InvalidPatternSet);
    }
    match builder.build() {
        Ok(set) => Ok(set),
        Err(_) => Err(MergeError::InvalidPatternSet),
    }
}

/// The patterns that are excluded unless all files are asked for: version
/// control and build directories, caches, boilerplate, lockfiles and common
/// binaries.
pub open spec fn default_exclude_patterns() -> Seq<Seq<char>> {
    seq![
        ".git/**"@,
        ".svn/**"@,
        ".hg/**"@,
        "target/**"@,
        "dist/**"@,
        "build/**"@,
        "out/**"@,
        "__pycache__/**"@,
        ".cache/**"@,
        ".mypy_cache/**"@,
        ".pytest_cache/**"@,
        ".venv/**"@,
        ".idea/**"@,
        ".vscode/**"@,
        "node_modules/**"@,
        "_site/**"@,
        "_book/**"@,
        "docs/_build/**"@,
        "LICENSE"@,
        "LICENSE.*"@,
        "COPYING"@,
        "NOTICE"@,
        "*.lock"@,
        "package-lock.json"@,
        "poetry.lock"@,
        "Pipfile.lock"@,
        "pnpm-lock.yaml"@,
        "yarn.lock"@,
        "*.pyc"@,
        "*.pyo"@,
        "*.o"@,
        "*.so"@,
        "*.dll"@,
        "*.exe"@,
    ]
}

/// The built-in exclude patterns.
pub fn default_excludes() -> (list: Vec<String>)
    ensures
        views(list@) == default_exclude_patterns(),
{
    let mut list: Vec<String> = Vec::new();
    // version control
    list.push(String::from_str(".git/**"));
    list.push(String::from_str(".svn/**"));
    list.push(String::from_str(".hg/**"));
    // build directories
    list.push(String::from_str("target/**"));
    list.push(String::from_str("dist/**"));
    list.push(String::from_str("build/**"));
    list.push(String::from_str("out/**"));
    // caches
    list.push(String::from_str("__pycache__/**"));
    list.push(String::from_str(".cache/**"));
    list.push(String::from_str(".mypy_cache/**"));
    list.push(String::from_str(".pytest_cache/**"));
    list.push(String::from_str(".venv/**"));
    list.push(String::from_str(".idea/**"));
    list.push(String::from_str(".vscode/**"));
    list.push(String::from_str("node_modules/**"));
    // documentation output
    list.push(String::from_str("_site/**"));
    list.push(String::from_str("_book/**"));
    list.push(String::from_str("docs/_build/**"));
    // boilerplate
    list.push(String::from_str("LICENSE"));
    list.push(String::from_str("LICENSE.*"));
    list.push(String::from_str("COPYING"));
    list.push(String::from_str("NOTICE"));
    // lockfiles
    list.push(String::from_str("*.lock"));
    list.push(String::from_str("package-lock.json"));
    list.push(String::from_str("poetry.lock"));
    list.push(String::from_str("Pipfile.lock"));
    list.push(String::from_str("pnpm-lock.yaml"));
    list.push(String::from_str("yarn.lock"));
    // binaries
    list.push(String::from_str("*.pyc"));
    list.push(String::from_str("*.pyo"));
    list.push(String::from_str("*.o"));
    list.push(String::from_str("*.so"));
    list.push(String::from_str("*.dll"));
    list.push(String::from_str("*.exe"));
    list
}

/// The rule of precedence, over what the three pattern sets say of one path.
/// The first of these that applies decides: a match of an explicit pattern to
/// keep the path selects it; a match of an explicit pattern to drop it rejects
/// it; a match of a built-in pattern rejects it unless all files are asked
/// for; otherwise the path is selected.
pub open spec fn decide(kept: bool, dropped: bool, builtin: bool, all_files: bool) -> bool {
    if kept {
        true
    } else if dropped {
        false
    } else if !all_files && builtin {
        false
    } else {
        true
    }
}

/// Whether `patterns` compile: each is well formed, the literal matcher for
/// them is sure to fit its indices, and the set can be built.
pub open spec fn compilable(patterns: Seq<Seq<char>>) -> bool {
    all_parse(patterns) && within_limit(patterns) && set_builds(patterns)
}

/// Whether compiling `patterns` fails with `e`.
pub open spec fn fails_with(patterns: Seq<Seq<char>>, e: MergeError) -> bool {
    compiles_to(patterns, Err(e))
}

/// The three compiled pattern sets that decide which paths are selected.
#[derive(Debug)]
pub struct GlobFilter {
    includes: GlobSet,
    excludes: GlobSet,
    builtin: GlobSet,
}

impl GlobFilter {
    /// The explicit patterns that select a path.
    pub closed spec fn include_patterns(&self) -> Seq<Seq<char>> {
        set_globs(self.includes)
    }

    /// The explicit patterns that reject a path.
    pub closed spec fn exclude_patterns(&self) -> Seq<Seq<char>> {
        set_globs(self.excludes)
    }

    /// The built-in patterns that reject a path.
    pub closed spec fn builtin_patterns(&self) -> Seq<Seq<char>> {
        set_globs(self.builtin)
    }

    /// Whether an explicit pattern to keep paths matches `path`.
    pub open spec fn includes_match(&self, path: Seq<char>) -> bool {
        set_matches(self.include_patterns(), path)
    }

    /// Whether an explicit pattern to drop paths matches `path`.
    pub open spec fn excludes_match(&self, path: Seq<char>) -> bool {
        set_matches(self.exclude_patterns(), path)
    }

    /// Whether a built-in pattern matches `path`.
    pub open spec fn builtin_match(&self, path: Seq<char>) -> bool {
        set_matches(self.builtin_patterns(), path)
    }

    /// Whether the filter selects `path`.
    pub open spec fn selects(&self, path: Seq<char>, all_files: bool) -> bool {
        decide(
            self.includes_match(path),
            self.excludes_match(path),
            self.builtin_match(path),
            all_files,
        )
    }

    /// Compiles the explicit patterns and the built-in ones, in this order,
    /// and fails as the first set that does not compile fails.
    pub fn new(includes: &Vec<String>, excludes: &Vec<String>) -> (r: Result<
        GlobFilter,
        MergeError,
    >)
        ensures
            match r {
                Ok(filter) => {
                    &&& compilable(views(includes@))
                    &&& compilable(views(excludes@))
                    &&& compilable(default_exclude_patterns())
                    &&& filter.include_patterns() == views(includes@)
                    &&& filter.exclude_patterns() == views(excludes@)
                    &&& filter.builtin_patterns() == default_exclude_patterns()
                },
                Err(e) => if !compilable(views(includes@)) {
                    fails_with(views(includes@), e)
                } else if !compilable(views(excludes@)) {
                    fails_with(views(excludes@), e)
                } else {
                    !compilable(default_exclude_patterns()) && fails_with(
                        default_exclude_patterns(),
                        e,
                    )
                },
            },
    {
        let kept: GlobSet = match compile_globs(includes) {
            Ok(set) => set,
            Err(e) => {
                return Err(e);
            },
        };
        let dropped: GlobSet = match compile_globs(excludes) {
            Ok(set) => set,
            Err(e) => {
                return Err(e);
            },
        };
        let defaults: Vec<String> = default_excludes();
        let builtin: GlobSet = match compile_globs(&defaults) {
            Ok(set) => set,
            Err(e) => {
                return Err(e);
            },
        };
        Ok(GlobFilter { includes: kept, excludes: dropped, builtin })
    }

    /// Decides whether `path` is selected.
    ///
    /// An explicit pattern to keep the path wins over every exclusion, and the
    /// built-in patterns have no say when `all_files` is set. Then, without
    /// any explicit pattern to drop paths, every path is selected.
    pub fn should_include(&self, path: &str, all_files: bool) -> (r: bool)
        ensures
            r == self.selects(path@, all_files),
            self.includes_match(path@) ==> r,
            all_files ==> r == (self.includes_match(path@) || !self.excludes_match(path@)),
            all_files && self.exclude_patterns().len() == 0 ==> r,
    {
        if set_is_match(&self.includes, path) {
            return true;
        }
        if set_is_match(&self.excludes, path) {
            return false;
        }
        if !all_files && set_is_match(&self.builtin, path) {
            return false;
        }
        true
    }
}

/// A match of an explicit pattern to keep a path selects it, whatever the
/// patterns to drop paths and the built-in patterns say.
pub proof fn lemma_include_overrides_exclude(filter: GlobFilter, path: Seq<char>, all_files: bool)
    requires
        filter.includes_match(path),
    ensures
        filter.selects(path, all_files),
{
}

/// When all files are asked for, the built-in patterns have no effect: the
/// decision is the same whether or not one of them matches.
pub proof fn lemma_all_files_disables_builtin(kept: bool, dropped: bool, builtin: bool)
    ensures
        decide(kept, dropped, builtin, true) == decide(kept, dropped, !builtin, true),
        decide(kept, dropped, builtin, true) == (kept || !dropped),
{
}

} // verus!
