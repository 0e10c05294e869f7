//! A whole merge over a tree held in memory: risk, selection, and the
//! chunks or the report of a dry run.

use vstd::prelude::*;
use crate::chunks::{
    bodies,
    chunk_views,
    contents,
    file_views,
    joined_sections,
    lemma_round_trip,
    lemma_unsplit_is_one_chunk,
    merge_files,
    merged,
    sections_of,
    Chunk,
    ChunkView,
    FileView,
    SourceText,
};
use crate::classify::{
    extension_allowed,
    has_allowed_extension,
    is_text,
    is_text_file,
    sniffs_as_text,
    SNIFF_LEN,
};
use crate::cli::Args;
use crate::error::MergeError;
use crate::globs::{
    compilable,
    decide,
    default_exclude_patterns,
    fails_with,
    set_matches,
    GlobFilter,
};
use crate::risk::{
    affirmative,
    assess,
    confirm,
    decision_of,
    lemma_empty_answer_declines,
    lemma_findings_are_exact,
    RiskDecision,
    MAX_FILE_COUNT,
};
use crate::scan::{count_files, lemma_report_of_push, report_of, RiskReport, ScanEntry};
use crate::strings::views;

verus! {

/// An entry of the tree together with its bytes. For a directory the bytes
/// are not looked at.
#[derive(Clone, Debug, PartialEq, Eq)]
pub struct TreeFile {
    pub entry: ScanEntry,
    pub content: Vec<u8>,
}

/// What a dry run reports: the files that would be merged, in order, and the
/// estimate of the size of the output.
#[derive(Clone, Debug, PartialEq, Eq)]
pub struct DryRunReport {
    pub files: Vec<String>,
    pub estimated_bytes: u64,
}

/// What a run produced.
#[derive(Clone, Debug, PartialEq, Eq)]
pub enum Outcome {
    /// Nothing was merged; this is what would be.
    DryRun(DryRunReport),
    /// The chunks, in the order of their indices.
    Merged(Vec<Chunk>),
}

/// A run that did not fail: what was decided about the risks, and what was
/// produced. A decision to warn is for the caller to act on.
#[derive(Clone, Debug, PartialEq, Eq)]
pub struct Run {
    pub risk: RiskDecision,
    pub outcome: Outcome,
}

/// The rules by which files are selected.
pub struct Rules {
    pub includes: Seq<Seq<char>>,
    pub excludes: Seq<Seq<char>>,
    pub builtin: Seq<Seq<char>>,
    pub all_files: bool,
    pub allowed: Seq<Seq<char>>,
}

/// The rules that a configuration asks for.
pub open spec fn rules_of(args: Args) -> Rules {
    Rules {
        includes: views(args.includes@),
        excludes: views(args.exclude@),
        builtin: default_exclude_patterns(),
        all_files: args.all_files,
        allowed: views(args.ext@),
    }
}

/// The rules that a compiled filter applies.
pub open spec fn rules_with(filter: GlobFilter, all_files: bool, allowed: Seq<Seq<char>>) -> Rules {
    Rules {
        includes: filter.include_patterns(),
        excludes: filter.exclude_patterns(),
        builtin: filter.builtin_patterns(),
        all_files,
        allowed,
    }
}

/// The bytes of a file that are sniffed: the first `SNIFF_LEN`, or all of
/// them if there are fewer.
pub open spec fn sniffed_part(content: Seq<u8>) -> Seq<u8> {
    if content.len() > SNIFF_LEN {
        content.take(SNIFF_LEN as int)
    } else {
        content
    }
}

/// Whether the patterns of `rules` select `path`.
pub open spec fn path_selected(rules: Rules, path: Seq<char>) -> bool {
    decide(
        set_matches(rules.includes, path),
        set_matches(rules.excludes, path),
        set_matches(rules.builtin, path),
        rules.all_files,
    )
}

/// Whether an entry is merged: it is a file, the patterns select its path,
/// and it is text.
pub open spec fn is_selected(rules: Rules, file: TreeFile) -> bool {
    &&& file.entry.is_file
    &&& path_selected(rules, file.entry.path@)
    &&& is_text(file.entry.path@, rules.allowed, sniffed_part(file.content@))
}

/// What is known of an entry before any of its bytes are read.
#[derive(Copy, Clone, Debug, PartialEq, Eq, Structural)]
pub enum Preselection {
    /// The entry is not merged, whatever it holds.
    Rejected,
    /// The entry is merged, whatever it holds.
    Selected,
    /// The first bytes of the file decide.
    Sniff,
}

/// What the rules say of an entry without its bytes. With a non-empty
/// allowlist of extensions the answer is never `Sniff`.
pub open spec fn preselection(rules: Rules, entry: ScanEntry) -> Preselection {
    if !entry.is_file || !path_selected(rules, entry.path@) {
        Preselection::Rejected
    } else if rules.allowed.len() > 0 {
        if extension_allowed(entry.path@, rules.allowed) {
            Preselection::Selected
        } else {
            Preselection::Rejected
        }
    } else {
        Preselection::Sniff
    }
}

/// The entries of `tree` that are merged, in their order.
pub open spec fn selected(rules: Rules, tree: Seq<TreeFile>) -> Seq<TreeFile>
    decreases tree.len(),
{
    if tree.len() == 0 {
        Seq::empty()
    } else {
        let before = selected(rules, tree.drop_last());
        if is_selected(rules, tree.last()) {
            before.push(tree.last())
        } else {
            before
        }
    }
}

/// The entries of a list of files.
pub open spec fn entries_of(files: Seq<TreeFile>) -> Seq<ScanEntry> {
    Seq::new(files.len(), |i: int| files[i].entry)
}

/// The paths and bytes of a list of files.
pub open spec fn texts_of(files: Seq<TreeFile>) -> Seq<FileView> {
    Seq::new(files.len(), |i: int| FileView { path: files[i].entry.path@, content: files[i].content@ })
}

/// The paths of a list of files.
pub open spec fn paths_of(files: Seq<TreeFile>) -> Seq<Seq<char>> {
    Seq::new(files.len(), |i: int| files[i].entry.path@)
}

/// Whether the three pattern sets of a configuration compile.
pub open spec fn patterns_compile(args: Args) -> bool {
    &&& compilable(views(args.includes@))
    &&& compilable(views(args.exclude@))
    &&& compilable(default_exclude_patterns())
}

/// Whether `e` is the failure of the first pattern set of a configuration
/// that does not compile.
pub open spec fn pattern_failure(args: Args, e: MergeError) -> bool {
    if !compilable(views(args.includes@)) {
        fails_with(views(args.includes@), e)
    } else if !compilable(views(args.exclude@)) {
        fails_with(views(args.exclude@), e)
    } else {
        !compilable(default_exclude_patterns()) && fails_with(default_exclude_patterns(), e)
    }
}

/// What is decided about the risks of a tree.
pub open spec fn risk_of(args: Args, tree: Seq<TreeFile>) -> RiskDecision {
    decision_of(report_of(entries_of(tree)), args.no_confirm, args.dry_run)
}

/// Whether the user stops the run: a question is asked and the answer does
/// not agree.
pub open spec fn declined(args: Args, tree: Seq<TreeFile>, answer: Seq<char>) -> bool {
    risk_of(args, tree) is Confirm && !affirmative(answer)
}

/// Whether `done` is what a run that does not fail produces.
pub open spec fn produces(args: Args, tree: Seq<TreeFile>, done: Run) -> bool {
    let chosen = selected(rules_of(args), tree);
    &&& done.risk == risk_of(args, tree)
    &&& if args.dry_run {
        &&& done.outcome matches Outcome::DryRun(report)
        &&& views(report.files@) == paths_of(chosen)
        &&& report.estimated_bytes == report_of(entries_of(chosen)).estimated_output_bytes
    } else {
        &&& done.outcome matches Outcome::Merged(chunks)
        &&& chunk_views(chunks@) == merged(
            texts_of(chosen),
            args.output_name(),
            args.header_style,
            args.split_every,
        )
    }
}

/// What was selected from a tree: the files, and the report on their entries.
pub struct Selection {
    pub texts: Vec<SourceText>,
    pub report: RiskReport,
}

/// The first bytes of `content`, as far as they are sniffed.
fn sniff_slice(content: &Vec<u8>) -> (prefix: &[u8])
    ensures
        prefix@ == sniffed_part(content@),
{
    if content.len() > SNIFF_LEN {
        vstd::slice::slice_subrange(content.as_slice(), 0, SNIFF_LEN)
    } else {
        content.as_slice()
    }
}

/// Decides about an entry as far as that is possible without its bytes.
pub fn preselect(
    filter: &GlobFilter,
    all_files: bool,
    allowed_exts: &Vec<String>,
    entry: &ScanEntry,
) -> (p: Preselection)
    ensures
        p == preselection(rules_with(*filter, all_files, views(allowed_exts@)), *entry),
{
    let path: &str = entry.path.as_str();
    if !entry.is_file || !filter.should_include(path, all_files) {
        Preselection::Rejected
    } else if allowed_exts.len() > 0 {
        if has_allowed_extension(path, allowed_exts) {
            Preselection::Selected
        } else {
            Preselection::Rejected
        }
    } else {
        Preselection::Sniff
    }
}

/// An entry is merged exactly if it is selected without its bytes, or its
/// bytes are asked for and mark it as text.
pub proof fn lemma_preselection_decides(rules: Rules, file: TreeFile)
    ensures
        is_selected(rules, file) == match preselection(rules, file.entry) {
            Preselection::Rejected => false,
            Preselection::Selected => true,
            Preselection::Sniff => sniffs_as_text(sniffed_part(file.content@)),
        },
{
}

/// Selects the files of `tree` that are merged, in the order of the tree.
pub fn select_files(
    filter: &GlobFilter,
    all_files: bool,
    allowed_exts: &Vec<String>,
    tree: &Vec<TreeFile>,
) -> (picked: Selection)
    ensures
        file_views(picked.texts@) == texts_of(
            selected(rules_with(*filter, all_files, views(allowed_exts@)), tree@),
        ),
        picked.report == report_of(
            entries_of(selected(rules_with(*filter, all_files, views(allowed_exts@)), tree@)),
        ),
{
    let ghost rules = rules_with(*filter, all_files, views(allowed_exts@));
    let mut texts: Vec<SourceText> = Vec::new();
    let mut report: RiskReport = RiskReport::empty();
    let mut i: usize = 0;
    while i < tree.len()
        invariant
            i <= tree.len(),
            rules == rules_with(*filter, all_files, views(allowed_exts@)),
            file_views(texts@) == texts_of(selected(rules, tree@.take(i as int))),
            report == report_of(entries_of(selected(rules, tree@.take(i as int)))),
        decreases tree.len() - i,
    {
        let ghost before = selected(rules, tree@.take(i as int));
        let ghost old_texts = texts@;
        assert(tree@.take(i + 1).drop_last() =~= tree@.take(i as int));
        let file: &TreeFile = &tree[i];
        let wanted: bool = match preselect(filter, all_files, allowed_exts, &file.entry) {
            Preselection::Rejected => false,
            Preselection::Selected => true,
            Preselection::Sniff => is_text_file(
                file.entry.path.as_str(),
                allowed_exts,
                sniff_slice(&file.content),
            ),
        };
        if wanted {
            let mut content: Vec<u8> = Vec::new();
            content.extend_from_slice(file.content.as_slice());
            assert(content@ =~= file.content@);
            texts.push(SourceText { path: file.entry.path.clone(), content });
            proof {
                lemma_report_of_push(entries_of(before), file.entry);
                assert(entries_of(before).push(file.entry) =~= entries_of(before.push(*file)));
                assert(file_views(old_texts).len() == old_texts.len());
                assert forall|j: int| 0 <= j < texts@.len() implies file_views(texts@)[j]
                    == texts_of(before.push(*file))[j] by {
                    if j < old_texts.len() {
                        assert(file_views(old_texts)[j] == texts_of(before)[j]);
                    }
                }
            }
            report.record(&file.entry);
        }
        i += 1;
    }
    assert(tree@.take(i as int) =~= tree@);
    Selection { texts, report }
}

/// A run whose patterns are compiled. Nothing of the tree has been looked
/// at yet. Each stage of a run is reached from the stage before it alone, so
/// that the steps of a run are taken in their order.
pub struct Compiled<'a> {
    args: &'a Args,
    filter: GlobFilter,
}

/// A run whose tree has been held against the risk thresholds.
pub struct Assessed<'a> {
    args: &'a Args,
    filter: GlobFilter,
    risk: RiskDecision,
}

/// A run that may go on: no question was due, or the user agreed.
pub struct Cleared<'a> {
    args: &'a Args,
    filter: GlobFilter,
    risk: RiskDecision,
}

impl<'a> Compiled<'a> {
    /// The configuration of the run.
    pub closed spec fn args(&self) -> Args {
        *self.args
    }

    /// The compiled patterns.
    pub closed spec fn filter(&self) -> GlobFilter {
        self.filter
    }

    /// The first step: compiles the patterns of the configuration.
    pub fn new(args: &'a Args) -> (r: Result<Compiled<'a>, MergeError>)
        ensures
            match r {
                Ok(run) => {
                    &&& patterns_compile(*args)
                    &&& run.args() == *args
                    &&& rules_with(run.filter(), args.all_files, views(args.ext@)) == rules_of(
                        *args,
                    )
                },
                Err(e) => !patterns_compile(*args) && pattern_failure(*args, e),
            },
    {
        match GlobFilter::new(&args.includes, &args.exclude) {
            Ok(filter) => Ok(Compiled { args, filter }),
            Err(e) => Err(e),
        }
    }

    /// The second step, once the tree is walked: holds the report on it
    /// against the thresholds.
    pub fn assess(self, report: &RiskReport) -> (next: Assessed<'a>)
        ensures
            next.args() == self.args(),
            next.filter() == self.filter(),
            next.risk() == decision_of(*report, self.args().no_confirm, self.args().dry_run),
    {
        let risk: RiskDecision = assess(report, self.args.no_confirm, self.args.dry_run);
        Assessed { args: self.args, filter: self.filter, risk }
    }
}

impl<'a> Assessed<'a> {
    /// The configuration of the run.
    pub closed spec fn args(&self) -> Args {
        *self.args
    }

    /// The compiled patterns.
    pub closed spec fn filter(&self) -> GlobFilter {
        self.filter
    }

    /// What was decided about the risks.
    pub closed spec fn risk(&self) -> RiskDecision {
        self.risk
    }

    /// What was decided about the risks: whether to warn, and whether to ask.
    pub fn decision(&self) -> (risk: RiskDecision)
        ensures
            risk == self.risk(),
    {
        self.risk
    }

    /// The third step: settles the decision with the answer of the user,
    /// which is looked at only where a question was due.
    pub fn confirm(self, answer: &str) -> (r: Result<Cleared<'a>, MergeError>)
        ensures
            match r {
                Ok(next) => {
                    &&& self.risk() is Confirm ==> affirmative(answer@)
                    &&& next.args() == self.args()
                    &&& next.filter() == self.filter()
                    &&& next.risk() == self.risk()
                },
                Err(e) => self.risk() is Confirm && !affirmative(answer@) && e
                    == MergeError::AbortedByUser,
            },
    {
        match confirm(self.risk, answer) {
            Ok(()) => Ok(Cleared { args: self.args, filter: self.filter, risk: self.risk }),
            Err(e) => Err(e),
        }
    }
}

impl<'a> Cleared<'a> {
    /// The configuration of the run.
    pub closed spec fn args(&self) -> Args {
        *self.args
    }

    /// The compiled patterns.
    pub closed spec fn filter(&self) -> GlobFilter {
        self.filter
    }

    /// What was decided about the risks.
    pub closed spec fn risk(&self) -> RiskDecision {
        self.risk
    }

    /// The rules by which this run selects.
    pub open spec fn rules(&self) -> Rules {
        rules_with(self.filter(), self.args().all_files, views(self.args().ext@))
    }

    /// What was decided about the risks.
    pub fn decision(&self) -> (risk: RiskDecision)
        ensures
            risk == self.risk(),
    {
        self.risk
    }

    /// The fourth step, for each entry: decides about it as far as that is
    /// possible without its bytes.
    pub fn preselect(&self, entry: &ScanEntry) -> (p: Preselection)
        ensures
            p == preselection(self.rules(), *entry),
    {
        preselect(&self.filter, self.args.all_files, &self.args.ext, entry)
    }

    /// The fourth step, for an entry whose first bytes decide: whether they
    /// mark it as text.
    pub fn sniff(&self, entry: &ScanEntry, prefix: &[u8]) -> (r: bool)
        ensures
            self.args().ext@.len() == 0 ==> r == sniffs_as_text(prefix@),
            r == is_text(entry.path@, views(self.args().ext@), prefix@),
    {
        is_text_file(entry.path.as_str(), &self.args.ext, prefix)
    }

    /// The fourth step for a tree held in memory: selects its files.
    pub fn select(&self, tree: &Vec<TreeFile>) -> (picked: Selection)
        ensures
            file_views(picked.texts@) == texts_of(selected(self.rules(), tree@)),
            picked.report == report_of(entries_of(selected(self.rules(), tree@))),
    {
        select_files(&self.filter, self.args.all_files, &self.args.ext, tree)
    }

    /// The fifth step: a run of which no file is selected ends here, with
    /// `NoMatch`. Any other goes on to report or to merge its files.
    pub fn finish(self, selected: usize) -> (r: Result<RiskDecision, MergeError>)
        ensures
            match r {
                Ok(risk) => selected > 0 && risk == self.risk(),
                Err(e) => selected == 0 && e == MergeError::NoMatch,
            },
    {
        if selected == 0 {
            Err(MergeError::NoMatch)
        } else {
            Ok(self.risk)
        }
    }
}

/// The report on the entries of `tree`.
pub fn survey(tree: &Vec<TreeFile>) -> (report: RiskReport)
    ensures
        report == report_of(entries_of(tree@)),
{
    let mut report: RiskReport = RiskReport::empty();
    let mut i: usize = 0;
    while i < tree.len()
        invariant
            i <= tree.len(),
            report == report_of(entries_of(tree@.take(i as int))),
        decreases tree.len() - i,
    {
        proof {
            lemma_report_of_push(entries_of(tree@.take(i as int)), tree@[i as int].entry);
            assert(entries_of(tree@.take(i as int)).push(tree@[i as int].entry) =~= entries_of(
                tree@.take(i + 1),
            ));
        }
        report.record(&tree[i].entry);
        i += 1;
    }
    assert(tree@.take(i as int) =~= tree@);
    report
}

/// The paths of the selected files.
fn paths_list(texts: &Vec<SourceText>) -> (list: Vec<String>)
    ensures
        views(list@) == Seq::new(texts@.len(), |i: int| texts@[i].path@),
{
    let mut list: Vec<String> = Vec::new();
    let mut i: usize = 0;
    while i < texts.len()
        invariant
            i <= texts.len(),
            list@.len() == i,
            forall|j: int| 0 <= j < i ==> (#[trigger] list@[j])@ == texts@[j].path@,
        decreases texts.len() - i,
    {
        list.push(texts[i].path.clone());
        i += 1;
    }
    list
}

/// Runs a merge over a tree held in memory.
///
/// `tree` holds the entries of the walk, in its order, each with its bytes,
/// and `answer` is what the user replies if asked to confirm. The steps, each
/// of which may end the run: the patterns are compiled; the tree is held
/// against the risk thresholds and, where one is exceeded and a question is
/// due, the answer must agree; the files are selected, and there must be one
/// at least. Then a dry run reports them, and any other run merges them.
///
/// So a run succeeds exactly if the patterns compile, the user does not
/// decline and a file is selected. A merge without a limit is one chunk,
/// named as the output, that holds every selected file behind its header.
/// The chunks of any merge, taken without the headers, are the selected
/// files byte for byte. And once the patterns compile, a tree of too many
/// files is not merged on an empty answer, as at the end of the input,
/// where a question is due.
pub fn run(args: &Args, tree: &Vec<TreeFile>, answer: &str) -> (r: Result<Run, MergeError>)
    ensures
        match r {
            Ok(done) => {
                &&& patterns_compile(*args)
                &&& !declined(*args, tree@, answer@)
                &&& selected(rules_of(*args), tree@).len() > 0
                &&& produces(*args, tree@, done)
            },
            Err(e) => if !patterns_compile(*args) {
                pattern_failure(*args, e)
            } else if declined(*args, tree@, answer@) {
                e == MergeError::AbortedByUser
            } else {
                selected(rules_of(*args), tree@).len() == 0 && e == MergeError::NoMatch
            },
        },
        r is Ok <==> patterns_compile(*args) && !declined(*args, tree@, answer@) && selected(
            rules_of(*args),
            tree@,
        ).len() > 0,
        !args.dry_run && args.split_every is None ==> (r matches Ok(done) ==> {
            &&& done.outcome matches Outcome::Merged(chunks)
            &&& chunk_views(chunks@) == seq![
                ChunkView {
                    name: args.output_name(),
                    sections: sections_of(
                        texts_of(selected(rules_of(*args), tree@)),
                        args.header_style,
                    ),
                },
            ]
        }),
        !args.dry_run ==> (r matches Ok(done) ==> {
            &&& done.outcome matches Outcome::Merged(chunks)
            &&& bodies(joined_sections(chunk_views(chunks@))) == contents(
                texts_of(selected(rules_of(*args), tree@)),
            )
        }),
        patterns_compile(*args) && count_files(entries_of(tree@)) > MAX_FILE_COUNT
            && !args.no_confirm && !args.dry_run && answer@.len() == 0 ==> r == Err::<
            Run,
            MergeError,
        >(MergeError::AbortedByUser),
{
    proof {
        lemma_findings_are_exact(entries_of(tree@));
        lemma_empty_answer_declines();
    }
    let compiled: Compiled = match Compiled::new(args) {
        Ok(compiled) => compiled,
        Err(e) => {
            return Err(e);
        },
    };
    let report: RiskReport = survey(tree);
    let cleared: Cleared = match compiled.assess(&report).confirm(answer) {
        Ok(cleared) => cleared,
        Err(e) => {
            return Err(e);
        },
    };
    let picked: Selection = cleared.select(tree);
    let ghost chosen = selected(rules_of(*args), tree@);
    assert(picked.texts@.len() == file_views(picked.texts@).len());
    let risk: RiskDecision = match cleared.finish(picked.texts.len()) {
        Ok(risk) => risk,
        Err(e) => {
            return Err(e);
        },
    };
    let output_base: String = args.output_base();
    if args.dry_run {
        let files: Vec<String> = paths_list(&picked.texts);
        proof {
            assert forall|i: int| 0 <= i < chosen.len() implies picked.texts@[i].path@
                == chosen[i].entry.path@ by {
                assert(file_views(picked.texts@)[i] == texts_of(chosen)[i]);
            }
            assert(views(files@) =~= paths_of(chosen));
        }
        let report: DryRunReport = DryRunReport {
            files,
            estimated_bytes: picked.report.estimated_output_bytes,
        };
        Ok(Run { risk, outcome: Outcome::DryRun(report) })
    } else {
        let chunks: Vec<Chunk> = merge_files(
            &picked.texts,
            output_base.as_str(),
            args.header_style,
            args.split_every,
        );
        proof {
            lemma_round_trip(
                texts_of(chosen),
                args.output_name(),
                args.header_style,
                args.split_every,
            );
            lemma_unsplit_is_one_chunk(texts_of(chosen), args.output_name(), args.header_style);
        }
        Ok(Run { risk, outcome: Outcome::Merged(chunks) })
    }
}

} // verus!
