//! The aggregator: the final allow test on a file that the pipeline admitted, and the buffer
//! and counter that collect what was selected.

use vstd::prelude::*;
use vstd::string::StringExecFns;
use crate::filter::{
    admitted, binary_content, binary_extension, decision, has_binary_content,
    has_binary_extension, passes_path_rules, passes_scope_rules, path_stages, scope_stages,
    should_process_path, MatchFacts, MatchFactsView, ScanEntry, ScanEntryView,
};
use crate::options::{Args, ArgsView, ConfigError};
use crate::paths::{extension, extension_of, file_name, file_name_of};
use crate::profiles::{dotted_all, normalize_extensions};
use crate::text::{
    contains_text, dedup, dedup_texts, joined, lemma_dedup_contains, opt_text, or_empty,
};

verus! {

/// What a file may be selected by: an extension, a file name, or any include glob at all.
#[derive(Debug)]
pub struct AllowRules {
    /// The allowed extensions, each with its leading dot and each once.
    pub extensions: Vec<String>,
    /// The allowed file names, each once.
    pub filenames: Vec<String>,
    /// Whether include globs are set. They have scoped the selection already, so with them
    /// every admitted file is allowed.
    pub any_glob: bool,
}

/// What [`AllowRules`] holds, with every string as its characters.
pub struct AllowRulesView {
    pub extensions: Seq<Seq<char>>,
    pub filenames: Seq<Seq<char>>,
    pub any_glob: bool,
}

impl View for AllowRules {
    type V = AllowRulesView;

    open spec fn view(&self) -> AllowRulesView {
        AllowRulesView {
            extensions: self.extensions.deep_view(),
            filenames: self.filenames.deep_view(),
            any_glob: self.any_glob,
        }
    }
}

/// The allow rules that the options give.
pub open spec fn allow_rules(args: ArgsView) -> AllowRulesView {
    AllowRulesView {
        extensions: dedup(dotted_all(or_empty(args.extensions))),
        filenames: dedup(or_empty(args.allowed_filenames)),
        any_glob: args.include_globs is Some,
    }
}

/// Whether the options allow nothing: no extension, no file name and no include globs.
pub open spec fn nothing_allowed(args: ArgsView) -> bool {
    &&& or_empty(args.extensions).len() == 0
    &&& or_empty(args.allowed_filenames).len() == 0
    &&& args.include_globs is None
}

/// Whether the rules allow a file with this name and this extension. The extension is given
/// without its dot; a file without extension has the empty one.
pub open spec fn allowed(rules: AllowRulesView, name: Seq<char>, ext: Seq<char>) -> bool {
    rules.extensions.contains(seq!['.'] + ext) || rules.filenames.contains(name)
        || rules.any_glob
}

/// The extension of a path's file name, or the empty text where it has none.
pub open spec fn extension_or_empty(path: Seq<char>, separator: char) -> Seq<char> {
    match extension_of(file_name_of(path, separator)) {
        Some(e) => e,
        None => Seq::empty(),
    }
}

/// Whether the rules allow the file at `path`.
pub open spec fn path_allowed(rules: AllowRulesView, path: Seq<char>, separator: char) -> bool {
    allowed(rules, file_name_of(path, separator), extension_or_empty(path, separator))
}

/// What became of a file.
#[derive(Debug, Clone, Copy, PartialEq, Eq, Structural)]
pub enum FileOutcome {
    /// The rules do not allow the file.
    NotAllowed,
    /// A dry run: the file was counted.
    Counted,
    /// The file is larger than the limit.
    TooLarge,
    /// The file could not be read as text.
    Unreadable,
    /// The file's content was added to the bundle, and the file counted.
    Added,
}

/// A file with what a run needs to know of it.
#[derive(Debug)]
pub struct SourceFile {
    pub entry: ScanEntry,
    /// The size of the file in bytes.
    pub size: u64,
    /// The first bytes of the file, at least as many as are looked at to tell binary content;
    /// empty where the file could not be opened.
    pub head: Vec<u8>,
    /// The content as text, or `None` where the file could not be read as text.
    pub content: Option<String>,
}

/// What a [`SourceFile`] holds, with every string as its characters.
pub struct SourceFileView {
    pub entry: ScanEntryView,
    pub size: u64,
    pub head: Seq<u8>,
    pub content: Option<Seq<char>>,
}

impl View for SourceFile {
    type V = SourceFileView;

    open spec fn view(&self) -> SourceFileView {
        SourceFileView {
            entry: self.entry@,
            size: self.size,
            head: self.head@,
            content: opt_text(self.content),
        }
    }
}

/// What becomes of an admitted file.
pub open spec fn outcome_for(
    file: SourceFileView,
    rules: AllowRulesView,
    args: ArgsView,
    separator: char,
) -> FileOutcome {
    if !path_allowed(rules, file.entry.path, separator) {
        FileOutcome::NotAllowed
    } else if args.dry_run {
        FileOutcome::Counted
    } else if file.size > args.max_size {
        FileOutcome::TooLarge
    } else if file.content is None {
        FileOutcome::Unreadable
    } else {
        FileOutcome::Added
    }
}

/// What has been read of a file so far. `None` is what was not asked for yet.
#[derive(Debug)]
pub struct FileKnown {
    /// The first bytes of the file; empty where the file could not be opened.
    pub head: Option<Vec<u8>>,
    /// The size of the file in bytes; the inner `None` where it could not be had.
    pub size: Option<Option<u64>>,
    /// The content as text; the inner `None` where the file could not be read as text.
    pub content: Option<Option<String>>,
}

/// What [`FileKnown`] holds, with every string as its characters.
pub struct FileKnownView {
    pub head: Option<Seq<u8>>,
    pub size: Option<Option<u64>>,
    pub content: Option<Option<Seq<char>>>,
}

impl View for FileKnown {
    type V = FileKnownView;

    open spec fn view(&self) -> FileKnownView {
        FileKnownView {
            head: match self.head {
                Some(h) => Some(h@),
                None => None,
            },
            size: self.size,
            content: match self.content {
                Some(c) => Some(opt_text(c)),
                None => None,
            },
        }
    }
}

/// Where the handling of one entry stands: what has to be read next, or what became of the
/// entry.
#[derive(Debug, Clone, Copy, PartialEq, Eq, Structural)]
pub enum EntryStep {
    /// The first bytes of the file are needed.
    NeedHead,
    /// The size of the file is needed.
    NeedSize,
    /// The content of the file is needed.
    NeedContent,
    /// The pipeline rejects the entry.
    Rejected,
    /// The pipeline admits the entry, and the rules do not allow it.
    NotAllowed,
    /// A dry run: the file is to be counted.
    Count,
    /// The file is larger than the limit.
    TooLarge,
    /// The size or the content of the file could not be read.
    Unreadable,
    /// The file is to be added to the bundle and counted.
    Add,
}

/// The step for an entry, given what is known of it. The file is read as late as can be: its
/// first bytes only once every stage that goes by the path has passed, its size only once it
/// is admitted and allowed in a run that is not dry, its content only once its size is
/// within the limit.
pub open spec fn step_for(
    entry: ScanEntryView,
    args: ArgsView,
    rules: AllowRulesView,
    facts: MatchFactsView,
    known: FileKnownView,
    separator: char,
) -> EntryStep {
    if !path_stages(entry, args, facts, separator) || binary_extension(facts.lower_extension)
        || !scope_stages(entry, args, facts, separator) {
        EntryStep::Rejected
    } else {
        match known.head {
            None => EntryStep::NeedHead,
            Some(head) => if binary_content(head) {
                EntryStep::Rejected
            } else if !path_allowed(rules, entry.path, separator) {
                EntryStep::NotAllowed
            } else if args.dry_run {
                EntryStep::Count
            } else {
                match known.size {
                    None => EntryStep::NeedSize,
                    Some(None) => EntryStep::Unreadable,
                    Some(Some(size)) => if size > args.max_size {
                        EntryStep::TooLarge
                    } else {
                        match known.content {
                            None => EntryStep::NeedContent,
                            Some(None) => EntryStep::Unreadable,
                            Some(Some(_)) => EntryStep::Add,
                        }
                    },
                }
            },
        }
    }
}

/// The aggregator after a step was taken: a file to count is counted, a file to add is
/// added and counted, and any other step changes nothing.
pub open spec fn after_step(
    before: AggregatorView,
    step: EntryStep,
    entry: ScanEntryView,
    known: FileKnownView,
    args: ArgsView,
    separator: char,
) -> AggregatorView {
    match step {
        EntryStep::Count => AggregatorView {
            content: before.content,
            file_count: before.file_count + 1,
        },
        EntryStep::Add => match known.content {
            Some(Some(text)) => AggregatorView {
                content: before.content + block(
                    entry.path,
                    extension_or_empty(entry.path, separator),
                    text,
                    args.markdown > 0,
                ),
                file_count: before.file_count + 1,
            },
            _ => before,
        },
        _ => before,
    }
}

/// The block that a file adds to the bundle: a header that names the file, then its content;
/// with markdown, between fences that name the extension.
pub open spec fn block(path: Seq<char>, ext: Seq<char>, content: Seq<char>, markdown: bool) -> Seq<
    char,
> {
    if markdown {
        "\n\n```"@ + ext + "\n# --- File: "@ + path + " ---\n"@ + content + "\n```\n"@
    } else {
        "\n\n# --- File: "@ + path + " ---\n\n"@ + content
    }
}

/// The bundle and the count of files, in contracts.
pub struct AggregatorView {
    pub content: Seq<char>,
    pub file_count: nat,
}

/// Collects the content of the selected files, and counts them.
#[derive(Debug)]
pub struct Aggregator {
    content: String,
    file_count: usize,
}

impl View for Aggregator {
    type V = AggregatorView;

    closed spec fn view(&self) -> AggregatorView {
        AggregatorView { content: self.content@, file_count: self.file_count as nat }
    }
}

/// The aggregator after one admitted file.
pub open spec fn after_file(
    before: AggregatorView,
    file: SourceFileView,
    rules: AllowRulesView,
    args: ArgsView,
    separator: char,
) -> AggregatorView {
    match outcome_for(file, rules, args, separator) {
        FileOutcome::Counted => AggregatorView {
            content: before.content,
            file_count: before.file_count + 1,
        },
        FileOutcome::Added => AggregatorView {
            content: before.content + block(
                file.entry.path,
                extension_or_empty(file.entry.path, separator),
                file.content->0,
                args.markdown > 0,
            ),
            file_count: before.file_count + 1,
        },
        _ => before,
    }
}

/// Whether a file is selected: the pipeline admits it, and it is counted.
pub open spec fn selected(
    file: SourceFileView,
    rules: AllowRulesView,
    args: ArgsView,
    patterns: Seq<Seq<char>>,
    separator: char,
) -> bool {
    &&& admitted(file.entry, args, patterns, file.head, separator)
    &&& (outcome_for(file, rules, args, separator) == FileOutcome::Counted || outcome_for(
        file,
        rules,
        args,
        separator,
    ) == FileOutcome::Added)
}

/// The aggregator after a walk: the files taken in the order of the walk.
pub open spec fn after_walk(
    before: AggregatorView,
    files: Seq<SourceFileView>,
    rules: AllowRulesView,
    args: ArgsView,
    patterns: Seq<Seq<char>>,
    separator: char,
) -> AggregatorView
    decreases files.len(),
{
    if files.len() == 0 {
        before
    } else {
        let sofar = after_walk(before, files.drop_last(), rules, args, patterns, separator);
        let file = files.last();
        if admitted(file.entry, args, patterns, file.head, separator) {
            after_file(sofar, file, rules, args, separator)
        } else {
            sofar
        }
    }
}

/// The number of selected files among `files`.
pub open spec fn selected_count(
    files: Seq<SourceFileView>,
    rules: AllowRulesView,
    args: ArgsView,
    patterns: Seq<Seq<char>>,
    separator: char,
) -> nat
    decreases files.len(),
{
    if files.len() == 0 {
        0
    } else {
        selected_count(files.drop_last(), rules, args, patterns, separator) + if selected(
            files.last(),
            rules,
            args,
            patterns,
            separator,
        ) {
            1nat
        } else {
            0nat
        }
    }
}

/// The paths of the selected files among `files`.
pub open spec fn selected_paths(
    files: Seq<SourceFileView>,
    rules: AllowRulesView,
    args: ArgsView,
    patterns: Seq<Seq<char>>,
    separator: char,
) -> Set<Seq<char>> {
    Set::new(
        |path: Seq<char>|
            exists|i: int|
                0 <= i < files.len() && (#[trigger] files[i]).entry.path == path && selected(
                    files[i],
                    rules,
                    args,
                    patterns,
                    separator,
                ),
    )
}

impl AllowRules {
    /// The allow rules of a run, from its options. Extensions are put in their leading-dot
    /// form. Options that allow no extension and no file name and set no include globs are
    /// refused: nothing could be selected.
    pub fn from_args(args: &Args) -> (r: Result<AllowRules, ConfigError>)
        ensures
            match r {
                Ok(rules) => rules@ == allow_rules(args@) && !nothing_allowed(args@),
                Err(e) => e is NothingAllowed && nothing_allowed(args@),
            },
    {
        let extensions = match &args.extensions {
            Some(list) => dedup_texts(&normalize_extensions(list)),
            None => Vec::new(),
        };
        let filenames = match &args.allowed_filenames {
            Some(list) => dedup_texts(list),
            None => Vec::new(),
        };
        proof {
            let none = Seq::<Seq<char>>::empty();
            assert(dedup(none) =~= none);
            assert(dotted_all(none) =~= none);
            if args.extensions is None {
                assert(extensions.deep_view() =~= none);
            }
            if args.allowed_filenames is None {
                assert(filenames.deep_view() =~= none);
            }
            lemma_dedup_empty(dotted_all(or_empty(args@.extensions)));
            lemma_dedup_empty(or_empty(args@.allowed_filenames));
        }
        if extensions.len() == 0 && filenames.len() == 0 && args.include_globs.is_none() {
            return Err(ConfigError::NothingAllowed);
        }
        Ok(AllowRules { extensions, filenames, any_glob: args.include_globs.is_some() })
    }

    /// Whether the rules allow a file with this name and this extension, the extension given
    /// without its dot.
    pub fn allows(&self, name: &str, ext: &str) -> (r: bool)
        ensures
            r == allowed(self@, name@, ext@),
    {
        proof {
            reveal_strlit(".");
            assert("."@ =~= seq!['.']);
        }
        let with_dot = joined(".", ext);
        contains_text(&self.extensions, with_dot.as_str()) || contains_text(&self.filenames, name)
            || self.any_glob
    }

    /// Whether the rules allow the file at `path`.
    pub fn allows_path(&self, path: &str, separator: char) -> (r: bool)
        ensures
            r == path_allowed(self@, path@, separator),
    {
        let name = file_name(path, separator);
        let ext = match extension(name.as_str()) {
            Some(e) => e,
            None => String::new(),
        };
        self.allows(name.as_str(), ext.as_str())
    }
}

/// `dedup` leaves a list empty exactly when it was empty.
pub proof fn lemma_dedup_empty(s: Seq<Seq<char>>)
    ensures
        dedup(s).len() == 0 <==> s.len() == 0,
{
    if s.len() > 0 {
        lemma_dedup_contains(s, s[0]);
        assert(s.contains(s[0]));
    }
}

/// The step for an entry, given what the matchers answered for it and what is known of the
/// file: what has to be read next, or what becomes of the entry.
pub fn entry_step(
    entry: &ScanEntry,
    args: &Args,
    rules: &AllowRules,
    facts: &MatchFacts,
    known: &FileKnown,
    separator: char,
) -> (step: EntryStep)
    ensures
        step == step_for(entry@, args@, rules@, facts@, known@, separator),
{
    if !passes_path_rules(entry, args, facts, separator) {
        return EntryStep::Rejected;
    }
    if has_binary_extension(&facts.lower_extension) {
        return EntryStep::Rejected;
    }
    if !passes_scope_rules(entry, args, facts, separator) {
        return EntryStep::Rejected;
    }
    let head = match &known.head {
        None => {
            return EntryStep::NeedHead;
        },
        Some(head) => head,
    };
    if has_binary_content(head.as_slice()) {
        return EntryStep::Rejected;
    }
    if !rules.allows_path(entry.path.as_str(), separator) {
        return EntryStep::NotAllowed;
    }
    if args.dry_run {
        return EntryStep::Count;
    }
    match known.size {
        None => EntryStep::NeedSize,
        Some(None) => EntryStep::Unreadable,
        Some(Some(size)) => {
            if size > args.max_size {
                EntryStep::TooLarge
            } else {
                match &known.content {
                    None => EntryStep::NeedContent,
                    Some(None) => EntryStep::Unreadable,
                    Some(Some(_)) => EntryStep::Add,
                }
            }
        },
    }
}

/// Reading a file late changes nothing: once the first bytes, the size and the content of a
/// file are known, the step for it is what the pipeline and the aggregator make of the file
/// as a whole.
pub proof fn law_steps_agree_with_pipeline(
    file: SourceFileView,
    args: ArgsView,
    rules: AllowRulesView,
    facts: MatchFactsView,
    separator: char,
)
    ensures
        ({
            let known = FileKnownView {
                head: Some(file.head),
                size: Some(Some(file.size)),
                content: Some(file.content),
            };
            let step = step_for(file.entry, args, rules, facts, known, separator);
            &&& step == if !decision(file.entry, args, facts, file.head, separator) {
                EntryStep::Rejected
            } else {
                match outcome_for(file, rules, args, separator) {
                    FileOutcome::NotAllowed => EntryStep::NotAllowed,
                    FileOutcome::Counted => EntryStep::Count,
                    FileOutcome::TooLarge => EntryStep::TooLarge,
                    FileOutcome::Unreadable => EntryStep::Unreadable,
                    FileOutcome::Added => EntryStep::Add,
                }
            }
            &&& forall|before: AggregatorView|
                decision(file.entry, args, facts, file.head, separator) ==> #[trigger] after_step(
                    before,
                    step,
                    file.entry,
                    known,
                    args,
                    separator,
                ) == after_file(before, file, rules, args, separator)
        }),
{
}

impl FileKnown {
    /// Nothing has been read yet.
    pub fn new() -> (known: FileKnown)
        ensures
            known@ == (FileKnownView { head: None, size: None, content: None }),
    {
        FileKnown { head: None, size: None, content: None }
    }
}

impl Aggregator {
    /// An empty bundle and a count of zero.
    pub fn new() -> (a: Aggregator)
        ensures
            a@.content == Seq::<char>::empty(),
            a@.file_count == 0,
    {
        Aggregator { content: String::new(), file_count: 0 }
    }

    /// The bundle so far.
    pub fn content(&self) -> (s: &String)
        ensures
            s@ == self@.content,
    {
        &self.content
    }

    /// The number of files counted so far.
    pub fn file_count(&self) -> (n: usize)
        ensures
            n == self@.file_count,
    {
        self.file_count
    }

    /// Whether another file can be counted: the counter is below its machine limit.
    pub open spec fn has_room(&self, files: nat) -> bool {
        self@.file_count + files <= usize::MAX
    }

    /// Counts a file without adding content, as a dry run does.
    pub fn count_file(&mut self)
        requires
            old(self).has_room(1),
        ensures
            final(self)@.content == old(self)@.content,
            final(self)@.file_count == old(self)@.file_count + 1,
    {
        self.file_count = self.file_count + 1;
    }

    /// Adds the block of one file to the bundle, and counts the file.
    pub fn add_file(&mut self, path: &str, ext: &str, content: &str, markdown: bool)
        requires
            old(self).has_room(1),
        ensures
            final(self)@.content == old(self)@.content + block(path@, ext@, content@, markdown),
            final(self)@.file_count == old(self)@.file_count + 1,
    {
        let ghost start = self.content@;
        if markdown {
            self.content.append("\n\n```");
            self.content.append(ext);
            self.content.append("\n# --- File: ");
            self.content.append(path);
            self.content.append(" ---\n");
            self.content.append(content);
            self.content.append("\n```\n");
            assert(self.content@ =~= start + block(path@, ext@, content@, markdown));
        } else {
            self.content.append("\n\n# --- File: ");
            self.content.append(path);
            self.content.append(" ---\n\n");
            self.content.append(content);
            assert(self.content@ =~= start + block(path@, ext@, content@, markdown));
        }
        self.file_count = self.file_count + 1;
    }

    /// Takes a step: a file to count is counted, a file to add is added to the bundle and
    /// counted, and any other step changes nothing.
    pub fn take_step(
        &mut self,
        step: EntryStep,
        entry: &ScanEntry,
        known: &FileKnown,
        args: &Args,
        separator: char,
    )
        requires
            old(self).has_room(1),
        ensures
            final(self)@ == after_step(old(self)@, step, entry@, known@, args@, separator),
    {
        match step {
            EntryStep::Count => {
                self.count_file();
            },
            EntryStep::Add => {
                match &known.content {
                    Some(Some(text)) => {
                        let path = entry.path.as_str();
                        let name = file_name(path, separator);
                        let ext = match extension(name.as_str()) {
                            Some(e) => e,
                            None => String::new(),
                        };
                        self.add_file(path, ext.as_str(), text.as_str(), args.markdown > 0);
                    },
                    _ => {},
                }
            },
            _ => {},
        }
    }

    /// Handles one file that the pipeline admitted. A file that the rules do not allow is
    /// passed over. In a dry run the file is counted and nothing else. Otherwise a file above
    /// the size limit, or one that could not be read as text, is passed over, and any other
    /// file is added to the bundle and counted.
    pub fn process_single_file(
        &mut self,
        file: &SourceFile,
        rules: &AllowRules,
        args: &Args,
        separator: char,
    ) -> (outcome: FileOutcome)
        requires
            old(self).has_room(1),
        ensures
            outcome == outcome_for(file@, rules@, args@, separator),
            final(self)@ == after_file(old(self)@, file@, rules@, args@, separator),
    {
        let path = file.entry.path.as_str();
        let name = file_name(path, separator);
        let ext = match extension(name.as_str()) {
            Some(e) => e,
            None => String::new(),
        };
        if !rules.allows(name.as_str(), ext.as_str()) {
            return FileOutcome::NotAllowed;
        }
        if args.dry_run {
            self.count_file();
            return FileOutcome::Counted;
        }
        if file.size > args.max_size {
            return FileOutcome::TooLarge;
        }
        match &file.content {
            None => FileOutcome::Unreadable,
            Some(text) => {
                self.add_file(path, ext.as_str(), text.as_str(), args.markdown > 0);
                FileOutcome::Added
            },
        }
    }

    /// Runs the pipeline and the aggregator over the files of a walk, in their order.
    pub fn process_all(
        &mut self,
        files: &Vec<SourceFile>,
        rules: &AllowRules,
        args: &Args,
        ignore_patterns: &Vec<String>,
        separator: char,
    )
        requires
            old(self).has_room(files.len() as nat),
        ensures
            final(self)@ == after_walk(
                old(self)@,
                files_view(files@),
                rules@,
                args@,
                ignore_patterns.deep_view(),
                separator,
            ),
            final(self)@.file_count == old(self)@.file_count + selected_count(
                files_view(files@),
                rules@,
                args@,
                ignore_patterns.deep_view(),
                separator,
            ),
            final(self)@.content == old(self)@.content + concat_all(
                blocks_of(
                    files_view(files@),
                    rules@,
                    args@,
                    ignore_patterns.deep_view(),
                    separator,
                ),
            ),
    {
        proof {
            lemma_walk_appends_blocks(
                old(self)@,
                files_view(files@),
                rules@,
                args@,
                ignore_patterns.deep_view(),
                separator,
            );
        }
        let ghost all = files_view(files@);
        let ghost patterns = ignore_patterns.deep_view();
        let mut i: usize = 0;
        assert(all.take(0) =~= Seq::<SourceFileView>::empty());
        while i < files.len()
            invariant
                i <= files.len(),
                all == files_view(files@),
                patterns == ignore_patterns.deep_view(),
                old(self)@.file_count + files.len() <= usize::MAX,
                self@ == after_walk(
                    old(self)@,
                    all.take(i as int),
                    rules@,
                    args@,
                    patterns,
                    separator,
                ),
                self@.file_count == old(self)@.file_count + selected_count(
                    all.take(i as int),
                    rules@,
                    args@,
                    patterns,
                    separator,
                ),
                selected_count(all.take(i as int), rules@, args@, patterns, separator) <= i,
            decreases files.len() - i,
        {
            let ghost next = all.take(i as int + 1);
            assert(next.drop_last() =~= all.take(i as int));
            assert(next.last() == files[i as int]@);
            let file = &files[i];
            let head = file.head.as_slice();
            if should_process_path(&file.entry, args, ignore_patterns, head, separator) {
                self.process_single_file(file, rules, args, separator);
            }
            i += 1;
        }
        assert(all.take(files.len() as int) =~= all);
    }
}

/// Taking one file out of a walk takes it out of the count, if it was selected.
pub proof fn lemma_count_without(
    files: Seq<SourceFileView>,
    j: int,
    rules: AllowRulesView,
    args: ArgsView,
    patterns: Seq<Seq<char>>,
    separator: char,
)
    requires
        0 <= j < files.len(),
    ensures
        selected_count(files, rules, args, patterns, separator) == selected_count(
            files.remove(j),
            rules,
            args,
            patterns,
            separator,
        ) + if selected(files[j], rules, args, patterns, separator) {
            1nat
        } else {
            0nat
        },
    decreases files.len(),
{
    if j == files.len() - 1 {
        assert(files.remove(j) =~= files.drop_last());
    } else {
        lemma_count_without(files.drop_last(), j, rules, args, patterns, separator);
        assert(files.remove(j).drop_last() =~= files.drop_last().remove(j));
        assert(files.remove(j).last() == files.last());
    }
}

/// Whether a file adds a block to the bundle: the pipeline admits it, and it is added.
pub open spec fn adds_block(
    file: SourceFileView,
    rules: AllowRulesView,
    args: ArgsView,
    patterns: Seq<Seq<char>>,
    separator: char,
) -> bool {
    admitted(file.entry, args, patterns, file.head, separator) && outcome_for(
        file,
        rules,
        args,
        separator,
    ) == FileOutcome::Added
}

/// The block of a file that adds one.
pub open spec fn block_of(file: SourceFileView, args: ArgsView, separator: char) -> Seq<char> {
    block(
        file.entry.path,
        extension_or_empty(file.entry.path, separator),
        file.content->0,
        args.markdown > 0,
    )
}

/// The blocks that the files of a walk add to the bundle, in the order of the walk: one for
/// each file that adds one, as often as the walk visits it.
pub open spec fn blocks_of(
    files: Seq<SourceFileView>,
    rules: AllowRulesView,
    args: ArgsView,
    patterns: Seq<Seq<char>>,
    separator: char,
) -> Seq<Seq<char>>
    decreases files.len(),
{
    if files.len() == 0 {
        Seq::empty()
    } else {
        let sofar = blocks_of(files.drop_last(), rules, args, patterns, separator);
        if adds_block(files.last(), rules, args, patterns, separator) {
            sofar.push(block_of(files.last(), args, separator))
        } else {
            sofar
        }
    }
}

/// The texts of a list, one after the other.
pub open spec fn concat_all(texts: Seq<Seq<char>>) -> Seq<char>
    decreases texts.len(),
{
    if texts.len() == 0 {
        Seq::empty()
    } else {
        concat_all(texts.drop_last()) + texts.last()
    }
}

/// The bundle after a walk is the bundle before it, followed by the blocks of the walk in
/// the order of the walk.
pub proof fn lemma_walk_appends_blocks(
    before: AggregatorView,
    files: Seq<SourceFileView>,
    rules: AllowRulesView,
    args: ArgsView,
    patterns: Seq<Seq<char>>,
    separator: char,
)
    ensures
        after_walk(before, files, rules, args, patterns, separator).content == before.content
            + concat_all(blocks_of(files, rules, args, patterns, separator)),
    decreases files.len(),
{
    if files.len() == 0 {
        assert(before.content + Seq::<char>::empty() =~= before.content);
    } else {
        lemma_walk_appends_blocks(before, files.drop_last(), rules, args, patterns, separator);
        let sofar = blocks_of(files.drop_last(), rules, args, patterns, separator);
        if adds_block(files.last(), rules, args, patterns, separator) {
            let b = block_of(files.last(), args, separator);
            assert(sofar.push(b).drop_last() =~= sofar);
            assert((before.content + concat_all(sofar)) + b =~= before.content + (concat_all(sofar)
                + b));
        }
    }
}

/// Taking one file out of a walk takes its block out of the blocks, if it added one.
pub proof fn lemma_blocks_without(
    files: Seq<SourceFileView>,
    j: int,
    rules: AllowRulesView,
    args: ArgsView,
    patterns: Seq<Seq<char>>,
    separator: char,
)
    requires
        0 <= j < files.len(),
    ensures
        blocks_of(files, rules, args, patterns, separator).to_multiset() == if adds_block(
            files[j],
            rules,
            args,
            patterns,
            separator,
        ) {
            blocks_of(files.remove(j), rules, args, patterns, separator).to_multiset().insert(
                block_of(files[j], args, separator),
            )
        } else {
            blocks_of(files.remove(j), rules, args, patterns, separator).to_multiset()
        },
    decreases files.len(),
{
    let all = blocks_of(files, rules, args, patterns, separator);
    let rest = blocks_of(files.remove(j), rules, args, patterns, separator);
    if j == files.len() - 1 {
        assert(files.remove(j) =~= files.drop_last());
        rest.to_multiset_ensures();
        assert(all.to_multiset() =~= if adds_block(files[j], rules, args, patterns, separator) {
            rest.to_multiset().insert(block_of(files[j], args, separator))
        } else {
            rest.to_multiset()
        });
    } else {
        lemma_blocks_without(files.drop_last(), j, rules, args, patterns, separator);
        assert(files.remove(j).drop_last() =~= files.drop_last().remove(j));
        assert(files.remove(j).last() == files.last());
        assert(files.drop_last()[j] == files[j]);
        let sofar = blocks_of(files.drop_last(), rules, args, patterns, separator);
        let sofar_rest = blocks_of(files.drop_last().remove(j), rules, args, patterns, separator);
        sofar.to_multiset_ensures();
        sofar_rest.to_multiset_ensures();
        assert(all.to_multiset() =~= if adds_block(files[j], rules, args, patterns, separator) {
            rest.to_multiset().insert(block_of(files[j], args, separator))
        } else {
            rest.to_multiset()
        });
    }
}

/// A selected file of a walk is counted: the count of the walk is one at least.
pub proof fn lemma_selected_is_counted(
    files: Seq<SourceFileView>,
    j: int,
    rules: AllowRulesView,
    args: ArgsView,
    patterns: Seq<Seq<char>>,
    separator: char,
)
    requires
        0 <= j < files.len(),
        selected(files[j], rules, args, patterns, separator),
    ensures
        selected_count(files, rules, args, patterns, separator) >= 1,
{
    lemma_count_without(files, j, rules, args, patterns, separator);
}

/// A walk whose every file is admitted and added gives a bundle with exactly one block for
/// each file of the walk, in the order of the walk, and counts every file; no block is of
/// any other path.
pub proof fn law_walk_of_added_files(
    files: Seq<SourceFileView>,
    rules: AllowRulesView,
    args: ArgsView,
    patterns: Seq<Seq<char>>,
    separator: char,
)
    requires
        forall|i: int|
            0 <= i < files.len() ==> adds_block(
                #[trigger] files[i],
                rules,
                args,
                patterns,
                separator,
            ),
    ensures
        selected_count(files, rules, args, patterns, separator) == files.len(),
        blocks_of(files, rules, args, patterns, separator) == Seq::new(
            files.len(),
            |i: int| block_of(files[i], args, separator),
        ),
    decreases files.len(),
{
    let blocks = Seq::new(files.len(), |i: int| block_of(files[i], args, separator));
    if files.len() > 0 {
        let init = files.drop_last();
        assert forall|i: int| 0 <= i < init.len() implies adds_block(
            #[trigger] init[i],
            rules,
            args,
            patterns,
            separator,
        ) by {
            assert(init[i] == files[i]);
        }
        law_walk_of_added_files(init, rules, args, patterns, separator);
        assert(adds_block(files[files.len() - 1], rules, args, patterns, separator));
        assert(blocks_of(files, rules, args, patterns, separator) =~= blocks);
    } else {
        assert(blocks_of(files, rules, args, patterns, separator) =~= blocks);
    }
}

/// What a run without a dry run makes of a file that its pipeline admits, that can be read
/// and that is within the size limit goes by the allow rules alone: the file is added exactly
/// where the rules allow it, and a file that they do not allow adds nothing and is not
/// counted.
pub proof fn law_rules_decide_on_admitted_files(
    file: SourceFileView,
    rules: AllowRulesView,
    args: ArgsView,
    patterns: Seq<Seq<char>>,
    separator: char,
)
    requires
        !args.dry_run,
        admitted(file.entry, args, patterns, file.head, separator),
        file.content is Some,
        file.size <= args.max_size,
    ensures
        adds_block(file, rules, args, patterns, separator) == path_allowed(
            rules,
            file.entry.path,
            separator,
        ),
        selected(file, rules, args, patterns, separator) == path_allowed(
            rules,
            file.entry.path,
            separator,
        ),
{
}

/// Whether a file is gained by one more extension: the pipeline admits it, its extension with
/// a dot in front is the added one, and it is counted, that is, the run is dry or the file
/// can be read and is within the size limit.
pub open spec fn gained(
    file: SourceFileView,
    rules: AllowRulesView,
    args: ArgsView,
    patterns: Seq<Seq<char>>,
    separator: char,
    added: Seq<char>,
) -> bool {
    &&& admitted(file.entry, args, patterns, file.head, separator)
    &&& !path_allowed(rules, file.entry.path, separator)
    &&& seq!['.'] + extension_or_empty(file.entry.path, separator) == added
    &&& (args.dry_run || (file.size <= args.max_size && file.content is Some))
}

/// The number of files of a walk that are gained by one more extension.
pub open spec fn gained_count(
    files: Seq<SourceFileView>,
    rules: AllowRulesView,
    args: ArgsView,
    patterns: Seq<Seq<char>>,
    separator: char,
    added: Seq<char>,
) -> nat
    decreases files.len(),
{
    if files.len() == 0 {
        0
    } else {
        gained_count(files.drop_last(), rules, args, patterns, separator, added) + if gained(
            files.last(),
            rules,
            args,
            patterns,
            separator,
            added,
        ) {
            1nat
        } else {
            0nat
        }
    }
}

/// Whether the second rules are the first with one more extension: they allow the same file
/// names, are permissive alike, and allow the extensions of the first and the added one.
pub open spec fn one_more_extension(
    first: AllowRulesView,
    second: AllowRulesView,
    added: Seq<char>,
) -> bool {
    &&& second.any_glob == first.any_glob
    &&& forall|x: Seq<char>|
        #![trigger second.filenames.contains(x)]
        second.filenames.contains(x) <==> first.filenames.contains(x)
    &&& forall|x: Seq<char>|
        #![trigger second.extensions.contains(x)]
        second.extensions.contains(x) <==> (first.extensions.contains(x) || x == added)
}

/// Whether two sets of options differ in nothing but the allowed extensions and file names,
/// which the pipeline does not read.
pub open spec fn same_but_allowed(first: ArgsView, second: ArgsView) -> bool {
    second == (ArgsView {
        extensions: second.extensions,
        allowed_filenames: second.allowed_filenames,
        ..first
    })
}

/// One more extension selects what was selected before and the files with that extension,
/// and nothing else: no file is lost, every file gained has the added extension, and the
/// count of a walk grows by the number of the files gained.
pub proof fn law_one_more_extension(
    files: Seq<SourceFileView>,
    first: AllowRulesView,
    second: AllowRulesView,
    first_args: ArgsView,
    second_args: ArgsView,
    patterns: Seq<Seq<char>>,
    separator: char,
    added: Seq<char>,
)
    requires
        one_more_extension(first, second, added),
        same_but_allowed(first_args, second_args),
    ensures
        forall|i: int|
            0 <= i < files.len() ==> (selected(
                #[trigger] files[i],
                second,
                second_args,
                patterns,
                separator,
            ) <==> (selected(files[i], first, first_args, patterns, separator) || gained(
                files[i],
                first,
                first_args,
                patterns,
                separator,
                added,
            ))),
        selected_count(files, second, second_args, patterns, separator) == selected_count(
            files,
            first,
            first_args,
            patterns,
            separator,
        ) + gained_count(files, first, first_args, patterns, separator, added),
    decreases files.len(),
{
    assert forall|file: SourceFileView|
        selected(file, second, second_args, patterns, separator) <==> (selected(
            file,
            first,
            first_args,
            patterns,
            separator,
        ) || gained(file, first, first_args, patterns, separator, added)) by {
        let one = crate::filter::facts_of(file.entry, first_args, patterns, separator);
        let two = crate::filter::facts_of(file.entry, second_args, patterns, separator);
        assert(one == two);
        let name = file_name_of(file.entry.path, separator);
        let ext = seq!['.'] + extension_or_empty(file.entry.path, separator);
        assert(second.filenames.contains(name) <==> first.filenames.contains(name));
        assert(second.extensions.contains(ext) <==> (first.extensions.contains(ext) || ext
            == added));
    }
    if files.len() > 0 {
        law_one_more_extension(
            files.drop_last(),
            first,
            second,
            first_args,
            second_args,
            patterns,
            separator,
            added,
        );
    }
}

/// The order of a walk does not matter to the blocks of the bundle either: two walks that
/// visit the same files, in whatever order, add the same blocks, each as often in the one
/// bundle as in the other. The blocks of each bundle stand in the order of its walk.
pub proof fn law_blocks_ignore_order(
    first: Seq<SourceFileView>,
    second: Seq<SourceFileView>,
    rules: AllowRulesView,
    args: ArgsView,
    patterns: Seq<Seq<char>>,
    separator: char,
)
    requires
        first.to_multiset() == second.to_multiset(),
    ensures
        blocks_of(first, rules, args, patterns, separator).to_multiset() == blocks_of(
            second,
            rules,
            args,
            patterns,
            separator,
        ).to_multiset(),
        forall|before: AggregatorView|
            (#[trigger] after_walk(before, first, rules, args, patterns, separator)).content
                == before.content + concat_all(
                blocks_of(first, rules, args, patterns, separator),
            ),
    decreases first.len(),
{
    first.to_multiset_ensures();
    second.to_multiset_ensures();
    assert forall|before: AggregatorView|
        (#[trigger] after_walk(before, first, rules, args, patterns, separator)).content
            == before.content + concat_all(
            blocks_of(first, rules, args, patterns, separator),
        ) by {
        lemma_walk_appends_blocks(before, first, rules, args, patterns, separator);
    }
    if first.len() == 0 {
        assert(second.len() == 0);
    } else {
        let x = first.last();
        assert(first.contains(x));
        assert(second.to_multiset().count(x) > 0);
        assert(second.contains(x));
        let j = choose|j: int| 0 <= j < second.len() && second[j] == x;
        assert(first.drop_last() =~= first.remove(first.len() - 1));
        assert(first.drop_last().to_multiset() =~= second.remove(j).to_multiset());
        law_blocks_ignore_order(
            first.drop_last(),
            second.remove(j),
            rules,
            args,
            patterns,
            separator,
        );
        lemma_blocks_without(second, j, rules, args, patterns, separator);
        lemma_blocks_without(first, first.len() - 1, rules, args, patterns, separator);
    }
}

/// The order of a walk does not matter to what is selected: two walks that visit the same
/// files, in whatever order, select files with the same paths and count the same number of
/// files. Only the order of the blocks in the bundle depends on the order of the walk.
pub proof fn law_selection_ignores_order(
    first: Seq<SourceFileView>,
    second: Seq<SourceFileView>,
    rules: AllowRulesView,
    args: ArgsView,
    patterns: Seq<Seq<char>>,
    separator: char,
)
    requires
        first.to_multiset() == second.to_multiset(),
    ensures
        selected_count(first, rules, args, patterns, separator) == selected_count(
            second,
            rules,
            args,
            patterns,
            separator,
        ),
        selected_paths(first, rules, args, patterns, separator) == selected_paths(
            second,
            rules,
            args,
            patterns,
            separator,
        ),
    decreases first.len(),
{
    first.to_multiset_ensures();
    second.to_multiset_ensures();
    let a = selected_paths(first, rules, args, patterns, separator);
    let b = selected_paths(second, rules, args, patterns, separator);
    assert forall|path: Seq<char>| a.contains(path) <==> b.contains(path) by {
        if a.contains(path) {
            let i = choose|i: int|
                0 <= i < first.len() && (#[trigger] first[i]).entry.path == path && selected(
                    first[i],
                    rules,
                    args,
                    patterns,
                    separator,
                );
            assert(first.contains(first[i]));
            assert(second.to_multiset().count(first[i]) > 0);
            assert(second.contains(first[i]));
            let j = choose|j: int| 0 <= j < second.len() && second[j] == first[i];
            assert(second[j].entry.path == path);
        }
        if b.contains(path) {
            let i = choose|i: int|
                0 <= i < second.len() && (#[trigger] second[i]).entry.path == path && selected(
                    second[i],
                    rules,
                    args,
                    patterns,
                    separator,
                );
            assert(second.contains(second[i]));
            assert(first.to_multiset().count(second[i]) > 0);
            assert(first.contains(second[i]));
            let j = choose|j: int| 0 <= j < first.len() && first[j] == second[i];
            assert(first[j].entry.path == path);
        }
    }
    assert(a =~= b);
    if first.len() > 0 {
        let x = first.last();
        assert(first.contains(x));
        assert(second.to_multiset().count(x) > 0);
        assert(second.contains(x));
        let j = choose|j: int| 0 <= j < second.len() && second[j] == x;
        assert(first.drop_last() =~= first.remove(first.len() - 1));
        assert(first.drop_last().to_multiset() =~= second.remove(j).to_multiset());
        law_selection_ignores_order(
            first.drop_last(),
            second.remove(j),
            rules,
            args,
            patterns,
            separator,
        );
        lemma_count_without(second, j, rules, args, patterns, separator);
    }
}

/// The views of a list of files.
pub open spec fn files_view(files: Seq<SourceFile>) -> Seq<SourceFileView> {
    Seq::new(files.len(), |i: int| files[i]@)
}

} // verus!
