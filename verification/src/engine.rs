//! What an execution reports, and which files of a listing it takes up.

use crate::filters::{matches_filters, name_accepted, FileMeta};
use crate::ruleset::{Action, Filters, FiltersView};
use crate::text::joined;
use crate::transfer::{IoFailure, IoFailureView};
use vstd::prelude::*;

verus! {

/// How an execution ended.
#[derive(Debug, Clone, Copy, PartialEq, Eq, Structural)]
pub enum ExecutionStatus {
    /// No file failed.
    Completed,
    /// Some files failed, and some were transferred.
    PartialFailure,
    /// Some files failed, and none was transferred.
    Failed,
}

/// What became of one file.
#[derive(Debug, PartialEq)]
pub struct FileResult {
    pub filename: String,
    pub source_path: String,
    /// `None` where no destination was ever resolved.
    pub destination_path: Option<String>,
    pub reason: Option<String>,
}

pub struct FileResultView {
    pub filename: Seq<char>,
    pub source_path: Seq<char>,
    pub destination_path: Option<Seq<char>>,
    pub reason: Option<Seq<char>>,
}

impl DeepView for FileResult {
    type V = FileResultView;

    open spec fn deep_view(&self) -> FileResultView {
        FileResultView {
            filename: self.filename@,
            source_path: self.source_path@,
            destination_path: self.destination_path.deep_view(),
            reason: self.reason.deep_view(),
        }
    }
}

impl View for FileResult {
    type V = FileResultView;

    open spec fn view(&self) -> FileResultView {
        self.deep_view()
    }
}

impl Clone for FileResult {
    fn clone(&self) -> (r: FileResult)
        ensures
            r@ == self@,
    {
        FileResult {
            filename: self.filename.clone(),
            source_path: self.source_path.clone(),
            destination_path: self.destination_path.clone(),
            reason: self.reason.clone(),
        }
    }
}

/// The report of one execution of a ruleset.
#[derive(Debug, PartialEq)]
pub struct ExecutionResult {
    pub ruleset_id: String,
    pub ruleset_name: String,
    pub action: Action,
    pub status: ExecutionStatus,
    pub succeeded: Vec<FileResult>,
    pub skipped: Vec<FileResult>,
    pub errors: Vec<FileResult>,
}

pub struct ExecutionResultView {
    pub ruleset_id: Seq<char>,
    pub ruleset_name: Seq<char>,
    pub action: Action,
    pub status: ExecutionStatus,
    pub succeeded: Seq<FileResultView>,
    pub skipped: Seq<FileResultView>,
    pub errors: Seq<FileResultView>,
}

impl DeepView for ExecutionResult {
    type V = ExecutionResultView;

    open spec fn deep_view(&self) -> ExecutionResultView {
        ExecutionResultView {
            ruleset_id: self.ruleset_id@,
            ruleset_name: self.ruleset_name@,
            action: self.action,
            status: self.status,
            succeeded: self.succeeded.deep_view(),
            skipped: self.skipped.deep_view(),
            errors: self.errors.deep_view(),
        }
    }
}

impl View for ExecutionResult {
    type V = ExecutionResultView;

    open spec fn view(&self) -> ExecutionResultView {
        self.deep_view()
    }
}

impl Clone for ExecutionResult {
    fn clone(&self) -> (r: ExecutionResult)
        ensures
            r@ == self@,
    {
        ExecutionResult {
            ruleset_id: self.ruleset_id.clone(),
            ruleset_name: self.ruleset_name.clone(),
            action: self.action,
            status: self.status,
            succeeded: self.succeeded.clone(),
            skipped: self.skipped.clone(),
            errors: self.errors.clone(),
        }
    }
}

/// A transfer to take back: where the file was, and where it is now.
#[derive(Debug, PartialEq)]
pub struct UndoRequest {
    pub source_path: String,
    pub destination_path: String,
}

impl Clone for UndoRequest {
    fn clone(&self) -> (r: UndoRequest)
        ensures
            r.source_path@ == self.source_path@,
            r.destination_path@ == self.destination_path@,
    {
        UndoRequest {
            source_path: self.source_path.clone(),
            destination_path: self.destination_path.clone(),
        }
    }
}

/// The status of an execution with this many files transferred and this
/// many failed. Files that were skipped do not count.
pub open spec fn status_rule(succeeded: nat, errors: nat) -> ExecutionStatus {
    if errors == 0 {
        ExecutionStatus::Completed
    } else if succeeded == 0 {
        ExecutionStatus::Failed
    } else {
        ExecutionStatus::PartialFailure
    }
}

impl ExecutionResult {
    /// The status of an execution from the files it transferred and the files
    /// that failed.
    pub fn determine_status(succeeded: &[FileResult], errors: &[FileResult]) -> (status:
        ExecutionStatus)
        ensures
            status == status_rule(succeeded@.len(), errors@.len()),
    {
        if errors.len() == 0 {
            ExecutionStatus::Completed
        } else if succeeded.len() == 0 {
            ExecutionStatus::Failed
        } else {
            ExecutionStatus::PartialFailure
        }
    }
}

/// One entry of the listing of the source directory.
#[derive(Debug, PartialEq)]
pub struct SourceEntry {
    pub path: String,
    /// The name of the entry; where the host's name is not Unicode, what
    /// stands for it in records and in paths.
    pub filename: String,
    /// Whether `filename` is the host's name of the entry, character for
    /// character. A name that is not Unicode is given to no pattern.
    pub unicode_name: bool,
    /// Whether the extension of the host's name, if it has one, is Unicode.
    /// An extension that is not Unicode is in no list of extensions.
    pub unicode_extension: bool,
    pub is_dir: bool,
    /// What the host reports of the file, or why it reports nothing.
    pub metadata: Result<FileMeta, IoFailure>,
}

pub struct SourceEntryView {
    pub path: Seq<char>,
    pub filename: Seq<char>,
    pub unicode_name: bool,
    pub unicode_extension: bool,
    pub is_dir: bool,
    pub metadata: Result<FileMeta, IoFailureView>,
}

impl DeepView for SourceEntry {
    type V = SourceEntryView;

    open spec fn deep_view(&self) -> SourceEntryView {
        SourceEntryView {
            path: self.path@,
            filename: self.filename@,
            unicode_name: self.unicode_name,
            unicode_extension: self.unicode_extension,
            is_dir: self.is_dir,
            metadata: match self.metadata {
                Ok(meta) => Ok(meta),
                Err(e) => Err(e@),
            },
        }
    }
}

impl View for SourceEntry {
    type V = SourceEntryView;

    open spec fn view(&self) -> SourceEntryView {
        self.deep_view()
    }
}

/// A file that the filters accepted, as it was when the directory was listed.
#[derive(Debug, PartialEq)]
pub struct PendingFile {
    pub path: String,
    pub filename: String,
    pub file_size: u64,
}

pub struct PendingFileView {
    pub path: Seq<char>,
    pub filename: Seq<char>,
    pub file_size: u64,
}

impl DeepView for PendingFile {
    type V = PendingFileView;

    open spec fn deep_view(&self) -> PendingFileView {
        PendingFileView { path: self.path@, filename: self.filename@, file_size: self.file_size }
    }
}

impl View for PendingFile {
    type V = PendingFileView;

    open spec fn view(&self) -> PendingFileView {
        self.deep_view()
    }
}

impl FiltersView {
    /// What the pattern of the file-name filter says of `name`; `true` where
    /// there is no such filter.
    pub open spec fn name_verdict(self, name: Seq<char>) -> bool {
        match self.filename {
            Some(f) => name_accepted(f.pattern, f.match_type, name),
            None => true,
        }
    }
}

impl SourceEntryView {
    /// Whether the entry is taken up, where `verdict` is what the pattern of
    /// the file-name filter says of its name. An entry is taken up when it is
    /// no directory, and either the host reports nothing of it, or the
    /// filters on the extension and the times accept it and the file-name
    /// filter, if there is one, is given a Unicode name and accepts it. The
    /// filter on the extension accepts no extension that is not Unicode.
    pub open spec fn considered_by(self, filters: FiltersView, verdict: bool) -> bool {
        !self.is_dir && match self.metadata {
            Ok(meta) => {
                &&& filters.accepts_besides_name(self.filename, meta)
                &&& filters.extensions is Some ==> self.unicode_extension
                &&& filters.filename is Some ==> self.unicode_name && verdict
            },
            Err(_) => true,
        }
    }

    /// Whether the entry is taken up: it is no directory, and either the host
    /// reports nothing of it or the filters accept it.
    pub open spec fn considered(self, filters: FiltersView) -> bool {
        self.considered_by(filters, filters.name_verdict(self.filename))
    }

    /// Whether the file-name filter answers alike on every host for this
    /// entry: a name that is not Unicode is given to no pattern.
    pub open spec fn host_independent(self, filters: FiltersView) -> bool {
        self.unicode_name ==> filters.host_independent(self.filename)
    }

    /// The entry as a file to transfer.
    pub open spec fn pending(self) -> PendingFileView {
        PendingFileView {
            path: self.path,
            filename: self.filename,
            file_size: match self.metadata {
                Ok(meta) => meta.size,
                Err(_) => 0,
            },
        }
    }

    /// The entry as a file of which the host reported nothing.
    pub open spec fn unreadable(self) -> FileResultView {
        FileResultView {
            filename: self.filename,
            source_path: self.path,
            destination_path: None,
            reason: Some(
                "Failed to read metadata: "@ + match self.metadata {
                    Ok(_) => Seq::empty(),
                    Err(e) => e.message,
                },
            ),
        }
    }
}

/// What a listing comes to: the files to transfer, and the files of which the
/// host reported nothing.
pub struct EnumerationView {
    pub pending: Seq<PendingFileView>,
    pub errors: Seq<FileResultView>,
}

/// What the first `n` entries of a listing come to, in the order of the
/// listing, where `verdicts[i]` is what the pattern of the file-name filter
/// says of entry `i`. Directories and files that the filters do not accept
/// leave no trace.
pub open spec fn enumerated_by(
    entries: Seq<SourceEntryView>,
    filters: FiltersView,
    verdicts: Seq<bool>,
    n: int,
) -> EnumerationView
    decreases n,
{
    if n <= 0 {
        EnumerationView { pending: Seq::empty(), errors: Seq::empty() }
    } else {
        let earlier = enumerated_by(entries, filters, verdicts, n - 1);
        let entry = entries[n - 1];
        if !entry.considered_by(filters, verdicts[n - 1]) {
            earlier
        } else if entry.metadata is Ok {
            EnumerationView { pending: earlier.pending.push(entry.pending()), ..earlier }
        } else {
            EnumerationView { errors: earlier.errors.push(entry.unreadable()), ..earlier }
        }
    }
}

/// The number of entries among the first `n` that are taken up, under these
/// verdicts of the pattern.
pub open spec fn considered_count_by(
    entries: Seq<SourceEntryView>,
    filters: FiltersView,
    verdicts: Seq<bool>,
    n: int,
) -> nat
    decreases n,
{
    if n <= 0 {
        0
    } else {
        considered_count_by(entries, filters, verdicts, n - 1) + if entries[n - 1].considered_by(
            filters,
            verdicts[n - 1],
        ) {
            1nat
        } else {
            0nat
        }
    }
}

/// What the pattern of the file-name filter says of each entry.
pub open spec fn name_verdicts(entries: Seq<SourceEntryView>, filters: FiltersView) -> Seq<bool> {
    Seq::new(entries.len(), |i: int| filters.name_verdict(entries[i].filename))
}

/// Whether `verdicts` can be the answers of the host's pattern matcher for
/// the entries: one for each entry, and where the answer is the same on
/// every host, that answer.
pub open spec fn faithful(
    entries: Seq<SourceEntryView>,
    filters: FiltersView,
    verdicts: Seq<bool>,
) -> bool {
    &&& verdicts.len() == entries.len()
    &&& forall|i: int|
        0 <= i < entries.len() && filters.host_independent((#[trigger] entries[i]).filename)
            ==> verdicts[i] == filters.name_verdict(entries[i].filename)
}

/// What the first `n` entries of a listing come to, in the order of the
/// listing. Directories and files that the filters do not accept leave no
/// trace.
pub open spec fn enumerated(entries: Seq<SourceEntryView>, filters: FiltersView, n: int) -> EnumerationView {
    enumerated_by(entries, filters, name_verdicts(entries, filters), n)
}

/// The number of entries among the first `n` that are taken up.
pub open spec fn considered_count(entries: Seq<SourceEntryView>, filters: FiltersView, n: int) -> nat {
    considered_count_by(entries, filters, name_verdicts(entries, filters), n)
}

/// Whether the filters give the same answer on every host for each entry.
pub open spec fn host_independent(entries: Seq<SourceEntryView>, filters: FiltersView) -> bool {
    forall|i: int| 0 <= i < entries.len() ==> (#[trigger] entries[i]).host_independent(filters)
}

/// Every entry that is taken up is either a file to transfer or a file of
/// which the host reported nothing: the two lists together are as long as the
/// number of entries taken up. This holds whatever the pattern answers.
pub proof fn lemma_enumerated_by_partition(
    entries: Seq<SourceEntryView>,
    filters: FiltersView,
    verdicts: Seq<bool>,
    n: int,
)
    ensures
        enumerated_by(entries, filters, verdicts, n).pending.len() + enumerated_by(
            entries,
            filters,
            verdicts,
            n,
        ).errors.len() == considered_count_by(entries, filters, verdicts, n),
        n >= 0 ==> considered_count_by(entries, filters, verdicts, n) <= n,
    decreases n,
{
    if n > 0 {
        lemma_enumerated_by_partition(entries, filters, verdicts, n - 1);
    }
}

/// Every entry that is taken up is either a file to transfer or a file of
/// which the host reported nothing: the two lists together are as long as the
/// number of entries taken up.
pub proof fn lemma_enumerated_partition(
    entries: Seq<SourceEntryView>,
    filters: FiltersView,
    n: int,
)
    ensures
        enumerated(entries, filters, n).pending.len() + enumerated(entries, filters, n).errors.len()
            == considered_count(entries, filters, n),
        n >= 0 ==> considered_count(entries, filters, n) <= n,
{
    lemma_enumerated_by_partition(entries, filters, name_verdicts(entries, filters), n);
}

/// What a listing comes to depends on the verdicts only for entries that are
/// files with metadata and a Unicode name, under a file-name filter: two
/// lists of verdicts that agree on those give the same.
pub proof fn lemma_enumerated_by_agree(
    entries: Seq<SourceEntryView>,
    filters: FiltersView,
    v: Seq<bool>,
    w: Seq<bool>,
    n: int,
)
    requires
        n <= entries.len(),
        forall|i: int|
            0 <= i < n && filters.filename is Some && (#[trigger] entries[i]).unicode_name
                && !entries[i].is_dir && entries[i].metadata is Ok ==> v[i] == w[i],
    ensures
        enumerated_by(entries, filters, v, n) == enumerated_by(entries, filters, w, n),
        considered_count_by(entries, filters, v, n) == considered_count_by(entries, filters, w, n),
    decreases n,
{
    if n > 0 {
        lemma_enumerated_by_agree(entries, filters, v, w, n - 1);
        assert(entries[n - 1].considered_by(filters, v[n - 1]) == entries[n - 1].considered_by(
            filters,
            w[n - 1],
        ));
    }
}

/// The files of which the host reported nothing do not depend on what the
/// pattern answers.
pub proof fn lemma_errors_whatever_the_verdicts(
    entries: Seq<SourceEntryView>,
    filters: FiltersView,
    verdicts: Seq<bool>,
    n: int,
)
    ensures
        enumerated_by(entries, filters, verdicts, n).errors == enumerated(entries, filters, n).errors,
    decreases n,
{
    if n > 0 {
        lemma_errors_whatever_the_verdicts(entries, filters, verdicts, n - 1);
    }
}

/// Where the filters answer alike on every host for each entry, verdicts
/// that are faithful give what the filters themselves give.
pub proof fn lemma_faithful_on_independent(
    entries: Seq<SourceEntryView>,
    filters: FiltersView,
    verdicts: Seq<bool>,
)
    requires
        faithful(entries, filters, verdicts),
        host_independent(entries, filters),
    ensures
        enumerated_by(entries, filters, verdicts, entries.len() as int) == enumerated(
            entries,
            filters,
            entries.len() as int,
        ),
        considered_count_by(entries, filters, verdicts, entries.len() as int) == considered_count(
            entries,
            filters,
            entries.len() as int,
        ),
{
    let plain = name_verdicts(entries, filters);
    assert forall|i: int|
        0 <= i < entries.len() && filters.filename is Some && (#[trigger] entries[i]).unicode_name
            && !entries[i].is_dir && entries[i].metadata is Ok implies verdicts[i] == plain[i] by {
        assert(entries[i].host_independent(filters));
    }
    lemma_enumerated_by_agree(entries, filters, verdicts, plain, entries.len() as int);
}

/// Whether `at` tells, for each of the files `pending`, the entry among the
/// first `n` that it was made from: an entry that is no directory, has
/// metadata and is accepted by the filters on the extension and the times;
/// and the entries stand in the order of the files.
pub open spec fn taken_in_order(
    entries: Seq<SourceEntryView>,
    filters: FiltersView,
    n: int,
    pending: Seq<PendingFileView>,
    at: Seq<int>,
) -> bool {
    &&& at.len() == pending.len()
    &&& forall|k: int|
        0 <= k < at.len() ==> {
            &&& 0 <= (#[trigger] at[k]) < n
            &&& pending[k] == entries[at[k]].pending()
            &&& !entries[at[k]].is_dir
            &&& entries[at[k]].metadata is Ok
            &&& filters.accepts_besides_name(
                entries[at[k]].filename,
                entries[at[k]].metadata->Ok_0,
            )
            &&& filters.extensions is Some ==> entries[at[k]].unicode_extension
            &&& filters.filename is Some ==> entries[at[k]].unicode_name
        }
    &&& forall|j: int, k: int| 0 <= j < k < at.len() ==> at[j] < at[k]
}

/// Whatever the pattern answers, each file to transfer is an entry of the
/// listing that is no directory, has metadata and passes the filters on the
/// extension and the times, and the files stand in the order of the listing.
pub proof fn lemma_pending_are_listed(
    entries: Seq<SourceEntryView>,
    filters: FiltersView,
    verdicts: Seq<bool>,
    n: int,
)
    requires
        n <= entries.len(),
    ensures
        exists|at: Seq<int>| #[trigger]
            taken_in_order(
                entries,
                filters,
                n,
                enumerated_by(entries, filters, verdicts, n).pending,
                at,
            ),
    decreases n,
{
    if n <= 0 {
        assert(taken_in_order(
            entries,
            filters,
            n,
            enumerated_by(entries, filters, verdicts, n).pending,
            Seq::<int>::empty(),
        ));
    } else {
        lemma_pending_are_listed(entries, filters, verdicts, n - 1);
        let earlier = enumerated_by(entries, filters, verdicts, n - 1).pending;
        let m = n - 1;
        let at = choose|at: Seq<int>| #[trigger] taken_in_order(entries, filters, m, earlier, at);
        let entry = entries[n - 1];
        if entry.considered_by(filters, verdicts[n - 1]) && entry.metadata is Ok {
            assert(taken_in_order(
                entries,
                filters,
                n,
                enumerated_by(entries, filters, verdicts, n).pending,
                at.push(n - 1),
            ));
        } else {
            assert(taken_in_order(
                entries,
                filters,
                n,
                enumerated_by(entries, filters, verdicts, n).pending,
                at,
            ));
        }
    }
}

/// The files of a listing that are taken up. A file that the filters accept
/// is to be transferred, with the size it has now; a file of which the host
/// reports nothing is a failure; directories and other files are passed over.
///
/// Where a shell pattern or a name holds a `\`, what the pattern says of the
/// name is the host's answer. The result is what the listing comes to under
/// some verdicts of the pattern, which are the pattern's own wherever they
/// are the same on every host.
pub fn enumerate(entries: &Vec<SourceEntry>, filters: &Filters) -> (r: (
    Vec<PendingFile>,
    Vec<FileResult>,
))
    ensures
        exists|verdicts: Seq<bool>|
            {
                &&& #[trigger] faithful(entries.deep_view(), filters@, verdicts)
                &&& r.0.deep_view() == enumerated_by(
                    entries.deep_view(),
                    filters@,
                    verdicts,
                    entries.len() as int,
                ).pending
                &&& r.1.deep_view() == enumerated_by(
                    entries.deep_view(),
                    filters@,
                    verdicts,
                    entries.len() as int,
                ).errors
            },
        host_independent(entries.deep_view(), filters@) ==> r.0.deep_view() == enumerated(
            entries.deep_view(),
            filters@,
            entries.len() as int,
        ).pending,
        r.1.deep_view() == enumerated(entries.deep_view(), filters@, entries.len() as int).errors,
        r.0.len() + r.1.len() <= entries.len(),
{
    let mut pending: Vec<PendingFile> = Vec::new();
    let mut errors: Vec<FileResult> = Vec::new();
    let ghost all = entries.deep_view();
    let ghost mut verdicts: Seq<bool> = Seq::empty();
    proof {
        assert(pending.deep_view() =~= Seq::empty());
        assert(errors.deep_view() =~= Seq::empty());
    }
    let mut i: usize = 0;
    while i < entries.len()
        invariant
            i <= entries.len(),
            all == entries.deep_view(),
            pending.len() + errors.len() <= i,
            verdicts.len() == i,
            forall|k: int|
                0 <= k < i && filters@.host_independent((#[trigger] all[k]).filename)
                    ==> verdicts[k] == filters@.name_verdict(all[k].filename),
            pending.deep_view() == enumerated_by(all, filters@, verdicts, i as int).pending,
            errors.deep_view() == enumerated_by(all, filters@, verdicts, i as int).errors,
        decreases entries.len() - i,
    {
        let entry = &entries[i];
        let ghost before_pending = pending.deep_view();
        let ghost before_errors = errors.deep_view();
        let ghost before_verdicts = verdicts;
        let ghost mut verdict = filters@.name_verdict(entry@.filename);
        proof {
            assert(all[i as int] == entry@);
        }
        if !entry.is_dir {
            match &entry.metadata {
                Err(e) => {
                    errors.push(
                        FileResult {
                            filename: entry.filename.clone(),
                            source_path: entry.path.clone(),
                            destination_path: None,
                            reason: Some(joined("Failed to read metadata: ", e.message.as_str())),
                        },
                    );
                    proof {
                        assert(errors.deep_view() =~= before_errors.push(entry@.unreadable()));
                    }
                },
                Ok(meta) => {
                    if (entry.unicode_name || filters.filename.is_none()) && (
                    entry.unicode_extension || filters.extensions.is_none()) {
                        let accepted = matches_filters(entry.filename.as_str(), meta, filters);
                        proof {
                            if !filters@.host_independent(entry@.filename) {
                                verdict = accepted;
                            }
                        }
                        if accepted {
                            pending.push(
                                PendingFile {
                                    path: entry.path.clone(),
                                    filename: entry.filename.clone(),
                                    file_size: meta.size,
                                },
                            );
                            proof {
                                assert(pending.deep_view() =~= before_pending.push(
                                    entry@.pending(),
                                ));
                            }
                        }
                    }
                },
            }
        }
        proof {
            verdicts = before_verdicts.push(verdict);
            lemma_enumerated_by_agree(all, filters@, before_verdicts, verdicts, i as int);
        }
        i += 1;
    }
    proof {
        assert(faithful(all, filters@, verdicts));
        lemma_errors_whatever_the_verdicts(all, filters@, verdicts, all.len() as int);
        if host_independent(all, filters@) {
            lemma_faithful_on_independent(all, filters@, verdicts);
        }
    }
    (pending, errors)
}

} // verus!
