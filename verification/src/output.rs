//! Structured output events and their user-facing text lines.

use vstd::prelude::*;
use crate::config::{FileOperationKind, kind_name};
use crate::error::Error;
use crate::text::{decimal, join_seqs, usize_to_decimal, join_strings, string_views, copy_string};

verus! {

/// Counts produced by one top-level file operation.
#[derive(Debug, Clone, PartialEq, Eq)]
pub struct FileOperationSummary {
    /// Number of created, updated, or replaced paths.
    pub changed: usize,
    /// Number of skipped paths.
    pub skipped: usize,
    /// Number of deleted target-only paths.
    pub deleted: usize,
    /// Number of warnings emitted.
    pub warnings: usize,
    /// Number of metadata-only sync repairs.
    pub metadata_changed: usize,
    /// Whether the summary represents expanded directory work.
    pub expanded: bool,
    /// Reason for a single skipped top-level operation.
    pub skip_reason: Option<String>,
}

impl Default for FileOperationSummary {
    fn default() -> (res: Self)
        ensures
            res.changed == 0,
            res.skipped == 0,
            res.deleted == 0,
            res.warnings == 0,
            res.metadata_changed == 0,
            !res.expanded,
            res.skip_reason.is_none(),
    {
        FileOperationSummary {
            changed: 0,
            skipped: 0,
            deleted: 0,
            warnings: 0,
            metadata_changed: 0,
            expanded: false,
            skip_reason: None,
        }
    }
}

/// Number of visible action decisions in a summary.
pub open spec fn decisions(s: FileOperationSummary) -> int {
    s.changed + s.skipped + s.deleted
}

/// `"{count} {noun}"`, the noun singular for a count of one.
pub open spec fn count_detail_text(count: nat, singular: Seq<char>, plural: Seq<char>) -> Seq<char> {
    decimal(count) + " "@ + (if count == 1 { singular } else { plural })
}

/// One count detail when `count` is positive, nothing otherwise.
pub open spec fn detail_if_positive(
    count: nat,
    singular: Seq<char>,
    plural: Seq<char>,
) -> Seq<Seq<char>> {
    if count > 0 {
        seq![count_detail_text(count, singular, plural)]
    } else {
        Seq::empty()
    }
}

/// The changed, skipped and deleted details of a summary, in that order.
pub open spec fn count_details_text(s: FileOperationSummary, dry_run: bool) -> Seq<Seq<char>> {
    detail_if_positive(
        s.changed as nat,
        if dry_run { "change"@ } else { "changed"@ },
        if dry_run { "changes"@ } else { "changed"@ },
    ) + detail_if_positive(
        s.skipped as nat,
        if dry_run { "skip"@ } else { "skipped"@ },
        if dry_run { "skips"@ } else { "skipped"@ },
    ) + detail_if_positive(
        s.deleted as nat,
        if dry_run { "delete"@ } else { "deleted"@ },
        if dry_run { "deletes"@ } else { "deleted"@ },
    )
}

/// `"treeboot: "`, followed by `"would "` in a dry run.
pub open spec fn lead(dry_run: bool) -> Seq<char> {
    if dry_run {
        "treeboot: would "@
    } else {
        "treeboot: "@
    }
}

/// `"{lead}{op} {source} -> {target}"`.
pub open spec fn applied_text(
    dry_run: bool,
    op: FileOperationKind,
    source: Seq<char>,
    target: Seq<char>,
) -> Seq<char> {
    lead(dry_run) + kind_name(op) + " "@ + source + " -> "@ + target
}

/// `"{lead}sync metadata {source} -> {target}"`.
pub open spec fn metadata_text(dry_run: bool, source: Seq<char>, target: Seq<char>) -> Seq<char> {
    lead(dry_run) + "sync metadata "@ + source + " -> "@ + target
}

/// `"{lead}skip {op} {target}; {reason}"`.
pub open spec fn skipped_text(
    dry_run: bool,
    op: FileOperationKind,
    target: Seq<char>,
    reason: Seq<char>,
) -> Seq<char> {
    lead(dry_run) + "skip "@ + kind_name(op) + " "@ + target + "; "@ + reason
}

/// The reason shown for a single skipped operation.
pub open spec fn skip_reason_text(s: FileOperationSummary) -> Seq<char> {
    match s.skip_reason {
        Some(r) => r@,
        None => "skipped"@,
    }
}

/// The parenthesised count suffix, empty when there is nothing to count.
pub open spec fn details_suffix(s: FileOperationSummary, dry_run: bool) -> Seq<char> {
    let details = join_seqs(count_details_text(s, dry_run), ", "@);
    if details.len() == 0 {
        Seq::empty()
    } else {
        " ("@ + details + ")"@
    }
}

/// The line for a finished top-level file operation.
///
/// A single metadata repair, a single unexpanded change and a single skip
/// read like the matching per-path events; anything else names the operation
/// and lists its counts.
pub open spec fn summary_text(
    op: FileOperationKind,
    source: Seq<char>,
    target: Seq<char>,
    s: FileOperationSummary,
    dry_run: bool,
) -> Seq<char> {
    if decisions(s) == 1 && s.changed == 1 && s.metadata_changed == 1 {
        metadata_text(dry_run, source, target)
    } else if decisions(s) == 1 && s.changed == 1 && !s.expanded {
        applied_text(dry_run, op, source, target)
    } else if decisions(s) == 1 && s.skipped == 1 {
        skipped_text(dry_run, op, target, skip_reason_text(s))
    } else {
        applied_text(dry_run, op, source, target) + details_suffix(s, dry_run)
    }
}

fn count_detail(count: usize, singular: &str, plural: &str) -> (res: String)
    ensures
        res@ == count_detail_text(count as nat, singular@, plural@),
{
    let mut res = usize_to_decimal(count);
    res.append(" ");
    if count == 1 {
        res.append(singular);
    } else {
        res.append(plural);
    }
    res
}

impl FileOperationSummary {
    /// Returns the number of visible action decisions in the summary.
    pub fn decision_count(&self) -> (res: usize)
        requires
            decisions(*self) <= usize::MAX,
        ensures
            res == decisions(*self),
    {
        self.changed + self.skipped + self.deleted
    }

    /// Whether exactly one visible decision was made.
    fn single_decision(&self) -> (res: bool)
        ensures
            res == (decisions(*self) == 1),
    {
        (self.changed == 1 && self.skipped == 0 && self.deleted == 0) || (self.changed == 0
            && self.skipped == 1 && self.deleted == 0) || (self.changed == 0 && self.skipped == 0
            && self.deleted == 1)
    }

    /// Formats the summary as a user-facing file-operation line.
    pub fn message(
        &self,
        operation: FileOperationKind,
        source: &str,
        target: &str,
        dry_run: bool,
    ) -> (res: String)
        ensures
            res@ == summary_text(operation, source@, target@, *self, dry_run),
    {
        format_file_operation_summary(operation, source, target, self, dry_run)
    }

    fn count_details(&self, dry_run: bool) -> (res: Vec<String>)
        ensures
            string_views(res@) == count_details_text(*self, dry_run),
    {
        let mut details: Vec<String> = Vec::new();
        if self.changed > 0 {
            details.push(
                count_detail(
                    self.changed,
                    if dry_run { "change" } else { "changed" },
                    if dry_run { "changes" } else { "changed" },
                ),
            );
        }
        let ghost d1 = string_views(details@);
        if self.skipped > 0 {
            details.push(
                count_detail(
                    self.skipped,
                    if dry_run { "skip" } else { "skipped" },
                    if dry_run { "skips" } else { "skipped" },
                ),
            );
        }
        let ghost d2 = string_views(details@);
        if self.deleted > 0 {
            details.push(
                count_detail(
                    self.deleted,
                    if dry_run { "delete" } else { "deleted" },
                    if dry_run { "deletes" } else { "deleted" },
                ),
            );
        }
        proof {
            let changed = detail_if_positive(
                self.changed as nat,
                if dry_run { "change"@ } else { "changed"@ },
                if dry_run { "changes"@ } else { "changed"@ },
            );
            let skipped = detail_if_positive(
                self.skipped as nat,
                if dry_run { "skip"@ } else { "skipped"@ },
                if dry_run { "skips"@ } else { "skipped"@ },
            );
            let deleted = detail_if_positive(
                self.deleted as nat,
                if dry_run { "delete"@ } else { "deleted"@ },
                if dry_run { "deletes"@ } else { "deleted"@ },
            );
            assert(d1 =~= changed);
            assert(d2 =~= changed + skipped);
            assert(string_views(details@) =~= changed + skipped + deleted);
        }
        details
    }
}

fn lead_str(dry_run: bool) -> (res: &'static str)
    ensures
        res@ == lead(dry_run),
{
    if dry_run {
        "treeboot: would "
    } else {
        "treeboot: "
    }
}

fn applied_line(dry_run: bool, op: FileOperationKind, source: &str, target: &str) -> (res: String)
    ensures
        res@ == applied_text(dry_run, op, source@, target@),
{
    let mut res = String::from_str(lead_str(dry_run));
    res.append(op.as_str());
    res.append(" ");
    res.append(source);
    res.append(" -> ");
    res.append(target);
    res
}

fn metadata_line(dry_run: bool, source: &str, target: &str) -> (res: String)
    ensures
        res@ == metadata_text(dry_run, source@, target@),
{
    let mut res = String::from_str(lead_str(dry_run));
    res.append("sync metadata ");
    res.append(source);
    res.append(" -> ");
    res.append(target);
    res
}

fn skipped_line(dry_run: bool, op: FileOperationKind, target: &str, reason: &str) -> (res: String)
    ensures
        res@ == skipped_text(dry_run, op, target@, reason@),
{
    let mut res = String::from_str(lead_str(dry_run));
    res.append("skip ");
    res.append(op.as_str());
    res.append(" ");
    res.append(target);
    res.append("; ");
    res.append(reason);
    res
}

fn format_file_operation_summary(
    operation: FileOperationKind,
    source: &str,
    target: &str,
    summary: &FileOperationSummary,
    dry_run: bool,
) -> (res: String)
    ensures
        res@ == summary_text(operation, source@, target@, *summary, dry_run),
{
    if summary.single_decision() {
        if summary.changed == 1 {
            if summary.metadata_changed == 1 {
                return metadata_line(dry_run, source, target);
            }
            if !summary.expanded {
                return applied_line(dry_run, operation, source, target);
            }
        }
        if summary.skipped == 1 {
            let reason = match &summary.skip_reason {
                Some(r) => copy_string(r),
                None => String::from_str("skipped"),
            };
            return skipped_line(dry_run, operation, target, reason.as_str());
        }
    }
    let details_list = summary.count_details(dry_run);
    let details = join_strings(&details_list, ", ");
    let mut res = applied_line(dry_run, operation, source, target);
    let ghost base = res@;
    if !details.as_str().is_empty() {
        let mut suffix = String::from_str(" (");
        suffix.append(details.as_str());
        suffix.append(")");
        res.append(suffix.as_str());
    } else {
        assert(res@ =~= base + Seq::<char>::empty());
    }
    res
}

/// A structured message produced during a treeboot operation.
///
/// Paths are carried as display strings.
#[derive(Debug, Clone, PartialEq, Eq)]
#[non_exhaustive]
pub enum OutputEvent {
    /// No config was found.
    NoConfigDetected,
    /// The run started from the root checkout instead of a separate worktree.
    RootWorktreeDetected,
    /// A config file was found.
    ConfigDetected { path: String },
    /// Validating the config produced a non-fatal warning.
    ValidationWarning { message: String },
    /// Planning started for a top-level file operation.
    FileOperationPlanningStarted { operation: FileOperationKind, source: String, target: String },
    /// Planning finished for a top-level file operation.
    FileOperationPlanningFinished {
        operation: FileOperationKind,
        source: String,
        target: String,
        action_count: usize,
    },
    /// Execution started for a top-level file operation.
    FileOperationExecutionStarted {
        operation: FileOperationKind,
        source: String,
        target: String,
        action_count: usize,
    },
    /// One concrete file-operation action completed.
    FileOperationActionAdvanced { operation: FileOperationKind, source: String, target: String },
    /// A top-level file operation finished.
    FileOperationFinished {
        operation: FileOperationKind,
        source: String,
        target: String,
        summary: FileOperationSummary,
        dry_run: bool,
    },
    /// A file operation was applied.
    FileApplied { operation: FileOperationKind, source: String, target: String },
    /// A dry run would apply a file operation.
    FileWouldApply { operation: FileOperationKind, source: String, target: String },
    /// A sync operation applied metadata-only changes.
    FileMetadataApplied { source: String, target: String },
    /// A dry run would apply metadata-only sync changes.
    FileMetadataWouldApply { source: String, target: String },
    /// A file operation was skipped.
    FileSkipped { operation: FileOperationKind, target: String, reason: String },
    /// A dry run would skip a file operation.
    FileWouldSkip { operation: FileOperationKind, target: String, reason: String },
    /// A sync operation deleted a target-only path.
    FileDeleted { path: String },
    /// A dry-run sync operation would delete a target-only path.
    FileWouldDelete { path: String },
    /// A file operation warning was produced.
    FileWarning { path: String, reason: String },
    /// Ownership metadata could not be preserved.
    OwnershipWarning { path: String, reason: String },
    /// A command is about to run.
    CommandStarted { label: String },
    /// A dry run would execute a command.
    CommandWouldRun { label: String },
    /// A command failure was allowed and execution will continue.
    CommandAllowedFailure { label: String, reason: String },
    /// The selected config has no teardown commands.
    NoTeardownCommandsConfigured,
    /// A teardown command is about to run.
    TeardownCommandStarted { label: String },
    /// A dry run would execute a teardown command.
    TeardownCommandWouldRun { label: String },
    /// An init file was created.
    InitCreated { path: String },
}

/// The user-facing line of an event; lifecycle events have none.
pub open spec fn event_text(e: OutputEvent) -> Seq<char> {
    match e {
        OutputEvent::NoConfigDetected => "treeboot: no config detected"@,
        OutputEvent::RootWorktreeDetected => "treeboot: This is not a work tree"@,
        OutputEvent::ConfigDetected { path } => "treeboot: config detected "@ + path@,
        OutputEvent::ValidationWarning { message } => "treeboot: warning: "@ + message@,
        OutputEvent::FileOperationPlanningStarted { .. } => Seq::empty(),
        OutputEvent::FileOperationPlanningFinished { .. } => Seq::empty(),
        OutputEvent::FileOperationExecutionStarted { .. } => Seq::empty(),
        OutputEvent::FileOperationActionAdvanced { .. } => Seq::empty(),
        OutputEvent::FileOperationFinished { operation, source, target, summary, dry_run } =>
            summary_text(operation, source@, target@, summary, dry_run),
        OutputEvent::FileApplied { operation, source, target } =>
            applied_text(false, operation, source@, target@),
        OutputEvent::FileWouldApply { operation, source, target } =>
            applied_text(true, operation, source@, target@),
        OutputEvent::FileMetadataApplied { source, target } =>
            metadata_text(false, source@, target@),
        OutputEvent::FileMetadataWouldApply { source, target } =>
            metadata_text(true, source@, target@),
        OutputEvent::FileSkipped { operation, target, reason } =>
            skipped_text(false, operation, target@, reason@),
        OutputEvent::FileWouldSkip { operation, target, reason } =>
            skipped_text(true, operation, target@, reason@),
        OutputEvent::FileDeleted { path } => "treeboot: delete "@ + path@,
        OutputEvent::FileWouldDelete { path } => "treeboot: would delete "@ + path@,
        OutputEvent::FileWarning { path, reason } => "treeboot: warning: "@ + path@ + " "@
            + reason@,
        OutputEvent::OwnershipWarning { path, reason } =>
            "treeboot: warning: could not preserve ownership "@ + path@ + ": "@ + reason@,
        OutputEvent::CommandStarted { label } => "treeboot: run "@ + label@,
        OutputEvent::CommandWouldRun { label } => "treeboot: would run "@ + label@,
        OutputEvent::NoTeardownCommandsConfigured => "treeboot: no teardown commands configured"@,
        OutputEvent::TeardownCommandStarted { label } => "treeboot: teardown run "@ + label@,
        OutputEvent::TeardownCommandWouldRun { label } => "treeboot: teardown would run "@ + label@,
        OutputEvent::CommandAllowedFailure { label, reason } => "treeboot: warning: command "@
            + label@ + " "@ + reason@,
        OutputEvent::InitCreated { path } => "treeboot: created "@ + path@,
    }
}

impl OutputEvent {
    /// Formats the event as a user-facing line.
    ///
    /// Structured lifecycle events used only to drive presentation state
    /// return an empty string because they do not have a durable text-line form.
    pub fn message(&self) -> (res: String)
        ensures
            res@ == event_text(*self),
    {
        match self {
            OutputEvent::NoConfigDetected => String::from_str("treeboot: no config detected"),
            OutputEvent::RootWorktreeDetected => String::from_str(
                "treeboot: This is not a work tree",
            ),
            OutputEvent::ValidationWarning { message } => crate::text::concat2(
                "treeboot: warning: ",
                message.as_str(),
            ),
            OutputEvent::ConfigDetected { path } => crate::text::concat2(
                "treeboot: config detected ",
                path.as_str(),
            ),
            OutputEvent::FileOperationPlanningStarted { .. } => String::new(),
            OutputEvent::FileOperationPlanningFinished { .. } => String::new(),
            OutputEvent::FileOperationExecutionStarted { .. } => String::new(),
            OutputEvent::FileOperationActionAdvanced { .. } => String::new(),
            OutputEvent::FileOperationFinished { operation, source, target, summary, dry_run } =>
                summary.message(*operation, source.as_str(), target.as_str(), *dry_run),
            OutputEvent::FileApplied { operation, source, target } => applied_line(
                false,
                *operation,
                source.as_str(),
                target.as_str(),
            ),
            OutputEvent::FileWouldApply { operation, source, target } => applied_line(
                true,
                *operation,
                source.as_str(),
                target.as_str(),
            ),
            OutputEvent::FileMetadataApplied { source, target } => metadata_line(
                false,
                source.as_str(),
                target.as_str(),
            ),
            OutputEvent::FileMetadataWouldApply { source, target } => metadata_line(
                true,
                source.as_str(),
                target.as_str(),
            ),
            OutputEvent::FileSkipped { operation, target, reason } => skipped_line(
                false,
                *operation,
                target.as_str(),
                reason.as_str(),
            ),
            OutputEvent::FileWouldSkip { operation, target, reason } => skipped_line(
                true,
                *operation,
                target.as_str(),
                reason.as_str(),
            ),
            OutputEvent::FileDeleted { path } => crate::text::concat2(
                "treeboot: delete ",
                path.as_str(),
            ),
            OutputEvent::FileWouldDelete { path } => crate::text::concat2(
                "treeboot: would delete ",
                path.as_str(),
            ),
            OutputEvent::FileWarning { path, reason } => crate::text::concat4(
                "treeboot: warning: ",
                path.as_str(),
                " ",
                reason.as_str(),
            ),
            OutputEvent::OwnershipWarning { path, reason } => crate::text::concat4(
                "treeboot: warning: could not preserve ownership ",
                path.as_str(),
                ": ",
                reason.as_str(),
            ),
            OutputEvent::CommandStarted { label } => crate::text::concat2(
                "treeboot: run ",
                label.as_str(),
            ),
            OutputEvent::CommandWouldRun { label } => crate::text::concat2(
                "treeboot: would run ",
                label.as_str(),
            ),
            OutputEvent::NoTeardownCommandsConfigured => String::from_str(
                "treeboot: no teardown commands configured",
            ),
            OutputEvent::TeardownCommandStarted { label } => crate::text::concat2(
                "treeboot: teardown run ",
                label.as_str(),
            ),
            OutputEvent::TeardownCommandWouldRun { label } => crate::text::concat2(
                "treeboot: teardown would run ",
                label.as_str(),
            ),
            OutputEvent::CommandAllowedFailure { label, reason } => crate::text::concat4(
                "treeboot: warning: command ",
                label.as_str(),
                " ",
                reason.as_str(),
            ),
            OutputEvent::InitCreated { path } => crate::text::concat2(
                "treeboot: created ",
                path.as_str(),
            ),
        }
    }
}

/// Receives structured output events from core operations.
///
/// An error carries the message of the failed write.
pub trait Reporter {
    /// Handles one output event.
    fn report(&mut self, event: OutputEvent) -> Result<(), String>;
}

/// The outcome of handing an event to a reporter: accepted, or refused with
/// the message of the failed write.
pub open spec fn handed_outcome(r: Result<(), String>) -> Result<(), Error> {
    match r {
        Ok(()) => Ok(()),
        Err(message) => Err(Error::Output { message }),
    }
}

/// A reporter together with the record of every event the library has
/// handed to it, in order, each with the reporter's answer.
pub struct ReportLog<R> {
    /// The reporter the events go to.
    pub inner: R,
    /// The events handed over so far and what the reporter answered.
    pub handed: Ghost<Seq<(OutputEvent, Result<(), String>)>>,
}

impl<R: Reporter> ReportLog<R> {
    /// Starts a log with no event handed over yet.
    pub fn new(inner: R) -> (res: Self)
        ensures
            res.inner == inner,
            res.handed@ == Seq::<(OutputEvent, Result<(), String>)>::empty(),
    {
        ReportLog { inner, handed: Ghost(Seq::empty()) }
    }

    /// Hands one event to the reporter, records it with the answer, and
    /// turns a refusal into an output error.
    pub fn report(&mut self, event: OutputEvent) -> (res: Result<(), Error>)
        ensures
            final(self).handed@ == old(self).handed@.push((event, final(self).handed@.last().1)),
            res == handed_outcome(final(self).handed@.last().1),
    {
        let ghost handed_event = event;
        let answer = self.inner.report(event);
        self.handed = Ghost(self.handed@.push((handed_event, answer)));
        match answer {
            Ok(()) => Ok(()),
            Err(message) => Err(Error::Output { message }),
        }
    }
}

} // verus!
