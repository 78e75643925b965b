//! Findings and the report that collects them.

use vstd::prelude::*;

verus! {

/// Issue severity levels.
#[derive(Debug, Clone, Copy, PartialEq, Eq, Structural, PartialOrd, Ord, Hash)]
pub enum Severity {
    Error,
    Warning,
    Info,
}

/// The mathematical content of an [`Issue`].
pub struct IssueView {
    pub severity: Severity,
    pub check: Seq<char>,
    pub file: Seq<char>,
    pub line: usize,
    pub column: usize,
    pub message: Seq<char>,
    pub suggestion: Option<Seq<char>>,
}

/// A single finding from an FFI audit.
#[derive(Debug, Clone)]
pub struct Issue {
    pub severity: Severity,
    pub check: &'static str,
    pub file: String,
    pub line: usize,
    pub column: usize,
    pub message: String,
    pub suggestion: Option<String>,
}

/// The view of an optional string.
pub open spec fn opt_view(o: Option<String>) -> Option<Seq<char>> {
    match o {
        Some(s) => Some(s@),
        None => None,
    }
}

impl View for Issue {
    type V = IssueView;

    open spec fn view(&self) -> IssueView {
        IssueView {
            severity: self.severity,
            check: self.check@,
            file: self.file@,
            line: self.line,
            column: self.column,
            message: self.message@,
            suggestion: opt_view(self.suggestion),
        }
    }
}

/// The views of a sequence of issues.
pub open spec fn issue_views(v: Seq<Issue>) -> Seq<IssueView> {
    v.map_values(|i: Issue| i@)
}

/// The items of an optional value, as a sequence of zero or one.
pub open spec fn opt_seq<T>(o: Option<T>) -> Seq<T> {
    match o {
        Some(x) => seq![x],
        None => Seq::empty(),
    }
}

/// A finding with the given content.
pub fn new_issue(
    severity: Severity,
    check: &'static str,
    file: &str,
    line: usize,
    column: usize,
    message: String,
    suggestion: Option<String>,
) -> (r: Issue)
    ensures
        r@ == (IssueView {
            severity,
            check: check@,
            file: file@,
            line,
            column,
            message: message@,
            suggestion: opt_view(suggestion),
        }),
{
    Issue { severity, check, file: file.to_owned(), line, column, message, suggestion }
}

/// A copy of `issue`.
pub fn copy_issue(issue: &Issue) -> (r: Issue)
    ensures
        r@ == issue@,
{
    let suggestion = match &issue.suggestion {
        Some(s) => Some(s.clone()),
        None => None,
    };
    Issue {
        severity: issue.severity,
        check: issue.check,
        file: issue.file.clone(),
        line: issue.line,
        column: issue.column,
        message: issue.message.clone(),
        suggestion,
    }
}

/// Counters kept by a [`Report`].
#[derive(Debug, Clone, Copy)]
pub struct Stats {
    pub total_issues: usize,
    pub errors: usize,
    pub warnings: usize,
    pub infos: usize,
    pub ffi_functions: usize,
    pub unsafe_blocks: usize,
    pub repr_c_structs: usize,
}

/// Audit report for a project.
#[derive(Debug)]
pub struct Report {
    pub project: String,
    pub issues: Vec<Issue>,
    pub stats: Stats,
}

/// How many issues in `v` have severity `sev`.
pub open spec fn count_severity(v: Seq<Issue>, sev: Severity) -> nat
    decreases v.len(),
{
    if v.len() == 0 {
        0
    } else {
        count_severity(v.drop_last(), sev) + (if v.last().severity == sev { 1nat } else { 0nat })
    }
}

/// The severity counts of a sequence of issues add up to its length.
pub proof fn lemma_severity_counts_sum(v: Seq<Issue>)
    ensures
        count_severity(v, Severity::Error) + count_severity(v, Severity::Warning)
            + count_severity(v, Severity::Info) == v.len(),
    decreases v.len(),
{
    if v.len() > 0 {
        lemma_severity_counts_sum(v.drop_last());
    }
}

impl Report {
    /// The counters agree with the issues held: the total is the number of
    /// issues and each severity counter is the number of issues of that severity.
    pub open spec fn wf(&self) -> bool {
        &&& self.stats.total_issues == self.issues@.len()
        &&& self.stats.errors == count_severity(self.issues@, Severity::Error)
        &&& self.stats.warnings == count_severity(self.issues@, Severity::Warning)
        &&& self.stats.infos == count_severity(self.issues@, Severity::Info)
    }

    /// An empty report for `project`: no issues and every counter zero.
    pub fn new(project: String) -> (r: Self)
        ensures
            r.project@ == project@,
            r.issues@.len() == 0,
            r.stats.total_issues == 0,
            r.stats.errors == 0,
            r.stats.warnings == 0,
            r.stats.infos == 0,
            r.stats.ffi_functions == 0,
            r.stats.unsafe_blocks == 0,
            r.stats.repr_c_structs == 0,
            r.wf(),
    {
        Self {
            project,
            issues: Vec::new(),
            stats: Stats {
                total_issues: 0,
                errors: 0,
                warnings: 0,
                infos: 0,
                ffi_functions: 0,
                unsafe_blocks: 0,
                repr_c_structs: 0,
            },
        }
    }

    /// Appends `issue` and counts it: the total and the counter of its
    /// severity go up by one, everything else stays as it was.
    pub fn add(&mut self, issue: Issue)
        requires
            old(self).stats.total_issues < usize::MAX,
            issue.severity == Severity::Error ==> old(self).stats.errors < usize::MAX,
            issue.severity == Severity::Warning ==> old(self).stats.warnings < usize::MAX,
            issue.severity == Severity::Info ==> old(self).stats.infos < usize::MAX,
        ensures
            final(self).issues@ == old(self).issues@.push(issue),
            final(self).project == old(self).project,
            final(self).stats.total_issues == old(self).stats.total_issues + 1,
            final(self).stats.errors == old(self).stats.errors + (if issue.severity
                == Severity::Error { 1int } else { 0int }),
            final(self).stats.warnings == old(self).stats.warnings + (if issue.severity
                == Severity::Warning { 1int } else { 0int }),
            final(self).stats.infos == old(self).stats.infos + (if issue.severity
                == Severity::Info { 1int } else { 0int }),
            final(self).stats.ffi_functions == old(self).stats.ffi_functions,
            final(self).stats.unsafe_blocks == old(self).stats.unsafe_blocks,
            final(self).stats.repr_c_structs == old(self).stats.repr_c_structs,
            old(self).wf() ==> final(self).wf(),
    {
        match issue.severity {
            Severity::Error => self.stats.errors += 1,
            Severity::Warning => self.stats.warnings += 1,
            Severity::Info => self.stats.infos += 1,
        }
        self.stats.total_issues += 1;
        let ghost before = self.issues@;
        self.issues.push(issue);
        assert(self.issues@.drop_last() =~= before);
    }
}

/// Law: in a well-formed report the severity counters add up to the total.
pub proof fn law_severity_counters_sum_to_total(r: &Report)
    requires
        r.wf(),
    ensures
        r.stats.errors + r.stats.warnings + r.stats.infos == r.stats.total_issues,
{
    lemma_severity_counts_sum(r.issues@);
}

/// Law: counting an issue into a well-formed report, as [`Report::add`] does,
/// keeps it well formed; the added issue is the last one held and the earlier
/// ones are unchanged.
pub proof fn law_add_keeps_report_consistent(before: &Report, after: &Report, issue: Issue)
    requires
        before.wf(),
        after.issues@ == before.issues@.push(issue),
        after.stats.total_issues == before.stats.total_issues + 1,
        after.stats.errors == before.stats.errors + (if issue.severity == Severity::Error {
            1int
        } else {
            0int
        }),
        after.stats.warnings == before.stats.warnings + (if issue.severity == Severity::Warning {
            1int
        } else {
            0int
        }),
        after.stats.infos == before.stats.infos + (if issue.severity == Severity::Info {
            1int
        } else {
            0int
        }),
    ensures
        after.wf(),
        after.issues@.last() == issue,
        forall|i: int| 0 <= i < before.issues@.len() ==> after.issues@[i] == before.issues@[i],
{
    assert(after.issues@.drop_last() =~= before.issues@);
}

} // verus!
