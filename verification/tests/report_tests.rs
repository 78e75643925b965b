use ffi_guard::report::{new_issue, Issue, Report, Severity};

fn issue(sev: Severity) -> Issue {
    new_issue(sev, "unsafe-sprawl", "src/a.rs", 3, 1, "m".to_string(), None)
}

#[test]
fn new_report_is_empty() {
    let r = Report::new("demo".to_string());
    assert_eq!(r.project, "demo");
    assert!(r.issues.is_empty());
    assert_eq!(r.stats.total_issues, 0);
    assert_eq!(r.stats.errors + r.stats.warnings + r.stats.infos, 0);
    assert_eq!(r.stats.ffi_functions, 0);
}

#[test]
fn add_counts_by_severity_and_keeps_order() {
    let mut r = Report::new("demo".to_string());
    r.add(issue(Severity::Error));
    r.add(issue(Severity::Warning));
    r.add(issue(Severity::Warning));
    r.add(issue(Severity::Info));
    assert_eq!(r.stats.total_issues, 4);
    assert_eq!(r.stats.errors, 1);
    assert_eq!(r.stats.warnings, 2);
    assert_eq!(r.stats.infos, 1);
    assert_eq!(r.stats.errors + r.stats.warnings + r.stats.infos, r.stats.total_issues);
    assert_eq!(r.issues.len(), r.stats.total_issues);
    let sevs: Vec<Severity> = r.issues.iter().map(|i| i.severity).collect();
    assert_eq!(sevs, vec![Severity::Error, Severity::Warning, Severity::Warning, Severity::Info]);
}

#[test]
fn severities_are_ordered_error_first() {
    assert!(Severity::Error < Severity::Warning);
    assert!(Severity::Warning < Severity::Info);
}
