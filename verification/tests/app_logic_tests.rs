use ffi_guard::mcp::{error_code, error_message, RpcError};
use ffi_guard::report::Severity;
use ffi_guard::mcp::{classify_method, classify_tool, needs_response, McpMethod, McpTool};
use ffi_guard::report::Report;
use ffi_guard::trophy::{
    crate_dir_name, download_url, empty_entry, has_findings, mentions_ffi, scanned_entry, search_url,
};

#[test]
fn mcp_methods_and_tools() {
    assert_eq!(classify_method("initialize"), McpMethod::Initialize);
    assert_eq!(classify_method("tools/list"), McpMethod::ToolsList);
    assert_eq!(classify_method("tools/call"), McpMethod::ToolsCall);
    assert_eq!(classify_method("notifications/initialized"), McpMethod::Initialized);
    assert_eq!(classify_method("ping"), McpMethod::Unknown);
    assert!(!needs_response(McpMethod::Initialized));
    assert!(needs_response(McpMethod::Unknown));
    assert_eq!(classify_tool("scan_project"), McpTool::ScanProject);
    assert_eq!(classify_tool("list_checks"), McpTool::ListChecks);
    assert_eq!(classify_tool("check_file"), McpTool::CheckFile);
    assert_eq!(classify_tool("scan"), McpTool::Unknown);
}

#[test]
fn trophy_entries_and_urls() {
    let e = empty_entry("a".into(), "1.0.0".into(), 5, "d".into(), None);
    assert!(!has_findings(&e));
    let failed = empty_entry("a".into(), "1.0.0".into(), 5, "d".into(), Some("boom".into()));
    assert!(has_findings(&failed));
    let mut report = Report::new("a".into());
    report.stats.warnings = 2;
    let s = scanned_entry("a".into(), "1.0.0".into(), 5, "d".into(), report);
    assert_eq!(s.warnings, 2);
    assert!(has_findings(&s));
    assert!(mentions_ffi("extern \"C\" { fn f(); }"));
    assert!(mentions_ffi("extern \"C++\" {}"));
    assert!(!mentions_ffi("extern crate foo;"));
    assert_eq!(
        search_url(50, "ffi"),
        "https://crates.io/api/v1/crates?page=1&per_page=50&q=ffi&sort=downloads"
    );
    assert_eq!(download_url("libc", "0.2.1"), "https://crates.io/api/v1/crates/libc/0.2.1/download");
    assert_eq!(crate_dir_name("libc", "0.2.1"), "libc-0.2.1");
}

#[test]
fn rpc_errors_have_their_codes_and_messages() {
    assert_eq!(error_code(RpcError::Parse), -32700);
    assert_eq!(error_code(RpcError::MethodNotFound), -32601);
    assert_eq!(error_code(RpcError::UnknownTool), -32602);
    assert_eq!(error_message(RpcError::UnknownTool, "scan"), "Unknown tool: scan");
    assert_eq!(error_message(RpcError::MethodNotFound, "ping"), "Method not found: ping");
    assert_eq!(error_message(RpcError::Parse, "eof"), "Parse error: eof");
}

#[test]
fn check_table_lists_the_documented_checks() {
    let t = ffi_guard::checks::check_table();
    assert_eq!(t.len(), 17);
    assert_eq!(t[0].id, "extern-fn-not-unsafe");
    assert_eq!(t[0].severity, Severity::Error);
    assert_eq!(t[12].id, "repr-c-unused-cstruct");
    assert_eq!(t[12].severity, Severity::Info);
    assert_eq!(t[16].id, "ffi-ptr-deref-no-nullcheck");
}
