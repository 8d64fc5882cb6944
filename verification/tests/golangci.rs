//! golangci-lint: versions, paths and reports.
use rtk::golangci;
use rtk::golangci_run;
use rtk::golangci_run::LintStage;
use rtk::session::{CaptureResult, Chunk, Next, Step};
use rtk::tally;
use rtk::golangci::{compact_path, parse_major_version, GolangciOutput, Issue, Position};
use serde_json::Value;

fn text(v: &Value, key: &str) -> String {
    v[key].as_str().unwrap_or("").to_string()
}

fn number(v: &Value, key: &str) -> usize {
    v[key].as_u64().unwrap_or(0) as usize
}

fn issue(v: &Value) -> Issue {
    let pos = &v["Pos"];
    let source_lines = match v["SourceLines"].as_array() {
        Some(lines) => lines
            .iter()
            .map(|l| l.as_str().unwrap_or("").to_string())
            .collect(),
        None => Vec::new(),
    };
    Issue {
        from_linter: text(v, "FromLinter"),
        text: text(v, "Text"),
        pos: Position {
            filename: text(pos, "Filename"),
            line: number(pos, "Line"),
            column: number(pos, "Column"),
            offset: number(pos, "Offset"),
        },
        source_lines,
        severity: text(v, "Severity"),
    }
}

fn parse(output: &str) -> Result<GolangciOutput, String> {
    let value: Value = serde_json::from_str(output).map_err(|e| e.to_string())?;
    match value["Issues"].as_array() {
        Some(issues) => Ok(GolangciOutput {
            issues: issues.iter().map(issue).collect(),
        }),
        None => Err("missing field `Issues`".to_string()),
    }
}

fn filter_golangci_json(output: &str, version: u32) -> String {
    golangci::filter_golangci_json(parse(output), output, version, 2000)
}

#[test]
fn test_filter_golangci_no_issues() {
    let output = r#"{"Issues":[]}"#;
    let result = filter_golangci_json(output, 1);
    assert!(result.contains("golangci-lint"));
    assert!(result.contains("No issues found"));
}

#[test]
fn test_filter_golangci_with_issues() {
    let output = r#"{
  "Issues": [
    {
      "FromLinter": "errcheck",
      "Text": "Error return value not checked",
      "Pos": {"Filename": "main.go", "Line": 42, "Column": 5}
    },
    {
      "FromLinter": "errcheck",
      "Text": "Error return value not checked",
      "Pos": {"Filename": "main.go", "Line": 50, "Column": 10}
    },
    {
      "FromLinter": "gosimple",
      "Text": "Should use strings.Contains",
      "Pos": {"Filename": "utils.go", "Line": 15, "Column": 2}
    }
  ]
}"#;

    let result = filter_golangci_json(output, 1);
    assert!(result.contains("3 issues"));
    assert!(result.contains("2 files"));
    assert!(result.contains("errcheck"));
    assert!(result.contains("gosimple"));
    assert!(result.contains("main.go"));
    assert!(result.contains("utils.go"));
}

#[test]
fn test_compact_path() {
    assert_eq!(
        compact_path("/Users/foo/project/pkg/handler/server.go"),
        "pkg/handler/server.go"
    );
    assert_eq!(
        compact_path("/home/user/app/cmd/main/main.go"),
        "cmd/main/main.go"
    );
    assert_eq!(
        compact_path("/project/internal/config/loader.go"),
        "internal/config/loader.go"
    );
    assert_eq!(compact_path("relative/file.go"), "file.go");
}

#[test]
fn test_parse_version_v1_format() {
    assert_eq!(parse_major_version("golangci-lint version 1.59.1"), 1);
}

#[test]
fn test_parse_version_v2_format() {
    assert_eq!(
        parse_major_version("golangci-lint has version 2.10.0 built with go1.26.0 from 95dcb68a on 2026-02-17T13:05:51Z"),
        2
    );
}

#[test]
fn test_parse_version_empty_returns_1() {
    assert_eq!(parse_major_version(""), 1);
}

#[test]
fn test_parse_version_malformed_returns_1() {
    assert_eq!(parse_major_version("not a version string"), 1);
}

#[test]
fn test_filter_golangci_v2_fields_parse_cleanly() {
    // v2 JSON includes Severity, SourceLines, Offset — must not panic
    let output = r#"{
  "Issues": [
    {
      "FromLinter": "errcheck",
      "Text": "Error return value not checked",
      "Severity": "error",
      "SourceLines": ["    if err := foo(); err != nil {"],
      "Pos": {"Filename": "main.go", "Line": 42, "Column": 5, "Offset": 1024}
    }
  ]
}"#;
    let result = filter_golangci_json(output, 2);
    assert!(result.contains("errcheck"));
    assert!(result.contains("main.go"));
}

#[test]
fn test_filter_v2_shows_source_lines() {
    let output = r#"{
  "Issues": [
    {
      "FromLinter": "errcheck",
      "Text": "Error return value not checked",
      "Severity": "error",
      "SourceLines": ["    if err := foo(); err != nil {"],
      "Pos": {"Filename": "main.go", "Line": 42, "Column": 5, "Offset": 0}
    }
  ]
}"#;
    let result = filter_golangci_json(output, 2);
    assert!(
        result.contains("→"),
        "v2 should show source line with → prefix"
    );
    assert!(result.contains("if err := foo()"));
}

#[test]
fn test_filter_v1_does_not_show_source_lines() {
    let output = r#"{
  "Issues": [
    {
      "FromLinter": "errcheck",
      "Text": "Error return value not checked",
      "Severity": "error",
      "SourceLines": ["    if err := foo(); err != nil {"],
      "Pos": {"Filename": "main.go", "Line": 42, "Column": 5, "Offset": 0}
    }
  ]
}"#;
    let result = filter_golangci_json(output, 1);
    assert!(!result.contains("→"), "v1 should not show source lines");
}

#[test]
fn test_filter_v2_empty_source_lines_graceful() {
    let output = r#"{
  "Issues": [
    {
      "FromLinter": "errcheck",
      "Text": "Error return value not checked",
      "Severity": "",
      "SourceLines": [],
      "Pos": {"Filename": "main.go", "Line": 42, "Column": 5, "Offset": 0}
    }
  ]
}"#;
    let result = filter_golangci_json(output, 2);
    assert!(result.contains("errcheck"));
    assert!(
        !result.contains("→"),
        "no source line to show, should degrade gracefully"
    );
}

#[test]
fn test_filter_v2_source_line_truncated_to_80_chars() {
    let long_line = "x".repeat(120);
    let output = format!(
        r#"{{
  "Issues": [
    {{
      "FromLinter": "lll",
      "Text": "line too long",
      "Severity": "",
      "SourceLines": ["{}"],
      "Pos": {{"Filename": "main.go", "Line": 1, "Column": 1, "Offset": 0}}
    }}
  ]
}}"#,
        long_line
    );
    let result = filter_golangci_json(&output, 2);
    // Content truncated at 80 chars; prefix "      → " = 10 bytes (6 spaces + 3-byte arrow + space)
    // Total line max = 80 + 10 = 90 bytes
    for line in result.lines() {
        if line.trim_start().starts_with('→') {
            assert!(line.len() <= 90, "source line too long: {}", line.len());
        }
    }
}

#[test]
fn test_filter_v2_source_line_truncated_non_ascii() {
    // Japanese characters are 3 bytes each; 30 chars = 90 bytes > 80 bytes naive slice would panic
    let long_line = "日".repeat(30); // 30 chars, 90 bytes
    let output = format!(
        r#"{{
  "Issues": [
    {{
      "FromLinter": "lll",
      "Text": "line too long",
      "Severity": "",
      "SourceLines": ["{}"],
      "Pos": {{"Filename": "main.go", "Line": 1, "Column": 1, "Offset": 0}}
    }}
  ]
}}"#,
        long_line
    );
    // Should not panic and output should be ≤ 80 chars
    let result = filter_golangci_json(&output, 2);
    for line in result.lines() {
        if line.trim_start().starts_with('→') {
            let content = line.trim_start().trim_start_matches('→').trim();
            assert!(
                content.chars().count() <= 80,
                "content chars: {}",
                content.chars().count()
            );
        }
    }
}


fn found(list: &[(&str, &str, &[&str])]) -> GolangciOutput {
    GolangciOutput {
        issues: list
            .iter()
            .map(|(linter, file, source)| Issue {
                from_linter: linter.to_string(),
                text: String::new(),
                pos: Position {
                    filename: file.to_string(),
                    line: 1,
                    column: 1,
                    offset: 0,
                },
                source_lines: source.iter().map(|s| s.to_string()).collect(),
                severity: String::new(),
            })
            .collect(),
    }
}

#[test]
fn a_report_ranks_linters_and_files() {
    let output = found(&[
        ("a", "x/one.go", &[]),
        ("b", "x/two.go", &["  first  ", "second"]),
        ("b", "x/two.go", &["third"]),
        ("c", "x/two.go", &[]),
    ]);
    assert_eq!(
        golangci::report_issues(&output, 2),
        "golangci-lint: 4 issues in 2 files\n\
         ═══════════════════════════════════════\n\
         Top linters:\n  b (2x)\n  a (1x)\n  c (1x)\n\n\
         Top files:\n  two.go (3 issues)\n    b (2)\n      → first\n    c (1)\n  \
         one.go (1 issues)\n    a (1)"
    );
    assert_eq!(
        golangci::report_issues(&output, 1),
        "golangci-lint: 4 issues in 2 files\n\
         ═══════════════════════════════════════\n\
         Top linters:\n  b (2x)\n  a (1x)\n  c (1x)\n\n\
         Top files:\n  two.go (3 issues)\n    b (2)\n    c (1)\n  \
         one.go (1 issues)\n    a (1)"
    );
}

#[test]
fn a_report_counts_what_it_leaves_out() {
    let names: Vec<String> = (0..12).map(|i| format!("f{}.go", i)).collect();
    let mut list: Vec<(&str, &str, &[&str])> = Vec::new();
    for name in &names {
        for linter in ["l1", "l2", "l3", "l4"] {
            list.push((linter, name.as_str(), &[]));
        }
    }
    let report = golangci::report_issues(&found(&list), 1);
    assert!(report.starts_with("golangci-lint: 48 issues in 12 files\n"));
    assert!(report.ends_with("\n\n... +2 more files"));
    assert!(report.contains("  f9.go (4 issues)\n    l1 (1)\n    l2 (1)\n    l3 (1)\n"));
    assert!(!report.contains("f10.go"));
    assert!(!report.contains("    l4 (1)"));
}

#[test]
fn an_output_that_cannot_be_parsed_is_shown_cut() {
    let r = golangci::filter_golangci_json(Err("reason".to_string()), "0123456789", 1, 8);
    assert_eq!(r, "golangci-lint (JSON parse failed: reason)\n01234...");
    assert!(filter_golangci_json("not json", 2).ends_with("\nnot json"));
}

#[test]
fn source_lines_are_trimmed_and_cut() {
    let long = format!("  {}tail", "é".repeat(80));
    let output = found(&[("l", "f.go", &[long.as_str()])]);
    let report = golangci::report_issues(&output, 2);
    assert!(report.ends_with(&format!("      → {}", "é".repeat(80))));
}

#[test]
fn only_versions_with_a_dot_count() {
    assert_eq!(parse_major_version("42 words 7.x"), 7);
    assert_eq!(parse_major_version("v2.1.0 3.0"), 3);
    assert_eq!(parse_major_version("99999999999.1"), 1);
    assert_eq!(parse_major_version("+2.1"), 2);
    assert_eq!(parse_major_version(".5"), 1);
}

#[test]
fn paths_are_shortened_at_the_last_directory_of_a_usual_name() {
    assert_eq!(compact_path("/a/pkg/b/pkg/c.go"), "pkg/c.go");
    assert_eq!(compact_path("/a/cmd/b/internal/c.go"), "cmd/b/internal/c.go");
    assert_eq!(compact_path("C:\\w\\internal\\x\\y.go"), "internal/x/y.go");
    assert_eq!(compact_path("pkg/x.go"), "x.go");
    assert_eq!(compact_path("x.go"), "x.go");
    assert_eq!(compact_path("a/"), "");
}

fn strings(list: &[&str]) -> Vec<String> {
    list.iter().map(|s| s.to_string()).collect()
}

fn captured(stdout: &str, stderr: &str, exit_code: i32) -> CaptureResult {
    CaptureResult {
        stdout: stdout.to_string(),
        stderr: stderr.to_string(),
        combined: String::new(),
        exit_code,
    }
}

fn command_of(step: Step<LintStage>) -> (Vec<Chunk>, Vec<String>, LintStage) {
    match step.next {
        Next::Run { command, stage, .. } => {
            assert_eq!(command.program, "golangci-lint");
            (step.printed.chunks, command.args, stage)
        }
        _ => panic!("the session does not go on"),
    }
}

#[test]
fn a_session_asks_for_json_as_the_version_wants_it() {
    let (_, args, stage) = command_of(golangci_run::run(&strings(&["./..."]), 1));
    assert_eq!(args, vec!["--version"]);
    match stage {
        LintStage::Version { args, verbose } => {
            assert_eq!(args, vec!["./..."]);
            assert_eq!(verbose, 1);
        }
        _ => panic!("the session does not wait for the version"),
    }
    let ask = |args: &[&str], event: Option<CaptureResult>| {
        command_of(golangci_run::after_version(strings(args), 1, event))
    };
    let (printed, args, _) = ask(&["./..."], Some(captured("", "version 2.1.0", 0)));
    assert_eq!(args, vec!["run", "--output.json.path", "stdout", "./..."]);
    assert_eq!(
        printed,
        vec![Chunk::Stderr(
            "Running: golangci-lint run --output.json.path stdout\n".to_string()
        )]
    );
    let (printed, args, _) = ask(&["./..."], None);
    assert_eq!(args, vec!["run", "--out-format=json", "./..."]);
    assert_eq!(
        printed,
        vec![Chunk::Stderr(
            "Running: golangci-lint run --out-format=json\n".to_string()
        )]
    );
    for flag in [
        "--out-format",
        "--out-format=tab",
        "--output.json.path",
        "--output.json.path=x",
    ] {
        let (_, args, _) = ask(&[flag], Some(captured("version 1.9", "2.0", 0)));
        assert_eq!(args, vec!["run", flag]);
    }
}

#[test]
fn the_json_part_depends_on_the_version() {
    assert_eq!(golangci_run::json_output("{}\nrest\n", 2), "{}");
    assert_eq!(golangci_run::json_output("", 2), "");
    assert_eq!(golangci_run::json_output("{}\nrest\n", 1), "{}\nrest\n");
}

#[test]
fn issues_are_no_failure() {
    let end = |code: Option<i32>, stderr: &str| {
        let step = golangci_run::finish(
            strings(&["./..."]),
            1,
            captured("{}", stderr, 0),
            code,
            Ok(found(&[])),
            100,
        );
        let record = step.record.expect("a record");
        assert_eq!(record.original, "golangci-lint ./...");
        assert_eq!(record.rewritten, "rtk golangci-lint ./...");
        assert_eq!(record.input, format!("{{}}\n{}", stderr));
        assert_eq!(record.output, "golangci-lint: No issues found");
        match step.next {
            Next::Done(code) => (step.printed.chunks, code),
            _ => panic!("the session does not end"),
        }
    };
    let line = Chunk::Stdout("golangci-lint: No issues found\n".to_string());
    assert_eq!(end(Some(0), ""), (vec![line], 0));
    assert_eq!(end(Some(1), "").1, 0);
    let (printed, code) = end(Some(3), " bad \n");
    assert_eq!(printed[1], Chunk::Stderr("bad\n".to_string()));
    assert_eq!(code, 3);
    let (printed, code) = end(None, "");
    assert_eq!(
        printed[1],
        Chunk::Stderr("golangci-lint: killed by signal\n".to_string())
    );
    assert_eq!(code, 130);
}

#[test]
fn a_linter_that_cannot_run_says_how_to_get_it() {
    match golangci_run::fail_lint().next {
        Next::Fail(message) => assert!(message.contains("go install")),
        _ => panic!("the session does not fail"),
    }
}

#[test]
fn names_are_counted_and_ranked() {
    let names = strings(&["b", "a", "c", "a", "b", "d"]);
    assert_eq!(
        tally::rank_names(&names),
        vec![
            ("b".to_string(), 2),
            ("a".to_string(), 2),
            ("c".to_string(), 1),
            ("d".to_string(), 1)
        ]
    );
    let none: Vec<(String, usize)> = Vec::new();
    assert_eq!(tally::rank_names(&[]), none);
}

#[test]
fn versions_differ_in_source_lines_alone() {
    let one = |linter: &str, file: &str, source: &[&str]| Issue {
        from_linter: linter.to_string(),
        text: String::new(),
        pos: Position {
            filename: file.to_string(),
            line: 1,
            column: 1,
            offset: 0,
        },
        source_lines: source.iter().map(|s| s.to_string()).collect(),
        severity: String::new(),
    };
    let found = GolangciOutput {
        issues: vec![
            one("errcheck", "/x/pkg/a.go", &["  f()  ", "g()"]),
            one("errcheck", "/x/pkg/a.go", &["h()"]),
            one("govet", "/x/pkg/a.go", &[]),
            one("unused", "b.go", &["   "]),
        ],
    };
    let v1 = golangci::report_issues(&found, 1);
    let v2 = golangci::report_issues(&found, 2);
    let shown: Vec<&str> = v2.lines().filter(|l| l.starts_with("      →")).collect();
    assert_eq!(shown, vec!["      → f()", "      →"]);
    let rest: Vec<&str> = v2.lines().filter(|l| !l.starts_with("      →")).collect();
    assert_eq!(rest, v1.lines().collect::<Vec<&str>>());
    assert_eq!(golangci::report_issues(&found, 0), v1);
}
