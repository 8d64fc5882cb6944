//! pnpm: lists, outdated packages and installations.
use rtk::parser::{Dependency, DependencyState, ParseResult};
use rtk::pnpm::{
    cut_sections, extract_list_text, extract_outdated_text, filter_pnpm_install,
    format_dependency_listing, PackageJsonListItem, PnpmListOutput, PnpmListParser,
    PnpmOutdatedOutput, PnpmOutdatedPackage, PnpmOutdatedParser, MAX_LISTING,
};
use rtk::pnpm_run::{
    cuts_listing, fail_pnpm, finish_install, finish_list, finish_outdated, run, PnpmCommand,
    PnpmStage,
};
use rtk::session::{CaptureResult, Chunk, Next, Record, Step};
use serde_json::Value;

fn package(v: &Value) -> PackageJsonListItem {
    PackageJsonListItem {
        version: v["version"].as_str().map(|s| s.to_string()),
        dependencies: packages(&v["dependencies"]),
        dev_dependencies: packages(&v["devDependencies"]),
    }
}

fn packages(v: &Value) -> Vec<(String, PackageJsonListItem)> {
    match v.as_object() {
        Some(map) => map.iter().map(|(k, p)| (k.clone(), package(p))).collect(),
        None => Vec::new(),
    }
}

fn list_json(input: &str) -> Result<Vec<PnpmListOutput>, String> {
    let value: Value = serde_json::from_str(input).map_err(|e| e.to_string())?;
    match value.as_array() {
        Some(projects) => Ok(projects
            .iter()
            .map(|p| PnpmListOutput {
                name: p["name"].as_str().unwrap_or("").to_string(),
                package: package(p),
            })
            .collect()),
        None => Err("invalid type".to_string()),
    }
}

fn outdated_json(input: &str) -> Result<PnpmOutdatedOutput, String> {
    let value: Value = serde_json::from_str(input).map_err(|e| e.to_string())?;
    match value.as_object() {
        Some(map) => Ok(PnpmOutdatedOutput {
            packages: map
                .iter()
                .map(|(k, p)| {
                    (
                        k.clone(),
                        PnpmOutdatedPackage {
                            current: p["current"].as_str().unwrap_or("").to_string(),
                            latest: p["latest"].as_str().unwrap_or("").to_string(),
                            wanted: p["wanted"].as_str().map(|s| s.to_string()),
                            dependency_type: p["dependencyType"].as_str().unwrap_or("").to_string(),
                        },
                    )
                })
                .collect(),
        }),
        None => Err("invalid type".to_string()),
    }
}

fn make_state(prod: &[&str], dev: &[&str]) -> DependencyState {
    let mut deps = Vec::new();
    for name in prod {
        deps.push(Dependency {
            name: name.to_string(),
            current_version: "1.0.0".to_string(),
            latest_version: None,
            wanted_version: None,
            dev_dependency: false,
        });
    }
    for name in dev {
        deps.push(Dependency {
            name: name.to_string(),
            current_version: "1.0.0".to_string(),
            latest_version: None,
            wanted_version: None,
            dev_dependency: true,
        });
    }
    DependencyState {
        total_packages: deps.len(),
        outdated_count: 0,
        dependencies: deps,
    }
}

#[test]
fn test_pnpm_list_parser_json() {
    let json = r#"[
            {
                "name": "my-project",
                "version": "1.0.0",
                "dependencies": {
                    "express": {
                        "version": "4.18.2"
                    }
                }
            }
        ]"#;

    let result = PnpmListParser::parse(json, list_json(json), String::new());
    assert_eq!(result.tier(), 1);
    assert!(result.is_ok());

    let data = result.unwrap();
    assert!(data.total_packages >= 2);
}

#[test]
fn test_pnpm_outdated_parser_json() {
    let json = r#"{
            "express": {
                "current": "4.18.2",
                "latest": "4.19.0",
                "wanted": "4.18.2"
            }
        }"#;

    let result = PnpmOutdatedParser::parse(json, outdated_json(json), String::new());
    assert_eq!(result.tier(), 1);
    assert!(result.is_ok());

    let data = result.unwrap();
    assert_eq!(data.outdated_count, 1);
    assert_eq!(data.dependencies[0].name, "express");
}

#[test]
fn test_format_listing_grouped_sections() {
    let state = make_state(&["react", "typescript"], &["eslint", "vitest"]);
    let out = format_dependency_listing(&state, true, None, None);
    assert!(out.contains("[prod]"), "prod section missing");
    assert!(out.contains("[dev]"), "dev section missing");
    assert!(out.contains("react"), "prod package missing");
    assert!(out.contains("eslint"), "dev package missing");
    assert!(!out.contains("(dev)"), "per-line (dev) marker should be gone");
}

#[test]
fn test_format_listing_cap_shows_hint_with_offset() {
    let prod: Vec<&str> = (0..60).map(|_| "pkg").collect();
    let state = make_state(&prod, &["eslint"]);
    let out = format_dependency_listing(&state, true, None, None);
    let prod_count = 60usize;
    assert!(
        out.contains(&format!("… +{} more", prod_count - MAX_LISTING)),
        "truncation count missing: got\n{out}"
    );
}

#[test]
fn test_format_listing_no_cap_when_prod_only() {
    let prod: Vec<&str> = (0..60).map(|_| "pkg").collect();
    let state = make_state(&prod, &[]);
    let out = format_dependency_listing(&state, false, None, None);
    assert!(!out.contains("… +"), "should not truncate when cap=false");
    assert!(!out.contains("[dev]"), "no dev section for prod-only state");
}

#[test]
fn test_format_listing_no_cap_when_dev_only() {
    let dev: Vec<&str> = (0..60).map(|_| "pkg").collect();
    let state = make_state(&[], &dev);
    let out = format_dependency_listing(&state, false, None, None);
    assert!(!out.contains("… +"), "should not truncate when cap=false");
    assert!(!out.contains("[prod]"), "no prod section for dev-only state");
}

#[test]
fn test_extract_list_text_tracks_dev_section() {
    let input = "dependencies:\nreact@18.0.0\ndevDependencies:\neslint@8.0.0\n";
    let state = extract_list_text(input).expect("should parse");
    let react = state.dependencies.iter().find(|d| d.name == "react").unwrap();
    let eslint = state.dependencies.iter().find(|d| d.name == "eslint").unwrap();
    assert!(!react.dev_dependency, "react should be prod");
    assert!(eslint.dev_dependency, "eslint should be dev");
}


#[test]
fn a_list_is_collected_from_the_top_down() {
    let json = r#"[{"name": "p", "version": "1.0.0",
        "dependencies": {"a": {"version": "2.0.0", "devDependencies": {"b": {"version": "3.0.0"}}}},
        "devDependencies": {"c": {"dependencies": {"d": {"version": "4.0.0"}}}}}]"#;
    let data = PnpmListParser::parse(json, list_json(json), String::new()).unwrap();
    let list: Vec<(&str, &str, bool)> = data
        .dependencies
        .iter()
        .map(|d| (d.name.as_str(), d.current_version.as_str(), d.dev_dependency))
        .collect();
    assert_eq!(
        list,
        vec![
            ("p", "1.0.0", false),
            ("a", "2.0.0", false),
            ("b", "3.0.0", true),
            ("d", "4.0.0", true)
        ]
    );
    assert_eq!(data.total_packages, 4);
    assert_eq!(data.outdated_count, 0);
}

#[test]
fn a_list_that_is_no_json_is_read_as_text() {
    let input = "Legend: x\n@scope/pkg@1.2.3 extra\n├ y@1\nnoversion@\n@noname\nplain\n\n";
    let r = PnpmListParser::parse(input, Err("why".to_string()), "cut".to_string());
    assert_eq!(r.tier(), 2);
    assert!(r.is_ok());
    match r {
        ParseResult::Degraded(data, warnings) => {
            assert_eq!(warnings, vec!["JSON parse failed: why"]);
            assert_eq!(data.total_packages, 1);
            assert_eq!(data.dependencies[0].name, "@scope/pkg");
            assert_eq!(data.dependencies[0].current_version, "1.2.3");
        }
        _ => panic!("not degraded"),
    }
    let r = PnpmListParser::parse("nothing", Err("why".to_string()), "cut".to_string());
    assert_eq!(r.tier(), 3);
    assert!(!r.is_ok());
    match r {
        ParseResult::Passthrough(raw) => assert_eq!(raw, "cut"),
        _ => panic!("understood"),
    }
}

#[test]
fn outdated_packages_are_read_as_text() {
    let input = "Package  Current  Wanted  Latest\na 1.0 1.1 2.0\nb 1.0 1.0 1.0 x\nc 1.0\n─── x y z\n";
    let state = extract_outdated_text(input).expect("packages");
    assert_eq!(state.total_packages, 2);
    assert_eq!(state.outdated_count, 1);
    assert_eq!(state.dependencies[0].wanted_version.as_deref(), Some("1.1"));
    assert_eq!(state.dependencies[0].latest_version.as_deref(), Some("2.0"));
    assert!(extract_outdated_text("Package x y z\n").is_none());
    let r = PnpmOutdatedParser::parse(input, Err("why".to_string()), "cut".to_string());
    assert_eq!(r.tier(), 2);
    let r = PnpmOutdatedParser::parse("", Err("why".to_string()), "cut".to_string());
    assert_eq!(r.tier(), 3);
}

#[test]
fn outdated_development_packages_are_told() {
    let json = r#"{"a": {"current": "1", "latest": "1", "dependencyType": "devDependencies"},
        "b": {"current": "1", "latest": "2", "dependencyType": "dependencies"}}"#;
    let data = PnpmOutdatedParser::parse(json, outdated_json(json), String::new()).unwrap();
    assert_eq!(data.total_packages, 2);
    assert_eq!(data.outdated_count, 1);
    let a = data.dependencies.iter().find(|d| d.name == "a").unwrap();
    let b = data.dependencies.iter().find(|d| d.name == "b").unwrap();
    assert!(a.dev_dependency && !b.dev_dependency);
    assert_eq!(a.wanted_version, None);
}

#[test]
fn a_listing_is_exact() {
    let state = make_state(&["a", "b"], &["c"]);
    assert_eq!(
        format_dependency_listing(&state, true, None, None),
        "3 packages (2 prod / 1 dev)\n[prod]\n  a 1.0.0\n  b 1.0.0\n[dev]\n  c 1.0.0"
    );
    let mut state = make_state(&[], &[]);
    state.total_packages = 7;
    assert_eq!(
        format_dependency_listing(&state, true, None, None),
        "7 packages (0 prod / 0 dev)"
    );
}

#[test]
fn a_cut_section_says_where_the_rest_is() {
    let names: Vec<String> = (0..MAX_LISTING + 3).map(|i| format!("p{}", i)).collect();
    let list: Vec<&str> = names.iter().map(|s| s.as_str()).collect();
    let state = make_state(&list, &list);
    let shown = format_dependency_listing(
        &state,
        true,
        Some("see file".to_string()),
        None,
    );
    assert!(shown.contains("  p19 1.0.0\n  … +3 more\n  see file\n[dev]\n"));
    assert!(shown.ends_with("  p19 1.0.0\n  … +3 more"));
    assert!(!shown.contains("p20"));
    let (prod, dev) = cut_sections(&state, true);
    assert_eq!(prod, dev);
    let saved = prod.expect("a cut section");
    assert!(saved.starts_with("  p0 1.0.0\n") && saved.ends_with("\n  p22 1.0.0"));
    assert_eq!(cut_sections(&state, false), (None, None));
    let whole = format_dependency_listing(&state, false, Some("unused".to_string()), None);
    assert!(whole.contains("p22") && !whole.contains("unused"));
    let full: Vec<&str> = list[..MAX_LISTING].to_vec();
    assert_eq!(cut_sections(&make_state(&full, &[]), true), (None, None));
}

#[test]
fn an_installation_keeps_errors_and_its_summary() {
    let output = "Progress: resolved 1\n\n ERR_PNPM x \nnoise\n dependencies:\n+ a 1.0\n- b\n100%\n  Done: 3 packages in 1s\n";
    assert_eq!(
        filter_pnpm_install(output),
        " ERR_PNPM x \ndependencies:\n+ a 1.0\n- b\nDone: 3 packages in 1s"
    );
    assert_eq!(filter_pnpm_install("noise\n"), "ok");
    assert_eq!(filter_pnpm_install("50% error\n"), "ok");
}

fn strings(list: &[&str]) -> Vec<String> {
    list.iter().map(|s| s.to_string()).collect()
}

fn captured(stdout: &str, stderr: &str, exit_code: i32) -> CaptureResult {
    CaptureResult {
        stdout: stdout.to_string(),
        stderr: stderr.to_string(),
        combined: format!("{}{}", stdout, stderr),
        exit_code,
    }
}

fn command_of(step: Step<PnpmStage>) -> (Vec<Chunk>, Vec<String>, PnpmStage) {
    match step.next {
        Next::Run { command, stage, .. } => {
            assert_eq!(command.program, "pnpm");
            (step.printed.chunks, command.args, stage)
        }
        _ => panic!("the session does not go on"),
    }
}

fn end_of(step: Step<PnpmStage>) -> (Vec<Chunk>, Option<Record>, i32) {
    match step.next {
        Next::Done(code) => (step.printed.chunks, step.record, code),
        _ => panic!("the session does not end"),
    }
}

#[test]
fn sessions_run_pnpm_with_json() {
    let (_, args, _) = command_of(run(PnpmCommand::List { depth: 2 }, &strings(&["-P"]), 0));
    assert_eq!(args, vec!["list", "--depth=2", "--json", "-P"]);
    let (_, args, _) = command_of(run(PnpmCommand::Outdated, &strings(&["-r"]), 0));
    assert_eq!(args, vec!["outdated", "--format", "json", "-r"]);
    let (printed, args, _) = command_of(run(PnpmCommand::Install, &[], 1));
    assert_eq!(args, vec!["install"]);
    assert_eq!(
        printed,
        vec![Chunk::Stderr("pnpm install running...\n".to_string())]
    );
}

#[test]
fn commands_of_pnpm_that_cannot_run_say_so() {
    for (cmd, message) in [
        (PnpmCommand::List { depth: 0 }, "Failed to run pnpm list"),
        (PnpmCommand::Outdated, "Failed to run pnpm outdated"),
        (PnpmCommand::Install, "Failed to run pnpm install"),
    ] {
        let (_, _, stage) = command_of(run(cmd, &[], 0));
        match fail_pnpm(&stage).next {
            Next::Fail(text) => assert_eq!(text, message),
            _ => panic!("the session does not fail"),
        }
    }
}

#[test]
fn lists_end_with_what_was_understood() {
    let end = |args: &[&str], verbose: u8, parsed: ParseResult<DependencyState>| {
        let step = finish_list(
            1,
            strings(args),
            verbose,
            captured("in", "", 0),
            parsed,
            None,
            None,
        );
        end_of(step)
    };
    let state = || make_state(&["a"], &[]);
    let shown = "1 packages (1 prod / 0 dev)\n[prod]\n  a 1.0.0";
    let line = || Chunk::Stdout(format!("{}\n", shown));
    let (printed, record, code) = end(&[], 1, ParseResult::Full(state()));
    assert_eq!(
        printed,
        vec![
            Chunk::Stderr("pnpm list (Tier 1: Full JSON parse)\n".to_string()),
            line()
        ]
    );
    assert_eq!(
        record,
        Some(Record {
            original: "pnpm list --depth=1".to_string(),
            rewritten: "rtk pnpm list --depth=1".to_string(),
            input: "in".to_string(),
            output: shown.to_string(),
        })
    );
    assert_eq!(code, 0);
    let degraded = || ParseResult::Degraded(state(), strings(&["x", "y"]));
    assert_eq!(end(&[], 0, degraded()).0, vec![line()]);
    assert_eq!(
        end(&[], 1, degraded()).0,
        vec![
            Chunk::Degraded("pnpm list".to_string(), "x, y".to_string()),
            line()
        ]
    );
    assert_eq!(
        end(&[], 0, ParseResult::Passthrough("raw".to_string())).0,
        vec![
            Chunk::NotUnderstood(
                "pnpm list".to_string(),
                "All parsing tiers failed".to_string()
            ),
            Chunk::Stdout("raw\n".to_string())
        ]
    );
    let many: Vec<&str> = (0..MAX_LISTING + 1).map(|_| "p").collect();
    let cut = |args: &[&str]| {
        let (printed, _, _) = end(args, 0, ParseResult::Full(make_state(&many, &[])));
        match &printed[0] {
            Chunk::Stdout(text) => text.contains("more"),
            _ => panic!("nothing printed"),
        }
    };
    assert!(cut(&[]));
    assert!(cuts_listing(&[]));
    for flag in ["--prod", "-P", "--dev", "-D"] {
        assert!(!cut(&[flag]));
        assert!(!cuts_listing(&strings(&[flag])));
    }
    let step = finish_list(
        1,
        Vec::new(),
        0,
        captured("", "bad", 1),
        ParseResult::Passthrough(String::new()),
        None,
        None,
    );
    assert_eq!(
        end_of(step),
        (vec![Chunk::Stderr("bad".to_string())], None, 1)
    );
}

#[test]
fn outdated_packages_end_with_how_they_are_shown() {
    let end = |parsed: ParseResult<DependencyState>, formatted: &str| {
        end_of(finish_outdated(
            0,
            captured("o", "e", 1),
            parsed,
            formatted.to_string(),
        ))
    };
    let state = || ParseResult::Full(make_state(&[], &[]));
    let (printed, record, code) = end(state(), " \n");
    assert_eq!(
        printed,
        vec![Chunk::Stdout("All packages up-to-date\n".to_string())]
    );
    let record = record.expect("a record");
    assert_eq!(record.input, "oe");
    assert_eq!(record.output, " \n");
    assert_eq!(code, 0);
    assert_eq!(
        end(state(), "a 1 2").0,
        vec![Chunk::Stdout("a 1 2\n".to_string())]
    );
    let (printed, _, _) = end(ParseResult::Passthrough("raw".to_string()), "unused");
    assert_eq!(printed[1], Chunk::Stdout("raw\n".to_string()));
}

#[test]
fn installations_end_with_their_summary() {
    assert_eq!(
        end_of(finish_install(captured("noise\n", "+ a\n", 0))),
        (
            vec![Chunk::Stdout("+ a\n".to_string())],
            Some(Record {
                original: "pnpm install".to_string(),
                rewritten: "rtk pnpm install".to_string(),
                input: "noise\n+ a\n".to_string(),
                output: "+ a".to_string(),
            }),
            0
        )
    );
    assert_eq!(
        end_of(finish_install(captured("", "bad", 2))),
        (vec![Chunk::Stderr("bad".to_string())], None, 2)
    );
}
