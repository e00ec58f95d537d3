use whowns::detect::owner::Platform;
use whowns::detect::{detection_step, DetectionContext, DetectionStep, Pending};
use whowns::exec::{QueryOutput, QueryResult};
use whowns::graph::{graph, resolution};
use whowns::model::{OwnerId, OwnershipNode};
use whowns::output::print_inspect;
use whowns::scan::ResolvedExecutable;

const TOOL: &str = "/tmp/whowns-sandbox/bin/fixture-tool";

fn exits(success: bool, stdout: &str) -> QueryResult {
    Ok(QueryOutput { success, stdout: stdout.to_string(), truncated: false })
}

/// Detection of the sandbox tool, each query answered by `answer` (`None`:
/// the program is not on PATH), with the queries in the order they were asked.
fn detect_with(
    platform: Platform,
    path: &str,
    answer: impl Fn(&str, &[String]) -> Option<QueryResult>,
) -> (OwnershipNode, Vec<(String, Vec<String>)>) {
    let ctx = DetectionContext::new("fixture-tool", path, path, None, platform);
    let mut asked = Vec::new();
    let mut step = detection_step(&ctx, Pending::Start, None);
    loop {
        match step {
            DetectionStep::Done(node) => return (node, asked),
            DetectionStep::Query { pending, program, arguments } => {
                let outcome = answer(program, &arguments);
                asked.push((program.to_string(), arguments));
                step = detection_step(&ctx, pending, outcome);
            }
        }
    }
}

fn explained(node: OwnershipNode) -> String {
    let exe = ResolvedExecutable { path: TOOL.to_string(), real_path: TOOL.to_string(), active: true };
    let graphs = vec![graph("fixture-tool", vec![resolution(exe, node, None)])];
    print_inspect(&graphs, true)
}

fn assert_linux_package_query(
    query_program: &str,
    query_result: &str,
    expected_owner: &str,
    expected_guide: &str,
) {
    let printed = format!("{query_result}\n");
    let (node, _) = detect_with(Platform::Linux, TOOL, |program, _| {
        if program == query_program {
            Some(exits(true, &printed))
        } else {
            None
        }
    });
    let stdout = explained(node);

    assert!(stdout.contains(expected_owner), "output: {stdout}");
    assert!(stdout.contains("kind: package_manager"), "output: {stdout}");
    assert!(stdout.contains(expected_guide), "output: {stdout}");
    assert!(stdout.contains("package query:"));
}

#[test]
fn reads_dpkg_package_ownership() {
    assert_linux_package_query(
        "dpkg-query",
        "fixture-package: /fixture-tool",
        "dpkg [confirmed]",
        "apt install --only-upgrade fixture-package",
    );
}

#[test]
fn reads_rpm_package_ownership() {
    assert_linux_package_query(
        "rpm",
        "fixture-package-1.2.3-1.x86_64",
        "RPM [confirmed]",
        "Use the system's RPM frontend",
    );
}

#[test]
fn reads_pacman_package_ownership() {
    assert_linux_package_query(
        "pacman",
        "/fixture-tool is owned by fixture-package 1.2.3-1",
        "pacman [confirmed]",
        "inspect: pacman -Qo",
    );
}

#[test]
fn reads_apk_package_ownership() {
    assert_linux_package_query(
        "apk",
        "/fixture-tool is owned by fixture-package-1.2.3-r0",
        "apk [confirmed]",
        "inspect: apk info -W",
    );
}

#[test]
fn continues_to_the_next_package_tool_when_one_reports_success_with_empty_output() {
    let (node, asked) = detect_with(Platform::Linux, TOOL, |program, _| match program {
        "dpkg-query" => Some(exits(true, "")),
        "rpm" => Some(exits(true, "fixture-package-1.2.3-1.x86_64\n")),
        _ => None,
    });
    let stdout = explained(node);

    assert!(stdout.contains("RPM [confirmed]"), "output: {stdout}");
    assert_eq!(
        asked,
        vec![
            ("dpkg-query".to_string(), vec!["-S".to_string(), TOOL.to_string()]),
            ("rpm".to_string(), vec!["-qf".to_string(), TOOL.to_string()]),
        ]
    );
}

#[test]
fn reads_a_macos_installer_receipt_through_pkgutil() {
    let (node, _) = detect_with(Platform::MacOs, TOOL, |program, arguments| {
        if program != "pkgutil" {
            return None;
        }
        if arguments.first().map(String::as_str) == Some("--file-info") {
            Some(exits(true, "pkgid: com.example.fixture\npkg-version: 1.2.3\n"))
        } else {
            Some(exits(false, ""))
        }
    });
    let stdout = explained(node);

    assert!(stdout.contains("macOS Installer (.pkg) [confirmed]"), "output: {stdout}");
    assert!(stdout.contains("package: com.example.fixture"));
    assert!(stdout.contains("version: 1.2.3"));
    assert!(stdout.contains("pkgutil --pkg-info com.example.fixture"));
}

#[test]
fn every_package_tool_is_asked_in_turn_before_the_fallback() {
    let (node, asked) = detect_with(Platform::Linux, TOOL, |_, _| Some(exits(false, "")));
    let programs: Vec<&str> = asked.iter().map(|(program, _)| program.as_str()).collect();

    assert_eq!(programs, vec!["dpkg-query", "rpm", "pacman", "apk"]);
    assert_eq!(asked[3].1, vec!["info".to_string(), "-W".to_string(), TOOL.to_string()]);
    assert_eq!(node.id, OwnerId::UnconfirmedOwner);
}

#[test]
fn a_path_detector_decides_without_any_query() {
    let (node, asked) = detect_with(
        Platform::Linux,
        "/opt/homebrew/Cellar/node/25.0/bin/node",
        |_, _| panic!("no query is expected"),
    );

    assert!(asked.is_empty());
    assert_eq!(node.id, OwnerId::Homebrew);
}

#[test]
fn macos_detection_stops_when_pkgutil_is_not_on_path() {
    let (node, asked) = detect_with(Platform::MacOs, "/usr/bin/fixture-tool", |_, _| None);

    assert_eq!(asked.len(), 1);
    assert_eq!(node.id, OwnerId::OperatingSystem);
}

#[test]
fn macos_falls_back_to_the_python_org_framework_receipt() {
    let path = "/Library/Frameworks/Python.framework/Versions/3.12/bin/python3";
    let (node, asked) = detect_with(Platform::MacOs, path, |_, arguments| {
        if arguments.first().map(String::as_str) == Some("--pkg-info") {
            Some(exits(true, "package-id: org.python.Python.PythonFramework-3.12\n"))
        } else {
            Some(exits(false, ""))
        }
    });

    assert_eq!(asked.len(), 3);
    assert_eq!(
        asked[2].1,
        vec!["--pkg-info".to_string(), "org.python.Python.PythonFramework-3.12".to_string()]
    );
    assert_eq!(node.id, OwnerId::PythonOrgInstaller);
    assert_eq!(node.version.as_deref(), Some("3.12"));
}

#[test]
fn a_macports_registry_match_confirms_the_port() {
    let path = "/opt/local/bin/fixture-tool";
    let (node, asked) = detect_with(Platform::MacOs, path, |program, _| {
        if program == "port" {
            Some(exits(true, "fixture-port\n"))
        } else {
            None
        }
    });

    assert_eq!(asked.last().unwrap().0, "port");
    assert_eq!(
        asked.last().unwrap().1,
        vec!["-q".to_string(), "provides".to_string(), path.to_string()]
    );
    assert_eq!(node.id, OwnerId::MacPorts);
    assert_eq!(node.package.as_deref(), Some("fixture-port"));
    assert_eq!(node.confidence.as_str(), "confirmed");
}

#[test]
fn a_macports_path_without_a_registry_match_stays_probable() {
    let path = "/opt/local/bin/fixture-tool";
    let (node, _) = detect_with(Platform::Linux, path, |program, _| {
        if program == "port" {
            Some(exits(true, "/opt/local/bin/fixture-tool is not provided by a MacPorts port.\n"))
        } else {
            None
        }
    });
    assert_eq!(node.id, OwnerId::MacPorts);
    assert_eq!(node.package, None);
    assert_eq!(node.confidence.as_str(), "probable");

    let (verbose, _) = detect_with(Platform::Other, path, |_, _| {
        Some(exits(true, "/opt/local/bin/fixture-tool is provided by: fixture-port\n"))
    });
    assert_eq!(verbose.package.as_deref(), Some("fixture-port"));
}
