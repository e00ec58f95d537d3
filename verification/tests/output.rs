use whowns::model::{
    ActionGuide, Confidence, Evidence, OwnerId, OwnershipGraph, OwnershipNode, Resolution,
    ResolutionStatus,
};
use whowns::output::{escape, print_inspect, print_json, print_list};

fn graph() -> OwnershipGraph {
    OwnershipGraph {
        command: "node".into(),
        resolutions: vec![Resolution {
            path: "/opt/homebrew/bin/node".into(),
            real_path: "/opt/homebrew/Cellar/node/25/bin/node".into(),
            status: ResolutionStatus::Active,
            owners: vec![OwnershipNode {
                id: OwnerId::Homebrew,
                package: Some("node".into()),
                version: Some("25".into()),
                confidence: Confidence::Confirmed,
                evidence: vec![],
                actions: ActionGuide::default(),
            }],
        }],
    }
}

#[test]
fn list_and_inspect_read_the_same_graph() {
    let graphs = vec![graph()];
    let list = print_list(&graphs, false);
    let inspect = print_inspect(&graphs, false);
    assert!(list.contains("Homebrew [confirmed]"));
    assert!(inspect.contains("Homebrew [confirmed]"));
}

#[test]
fn json_contains_common_graph_fields() {
    let json = print_json(&vec![graph()]);
    assert!(json.contains("\"resolutions\""));
    assert!(json.contains("\"ownership_chain\""));
    assert!(json.contains("\"action_guide\""));
}

#[test]
fn json_separates_the_stable_owner_id_from_the_display_name() {
    let json = print_json(&vec![graph()]);
    assert!(json.contains("\"id\": \"homebrew\""));
    assert!(json.contains("\"name\": \"Homebrew\""));
}

#[test]
fn text_output_renders_display_names_not_stable_ids() {
    let graph = OwnershipGraph {
        command: "java".into(),
        resolutions: vec![Resolution {
            path: "/home/me/.sdkman/candidates/java/21/bin/java".into(),
            real_path: "/home/me/.sdkman/candidates/java/21/bin/java".into(),
            status: ResolutionStatus::Active,
            owners: vec![OwnershipNode {
                id: OwnerId::Sdkman,
                package: Some("java".into()),
                version: Some("21".into()),
                confidence: Confidence::Confirmed,
                evidence: vec![],
                actions: ActionGuide::default(),
            }],
        }],
    };
    let inspect = print_inspect(&vec![graph], true);
    assert!(inspect.contains("SDKMAN! [confirmed]"));
    assert!(inspect.contains("owner[1]: SDKMAN! (version_manager, confirmed)"));
}

#[test]
fn escapes_json_control_characters() {
    assert_eq!(escape("a\"b\\c\n"), "a\\\"b\\\\c\\n");
}

// Further cases of the library's own.

#[test]
fn escapes_other_control_characters_as_unicode() {
    assert_eq!(escape("\u{1}\t\r\u{7f}\u{9f}é"), "\\u0001\\t\\r\\u007f\\u009fé");
}

#[test]
fn inspect_text_is_exact() {
    let mut g = graph();
    g.resolutions[0].owners[0].actions.update = Some("brew upgrade node".into());
    g.resolutions[0].owners[0].evidence.push(Evidence {
        source: "PATH".into(),
        detail: "PATH entry is /opt/homebrew/bin/node".into(),
    });
    let missing = OwnershipGraph { command: "go".into(), resolutions: vec![] };
    let text = print_inspect(&vec![g, missing], false);
    assert_eq!(
        text,
        "node\n└── ● active\n    ├── executable: /opt/homebrew/bin/node\n    ├── resolves to: /opt/homebrew/Cellar/node/25/bin/node\n    ├── ownership: node → Homebrew [confirmed]\n    └── actions (Homebrew)\n        └── update: brew upgrade node\n\ngo\n└── not found in PATH\n"
    );
}

#[test]
fn active_and_shadowed_resolutions_are_branches_of_one_tree() {
    let mut g = graph();
    let mut shadowed = graph().resolutions.remove(0);
    shadowed.status = ResolutionStatus::Shadowed;
    shadowed.path = "/usr/local/bin/node".into();
    shadowed.real_path = "/usr/local/bin/node".into();
    g.resolutions.push(shadowed);
    let text = print_inspect(&vec![g], false);
    assert!(text.contains("├── ● active\n│   ├── executable: /opt/homebrew/bin/node\n"));
    assert!(text.contains("└── ○ shadowed\n    ├── executable: /usr/local/bin/node\n"));
}

#[test]
fn explained_inspect_lists_every_owner_with_its_evidence() {
    let mut g = graph();
    g.resolutions[0].owners[0].evidence.push(Evidence {
        source: "PATH".into(),
        detail: "PATH entry is /opt/homebrew/bin/node".into(),
    });
    let text = print_inspect(&vec![g], true);
    assert!(text.contains(
        "    └── owner[1]: Homebrew (package_manager, confirmed)\n        ├── kind: package_manager\n        ├── package: node\n        ├── version: 25\n        └── evidence\n            └── PATH: PATH entry is /opt/homebrew/bin/node\n"
    ));
}

#[test]
fn explained_chain_lists_each_owner_under_the_ownership_line() {
    let chained = || {
        let mut g = graph();
        g.resolutions[0].owners[0].id = OwnerId::Nvm;
        g.resolutions[0].owners.push(OwnershipNode {
            id: OwnerId::Mise,
            package: None,
            version: None,
            confidence: Confidence::Confirmed,
            evidence: vec![],
            actions: ActionGuide::default(),
        });
        g
    };
    let g = chained();
    let text = print_inspect(&vec![g], true);
    assert!(text.contains("ownership: node → nvm [confirmed] → mise [confirmed]"));
    assert!(text.contains("├── nvm [confirmed]"));
    assert!(text.contains("└── mise [confirmed]"));
    assert!(text.contains("kind: version_manager"));
    let brief = print_inspect(&vec![chained()], false);
    assert!(brief.contains("hint: use --explain to see how the manager itself was installed"));
}

#[test]
fn list_pads_columns_and_counts_shadowed_resolutions() {
    let mut g = graph();
    let mut shadowed = graph().resolutions.remove(0);
    shadowed.status = ResolutionStatus::Shadowed;
    g.resolutions.push(shadowed);
    let missing = OwnershipGraph { command: "go".into(), resolutions: vec![] };
    let text = print_list(&vec![g, missing], false);
    assert_eq!(
        text,
        "COMMAND  CONFIDENCE  SHADOWED   OWNER CHAIN\nnode     confirmed   1          Homebrew [confirmed]\ngo       unknown     0          not found\n"
    );
    let explained = print_list(&vec![graph()], true);
    assert!(explained.contains("\nDetails\n\nnode\n"));
}

#[test]
fn json_document_is_exact_for_an_empty_chain() {
    let g = OwnershipGraph {
        command: "x\"y".into(),
        resolutions: vec![Resolution {
            path: "/a".into(),
            real_path: "/a".into(),
            status: ResolutionStatus::Shadowed,
            owners: vec![],
        }],
    };
    assert_eq!(
        print_json(&vec![g]),
        "[\n  {\n    \"command\": \"x\\\"y\",\n    \"resolutions\": [\n      {\n        \"status\": \"shadowed\",\n        \"path\": \"/a\",\n        \"real_path\": \"/a\",\n        \"ownership_chain\": [\n        ]\n      }\n    ]\n  }\n]\n"
    );
    assert_eq!(print_json(&vec![]), "[\n]\n");
}
