use cagent_surfaces::mcp::{
    apply_mcp_form_field, is_mcp_form_boolean, mcp_definition_template, mcp_field_label,
    mcp_field_uses_json, mcp_form_choices, mcp_form_field, mcp_form_field_index,
    mcp_form_field_value, mcp_form_item_count, mcp_form_mutations, next_mcp_location,
    toggle_mcp_form_boolean, McpFormDraft, McpFormField, McpLocation, McpMutation, McpScope,
    McpTransportConfig,
};
use cagent_surfaces::mcp_control::{mcp_login_notice, mcp_server_menu_item_count};
use cagent_surfaces::mcp_package::{
    apply_package_field, package_draft, package_field_value, package_setup_count,
    package_setup_field, toggle_parameter, McpPackageDraft, McpPackageField, McpPackageParameter,
    McpPackageParameterType, McpPackageSecret, McpParameterValue,
};
use cagent_surfaces::render_mcp::{
    mcp_mutation_detail_lines, mcp_package_setup_lines, mcp_server_lines, McpMutationPreview,
    McpRuntimeStatus, McpServerRow,
};
use cagent_surfaces::style::{Line, Role, Style};

fn location(scope: McpScope) -> McpLocation {
    McpLocation { scope, agent: None }
}

fn draft() -> McpFormDraft {
    McpFormDraft {
        original: None,
        location: location(McpScope::Global),
        name: "docs".into(),
        definition: mcp_definition_template(1),
    }
}

#[test]
fn structured_fields_parse_nested_lists_and_maps() {
    let mut draft = draft();
    apply_mcp_form_field(
        &mut draft,
        McpFormField::Arguments,
        r#"["serve","--root", "${workspace}"]"#,
    )
    .unwrap();
    apply_mcp_form_field(
        &mut draft,
        McpFormField::Environment,
        r#"{"TOKEN":"${env:TOKEN}"}"#,
    )
    .unwrap();
    apply_mcp_form_field(
        &mut draft,
        McpFormField::ReadOnlyTools,
        r#"["search","read"]"#,
    )
    .unwrap();

    let McpTransportConfig::Stdio { args, env, .. } = &draft.definition.transport else {
        panic!("expected stdio draft");
    };
    assert_eq!(args, &["serve", "--root", "${workspace}"]);
    assert_eq!(env, &[("TOKEN".to_owned(), "${env:TOKEN}".to_owned())]);
    assert_eq!(draft.definition.read_only_tools, ["search", "read"]);
}

#[test]
fn rename_and_scope_edit_build_one_atomic_move_and_put_preview() {
    let agent = || McpLocation { scope: McpScope::Agent, agent: Some("review".into()) };
    let mut draft = draft();
    draft.original = Some((location(McpScope::Global), "docs".into()));
    draft.location = agent();
    draft.name = "review-docs".into();
    let mutations = mcp_form_mutations(&draft);
    assert!(matches!(
        &mutations[0],
        McpMutation::Move { name, new_name, .. }
            if name == "docs" && new_name == "review-docs"
    ));
    assert!(matches!(
        &mutations[1],
        McpMutation::Put { location, name, definition }
            if location.scope == McpScope::Agent
                && location.agent.as_deref() == Some("review")
                && name == "review-docs"
                && definition.enabled
                && definition.startup_timeout_seconds == 10
                && matches!(&definition.transport, McpTransportConfig::Stdio { inherit_env: true, .. })
    ));
}

#[test]
fn new_definitions_are_only_put() {
    let mutations = mcp_form_mutations(&draft());
    assert_eq!(mutations.len(), 1);
    assert!(matches!(&mutations[0], McpMutation::Put { name, .. } if name == "docs"));
}

#[test]
fn fields_are_shown_as_they_are_read() {
    let mut draft = draft();
    let written = [
        (McpFormField::Name, "docs"),
        (McpFormField::Agents, r#"["a","b\n"]"#),
        (McpFormField::StartupTimeout, "12"),
        (McpFormField::RequestTimeout, "7"),
        (McpFormField::ReadOnlyTools, r#"["x"]"#),
        (McpFormField::Command, "run"),
        (McpFormField::Arguments, r#"["--flag"]"#),
        (McpFormField::Cwd, "/tmp"),
        (McpFormField::Environment, r#"{"A":"1","B":"2"}"#),
        (McpFormField::RemovedEnvironment, r#"["C"]"#),
    ];
    for (field, text) in written {
        apply_mcp_form_field(&mut draft, field, text).unwrap();
        assert_eq!(mcp_form_field_value(&draft, field), text);
    }
}

#[test]
fn refused_fields_leave_the_draft_as_it_is() {
    let mut draft = draft();
    let before = mcp_form_field_value(&draft, McpFormField::StartupTimeout);
    let refused = |draft: &mut McpFormDraft, field, text: &str| {
        apply_mcp_form_field(draft, field, text).unwrap_err()
    };
    assert_eq!(
        refused(&mut draft, McpFormField::StartupTimeout, "soon"),
        "startup timeout must be a positive integer"
    );
    assert_eq!(
        refused(&mut draft, McpFormField::RequestTimeout, "-1"),
        "request timeout must be a positive integer"
    );
    assert!(refused(&mut draft, McpFormField::Agents, "{}")
        .starts_with("expected array of assigned agents: "));
    assert!(refused(&mut draft, McpFormField::Environment, "[]")
        .starts_with("expected object of environment variables: "));
    assert_eq!(refused(&mut draft, McpFormField::Url, "http://x"), "URL is only valid for HTTP");
    assert_eq!(
        refused(&mut draft, McpFormField::Headers, "{}"),
        "headers are only valid for HTTP"
    );
    assert_eq!(mcp_form_field_value(&draft, McpFormField::StartupTimeout), before);

    draft.definition = mcp_definition_template(2);
    for (field, message) in [
        (McpFormField::Command, "command is only valid for stdio"),
        (McpFormField::Arguments, "arguments are only valid for stdio"),
        (McpFormField::Cwd, "working directory is only valid for stdio"),
        (McpFormField::Environment, "environment is only valid for stdio"),
        (McpFormField::RemovedEnvironment, "removed variables are only valid for stdio"),
    ] {
        assert_eq!(refused(&mut draft, field, "[]"), message);
    }
}

#[test]
fn forms_number_their_fields() {
    let draft = draft();
    assert_eq!(mcp_form_item_count(&draft), 15);
    let http = mcp_definition_template(2);
    assert_eq!(mcp_form_field(&http, 9), Some(McpFormField::Url));
    for index in 0..15 {
        if let Some(field) = mcp_form_field(&draft.definition, index) {
            assert_eq!(mcp_form_field_index(field), index);
        }
    }
    assert_eq!(mcp_field_label(McpFormField::Cwd), "working directory");
    assert!(mcp_field_uses_json(McpFormField::Headers));
    assert!(!mcp_field_uses_json(McpFormField::Url));
    assert!(is_mcp_form_boolean(&draft.definition, 14));
    let choices = mcp_form_choices(&draft, 30);
    assert_eq!(choices.len(), 15);
    assert_eq!(choices[2], ("Name".to_owned(), "docs".to_owned()));
    assert_eq!(choices[5], ("Assigned agents".to_owned(), "[]".to_owned()));
    assert_eq!(choices[1].1, "validate …");
}

#[test]
fn switches_and_scopes_go_round() {
    let mut draft = draft();
    let before = mcp_form_choices(&draft, 80);
    toggle_mcp_form_boolean(&mut draft.definition, 14);
    assert_ne!(mcp_form_choices(&draft, 80)[14], before[14]);
    toggle_mcp_form_boolean(&mut draft.definition, 14);
    assert_eq!(mcp_form_choices(&draft, 80), before);

    let project = next_mcp_location(&location(McpScope::Global), "main".into());
    assert_eq!(project.scope, McpScope::Project);
}

fn package() -> McpPackageDraft {
    let parameter = |id: &str, kind| McpPackageParameter {
        id: id.into(),
        label: format!("Label {id}"),
        kind,
        description: Some(format!("about {id}")),
    };
    package_draft(
        "package".into(),
        "Package".into(),
        vec![McpPackageSecret {
            id: "token".into(),
            label: "Token".into(),
            description: None,
            configured: true,
        }],
        vec![
            parameter("text", McpPackageParameterType::Text),
            parameter("list", McpPackageParameterType::TextList),
            parameter("number", McpPackageParameterType::Integer),
            parameter("flag", McpPackageParameterType::Boolean),
        ],
        vec![None, None, Some(McpParameterValue::Integer(3)), None],
    )
}

#[test]
fn packages_are_set_up_by_their_fields() {
    let mut draft = package();
    assert_eq!(package_setup_count(&draft), 6);
    assert_eq!(package_setup_field(&draft, 1), Some(McpPackageField::Secret(0)));
    assert_eq!(package_setup_field(&draft, 2), Some(McpPackageField::Parameter(0)));
    assert_eq!(package_field_value(&draft, &McpPackageField::Parameter(2)), "3");
    apply_package_field(&mut draft, &McpPackageField::Parameter(1), "a, b".into()).unwrap();
    apply_package_field(&mut draft, &McpPackageField::Parameter(2), "-41".into()).unwrap();
    assert_eq!(package_field_value(&draft, &McpPackageField::Parameter(2)), "-41");
    assert_eq!(
        apply_package_field(&mut draft, &McpPackageField::Parameter(2), "many".into()),
        Err("expected an integer".to_owned())
    );
    assert_eq!(
        apply_package_field(&mut draft, &McpPackageField::Parameter(3), "true".into()),
        Err("boolean parameters are toggled from the setup menu".to_owned())
    );
    toggle_parameter(&mut draft, 3);
    let rows: Vec<String> =
        mcp_package_setup_lines(&draft, 0, 80).iter().map(Line::to_text).collect();
    assert_eq!(rows[0], "  Install MCP package  Package");
    assert_eq!(rows[2], "› Install  apply parameters and managed secrets");
    assert_eq!(rows[3], "  Token  Configured");
    assert_eq!(rows[4], "  Label text  Not set · about text");
    assert_eq!(rows[6], "  Label number  -41 · about number");
    assert_eq!(rows[7], "  Label flag  true · about flag");
    apply_package_field(&mut draft, &McpPackageField::Secret(0), String::new()).unwrap();
    assert_eq!(
        mcp_package_setup_lines(&draft, 0, 80)[3].to_text(),
        "  Token  Not configured"
    );
}

#[test]
fn servers_offer_what_their_transport_allows() {
    assert_eq!(mcp_server_menu_item_count(false, false), 6);
    assert_eq!(mcp_server_menu_item_count(true, true), 8);
    let server = McpServerRow {
        name: "docs".into(),
        agents: vec![],
        scope: McpScope::Project,
        status: McpRuntimeStatus::Failed,
        status_text: "failed".into(),
        overridden: vec![],
        enabled: true,
        over_http: true,
        packaged: false,
    };
    let rows = mcp_server_lines(&server, 1, false, 60);
    let texts: Vec<String> = rows.iter().map(Line::to_text).collect();
    assert_eq!(texts[3], "› Disable  failed");
    assert_eq!(rows[3].spans.last().unwrap().style, Style::of(Role::Error));
    assert_eq!(texts[7], "  Login with OAuth  opens authentication");
    assert_eq!(texts[8], "  Remove  delete this scope");
}

#[test]
fn changes_are_told_in_order() {
    let preview = McpMutationPreview {
        requires_confirmation: true,
        affected: vec!["docs".into()],
        revealed: vec![("docs".into(), McpScope::Global)],
        touched_agent_policies: vec!["agent x".into()],
        touched_permission_rules: vec!["rule y".into()],
    };
    let rows: Vec<String> = mcp_mutation_detail_lines(&preview).iter().map(Line::to_text).collect();
    assert_eq!(
        rows,
        ["  affects docs", "  reveals docs at Global", "  rewrites agent x", "  rewrites rule y"]
    );
}

#[test]
fn login_notices_differ() {
    let mut notices: Vec<String> = [(true, true), (true, false), (false, true), (false, false)]
        .into_iter()
        .map(|(opened, copied)| mcp_login_notice(opened, copied, true))
        .collect();
    notices.sort();
    notices.dedup();
    assert_eq!(notices.len(), 4);
}

#[test]
fn shown_fields_are_read_back() {
    let mut draft = draft();
    let arguments = r#"["a\"b","é","\u0001",""]"#;
    apply_mcp_form_field(&mut draft, McpFormField::Arguments, arguments).unwrap();
    apply_mcp_form_field(&mut draft, McpFormField::Environment, r#"{"B":"2","A":"1"}"#).unwrap();
    let McpTransportConfig::Stdio { env, .. } = &draft.definition.transport else {
        panic!("expected stdio draft");
    };
    assert_eq!(env[0].0, "A");
    for field in [McpFormField::Arguments, McpFormField::Environment, McpFormField::StartupTimeout] {
        let shown = mcp_form_field_value(&draft, field);
        apply_mcp_form_field(&mut draft, field, &shown).unwrap();
        assert_eq!(mcp_form_field_value(&draft, field), shown);
    }
    let McpTransportConfig::Stdio { args, .. } = &draft.definition.transport else {
        panic!("expected stdio draft");
    };
    assert_eq!(args, &["a\"b", "é", "\u{1}", ""]);
}

#[test]
fn shown_values_are_read_back() {
    let mut draft = package_draft(
        "files".into(),
        "Files".into(),
        vec![],
        vec![
            McpPackageParameter {
                id: "roots".into(),
                label: "Roots".into(),
                kind: McpPackageParameterType::TextList,
                description: None,
            },
            McpPackageParameter {
                id: "depth".into(),
                label: "Depth".into(),
                kind: McpPackageParameterType::Integer,
                description: None,
            },
        ],
        vec![
            Some(McpParameterValue::Texts(vec!["/a b".into(), "/c".into(), "d".into()])),
            Some(McpParameterValue::Integer(i64::MIN)),
        ],
    );
    let roots = McpPackageField::Parameter(0);
    let shown = package_field_value(&draft, &roots);
    assert_eq!(shown, "/a b, /c, d");
    apply_package_field(&mut draft, &roots, shown).unwrap();
    assert!(
        matches!(&draft.values[0], Some(McpParameterValue::Texts(texts)) if texts == &["/a b", "/c", "d"])
    );
    let depth = McpPackageField::Parameter(1);
    let shown = package_field_value(&draft, &depth);
    assert_eq!(shown, "-9223372036854775808");
    apply_package_field(&mut draft, &depth, shown).unwrap();
    assert!(matches!(draft.values[1], Some(McpParameterValue::Integer(i64::MIN))));
}
