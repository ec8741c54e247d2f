use symphony::domain::{BlockerRef, Issue};
use symphony::error::SymphonyError;
use symphony::prompt::{build_context, rendered_prompt, PromptBuilder, DEFAULT_PROMPT};
use symphony::template::{calm_text, judge, Verdict};
use symphony::workflow::{
    config_from_front_matter, is_watched_path, load_workflow, parse_workflow_content, watch_target,
    ReloadGate,
};
use symphony::yaml::Yaml;

fn sample_issue() -> Issue {
    Issue {
        id: "issue-id".to_string(),
        identifier: "SYM-123".to_string(),
        title: "Implement prompt builder".to_string(),
        description: Some("Build prompt context".to_string()),
        priority: Some(2),
        state: "In Progress".to_string(),
        branch_name: Some("feature/sym-123".to_string()),
        url: Some("https://linear.app/symphony/issue/SYM-123".to_string()),
        labels: vec!["rust".to_string(), "backend".to_string()],
        blocked_by: vec![BlockerRef {
            id: "blocker-id".to_string(),
            identifier: "SYM-100".to_string(),
            state: "Todo".to_string(),
        }],
        created_at: Some("2026-03-14T00:00:00Z".to_string()),
        updated_at: Some("2026-03-14T01:00:00Z".to_string()),
    }
}

#[test]
fn render_includes_issue_variables() {
    let template = "{{ issue.identifier }}|{{ issue.title }}|{{ issue.labels | join: ', ' }}";

    let rendered = PromptBuilder.render(template, &sample_issue(), None).unwrap();

    assert_eq!(rendered, "SYM-123|Implement prompt builder|rust, backend");
}

#[test]
fn render_returns_default_prompt_for_empty_template() {
    let rendered = PromptBuilder.render("", &sample_issue(), None).unwrap();

    assert_eq!(rendered, DEFAULT_PROMPT);
}

#[test]
fn render_returns_default_prompt_for_whitespace_template() {
    let rendered = PromptBuilder.render("   \n\t  ", &sample_issue(), None).unwrap();

    assert_eq!(rendered, DEFAULT_PROMPT);
}

#[test]
fn build_prompt_returns_continuation_prompt_for_later_turns() {
    let rendered =
        PromptBuilder.build_prompt("{{ issue.title }}", &sample_issue(), None, 3).unwrap();

    assert_eq!(
        rendered,
        "Continue working on issue SYM-123. Check the current state and make further progress. This is turn 3."
    );
}

#[test]
fn build_prompt_uses_full_template_on_first_turn() {
    let rendered = PromptBuilder
        .build_prompt("{{ issue.identifier }}: {{ issue.title }}", &sample_issue(), None, 1)
        .unwrap();

    assert_eq!(rendered, "SYM-123: Implement prompt builder");
}

#[test]
fn render_includes_attempt_variable() {
    let rendered =
        PromptBuilder.render("Attempt {{ attempt }}", &sample_issue(), Some(2)).unwrap();

    assert_eq!(rendered, "Attempt 2");
}

#[test]
fn render_reaches_blockers_and_missing_values() {
    let mut issue = sample_issue();
    issue.priority = None;
    let template =
        "{{ issue.blocked_by[0].identifier }}/{{ issue.blocked_by[0].state }}/{{ issue.priority }}";

    assert_eq!(PromptBuilder.render(template, &issue, None).unwrap(), "SYM-100/Todo/");
}

#[test]
fn render_reports_a_broken_template() {
    assert!(matches!(
        PromptBuilder.render("{{ issue.title", &sample_issue(), None),
        Err(SymphonyError::Prompt(_)) | Err(SymphonyError::PromptRender(_))
    ));
    assert!(matches!(
        rendered_prompt(Err("no".into())),
        Err(SymphonyError::PromptRender(message)) if message == "no"
    ));
    assert_eq!(rendered_prompt(Ok("yes".into())).unwrap(), "yes");
}

#[test]
fn the_context_holds_the_issue_and_the_attempt() {
    let context = build_context(&sample_issue(), Some(4));
    let issue = context.get("issue").unwrap();

    assert_eq!(issue.get("identifier").unwrap().as_str(), Some("SYM-123"));
    assert!(context.get("attempt").is_some());
}

fn entry<'a>(value: &'a Yaml, key: &str) -> &'a Yaml {
    match value {
        Yaml::Mapping(entries) => {
            &entries.iter().find(|(name, _)| *name == Yaml::Text(key.into())).unwrap().1
        }
        _ => panic!("not a mapping"),
    }
}

#[test]
fn loads_workflow_with_front_matter_and_body() {
    let content = "---\ntracker:\n  kind: linear\n  api_key: token\n---\n\n# Prompt\n\nDo work.\n";

    let workflow = load_workflow("WORKFLOW.md", Some(content)).unwrap();

    assert_eq!(entry(entry(&workflow.config, "tracker"), "kind"), &Yaml::Text("linear".into()));
    assert_eq!(workflow.prompt_template, "# Prompt\n\nDo work.");
}

#[test]
fn loads_workflow_without_front_matter() {
    let workflow = load_workflow("WORKFLOW.md", Some("\n# Prompt\n\nShip it.\n")).unwrap();

    assert_eq!(workflow.config, Yaml::Mapping(Vec::new()));
    assert_eq!(workflow.prompt_template, "# Prompt\n\nShip it.");
}

#[test]
fn errors_when_front_matter_is_not_a_map() {
    let error = load_workflow("WORKFLOW.md", Some("---\n- linear\n---\nbody\n")).unwrap_err();

    assert!(matches!(error, SymphonyError::WorkflowFrontMatterNotAMap));
}

#[test]
fn errors_when_yaml_is_invalid() {
    let error = load_workflow("WORKFLOW.md", Some("---\ntracker: [1\n---\nbody\n")).unwrap_err();

    assert!(matches!(error, SymphonyError::WorkflowParseError { .. }));
}

#[test]
fn errors_when_the_file_is_missing() {
    let error = load_workflow("/nowhere/WORKFLOW.md", None).unwrap_err();

    assert!(matches!(
        &error,
        SymphonyError::MissingWorkflowFile { path } if path == "/nowhere/WORKFLOW.md"
    ));
    assert!(error.message().contains("missing_workflow_file"));
}

#[test]
fn front_matter_may_be_empty_but_must_end() {
    let (config, template) = parse_workflow_content("---\n---\nbody").unwrap();
    assert_eq!(config, Yaml::Mapping(Vec::new()));
    assert_eq!(template, "body");
    assert!(parse_workflow_content("---\ntracker: 1\n").is_err());
    assert!(config_from_front_matter(Ok(Yaml::Bool(true))).is_err());
}

#[test]
fn changes_are_told_by_path_or_name() {
    assert!(is_watched_path("/a/W.md", None, "/a/W.md", "W.md"));
    assert!(is_watched_path("/b/W.md", Some("W.md"), "/a/W.md", "W.md"));
    assert!(!is_watched_path("/b/X.md", Some("X.md"), "/a/W.md", "W.md"));
}

#[test]
fn bursts_of_changes_are_let_through_once() {
    let mut gate = ReloadGate::new();

    assert!(gate.let_through(5));
    assert!(!gate.let_through(6));
    assert!(gate.let_through(10_000_000_000));
}

#[test]
fn a_watched_file_has_a_name_and_a_directory() {
    assert_eq!(watch_target(Some("W.md"), Some("/a")).unwrap(), ("W.md", "/a"));
    assert_eq!(
        watch_target(None, Some("/a")).unwrap_err().message(),
        "workflow watch error: workflow path must include a file name"
    );
    assert_eq!(
        watch_target(Some("W.md"), None).unwrap_err().message(),
        "workflow watch error: workflow path must include a parent directory"
    );
}

#[test]
fn unknown_variables_are_errors() {
    assert!(matches!(
        PromptBuilder.render("{{ nobody.knows }}", &sample_issue(), None),
        Err(SymphonyError::PromptRender(_))
    ));
}

#[test]
fn harmless_templates_are_rendered() {
    let cases = [
        ("No tags, {one brace}, 100% }} plain", "No tags, {one brace}, 100% }} plain"),
        ("{{issue.identifier}}", "SYM-123"),
        ("a {{- issue.identifier -}} b", "aSYM-123b"),
        (
            "{% if issue.description %}[{{ issue.description | upcase }}]{% else %}none{% endif %}",
            "[BUILD PROMPT CONTEXT]",
        ),
        (
            "{% for label in issue.labels %}{{ forloop.index }}.{{ label }} {% endfor %}",
            "1.rust 2.backend ",
        ),
        ("{% for label in issue.labels limit:1 %}{{ label }}{% endfor %}", "rust"),
        ("{% for i in (2..4) %}{{ i }}{% endfor %}", "234"),
        ("{% for i in ( 9 .. 11 ) reversed %}{{ i }} {% endfor %}", "11 10 9 "),
        ("{% assign next = attempt | plus: 1 %}{{ next }}", "5"),
        ("{{ issue.priority | times: 10 | append: '!' }}", "20!"),
        ("{{ issue.priority | minus: 5 }}", "-3"),
        ("{{ attempt | plus: 1 | plus: attempt | minus: issue.priority }}", "7"),
        ("{{ issue.labels | size | plus: 1 | divided_by: attempt | abs }}", "0"),
        ("{{ issue.title.size | times: 2 }}", "48"),
        ("{{ issue.priority | divided_by: attempt }}", "0"),
        ("{% raw %}{% if x %}{{ y }}{% endraw %}", "{% if x %}{{ y }}"),
        ("{{ 7 | divided_by: 2 }}/{{ 7 | modulo: -2 }}", "3/1"),
        ("{{ issue.labels | sort | join: ',' }}", "backend,rust"),
        ("{{ issue.title | slice: 0, 9 }}", "Implement"),
        ("{{ issue.blocked_by[0]['state'] }}", "Todo"),
        ("{% assign at = 1 %}{{ issue.labels[ at ] }}/{{ issue['title'].size }}", "backend/24"),
        ("{% assign f = 'state' %}{{ issue.blocked_by[0][f] }}", "Todo"),
        ("{{ '2026-03-14 01:02:03' | date: '%Y/%m' }}", "2026/03"),
        ("{{ issue.title | replace: 'prompt', \"}} {%\" }}", "Implement }} {% builder"),
        ("{% comment %}{{ issue.title }}{% endcomment %}x", "x"),
        ("{% comment %}{% if y %}{{ y | z }}{% endif %}{% assign q %}{% endcomment %}x", "x"),
        ("{% comment %}{% for %}{% endif %}{% else %}{% endfor %}{% endif %}{% endcomment %}x", "x"),
        ("{% raw %}{{ issue.title }}{% endraw %}", "{{ issue.title }}"),
        (
            "{% case issue.state %}{% when 'Todo', 'In Progress' %}go{% else %}no{% endcase %}",
            "go",
        ),
        ("{% cycle 'a': 'one', 'two' %}{% cycle 'a': 'one', 'two' %}", "onetwo"),
        (
            "{% tablerow l in issue.labels cols:1 %}{{ l | first }}{% endtablerow %}",
            "<tr class=\"row1\"><td class=\"col1\">r</td></tr>\
             <tr class=\"row2\"><td class=\"col1\">b</td></tr>",
        ),
    ];
    for (template, expected) in cases {
        assert!(PromptBuilder.can_build(template, &sample_issue(), 1), "{template}");
        assert_eq!(judge(template, true), Verdict::Harmless, "{template}");
        assert_eq!(
            PromptBuilder.render(template, &sample_issue(), Some(4)).unwrap(),
            expected,
            "{template}"
        );
    }
}

fn fails(template: &str) -> bool {
    matches!(
        PromptBuilder.render(template, &sample_issue(), None),
        Err(SymphonyError::PromptRender(_))
    )
}

#[test]
fn harmless_templates_may_fail() {
    for template in [
        "{{ issue.title | no_such_filter }}",
        "{% no_such_tag %}",
        "{% if issue.title %}never ends",
        "{% endif %}",
        "{{ 7 | divided_by: 0 }}",
        "{{ issue.title | plus: 1 }}",
        "{{ issue.title | abs }}",
        "{{ issue.labels | plus: 1 }}",
        "{{ issue | times: 3 }}",
        "{% include 'other' %}",
        "{% if issue %}{{ missing }}{% endif %}",
    ] {
        assert_eq!(judge(template, true), Verdict::Harmless, "{template}");
        assert!(PromptBuilder.can_build(template, &sample_issue(), 1), "{template}");
        assert!(fails(template), "{template}");
    }
}

#[test]
fn templates_that_are_not_well_formed_fail() {
    for template in [
        "{{ issue.title",
        "{% if issue.title",
        "one\n{% if issue.title %}\ntwo {{ issue.title",
        "{{ }}",
        "{{}}",
        "{% %}",
        "{{ nilly }}",
        "{{ true_x }}",
        "{{ nil.x }}",
        "{{ (1..3) }}",
        "{{ issue.title\t}}",
        "{{\tissue.title }}",
        "{% if\tissue %}x{% endif %}",
        "{% if issue\t%}x{% endif %}",
        "{{ issue.title | }}",
        "{{ issue.title | upcase: }}",
        "{{ issue.title | upcase downcase }}",
        "{{ issue.title | append: 'a', }}",
        "{{ issue.title issue.state }}",
        "{{ issue.title = 'x' }}",
        "{{ 'open }}",
        "{{ 12abc }}",
        "{{ 1.2.3 }}",
        "{{ issue. }}",
        "{{ issue.0 }}",
        "{{ +x }}",
        "{{ aé }}",
        "{% if a ? b %}x{% endif %}",
        "{% if a! %}x{% endif %}",
        "{% assign x = 'open %}",
        "{% 1 %}",
        "a { b } {{ issue.title }} {{ | }} é {{ 99999999999999999999 }}",
        "{% for x in issue.labels %}{{ x }}\n  {{ x }}{{ }}{% endfor %}",
        "{{ '}}' | append: 'x'",
        "é {{ }}",
        "{{ issue.title }} é\nüü{{{ }}",
        "éé{a{% %}",
        "é{{- }}",
        "{{ issue.title\n}}\né {{ }}",
        "{% if issue -%}\n  é {{ }}",
        "éé\n  {{- issue.title }}\né{{ | }}",
        "{% if issue %}{% case issue.state %}{{ }}{% endcase %}{% endif %}",
        "{% ifchanged %}{% capture x %}{{ }}{% endcapture %}{% endifchanged %}",
        "{% unless issue %}{% tablerow x in issue.labels %}{% x y } %}{% endtablerow %}",
    ] {
        assert_eq!(judge(template, true), Verdict::Fails, "{template}");
        assert!(PromptBuilder.can_build(template, &sample_issue(), 1), "{template}");
        assert!(fails(template), "{template}");
    }
}

#[test]
fn templates_that_print_what_nothing_names_fail() {
    for template in [
        "{{ missing }}",
        "Hello {{ missing | default: 'x' }} and {{ issue.title }}",
        "{{ issue.no_such_field }}",
        "{{ issue.no_such_field.deeper | upcase }}",
        "{{ missing[0].x }}",
        "{{ missing[issue.title] }}",
        "{{ issue-title }}",
        "{{ forloop.index }}",
        "{% if issue %}{{ issue.title }}{% elsif attempt %}x{% else %}y{% endif %}{{ missing }}",
        "{% for x in issue.labels %}{{ x }}{% endfor %}{{ x }}",
        "{% raw %}{{ missing }}{% endraw %}{{ missing }}",
        "{% comment %}no{% endcomment %}\n{% cycle 'a', 'b' %}{{ tile }}{% assign tile = 1 %}",
    ] {
        assert_eq!(judge(template, true), Verdict::Fails, "{template}");
        assert!(PromptBuilder.can_build(template, &sample_issue(), 1), "{template}");
        assert!(fails(template), "{template}");
    }
    for template in [
        "{{ issue.size }}",
        "{{ attempt }}",
        "{{ nil }}{{ true }}{{ blank }}",
        "{% assign x = 1 %}{{ x }}",
        "{% capture x %}1{% endcapture %}{{ x }}",
        "{% increment x %}{{ x }}",
        "{% break %}{{ missing }}",
        "{% if attempt %}{{ missing }}{% endif %}",
        "{% for x in issue.labels %}{{ x }}{% endfor %}",
        "{% raw %}{{ missing }}{% endraw %}",
        "{% comment %}{{ missing }}{% endcomment %}",
    ] {
        assert_eq!(judge(template, true), Verdict::Harmless, "{template}");
        assert!(!fails(template), "{template}");
    }
}

#[test]
fn large_numbers_in_an_issue_are_not_reckoned_with() {
    let mut issue = sample_issue();
    let template = "{{ issue.title | plus: 1 }}";
    assert!(PromptBuilder.can_build(template, &issue, 1));
    issue.title = "9223372036854775807".into();
    assert!(!PromptBuilder.can_build(template, &issue, 1));
    assert!(PromptBuilder.can_build("{{ issue.title }}", &issue, 1));
    assert_eq!(
        PromptBuilder.render("{{ issue.title }}", &issue, None).unwrap(),
        "9223372036854775807"
    );
    issue.title = "41".into();
    assert!(PromptBuilder.can_build(template, &issue, 1));
    assert_eq!(PromptBuilder.render(template, &issue, None).unwrap(), "42");
    issue.labels[1] = "+1234567890".into();
    assert!(!PromptBuilder.can_build(template, &issue, 1));
    issue.labels.clear();
    issue.blocked_by[0].id = "-0000000001".into();
    assert!(!PromptBuilder.can_build(template, &issue, 1));

    assert!(calm_text(""));
    assert!(calm_text("123456789"));
    assert!(!calm_text("1234567890"));
    assert!(calm_text("12345678.0"));
    assert!(calm_text("1e00000000"));
    assert!(!calm_text("-123456789"));
}

#[test]
fn templates_that_may_do_harm_are_told_apart() {
    let mut deep = String::new();
    for _ in 0..65 {
        deep.push_str("{% if issue %}");
    }
    let long = format!("{{{{ {}b }}}}", "a.".repeat(120));
    for template in [
        "{% tablerow x in issue.labels cols:0 %}{{x}}{% endtablerow %}",
        "{% tablerow x in issue.labels cols:attempt %}{{x}}{% endtablerow %}",
        "{% tablerow x in issue.labels cols:'0' %}{{x}}{% endtablerow %}",
        "{% cycle 'a': %}",
        "{{ \"-9223372036854775808\" | divided_by: -1 }}",
        "{% assign x = issue.title %}{{ x | modulo: -001 }}",
        "{% assign x = issue.title %}{{ x | divided_by: attempt }}",
        "{{ '9223372036854775807' | plus: 1 }}",
        "{{ issue.title | append: '0' | plus: 1 }}",
        "{{ attempt | times: 9999999999 }}",
        "{{ attempt | times: attempt }}",
        "{{ attempt | plus: 1 | times: 1 }}",
        "{{ attempt | times: 1 | plus: 1 }}",
        "{% assign attempt = issue.title %}{{ attempt | plus: 1 }}",
        "{% for issue in issue.labels %}{{ issue.priority | plus: 1 }}{% endfor %}",
        "{{ issue.title | slice: 1, 9223372036854775807 }}",
        "{{ issue.title | slice: 1, attempt }}",
        "{{ issue.blocked_by | sort }}",
        "{{ issue.created_at | date: '%99999999999d' }}",
        "{{ issue.created_at | date: issue.title }}",
        "{{ 99999999999999999999 }}",
        "{{ issue.labels[99999999999999999999] }}",
        "{% for x in (1..9223372036854775807) %}{% endfor %}",
        "{% for x in (1..attempt) %}{% endfor %}",
        "{% comment %}{% raw %}",
        "{% comment %}{% if issue %}",
        "{% comment %}{{ }}{% endcomment %}",
        "{% comment %}{% if issue %}{% endcomment %}",
        "{% comment %}{% if a %}{% if b %}{% endif %}{% endif %}{% endcomment %}",
        "éééé{% cycle \"a\" %}{{\" %}",
        "é {{ issue.title }} {{ }}",
        "{{ issue.title\n}} {{ }}",
        "{{ issue.labels[nilly] }}",
        "{{ issue.labels[a[0]] }}",
        "x {{- }}",
        deep.as_str(),
        long.as_str(),
    ] {
        assert_eq!(judge(template, true), Verdict::Unsure, "{template}");
        assert!(!PromptBuilder.can_build(template, &sample_issue(), 1), "{template}");
        assert!(PromptBuilder.can_build(template, &sample_issue(), 2), "{template}");
    }
    assert_eq!(judge("{{ issue.title | plus: 1 }}", false), Verdict::Unsure);
    assert_eq!(judge("{{ issue.priority | plus: 1 }}", false), Verdict::Harmless);
    assert!(PromptBuilder.can_build(" \n ", &sample_issue(), 1));
}
