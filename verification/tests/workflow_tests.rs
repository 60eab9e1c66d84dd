use pam_cli::config::Config;
use pam_cli::dispatch::{
    Command, ConfigAction, ContextAction, IndexSource, MemoryAction, Plan, SkillsAction,
    context_file_name, dispatch, get_default_test_params, index_source,
};
use pam_cli::records::Reflection;
use pam_cli::responses::ApiError;
use pam_cli::workflow::{
    ChatAction, ReflectScope, UserSource, age_label, chat_input_action, finish_reflection,
    reflect_scope, reflect_should_generate, render_reflection_markdown, resolve_user,
};

fn sample_reflection() -> Reflection {
    Reflection {
        what_worked: vec!["shipped".to_owned()],
        what_failed: vec!["late standup".to_owned()],
        learnings: vec!["plan earlier".to_owned(), "ask sooner".to_owned()],
        action_items: vec!["file ticket".to_owned()],
    }
}

#[test]
fn user_resolution_priority_is_explicit_then_configured_then_anonymous() {
    let r = resolve_user(Some("e@x".to_owned()), Some("c@x".to_owned()));
    assert_eq!(r.email, "e@x");
    assert!(matches!(r.source, UserSource::Explicit));
    let r2 = resolve_user(None, Some("c@x".to_owned()));
    assert_eq!(r2.email, "c@x");
    assert!(matches!(r2.source, UserSource::Configured));
    let r3 = resolve_user(None, None);
    assert_eq!(r3.email, "unknown@mergeworld.com");
    assert!(matches!(r3.source, UserSource::Anonymous));
}

#[test]
fn reflect_scope_prefers_the_chosen_session() {
    match reflect_scope(Some("s7".to_owned())) {
        ReflectScope::Given { sessions } => assert_eq!(sessions, vec!["s7".to_owned()]),
        _ => panic!("expected the given session"),
    }
    assert!(matches!(reflect_scope(None), ReflectScope::FetchToday));
    assert!(!reflect_should_generate(&Vec::new()));
    assert!(reflect_should_generate(&vec!["s".to_owned()]));
}

#[test]
fn save_failure_does_not_erase_the_reflection() {
    let refl = sample_reflection();
    let report = finish_reflection(
        refl,
        Err(ApiError::Remote { status: 500, body: "save down".to_owned() }),
    );
    // the generated content is still there, beside the failure
    assert_eq!(report.reflection.learnings.len(), 2);
    assert_eq!(report.reflection.what_worked, vec!["shipped".to_owned()]);
    assert!(matches!(report.saved, Err(ApiError::Remote { status: 500, .. })));
    let report2 = finish_reflection(sample_reflection(), Ok("r1".to_owned()));
    assert_eq!(report2.saved.unwrap(), "r1");
}

#[test]
fn reflection_markdown_is_exact() {
    let text = render_reflection_markdown(&sample_reflection(), "2024-01-02 03:04 UTC");
    let expected = "# PAM Reflection\n*Generated: 2024-01-02 03:04 UTC*\n\n\
## What Worked\n- shipped\n\n\
## What Could Be Improved\n- late standup\n\n\
## Key Learnings\n- plan earlier\n- ask sooner\n\n\
## Action Items\n1. file ticket\n";
    assert_eq!(text, expected);
}

#[test]
fn reflection_markdown_omits_empty_action_items() {
    let mut refl = sample_reflection();
    refl.action_items = Vec::new();
    let text = render_reflection_markdown(&refl, "now");
    assert!(!text.contains("Action Items"));
    assert!(text.ends_with("- ask sooner\n"));
}

#[test]
fn chat_inputs_select_their_actions() {
    assert!(matches!(chat_input_action("quit").0, ChatAction::Quit));
    assert!(matches!(chat_input_action("  EXIT ").0, ChatAction::Quit));
    assert!(matches!(chat_input_action("q").0, ChatAction::Quit));
    assert!(matches!(chat_input_action("Clear").0, ChatAction::NewSession));
    assert!(matches!(chat_input_action("help").0, ChatAction::ShowHelp));
    assert!(matches!(chat_input_action("/reflect").0, ChatAction::GenerateReflection));
    assert!(matches!(chat_input_action("/status").0, ChatAction::ShowStatus));
    assert!(matches!(chat_input_action("   ").0, ChatAction::Ignore));
    let (action, trimmed) = chat_input_action("  hello there \n");
    assert!(matches!(action, ChatAction::Send));
    assert_eq!(trimmed, "hello there");
}

#[test]
fn age_labels_bucket_by_magnitude() {
    assert_eq!(age_label(0), "0m ago");
    assert_eq!(age_label(59 * 60), "59m ago");
    assert_eq!(age_label(3600), "1h ago");
    assert_eq!(age_label(86399), "23h ago");
    assert_eq!(age_label(86400), "1d ago");
    assert_eq!(age_label(3 * 86400 + 600), "3d ago");
}

#[test]
fn context_names_map_to_their_files() {
    assert_eq!(context_file_name("GitHub"), "github_ai_garage.md");
    assert_eq!(context_file_name("git"), "github_ai_garage.md");
    assert_eq!(context_file_name("jira"), "jira_summary.md");
    assert_eq!(context_file_name("daily-ambition"), "daily_ambitions_summary.md");
    assert_eq!(context_file_name("strategic"), "strategic_context_30min.md");
    assert_eq!(context_file_name("tactical"), "tactical_context_10min.md");
    assert_eq!(context_file_name("operational"), "operational_context_5min.md");
    assert_eq!(context_file_name("db"), "database_summary.md");
    assert_eq!(context_file_name("custom_notes.md"), "custom_notes.md");
}

#[test]
fn index_input_priority_is_inline_then_file_then_stdin() {
    assert!(matches!(
        index_source(Some("c".to_owned()), Some("f".to_owned())),
        IndexSource::Inline { .. }
    ));
    assert!(matches!(
        index_source(None, Some("f".to_owned())),
        IndexSource::FromFile { .. }
    ));
    assert!(matches!(index_source(None, None), IndexSource::FromStdin));
}

#[test]
fn default_test_params_cover_the_known_skills() {
    assert_eq!(
        get_default_test_params("jira-query"),
        "{\"query\": \"What Jira projects exist?\"}"
    );
    assert_eq!(
        get_default_test_params("freebusy"),
        "{\"emails\": [\"mwood@mergeworld.com\"], \"date\": \"2026-01-30\"}"
    );
    assert_eq!(get_default_test_params("anything-else"), "{}");
}

#[test]
fn dispatch_is_total_over_the_commands() {
    let cfg = Config::default();
    let search = dispatch(
        Command::Memory(MemoryAction::Search {
            query: "roadmap".to_owned(),
            limit: 10,
            user: None,
        }),
        &cfg,
    );
    match search {
        Plan::Call { req, .. } => {
            assert!(req.url.ends_with("/api/chief-of-staff/memory/search"));
            assert_eq!(req.query[0], ("query".to_owned(), "roadmap".to_owned()));
            assert_eq!(req.query[1], ("limit".to_owned(), "10".to_owned()));
        },
        _ => panic!("expected one call"),
    }
    assert!(matches!(
        dispatch(
            Command::Memory(MemoryAction::Clear { user: "u@x".to_owned(), force: false }),
            &cfg
        ),
        Plan::ConfirmClear { .. }
    ));
    assert!(matches!(
        dispatch(
            Command::Memory(MemoryAction::Clear { user: "u@x".to_owned(), force: true }),
            &cfg
        ),
        Plan::Call { .. }
    ));
    match dispatch(
        Command::Skills(SkillsAction::Test { skill: "jira-query".to_owned(), params: None }),
        &cfg,
    ) {
        Plan::InvokeSkill { skill, params, user } => {
            assert_eq!(skill, "jira-query");
            assert_eq!(params, "{\"query\": \"What Jira projects exist?\"}");
            assert_eq!(user, "test@mergeworld.com");
        },
        _ => panic!("expected a skill invocation"),
    }
    assert!(matches!(
        dispatch(Command::Context(ContextAction::Stats), &cfg),
        Plan::Call { kind: pam_cli::dispatch::CallKind::ContextStats, .. }
    ));
    assert!(matches!(
        dispatch(Command::Health { deep: true }, &cfg),
        Plan::Probe { deep: true }
    ));
    match dispatch(
        Command::Config(ConfigAction::SetValue { key: "db_host".to_owned(), value: "h".to_owned() }),
        &cfg,
    ) {
        Plan::SetConfig { key, value } => {
            assert_eq!(key, "db_host");
            assert_eq!(value, "h");
        },
        _ => panic!("expected a configuration update"),
    }
    match dispatch(
        Command::Reflect { session: Some("s1".to_owned()), export: true, user: None },
        &cfg,
    ) {
        Plan::ReflectFlow { user, scope, export } => {
            assert!(export);
            assert_eq!(user.email, "unknown@mergeworld.com");
            assert!(matches!(scope, ReflectScope::Given { .. }));
        },
        _ => panic!("expected the reflection workflow"),
    }
    assert!(matches!(
        dispatch(
            Command::Chat { message: None, user: Some("u@x".to_owned()), continue_session: true },
            &cfg
        ),
        Plan::ChatTurn { continue_session: true, .. }
    ));
}
