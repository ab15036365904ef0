use chizu::classify::TaskCategory;
use chizu::model::entity::EntityKind;
use chizu::pipeline::QueryPipeline;

#[test]
fn classify_debug_keywords() {
    assert_eq!(TaskCategory::classify("fix the login bug"), TaskCategory::Debug);
    assert_eq!(TaskCategory::classify("there is an error in parsing"), TaskCategory::Debug);
    assert_eq!(TaskCategory::classify("the server keeps crashing"), TaskCategory::Debug);
    assert_eq!(TaskCategory::classify("panic in the handler"), TaskCategory::Debug);
    assert_eq!(TaskCategory::classify("Fix this"), TaskCategory::Debug);
}

#[test]
fn classify_test_keywords() {
    assert_eq!(TaskCategory::classify("run the tests"), TaskCategory::Test);
    assert_eq!(TaskCategory::classify("check coverage"), TaskCategory::Test);
    assert_eq!(TaskCategory::classify("add a bench for hashing"), TaskCategory::Test);
}

#[test]
fn classify_deploy_keywords() {
    assert_eq!(TaskCategory::classify("deploy to production"), TaskCategory::Deploy);
    assert_eq!(TaskCategory::classify("cut a release"), TaskCategory::Deploy);
    assert_eq!(TaskCategory::classify("update ci pipeline"), TaskCategory::Deploy);
    assert_eq!(TaskCategory::classify("change infra config"), TaskCategory::Deploy);
}

#[test]
fn classify_configure_keywords() {
    assert_eq!(TaskCategory::classify("update the config file"), TaskCategory::Configure);
    assert_eq!(TaskCategory::classify("setup the environment"), TaskCategory::Configure);
    assert_eq!(TaskCategory::classify("environment variables"), TaskCategory::Configure);
}

#[test]
fn classify_build_keywords() {
    assert_eq!(TaskCategory::classify("add a new endpoint"), TaskCategory::Build);
    assert_eq!(TaskCategory::classify("implement caching"), TaskCategory::Build);
    assert_eq!(TaskCategory::classify("create a helper function"), TaskCategory::Build);
    assert_eq!(TaskCategory::classify("feature flag support"), TaskCategory::Build);
}

#[test]
fn classify_understand_keywords() {
    assert_eq!(TaskCategory::classify("how does the store work"), TaskCategory::Understand);
    assert_eq!(TaskCategory::classify("what is this module"), TaskCategory::Understand);
    assert_eq!(TaskCategory::classify("explain the pipeline"), TaskCategory::Understand);
    assert_eq!(TaskCategory::classify("system architecture overview"), TaskCategory::Understand);
    assert_eq!(TaskCategory::classify("understand the data flow"), TaskCategory::Understand);
}

#[test]
fn classify_general_fallback() {
    assert_eq!(TaskCategory::classify("store"), TaskCategory::General);
    assert_eq!(TaskCategory::classify(""), TaskCategory::General);
    assert_eq!(TaskCategory::classify("foobar baz"), TaskCategory::General);
}

#[test]
fn classify_is_case_insensitive() {
    assert_eq!(TaskCategory::classify("FIX the BUG"), TaskCategory::Debug);
    assert_eq!(TaskCategory::classify("HOW does this work"), TaskCategory::Understand);
    assert_eq!(TaskCategory::classify("DEPLOY now"), TaskCategory::Deploy);
}

#[test]
fn classify_debug_takes_priority_over_build() {
    assert_eq!(TaskCategory::classify("fix and add stuff"), TaskCategory::Debug);
}

#[test]
fn classify_test_takes_priority_over_understand() {
    assert_eq!(TaskCategory::classify("how to test this"), TaskCategory::Test);
}

#[test]
fn classify_substring_matching() {
    assert_eq!(TaskCategory::classify("testing the system"), TaskCategory::Test);
    assert_eq!(TaskCategory::classify("apply the bugfix"), TaskCategory::Debug);
    assert_eq!(TaskCategory::classify("configuration management"), TaskCategory::Configure);
}

#[test]
fn route_names_nonempty_for_specific_categories() {
    assert!(!TaskCategory::Understand.route_names().is_empty());
    assert!(!TaskCategory::Debug.route_names().is_empty());
    assert!(!TaskCategory::Build.route_names().is_empty());
    assert!(!TaskCategory::Test.route_names().is_empty());
    assert!(!TaskCategory::Deploy.route_names().is_empty());
    assert!(!TaskCategory::Configure.route_names().is_empty());
}

#[test]
fn route_names_empty_for_general() {
    assert!(TaskCategory::General.route_names().is_empty());
}

#[test]
fn route_names_contain_expected_values() {
    assert!(TaskCategory::Debug.route_names().contains(&"debug"));
    assert!(TaskCategory::Debug.route_names().contains(&"fix"));
    assert!(TaskCategory::Build.route_names().contains(&"build"));
    assert!(TaskCategory::Test.route_names().contains(&"test"));
}

#[test]
fn preferred_kinds_nonempty_for_all_categories() {
    let all = [
        TaskCategory::Understand,
        TaskCategory::Debug,
        TaskCategory::Build,
        TaskCategory::Test,
        TaskCategory::Deploy,
        TaskCategory::Configure,
        TaskCategory::General,
    ];
    for cat in &all {
        assert!(!cat.preferred_kinds().is_empty(), "{} has empty preferred_kinds", cat.to_string());
    }
}

#[test]
fn preferred_kinds_debug_includes_test() {
    assert!(TaskCategory::Debug.preferred_kinds().contains(&EntityKind::Test));
}

#[test]
fn preferred_kinds_deploy_includes_deployable() {
    assert!(TaskCategory::Deploy.preferred_kinds().contains(&EntityKind::Containerized));
}

#[test]
fn preferred_kinds_deploy_includes_site() {
    assert!(TaskCategory::Deploy.preferred_kinds().contains(&EntityKind::Site));
}

#[test]
fn preferred_kinds_configure_includes_agent_config() {
    assert!(TaskCategory::Configure.preferred_kinds().contains(&EntityKind::AgentConfig));
}

#[test]
fn preferred_kinds_understand_includes_content_page() {
    assert!(TaskCategory::Understand.preferred_kinds().contains(&EntityKind::ContentPage));
}

#[test]
fn preferred_kinds_build_includes_template() {
    assert!(TaskCategory::Build.preferred_kinds().contains(&EntityKind::Template));
}

#[test]
fn as_str_round_trip_all_variants() {
    let all = [
        (TaskCategory::Understand, "understand"),
        (TaskCategory::Debug, "debug"),
        (TaskCategory::Build, "build"),
        (TaskCategory::Test, "test"),
        (TaskCategory::Deploy, "deploy"),
        (TaskCategory::Configure, "configure"),
        (TaskCategory::General, "general"),
    ];
    for (cat, expected) in &all {
        assert_eq!(cat.as_str(), *expected);
        assert_eq!(cat.to_string(), *expected);
    }
}

#[test]
fn from_str_all_variants() {
    let cases = [
        ("understand", TaskCategory::Understand),
        ("debug", TaskCategory::Debug),
        ("build", TaskCategory::Build),
        ("test", TaskCategory::Test),
        ("deploy", TaskCategory::Deploy),
        ("configure", TaskCategory::Configure),
        ("general", TaskCategory::General),
    ];
    for (input, expected) in &cases {
        let parsed: TaskCategory = input.parse().unwrap();
        assert_eq!(parsed, *expected);
    }
}

#[test]
fn from_str_case_insensitive() {
    let parsed: TaskCategory = "DEBUG".parse().unwrap();
    assert_eq!(parsed, TaskCategory::Debug);
    let parsed: TaskCategory = "Deploy".parse().unwrap();
    assert_eq!(parsed, TaskCategory::Deploy);
}

#[test]
fn from_str_invalid() {
    let result = "invalid".parse::<TaskCategory>();
    assert!(result.is_err());
    let err = result.unwrap_err();
    assert!(err.contains("invalid category"));
}

#[test]
fn pipeline_category_override_wins() {
    assert_eq!(QueryPipeline::category_for(Some(TaskCategory::Deploy), "fix the bug"), TaskCategory::Deploy);
    assert_eq!(QueryPipeline::category_for(None, "fix the bug"), TaskCategory::Debug);
    assert_eq!(QueryPipeline::classify("explain this"), TaskCategory::Understand);
    assert_eq!(QueryPipeline::tokenize("Explain the Parser"), vec!["explain".to_string(), "parser".to_string()]);
}

#[test]
fn route_names_exact_lists() {
    assert_eq!(TaskCategory::Understand.route_names(), vec!["understand", "architecture"]);
    assert_eq!(TaskCategory::Configure.route_names(), vec!["configure", "setup"]);
}
