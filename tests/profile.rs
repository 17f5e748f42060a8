use cde::profile::{
    activation_commands, clean_all_profiles, parse_profile_header, plan_selection,
    profile_entry_value, Profile, Provider, SelectionPlan,
};
use cde::protocol::command::ShellCommand;

fn describe(cmds: &[ShellCommand]) -> Vec<String> {
    cmds.iter()
        .map(|c| match c {
            ShellCommand::SetEnv { key, value } => format!("set {}={}", key, value),
            ShellCommand::UnsetEnv { key } => format!("unset {}", key),
        })
        .collect()
}

fn three() -> Vec<Profile> {
    vec![
        Profile::new("aws", "dev", "*"),
        Profile::new("aws", "prod", "*"),
        Profile::new("gcp", "staging", "*"),
    ]
}

#[test]
fn profile_display() {
    let p = Profile::new("gcp", "staging", "o");
    assert_eq!(p.provider, "gcp");
    assert_eq!(p.name, "staging");
    assert_eq!(p.display, "o gcp:staging");
}

#[test]
fn selecting_aws_prod_activates_it() {
    let plan = plan_selection(&three(), Some(1));
    let (provider, name) = match plan {
        SelectionPlan::Activate { provider, name } => (provider, name),
        _ => panic!("expected an activation"),
    };
    assert_eq!(provider, Provider::Aws);
    assert_eq!(name, "prod");
    let cmds = activation_commands(provider, &name, Some("eu-west-1"));
    assert_eq!(
        describe(&cmds),
        vec![
            "set AWS_PROFILE=prod",
            "set AWS_DEFAULT_PROFILE=prod",
            "unset AWS_ACCESS_KEY_ID",
            "unset AWS_SECRET_ACCESS_KEY",
            "unset AWS_SESSION_TOKEN",
            "set AWS_REGION=eu-west-1",
            "set AWS_DEFAULT_REGION=eu-west-1",
        ]
    );
    assert_eq!(profile_entry_value(provider, &name), "aws:prod");
}

#[test]
fn aws_without_region_sets_no_region() {
    let cmds = activation_commands(Provider::Aws, "dev", None);
    assert_eq!(describe(&cmds).len(), 5);
}

#[test]
fn gcp_and_azure_activation() {
    assert_eq!(
        describe(&activation_commands(Provider::Gcp, "staging", Some("proj-1"))),
        vec!["set GOOGLE_CLOUD_PROJECT=proj-1", "set GCLOUD_PROJECT=proj-1"]
    );
    assert!(activation_commands(Provider::Gcp, "staging", None).is_empty());
    assert_eq!(
        describe(&activation_commands(Provider::Azure, "sub", Some("1234"))),
        vec!["set AZURE_SUBSCRIPTION_ID=1234"]
    );
    assert_eq!(profile_entry_value(Provider::Azure, "sub"), "azure:sub");
    assert_eq!(profile_entry_value(Provider::Gcp, "staging"), "gcp:staging");
}

#[test]
fn cancelling_unsets_every_known_key() {
    let plan = plan_selection(&three(), None);
    let cmds = match plan {
        SelectionPlan::CleanAll { commands } => commands,
        _ => panic!("expected a clean-up"),
    };
    let keys: Vec<String> = cmds
        .iter()
        .map(|c| match c {
            ShellCommand::UnsetEnv { key } => key.clone(),
            _ => panic!("only unsets expected"),
        })
        .collect();
    assert_eq!(keys.len(), 14);
    assert_eq!(keys.iter().filter(|k| k.starts_with("AWS_")).count(), 7);
    assert_eq!(keys.iter().filter(|k| k.starts_with("G")).count(), 3);
    assert_eq!(keys.iter().filter(|k| k.starts_with("AZURE_")).count(), 4);
    assert_eq!(describe(&clean_all_profiles()), describe(&cmds));
}

#[test]
fn no_profiles_means_nothing_to_do() {
    assert!(matches!(plan_selection(&Vec::new(), None), SelectionPlan::NoProfiles));
}

#[test]
fn unknown_provider_is_reported() {
    let ps = vec![Profile::new("oracle", "x", "?")];
    match plan_selection(&ps, Some(0)) {
        SelectionPlan::UnknownProvider { tag } => assert_eq!(tag, "oracle"),
        _ => panic!("expected an unknown provider"),
    }
}

#[test]
fn provider_tags() {
    assert_eq!(Provider::from_tag("azure"), Some(Provider::Azure));
    assert_eq!(Provider::from_tag("AWS"), None);
    assert_eq!(Provider::Gcp.tag(), "gcp");
}

#[test]
fn profile_headers() {
    assert_eq!(parse_profile_header("[default]"), Some("default".to_string()));
    assert_eq!(parse_profile_header("  [profile  work ]  "), Some("work".to_string()));
    assert_eq!(parse_profile_header("[ profile dev]"), Some("dev".to_string()));
    assert_eq!(parse_profile_header("[]"), None);
    assert_eq!(parse_profile_header("[   ]"), None);
    assert_eq!(parse_profile_header("["), None);
    assert_eq!(parse_profile_header("region = us-east-1"), None);
    assert_eq!(parse_profile_header("[profile]"), Some("profile".to_string()));
}

#[test]
fn aws_names_sorted_and_unique() {
    let lines: Vec<String> = [
        "[profile prod]",
        "region = eu-west-1",
        "[default]",
        "",
        "[profile dev]",
        "  [profile prod]  ",
        "[sso-session corp]",
    ]
    .iter()
    .map(|s| s.to_string())
    .collect();
    assert_eq!(
        cde::profile::aws_profile_names(&lines),
        vec!["default", "dev", "prod", "sso-session corp"]
    );
    assert!(cde::profile::aws_profile_names(&Vec::new()).is_empty());
}

#[test]
fn tool_output_names() {
    assert_eq!(
        cde::profile::listed_names("default\n  staging  \n\r\n\nprod\r\n"),
        vec!["default", "staging", "prod"]
    );
    assert!(cde::profile::listed_names("").is_empty());
}

#[test]
fn tool_reported_value() {
    assert_eq!(cde::profile::reported_value("  my-project \n"), Some("my-project".to_string()));
    assert_eq!(cde::profile::reported_value(" \n\t"), None);
}
