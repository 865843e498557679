use fubura::cli::StrKeyVal;
use fubura::identity::{build_state_arn_prefix, CallerIdentity};
use fubura::import::{ensure_not_exist_in_config, ImportCommand, ImportError};
use fubura::init::{bootstrap_files, InitCommand};
use fubura::render::{format_config_diff, format_resource_diff, render_plain, LineKind};
use fubura::diff_op::DiffOp;
use fubura::schedule::{default_group_name, split_schedule_name_with_group, Schedule, ScheduleState, ScheduleTarget};
use fubura::ssconfig::{default_delete_flag, Config, SsConfig};
use fubura::state_machine::{StateMachine, StateMachineType};

fn state(name: &str) -> StateMachine {
    StateMachine {
        name: name.to_string(),
        kind: StateMachineType::Express,
        definition: "{}".to_string(),
        role_arn: "role".to_string(),
        logging_configuration: None,
        tracing_configuration: None,
        tags: vec![],
    }
}

fn schedule(group: &str, name: &str) -> Schedule {
    Schedule {
        group_name: group.to_string(),
        name: name.to_string(),
        description: None,
        start_date: None,
        end_date: None,
        schedule_expression: "rate(1 minute)".to_string(),
        schedule_expression_timezone: None,
        flexible_time_window: None,
        kms_key_arn: None,
        state: ScheduleState::Disabled,
        target: ScheduleTarget {
            arn: "arn".to_string(),
            role_arn: "role".to_string(),
            dead_letter_config: None,
            ecs_parameters: None,
            event_bridge_parameters: None,
            input: None,
            kinesis_parameters: None,
            retry_policy: None,
            sage_maker_pipeline_parameters: None,
            sqs_parameters: None,
        },
    }
}

fn pair(name: &str) -> SsConfig {
    SsConfig {
        state: state(name),
        schedule: None,
        delete_all: default_delete_flag(),
        delete_schedule: default_delete_flag(),
    }
}

#[test]
fn key_value_arguments() {
    let kv = StrKeyVal::from("env=prod=1");
    assert_eq!(kv.var, "env");
    assert_eq!(kv.val, Some("prod=1".to_string()));
    let bare = StrKeyVal::from("flag");
    assert_eq!(bare.var, "flag");
    assert_eq!(bare.val, None);
    let empty = StrKeyVal::from("k=");
    assert_eq!(empty.val, Some(String::new()));
}

#[test]
fn schedule_identifiers() {
    assert_eq!(default_group_name(), "default");
    assert_eq!(schedule("default", "HelloWorld").schedule_name_with_group(), "default/HelloWorld");
    assert_eq!(
        split_schedule_name_with_group("group/name/x"),
        Some(("group".to_string(), "name/x".to_string()))
    );
    assert_eq!(split_schedule_name_with_group("nogroup"), None);
}

#[test]
fn arn_prefix() {
    let identity = CallerIdentity {
        account: "123456789012".to_string(),
    };
    assert_eq!(
        build_state_arn_prefix("us-west-2", &identity),
        "arn:aws:states:us-west-2:123456789012:stateMachine:"
    );
}

#[test]
fn target_filter_keeps_configuration_order() {
    let config = Config {
        ss_configs: vec![pair("A"), pair("B"), pair("C")],
    };
    let all = config.target_ss_configs(&None);
    assert_eq!(all.len(), 3);
    let some = config.target_ss_configs(&Some(vec!["C".to_string(), "A".to_string(), "Z".to_string()]));
    let names: Vec<&str> = some.iter().map(|c| c.state.name.as_str()).collect();
    assert_eq!(names, vec!["A", "C"]);
    assert!(config.target_ss_configs(&Some(vec![])).is_empty());
}

#[test]
fn import_refuses_existing_names() {
    let mut config = Config::default();
    assert!(ImportCommand::append_imported(&mut config, state("HelloWorld"), Some(schedule("default", "HelloWorld"))).is_ok());
    assert_eq!(config.ss_configs.len(), 1);
    assert!(!config.ss_configs[0].delete_all);
    match ImportCommand::append_imported(&mut config, state("HelloWorld"), None) {
        Err(ImportError::AlreadyExists(name)) => assert_eq!(name, "HelloWorld"),
        other => panic!("unexpected {:?}", other),
    }
    assert_eq!(config.ss_configs.len(), 1);
    assert!(ensure_not_exist_in_config(&config, "Other").is_ok());
    assert!(ensure_not_exist_in_config(&config, "HelloWorld").is_err());
}

#[test]
fn init_files_and_confirmation() {
    let files = bootstrap_files();
    assert_eq!(files.len(), 2);
    assert_eq!(files[0].0, "eber-config.jsonnet");
    assert!(files[0].1.contains("example-group"));
    assert_eq!(files[1], ("example-group.jsonnet".to_string(), "[]".to_string()));
    assert!(InitCommand::overwrite_confirmed("  yes\n"));
    assert!(InitCommand::overwrite_confirmed("\u{3000}yes\t"));
    assert!(!InitCommand::overwrite_confirmed("y es"));
    assert!(!InitCommand::overwrite_confirmed("no\n"));
}

#[test]
fn resource_diff_renders_hunks() {
    let lines = format_resource_diff("HelloWorld", "a\nb\n", "a\nc\n");
    let text = render_plain(&lines);
    assert_eq!(
        text,
        "--- remote: HelloWorld\n+++ local:  HelloWorld\n a\n-b\n+c\n"
    );
    assert_eq!(lines[0].kind, LineKind::Header);
    assert_eq!(lines[3].kind, LineKind::Delete);
    assert_eq!(lines[4].kind, LineKind::Insert);
    assert!(format_resource_diff("X", "same\n", "same\n").is_empty());
}

#[test]
fn config_diff_sections() {
    let mut local = pair("HelloWorld");
    local.schedule = Some(schedule("default", "Every"));
    let remote_state = Some(state("HelloWorld"));
    let remote_schedule = Some(schedule("default", "Every"));

    assert!(format_config_diff(&local, &remote_state, &remote_schedule, &[], "x\n", "x\n", "y\n", "y\n").is_none());

    let deleted = format_config_diff(
        &local,
        &remote_state,
        &remote_schedule,
        &[DiffOp::DeleteSchedule, DiffOp::DeleteState],
        "",
        "",
        "",
        "",
    )
    .unwrap();
    assert_eq!(
        render_plain(&deleted),
        "State machine(HelloWorld) is going to be deleted\nSchedule(Every) is going to be deleted\n"
    );

    let changed = format_config_diff(
        &local,
        &None,
        &None,
        &[DiffOp::CreateState, DiffOp::CreateSchedule],
        "null",
        "{}",
        "null",
        "{}",
    )
    .unwrap();
    assert_eq!(
        render_plain(&changed),
        "--- remote: HelloWorld\n+++ local:  HelloWorld\n-null\n+{}\n\n--- remote: Every\n+++ local:  Every\n-null\n+{}\n\n"
    );
}

#[test]
fn repeated_override_names() {
    let ext = vec![
        StrKeyVal::from("a=1"),
        StrKeyVal::from("b"),
        StrKeyVal::from("a=2"),
        StrKeyVal::from("b=3"),
    ];
    assert_eq!(fubura::cli::find_repeated_var(&ext), Some(2));
    assert_eq!(fubura::cli::find_repeated_var(&ext[..2]), None);
    assert_eq!(fubura::cli::find_repeated_var(&[]), None);
}
