use std::collections::HashMap;

use fubura::apply::{ApplyCall, ApplyCommand, ApplyError, ApplyGate};
use fubura::diff_op::{sort_diff_ops, DiffOp};
use fubura::diff_result::DiffResult;
use fubura::differ::{build_diff_ops, sort_tags_by_local_tags_order, DiffError};
use fubura::plan::diff_pair;
use fubura::resource_tag::ResourceTag;
use fubura::schedule::{Schedule, ScheduleState, ScheduleTarget};
use fubura::ssconfig::{Config, SsConfig};
use fubura::state_machine::{StateMachine, StateMachineType};

fn tag(key: &str, value: &str) -> ResourceTag {
    ResourceTag {
        key: key.to_string(),
        value: value.to_string(),
    }
}

fn state(name: &str, tags: Vec<ResourceTag>) -> StateMachine {
    StateMachine {
        name: name.to_string(),
        kind: StateMachineType::Standard,
        definition: r#"{"StartAt":"FirstState"}"#.to_string(),
        role_arn: "arn:aws:iam::123456789012:role/service-role/HelloWorldRole".to_string(),
        logging_configuration: None,
        tracing_configuration: None,
        tags,
    }
}

fn schedule(name: &str) -> Schedule {
    Schedule {
        group_name: "default".to_string(),
        name: name.to_string(),
        description: Some("HellowWorld schedule".to_string()),
        start_date: None,
        end_date: None,
        schedule_expression: "rate(1 minute)".to_string(),
        schedule_expression_timezone: Some("UTC".to_string()),
        flexible_time_window: None,
        kms_key_arn: None,
        state: ScheduleState::Enabled,
        target: ScheduleTarget {
            arn: "arn:aws:states:us-west-2:123456789012:stateMachine:HelloWorld".to_string(),
            role_arn: "arn:aws:iam::123456789012:role/service-role/HelloWorldRole".to_string(),
            dead_letter_config: None,
            ecs_parameters: None,
            event_bridge_parameters: None,
            input: None,
            kinesis_parameters: None,
            retry_policy: None,
            sage_maker_pipeline_parameters: None,
            sqs_parameters: None,
        },
    }
}

fn summary_map(result: &DiffResult) -> HashMap<String, usize> {
    result.summary.iter().cloned().collect()
}

#[test]
fn test_diff_op_ordering_delete_state_after_delete_schedule() {
    let actual_diff_ops = vec![
        DiffOp::CreateState,
        DiffOp::UpdateState,
        DiffOp::DeleteState,
        DiffOp::AddStateTag,
        DiffOp::RemoveStateTag(vec!["tag".to_string()]),
        DiffOp::CreateSchedule,
        DiffOp::UpdateSchedule,
        DiffOp::DeleteSchedule,
    ];

    let expected = vec![
        DiffOp::CreateState,
        DiffOp::UpdateState,
        DiffOp::AddStateTag,
        DiffOp::RemoveStateTag(vec!["tag".to_string()]),
        DiffOp::CreateSchedule,
        DiffOp::UpdateSchedule,
        DiffOp::DeleteSchedule,
        DiffOp::DeleteState,
    ];

    let mut derived = actual_diff_ops.clone();
    derived.sort();
    assert_eq!(expected, derived);
    assert_eq!(expected, sort_diff_ops(actual_diff_ops));
}

#[test]
fn test_diff_op_serialize() {
    let actual_diff_ops = vec![
        DiffOp::CreateState,
        DiffOp::UpdateState,
        DiffOp::DeleteState,
        DiffOp::AddStateTag,
        DiffOp::RemoveStateTag(vec!["tag".to_string()]),
        DiffOp::CreateSchedule,
        DiffOp::UpdateSchedule,
        DiffOp::DeleteSchedule,
    ];

    let actual: Vec<String> = actual_diff_ops.iter().map(|op| op.op_type()).collect();

    let expected = vec![
        "create_state",
        "update_state",
        "delete_state",
        "add_state_tag",
        "remote_state_tag",
        "create_schedule",
        "update_schedule",
        "delete_schedule",
    ];

    assert_eq!(expected, actual);
}

#[test]
fn sort_keeps_delete_schedule_before_delete_state() {
    let ops = vec![DiffOp::DeleteState, DiffOp::AddStateTag, DiffOp::DeleteSchedule];
    assert_eq!(
        sort_diff_ops(ops),
        vec![DiffOp::AddStateTag, DiffOp::DeleteSchedule, DiffOp::DeleteState]
    );
    assert_eq!(sort_diff_ops(vec![]), vec![]);
}

#[test]
fn test_summary() {
    let mut actual = DiffResult::default();

    actual.append_diff_op("NewBatch", &DiffOp::CreateState);
    actual.append_diff_op("HelloWorld", &DiffOp::UpdateState);
    actual.append_diff_op("HelloWorld", &DiffOp::AddStateTag);
    actual.append_diff_op(
        "HelloWorld",
        &DiffOp::RemoveStateTag(vec!["tag".to_string()]),
    );
    actual.append_diff_op("HelloWorld", &DiffOp::CreateSchedule);

    let expected = HashMap::from([
        ("create_state".to_string(), 1),
        ("update_state".to_string(), 1),
        ("delete_state".to_string(), 0),
        ("create_schedule".to_string(), 1),
        ("update_schedule".to_string(), 0),
        ("delete_schedule".to_string(), 0),
    ]);

    assert_eq!(expected, summary_map(&actual));
}

#[test]
fn test_no_change_flag() {
    let mut actual = DiffResult::default();

    assert_eq!(true, actual.no_change);

    actual.append_diff_op("NewBatch", &DiffOp::CreateState);
    assert_eq!(false, actual.no_change);
}

#[test]
fn report_collapses_tag_ops_and_keeps_details() {
    let mut actual = DiffResult::default();
    actual.append_diff_op("HelloWorld", &DiffOp::AddStateTag);
    actual.append_diff_op("HelloWorld", &DiffOp::RemoveStateTag(vec!["a".to_string()]));
    actual.append_diff_op("Other", &DiffOp::DeleteState);

    assert_eq!(actual.diff_ops.len(), 2);
    assert_eq!(actual.diff_ops[0].state_name, "HelloWorld");
    assert_eq!(actual.diff_ops[0].diff_ops, vec![DiffOp::UpdateState]);
    assert_eq!(actual.diff_ops[1].diff_ops, vec![DiffOp::DeleteState]);
    assert_eq!(
        actual.detail_diff_ops[0].diff_ops,
        vec![DiffOp::AddStateTag, DiffOp::RemoveStateTag(vec!["a".to_string()])]
    );
    let summary = summary_map(&actual);
    assert_eq!(summary["update_state"], 1);
    assert_eq!(summary["delete_state"], 1);
}

#[test]
fn text_diff_is_stored_without_styling() {
    let mut actual = DiffResult::default();
    actual.append_text_diff("\u{1b}[32m+\u{1b}[0m line\n".to_string());
    actual.append_text_diff("plain\n".to_string());
    assert_eq!(actual.text_diff, vec!["+ line\n".to_string(), "plain\n".to_string()]);
    assert!(actual.no_change);
}

#[test]
fn new_pair_scenario_reports_creations() {
    let local = SsConfig {
        state: state("HelloWorld", vec![tag("Name", "HelloWorld")]),
        schedule: Some(schedule("HelloWorld")),
        delete_all: false,
        delete_schedule: false,
    };
    let ops = build_diff_ops(&local, &None, &None).unwrap();
    assert_eq!(ops, vec![DiffOp::CreateState, DiffOp::CreateSchedule]);

    let mut result = DiffResult::default();
    result.append_diff_ops("HelloWorld", &ops);
    assert!(!result.no_change);
    let summary = summary_map(&result);
    assert_eq!(summary["create_state"], 1);
    assert_eq!(summary["create_schedule"], 1);
    assert_eq!(summary["update_state"], 0);
}

#[test]
fn test_diff_no_diff_with_different_tag_order() {
    let local = SsConfig {
        state: state("HelloWorld", vec![tag("Name", "HelloWorld"), tag("Env", "Test")]),
        schedule: Some(schedule("HelloWorld")),
        delete_all: false,
        delete_schedule: false,
    };
    let remote = state("HelloWorld", vec![tag("Env", "Test"), tag("Name", "HelloWorld")]);
    let remote = sort_tags_by_local_tags_order(Some(remote), &local.state.tags);
    let ops = build_diff_ops(&local, &remote, &Some(schedule("HelloWorld"))).unwrap();
    assert_eq!(ops, vec![]);

    let mut result = DiffResult::default();
    result.append_diff_ops("HelloWorld", &ops);
    assert!(result.no_change);
}

#[test]
fn test_diff_no_diff() {
    let local = SsConfig {
        state: state("HelloWorld", vec![tag("Env", "Test"), tag("Name", "HelloWorld")]),
        schedule: Some(schedule("HelloWorld")),
        delete_all: false,
        delete_schedule: false,
    };
    let remote = Some(state("HelloWorld", vec![tag("Env", "Test"), tag("Name", "HelloWorld")]));
    let ops = build_diff_ops(&local, &remote, &Some(schedule("HelloWorld"))).unwrap();
    let mut result = DiffResult::default();
    result.append_diff_ops("HelloWorld", &ops);
    assert!(result.no_change);
    assert!(result.detail_diff_ops.is_empty());
}

#[test]
fn gate_and_approval() {
    assert_eq!(ApplyCommand::gate(true, false), ApplyGate::NothingToDo);
    assert_eq!(ApplyCommand::gate(true, true), ApplyGate::NothingToDo);
    assert_eq!(ApplyCommand::gate(false, false), ApplyGate::AskConfirmation);
    assert_eq!(ApplyCommand::gate(false, true), ApplyGate::Proceed);
    assert!(ApplyCommand::is_approval("yes"));
    assert!(!ApplyCommand::is_approval("y"));
    assert!(!ApplyCommand::is_approval("yes "));
    assert!(!ApplyCommand::is_approval("YES"));
}

fn config_of(pairs: Vec<SsConfig>) -> Config {
    Config { ss_configs: pairs }
}

#[test]
fn apply_calls_follow_report_order() {
    let config = config_of(vec![
        SsConfig {
            state: state("A", vec![]),
            schedule: Some(schedule("A")),
            delete_all: true,
            delete_schedule: false,
        },
        SsConfig {
            state: state("B", vec![]),
            schedule: None,
            delete_all: false,
            delete_schedule: false,
        },
    ]);
    let mut result = DiffResult::default();
    result.append_diff_ops("A", &[DiffOp::DeleteSchedule, DiffOp::DeleteState]);
    result.append_diff_ops("B", &[DiffOp::UpdateState, DiffOp::RemoveStateTag(vec!["k".to_string()])]);

    let prefix = "arn:aws:states:us-west-2:123456789012:stateMachine:";
    let calls: Vec<ApplyCall> = ApplyCommand::plan_calls(&result, &config, prefix).unwrap();
    let seen: Vec<(usize, String, DiffOp)> = calls
        .into_iter()
        .map(|c| (c.pair, c.state_arn, c.op))
        .collect();
    let arn_a = format!("{}A", prefix);
    let arn_b = format!("{}B", prefix);
    assert_eq!(
        seen,
        vec![
            (0, arn_a.clone(), DiffOp::DeleteSchedule),
            (0, arn_a, DiffOp::DeleteState),
            (1, arn_b.clone(), DiffOp::UpdateState),
            (1, arn_b, DiffOp::RemoveStateTag(vec!["k".to_string()])),
        ]
    );
}

#[test]
fn apply_plan_errors() {
    let config = config_of(vec![SsConfig {
        state: state("B", vec![]),
        schedule: None,
        delete_all: false,
        delete_schedule: false,
    }]);
    let mut unknown = DiffResult::default();
    unknown.append_diff_op("A", &DiffOp::CreateState);
    match ApplyCommand::plan_calls(&unknown, &config, "p:") {
        Err(ApplyError::UnknownStateMachine(name)) => assert_eq!(name, "A"),
        other => panic!("unexpected {:?}", other),
    }
    let mut missing = DiffResult::default();
    missing.append_diff_op("B", &DiffOp::CreateSchedule);
    match ApplyCommand::plan_calls(&missing, &config, "p:") {
        Err(ApplyError::MissingSchedule(name)) => assert_eq!(name, "B"),
        other => panic!("unexpected {:?}", other),
    }
    let empty = DiffResult::default();
    assert!(ApplyCommand::plan_calls(&empty, &config, "p:").unwrap().is_empty());
}

#[test]
fn pair_step_records_ops_and_text() {
    let local = SsConfig {
        state: state("HelloWorld", vec![tag("Name", "HelloWorld")]),
        schedule: Some(schedule("HelloWorld")),
        delete_all: false,
        delete_schedule: false,
    };
    let mut result = DiffResult::default();
    let lines = diff_pair(&mut result, &local, &None, &None, "null", "{}", "null", "{}")
        .unwrap()
        .unwrap();
    assert!(!lines.is_empty());
    assert_eq!(result.detail_diff_ops.len(), 1);
    assert_eq!(
        result.detail_diff_ops[0].diff_ops,
        vec![DiffOp::CreateState, DiffOp::CreateSchedule]
    );
    assert_eq!(result.text_diff.len(), 1);
    assert!(result.text_diff[0].starts_with("--- remote: HelloWorld\n"));

    let remote = Some(state("HelloWorld", vec![tag("Name", "HelloWorld")]));
    let mut quiet = DiffResult::default();
    let none = diff_pair(&mut quiet, &local, &remote, &Some(schedule("HelloWorld")), "x", "x", "y", "y").unwrap();
    assert!(none.is_none());
    assert!(quiet.no_change);
    assert!(quiet.text_diff.is_empty());
}

#[test]
fn pair_step_error_leaves_report() {
    let local = SsConfig {
        state: state("HelloWorld", vec![]),
        schedule: None,
        delete_all: false,
        delete_schedule: true,
    };
    let mut result = DiffResult::default();
    let err = diff_pair(&mut result, &local, &None, &None, "", "", "", "").unwrap_err();
    assert_eq!(err, DiffError::DeleteScheduleWithoutSchedule);
    assert!(result.no_change);
    assert!(result.detail_diff_ops.is_empty());
    assert!(result.text_diff.is_empty());
}
