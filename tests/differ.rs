use fubura::diff_op::DiffOp;
use fubura::differ::{build_diff_ops, build_sfn_tags_diff_ops, sort_tags_by_local_tags_order, DiffError};
use fubura::resource_tag::ResourceTag;
use fubura::schedule::{Schedule, ScheduleState, ScheduleTarget};
use fubura::ssconfig::SsConfig;
use fubura::state_machine::{
    CloudWatchLogsLogGroup, LogDestination, LogLevel, LoggingConfiguration, StateMachine,
    StateMachineType,
};

fn test_state() -> StateMachine {
    StateMachine {
        name: "HelloWorld".to_string(),
        kind: StateMachineType::Standard,
        definition: r#"{"StartAt":"FirstState"}"#.to_string(),
        role_arn: "arn:aws:iam::123456789012:role/service-role/HelloWorldRole".to_string(),
        logging_configuration: Some(LoggingConfiguration {
            level: Some(LogLevel::All),
            include_execution_data: Some(true),
            destinations: vec![LogDestination {
                cloud_watch_logs_log_group: Some(CloudWatchLogsLogGroup {
                    log_group_arn: Some(
                        "arn:aws:logs:us-west-2:123456789012:log-group:HelloWorldLogGroup"
                            .to_string(),
                    ),
                }),
            }],
        }),
        tracing_configuration: None,
        tags: vec![ResourceTag {
            key: "Name".to_string(),
            value: "HelloWorld".to_string(),
        }],
    }
}

fn test_schedule() -> Schedule {
    Schedule {
        group_name: "default".to_string(),
        name: "HelloWorld".to_string(),
        description: Some("HellowWorld schedule".to_string()),
        start_date: None,
        end_date: None,
        schedule_expression: "rate(1 minute)".to_string(),
        schedule_expression_timezone: Some("UTC".to_string()),
        flexible_time_window: None,
        kms_key_arn: None,
        state: ScheduleState::Enabled,
        target: ScheduleTarget {
            arn: "arn:aws:states:us-west-2:123456789012:stateMachine:HelloWorld".to_string(),
            role_arn: "arn:aws:iam::123456789012:role/service-role/HelloWorldRole".to_string(),
            dead_letter_config: None,
            ecs_parameters: None,
            event_bridge_parameters: None,
            input: None,
            kinesis_parameters: None,
            retry_policy: None,
            sage_maker_pipeline_parameters: None,
            sqs_parameters: None,
        },
    }
}

fn updated_state() -> StateMachine {
    let mut remote_state = test_state();
    remote_state.definition = r#"{"StartAt":"Updated"}"#.to_string();
    remote_state
}

fn new_tag() -> ResourceTag {
    ResourceTag {
        key: "new_key".to_string(),
        value: "value".to_string(),
    }
}

fn tag(key: &str, value: &str) -> ResourceTag {
    ResourceTag {
        key: key.to_string(),
        value: value.to_string(),
    }
}

#[test]
fn test_build_diff_ops_returns_no_diff() {
    let local_config = SsConfig {
        state: test_state(),
        schedule: Some(test_schedule()),
        delete_all: false,
        delete_schedule: false,
    };

    let remote_state = Some(test_state());
    let remote_schedule = Some(test_schedule());

    let actual_ops = build_diff_ops(&local_config, &remote_state, &remote_schedule).unwrap();

    assert_eq!(actual_ops, vec![]);
}

#[test]
fn test_build_diff_ops_returns_create_state() {
    let local_config = SsConfig {
        state: test_state(),
        schedule: None,
        delete_all: false,
        delete_schedule: false,
    };

    let actual_ops = build_diff_ops(&local_config, &None, &None).unwrap();

    assert_eq!(actual_ops, vec![DiffOp::CreateState]);
}

#[test]
fn test_build_diff_ops_returns_create_state_and_schedule() {
    let local_config = SsConfig {
        state: test_state(),
        schedule: Some(test_schedule()),
        delete_all: false,
        delete_schedule: false,
    };

    let actual_ops = build_diff_ops(&local_config, &None, &None).unwrap();

    assert_eq!(actual_ops, vec![DiffOp::CreateState, DiffOp::CreateSchedule]);
}

#[test]
fn test_build_diff_ops_returns_update_state() {
    let local_config = SsConfig {
        state: test_state(),
        schedule: Some(test_schedule()),
        delete_all: false,
        delete_schedule: false,
    };

    let remote_state = Some(updated_state());
    let remote_schedule = Some(test_schedule());

    let actual_ops = build_diff_ops(&local_config, &remote_state, &remote_schedule).unwrap();

    assert_eq!(actual_ops, vec![DiffOp::UpdateState]);
}

#[test]
fn test_build_diff_ops_returns_update_state_and_add_tag() {
    let mut local_config = SsConfig {
        state: test_state(),
        schedule: Some(test_schedule()),
        delete_all: false,
        delete_schedule: false,
    };
    local_config.state.tags.push(new_tag());

    let remote_state = Some(updated_state());
    let remote_schedule = Some(test_schedule());

    let actual_ops = build_diff_ops(&local_config, &remote_state, &remote_schedule).unwrap();

    assert_eq!(actual_ops, vec![DiffOp::UpdateState, DiffOp::AddStateTag]);
}

#[test]
fn test_build_diff_ops_returns_update_state_and_remove_tag() {
    let mut local_config = SsConfig {
        state: test_state(),
        schedule: Some(test_schedule()),
        delete_all: false,
        delete_schedule: false,
    };
    local_config.state.tags.pop();

    let remote_state = Some(updated_state());
    let remote_schedule = Some(test_schedule());

    let actual_ops = build_diff_ops(&local_config, &remote_state, &remote_schedule).unwrap();

    assert_eq!(
        actual_ops,
        vec![
            DiffOp::UpdateState,
            DiffOp::RemoveStateTag(vec!["Name".to_string()])
        ]
    );
}

#[test]
fn test_build_diff_ops_returns_update_state_and_add_remove_tag() {
    let mut local_config = SsConfig {
        state: test_state(),
        schedule: Some(test_schedule()),
        delete_all: false,
        delete_schedule: false,
    };
    local_config.state.tags.pop();
    local_config.state.tags.push(new_tag());

    let remote_state = Some(updated_state());
    let remote_schedule = Some(test_schedule());

    let actual_ops = build_diff_ops(&local_config, &remote_state, &remote_schedule).unwrap();

    assert_eq!(
        actual_ops,
        vec![
            DiffOp::UpdateState,
            DiffOp::AddStateTag,
            DiffOp::RemoveStateTag(vec!["Name".to_string()])
        ]
    );
}

#[test]
fn test_build_diff_ops_returns_add_tag() {
    let mut local_config = SsConfig {
        state: test_state(),
        schedule: Some(test_schedule()),
        delete_all: false,
        delete_schedule: false,
    };
    local_config.state.tags.push(new_tag());

    let remote_state = Some(test_state());
    let remote_schedule = Some(test_schedule());

    let actual_ops = build_diff_ops(&local_config, &remote_state, &remote_schedule).unwrap();

    assert_eq!(actual_ops, vec![DiffOp::AddStateTag]);
}

#[test]
fn test_build_diff_ops_returns_remove_tag() {
    let mut local_config = SsConfig {
        state: test_state(),
        schedule: Some(test_schedule()),
        delete_all: false,
        delete_schedule: false,
    };
    local_config.state.tags.pop();

    let remote_state = Some(test_state());
    let remote_schedule = Some(test_schedule());

    let actual_ops = build_diff_ops(&local_config, &remote_state, &remote_schedule).unwrap();

    assert_eq!(
        actual_ops,
        vec![DiffOp::RemoveStateTag(vec!["Name".to_string()])]
    );
}

#[test]
fn test_build_diff_ops_returns_add_remove_tag() {
    let mut local_config = SsConfig {
        state: test_state(),
        schedule: Some(test_schedule()),
        delete_all: false,
        delete_schedule: false,
    };
    local_config.state.tags.pop();
    local_config.state.tags.push(new_tag());

    let remote_state = Some(test_state());
    let remote_schedule = Some(test_schedule());

    let actual_ops = build_diff_ops(&local_config, &remote_state, &remote_schedule).unwrap();

    assert_eq!(
        actual_ops,
        vec![
            DiffOp::AddStateTag,
            DiffOp::RemoveStateTag(vec!["Name".to_string()])
        ]
    );
}

#[test]
fn test_build_diff_ops_returns_update_schedule() {
    let local_config = SsConfig {
        state: test_state(),
        schedule: Some(test_schedule()),
        delete_all: false,
        delete_schedule: false,
    };

    let remote_state = Some(test_state());

    let mut remote_schedule = test_schedule();
    remote_schedule.schedule_expression = "rate(1 hour)".to_string();
    let remote_schedule = Some(remote_schedule);

    let actual_ops = build_diff_ops(&local_config, &remote_state, &remote_schedule).unwrap();

    assert_eq!(actual_ops, vec![DiffOp::UpdateSchedule]);
}

#[test]
fn test_build_diff_ops_with_delete_schedule_flag_returns_delete_schedule() {
    let local_config = SsConfig {
        state: test_state(),
        schedule: Some(test_schedule()),
        delete_all: false,
        delete_schedule: true,
    };

    let remote_state = Some(test_state());
    let remote_schedule = Some(test_schedule());

    let actual_ops = build_diff_ops(&local_config, &remote_state, &remote_schedule).unwrap();

    assert_eq!(actual_ops, vec![DiffOp::DeleteSchedule]);
}

#[test]
fn test_build_diff_ops_with_delete_schedule_flag_returns_no_diff() {
    let local_config = SsConfig {
        state: test_state(),
        schedule: Some(test_schedule()),
        delete_all: false,
        delete_schedule: true,
    };

    let remote_state = Some(test_state());

    let actual_ops = build_diff_ops(&local_config, &remote_state, &None).unwrap();

    assert_eq!(actual_ops, vec![]);
}

#[test]
fn test_build_diff_ops_with_delete_schedule_flag_returns_error() {
    let local_config = SsConfig {
        state: test_state(),
        schedule: None,
        delete_all: false,
        delete_schedule: true,
    };

    let remote_state = Some(test_state());

    let actual_ops = build_diff_ops(&local_config, &remote_state, &None);
    assert!(actual_ops.is_err());
    let err = actual_ops.unwrap_err();
    assert_eq!(
        err.message(),
        "delete schedule flag(deleteSchedule) is on, but can't identify schedule since schedule config is not exist."
    );
}

#[test]
fn test_build_diff_ops_with_delete_all_flag_returns_delete_state_and_schedule() {
    let local_config = SsConfig {
        state: test_state(),
        schedule: Some(test_schedule()),
        delete_all: true,
        delete_schedule: false,
    };

    let remote_state = Some(test_state());
    let remote_schedule = Some(test_schedule());

    let actual_ops = build_diff_ops(&local_config, &remote_state, &remote_schedule).unwrap();

    assert_eq!(actual_ops, vec![DiffOp::DeleteSchedule, DiffOp::DeleteState]);
}

#[test]
fn test_build_diff_ops_with_delete_all_flag_returns_deletes_state_when_local_schedule_exist_but_remote_not(
) {
    let local_config = SsConfig {
        state: test_state(),
        schedule: Some(test_schedule()),
        delete_all: true,
        delete_schedule: false,
    };

    let remote_state = Some(test_state());

    let actual_ops = build_diff_ops(&local_config, &remote_state, &None).unwrap();

    assert_eq!(actual_ops, vec![DiffOp::DeleteState]);
}

#[test]
fn test_build_diff_ops_with_delete_all_flag_returns_deletes_state_when_local_and_remote_schedule_not_exist(
) {
    let local_config = SsConfig {
        state: test_state(),
        schedule: None,
        delete_all: true,
        delete_schedule: false,
    };

    let remote_state = Some(test_state());

    let actual_ops = build_diff_ops(&local_config, &remote_state, &None).unwrap();

    assert_eq!(actual_ops, vec![DiffOp::DeleteState]);
}

#[test]
fn test_build_diff_ops_with_delete_all_flag_returns_no_diff_when_local_resource_exist_but_remote_resources_not_exist(
) {
    let local_config = SsConfig {
        state: test_state(),
        schedule: Some(test_schedule()),
        delete_all: true,
        delete_schedule: false,
    };

    let actual_ops = build_diff_ops(&local_config, &None, &None).unwrap();

    assert_eq!(actual_ops, vec![]);
}

#[test]
fn test_build_diff_ops_with_delete_all_flag_returns_no_diff_when_local_state_exist_but_remote_state_not_exist(
) {
    let local_config = SsConfig {
        state: test_state(),
        schedule: None,
        delete_all: true,
        delete_schedule: false,
    };

    let actual_ops = build_diff_ops(&local_config, &None, &None).unwrap();

    assert_eq!(actual_ops, vec![]);
}

#[test]
fn tag_changes_and_new_keys_share_one_upsert() {
    let local = vec![tag("a", "1"), tag("b", "2"), tag("c", "3")];
    let remote = vec![tag("a", "1"), tag("b", "9"), tag("d", "4")];

    let ops = build_sfn_tags_diff_ops(&local, &remote);

    assert_eq!(
        ops,
        vec![
            DiffOp::AddStateTag,
            DiffOp::RemoveStateTag(vec!["d".to_string()])
        ]
    );
}

#[test]
fn changed_tag_value_alone_is_an_upsert() {
    let local = vec![tag("a", "1")];
    let remote = vec![tag("a", "2")];
    assert_eq!(build_sfn_tags_diff_ops(&local, &remote), vec![DiffOp::AddStateTag]);
}

#[test]
fn removed_keys_follow_remote_order_once_each() {
    let local = vec![tag("a", "1")];
    let remote = vec![tag("z", "1"), tag("a", "1"), tag("y", "2"), tag("z", "3")];
    assert_eq!(
        build_sfn_tags_diff_ops(&local, &remote),
        vec![DiffOp::RemoveStateTag(vec!["z".to_string(), "y".to_string()])]
    );
}

#[test]
fn create_skips_tag_ops_whatever_the_tags() {
    let mut state = test_state();
    state.tags = vec![tag("a", "1"), tag("b", "2")];
    let local_config = SsConfig {
        state,
        schedule: None,
        delete_all: false,
        delete_schedule: false,
    };
    assert_eq!(
        build_diff_ops(&local_config, &None, &None).unwrap(),
        vec![DiffOp::CreateState]
    );
}

#[test]
fn delete_schedule_without_schedule_fails_whatever_is_remote() {
    for delete_all in [false, true] {
        let local_config = SsConfig {
            state: test_state(),
            schedule: None,
            delete_all,
            delete_schedule: true,
        };
        for remote_state in [None, Some(test_state())] {
            for remote_schedule in [None, Some(test_schedule())] {
                assert_eq!(
                    build_diff_ops(&local_config, &remote_state, &remote_schedule).unwrap_err(),
                    DiffError::DeleteScheduleWithoutSchedule
                );
            }
        }
    }
}

#[test]
fn delete_all_with_undeclared_remote_schedule_fails() {
    let local_config = SsConfig {
        state: test_state(),
        schedule: None,
        delete_all: true,
        delete_schedule: false,
    };
    let err = build_diff_ops(&local_config, &Some(test_state()), &Some(test_schedule())).unwrap_err();
    assert_eq!(err, DiffError::DeleteAllWithoutSchedule);
    assert_eq!(
        err.message(),
        "delete all flag(deleteAll) is on and a schedule exists, but can't identify schedule since schedule config is not exist."
    );
    assert_eq!(
        build_diff_ops(&local_config, &None, &None).unwrap(),
        vec![]
    );
}

#[test]
fn undeclared_schedule_is_left_alone() {
    let local_config = SsConfig {
        state: test_state(),
        schedule: None,
        delete_all: false,
        delete_schedule: false,
    };
    let ops = build_diff_ops(&local_config, &Some(test_state()), &Some(test_schedule())).unwrap();
    assert_eq!(ops, vec![]);
}

#[test]
fn same_tags_in_another_order_need_no_op() {
    let mut local = test_state();
    local.tags = vec![tag("Name", "HelloWorld"), tag("Env", "Test")];
    let mut remote = test_state();
    remote.tags = vec![tag("Env", "Test"), tag("Name", "HelloWorld")];
    let local_config = SsConfig {
        state: local,
        schedule: Some(test_schedule()),
        delete_all: false,
        delete_schedule: false,
    };
    let ops = build_diff_ops(&local_config, &Some(remote), &Some(test_schedule())).unwrap();
    assert_eq!(ops, vec![]);
}

#[test]
fn remote_tags_are_put_in_local_order() {
    let local = vec![tag("Name", "HelloWorld"), tag("Env", "Test")];
    let mut remote = test_state();
    remote.tags = vec![tag("Other", "x"), tag("Env", "Prod"), tag("Name", "HelloWorld")];
    let sorted = sort_tags_by_local_tags_order(Some(remote), &local).unwrap();
    assert_eq!(
        sorted.tags,
        vec![tag("Name", "HelloWorld"), tag("Env", "Prod"), tag("Other", "x")]
    );
    assert_eq!(sorted.name, "HelloWorld");
    assert!(sort_tags_by_local_tags_order(None, &local).is_none());
}

#[test]
fn schedule_target_change_is_an_update() {
    let local_config = SsConfig {
        state: test_state(),
        schedule: Some(test_schedule()),
        delete_all: false,
        delete_schedule: false,
    };
    let mut remote_schedule = test_schedule();
    remote_schedule.target.input = Some("{}".to_string());
    let ops = build_diff_ops(&local_config, &Some(test_state()), &Some(remote_schedule)).unwrap();
    assert_eq!(ops, vec![DiffOp::UpdateSchedule]);
}
