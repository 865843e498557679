//! The state machine (workflow) resource as declared and as observed.

use vstd::prelude::*;
use crate::resource_tag::ResourceTag;
use crate::text::{opt_chars, eq_opt_str};
use vstd::std_specs::cmp::PartialEqSpec;

verus! {

/// A CloudWatch Logs log group that receives execution logs.
#[derive(Debug, Clone)]
pub struct CloudWatchLogsLogGroup {
    pub log_group_arn: Option<String>,
}

impl PartialEq for CloudWatchLogsLogGroup {
    fn eq(&self, other: &CloudWatchLogsLogGroup) -> (r: bool) {
        eq_opt_str(&self.log_group_arn, &other.log_group_arn)
    }
}

impl vstd::std_specs::cmp::PartialEqSpecImpl for CloudWatchLogsLogGroup {
    open spec fn obeys_eq_spec() -> bool {
        true
    }

    open spec fn eq_spec(&self, other: &CloudWatchLogsLogGroup) -> bool {
        opt_chars(self.log_group_arn) == opt_chars(other.log_group_arn)
    }
}

/// Where execution logs are sent.
#[derive(Debug, Clone)]
pub struct LogDestination {
    pub cloud_watch_logs_log_group: Option<CloudWatchLogsLogGroup>,
}

impl PartialEq for LogDestination {
    fn eq(&self, other: &LogDestination) -> (r: bool) {
        self.cloud_watch_logs_log_group == other.cloud_watch_logs_log_group
    }
}

impl vstd::std_specs::cmp::PartialEqSpecImpl for LogDestination {
    open spec fn obeys_eq_spec() -> bool {
        true
    }

    open spec fn eq_spec(&self, other: &LogDestination) -> bool {
        PartialEqSpec::eq_spec(&self.cloud_watch_logs_log_group, &other.cloud_watch_logs_log_group)
    }
}

/// How much of an execution is logged.
#[derive(Debug, Clone, Copy, PartialEq, Eq, Structural)]
pub enum LogLevel {
    All,
    Error,
    Fatal,
    Off,
}

/// The logging settings of a state machine.
#[derive(Debug, Clone)]
pub struct LoggingConfiguration {
    pub level: Option<LogLevel>,
    pub include_execution_data: Option<bool>,
    pub destinations: Vec<LogDestination>,
}

impl PartialEq for LoggingConfiguration {
    fn eq(&self, other: &LoggingConfiguration) -> (r: bool) {
        self.level == other.level && self.include_execution_data == other.include_execution_data
            && self.destinations == other.destinations
    }
}

impl vstd::std_specs::cmp::PartialEqSpecImpl for LoggingConfiguration {
    open spec fn obeys_eq_spec() -> bool {
        true
    }

    open spec fn eq_spec(&self, other: &LoggingConfiguration) -> bool {
        &&& self.level == other.level
        &&& self.include_execution_data == other.include_execution_data
        &&& PartialEqSpec::eq_spec(&self.destinations, &other.destinations)
    }
}

/// Whether X-Ray tracing is on.
#[derive(Debug, Clone, Copy, PartialEq, Eq, Structural)]
pub struct TracingConfiguration {
    pub enabled: bool,
}

/// The kind of a state machine.
#[derive(Debug, Clone, Copy, PartialEq, Eq, Structural)]
pub enum StateMachineType {
    Standard,
    Express,
}

/// A state machine: its name (the identifier, never changed), its kind, its
/// definition document, the role it runs as, its logging and tracing settings,
/// and its tags.
///
/// `definition` holds the definition document as compact JSON text with the
/// keys of every object in sorted order, so that two definitions are the same
/// document exactly when their texts are equal.
#[derive(Debug, Clone)]
pub struct StateMachine {
    pub name: String,
    pub definition: String,
    pub role_arn: String,
    pub kind: StateMachineType,
    pub logging_configuration: Option<LoggingConfiguration>,
    pub tracing_configuration: Option<TracingConfiguration>,
    pub tags: Vec<ResourceTag>,
}

impl StateMachine {
    /// Whether `self` and `other` agree on everything but their tags.
    pub open spec fn same_body(&self, other: &StateMachine) -> bool {
        &&& self.name@ == other.name@
        &&& self.definition@ == other.definition@
        &&& self.role_arn@ == other.role_arn@
        &&& self.kind == other.kind
        &&& PartialEqSpec::eq_spec(&self.logging_configuration, &other.logging_configuration)
        &&& self.tracing_configuration == other.tracing_configuration
    }

    /// Compares everything but the tags.
    pub fn eq_ignoring_tags(&self, other: &StateMachine) -> (r: bool)
        ensures
            r == self.same_body(other),
    {
        self.name == other.name && self.definition == other.definition && self.role_arn
            == other.role_arn && self.kind == other.kind && self.logging_configuration
            == other.logging_configuration && self.tracing_configuration
            == other.tracing_configuration
    }
}

impl PartialEq for StateMachine {
    fn eq(&self, other: &StateMachine) -> (r: bool) {
        self.eq_ignoring_tags(other) && self.tags == other.tags
    }
}

impl vstd::std_specs::cmp::PartialEqSpecImpl for StateMachine {
    open spec fn obeys_eq_spec() -> bool {
        true
    }

    open spec fn eq_spec(&self, other: &StateMachine) -> bool {
        self.same_body(other) && PartialEqSpec::eq_spec(&self.tags, &other.tags)
    }
}

} // verus!
