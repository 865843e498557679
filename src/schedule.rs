//! The schedule resource: a recurring trigger and the target it invokes.

use vstd::prelude::*;
use vstd::std_specs::cmp::PartialEqSpec;
use crate::resource_tag::ResourceTag;
use crate::text::{opt_chars, chars_of_all, eq_opt_str, eq_strs};

verus! {

/// Whether a schedule may fire within a window around its time.
#[derive(Debug, Clone, Copy, PartialEq, Eq, Structural)]
pub enum FlexibleTimeWindowMode {
    Off,
    Flexible,
}

/// The window within which a schedule may fire.
#[derive(Debug, Clone, Copy, PartialEq, Eq, Structural)]
pub struct FlexibleTimeWindow {
    pub mode: FlexibleTimeWindowMode,
    pub maximum_window_in_minutes: Option<i32>,
}

/// Where events that could not be delivered are sent.
#[derive(Debug, Clone)]
pub struct DeadLetterConfig {
    pub arn: Option<String>,
}

impl PartialEq for DeadLetterConfig {
    fn eq(&self, other: &DeadLetterConfig) -> (r: bool) {
        eq_opt_str(&self.arn, &other.arn)
    }
}

impl vstd::std_specs::cmp::PartialEqSpecImpl for DeadLetterConfig {
    open spec fn obeys_eq_spec() -> bool {
        true
    }

    open spec fn eq_spec(&self, other: &DeadLetterConfig) -> bool {
        &&& opt_chars(self.arn) == opt_chars(other.arn)
    }
}

/// One capacity provider of an ECS target.
#[derive(Debug, Clone)]
pub struct CapacityProviderStrategyItem {
    pub base: i32,
    pub capacity_provider: String,
    pub weight: i32,
}

impl PartialEq for CapacityProviderStrategyItem {
    fn eq(&self, other: &CapacityProviderStrategyItem) -> (r: bool) {
        self.base == other.base
            && self.capacity_provider == other.capacity_provider
            && self.weight == other.weight
    }
}

impl vstd::std_specs::cmp::PartialEqSpecImpl for CapacityProviderStrategyItem {
    open spec fn obeys_eq_spec() -> bool {
        true
    }

    open spec fn eq_spec(&self, other: &CapacityProviderStrategyItem) -> bool {
        &&& self.base == other.base
        &&& self.capacity_provider@ == other.capacity_provider@
        &&& self.weight == other.weight
    }
}

/// Whether an ECS task gets a public IP address.
#[derive(Debug, Clone, Copy, PartialEq, Eq, Structural)]
pub enum AssignPublicIp {
    Disabled,
    Enabled,
}

/// The VPC settings of an ECS task.
#[derive(Debug, Clone)]
pub struct AwsVpcConfiguration {
    pub assign_public_ip: Option<AssignPublicIp>,
    pub security_groups: Vec<String>,
    pub subnets: Vec<String>,
}

impl PartialEq for AwsVpcConfiguration {
    fn eq(&self, other: &AwsVpcConfiguration) -> (r: bool) {
        self.assign_public_ip == other.assign_public_ip
            && eq_strs(&self.security_groups, &other.security_groups)
            && eq_strs(&self.subnets, &other.subnets)
    }
}

impl vstd::std_specs::cmp::PartialEqSpecImpl for AwsVpcConfiguration {
    open spec fn obeys_eq_spec() -> bool {
        true
    }

    open spec fn eq_spec(&self, other: &AwsVpcConfiguration) -> bool {
        &&& self.assign_public_ip == other.assign_public_ip
        &&& chars_of_all(self.security_groups@) == chars_of_all(other.security_groups@)
        &&& chars_of_all(self.subnets@) == chars_of_all(other.subnets@)
    }
}

/// The network settings of an ECS task.
#[derive(Debug, Clone)]
pub struct NetworkConfiguration {
    pub awsvpc_configuration: AwsVpcConfiguration,
}

impl PartialEq for NetworkConfiguration {
    fn eq(&self, other: &NetworkConfiguration) -> (r: bool) {
        self.awsvpc_configuration == other.awsvpc_configuration
    }
}

impl vstd::std_specs::cmp::PartialEqSpecImpl for NetworkConfiguration {
    open spec fn obeys_eq_spec() -> bool {
        true
    }

    open spec fn eq_spec(&self, other: &NetworkConfiguration) -> bool {
        &&& PartialEqSpec::eq_spec(&self.awsvpc_configuration, &other.awsvpc_configuration)
    }
}

/// The kind of an ECS placement constraint.
#[derive(Debug, Clone, Copy, PartialEq, Eq, Structural)]
pub enum PlacementConstraintType {
    MemberOf,
    DistinctInstance,
}

/// A placement constraint of an ECS task.
#[derive(Debug, Clone)]
pub struct PlacementConstraint {
    pub expression: Option<String>,
    pub kind: Option<PlacementConstraintType>,
}

impl PartialEq for PlacementConstraint {
    fn eq(&self, other: &PlacementConstraint) -> (r: bool) {
        eq_opt_str(&self.expression, &other.expression)
            && self.kind == other.kind
    }
}

impl vstd::std_specs::cmp::PartialEqSpecImpl for PlacementConstraint {
    open spec fn obeys_eq_spec() -> bool {
        true
    }

    open spec fn eq_spec(&self, other: &PlacementConstraint) -> bool {
        &&& opt_chars(self.expression) == opt_chars(other.expression)
        &&& self.kind == other.kind
    }
}

/// The kind of an ECS placement strategy.
#[derive(Debug, Clone, Copy, PartialEq, Eq, Structural)]
pub enum PlacementStrategyType {
    Random,
    Spread,
    Binpack,
}

/// A placement strategy of an ECS task.
#[derive(Debug, Clone)]
pub struct PlacementStrategy {
    pub field: Option<String>,
    pub kind: Option<PlacementStrategyType>,
}

impl PartialEq for PlacementStrategy {
    fn eq(&self, other: &PlacementStrategy) -> (r: bool) {
        eq_opt_str(&self.field, &other.field)
            && self.kind == other.kind
    }
}

impl vstd::std_specs::cmp::PartialEqSpecImpl for PlacementStrategy {
    open spec fn obeys_eq_spec() -> bool {
        true
    }

    open spec fn eq_spec(&self, other: &PlacementStrategy) -> bool {
        &&& opt_chars(self.field) == opt_chars(other.field)
        &&& self.kind == other.kind
    }
}

/// How an ECS task is launched.
#[derive(Debug, Clone, Copy, PartialEq, Eq, Structural)]
pub enum LaunchType {
    Ec2,
    Fargate,
    External,
}

/// Where an ECS task takes its tags from.
#[derive(Debug, Clone, Copy, PartialEq, Eq, Structural)]
pub enum PropagateTags {
    TaskDefinition,
}

/// The parameters of an ECS target.
#[derive(Debug, Clone)]
pub struct EcsParameters {
    pub task_definition_arn: String,
    pub capacity_provider_strategy: Vec<CapacityProviderStrategyItem>,
    pub enable_ecs_managed_tags: Option<bool>,
    pub enable_execute_command: Option<bool>,
    pub group: Option<String>,
    pub launch_type: Option<LaunchType>,
    pub network_configuration: Option<NetworkConfiguration>,
    pub placement_constraints: Vec<PlacementConstraint>,
    pub placement_strategy: Vec<PlacementStrategy>,
    pub platform_version: Option<String>,
    pub propagate_tags: Option<PropagateTags>,
    pub reference_id: Option<String>,
    pub tags: Vec<ResourceTag>,
    pub task_count: Option<i32>,
}

impl PartialEq for EcsParameters {
    fn eq(&self, other: &EcsParameters) -> (r: bool) {
        self.task_definition_arn == other.task_definition_arn
            && self.capacity_provider_strategy == other.capacity_provider_strategy
            && self.enable_ecs_managed_tags == other.enable_ecs_managed_tags
            && self.enable_execute_command == other.enable_execute_command
            && eq_opt_str(&self.group, &other.group)
            && self.launch_type == other.launch_type
            && self.network_configuration == other.network_configuration
            && self.placement_constraints == other.placement_constraints
            && self.placement_strategy == other.placement_strategy
            && eq_opt_str(&self.platform_version, &other.platform_version)
            && self.propagate_tags == other.propagate_tags
            && eq_opt_str(&self.reference_id, &other.reference_id)
            && self.tags == other.tags
            && self.task_count == other.task_count
    }
}

impl vstd::std_specs::cmp::PartialEqSpecImpl for EcsParameters {
    open spec fn obeys_eq_spec() -> bool {
        true
    }

    open spec fn eq_spec(&self, other: &EcsParameters) -> bool {
        &&& self.task_definition_arn@ == other.task_definition_arn@
        &&& PartialEqSpec::eq_spec(&self.capacity_provider_strategy, &other.capacity_provider_strategy)
        &&& self.enable_ecs_managed_tags == other.enable_ecs_managed_tags
        &&& self.enable_execute_command == other.enable_execute_command
        &&& opt_chars(self.group) == opt_chars(other.group)
        &&& self.launch_type == other.launch_type
        &&& PartialEqSpec::eq_spec(&self.network_configuration, &other.network_configuration)
        &&& PartialEqSpec::eq_spec(&self.placement_constraints, &other.placement_constraints)
        &&& PartialEqSpec::eq_spec(&self.placement_strategy, &other.placement_strategy)
        &&& opt_chars(self.platform_version) == opt_chars(other.platform_version)
        &&& self.propagate_tags == other.propagate_tags
        &&& opt_chars(self.reference_id) == opt_chars(other.reference_id)
        &&& PartialEqSpec::eq_spec(&self.tags, &other.tags)
        &&& self.task_count == other.task_count
    }
}

/// The parameters of a Kinesis target.
#[derive(Debug, Clone)]
pub struct KinesisParameters {
    pub partition_key: String,
}

impl PartialEq for KinesisParameters {
    fn eq(&self, other: &KinesisParameters) -> (r: bool) {
        self.partition_key == other.partition_key
    }
}

impl vstd::std_specs::cmp::PartialEqSpecImpl for KinesisParameters {
    open spec fn obeys_eq_spec() -> bool {
        true
    }

    open spec fn eq_spec(&self, other: &KinesisParameters) -> bool {
        &&& self.partition_key@ == other.partition_key@
    }
}

/// How often and for how long delivery to a target is retried.
#[derive(Debug, Clone, Copy, PartialEq, Eq, Structural)]
pub struct RetryPolicy {
    pub maximum_event_age_in_seconds: Option<i32>,
    pub maximum_retry_attempts: Option<i32>,
}

/// One parameter of a SageMaker pipeline target.
#[derive(Debug, Clone)]
pub struct SageMakerPipelineParameter {
    pub name: String,
    pub value: String,
}

impl PartialEq for SageMakerPipelineParameter {
    fn eq(&self, other: &SageMakerPipelineParameter) -> (r: bool) {
        self.name == other.name
            && self.value == other.value
    }
}

impl vstd::std_specs::cmp::PartialEqSpecImpl for SageMakerPipelineParameter {
    open spec fn obeys_eq_spec() -> bool {
        true
    }

    open spec fn eq_spec(&self, other: &SageMakerPipelineParameter) -> bool {
        &&& self.name@ == other.name@
        &&& self.value@ == other.value@
    }
}

/// The parameters of a SageMaker pipeline target.
#[derive(Debug, Clone)]
pub struct SageMakerPipelineParameters {
    pub pipeline_parameter_list: Vec<SageMakerPipelineParameter>,
}

impl PartialEq for SageMakerPipelineParameters {
    fn eq(&self, other: &SageMakerPipelineParameters) -> (r: bool) {
        self.pipeline_parameter_list == other.pipeline_parameter_list
    }
}

impl vstd::std_specs::cmp::PartialEqSpecImpl for SageMakerPipelineParameters {
    open spec fn obeys_eq_spec() -> bool {
        true
    }

    open spec fn eq_spec(&self, other: &SageMakerPipelineParameters) -> bool {
        &&& PartialEqSpec::eq_spec(&self.pipeline_parameter_list, &other.pipeline_parameter_list)
    }
}

/// The parameters of an SQS target.
#[derive(Debug, Clone)]
pub struct SqsParameters {
    pub message_group_id: Option<String>,
}

impl PartialEq for SqsParameters {
    fn eq(&self, other: &SqsParameters) -> (r: bool) {
        eq_opt_str(&self.message_group_id, &other.message_group_id)
    }
}

impl vstd::std_specs::cmp::PartialEqSpecImpl for SqsParameters {
    open spec fn obeys_eq_spec() -> bool {
        true
    }

    open spec fn eq_spec(&self, other: &SqsParameters) -> bool {
        &&& opt_chars(self.message_group_id) == opt_chars(other.message_group_id)
    }
}

/// The parameters of an EventBridge target.
#[derive(Debug, Clone)]
pub struct EventBridgeParameters {
    pub detail_type: String,
    pub source: String,
}

impl PartialEq for EventBridgeParameters {
    fn eq(&self, other: &EventBridgeParameters) -> (r: bool) {
        self.detail_type == other.detail_type
            && self.source == other.source
    }
}

impl vstd::std_specs::cmp::PartialEqSpecImpl for EventBridgeParameters {
    open spec fn obeys_eq_spec() -> bool {
        true
    }

    open spec fn eq_spec(&self, other: &EventBridgeParameters) -> bool {
        &&& self.detail_type@ == other.detail_type@
        &&& self.source@ == other.source@
    }
}

/// What a schedule invokes, and how.
#[derive(Debug, Clone)]
pub struct ScheduleTarget {
    pub arn: String,
    pub role_arn: String,
    pub dead_letter_config: Option<DeadLetterConfig>,
    pub ecs_parameters: Option<EcsParameters>,
    pub event_bridge_parameters: Option<EventBridgeParameters>,
    pub input: Option<String>,
    pub kinesis_parameters: Option<KinesisParameters>,
    pub retry_policy: Option<RetryPolicy>,
    pub sage_maker_pipeline_parameters: Option<SageMakerPipelineParameters>,
    pub sqs_parameters: Option<SqsParameters>,
}

impl PartialEq for ScheduleTarget {
    fn eq(&self, other: &ScheduleTarget) -> (r: bool) {
        self.arn == other.arn
            && self.role_arn == other.role_arn
            && self.dead_letter_config == other.dead_letter_config
            && self.ecs_parameters == other.ecs_parameters
            && self.event_bridge_parameters == other.event_bridge_parameters
            && eq_opt_str(&self.input, &other.input)
            && self.kinesis_parameters == other.kinesis_parameters
            && self.retry_policy == other.retry_policy
            && self.sage_maker_pipeline_parameters == other.sage_maker_pipeline_parameters
            && self.sqs_parameters == other.sqs_parameters
    }
}

impl vstd::std_specs::cmp::PartialEqSpecImpl for ScheduleTarget {
    open spec fn obeys_eq_spec() -> bool {
        true
    }

    open spec fn eq_spec(&self, other: &ScheduleTarget) -> bool {
        &&& self.arn@ == other.arn@
        &&& self.role_arn@ == other.role_arn@
        &&& PartialEqSpec::eq_spec(&self.dead_letter_config, &other.dead_letter_config)
        &&& PartialEqSpec::eq_spec(&self.ecs_parameters, &other.ecs_parameters)
        &&& PartialEqSpec::eq_spec(&self.event_bridge_parameters, &other.event_bridge_parameters)
        &&& opt_chars(self.input) == opt_chars(other.input)
        &&& PartialEqSpec::eq_spec(&self.kinesis_parameters, &other.kinesis_parameters)
        &&& self.retry_policy == other.retry_policy
        &&& PartialEqSpec::eq_spec(&self.sage_maker_pipeline_parameters, &other.sage_maker_pipeline_parameters)
        &&& PartialEqSpec::eq_spec(&self.sqs_parameters, &other.sqs_parameters)
    }
}

/// Whether a schedule is active.
#[derive(Debug, Clone, Copy, PartialEq, Eq, Structural)]
pub enum ScheduleState {
    Enabled,
    Disabled,
}

/// A point in time: whole seconds since the Unix epoch and the nanoseconds past
/// them (below one billion).
#[derive(Debug, Clone, Copy, PartialEq, Eq, Structural)]
pub struct DateTime {
    pub seconds: i64,
    pub subsecond_nanos: u32,
}

/// A recurring schedule that invokes a target.
///
/// `group_name` and `name` together identify it remotely (see
/// [`Schedule::schedule_name_with_group`]).
#[derive(Debug, Clone)]
pub struct Schedule {
    pub group_name: String,
    pub name: String,
    pub description: Option<String>,
    pub state: ScheduleState,
    pub schedule_expression: String,
    pub schedule_expression_timezone: Option<String>,
    pub start_date: Option<DateTime>,
    pub end_date: Option<DateTime>,
    pub flexible_time_window: Option<FlexibleTimeWindow>,
    pub kms_key_arn: Option<String>,
    pub target: ScheduleTarget,
}

impl PartialEq for Schedule {
    fn eq(&self, other: &Schedule) -> (r: bool) {
        self.group_name == other.group_name
            && self.name == other.name
            && eq_opt_str(&self.description, &other.description)
            && self.state == other.state
            && self.schedule_expression == other.schedule_expression
            && eq_opt_str(&self.schedule_expression_timezone, &other.schedule_expression_timezone)
            && self.start_date == other.start_date
            && self.end_date == other.end_date
            && self.flexible_time_window == other.flexible_time_window
            && eq_opt_str(&self.kms_key_arn, &other.kms_key_arn)
            && self.target == other.target
    }
}

impl vstd::std_specs::cmp::PartialEqSpecImpl for Schedule {
    open spec fn obeys_eq_spec() -> bool {
        true
    }

    open spec fn eq_spec(&self, other: &Schedule) -> bool {
        &&& self.group_name@ == other.group_name@
        &&& self.name@ == other.name@
        &&& opt_chars(self.description) == opt_chars(other.description)
        &&& self.state == other.state
        &&& self.schedule_expression@ == other.schedule_expression@
        &&& opt_chars(self.schedule_expression_timezone) == opt_chars(other.schedule_expression_timezone)
        &&& self.start_date == other.start_date
        &&& self.end_date == other.end_date
        &&& self.flexible_time_window == other.flexible_time_window
        &&& opt_chars(self.kms_key_arn) == opt_chars(other.kms_key_arn)
        &&& PartialEqSpec::eq_spec(&self.target, &other.target)
    }
}

/// The group that a schedule belongs to where none is given.
pub fn default_group_name() -> (r: String)
    ensures
        r@ == "default"@,
{
    String::from_str("default")
}

impl Schedule {
    /// The identifier `group/name` that addresses the schedule remotely.
    pub open spec fn name_with_group(&self) -> Seq<char> {
        self.group_name@ + "/"@ + self.name@
    }

    /// The identifier `group/name` that addresses the schedule remotely.
    pub fn schedule_name_with_group(&self) -> (r: String)
        ensures
            r@ == self.name_with_group(),
    {
        let r = self.group_name.clone();
        let r = r.concat("/");
        r.concat(self.name.as_str())
    }
}

/// Splits a `group/name` schedule identifier at its first `/` into the group
/// and the name; `None` where there is no `/`.
pub fn split_schedule_name_with_group(schedule_name_with_group: &str) -> (r: Option<(String, String)>)
    ensures
        match r {
            Some((g, n)) => exists|i: int|
                0 <= i < schedule_name_with_group@.len() && schedule_name_with_group@[i] == '/'
                && (forall|j: int| 0 <= j < i ==> schedule_name_with_group@[j] != '/')
                && g@ == schedule_name_with_group@.subrange(0, i)
                && n@ == schedule_name_with_group@.subrange(i + 1, schedule_name_with_group@.len() as int),
            None => forall|j: int| 0 <= j < schedule_name_with_group@.len() ==> schedule_name_with_group@[j] != '/',
        },
{
    crate::text::split_once_char(schedule_name_with_group, '/')
}

} // verus!
