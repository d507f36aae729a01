//! What the pub/sub and cron workers read from a trigger's configuration,
//! and when they refuse it.

use vstd::prelude::*;
use crate::json::{as_str, get, json_as_str, json_get, JsonValue};

verus! {

/// The string member `key` of a configuration; `None` when it is missing
/// or not a string.
pub open spec fn string_member(config: JsonValue, key: Seq<char>) -> Option<Seq<char>> {
    match json_get(config, key) {
        Some(v) => json_as_str(v),
        None => None,
    }
}

fn string_member_of(config: &JsonValue, key: &str) -> (r: Option<String>)
    ensures
        r is None <==> string_member(*config, key@) is None,
        r matches Some(s) ==> string_member(*config, key@) == Some(s@),
{
    match get(config, key) {
        Some(v) => match as_str(v) {
            Some(s) => Some(s.clone()),
            None => None,
        },
        None => None,
    }
}

/// The topic a pub/sub trigger subscribes to: its `topic` string, or empty
/// (no subscription) when absent.
pub fn pubsub_topic(config: &JsonValue) -> (topic: String)
    ensures
        topic@ == match string_member(*config, "topic"@) {
            Some(t) => t,
            None => Seq::empty(),
        },
{
    match string_member_of(config, "topic") {
        Some(t) => t,
        None => String::new(),
    }
}

/// Why a publish request is refused.
#[derive(Debug, Clone)]
pub struct PublishRejection {
    pub code: String,
    pub message: String,
}

/// A publish needs a topic: an empty one is refused with code
/// `topic_not_set`.
pub fn check_publish_topic(topic: &str) -> (r: Option<PublishRejection>)
    ensures
        r is Some <==> topic@.len() == 0,
        r matches Some(e) ==> e.code@ == "topic_not_set"@ && e.message@ == "Topic is not set"@,
{
    if topic.is_empty() {
        Some(
            PublishRejection {
                code: "topic_not_set".to_owned(),
                message: "Topic is not set".to_owned(),
            },
        )
    } else {
        None
    }
}

/// A cron job as a trigger declares it.
#[derive(Debug, Clone)]
pub struct CronTriggerSpec {
    pub expression: String,
    pub condition_function_id: Option<String>,
}

/// A cron trigger without an expression is refused.
#[derive(Debug, Clone, Copy, PartialEq, Eq, Structural)]
pub enum CronTriggerError {
    MissingExpression,
}

impl CronTriggerError {
    pub fn message(&self) -> (s: String)
        ensures
            s@ == "Cron expression is required"@,
    {
        "Cron expression is required".to_owned()
    }
}

/// The cron job of a trigger: its `expression` string, which must be
/// present and non-empty, and its optional `condition_function_id` string.
pub fn cron_trigger_spec(config: &JsonValue) -> (r: Result<CronTriggerSpec, CronTriggerError>)
    ensures
        r is Err <==> match string_member(*config, "expression"@) {
            Some(e) => e.len() == 0,
            None => true,
        },
        r matches Ok(spec) ==> string_member(*config, "expression"@) == Some(spec.expression@)
            && (spec.condition_function_id is None <==> string_member(
            *config,
            "condition_function_id"@,
        ) is None) && (spec.condition_function_id matches Some(c) ==> string_member(
            *config,
            "condition_function_id"@,
        ) == Some(c@)),
{
    let expression = match string_member_of(config, "expression") {
        Some(e) => e,
        None => {
            return Err(CronTriggerError::MissingExpression);
        },
    };
    if expression.as_str().is_empty() {
        return Err(CronTriggerError::MissingExpression);
    }
    let condition_function_id = string_member_of(config, "condition_function_id");
    Ok(CronTriggerSpec { expression, condition_function_id })
}

} // verus!
