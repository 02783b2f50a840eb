//! What the agent answers to a request.
use vstd::prelude::*;
use vstd::string::StringExecFns;

use crate::config::{RateLimitRule, RuleModel};
use crate::string_map::StringMap;
use crate::text::{decimal_text, signed_decimal_text};
#[allow(unused_imports)]
use crate::text::{decimal, optional_text, signed_decimal, texts};

verus! {

/// The version of the agent protocol.
pub const PROTOCOL_VERSION_2: u32 = 2;

/// What becomes of a request.
#[derive(Debug)]
pub enum Decision {
    /// The request goes on.
    Allow,
    /// The request is answered with this status, body and headers.
    Block { status: u16, body: Option<String>, headers: Option<StringMap<String>> },
}

/// A change to the headers of a request.
#[derive(Debug)]
pub enum HeaderOp {
    /// The header gets this value in place of those it had.
    SetValue { name: String, value: String },
}

/// A value in the audit metadata.
#[derive(Debug)]
pub enum AuditValue {
    Text(String),
    Flag(bool),
    Number(u32),
}

/// What goes into the audit log about a request.
#[derive(Debug)]
pub struct AuditMetadata {
    pub tags: Vec<String>,
    pub rule_ids: Vec<String>,
    pub reason_codes: Vec<String>,
    pub custom: StringMap<AuditValue>,
}

/// The answer to a request event.
#[derive(Debug)]
pub struct AgentResponse {
    pub version: u32,
    pub decision: Decision,
    pub request_headers: Vec<HeaderOp>,
    pub response_headers: Vec<HeaderOp>,
    pub routing_metadata: StringMap<String>,
    pub audit: AuditMetadata,
    pub needs_more: bool,
}

/// The content of a [`Decision`].
pub enum DecisionModel {
    Allow,
    Block {
        status: u16,
        body: Option<Seq<char>>,
        headers: Option<Map<Seq<char>, Seq<char>>>,
    },
}

/// The content of a [`HeaderOp`].
pub enum HeaderOpModel {
    SetValue { name: Seq<char>, value: Seq<char> },
}

/// The content of an [`AuditValue`].
pub enum AuditValueModel {
    Text(Seq<char>),
    Flag(bool),
    Number(u32),
}

/// The content of an [`AuditMetadata`].
pub struct AuditModel {
    pub tags: Seq<Seq<char>>,
    pub rule_ids: Seq<Seq<char>>,
    pub reason_codes: Seq<Seq<char>>,
    pub custom: Map<Seq<char>, AuditValueModel>,
}

/// The content of an [`AgentResponse`].
pub struct ResponseModel {
    pub version: u32,
    pub decision: DecisionModel,
    pub request_headers: Seq<HeaderOpModel>,
    pub response_headers: Seq<HeaderOpModel>,
    pub routing_metadata: Map<Seq<char>, Seq<char>>,
    pub audit: AuditModel,
    pub needs_more: bool,
}

/// The texts of a map of strings.
pub open spec fn text_map(map: Map<Seq<char>, String>) -> Map<Seq<char>, Seq<char>> {
    map.map_values(|s: String| s@)
}

/// The contents of several header changes, in order.
pub open spec fn header_op_models(ops: Seq<HeaderOp>) -> Seq<HeaderOpModel> {
    ops.map_values(|op: HeaderOp| op@)
}

/// The contents of a map of audit values.
pub open spec fn audit_value_models(map: Map<Seq<char>, AuditValue>) -> Map<
    Seq<char>,
    AuditValueModel,
> {
    map.map_values(|value: AuditValue| value@)
}

impl View for Decision {
    type V = DecisionModel;

    open spec fn view(&self) -> DecisionModel {
        match *self {
            Decision::Allow => DecisionModel::Allow,
            Decision::Block { status, body, headers } => DecisionModel::Block {
                status,
                body: optional_text(body),
                headers: match headers {
                    Some(headers) => Some(text_map(headers@)),
                    None => None,
                },
            },
        }
    }
}

impl View for HeaderOp {
    type V = HeaderOpModel;

    open spec fn view(&self) -> HeaderOpModel {
        match *self {
            HeaderOp::SetValue { name, value } => HeaderOpModel::SetValue { name: name@, value: value@ },
        }
    }
}

impl View for AuditValue {
    type V = AuditValueModel;

    open spec fn view(&self) -> AuditValueModel {
        match *self {
            AuditValue::Text(text) => AuditValueModel::Text(text@),
            AuditValue::Flag(flag) => AuditValueModel::Flag(flag),
            AuditValue::Number(number) => AuditValueModel::Number(number),
        }
    }
}

impl View for AuditMetadata {
    type V = AuditModel;

    open spec fn view(&self) -> AuditModel {
        AuditModel {
            tags: texts(self.tags@),
            rule_ids: texts(self.rule_ids@),
            reason_codes: texts(self.reason_codes@),
            custom: audit_value_models(self.custom@),
        }
    }
}

impl View for AgentResponse {
    type V = ResponseModel;

    open spec fn view(&self) -> ResponseModel {
        ResponseModel {
            version: self.version,
            decision: self.decision@,
            request_headers: header_op_models(self.request_headers@),
            response_headers: header_op_models(self.response_headers@),
            routing_metadata: text_map(self.routing_metadata@),
            audit: self.audit@,
            needs_more: self.needs_more,
        }
    }
}

/// Audit metadata that says nothing.
pub open spec fn empty_audit() -> AuditModel {
    AuditModel {
        tags: Seq::empty(),
        rule_ids: Seq::empty(),
        reason_codes: Seq::empty(),
        custom: Map::empty(),
    }
}

/// The answer that only gives a decision.
pub open spec fn bare_response(decision: DecisionModel) -> ResponseModel {
    ResponseModel {
        version: PROTOCOL_VERSION_2,
        decision,
        request_headers: Seq::empty(),
        response_headers: Seq::empty(),
        routing_metadata: Map::empty(),
        audit: empty_audit(),
        needs_more: false,
    }
}

/// The body of the answer to a refused request.
pub open spec fn refusal_message(rule: RuleModel) -> Seq<char> {
    match rule.message {
        Some(message) => message,
        None => "Rate limit exceeded: "@ + decimal(rule.requests_per_second as nat)
            + " requests per second allowed"@,
    }
}

/// The headers of the answer to a refused request.
pub open spec fn refusal_headers(rule: RuleModel, reset: int) -> Map<Seq<char>, Seq<char>> {
    Map::empty().insert(
        "X-RateLimit-Limit"@,
        decimal(rule.requests_per_second as nat),
    ).insert("X-RateLimit-Remaining"@, "0"@).insert(
        "X-RateLimit-Reset"@,
        signed_decimal(reset),
    ).insert("Retry-After"@, "1"@)
}

/// The decision about a request: it is refused where the limit is reached, unless the agent only
/// reports.
pub open spec fn decision_model(
    rule: RuleModel,
    limited: bool,
    dry_run: bool,
    reset: int,
) -> DecisionModel {
    if limited && !dry_run {
        DecisionModel::Block {
            status: match rule.status_code {
                Some(status) => status,
                None => 429,
            },
            body: Some(refusal_message(rule)),
            headers: Some(refusal_headers(rule, reset)),
        }
    } else {
        DecisionModel::Allow
    }
}

/// The audit metadata about a request.
pub open spec fn audit_model(rule: RuleModel, key: Seq<char>, limited: bool) -> AuditModel {
    AuditModel {
        tags: if limited {
            seq!["ratelimit"@, "limited"@]
        } else {
            seq!["ratelimit"@]
        },
        custom: Map::empty().insert("rule"@, AuditValueModel::Text(rule.name)).insert(
            "key"@,
            AuditValueModel::Text(key),
        ).insert("limited"@, AuditValueModel::Flag(limited)).insert(
            "rps"@,
            AuditValueModel::Number(rule.requests_per_second),
        ),
        ..empty_audit()
    }
}

/// The answer to a request that the rule applies to, given whether its limit is reached.
pub open spec fn response_model(
    rule: RuleModel,
    key: Seq<char>,
    limited: bool,
    dry_run: bool,
    reset: int,
) -> ResponseModel {
    ResponseModel {
        request_headers: seq![
            HeaderOpModel::SetValue { name: "X-RateLimit-Rule"@, value: rule.name },
            HeaderOpModel::SetValue { name: "X-RateLimit-Key"@, value: key },
        ],
        audit: audit_model(rule, key, limited),
        ..bare_response(decision_model(rule, limited, dry_run, reset))
    }
}

impl Default for AuditMetadata {
    fn default() -> (audit: Self)
        ensures
            audit@ == empty_audit(),
    {
        let audit = AuditMetadata {
            tags: Vec::new(),
            rule_ids: Vec::new(),
            reason_codes: Vec::new(),
            custom: StringMap::new(),
        };
        assert(audit@.tags =~= Seq::empty());
        assert(audit@.rule_ids =~= Seq::empty());
        assert(audit@.reason_codes =~= Seq::empty());
        assert(audit@.custom =~= Map::empty());
        audit
    }
}

impl AgentResponse {
    /// The answer that only gives a decision.
    pub fn with_decision(decision: Decision) -> (response: Self)
        ensures
            response@ == bare_response(decision@),
    {
        let response = AgentResponse {
            version: PROTOCOL_VERSION_2,
            decision,
            request_headers: Vec::new(),
            response_headers: Vec::new(),
            routing_metadata: StringMap::new(),
            audit: AuditMetadata::default(),
            needs_more: false,
        };
        assert(response@.request_headers =~= Seq::empty());
        assert(response@.response_headers =~= Seq::empty());
        assert(response@.routing_metadata =~= Map::empty());
        response
    }

    /// The answer that lets a request through and says nothing else.
    pub fn default_allow() -> (response: Self)
        ensures
            response@ == bare_response(DecisionModel::Allow),
    {
        AgentResponse::with_decision(Decision::Allow)
    }

    /// Adds a change to the headers of the request.
    pub fn add_request_header(self, op: HeaderOp) -> (response: Self)
        ensures
            response@ == (ResponseModel {
                request_headers: self@.request_headers.push(op@),
                ..self@
            }),
    {
        let mut response = self;
        response.request_headers.push(op);
        assert(response@.request_headers =~= self@.request_headers.push(op@));
        response
    }

    /// Puts audit metadata in place of what there is.
    pub fn with_audit(self, audit: AuditMetadata) -> (response: Self)
        ensures
            response@ == (ResponseModel { audit: audit@, ..self@ }),
    {
        let mut response = self;
        response.audit = audit;
        response
    }
}

proof fn lemma_text_map_insert(map: Map<Seq<char>, String>, key: Seq<char>, value: String)
    ensures
        text_map(map.insert(key, value)) == text_map(map).insert(key, value@),
{
    assert(text_map(map.insert(key, value)) =~= text_map(map).insert(key, value@));
}

fn insert_text(map: &mut StringMap<String>, key: &str, value: String)
    ensures
        text_map(final(map)@) == text_map(old(map)@).insert(key@, value@),
{
    proof {
        lemma_text_map_insert(map@, key@, value);
    }
    map.insert(String::from_str(key), value);
}

fn insert_audit(map: &mut StringMap<AuditValue>, key: &str, value: AuditValue)
    ensures
        audit_value_models(final(map)@) == audit_value_models(old(map)@).insert(key@, value@),
{
    assert(audit_value_models(map@.insert(key@, value)) =~= audit_value_models(map@).insert(
        key@,
        value@,
    ));
    map.insert(String::from_str(key), value);
}

/// The answer to a refused request, before the rule, the key and the audit metadata are added.
fn refusal(rule: &RateLimitRule, reset: i64) -> (response: AgentResponse)
    ensures
        response@ == bare_response(decision_model(rule@, true, false, reset as int)),
{
    let status: u16 = match rule.status_code {
        Some(status) => status,
        None => 429,
    };
    let rate: u64 = rule.requests_per_second as u64;
    let message = match &rule.message {
        Some(message) => message.clone(),
        None => {
            let mut message = String::from_str("Rate limit exceeded: ");
            message.append(decimal_text(rate).as_str());
            message.append(" requests per second allowed");
            message
        },
    };
    let mut headers: StringMap<String> = StringMap::new();
    assert(text_map(headers@) =~= Map::empty());
    insert_text(&mut headers, "X-RateLimit-Limit", decimal_text(rate));
    insert_text(&mut headers, "X-RateLimit-Remaining", String::from_str("0"));
    insert_text(&mut headers, "X-RateLimit-Reset", signed_decimal_text(reset));
    insert_text(&mut headers, "Retry-After", String::from_str("1"));
    AgentResponse::with_decision(
        Decision::Block { status, body: Some(message), headers: Some(headers) },
    )
}

/// The answer to a request that the rule applies to and that is counted under the key, given
/// whether its limit is reached, whether the agent only reports, and when the limit resets.
pub fn request_response(
    rule: &RateLimitRule,
    key: &String,
    limited: bool,
    dry_run: bool,
    reset: i64,
) -> (response: AgentResponse)
    ensures
        response@ == response_model(rule@, key@, limited, dry_run, reset as int),
{
    let response = if limited && !dry_run {
        refusal(rule, reset)
    } else {
        AgentResponse::default_allow()
    };
    let response = response.add_request_header(
        HeaderOp::SetValue { name: String::from_str("X-RateLimit-Rule"), value: rule.name.clone() },
    ).add_request_header(
        HeaderOp::SetValue { name: String::from_str("X-RateLimit-Key"), value: key.clone() },
    );
    assert(response@.request_headers =~= response_model(
        rule@,
        key@,
        limited,
        dry_run,
        reset as int,
    ).request_headers);
    let mut tags: Vec<String> = Vec::new();
    tags.push(String::from_str("ratelimit"));
    if limited {
        tags.push(String::from_str("limited"));
    }
    assert(texts(tags@) =~= audit_model(rule@, key@, limited).tags);
    let mut audit = AuditMetadata::default();
    audit.tags = tags;
    insert_audit(&mut audit.custom, "rule", AuditValue::Text(rule.name.clone()));
    insert_audit(&mut audit.custom, "key", AuditValue::Text(key.clone()));
    insert_audit(&mut audit.custom, "limited", AuditValue::Flag(limited));
    insert_audit(&mut audit.custom, "rps", AuditValue::Number(rule.requests_per_second));
    response.with_audit(audit)
}

} // verus!
