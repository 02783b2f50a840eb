//! Rate limit configuration: rules, what they match and what they count by.
use vstd::prelude::*;
use vstd::string::StringExecFns;

use crate::text::optional_text;
#[allow(unused_imports)]
use crate::text::texts;

verus! {

/// What requests are counted by.
#[derive(Debug)]
pub enum RateLimitKey {
    /// The address of the client.
    ClientIp,
    /// The first value of a header.
    Header(String),
    /// The request URI.
    Path,
    /// The request method.
    Method,
    /// One count for all requests.
    Global,
    /// Several keys together.
    Composite(Vec<RateLimitKey>),
}

/// The content of a [`RateLimitKey`].
pub enum KeyModel {
    ClientIp,
    Header(Seq<char>),
    Path,
    Method,
    Global,
    Composite(Seq<KeyModel>),
}

impl View for RateLimitKey {
    type V = KeyModel;

    open spec fn view(&self) -> KeyModel {
        key_model(*self)
    }
}

/// The content of a key.
pub open spec fn key_model(key: RateLimitKey) -> KeyModel
    decreases key,
{
    match key {
        RateLimitKey::ClientIp => KeyModel::ClientIp,
        RateLimitKey::Header(name) => KeyModel::Header(name@),
        RateLimitKey::Path => KeyModel::Path,
        RateLimitKey::Method => KeyModel::Method,
        RateLimitKey::Global => KeyModel::Global,
        RateLimitKey::Composite(keys) => KeyModel::Composite(key_models(keys@)),
    }
}

/// The contents of several keys, in order.
pub open spec fn key_models(keys: Seq<RateLimitKey>) -> Seq<KeyModel>
    decreases keys,
{
    if keys.len() == 0 {
        Seq::empty()
    } else {
        key_models(keys.drop_last()).push(key_model(keys.last()))
    }
}

impl Clone for RateLimitKey {
    fn clone(&self) -> (copy: Self)
        ensures
            copy@ == self@,
        decreases self,
    {
        match self {
            RateLimitKey::ClientIp => RateLimitKey::ClientIp,
            RateLimitKey::Header(name) => RateLimitKey::Header(name.clone()),
            RateLimitKey::Path => RateLimitKey::Path,
            RateLimitKey::Method => RateLimitKey::Method,
            RateLimitKey::Global => RateLimitKey::Global,
            RateLimitKey::Composite(keys) => {
                let mut copies: Vec<RateLimitKey> = Vec::new();
                let mut i: usize = 0;
                while i < keys.len()
                    invariant
                        i <= keys.len(),
                        *self == RateLimitKey::Composite(*keys),
                        key_models(copies@) == key_models(keys@.take(i as int)),
                    decreases keys.len() - i,
                {
                    proof {
                        assert(decreases_to!(self => self->Composite_0));
                        assert(decreases_to!(*keys => keys@));
                        assert(decreases_to!(keys@ => keys@[i as int]));
                    }
                    let ghost before = copies@;
                    copies.push(keys[i].clone());
                    proof {
                        assert(keys@.take(i + 1).drop_last() =~= keys@.take(i as int));
                        assert(copies@.drop_last() =~= before);
                    }
                    i += 1;
                }
                assert(keys@.take(i as int) =~= keys@);
                RateLimitKey::Composite(copies)
            },
        }
    }
}

/// What a request must be like for a rule to apply to it.
#[derive(Debug)]
pub enum MatchCondition {
    /// The URI begins with this text.
    PathPrefix(String),
    /// The URI is this text.
    Path(String),
    /// The header is there, with this value among its values if one is given.
    Header { name: String, value: Option<String> },
    /// The method is one of these, in upper or lower case.
    Method(Vec<String>),
}

/// The content of a [`MatchCondition`].
pub enum ConditionModel {
    PathPrefix(Seq<char>),
    Path(Seq<char>),
    Header { name: Seq<char>, value: Option<Seq<char>> },
    Method(Seq<Seq<char>>),
}

impl View for MatchCondition {
    type V = ConditionModel;

    open spec fn view(&self) -> ConditionModel {
        match *self {
            MatchCondition::PathPrefix(prefix) => ConditionModel::PathPrefix(prefix@),
            MatchCondition::Path(path) => ConditionModel::Path(path@),
            MatchCondition::Header { name, value } => ConditionModel::Header {
                name: name@,
                value: optional_text(value),
            },
            MatchCondition::Method(methods) => ConditionModel::Method(texts(methods@)),
        }
    }
}

fn clone_strings(strings: &Vec<String>) -> (copies: Vec<String>)
    ensures
        texts(copies@) == texts(strings@),
{
    let mut copies: Vec<String> = Vec::new();
    let mut i: usize = 0;
    while i < strings.len()
        invariant
            i <= strings.len(),
            copies.len() == i,
            forall|k: int| 0 <= k < i ==> (#[trigger] copies@[k])@ == strings@[k]@,
        decreases strings.len() - i,
    {
        copies.push(strings[i].clone());
        i += 1;
    }
    assert(texts(copies@) =~= texts(strings@));
    copies
}

fn clone_optional(s: &Option<String>) -> (copy: Option<String>)
    ensures
        optional_text(copy) == optional_text(*s),
{
    match s {
        Some(s) => Some(s.clone()),
        None => None,
    }
}

impl Clone for MatchCondition {
    fn clone(&self) -> (copy: Self)
        ensures
            copy@ == self@,
    {
        match self {
            MatchCondition::PathPrefix(prefix) => MatchCondition::PathPrefix(prefix.clone()),
            MatchCondition::Path(path) => MatchCondition::Path(path.clone()),
            MatchCondition::Header { name, value } => MatchCondition::Header {
                name: name.clone(),
                value: clone_optional(value),
            },
            MatchCondition::Method(methods) => MatchCondition::Method(clone_strings(methods)),
        }
    }
}

/// The contents of several conditions, in order.
pub open spec fn condition_models(conditions: Seq<MatchCondition>) -> Seq<ConditionModel> {
    conditions.map_values(|condition: MatchCondition| condition@)
}

/// One rate limit rule.
#[derive(Debug)]
pub struct RateLimitRule {
    /// The name of the rule.
    pub name: String,
    /// What requests are counted by.
    pub key: RateLimitKey,
    /// Requests per second.
    pub requests_per_second: u32,
    /// How many requests may come at once.
    pub burst: u32,
    /// All of these must hold of a request for the rule to apply.
    pub conditions: Vec<MatchCondition>,
    /// The body of the answer to a refused request, if not the usual one.
    pub message: Option<String>,
    /// The status of the answer to a refused request, if not 429.
    pub status_code: Option<u16>,
}

/// The content of a [`RateLimitRule`].
pub struct RuleModel {
    pub name: Seq<char>,
    pub key: KeyModel,
    pub requests_per_second: u32,
    pub burst: u32,
    pub conditions: Seq<ConditionModel>,
    pub message: Option<Seq<char>>,
    pub status_code: Option<u16>,
}

impl View for RateLimitRule {
    type V = RuleModel;

    open spec fn view(&self) -> RuleModel {
        RuleModel {
            name: self.name@,
            key: self.key@,
            requests_per_second: self.requests_per_second,
            burst: self.burst,
            conditions: condition_models(self.conditions@),
            message: optional_text(self.message),
            status_code: self.status_code,
        }
    }
}

impl Clone for RateLimitRule {
    fn clone(&self) -> (copy: Self)
        ensures
            copy@ == self@,
    {
        let mut conditions: Vec<MatchCondition> = Vec::new();
        let mut i: usize = 0;
        while i < self.conditions.len()
            invariant
                i <= self.conditions.len(),
                conditions.len() == i,
                forall|k: int|
                    0 <= k < i ==> (#[trigger] conditions@[k])@ == self.conditions@[k]@,
            decreases self.conditions.len() - i,
        {
            conditions.push(self.conditions[i].clone());
            i += 1;
        }
        assert(condition_models(conditions@) =~= condition_models(self.conditions@));
        RateLimitRule {
            name: self.name.clone(),
            key: self.key.clone(),
            requests_per_second: self.requests_per_second,
            burst: self.burst,
            conditions,
            message: clone_optional(&self.message),
            status_code: self.status_code,
        }
    }
}

/// A whole configuration.
#[derive(Debug)]
pub struct RateLimitConfig {
    /// The rules, tried in order.
    pub rules: Vec<RateLimitRule>,
    /// The rule for a request to which no other applies.
    pub default: RateLimitRule,
    /// Let every request through and only report the refusals.
    pub dry_run: bool,
}

/// The content of a [`RateLimitConfig`].
pub struct ConfigModel {
    pub rules: Seq<RuleModel>,
    pub default: RuleModel,
    pub dry_run: bool,
}

/// The contents of several rules, in order.
pub open spec fn rule_models(rules: Seq<RateLimitRule>) -> Seq<RuleModel> {
    rules.map_values(|rule: RateLimitRule| rule@)
}

impl View for RateLimitConfig {
    type V = ConfigModel;

    open spec fn view(&self) -> ConfigModel {
        ConfigModel {
            rules: rule_models(self.rules@),
            default: self.default@,
            dry_run: self.dry_run,
        }
    }
}

/// The rule that limits each client address to the given rate and burst.
pub open spec fn client_ip_rule(requests_per_second: u32, burst: u32) -> RuleModel {
    RuleModel {
        name: "default"@,
        key: KeyModel::ClientIp,
        requests_per_second,
        burst,
        conditions: Seq::empty(),
        message: None,
        status_code: None,
    }
}

/// The limits of the requests for one path.
#[derive(Debug)]
pub struct RouteLimits {
    pub path: String,
    pub requests_per_second: u32,
    pub burst: u32,
}

/// The content of a [`RouteLimits`].
pub struct RouteModel {
    pub path: Seq<char>,
    pub requests_per_second: u32,
    pub burst: u32,
}

impl View for RouteLimits {
    type V = RouteModel;

    open spec fn view(&self) -> RouteModel {
        RouteModel {
            path: self.path@,
            requests_per_second: self.requests_per_second,
            burst: self.burst,
        }
    }
}

/// The contents of several routes, in order.
pub open spec fn route_models(routes: Seq<RouteLimits>) -> Seq<RouteModel> {
    routes.map_values(|route: RouteLimits| route@)
}

/// The rule for a route: it has the limits of the route and applies to requests for its path, by
/// which it is called too.
pub open spec fn route_rule(route: RouteModel, key: KeyModel) -> RuleModel {
    RuleModel {
        name: route.path,
        key,
        requests_per_second: route.requests_per_second,
        burst: route.burst,
        conditions: seq![ConditionModel::Path(route.path)],
        message: None,
        status_code: None,
    }
}

/// The configuration with these limits for routes and by default, all counted by the key.
pub open spec fn route_config(
    requests_per_second: u32,
    burst: u32,
    routes: Seq<RouteModel>,
    key: KeyModel,
    dry_run: bool,
) -> ConfigModel {
    ConfigModel {
        rules: routes.map_values(|route: RouteModel| route_rule(route, key)),
        default: RuleModel { key, ..client_ip_rule(requests_per_second, burst) },
        dry_run,
    }
}

impl RateLimitConfig {
    /// The configuration with limits for routes, and with others for the requests that are for
    /// none of them, all counted by the key.
    pub fn with_routes(
        requests_per_second: u32,
        burst: u32,
        routes: Vec<RouteLimits>,
        key: RateLimitKey,
        dry_run: bool,
    ) -> (config: Self)
        ensures
            config@ == route_config(
                requests_per_second,
                burst,
                route_models(routes@),
                key@,
                dry_run,
            ),
    {
        let mut config = RateLimitConfig::with_default_limits(requests_per_second, burst, dry_run);
        let mut i: usize = 0;
        let ghost default = config@.default;
        assert(config@.rules.len() == 0);
        while i < routes.len()
            invariant
                i <= routes.len(),
                config.rules.len() == i,
                forall|k: int|
                    0 <= k < i ==> (#[trigger] config.rules@[k])@ == route_rule(
                        routes@[k]@,
                        key@,
                    ),
                config@.default == default,
                config.dry_run == dry_run,
            decreases routes.len() - i,
        {
            let mut conditions: Vec<MatchCondition> = Vec::new();
            conditions.push(MatchCondition::Path(routes[i].path.clone()));
            let rule = RateLimitRule {
                name: routes[i].path.clone(),
                key: key.clone(),
                requests_per_second: routes[i].requests_per_second,
                burst: routes[i].burst,
                conditions,
                message: None,
                status_code: None,
            };
            assert(rule@.conditions =~= seq![ConditionModel::Path(routes@[i as int].path@)]);
            config.rules.push(rule);
            i += 1;
        }
        config.default.key = key;
        assert(config@.rules =~= route_config(
            requests_per_second,
            burst,
            route_models(routes@),
            key@,
            dry_run,
        ).rules);
        config
    }

    /// The configuration that is used where there is no configuration file: each client address
    /// is limited to the given rate and burst.
    pub fn with_default_limits(requests_per_second: u32, burst: u32, dry_run: bool) -> (config:
        Self)
        ensures
            config@ == (ConfigModel {
                rules: Seq::empty(),
                default: client_ip_rule(requests_per_second, burst),
                dry_run,
            }),
    {
        let config = RateLimitConfig {
            rules: Vec::new(),
            default: RateLimitRule {
                name: String::from_str("default"),
                key: RateLimitKey::ClientIp,
                requests_per_second,
                burst,
                conditions: Vec::new(),
                message: None,
                status_code: None,
            },
            dry_run,
        };
        assert(config@.rules =~= Seq::empty());
        assert(config@.default.conditions =~= Seq::empty());
        config
    }
}

impl Default for RateLimitConfig {
    fn default() -> (config: Self)
        ensures
            config@ == (ConfigModel {
                rules: Seq::empty(),
                default: client_ip_rule(100, 10),
                dry_run: false,
            }),
    {
        RateLimitConfig::with_default_limits(100, 10, false)
    }
}

} // verus!
