//! What holds of conditions, keys and configurations.
use vstd::prelude::*;

#[allow(unused_imports)]
use crate::config::{client_ip_rule, key_models, route_config};
use crate::config::{
    ConditionModel, ConfigModel, KeyModel, MatchCondition, RateLimitConfig, RateLimitKey,
    RateLimitRule, RouteLimits, RouteModel, RuleModel,
};
use crate::event::{EventModel, RequestHeadersEvent};
#[allow(unused_imports)]
use crate::rules::{
    condition_holds, conditions_hold, key_text, key_texts, key_texts_at, method_among,
    selected_rule,
};
#[allow(unused_imports)]
use crate::text::{ascii_lower, ascii_lower_char, joined, texts};

verus! {

/// A path-prefix condition holds of a request exactly if its URI is the prefix with some rest
/// behind it, and so never where the two differ at some place of the prefix.
pub proof fn path_prefix_holds_of_its_continuations(prefix: Seq<char>, event: EventModel)
    ensures
        condition_holds(ConditionModel::PathPrefix(prefix), event) <==> exists|rest: Seq<char>|
            event.uri == #[trigger] (prefix + rest),
        condition_holds(ConditionModel::PathPrefix(prefix), event) <==> prefix.len()
            <= event.uri.len() && forall|i: int|
            0 <= i < prefix.len() ==> #[trigger] event.uri[i] == prefix[i],
{
    let holds = condition_holds(ConditionModel::PathPrefix(prefix), event);
    if holds {
        let rest = event.uri.subrange(prefix.len() as int, event.uri.len() as int);
        assert(event.uri =~= prefix + rest);
        assert forall|i: int| 0 <= i < prefix.len() implies #[trigger] event.uri[i]
            == prefix[i] by {
            assert(event.uri.subrange(0, prefix.len() as int)[i] == event.uri[i]);
        }
    }
    if prefix.len() <= event.uri.len() && forall|i: int|
        0 <= i < prefix.len() ==> #[trigger] event.uri[i] == prefix[i] {
        assert(event.uri.subrange(0, prefix.len() as int) =~= prefix);
    }
    if exists|rest: Seq<char>| event.uri == #[trigger] (prefix + rest) {
        let rest = choose|rest: Seq<char>| event.uri == #[trigger] (prefix + rest);
        assert((prefix + rest).subrange(0, prefix.len() as int) =~= prefix);
    }
}

/// A longer prefix is a narrower condition: what it holds of, every prefix of it holds of too.
pub proof fn longer_prefix_is_narrower(prefix: Seq<char>, more: Seq<char>, event: EventModel)
    requires
        condition_holds(ConditionModel::PathPrefix(prefix + more), event),
    ensures
        condition_holds(ConditionModel::PathPrefix(prefix), event),
{
    path_prefix_holds_of_its_continuations(prefix + more, event);
    path_prefix_holds_of_its_continuations(prefix, event);
    assert forall|i: int| 0 <= i < prefix.len() implies #[trigger] event.uri[i] == prefix[i] by {
        assert((prefix + more)[i] == prefix[i]);
    }
}

/// A path condition holds of the requests for that path and of no other.
pub proof fn path_holds_of_itself_alone(path: Seq<char>, event: EventModel)
    ensures
        condition_holds(ConditionModel::Path(path), event) <==> event.uri == path,
{
}

/// A header condition without a value holds of the requests that have the header; one with a
/// value holds of those that have this value, whole, among the values of the header.
pub proof fn header_holds_by_presence_or_value(
    name: Seq<char>,
    expected: Seq<char>,
    event: EventModel,
)
    ensures
        condition_holds(ConditionModel::Header { name, value: None }, event)
            <==> event.headers.contains_key(name),
        condition_holds(ConditionModel::Header { name, value: Some(expected) }, event)
            <==> event.headers.contains_key(name) && exists|i: int|
            0 <= i < event.headers[name].len() && #[trigger] event.headers[name][i] == expected,
{
}

/// A method condition holds of a request exactly if the method is as long as one of those named
/// and has the same characters at each place, but for the case of the letters A to Z.
pub proof fn method_holds_but_for_case(methods: Seq<Seq<char>>, event: EventModel)
    ensures
        condition_holds(ConditionModel::Method(methods), event) <==> exists|m: int|
            0 <= m < methods.len() && (#[trigger] methods[m]).len() == event.method.len() && (
            forall|i: int|
                0 <= i < event.method.len() ==> {
                    let a = (#[trigger] methods[m][i]) as int;
                    let b = event.method[i] as int;
                    a == b || (65 <= a <= 90 && b == a + 32) || (65 <= b <= 90 && a == b + 32)
                }),
{
    assert forall|m: int| 0 <= m < methods.len() implies (ascii_lower(#[trigger] methods[m])
        == ascii_lower(event.method) <==> methods[m].len() == event.method.len() && (forall|i: int|
        0 <= i < event.method.len() ==> {
            let a = (#[trigger] methods[m][i]) as int;
            let b = event.method[i] as int;
            a == b || (65 <= a <= 90 && b == a + 32) || (65 <= b <= 90 && a == b + 32)
        })) by {
        same_letters(methods[m], event.method);
    }
}

proof fn same_letters(one: Seq<char>, other: Seq<char>)
    ensures
        ascii_lower(one) == ascii_lower(other) <==> one.len() == other.len() && (forall|i: int|
            0 <= i < other.len() ==> {
                let a = (#[trigger] one[i]) as int;
                let b = other[i] as int;
                a == b || (65 <= a <= 90 && b == a + 32) || (65 <= b <= 90 && a == b + 32)
            }),
{
    if ascii_lower(one) == ascii_lower(other) {
        assert(one.len() == ascii_lower(one).len() && other.len() == ascii_lower(other).len());
        assert forall|i: int| 0 <= i < other.len() implies ({
            let a = (#[trigger] one[i]) as int;
            let b = other[i] as int;
            a == b || (65 <= a <= 90 && b == a + 32) || (65 <= b <= 90 && a == b + 32)
        }) by {
            assert(ascii_lower(one)[i] == ascii_lower(other)[i]);
            assert(ascii_lower_char(one[i]) == ascii_lower_char(other[i]));
        }
    }
    if one.len() == other.len() && (forall|i: int|
        0 <= i < other.len() ==> {
            let a = (#[trigger] one[i]) as int;
            let b = other[i] as int;
            a == b || (65 <= a <= 90 && b == a + 32) || (65 <= b <= 90 && a == b + 32)
        }) {
        assert forall|i: int| 0 <= i < one.len() implies #[trigger] ascii_lower(one)[i]
            == ascii_lower(other)[i] by {
            let a = one[i] as int;
            assert(ascii_lower_char(one[i]) == ascii_lower_char(other[i]));
        }
        assert(ascii_lower(one) =~= ascii_lower(other));
    }
}

/// Conditions hold together exactly if each of them holds: with one more they hold exactly if
/// they did and it does, and without any they hold of every request.
pub proof fn every_condition_counts(
    conditions: Seq<ConditionModel>,
    condition: ConditionModel,
    event: EventModel,
)
    ensures
        conditions_hold(Seq::empty(), event),
        conditions_hold(conditions.push(condition), event) <==> conditions_hold(conditions, event)
            && condition_holds(condition, event),
{
    let more = conditions.push(condition);
    assert(more[conditions.len() as int] == condition);
    assert forall|i: int| 0 <= i < conditions.len() implies #[trigger] conditions[i]
        == more[i] by {}
}

/// A rule put in front takes the requests that its conditions hold of, and leaves the choice
/// among the others as it was.
pub proof fn rule_in_front_takes_its_requests(
    config: ConfigModel,
    rule: RuleModel,
    event: EventModel,
)
    ensures
        ({
            let longer = ConfigModel { rules: seq![rule] + config.rules, ..config };
            selected_rule(longer, event) == (if conditions_hold(rule.conditions, event) {
                rule
            } else {
                selected_rule(config, event)
            })
        }),
        config.rules.len() == 0 ==> selected_rule(config, event) == config.default,
{
    let longer = ConfigModel { rules: seq![rule] + config.rules, ..config };
    assert(longer.rules.drop_first() =~= config.rules);
    assert(longer.rules[0] == rule);
}

/// A key of one kind is what the request says, whole: the address of the client, the URI or the
/// method. The global key is the same for every request.
pub proof fn simple_keys_are_taken_whole(event: EventModel, other: EventModel)
    ensures
        key_text(KeyModel::ClientIp, event) == event.client_ip,
        key_text(KeyModel::Path, event) == event.uri,
        key_text(KeyModel::Method, event) == event.method,
        key_text(KeyModel::Global, event) == "global"@,
        key_text(KeyModel::Path, event) == key_text(KeyModel::Path, other) <==> event.uri
            == other.uri,
        key_text(KeyModel::Method, event) == key_text(KeyModel::Method, other) <==> event.method
            == other.method,
{
}

/// The key of a request that carries the header with a value is its first value, whole and
/// unchanged; so a header rule counts two such requests together exactly if their first values
/// are equal. Without a value the key is the name of the header behind a mark.
pub proof fn header_key_is_the_first_value(name: Seq<char>, event: EventModel, other: EventModel)
    ensures
        event.headers.contains_key(name) && event.headers[name].len() > 0 ==> key_text(
            KeyModel::Header(name),
            event,
        ) == event.headers[name].first(),
        event.headers.contains_key(name) && event.headers[name].len() > 0
            && other.headers.contains_key(name) && other.headers[name].len() > 0 ==> (key_text(
            KeyModel::Header(name),
            event,
        ) == key_text(KeyModel::Header(name), other) <==> event.headers[name].first()
            == other.headers[name].first()),
        !event.headers.contains_key(name) || event.headers[name].len() == 0 ==> key_text(
            KeyModel::Header(name),
            event,
        ) == "unknown_"@ + name,
{
}

/// A composite key grows at its end: with one part more it is what it was, a colon and the text
/// of that part; of one part it is the text of the part, and of none it is empty.
pub proof fn composite_key_grows_by_parts(keys: Seq<KeyModel>, key: KeyModel, event: EventModel)
    ensures
        key_text(KeyModel::Composite(Seq::empty()), event) == Seq::<char>::empty(),
        key_text(KeyModel::Composite(seq![key]), event) == key_text(key, event),
        keys.len() > 0 ==> key_text(KeyModel::Composite(keys.push(key)), event) == key_text(
            KeyModel::Composite(keys),
            event,
        ) + ":"@ + key_text(key, event),
{
    let none = Seq::<KeyModel>::empty();
    key_texts_at(none, event);
    key_texts_at(seq![key], event);
    key_texts_at(keys, event);
    key_texts_at(keys.push(key), event);
    assert(key_texts(seq![key], event) =~= seq![key_text(key, event)]);
    let longer = key_texts(keys.push(key), event);
    assert(longer.drop_last() =~= key_texts(keys, event)) by {
        assert forall|i: int| 0 <= i < keys.len() implies #[trigger] longer[i] == key_texts(
            keys,
            event,
        )[i] by {
            assert(keys.push(key)[i] == keys[i]);
        }
    }
    assert(longer.last() == key_text(key, event));
}

/// Texts joined with a separator are those of a first part joined, the separator, and those of
/// the rest joined, wherever they are parted.
pub proof fn joined_texts_part_anywhere(
    front: Seq<Seq<char>>,
    back: Seq<Seq<char>>,
    separator: Seq<char>,
)
    requires
        front.len() > 0,
        back.len() > 0,
    ensures
        joined(front + back, separator) == joined(front, separator) + separator + joined(
            back,
            separator,
        ),
    decreases back.len(),
{
    let all = front + back;
    assert(all.drop_last() =~= front + back.drop_last());
    assert(all.last() == back.last());
    if back.len() > 1 {
        joined_texts_part_anywhere(front, back.drop_last(), separator);
        assert(joined(all, separator) =~= joined(front, separator) + separator + joined(
            back,
            separator,
        ));
    } else {
        assert(front + back.drop_last() =~= front);
        assert(joined(back, separator) == back[0]);
    }
}

/// The content of a request event is what its fields hold, whole.
pub proof fn event_content_is_whole(event: RequestHeadersEvent, name: Seq<char>)
    ensures
        event@.client_ip == event.client_ip@,
        event@.method == event.method@,
        event@.uri == event.uri@,
        event@.headers.contains_key(name) == event.headers@.contains_key(name),
        event.headers@.contains_key(name) ==> {
            let values = event.headers@[name];
            &&& event@.headers[name].len() == values.len()
            &&& forall|i: int|
                0 <= i < values.len() ==> (#[trigger] event@.headers[name][i]) == values[i]@
        },
{
}

/// The content of a rule is what its fields hold, whole.
pub proof fn rule_content_is_whole(rule: RateLimitRule)
    ensures
        rule@.name == rule.name@,
        rule@.key == rule.key@,
        rule@.requests_per_second == rule.requests_per_second,
        rule@.burst == rule.burst,
        rule@.status_code == rule.status_code,
        rule@.message is Some == rule.message is Some,
        rule.message is Some ==> rule@.message->0 == (rule.message->0)@,
        rule@.conditions.len() == rule.conditions.len(),
        forall|i: int|
            0 <= i < rule.conditions.len() ==> (#[trigger] rule@.conditions[i])
                == rule.conditions[i]@,
{
}

/// The content of a configuration is what its fields hold, whole.
pub proof fn config_content_is_whole(config: RateLimitConfig)
    ensures
        config@.default == config.default@,
        config@.dry_run == config.dry_run,
        config@.rules.len() == config.rules.len(),
        forall|i: int|
            0 <= i < config.rules.len() ==> (#[trigger] config@.rules[i]) == config.rules[i]@,
{
}

/// The content of a condition is of its kind, with its texts whole.
pub proof fn condition_content_is_whole(condition: MatchCondition)
    ensures
        condition matches MatchCondition::PathPrefix(text) ==> condition@
            == ConditionModel::PathPrefix(text@),
        condition matches MatchCondition::Path(text) ==> condition@ == ConditionModel::Path(text@),
        condition matches MatchCondition::Header { name, value: None } ==> condition@
            == (ConditionModel::Header { name: name@, value: None }),
        condition matches MatchCondition::Header { name, value: Some(value) } ==> condition@
            == (ConditionModel::Header { name: name@, value: Some(value@) }),
        condition matches MatchCondition::Method(methods) ==> {
            &&& condition@ matches ConditionModel::Method(models)
            &&& models.len() == methods.len()
            &&& forall|i: int| 0 <= i < methods.len() ==> (#[trigger] models[i]) == methods[i]@
        },
{
}

/// The content of a key is of its kind, with its texts whole and its parts in order.
pub proof fn key_content_is_whole(key: RateLimitKey)
    ensures
        key is ClientIp ==> key@ == KeyModel::ClientIp,
        key is Path ==> key@ == KeyModel::Path,
        key is Method ==> key@ == KeyModel::Method,
        key is Global ==> key@ == KeyModel::Global,
        key matches RateLimitKey::Header(name) ==> key@ == KeyModel::Header(name@),
        key matches RateLimitKey::Composite(parts) ==> {
            &&& key@ matches KeyModel::Composite(models)
            &&& models.len() == parts.len()
            &&& forall|i: int| 0 <= i < parts.len() ==> (#[trigger] models[i]) == parts[i]@
        },
{
    if let RateLimitKey::Composite(parts) = key {
        key_models_at(parts@);
    }
}

proof fn key_models_at(keys: Seq<RateLimitKey>)
    ensures
        key_models(keys).len() == keys.len(),
        forall|i: int| 0 <= i < keys.len() ==> (#[trigger] key_models(keys)[i]) == keys[i]@,
    decreases keys.len(),
{
    if keys.len() > 0 {
        key_models_at(keys.drop_last());
    }
}

/// The content of a route is what its fields hold, whole.
pub proof fn route_content_is_whole(route: RouteLimits)
    ensures
        route@.path == route.path@,
        route@.requests_per_second == route.requests_per_second,
        route@.burst == route.burst,
{
}

/// Without a configuration file every client is limited to the given rate and burst: the default
/// rule has these, counts by client address, has no conditions, and answers in the usual way.
pub proof fn default_limits_are_those_given(requests_per_second: u32, burst: u32)
    ensures
        ({
            let rule = client_ip_rule(requests_per_second, burst);
            &&& rule.name == "default"@
            &&& rule.requests_per_second == requests_per_second
            &&& rule.burst == burst
            &&& rule.key == KeyModel::ClientIp
            &&& rule.conditions.len() == 0
            &&& rule.message is None
            &&& rule.status_code is None
        }),
{
}

/// A configuration by routes has one rule for each route, in order, with the limits of that
/// route, that applies to requests for its path alone, counts by the key and answers in the usual
/// way.
pub proof fn routes_become_rules(
    requests_per_second: u32,
    burst: u32,
    routes: Seq<RouteModel>,
    key: KeyModel,
    dry_run: bool,
    event: EventModel,
    i: int,
)
    requires
        0 <= i < routes.len(),
    ensures
        ({
            let config = route_config(requests_per_second, burst, routes, key, dry_run);
            let rule = config.rules[i];
            &&& config.rules.len() == routes.len()
            &&& config.dry_run == dry_run
            &&& rule.name == routes[i].path
            &&& rule.requests_per_second == routes[i].requests_per_second
            &&& rule.burst == routes[i].burst
            &&& rule.key == key
            &&& rule.message is None
            &&& rule.status_code is None
            &&& conditions_hold(rule.conditions, event) <==> event.uri == routes[i].path
        }),
{
    let config = route_config(requests_per_second, burst, routes, key, dry_run);
    assert(config.rules[i].conditions[0] == ConditionModel::Path(routes[i].path));
}

/// The default rule of a configuration by routes has the default limits, counts by the key,
/// applies to every request and answers in the usual way.
pub proof fn routes_keep_the_default_limits(
    requests_per_second: u32,
    burst: u32,
    routes: Seq<RouteModel>,
    key: KeyModel,
    dry_run: bool,
    event: EventModel,
)
    ensures
        ({
            let config = route_config(requests_per_second, burst, routes, key, dry_run);
            let rule = config.default;
            &&& config.rules.len() == routes.len()
            &&& config.dry_run == dry_run
            &&& rule.name == "default"@
            &&& rule.requests_per_second == requests_per_second
            &&& rule.burst == burst
            &&& rule.key == key
            &&& rule.message is None
            &&& rule.status_code is None
            &&& conditions_hold(rule.conditions, event)
        }),
{
}

} // verus!
