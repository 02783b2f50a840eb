//! Which rule applies to a request, and under which key the request is counted.
use vstd::prelude::*;
use vstd::string::StringExecFns;

use crate::agent::RateLimitAgent;
use crate::config::{
    ConditionModel, ConfigModel, KeyModel, MatchCondition, RateLimitKey, RateLimitRule, RuleModel,
};
#[allow(unused_imports)]
use crate::config::{condition_models, key_model, key_models};
use crate::event::{EventModel, RequestHeadersEvent};
use crate::text::{eq_ignore_ascii_case, starts_with};
#[allow(unused_imports)]
use crate::rule_laws::path_prefix_holds_of_its_continuations;
#[allow(unused_imports)]
use crate::text::{ascii_lower, joined, texts};

verus! {

/// Whether the method is one of several, in upper or lower case.
pub open spec fn method_among(methods: Seq<Seq<char>>, method: Seq<char>) -> bool {
    exists|i: int|
        0 <= i < methods.len() && ascii_lower(#[trigger] methods[i]) == ascii_lower(method)
}

/// Whether a condition holds of a request.
pub open spec fn condition_holds(condition: ConditionModel, event: EventModel) -> bool {
    match condition {
        ConditionModel::PathPrefix(prefix) => prefix.is_prefix_of(event.uri),
        ConditionModel::Path(path) => event.uri == path,
        ConditionModel::Header { name, value } => {
            &&& event.headers.contains_key(name)
            &&& value matches Some(expected) ==> event.headers[name].contains(expected)
        },
        ConditionModel::Method(methods) => method_among(methods, event.method),
    }
}

/// Whether all the conditions hold of a request.
pub open spec fn conditions_hold(conditions: Seq<ConditionModel>, event: EventModel) -> bool {
    forall|i: int| 0 <= i < conditions.len() ==> condition_holds(#[trigger] conditions[i], event)
}

/// The first of the rules whose conditions hold of the request, or else the fallback.
pub open spec fn first_match(
    rules: Seq<RuleModel>,
    fallback: RuleModel,
    event: EventModel,
) -> RuleModel
    decreases rules.len(),
{
    if rules.len() == 0 {
        fallback
    } else if conditions_hold(rules[0].conditions, event) {
        rules[0]
    } else {
        first_match(rules.drop_first(), fallback, event)
    }
}

/// The rule that applies to a request.
pub open spec fn selected_rule(config: ConfigModel, event: EventModel) -> RuleModel {
    first_match(config.rules, config.default, event)
}

/// The key under which a request is counted.
pub open spec fn key_text(key: KeyModel, event: EventModel) -> Seq<char>
    decreases key,
{
    match key {
        KeyModel::ClientIp => event.client_ip,
        KeyModel::Header(name) => if event.headers.contains_key(name) && event.headers[name].len()
            > 0 {
            event.headers[name][0]
        } else {
            "unknown_"@ + name
        },
        KeyModel::Path => event.uri,
        KeyModel::Method => event.method,
        KeyModel::Global => "global"@,
        KeyModel::Composite(keys) => joined(key_texts(keys, event), ":"@),
    }
}

/// The keys under which a request is counted, in order.
pub open spec fn key_texts(keys: Seq<KeyModel>, event: EventModel) -> Seq<Seq<char>>
    decreases keys,
{
    if keys.len() == 0 {
        Seq::empty()
    } else {
        key_texts(keys.drop_last(), event).push(key_text(keys.last(), event))
    }
}

/// There are as many texts as keys, each that of the key at its place.
pub proof fn key_texts_at(keys: Seq<KeyModel>, event: EventModel)
    ensures
        key_texts(keys, event).len() == keys.len(),
        forall|i: int|
            0 <= i < keys.len() ==> #[trigger] key_texts(keys, event)[i] == key_text(
                keys[i],
                event,
            ),
    decreases keys.len(),
{
    if keys.len() > 0 {
        key_texts_at(keys.drop_last(), event);
    }
}

proof fn lemma_key_models_len(keys: Seq<RateLimitKey>)
    ensures
        key_models(keys).len() == keys.len(),
    decreases keys.len(),
{
    if keys.len() > 0 {
        lemma_key_models_len(keys.drop_last());
    }
}

proof fn lemma_key_texts_push(keys: Seq<RateLimitKey>, i: int, event: EventModel)
    requires
        0 <= i < keys.len(),
    ensures
        key_texts(key_models(keys.take(i)), event).len() == i,
        key_texts(key_models(keys.take(i + 1)), event) == key_texts(
            key_models(keys.take(i)),
            event,
        ).push(key_text(key_model(keys[i]), event)),
        key_texts(key_models(keys.take(i + 1)), event).drop_last() == key_texts(
            key_models(keys.take(i)),
            event,
        ),
{
    lemma_key_models_len(keys.take(i));
    key_texts_at(key_models(keys.take(i)), event);
    assert(keys.take(i + 1).drop_last() =~= keys.take(i));
    let models = key_models(keys.take(i + 1));
    assert(models.drop_last() =~= key_models(keys.take(i)));
    assert(key_texts(models, event).drop_last() =~= key_texts(key_models(keys.take(i)), event));
}

fn contains_text(values: &Vec<String>, expected: &String) -> (found: bool)
    ensures
        found == texts(values@).contains(expected@),
{
    let mut i: usize = 0;
    while i < values.len()
        invariant
            i <= values.len(),
            forall|k: int| 0 <= k < i ==> (#[trigger] values@[k])@ != expected@,
        decreases values.len() - i,
    {
        if values[i] == *expected {
            assert(texts(values@)[i as int] == expected@);
            return true;
        }
        i += 1;
    }
    false
}

fn contains_method(methods: &Vec<String>, method: &String) -> (found: bool)
    ensures
        found == method_among(texts(methods@), method@),
{
    let mut i: usize = 0;
    while i < methods.len()
        invariant
            i <= methods.len(),
            forall|k: int|
                0 <= k < i ==> ascii_lower(#[trigger] texts(methods@)[k]) != ascii_lower(method@),
        decreases methods.len() - i,
    {
        if eq_ignore_ascii_case(methods[i].as_str(), method.as_str()) {
            assert(texts(methods@)[i as int] == methods@[i as int]@);
            return true;
        }
        i += 1;
    }
    false
}

impl MatchCondition {
    /// Whether the condition holds of a request.
    pub fn holds(&self, event: &RequestHeadersEvent) -> (holds: bool)
        ensures
            holds == condition_holds(self@, event@),
            self matches MatchCondition::PathPrefix(prefix) ==> (holds <==> exists|rest: Seq<char>|
                event.uri@ == #[trigger] (prefix@ + rest)),
            self matches MatchCondition::Path(path) ==> (holds <==> event.uri@ == path@),
    {
        proof {
            if let MatchCondition::PathPrefix(prefix) = self {
                path_prefix_holds_of_its_continuations(prefix@, event@);
            }
        }
        match self {
            MatchCondition::PathPrefix(prefix) => starts_with(event.uri.as_str(), prefix.as_str()),
            MatchCondition::Path(path) => event.uri == *path,
            MatchCondition::Header { name, value } => match event.headers.get(name) {
                Some(values) => match value {
                    Some(expected) => contains_text(values, expected),
                    None => true,
                },
                None => false,
            },
            MatchCondition::Method(methods) => contains_method(methods, &event.method),
        }
    }
}

impl RateLimitAgent {
    /// Whether all the conditions hold of a request. Without conditions they do.
    pub fn matches_conditions(
        &self,
        conditions: &[MatchCondition],
        event: &RequestHeadersEvent,
    ) -> (holds: bool)
        ensures
            holds == conditions_hold(condition_models(conditions@), event@),
    {
        let mut i: usize = 0;
        while i < conditions.len()
            invariant
                i <= conditions.len(),
                forall|k: int|
                    0 <= k < i ==> condition_holds(
                        #[trigger] condition_models(conditions@)[k],
                        event@,
                    ),
            decreases conditions.len() - i,
        {
            if !conditions[i].holds(event) {
                assert(!condition_holds(condition_models(conditions@)[i as int], event@));
                return false;
            }
            i += 1;
        }
        true
    }

    /// The rule that applies to a request: the first whose conditions hold, or else the default.
    pub fn find_matching_rule(&self, event: &RequestHeadersEvent) -> (rule: RateLimitRule)
        ensures
            rule@ == selected_rule(self@.config, event@),
    {
        let mut i: usize = 0;
        assert(self@.config.rules.skip(0) =~= self@.config.rules);
        while i < self.config.rules.len()
            invariant
                i <= self.config.rules.len(),
                first_match(self@.config.rules.skip(i as int), self@.config.default, event@)
                    == selected_rule(self@.config, event@),
            decreases self.config.rules.len() - i,
        {
            assert(self@.config.rules.skip(i as int)[0] == self.config.rules@[i as int]@);
            assert(self@.config.rules.skip(i as int).drop_first() =~= self@.config.rules.skip(
                i + 1,
            ));
            if self.matches_conditions(self.config.rules[i].conditions.as_slice(), event) {
                return self.config.rules[i].clone();
            }
            i += 1;
        }
        self.config.default.clone()
    }

    /// The key under which a request is counted.
    pub fn generate_key(&self, key_type: &RateLimitKey, event: &RequestHeadersEvent) -> (key:
        String)
        ensures
            key@ == key_text(key_type@, event@),
            key_type is ClientIp ==> key@ == event.client_ip@,
            key_type is Path ==> key@ == event.uri@,
            key_type is Method ==> key@ == event.method@,
            key_type matches RateLimitKey::Header(name) ==> (event.headers@.contains_key(name@)
                && event.headers@[name@].len() > 0 ==> key@ == event.headers@[name@][0]@),
        decreases key_type,
    {
        match key_type {
            RateLimitKey::ClientIp => event.client_ip.clone(),
            RateLimitKey::Header(name) => {
                if let Some(values) = event.headers.get(name) {
                    if values.len() > 0 {
                        return values[0].clone();
                    }
                }
                let mut key = String::from_str("unknown_");
                key.append(name.as_str());
                key
            },
            RateLimitKey::Path => event.uri.clone(),
            RateLimitKey::Method => event.method.clone(),
            RateLimitKey::Global => String::from_str("global"),
            RateLimitKey::Composite(keys) => {
                let mut key = String::new();
                let mut i: usize = 0;
                while i < keys.len()
                    invariant
                        i <= keys.len(),
                        *key_type == RateLimitKey::Composite(*keys),
                        key@ == joined(
                            key_texts(key_models(keys@.take(i as int)), event@),
                            ":"@,
                        ),
                    decreases keys.len() - i,
                {
                    proof {
                        assert(decreases_to!(key_type => key_type->Composite_0));
                        assert(decreases_to!(*keys => keys@));
                        assert(decreases_to!(keys@ => keys@[i as int]));
                    }
                    let part = self.generate_key(&keys[i], event);
                    if i > 0 {
                        key.append(":");
                    }
                    key.append(part.as_str());
                    proof {
                        lemma_key_texts_push(keys@, i as int, event@);
                    }
                    i += 1;
                }
                assert(keys@.take(i as int) =~= keys@);
                key
            },
        }
    }
}

} // verus!
