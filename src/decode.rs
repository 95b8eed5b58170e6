//! Reading a definition out of a JSON value.

use crate::action::{
    action_view, pairs_view, AuthBasedAction, ClientObject, ConditionStatement, LogicBasedAction,
    ModelObject, NamespaceObject, RapidRecastAction, RapidRecastRbacAction, RapidRecastRbacObject,
    RapidRecastRbacPolicy, RapidRecastRbacSubject, RecastValue, TopicObject, UserIdentifier,
};
use crate::ast::{
    opt_view, HttpStatement, RapidAstStatement, RapidCronDefinition, RapidModelDefinition,
    RapidProtocolDefinition, RapidRecastDefinition, RapidRecastHttpMethod,
    RapidRecastProtocolType, RapidTopicDefinition,
};
use crate::codec::{
    action_of, auth_of, client_named, condition_of, decode_all, definition_of,
    entries_of, http_of, items_of, lemma_decode_all_err, lemma_metadata_err, lemma_decode_all_step,
    metadata_of, method_named, key_less, lemma_put_prefix, namespace_of, opt_field, pair_of, policy_of, protocol_named, put,
    rbac_action_named, rbac_object_of, required, sequence_of, single, statement_of, str_field,
    str_of, subject_of, topic_of, unit_of, user_of, value_of, version_field, MAX_NESTING,
};
use crate::error::DecodeError;
use crate::json::{
    entries_view, get_field, lemma_container_view, str_equal, Json, JsonValue,
};
use crate::version::{segment_at, Version};
use vstd::prelude::*;

verus! {

fn entries_in(j: &JsonValue) -> (r: Result<&Vec<(String, JsonValue)>, DecodeError>)
    ensures
        entries_of(j@) == match r {
            Ok(e) => Ok(entries_view(e@)),
            Err(x) => Err(x),
        },
{
    proof {
        lemma_container_view(j);
    }
    match j {
        JsonValue::Object(e) => Ok(e),
        _ => Err(DecodeError::TypeMismatch),
    }
}

fn items_in(j: &JsonValue) -> (r: Result<&Vec<JsonValue>, DecodeError>)
    ensures
        items_of(j@) == match r {
            Ok(a) => Ok(a@.map_values(|x: JsonValue| x@)),
            Err(x) => Err(x),
        },
{
    proof {
        lemma_container_view(j);
    }
    match j {
        JsonValue::Array(a) => Ok(a),
        _ => Err(DecodeError::TypeMismatch),
    }
}

fn str_in(j: &JsonValue) -> (r: Result<String, DecodeError>)
    ensures
        str_of(j@) == match r {
            Ok(s) => Ok(s@),
            Err(x) => Err(x),
        },
{
    match j {
        JsonValue::String(s) => Ok(s.clone()),
        _ => Err(DecodeError::TypeMismatch),
    }
}

fn required_in<'a>(e: &'a Vec<(String, JsonValue)>, key: &str) -> (r: Result<
    &'a JsonValue,
    DecodeError,
>)
    ensures
        required(entries_view(e@), key@) == match r {
            Ok(v) => Ok(v@),
            Err(x) => Err(x),
        },
{
    match get_field(e, key) {
        Some(v) => Ok(v),
        None => Err(DecodeError::MissingField),
    }
}

fn str_field_in(e: &Vec<(String, JsonValue)>, key: &str) -> (r: Result<String, DecodeError>)
    ensures
        str_field(entries_view(e@), key@) == match r {
            Ok(s) => Ok(s@),
            Err(x) => Err(x),
        },
{
    let v = required_in(e, key)?;
    str_in(v)
}

fn opt_field_in(e: &Vec<(String, JsonValue)>, key: &str) -> (r: Result<
    Option<String>,
    DecodeError,
>)
    ensures
        opt_field(entries_view(e@), key@) == match r {
            Ok(o) => Ok(opt_view(&o)),
            Err(x) => Err(x),
        },
{
    match get_field(e, key) {
        None => Ok(None),
        Some(JsonValue::Null) => Ok(None),
        Some(JsonValue::String(s)) => Ok(Some(s.clone())),
        Some(v) => {
            proof {
                lemma_container_view(v);
            }
            Err(DecodeError::TypeMismatch)
        },
    }
}

fn single_in(j: &JsonValue) -> (r: Result<(&String, &JsonValue), DecodeError>)
    ensures
        single(j@) == match r {
            Ok((k, v)) => Ok((k@, v@)),
            Err(x) => Err(x),
        },
{
    let e = entries_in(j)?;
    if e.len() == 1 {
        Ok((&e[0].0, &e[0].1))
    } else {
        Err(DecodeError::TypeMismatch)
    }
}

fn pair_in(j: &JsonValue) -> (r: Result<(String, String), DecodeError>)
    ensures
        pair_of(j@) == match r {
            Ok((a, b)) => Ok((a@, b@)),
            Err(x) => Err(x),
        },
{
    let a = items_in(j)?;
    if a.len() != 2 {
        return Err(DecodeError::TypeMismatch);
    }
    match (&a[0], &a[1]) {
        (JsonValue::String(x), JsonValue::String(y)) => Ok((x.clone(), y.clone())),
        _ => {
            proof {
                lemma_container_view(&a[0]);
                lemma_container_view(&a[1]);
            }
            Err(DecodeError::TypeMismatch)
        },
    }
}

fn method_named_in(s: &str) -> (r: Option<RapidRecastHttpMethod>)
    ensures
        r == method_named(s@),
{
    if str_equal(s, "GET") {
        Some(RapidRecastHttpMethod::GET)
    } else if str_equal(s, "POST") {
        Some(RapidRecastHttpMethod::POST)
    } else if str_equal(s, "DELETE") {
        Some(RapidRecastHttpMethod::DELETE)
    } else if str_equal(s, "UPDATE") {
        Some(RapidRecastHttpMethod::UPDATE)
    } else if str_equal(s, "PATCH") {
        Some(RapidRecastHttpMethod::PATCH)
    } else if str_equal(s, "PUT") {
        Some(RapidRecastHttpMethod::PUT)
    } else if str_equal(s, "OPTIONS") {
        Some(RapidRecastHttpMethod::OPTIONS)
    } else if str_equal(s, "HEAD") {
        Some(RapidRecastHttpMethod::HEAD)
    } else if str_equal(s, "CONNECT") {
        Some(RapidRecastHttpMethod::CONNECT)
    } else if str_equal(s, "TRACE") {
        Some(RapidRecastHttpMethod::TRACE)
    } else {
        None
    }
}

fn protocol_named_in(s: &str) -> (r: Option<RapidRecastProtocolType>)
    ensures
        r == protocol_named(s@),
{
    if str_equal(s, "HTTP") {
        Some(RapidRecastProtocolType::HTTP)
    } else if str_equal(s, "WebSocket") {
        Some(RapidRecastProtocolType::WebSocket)
    } else if str_equal(s, "Kafka") {
        Some(RapidRecastProtocolType::Kafka)
    } else if str_equal(s, "RabbitMQ") {
        Some(RapidRecastProtocolType::RabbitMQ)
    } else if str_equal(s, "Grpc") {
        Some(RapidRecastProtocolType::Grpc)
    } else {
        None
    }
}

fn client_named_in(s: &str) -> (r: Option<ClientObject>)
    ensures
        r == client_named(s@),
{
    if str_equal(s, "Http1") {
        Some(ClientObject::Http1)
    } else if str_equal(s, "Http2") {
        Some(ClientObject::Http2)
    } else if str_equal(s, "Http3") {
        Some(ClientObject::Http3)
    } else if str_equal(s, "Kafka") {
        Some(ClientObject::Kafka)
    } else if str_equal(s, "Mqtt") {
        Some(ClientObject::Mqtt)
    } else {
        None
    }
}

fn rbac_action_named_in(s: &str) -> (r: Option<RapidRecastRbacAction>)
    ensures
        r == rbac_action_named(s@),
{
    if str_equal(s, "Create") {
        Some(RapidRecastRbacAction::Create)
    } else if str_equal(s, "Read") {
        Some(RapidRecastRbacAction::Read)
    } else if str_equal(s, "Update") {
        Some(RapidRecastRbacAction::Update)
    } else if str_equal(s, "Delete") {
        Some(RapidRecastRbacAction::Delete)
    } else if str_equal(s, "Write") {
        Some(RapidRecastRbacAction::Write)
    } else if str_equal(s, "List") {
        Some(RapidRecastRbacAction::List)
    } else if str_equal(s, "Rename") {
        Some(RapidRecastRbacAction::Rename)
    } else {
        None
    }
}

fn method_in(j: &JsonValue) -> (r: Result<RapidRecastHttpMethod, DecodeError>)
    ensures
        r == unit_of(j@, |s| method_named(s)),
{
    let s = str_in(j)?;
    match method_named_in(s.as_str()) {
        Some(m) => Ok(m),
        None => Err(DecodeError::UnknownVariant),
    }
}

fn value_in(j: &JsonValue) -> (r: Result<RecastValue, DecodeError>)
    ensures
        value_of(j@) == match r {
            Ok(v) => Ok(v@),
            Err(x) => Err(x),
        },
{
    let (tag, p) = single_in(j)?;
    if str_equal(tag.as_str(), "Param") {
        Ok(RecastValue::Param(str_in(p)?))
    } else if str_equal(tag.as_str(), "String") {
        Ok(RecastValue::String(str_in(p)?))
    } else if str_equal(tag.as_str(), "Number") {
        match p {
            JsonValue::Number(t) => Ok(RecastValue::Number(t.clone())),
            _ => {
                proof {
                    lemma_container_view(p);
                }
                Err(DecodeError::TypeMismatch)
            },
        }
    } else {
        Err(DecodeError::UnknownVariant)
    }
}

fn condition_in(j: &JsonValue) -> (r: Result<ConditionStatement, DecodeError>)
    ensures
        condition_of(j@) == match r {
            Ok(c) => Ok(c@),
            Err(x) => Err(x),
        },
{
    let (tag, p) = single_in(j)?;
    let t = tag.as_str();
    if str_equal(t, "Not") {
        return Ok(ConditionStatement::Not(value_in(p)?));
    }
    let binary = str_equal(t, "Equals") || str_equal(t, "NotEquals") || str_equal(t, "GreaterThan")
        || str_equal(t, "LessThan") || str_equal(t, "GreaterThanOrEqual") || str_equal(
        t,
        "LessThanOrEqual",
    ) || str_equal(t, "And") || str_equal(t, "Or");
    if !binary {
        return Err(DecodeError::UnknownVariant);
    }
    let a = items_in(p)?;
    if a.len() != 2 {
        return Err(DecodeError::TypeMismatch);
    }
    let x = value_in(&a[0])?;
    let y = value_in(&a[1])?;
    let c = if str_equal(t, "Equals") {
        ConditionStatement::Equals(x, y)
    } else if str_equal(t, "NotEquals") {
        ConditionStatement::NotEquals(x, y)
    } else if str_equal(t, "GreaterThan") {
        ConditionStatement::GreaterThan(x, y)
    } else if str_equal(t, "LessThan") {
        ConditionStatement::LessThan(x, y)
    } else if str_equal(t, "GreaterThanOrEqual") {
        ConditionStatement::GreaterThanOrEqual(x, y)
    } else if str_equal(t, "LessThanOrEqual") {
        ConditionStatement::LessThanOrEqual(x, y)
    } else if str_equal(t, "And") {
        ConditionStatement::And(x, y)
    } else {
        ConditionStatement::Or(x, y)
    };
    Ok(c)
}

fn user_in(j: &JsonValue) -> (r: Result<UserIdentifier, DecodeError>)
    ensures
        user_of(j@) == match r {
            Ok(u) => Ok(u@),
            Err(x) => Err(x),
        },
{
    let e = entries_in(j)?;
    let namespace = str_field_in(e, "namespace")?;
    let username = str_field_in(e, "username")?;
    Ok(UserIdentifier { namespace, username })
}

fn subject_in(j: &JsonValue) -> (r: Result<RapidRecastRbacSubject, DecodeError>)
    ensures
        subject_of(j@) == match r {
            Ok(s) => Ok(s@),
            Err(x) => Err(x),
        },
{
    if let JsonValue::String(s) = j {
        return if str_equal(s.as_str(), "Admin") {
            Ok(RapidRecastRbacSubject::Admin)
        } else if str_equal(s.as_str(), "Anon") {
            Ok(RapidRecastRbacSubject::Anon)
        } else {
            Err(DecodeError::UnknownVariant)
        };
    }
    proof {
        lemma_container_view(j);
    }
    let (tag, p) = single_in(j)?;
    if str_equal(tag.as_str(), "UserOrRole") {
        let (n, u) = pair_in(p)?;
        Ok(RapidRecastRbacSubject::UserOrRole(n, u))
    } else {
        Err(DecodeError::UnknownVariant)
    }
}

fn namespace_in(j: &JsonValue) -> (r: Result<NamespaceObject, DecodeError>)
    ensures
        namespace_of(j@) == match r {
            Ok(n) => Ok(n@),
            Err(x) => Err(x),
        },
{
    let (tag, p) = single_in(j)?;
    if str_equal(tag.as_str(), "ExistingNamespace") {
        Ok(NamespaceObject::ExistingNamespace(str_in(p)?))
    } else if str_equal(tag.as_str(), "NonExistingNamespace") {
        Ok(NamespaceObject::NonExistingNamespace(str_in(p)?))
    } else {
        Err(DecodeError::UnknownVariant)
    }
}

fn topic_in(j: &JsonValue) -> (r: Result<TopicObject, DecodeError>)
    ensures
        topic_of(j@) == match r {
            Ok(t) => Ok(t@),
            Err(x) => Err(x),
        },
{
    let (tag, p) = single_in(j)?;
    if str_equal(tag.as_str(), "NonExistingTopic") {
        Ok(TopicObject::NonExistingTopic(str_in(p)?))
    } else if str_equal(tag.as_str(), "NamespaceTopic") {
        let (n, t) = pair_in(p)?;
        Ok(TopicObject::NamespaceTopic(n, t))
    } else {
        Err(DecodeError::UnknownVariant)
    }
}

fn rbac_object_in(j: &JsonValue) -> (r: Result<RapidRecastRbacObject, DecodeError>)
    ensures
        rbac_object_of(j@) == match r {
            Ok(o) => Ok(o@),
            Err(x) => Err(x),
        },
{
    let (tag, p) = single_in(j)?;
    let t = tag.as_str();
    if str_equal(t, "Namespace") {
        Ok(RapidRecastRbacObject::Namespace(namespace_in(p)?))
    } else if str_equal(t, "Protocol") {
        let s = str_in(p)?;
        match protocol_named_in(s.as_str()) {
            Some(x) => Ok(RapidRecastRbacObject::Protocol(x)),
            None => Err(DecodeError::UnknownVariant),
        }
    } else if str_equal(t, "Topic") {
        Ok(RapidRecastRbacObject::Topic(topic_in(p)?))
    } else if str_equal(t, "Client") {
        let s = str_in(p)?;
        match client_named_in(s.as_str()) {
            Some(x) => Ok(RapidRecastRbacObject::Client(x)),
            None => Err(DecodeError::UnknownVariant),
        }
    } else if str_equal(t, "Model") {
        let _ = entries_in(p)?;
        Ok(RapidRecastRbacObject::Model(ModelObject {  }))
    } else {
        Err(DecodeError::UnknownVariant)
    }
}

fn policy_in(j: &JsonValue) -> (r: Result<RapidRecastRbacPolicy, DecodeError>)
    ensures
        policy_of(j@) == match r {
            Ok(p) => Ok(p@),
            Err(x) => Err(x),
        },
{
    let e = entries_in(j)?;
    let subject = subject_in(required_in(e, "subject")?)?;
    let object = rbac_object_in(required_in(e, "object")?)?;
    let s = str_in(required_in(e, "action")?)?;
    match rbac_action_named_in(s.as_str()) {
        Some(action) => Ok(RapidRecastRbacPolicy { subject, object, action }),
        None => Err(DecodeError::UnknownVariant),
    }
}

/// Whether `a` comes before `b` in the order of strings.
fn str_less(a: &str, b: &str) -> (r: bool)
    ensures
        r == key_less(a@, b@),
{
    let n = a.unicode_len();
    let m = b.unicode_len();
    let mut i: usize = 0;
    assert(a@.skip(0) =~= a@);
    assert(b@.skip(0) =~= b@);
    while i < n && i < m
        invariant
            i <= n == a@.len(),
            i <= m == b@.len(),
            key_less(a@, b@) == key_less(a@.skip(i as int), b@.skip(i as int)),
        decreases n - i,
    {
        let x = a.get_char(i);
        let y = b.get_char(i);
        assert(a@.skip(i as int)[0] == x && b@.skip(i as int)[0] == y);
        if x != y {
            return x < y;
        }
        assert(a@.skip(i as int).drop_first() =~= a@.skip(i + 1));
        assert(b@.skip(i as int).drop_first() =~= b@.skip(i + 1));
        i = i + 1;
    }
    i == n && i < m
}

/// Adds `k` to `v` to a mapping kept in key order.
fn put_in(m: &mut Vec<(String, String)>, k: &str, v: &str)
    ensures
        pairs_view(final(m)@) == put(pairs_view(old(m)@), k@, v@),
{
    let ghost pm = pairs_view(m@);
    let mut j: usize = 0;
    while j < m.len()
        invariant
            j <= m.len(),
            pm == pairs_view(m@),
            pm == pairs_view(old(m)@),
            forall|x: int| 0 <= x < j ==> (#[trigger] pm[x]).0 != k@ && !key_less(k@, pm[x].0),
        decreases m.len() - j,
    {
        if str_equal(m[j].0.as_str(), k) {
            proof {
                lemma_put_prefix(pm, k@, v@, j as int);
                assert(pm.skip(j as int)[0].0 == k@);
            }
            m.set(j, (String::from_str(k), String::from_str(v)));
            proof {
                assert(pm.skip(j as int).update(0, (k@, v@)) =~= pm.update(j as int, (k@, v@)).skip(
                    j as int,
                ));
                assert(pairs_view(m@) =~= pm.take(j as int) + pm.skip(j as int).update(
                    0,
                    (k@, v@),
                ));
            }
            return;
        }
        if str_less(k, m[j].0.as_str()) {
            proof {
                lemma_put_prefix(pm, k@, v@, j as int);
                assert(pm.skip(j as int)[0].0 == pm[j as int].0);
            }
            m.insert(j, (String::from_str(k), String::from_str(v)));
            proof {
                assert(pairs_view(m@) =~= pm.take(j as int) + (seq![(k@, v@)] + pm.skip(j as int)));
            }
            return;
        }
        j = j + 1;
    }
    proof {
        lemma_put_prefix(pm, k@, v@, j as int);
        assert(pm.skip(j as int) =~= Seq::<(Seq<char>, Seq<char>)>::empty());
    }
    m.push((String::from_str(k), String::from_str(v)));
    proof {
        assert(pairs_view(m@) =~= pm.take(j as int) + seq![(k@, v@)]);
    }
}

fn metadata_in(e: &Vec<(String, JsonValue)>) -> (r: Result<Vec<(String, String)>, DecodeError>)
    ensures
        metadata_of(entries_view(e@)) == match r {
            Ok(m) => Ok(pairs_view(m@)),
            Err(x) => Err(x),
        },
{
    let ghost all = entries_view(e@);
    let mut m: Vec<(String, String)> = Vec::new();
    let mut i: usize = 0;
    assert(pairs_view(m@) =~= Seq::empty());
    while i < e.len()
        invariant
            i <= e.len(),
            all == entries_view(e@),
            metadata_of(all.take(i as int)) == Ok::<_, DecodeError>(pairs_view(m@)),
        decreases e.len() - i,
    {
        let ghost pre = all.take(i as int);
        assert(all.take(i + 1).drop_last() =~= pre);
        match &e[i].1 {
            JsonValue::String(v) => {
                put_in(&mut m, e[i].0.as_str(), v.as_str());
            },
            other => {
                proof {
                    lemma_container_view(other);
                    lemma_metadata_err(all, i + 1);
                }
                return Err(DecodeError::TypeMismatch);
            },
        }
        i = i + 1;
    }
    assert(all.take(i as int) =~= all);
    Ok(m)
}

fn policies_in(items: &Vec<JsonValue>) -> (r: Result<Vec<RapidRecastRbacPolicy>, DecodeError>)
    ensures
        decode_all(items@.map_values(|x: JsonValue| x@), |i: Json| policy_of(i)) == match r {
            Ok(p) => Ok(p@.map_values(|p: RapidRecastRbacPolicy| p@)),
            Err(x) => Err(x),
        },
{
    let ghost iv = items@.map_values(|x: JsonValue| x@);
    let ghost f = |i: Json| policy_of(i);
    let mut out: Vec<RapidRecastRbacPolicy> = Vec::new();
    let mut i: usize = 0;
    assert(iv.take(0) =~= Seq::<Json>::empty());
    assert(out@.map_values(|p: RapidRecastRbacPolicy| p@) =~= Seq::empty());
    while i < items.len()
        invariant
            i <= items.len(),
            iv == items@.map_values(|x: JsonValue| x@),
            f == (|i: Json| policy_of(i)),
            decode_all(iv.take(i as int), f) == Ok::<_, DecodeError>(
                out@.map_values(|p: RapidRecastRbacPolicy| p@),
            ),
        decreases items.len() - i,
    {
        proof {
            lemma_decode_all_step(iv, f, i as int);
        }
        match policy_in(&items[i]) {
            Ok(p) => {
                out.push(p);
                assert(out@.map_values(|p: RapidRecastRbacPolicy| p@) =~= decode_all(
                    iv.take(i as int),
                    f,
                )->Ok_0.push(p@));
            },
            Err(x) => {
                proof {
                    lemma_decode_all_err(iv, f, i + 1);
                }
                return Err(x);
            },
        }
        i = i + 1;
    }
    assert(iv.take(i as int) =~= iv);
    Ok(out)
}

fn auth_in(j: &JsonValue) -> (r: Result<AuthBasedAction, DecodeError>)
    ensures
        auth_of(j@) == match r {
            Ok(a) => Ok(a@),
            Err(x) => Err(x),
        },
{
    let (tag, p) = single_in(j)?;
    let e = entries_in(p)?;
    let subject = user_in(required_in(e, "subject")?)?;
    let t = tag.as_str();
    if str_equal(t, "CreateUser") {
        let password = opt_field_in(e, "password")?;
        let r = AuthBasedAction::CreateUser { subject, password };
        assert(auth_of(j@) == Ok::<_, DecodeError>(r@));
        Ok(r)
    } else if str_equal(t, "AddMetadataToUser") {
        let me = entries_in(required_in(e, "metadata")?)?;
        let metadata = metadata_in(me)?;
        Ok(AuthBasedAction::AddMetadataToUser { subject, metadata })
    } else if str_equal(t, "GrantPermissions") {
        let items = items_in(required_in(e, "policy")?)?;
        let policy = policies_in(items)?;
        Ok(AuthBasedAction::GrantPermissions { subject, policy })
    } else {
        Err(DecodeError::UnknownVariant)
    }
}

/// The strings of an array.
fn paths_in(items: &Vec<JsonValue>) -> (r: Result<Vec<String>, DecodeError>)
    ensures
        decode_all(items@.map_values(|x: JsonValue| x@), |i: Json| str_of(i)) == match r {
            Ok(v) => Ok(v@.map_values(|s: String| s@)),
            Err(x) => Err(x),
        },
{
    let ghost iv = items@.map_values(|x: JsonValue| x@);
    let ghost f = |i: Json| str_of(i);
    let mut out: Vec<String> = Vec::new();
    let mut i: usize = 0;
    assert(iv.take(0) =~= Seq::<Json>::empty());
    assert(out@.map_values(|s: String| s@) =~= Seq::empty());
    while i < items.len()
        invariant
            i <= items.len(),
            iv == items@.map_values(|x: JsonValue| x@),
            f == (|i: Json| str_of(i)),
            decode_all(iv.take(i as int), f) == Ok::<_, DecodeError>(out@.map_values(|s: String| s@)),
        decreases items.len() - i,
    {
        proof {
            lemma_decode_all_step(iv, f, i as int);
        }
        match str_in(&items[i]) {
            Ok(x) => {
                out.push(x);
                assert(out@.map_values(|s: String| s@) =~= decode_all(iv.take(i as int), f)->Ok_0.push(
                    (|s: String| s@)(x),
                ));
            },
            Err(x) => {
                proof {
                    lemma_decode_all_err(iv, f, i + 1);
                }
                return Err(x);
            },
        }
        i = i + 1;
    }
    assert(iv.take(i as int) =~= iv);
    Ok(out)
}

/// The HTTP methods of an array.
fn methods_in(items: &Vec<JsonValue>) -> (r: Result<Vec<RapidRecastHttpMethod>, DecodeError>)
    ensures
        decode_all(items@.map_values(|x: JsonValue| x@), |i: Json| unit_of(i, |s| method_named(s))) == match r {
            Ok(v) => Ok(v@.map_values(|m: RapidRecastHttpMethod| m)),
            Err(x) => Err(x),
        },
{
    let ghost iv = items@.map_values(|x: JsonValue| x@);
    let ghost f = |i: Json| unit_of(i, |s| method_named(s));
    let mut out: Vec<RapidRecastHttpMethod> = Vec::new();
    let mut i: usize = 0;
    assert(iv.take(0) =~= Seq::<Json>::empty());
    assert(out@.map_values(|m: RapidRecastHttpMethod| m) =~= Seq::empty());
    while i < items.len()
        invariant
            i <= items.len(),
            iv == items@.map_values(|x: JsonValue| x@),
            f == (|i: Json| unit_of(i, |s| method_named(s))),
            decode_all(iv.take(i as int), f) == Ok::<_, DecodeError>(out@.map_values(|m: RapidRecastHttpMethod| m)),
        decreases items.len() - i,
    {
        proof {
            lemma_decode_all_step(iv, f, i as int);
        }
        match method_in(&items[i]) {
            Ok(x) => {
                out.push(x);
                assert(out@.map_values(|m: RapidRecastHttpMethod| m) =~= decode_all(iv.take(i as int), f)->Ok_0.push(
                    (|m: RapidRecastHttpMethod| m)(x),
                ));
            },
            Err(x) => {
                proof {
                    lemma_decode_all_err(iv, f, i + 1);
                }
                return Err(x);
            },
        }
        i = i + 1;
    }
    assert(iv.take(i as int) =~= iv);
    Ok(out)
}

/// The actions of an array.
fn actions_in(items: &Vec<JsonValue>) -> (r: Result<Vec<RapidRecastAction>, DecodeError>)
    ensures
        decode_all(items@.map_values(|x: JsonValue| x@), |i: Json| action_of(i, MAX_NESTING as nat)) == match r {
            Ok(v) => Ok(v@.map_values(|a: RapidRecastAction| a@)),
            Err(x) => Err(x),
        },
{
    let ghost iv = items@.map_values(|x: JsonValue| x@);
    let ghost f = |i: Json| action_of(i, MAX_NESTING as nat);
    let mut out: Vec<RapidRecastAction> = Vec::new();
    let mut i: usize = 0;
    assert(iv.take(0) =~= Seq::<Json>::empty());
    assert(out@.map_values(|a: RapidRecastAction| a@) =~= Seq::empty());
    while i < items.len()
        invariant
            i <= items.len(),
            iv == items@.map_values(|x: JsonValue| x@),
            f == (|i: Json| action_of(i, MAX_NESTING as nat)),
            decode_all(iv.take(i as int), f) == Ok::<_, DecodeError>(out@.map_values(|a: RapidRecastAction| a@)),
        decreases items.len() - i,
    {
        proof {
            lemma_decode_all_step(iv, f, i as int);
        }
        match action_in(&items[i], MAX_NESTING) {
            Ok(x) => {
                out.push(x);
                assert(out@.map_values(|a: RapidRecastAction| a@) =~= decode_all(iv.take(i as int), f)->Ok_0.push(
                    (|a: RapidRecastAction| a@)(x),
                ));
            },
            Err(x) => {
                proof {
                    lemma_decode_all_err(iv, f, i + 1);
                }
                return Err(x);
            },
        }
        i = i + 1;
    }
    assert(iv.take(i as int) =~= iv);
    Ok(out)
}

/// The statements of an array.
fn statements_in(items: &Vec<JsonValue>) -> (r: Result<Vec<RapidAstStatement>, DecodeError>)
    ensures
        decode_all(items@.map_values(|x: JsonValue| x@), |i: Json| statement_of(i)) == match r {
            Ok(v) => Ok(v@.map_values(|a: RapidAstStatement| a@)),
            Err(x) => Err(x),
        },
{
    let ghost iv = items@.map_values(|x: JsonValue| x@);
    let ghost f = |i: Json| statement_of(i);
    let mut out: Vec<RapidAstStatement> = Vec::new();
    let mut i: usize = 0;
    assert(iv.take(0) =~= Seq::<Json>::empty());
    assert(out@.map_values(|a: RapidAstStatement| a@) =~= Seq::empty());
    while i < items.len()
        invariant
            i <= items.len(),
            iv == items@.map_values(|x: JsonValue| x@),
            f == (|i: Json| statement_of(i)),
            decode_all(iv.take(i as int), f) == Ok::<_, DecodeError>(out@.map_values(|a: RapidAstStatement| a@)),
        decreases items.len() - i,
    {
        proof {
            lemma_decode_all_step(iv, f, i as int);
        }
        match statement_in(&items[i]) {
            Ok(x) => {
                out.push(x);
                assert(out@.map_values(|a: RapidAstStatement| a@) =~= decode_all(iv.take(i as int), f)->Ok_0.push(
                    (|a: RapidAstStatement| a@)(x),
                ));
            },
            Err(x) => {
                proof {
                    lemma_decode_all_err(iv, f, i + 1);
                }
                return Err(x);
            },
        }
        i = i + 1;
    }
    assert(iv.take(i as int) =~= iv);
    Ok(out)
}

fn sequence_in(j: &JsonValue) -> (r: Result<u8, DecodeError>)
    ensures
        r == sequence_of(j@),
{
    match j {
        JsonValue::Number(t) => {
            let n = t.as_str().unicode_len();
            match segment_at(t.as_str(), 0, n) {
                Some(v) => {
                    assert(t@.subrange(0, n as int) =~= t@);
                    if v <= 255 {
                        Ok(v as u8)
                    } else {
                        Err(DecodeError::TypeMismatch)
                    }
                },
                None => {
                    assert(t@.subrange(0, n as int) =~= t@);
                    Err(DecodeError::TypeMismatch)
                },
            }
        },
        _ => {
            proof {
                lemma_container_view(j);
            }
            Err(DecodeError::TypeMismatch)
        },
    }
}

fn http_in(j: &JsonValue) -> (r: Result<HttpStatement, DecodeError>)
    ensures
        http_of(j@) == match r {
            Ok(h) => Ok(h@),
            Err(x) => Err(x),
        },
{
    let e = entries_in(j)?;
    let sequence = sequence_in(required_in(e, "sequence")?)?;
    let paths = paths_in(items_in(required_in(e, "paths")?)?)?;
    let methods = methods_in(items_in(required_in(e, "methods")?)?)?;
    let actions = actions_in(items_in(required_in(e, "actions")?)?)?;
    let h = HttpStatement { sequence, paths, methods, actions };
    assert(h@.methods =~= methods@.map_values(|m: RapidRecastHttpMethod| m));
    Ok(h)
}

fn statement_in(j: &JsonValue) -> (r: Result<RapidAstStatement, DecodeError>)
    ensures
        statement_of(j@) == match r {
            Ok(s) => Ok(s@),
            Err(x) => Err(x),
        },
{
    let (tag, p) = single_in(j)?;
    let t = tag.as_str();
    if str_equal(t, "ProtocolDefinition") {
        let (ptag, pp) = single_in(p)?;
        if str_equal(ptag.as_str(), "HttpProtocolDefinition") {
            let h = http_in(pp)?;
            Ok(RapidAstStatement::ProtocolDefinition(RapidProtocolDefinition::HttpProtocolDefinition(h)))
        } else {
            Err(DecodeError::UnknownVariant)
        }
    } else if str_equal(t, "ModelDefinition") {
        let _ = entries_in(p)?;
        Ok(RapidAstStatement::ModelDefinition(RapidModelDefinition {  }))
    } else if str_equal(t, "TopicDefinition") {
        let _ = entries_in(p)?;
        Ok(RapidAstStatement::TopicDefinition(RapidTopicDefinition {  }))
    } else if str_equal(t, "CronDefinition") {
        let _ = entries_in(p)?;
        Ok(RapidAstStatement::CronDefinition(RapidCronDefinition {  }))
    } else {
        Err(DecodeError::UnknownVariant)
    }
}

fn version_in(e: &Vec<(String, JsonValue)>, key: &str) -> (r: Result<Version, DecodeError>)
    ensures
        r == version_field(entries_view(e@), key@),
{
    let s = str_field_in(e, key)?;
    Version::parse(s.as_str())
}

/// Reads a definition out of a JSON value; unknown fields are ignored.
pub fn definition_from_value(j: &JsonValue) -> (r: Result<RapidRecastDefinition, DecodeError>)
    ensures
        definition_of(j@) == match r {
            Ok(d) => Ok(d@),
            Err(x) => Err(x),
        },
{
    let e = entries_in(j)?;
    let id = str_field_in(e, "id")?;
    let language_version = version_in(e, "language_version")?;
    let file_version = version_in(e, "file_version")?;
    let name = opt_field_in(e, "name")?;
    let description = opt_field_in(e, "description")?;
    let ast = statements_in(items_in(required_in(e, "ast")?)?)?;
    Ok(RapidRecastDefinition { id, language_version, file_version, name, description, ast })
}

fn action_in(j: &JsonValue, depth: u64) -> (r: Result<RapidRecastAction, DecodeError>)
    ensures
        action_of(j@, depth as nat) == match r {
            Ok(a) => Ok(action_view(&a)),
            Err(x) => Err(x),
        },
    decreases depth,
{
    let (tag, p) = single_in(j)?;
    if str_equal(tag.as_str(), "AuthBasedAction") {
        return Ok(RapidRecastAction::AuthBasedAction(auth_in(p)?));
    }
    if !str_equal(tag.as_str(), "LogicBasedAction") {
        return Err(DecodeError::UnknownVariant);
    }
    let (ltag, lp) = single_in(p)?;
    if !str_equal(ltag.as_str(), "ConditionBlock") {
        return Err(DecodeError::UnknownVariant);
    }
    let e = entries_in(lp)?;
    let condition = condition_in(required_in(e, "condition")?)?;
    let tj = required_in(e, "if_true")?;
    if depth == 0 {
        return Err(DecodeError::NestingTooDeep);
    }
    let if_true = action_in(tj, depth - 1)?;
    let if_false = match get_field(e, "if_false") {
        None => None,
        Some(JsonValue::Null) => None,
        Some(fj) => {
            proof {
                lemma_container_view(fj);
            }
            Some(Box::new(action_in(fj, depth - 1)?))
        },
    };
    Ok(
        RapidRecastAction::LogicBasedAction(
            LogicBasedAction::ConditionBlock { condition, if_true: Box::new(if_true), if_false },
        ),
    )
}

} // verus!
