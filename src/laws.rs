//! What holds of the JSON encoding as a whole: decoding an encoding gives the
//! definition back, unknown variant names are refused, and metadata keys
//! resolve last-value-wins.

use crate::action::{
    ActionView, AuthView, ClientObject, ConditionView, LogicView, ObjectView,
    PolicyView, RapidRecastRbacAction, SubjectView, UserView, ValueView,
};
use crate::ast::{
    DefinitionView, HttpView, ProtocolView, RapidRecastHttpMethod, RapidRecastProtocolType,
    StatementView,
};
use crate::codec::{
    action_json, action_of, action_wf, auth_json, auth_of, client_named, client_tag,
    condition_json, condition_of, decode_all, definition_json, definition_of, definition_wf,
    http_json, http_of, metadata_json, metadata_of, method_named, method_tag, nesting,
    object_json, policy_json, policy_of, protocol_named, protocol_tag, put, rbac_action_named,
    rbac_action_tag, rbac_object_of, sequence_of, statement_json, statement_of, subject_json,
    subject_of, tagged, sorted_keys, key_less, lemma_put_prefix, lemma_key_less_irreflexive,
    lemma_key_less_asymmetric, lemma_key_less_transitive, lemma_key_less_total, action_plain, condition_plain, definition_plain, value_plain,
    user_json, user_of, value_json, value_of, MAX_NESTING,
};
use crate::error::DecodeError;
use crate::json::{field, numbers_plain, plain_number, Json};
use crate::version::{decimal, lemma_decimal, lemma_version_round_trip, segment_value};
use vstd::prelude::*;

verus! {

/// Decoding the encodings of a list's items one by one gives the list.
proof fn lemma_decode_all_map<A>(
    s: Seq<A>,
    enc: spec_fn(A) -> Json,
    f: spec_fn(Json) -> Result<A, DecodeError>,
)
    requires
        forall|i: int| 0 <= i < s.len() ==> f(enc(#[trigger] s[i])) == Ok::<A, DecodeError>(s[i]),
    ensures
        decode_all(s.map_values(enc), f) == Ok::<Seq<A>, DecodeError>(s),
    decreases s.len(),
{
    if s.len() > 0 {
        let p = s.drop_last();
        assert(s.map_values(enc).drop_last() =~= p.map_values(enc));
        lemma_decode_all_map(p, enc, f);
        assert(f(enc(s[s.len() - 1])) == Ok::<A, DecodeError>(s[s.len() - 1]));
        assert(s.map_values(enc).last() == enc(s[s.len() - 1]));
        assert(p.push(s.last()) =~= s);
    } else {
        assert(s =~= Seq::<A>::empty());
    }
}

proof fn lemma_method(m: RapidRecastHttpMethod)
    ensures
        method_named(method_tag(m)) == Some(m),
{
    reveal_strlit("GET");
    assert("GET"@.len() == 3 && "GET"@[0] == 'G');
    reveal_strlit("POST");
    assert("POST"@.len() == 4 && "POST"@[0] == 'P');
    reveal_strlit("DELETE");
    assert("DELETE"@.len() == 6 && "DELETE"@[0] == 'D');
    reveal_strlit("UPDATE");
    assert("UPDATE"@.len() == 6 && "UPDATE"@[0] == 'U');
    reveal_strlit("PATCH");
    assert("PATCH"@.len() == 5 && "PATCH"@[0] == 'P');
    reveal_strlit("PUT");
    assert("PUT"@.len() == 3 && "PUT"@[0] == 'P');
    reveal_strlit("OPTIONS");
    assert("OPTIONS"@.len() == 7 && "OPTIONS"@[0] == 'O');
    reveal_strlit("HEAD");
    assert("HEAD"@.len() == 4 && "HEAD"@[0] == 'H');
    reveal_strlit("CONNECT");
    assert("CONNECT"@.len() == 7 && "CONNECT"@[0] == 'C');
    reveal_strlit("TRACE");
    assert("TRACE"@.len() == 5 && "TRACE"@[0] == 'T');
}

proof fn lemma_protocol(p: RapidRecastProtocolType)
    ensures
        protocol_named(protocol_tag(p)) == Some(p),
{
    reveal_strlit("HTTP");
    assert("HTTP"@.len() == 4 && "HTTP"@[0] == 'H');
    reveal_strlit("WebSocket");
    assert("WebSocket"@.len() == 9 && "WebSocket"@[0] == 'W');
    reveal_strlit("Kafka");
    assert("Kafka"@.len() == 5 && "Kafka"@[0] == 'K');
    reveal_strlit("RabbitMQ");
    assert("RabbitMQ"@.len() == 8 && "RabbitMQ"@[0] == 'R');
    reveal_strlit("Grpc");
    assert("Grpc"@.len() == 4 && "Grpc"@[0] == 'G');
}

proof fn lemma_client(c: ClientObject)
    ensures
        client_named(client_tag(c)) == Some(c),
{
    reveal_strlit("Http1");
    assert("Http1"@.len() == 5 && "Http1"@[0] == 'H' && "Http1"@[4] == '1');
    reveal_strlit("Http2");
    assert("Http2"@.len() == 5 && "Http2"@[0] == 'H' && "Http2"@[4] == '2');
    reveal_strlit("Http3");
    assert("Http3"@.len() == 5 && "Http3"@[0] == 'H' && "Http3"@[4] == '3');
    reveal_strlit("Kafka");
    assert("Kafka"@.len() == 5 && "Kafka"@[0] == 'K');
    reveal_strlit("Mqtt");
    assert("Mqtt"@.len() == 4 && "Mqtt"@[0] == 'M');
}

proof fn lemma_rbac_action(a: RapidRecastRbacAction)
    ensures
        rbac_action_named(rbac_action_tag(a)) == Some(a),
{
    reveal_strlit("Create");
    assert("Create"@.len() == 6 && "Create"@[0] == 'C');
    reveal_strlit("Read");
    assert("Read"@.len() == 4 && "Read"@[0] == 'R');
    reveal_strlit("Update");
    assert("Update"@.len() == 6 && "Update"@[0] == 'U');
    reveal_strlit("Delete");
    assert("Delete"@.len() == 6 && "Delete"@[0] == 'D');
    reveal_strlit("Write");
    assert("Write"@.len() == 5 && "Write"@[0] == 'W');
    reveal_strlit("List");
    assert("List"@.len() == 4 && "List"@[0] == 'L');
    reveal_strlit("Rename");
    assert("Rename"@.len() == 6 && "Rename"@[0] == 'R');
}

proof fn lemma_value(v: ValueView)
    ensures
        value_of(value_json(v)) == Ok::<ValueView, DecodeError>(v),
{
    reveal_strlit("Param");
    assert("Param"@.len() == 5 && "Param"@[0] == 'P');
    reveal_strlit("String");
    assert("String"@.len() == 6 && "String"@[0] == 'S');
    reveal_strlit("Number");
    assert("Number"@.len() == 6 && "Number"@[0] == 'N');
}

proof fn lemma_condition(c: ConditionView)
    ensures
        condition_of(condition_json(c)) == Ok::<ConditionView, DecodeError>(c),
{
    reveal_strlit("Equals");
    assert("Equals"@.len() == 6 && "Equals"@[0] == 'E');
    reveal_strlit("NotEquals");
    assert("NotEquals"@.len() == 9 && "NotEquals"@[0] == 'N');
    reveal_strlit("GreaterThan");
    assert("GreaterThan"@.len() == 11 && "GreaterThan"@[0] == 'G');
    reveal_strlit("LessThan");
    assert("LessThan"@.len() == 8 && "LessThan"@[0] == 'L');
    reveal_strlit("GreaterThanOrEqual");
    assert("GreaterThanOrEqual"@.len() == 18 && "GreaterThanOrEqual"@[0] == 'G');
    reveal_strlit("LessThanOrEqual");
    assert("LessThanOrEqual"@.len() == 15 && "LessThanOrEqual"@[0] == 'L');
    reveal_strlit("And");
    assert("And"@.len() == 3 && "And"@[0] == 'A');
    reveal_strlit("Or");
    assert("Or"@.len() == 2 && "Or"@[0] == 'O');
    reveal_strlit("Not");
    assert("Not"@.len() == 3 && "Not"@[0] == 'N');
    match c {
        ConditionView::Equals(a, b) | ConditionView::NotEquals(a, b)
        | ConditionView::GreaterThan(a, b) | ConditionView::LessThan(a, b)
        | ConditionView::GreaterThanOrEqual(a, b) | ConditionView::LessThanOrEqual(a, b)
        | ConditionView::And(a, b) | ConditionView::Or(a, b) => {
            lemma_value(a);
            lemma_value(b);
        },
        ConditionView::Not(a) => {
            lemma_value(a);
        },
    }
}

proof fn lemma_user(u: UserView)
    ensures
        user_of(user_json(u)) == Ok::<UserView, DecodeError>(u),
{
    reveal_strlit("namespace");
    assert("namespace"@.len() == 9 && "namespace"@[0] == 'n');
    reveal_strlit("username");
    assert("username"@.len() == 8 && "username"@[0] == 'u');
    reveal_with_fuel(field, 3);
}

proof fn lemma_subject(s: SubjectView)
    ensures
        subject_of(subject_json(s)) == Ok::<SubjectView, DecodeError>(s),
{
    reveal_strlit("Admin");
    assert("Admin"@.len() == 5 && "Admin"@[0] == 'A');
    reveal_strlit("Anon");
    assert("Anon"@.len() == 4 && "Anon"@[0] == 'A');
    reveal_strlit("UserOrRole");
    assert("UserOrRole"@.len() == 10 && "UserOrRole"@[0] == 'U');
}

proof fn lemma_object(o: ObjectView)
    ensures
        rbac_object_of(object_json(o)) == Ok::<ObjectView, DecodeError>(o),
{
    reveal_strlit("Namespace");
    assert("Namespace"@.len() == 9 && "Namespace"@[0] == 'N');
    reveal_strlit("Protocol");
    assert("Protocol"@.len() == 8 && "Protocol"@[0] == 'P');
    reveal_strlit("Topic");
    assert("Topic"@.len() == 5 && "Topic"@[0] == 'T');
    reveal_strlit("Client");
    assert("Client"@.len() == 6 && "Client"@[0] == 'C');
    reveal_strlit("Model");
    assert("Model"@.len() == 5 && "Model"@[0] == 'M');
    reveal_strlit("ExistingNamespace");
    assert("ExistingNamespace"@.len() == 17 && "ExistingNamespace"@[0] == 'E');
    reveal_strlit("NonExistingNamespace");
    assert("NonExistingNamespace"@.len() == 20 && "NonExistingNamespace"@[0] == 'N');
    reveal_strlit("NonExistingTopic");
    assert("NonExistingTopic"@.len() == 16 && "NonExistingTopic"@[0] == 'N');
    reveal_strlit("NamespaceTopic");
    assert("NamespaceTopic"@.len() == 14 && "NamespaceTopic"@[0] == 'N');
    match o {
        ObjectView::Protocol(p) => lemma_protocol(p),
        ObjectView::Client(c) => lemma_client(c),
        _ => {},
    }
}

proof fn lemma_policy(p: PolicyView)
    ensures
        policy_of(policy_json(p)) == Ok::<PolicyView, DecodeError>(p),
{
    reveal_strlit("subject");
    assert("subject"@.len() == 7 && "subject"@[0] == 's');
    reveal_strlit("object");
    assert("object"@.len() == 6 && "object"@[0] == 'o');
    reveal_strlit("action");
    assert("action"@.len() == 6 && "action"@[0] == 'a');
    reveal_with_fuel(field, 4);
    lemma_subject(p.subject);
    lemma_object(p.object);
    lemma_rbac_action(p.action);
}

/// Decoding the entries of a mapping in key order gives the mapping.
proof fn lemma_metadata(m: Seq<(Seq<char>, Seq<char>)>)
    requires
        sorted_keys(m),
    ensures
        metadata_of(metadata_json(m)->Object_0) == Ok::<_, DecodeError>(m),
    decreases m.len(),
{
    if m.len() > 0 {
        let p = m.drop_last();
        let e = metadata_json(m)->Object_0;
        assert(e.drop_last() =~= metadata_json(p)->Object_0);
        assert(sorted_keys(p)) by {
            assert forall|a: int, b: int| 0 <= a < b < p.len() implies key_less(
                (#[trigger] p[a]).0,
                (#[trigger] p[b]).0,
            ) by {
                assert(m[a] == p[a] && m[b] == p[b]);
            }
        }
        lemma_metadata(p);
        let kl = m.last().0;
        assert forall|x: int| 0 <= x < p.len() implies (#[trigger] p[x]).0 != kl && !key_less(
            kl,
            p[x].0,
        ) by {
            assert(m[x] == p[x]);
            assert(key_less(m[x].0, m[m.len() - 1].0));
            lemma_key_less_irreflexive(kl);
            lemma_key_less_asymmetric(kl, p[x].0);
        }
        lemma_put_prefix(p, kl, m.last().1, p.len() as int);
        assert(p.skip(p.len() as int) =~= Seq::<(Seq<char>, Seq<char>)>::empty());
        assert(e.last() == (m.last().0, Json::Str(m.last().1)));
        assert(p.take(p.len() as int) + seq![(kl, m.last().1)] =~= m);
    } else {
        assert(m =~= Seq::<(Seq<char>, Seq<char>)>::empty());
        assert(metadata_json(m)->Object_0 =~= Seq::<(Seq<char>, Json)>::empty());
    }
}

proof fn lemma_auth(a: AuthView)
    requires
        action_wf(ActionView::AuthBasedAction(a)),
    ensures
        auth_of(auth_json(a)) == Ok::<AuthView, DecodeError>(a),
{
    reveal_strlit("CreateUser");
    assert("CreateUser"@.len() == 10 && "CreateUser"@[0] == 'C');
    reveal_strlit("AddMetadataToUser");
    assert("AddMetadataToUser"@.len() == 17 && "AddMetadataToUser"@[0] == 'A');
    reveal_strlit("GrantPermissions");
    assert("GrantPermissions"@.len() == 16 && "GrantPermissions"@[0] == 'G');
    reveal_strlit("subject");
    assert("subject"@.len() == 7 && "subject"@[0] == 's');
    reveal_strlit("password");
    assert("password"@.len() == 8 && "password"@[0] == 'p');
    reveal_strlit("metadata");
    assert("metadata"@.len() == 8 && "metadata"@[0] == 'm');
    reveal_strlit("policy");
    assert("policy"@.len() == 6 && "policy"@[0] == 'p');
    reveal_with_fuel(field, 3);
    match a {
        AuthView::CreateUser { subject, .. } => lemma_user(subject),
        AuthView::AddMetadataToUser { subject, metadata } => {
            lemma_user(subject);
            lemma_metadata(metadata);
        },
        AuthView::GrantPermissions { subject, policy } => {
            lemma_user(subject);
            assert forall|i: int| 0 <= i < policy.len() implies (|i: Json| policy_of(i))(
                (|p: PolicyView| policy_json(p))(#[trigger] policy[i]),
            ) == Ok::<PolicyView, DecodeError>(policy[i]) by {
                lemma_policy(policy[i]);
            }
            lemma_decode_all_map(policy, |p: PolicyView| policy_json(p), |i: Json| policy_of(i));
        },
    }
}

/// An action, with conditional blocks nested to any depth up to `depth`,
/// decodes from its encoding with that depth allowed.
pub proof fn lemma_action_round_trip(a: ActionView, depth: nat)
    requires
        action_wf(a),
        nesting(a) <= depth,
    ensures
        action_of(action_json(a), depth) == Ok::<ActionView, DecodeError>(a),
    decreases a,
{
    reveal_strlit("AuthBasedAction");
    assert("AuthBasedAction"@.len() == 15 && "AuthBasedAction"@[0] == 'A');
    reveal_strlit("LogicBasedAction");
    assert("LogicBasedAction"@.len() == 16 && "LogicBasedAction"@[0] == 'L');
    reveal_strlit("ConditionBlock");
    assert("ConditionBlock"@.len() == 14 && "ConditionBlock"@[0] == 'C');
    reveal_strlit("condition");
    assert("condition"@.len() == 9 && "condition"@[0] == 'c');
    reveal_strlit("if_true");
    assert("if_true"@.len() == 7 && "if_true"@[0] == 'i');
    reveal_strlit("if_false");
    assert("if_false"@.len() == 8 && "if_false"@[0] == 'i');
    reveal_with_fuel(field, 4);
    match a {
        ActionView::AuthBasedAction(x) => lemma_auth(x),
        ActionView::LogicBasedAction(LogicView::ConditionBlock { condition, if_true, if_false }) => {
            lemma_condition(condition);
            lemma_action_round_trip(*if_true, (depth - 1) as nat);
            if let Some(b) = if_false {
                lemma_action_round_trip(*b, (depth - 1) as nat);
            }
        },
    }
}

proof fn lemma_http(h: HttpView)
    requires
        forall|k: int|
            0 <= k < h.actions.len() ==> action_wf(#[trigger] h.actions[k]) && nesting(
                h.actions[k],
            ) <= MAX_NESTING,
    ensures
        http_of(http_json(h)) == Ok::<HttpView, DecodeError>(h),
{
    reveal_strlit("sequence");
    assert("sequence"@.len() == 8 && "sequence"@[0] == 's');
    reveal_strlit("paths");
    assert("paths"@.len() == 5 && "paths"@[0] == 'p');
    reveal_strlit("methods");
    assert("methods"@.len() == 7 && "methods"@[0] == 'm');
    reveal_strlit("actions");
    assert("actions"@.len() == 7 && "actions"@[0] == 'a');
    reveal_with_fuel(field, 5);
    lemma_decimal(h.sequence as nat);
    assert(segment_value(decimal(h.sequence as nat)) == Some(h.sequence as u64));
    assert(sequence_of(Json::Number(decimal(h.sequence as nat))) == Ok::<u8, DecodeError>(
        h.sequence,
    ));
    lemma_decode_all_map(h.paths, |x: Seq<char>| Json::Str(x), |i: Json| crate::codec::str_of(i));
    assert forall|i: int| 0 <= i < h.methods.len() implies (|i: Json|
        crate::codec::unit_of(i, |s| method_named(s)))(
        (|m: RapidRecastHttpMethod| Json::Str(method_tag(m)))(#[trigger] h.methods[i]),
    ) == Ok::<RapidRecastHttpMethod, DecodeError>(h.methods[i]) by {
        lemma_method(h.methods[i]);
    }
    lemma_decode_all_map(
        h.methods,
        |m: RapidRecastHttpMethod| Json::Str(method_tag(m)),
        |i: Json| crate::codec::unit_of(i, |s| method_named(s)),
    );
    assert forall|i: int| 0 <= i < h.actions.len() implies (|i: Json|
        action_of(i, MAX_NESTING as nat))((|a: ActionView| action_json(a))(#[trigger] h.actions[i]))
        == Ok::<ActionView, DecodeError>(h.actions[i]) by {
        lemma_action_round_trip(h.actions[i], MAX_NESTING as nat);
    }
    lemma_decode_all_map(
        h.actions,
        |a: ActionView| action_json(a),
        |i: Json| action_of(i, MAX_NESTING as nat),
    );
}

/// A statement decodes from its tagged encoding: the tag picks the variant
/// and the payload gives its contents.
pub proof fn lemma_statement_round_trip(s: StatementView)
    requires
        match s {
            StatementView::ProtocolDefinition(ProtocolView::HttpProtocolDefinition(h)) => forall|
                k: int,
            |
                0 <= k < h.actions.len() ==> action_wf(#[trigger] h.actions[k]) && nesting(
                    h.actions[k],
                ) <= MAX_NESTING,
            _ => true,
        },
    ensures
        statement_of(statement_json(s)) == Ok::<StatementView, DecodeError>(s),
{
    reveal_strlit("ModelDefinition");
    assert("ModelDefinition"@.len() == 15 && "ModelDefinition"@[0] == 'M');
    reveal_strlit("ProtocolDefinition");
    assert("ProtocolDefinition"@.len() == 18 && "ProtocolDefinition"@[0] == 'P');
    reveal_strlit("TopicDefinition");
    assert("TopicDefinition"@.len() == 15 && "TopicDefinition"@[0] == 'T');
    reveal_strlit("CronDefinition");
    assert("CronDefinition"@.len() == 14 && "CronDefinition"@[0] == 'C');
    reveal_strlit("HttpProtocolDefinition");
    assert("HttpProtocolDefinition"@.len() == 22 && "HttpProtocolDefinition"@[0] == 'H');
    if let StatementView::ProtocolDefinition(ProtocolView::HttpProtocolDefinition(h)) = s {
        lemma_http(h);
    }
}

/// Decoding the JSON encoding of a definition gives the definition back,
/// for every definition whose metadata keys are in strictly increasing order
/// (the order in which JSON text gives them back) and whose conditional
/// blocks nest no deeper than the decoder allows.
#[verifier::rlimit(50)]
pub proof fn lemma_definition_round_trip(d: DefinitionView)
    requires
        definition_wf(d),
    ensures
        definition_of(definition_json(d)) == Ok::<DefinitionView, DecodeError>(d),
{
    reveal_strlit("id");
    assert("id"@.len() == 2 && "id"@[0] == 'i');
    reveal_strlit("language_version");
    assert("language_version"@.len() == 16 && "language_version"@[0] == 'l');
    reveal_strlit("file_version");
    assert("file_version"@.len() == 12 && "file_version"@[0] == 'f');
    reveal_strlit("name");
    assert("name"@.len() == 4 && "name"@[0] == 'n');
    reveal_strlit("description");
    assert("description"@.len() == 11 && "description"@[0] == 'd');
    reveal_strlit("ast");
    assert("ast"@.len() == 3 && "ast"@[0] == 'a');
    reveal_with_fuel(field, 7);
    let e = definition_json(d)->Object_0;
    assert(field(e, "id"@) == Some(Json::Str(d.id)));
    assert(field(e, "language_version"@) == Some(e[1].1));
    assert(field(e, "file_version"@) == Some(e[2].1));
    assert(field(e, "name"@) == Some(e[3].1));
    assert(field(e, "description"@) == Some(e[4].1));
    assert(field(e, "ast"@) == Some(e[5].1));
    lemma_version_round_trip(d.language_version);
    lemma_version_round_trip(d.file_version);
    assert forall|i: int| 0 <= i < d.ast.len() implies (|i: Json| statement_of(i))(
        (|s: StatementView| statement_json(s))(#[trigger] d.ast[i]),
    ) == Ok::<StatementView, DecodeError>(d.ast[i]) by {
        lemma_statement_round_trip(d.ast[i]);
    }
    lemma_decode_all_map(d.ast, |s: StatementView| statement_json(s), |i: Json| statement_of(i));
}

/// A statement whose tag names none of the statement kinds is refused, never
/// dropped.
pub proof fn lemma_unknown_statement_tag(tag: Seq<char>, payload: Json)
    requires
        tag != "ModelDefinition"@,
        tag != "ProtocolDefinition"@,
        tag != "TopicDefinition"@,
        tag != "CronDefinition"@,
    ensures
        statement_of(tagged(tag, payload)) == Err::<StatementView, DecodeError>(
            DecodeError::UnknownVariant,
        ),
{
}

/// The value that a metadata mapping gives `k`, if any: that of its first
/// entry with that key.
pub open spec fn value_for(m: Seq<(Seq<char>, Seq<char>)>, k: Seq<char>) -> Option<Seq<char>>
    decreases m.len(),
{
    if m.len() == 0 {
        None
    } else if m[0].0 == k {
        Some(m[0].1)
    } else {
        value_for(m.drop_first(), k)
    }
}

/// The string that the last entry with key `k` holds, if any.
pub open spec fn last_string(e: Seq<(Seq<char>, Json)>, k: Seq<char>) -> Option<Seq<char>> {
    match field(e, k) {
        Some(Json::Str(v)) => Some(v),
        _ => None,
    }
}

/// After `put(m, k, v)`, `k` has the value `v` and every other key keeps its
/// value.
proof fn lemma_value_for_put(
    m: Seq<(Seq<char>, Seq<char>)>,
    k: Seq<char>,
    v: Seq<char>,
    x: Seq<char>,
)
    ensures
        value_for(put(m, k, v), x) == if x == k {
            Some(v)
        } else {
            value_for(m, x)
        },
    decreases m.len(),
{
    let r = put(m, k, v);
    if m.len() == 0 {
        assert(r.drop_first() =~= m);
    } else if m[0].0 == k {
        assert(r.drop_first() =~= m.drop_first());
    } else if key_less(k, m[0].0) {
        assert(r.drop_first() =~= m);
    } else {
        lemma_value_for_put(m.drop_first(), k, v, x);
        assert(r.drop_first() =~= put(m.drop_first(), k, v));
    }
}

/// A key below `k` and below every key of `m` is below every key of
/// `put(m, k, v)`.
proof fn lemma_put_bound(m: Seq<(Seq<char>, Seq<char>)>, k: Seq<char>, v: Seq<char>, lb: Seq<char>)
    requires
        key_less(lb, k),
        forall|i: int| 0 <= i < m.len() ==> key_less(lb, (#[trigger] m[i]).0),
    ensures
        forall|i: int| 0 <= i < put(m, k, v).len() ==> key_less(lb, (#[trigger] put(m, k, v)[i]).0),
    decreases m.len(),
{
    let r = put(m, k, v);
    if m.len() > 0 && m[0].0 != k && !key_less(k, m[0].0) {
        let t = m.drop_first();
        assert forall|i: int| 0 <= i < t.len() implies key_less(lb, (#[trigger] t[i]).0) by {
            assert(t[i] == m[i + 1]);
        }
        lemma_put_bound(t, k, v, lb);
        assert forall|i: int| 0 <= i < r.len() implies key_less(lb, (#[trigger] r[i]).0) by {
            if i > 0 {
                assert(r[i] == put(t, k, v)[i - 1]);
            }
        }
    } else if m.len() > 0 && m[0].0 == k {
        assert forall|i: int| 0 <= i < r.len() implies key_less(lb, (#[trigger] r[i]).0) by {
            if i > 0 {
                assert(r[i] == m[i]);
            }
        }
    } else if m.len() > 0 {
        assert forall|i: int| 0 <= i < r.len() implies key_less(lb, (#[trigger] r[i]).0) by {
            if i > 0 {
                assert(r[i] == m[i - 1]);
            }
        }
    }
}

/// `put` keeps a mapping in key order.
proof fn lemma_put_sorted(m: Seq<(Seq<char>, Seq<char>)>, k: Seq<char>, v: Seq<char>)
    requires
        sorted_keys(m),
    ensures
        sorted_keys(put(m, k, v)),
    decreases m.len(),
{
    let r = put(m, k, v);
    if m.len() == 0 {
    } else if m[0].0 == k {
        assert forall|a: int, b: int| 0 <= a < b < r.len() implies key_less(
            (#[trigger] r[a]).0,
            (#[trigger] r[b]).0,
        ) by {
            assert(r[a].0 == m[a].0 && r[b].0 == m[b].0);
        }
    } else if key_less(k, m[0].0) {
        assert forall|a: int, b: int| 0 <= a < b < r.len() implies key_less(
            (#[trigger] r[a]).0,
            (#[trigger] r[b]).0,
        ) by {
            if a == 0 {
                if b > 1 {
                    assert(key_less(m[0].0, m[b - 1].0));
                    lemma_key_less_transitive(k, m[0].0, m[b - 1].0);
                }
            } else {
                assert(r[a] == m[a - 1] && r[b] == m[b - 1]);
            }
        }
    } else {
        let t = m.drop_first();
        assert(sorted_keys(t)) by {
            assert forall|a: int, b: int| 0 <= a < b < t.len() implies key_less(
                (#[trigger] t[a]).0,
                (#[trigger] t[b]).0,
            ) by {
                assert(t[a] == m[a + 1] && t[b] == m[b + 1]);
            }
        }
        lemma_put_sorted(t, k, v);
        lemma_key_less_total(m[0].0, k);
        assert forall|i: int| 0 <= i < t.len() implies key_less(m[0].0, (#[trigger] t[i]).0) by {
            assert(t[i] == m[i + 1]);
        }
        lemma_put_bound(t, k, v, m[0].0);
        assert forall|a: int, b: int| 0 <= a < b < r.len() implies key_less(
            (#[trigger] r[a]).0,
            (#[trigger] r[b]).0,
        ) by {
            assert(r[b] == put(t, k, v)[b - 1]);
            if a > 0 {
                assert(r[a] == put(t, k, v)[a - 1]);
            }
        }
    }
}

/// Decoded metadata is in key order, and each key has the value of the last
/// entry with that key in the source.
pub proof fn lemma_metadata_last_wins(e: Seq<(Seq<char>, Json)>)
    ensures
        metadata_of(e) matches Ok(m) ==> sorted_keys(m) && forall|k: Seq<char>|
            #[trigger] value_for(m, k) == last_string(e, k),
    decreases e.len(),
{
    if e.len() > 0 {
        lemma_metadata_last_wins(e.drop_last());
        if let Ok(m) = metadata_of(e) {
            let p = metadata_of(e.drop_last())->Ok_0;
            let kl = e.last().0;
            let vl = e.last().1->Str_0;
            assert(m == put(p, kl, vl));
            lemma_put_sorted(p, kl, vl);
            assert forall|k: Seq<char>| #[trigger] value_for(m, k) == last_string(e, k) by {
                lemma_value_for_put(p, kl, vl, k);
                assert(value_for(p, k) == last_string(e.drop_last(), k));
            }
        }
    }
}

/// A key below every key of a mapping has no value in it.
proof fn lemma_value_for_below(m: Seq<(Seq<char>, Seq<char>)>, k: Seq<char>)
    requires
        forall|i: int| 0 <= i < m.len() ==> key_less(k, (#[trigger] m[i]).0),
    ensures
        value_for(m, k) is None,
    decreases m.len(),
{
    if m.len() > 0 {
        lemma_key_less_irreflexive(k);
        let t = m.drop_first();
        assert forall|i: int| 0 <= i < t.len() implies key_less(k, (#[trigger] t[i]).0) by {
            assert(t[i] == m[i + 1]);
        }
        lemma_value_for_below(t, k);
    }
}

/// Two mappings in key order that give every key the same value are equal.
proof fn lemma_sorted_equal(m1: Seq<(Seq<char>, Seq<char>)>, m2: Seq<(Seq<char>, Seq<char>)>)
    requires
        sorted_keys(m1),
        sorted_keys(m2),
        forall|k: Seq<char>| #[trigger] value_for(m1, k) == value_for(m2, k),
    ensures
        m1 == m2,
    decreases m1.len(),
{
    if m1.len() == 0 && m2.len() > 0 {
        assert(value_for(m2, m2[0].0) is Some);
        assert(value_for(m1, m2[0].0) is None);
    } else if m1.len() > 0 && m2.len() == 0 {
        assert(value_for(m1, m1[0].0) is Some);
        assert(value_for(m2, m1[0].0) is None);
    } else if m1.len() == 0 {
        assert(m1 =~= m2);
    } else {
        let (k1, k2) = (m1[0].0, m2[0].0);
        let (t1, t2) = (m1.drop_first(), m2.drop_first());
        assert forall|i: int| 0 <= i < t1.len() implies key_less(k1, (#[trigger] t1[i]).0) by {
            assert(t1[i] == m1[i + 1]);
        }
        assert forall|i: int| 0 <= i < t2.len() implies key_less(k2, (#[trigger] t2[i]).0) by {
            assert(t2[i] == m2[i + 1]);
        }
        if k1 != k2 {
            lemma_key_less_total(k1, k2);
            if key_less(k1, k2) {
                assert forall|i: int| 0 <= i < t2.len() implies key_less(k1, (#[trigger] t2[i]).0) by {
                    lemma_key_less_transitive(k1, k2, t2[i].0);
                }
                lemma_value_for_below(t2, k1);
                assert(value_for(m2, k1) == value_for(t2, k1));
                assert(value_for(m1, k1) is Some);
            } else {
                assert forall|i: int| 0 <= i < t1.len() implies key_less(k2, (#[trigger] t1[i]).0) by {
                    lemma_key_less_transitive(k2, k1, t1[i].0);
                }
                lemma_value_for_below(t1, k2);
                assert(value_for(m1, k2) == value_for(t1, k2));
                assert(value_for(m2, k2) is Some);
            }
        } else {
            assert(value_for(m1, k1) == value_for(m2, k1));
            lemma_value_for_below(t1, k1);
            lemma_value_for_below(t2, k1);
            assert forall|k: Seq<char>| #[trigger] value_for(t1, k) == value_for(t2, k) by {
                assert(value_for(m1, k) == value_for(m2, k));
                if k != k1 {
                    assert(value_for(m1, k) == value_for(t1, k));
                    assert(value_for(m2, k) == value_for(t2, k));
                }
            }
            assert(sorted_keys(t1)) by {
                assert forall|a: int, b: int| 0 <= a < b < t1.len() implies key_less(
                    (#[trigger] t1[a]).0,
                    (#[trigger] t1[b]).0,
                ) by {
                    assert(t1[a] == m1[a + 1] && t1[b] == m1[b + 1]);
                }
            }
            assert(sorted_keys(t2)) by {
                assert forall|a: int, b: int| 0 <= a < b < t2.len() implies key_less(
                    (#[trigger] t2[a]).0,
                    (#[trigger] t2[b]).0,
                ) by {
                    assert(t2[a] == m2[a + 1] && t2[b] == m2[b + 1]);
                }
            }
            lemma_sorted_equal(t1, t2);
            assert(m1[0] == m2[0]);
            assert(m1 =~= seq![m1[0]] + t1);
            assert(m2 =~= seq![m2[0]] + t2);
        }
    }
}

/// The order of metadata entries with distinct keys has no effect: two
/// sources whose last entries agree on every key decode to the same mapping.
pub proof fn lemma_metadata_order(e1: Seq<(Seq<char>, Json)>, e2: Seq<(Seq<char>, Json)>)
    requires
        forall|k: Seq<char>| #[trigger] field(e1, k) == field(e2, k),
        metadata_of(e1) is Ok,
        metadata_of(e2) is Ok,
    ensures
        metadata_of(e1) == metadata_of(e2),
{
    lemma_metadata_last_wins(e1);
    lemma_metadata_last_wins(e2);
    let m1 = metadata_of(e1)->Ok_0;
    let m2 = metadata_of(e2)->Ok_0;
    assert forall|k: Seq<char>| #[trigger] value_for(m1, k) == value_for(m2, k) by {
        assert(field(e1, k) == field(e2, k));
        assert(value_for(m1, k) == last_string(e1, k));
        assert(value_for(m2, k) == last_string(e2, k));
    }
    lemma_sorted_equal(m1, m2);
}

proof fn lemma_object_plain(e: Seq<(Seq<char>, Json)>)
    requires
        forall|i: int| 0 <= i < e.len() ==> numbers_plain(#[trigger] e[i].1),
    ensures
        numbers_plain(Json::Object(e)),
{
}

proof fn lemma_array_plain(a: Seq<Json>)
    requires
        forall|i: int| 0 <= i < a.len() ==> numbers_plain(#[trigger] a[i]),
    ensures
        numbers_plain(Json::Array(a)),
{
}

proof fn lemma_tagged_plain(tag: Seq<char>, payload: Json)
    requires
        numbers_plain(payload),
    ensures
        numbers_plain(tagged(tag, payload)),
{
    lemma_object_plain(seq![(tag, payload)]);
}

/// The decimal text of a sequence number is a plain number.
proof fn lemma_sequence_plain(n: u8)
    ensures
        plain_number(decimal(n as nat)),
{
    let t = decimal(n as nat);
    lemma_decimal(n as nat);
    reveal_with_fuel(decimal, 3);
    if n >= 10 {
        assert(decimal((n / 10) as nat)[0] != '0') by {
            reveal_with_fuel(decimal, 3);
        }
        assert(t[0] == decimal((n / 10) as nat)[0]);
    }
    assert(t.len() <= 3);
    crate::version::lemma_no_dot(t, 0);
    assert(t.subrange(0, t.len() as int) =~= t);
}

proof fn lemma_value_plain(v: ValueView)
    requires
        value_plain(v),
    ensures
        numbers_plain(value_json(v)),
{
    match v {
        ValueView::Param(s) => lemma_tagged_plain("Param"@, Json::Str(s)),
        ValueView::Str(s) => lemma_tagged_plain("String"@, Json::Str(s)),
        ValueView::Number(t) => lemma_tagged_plain("Number"@, Json::Number(t)),
    }
}

proof fn lemma_condition_plain(c: ConditionView)
    requires
        condition_plain(c),
    ensures
        numbers_plain(condition_json(c)),
{
    match c {
        ConditionView::Equals(a, b) | ConditionView::NotEquals(a, b)
        | ConditionView::GreaterThan(a, b) | ConditionView::LessThan(a, b)
        | ConditionView::GreaterThanOrEqual(a, b) | ConditionView::LessThanOrEqual(a, b)
        | ConditionView::And(a, b) | ConditionView::Or(a, b) => {
            lemma_value_plain(a);
            lemma_value_plain(b);
            lemma_array_plain(seq![value_json(a), value_json(b)]);
            lemma_tagged_plain(crate::codec::condition_tag(c), Json::Array(seq![value_json(a), value_json(b)]));
        },
        ConditionView::Not(a) => {
            lemma_value_plain(a);
            lemma_tagged_plain("Not"@, value_json(a));
        },
    }
}

proof fn lemma_user_plain(u: UserView)
    ensures
        numbers_plain(user_json(u)),
{
    lemma_object_plain(seq![("namespace"@, Json::Str(u.namespace)), ("username"@, Json::Str(u.username))]);
}

proof fn lemma_pair_plain(a: Seq<char>, b: Seq<char>)
    ensures
        numbers_plain(crate::codec::pair_json(a, b)),
{
    lemma_array_plain(seq![Json::Str(a), Json::Str(b)]);
}

proof fn lemma_policy_plain(p: PolicyView)
    ensures
        numbers_plain(policy_json(p)),
{
    let s = subject_json(p.subject);
    assert(numbers_plain(s)) by {
        if let SubjectView::UserOrRole(n, u) = p.subject {
            lemma_pair_plain(n, u);
            lemma_tagged_plain("UserOrRole"@, crate::codec::pair_json(n, u));
        }
    }
    let o = object_json(p.object);
    assert(numbers_plain(o)) by {
        match p.object {
            ObjectView::Namespace(n) => {
                let inner = match n {
                    crate::action::NamespaceView::ExistingNamespace(x) => tagged("ExistingNamespace"@, Json::Str(x)),
                    crate::action::NamespaceView::NonExistingNamespace(x) => tagged("NonExistingNamespace"@, Json::Str(x)),
                };
                match n {
                    crate::action::NamespaceView::ExistingNamespace(x) => lemma_tagged_plain("ExistingNamespace"@, Json::Str(x)),
                    crate::action::NamespaceView::NonExistingNamespace(x) => lemma_tagged_plain("NonExistingNamespace"@, Json::Str(x)),
                }
                lemma_tagged_plain("Namespace"@, inner);
            },
            ObjectView::Protocol(x) => lemma_tagged_plain("Protocol"@, Json::Str(protocol_tag(x))),
            ObjectView::Topic(t) => {
                let inner = match t {
                    crate::action::TopicView::NonExistingTopic(x) => tagged("NonExistingTopic"@, Json::Str(x)),
                    crate::action::TopicView::NamespaceTopic(n, x) => tagged("NamespaceTopic"@, crate::codec::pair_json(n, x)),
                };
                match t {
                    crate::action::TopicView::NonExistingTopic(x) => lemma_tagged_plain("NonExistingTopic"@, Json::Str(x)),
                    crate::action::TopicView::NamespaceTopic(n, x) => {
                        lemma_pair_plain(n, x);
                        lemma_tagged_plain("NamespaceTopic"@, crate::codec::pair_json(n, x));
                    },
                }
                lemma_tagged_plain("Topic"@, inner);
            },
            ObjectView::Client(x) => lemma_tagged_plain("Client"@, Json::Str(client_tag(x))),
            ObjectView::Model(_) => {
                lemma_object_plain(Seq::empty());
                lemma_tagged_plain("Model"@, Json::Object(Seq::empty()));
            },
        }
    }
    lemma_object_plain(seq![("subject"@, s), ("object"@, o), ("action"@, Json::Str(rbac_action_tag(p.action)))]);
}

proof fn lemma_auth_plain(a: AuthView)
    ensures
        numbers_plain(auth_json(a)),
{
    match a {
        AuthView::CreateUser { subject, password } => {
            lemma_user_plain(subject);
            let e = seq![("subject"@, user_json(subject)), ("password"@, crate::codec::opt_json(password))];
            lemma_object_plain(e);
            lemma_tagged_plain("CreateUser"@, Json::Object(e));
        },
        AuthView::AddMetadataToUser { subject, metadata } => {
            lemma_user_plain(subject);
            let me = metadata_json(metadata)->Object_0;
            lemma_object_plain(me);
            let e = seq![("subject"@, user_json(subject)), ("metadata"@, metadata_json(metadata))];
            lemma_object_plain(e);
            lemma_tagged_plain("AddMetadataToUser"@, Json::Object(e));
        },
        AuthView::GrantPermissions { subject, policy } => {
            lemma_user_plain(subject);
            let ps = policy.map_values(|p: PolicyView| policy_json(p));
            assert forall|i: int| 0 <= i < ps.len() implies numbers_plain(#[trigger] ps[i]) by {
                lemma_policy_plain(policy[i]);
            }
            lemma_array_plain(ps);
            let e = seq![("subject"@, user_json(subject)), ("policy"@, Json::Array(ps))];
            lemma_object_plain(e);
            lemma_tagged_plain("GrantPermissions"@, Json::Object(e));
        },
    }
}

proof fn lemma_action_plain(a: ActionView)
    requires
        action_plain(a),
    ensures
        numbers_plain(action_json(a)),
    decreases a,
{
    match a {
        ActionView::AuthBasedAction(x) => {
            lemma_auth_plain(x);
            lemma_tagged_plain("AuthBasedAction"@, auth_json(x));
        },
        ActionView::LogicBasedAction(LogicView::ConditionBlock { condition, if_true, if_false }) => {
            lemma_condition_plain(condition);
            lemma_action_plain(*if_true);
            let f = match if_false {
                Some(b) => action_json(*b),
                None => Json::Null,
            };
            if let Some(b) = if_false {
                lemma_action_plain(*b);
            }
            let e = seq![
                ("condition"@, condition_json(condition)),
                ("if_true"@, action_json(*if_true)),
                ("if_false"@, f),
            ];
            lemma_object_plain(e);
            lemma_tagged_plain("ConditionBlock"@, Json::Object(e));
            lemma_tagged_plain("LogicBasedAction"@, tagged("ConditionBlock"@, Json::Object(e)));
            let whole = tagged("LogicBasedAction"@, tagged("ConditionBlock"@, Json::Object(e)));
            assert(action_json(a)->Object_0[0].1->Object_0[0].1->Object_0 =~= e);
            assert(action_json(a) == whole);
        },
    }
}

proof fn lemma_http_plain(h: HttpView)
    requires
        forall|k: int| 0 <= k < h.actions.len() ==> action_plain(#[trigger] h.actions[k]),
    ensures
        numbers_plain(http_json(h)),
{
    lemma_sequence_plain(h.sequence);
    let paths = h.paths.map_values(|x: Seq<char>| Json::Str(x));
    lemma_array_plain(paths);
    let methods = h.methods.map_values(|m: RapidRecastHttpMethod| Json::Str(method_tag(m)));
    lemma_array_plain(methods);
    let actions = h.actions.map_values(|a: ActionView| action_json(a));
    assert forall|i: int| 0 <= i < actions.len() implies numbers_plain(#[trigger] actions[i]) by {
        lemma_action_plain(h.actions[i]);
    }
    lemma_array_plain(actions);
    lemma_object_plain(
        seq![
            ("sequence"@, Json::Number(decimal(h.sequence as nat))),
            ("paths"@, Json::Array(paths)),
            ("methods"@, Json::Array(methods)),
            ("actions"@, Json::Array(actions)),
        ],
    );
}

/// A definition whose number literals are all plain encodes to a JSON value
/// whose numbers are all plain, which the text writer always accepts.
pub proof fn lemma_definition_plain(d: DefinitionView)
    requires
        definition_plain(d),
    ensures
        numbers_plain(definition_json(d)),
{
    let ast = d.ast.map_values(|s: StatementView| statement_json(s));
    assert forall|i: int| 0 <= i < ast.len() implies numbers_plain(#[trigger] ast[i]) by {
        let s = d.ast[i];
        lemma_object_plain(Seq::empty());
        match s {
            StatementView::ProtocolDefinition(ProtocolView::HttpProtocolDefinition(h)) => {
                lemma_http_plain(h);
                lemma_tagged_plain("HttpProtocolDefinition"@, http_json(h));
                lemma_tagged_plain("ProtocolDefinition"@, tagged("HttpProtocolDefinition"@, http_json(h)));
            },
            StatementView::ModelDefinition(_) => lemma_tagged_plain("ModelDefinition"@, Json::Object(Seq::empty())),
            StatementView::TopicDefinition(_) => lemma_tagged_plain("TopicDefinition"@, Json::Object(Seq::empty())),
            StatementView::CronDefinition(_) => lemma_tagged_plain("CronDefinition"@, Json::Object(Seq::empty())),
        }
    }
    lemma_array_plain(ast);
    lemma_object_plain(
        seq![
            ("id"@, Json::Str(d.id)),
            ("language_version"@, crate::codec::version_json(d.language_version)),
            ("file_version"@, crate::codec::version_json(d.file_version)),
            ("name"@, crate::codec::opt_json(d.name)),
            ("description"@, crate::codec::opt_json(d.description)),
            ("ast"@, Json::Array(ast)),
        ],
    );
}

} // verus!
