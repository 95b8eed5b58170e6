//! Building the JSON value of a definition.

use crate::action::{
    ActionView,
    action_view, logic_view, pairs_view, AuthBasedAction, ClientObject, ConditionStatement,
    LogicBasedAction, NamespaceObject, RapidRecastAction, RapidRecastRbacAction,
    RapidRecastRbacObject, RapidRecastRbacPolicy, RapidRecastRbacSubject, RecastValue,
    TopicObject, UserIdentifier,
};
use crate::ast::{
    HttpStatement, RapidAstStatement, RapidProtocolDefinition, RapidRecastDefinition,
    RapidRecastHttpMethod, RapidRecastProtocolType,
};
use crate::codec::{
    action_json, auth_json, client_tag, condition_json, definition_json, http_json,
    metadata_json, method_tag, object_json, opt_json, pair_json, policy_json, protocol_tag,
    rbac_action_tag, statement_json, subject_json, tagged, user_json, value_json,
};
use crate::json::{array_of, entries_view, object_of, string_of, Json, JsonValue};
use vstd::prelude::*;

verus! {

fn tag_value(tag: &str, payload: JsonValue) -> (r: JsonValue)
    ensures
        r@ == tagged(tag@, payload@),
{
    let e = vec![(String::from_str(tag), payload)];
    assert(entries_view(e@) =~= seq![(tag@, payload@)]);
    object_of(e)
}

fn entry(key: &str, v: JsonValue) -> (r: (String, JsonValue))
    ensures
        r.0@ == key@,
        r.1@ == v@,
{
    (String::from_str(key), v)
}

fn opt_value(s: &Option<String>) -> (r: JsonValue)
    ensures
        r@ == opt_json(crate::ast::opt_view(s)),
{
    match s {
        Some(x) => string_of(x.as_str()),
        None => JsonValue::Null,
    }
}

fn pair_value(a: &String, b: &String) -> (r: JsonValue)
    ensures
        r@ == pair_json(a@, b@),
{
    let items = vec![string_of(a.as_str()), string_of(b.as_str())];
    let r = array_of(items);
    assert(items@.map_values(|x: JsonValue| x@) =~= seq![Json::Str(a@), Json::Str(b@)]);
    r
}

fn method_name(m: RapidRecastHttpMethod) -> (r: &'static str)
    ensures
        r@ == method_tag(m),
{
    match m {
        RapidRecastHttpMethod::GET => "GET",
        RapidRecastHttpMethod::POST => "POST",
        RapidRecastHttpMethod::DELETE => "DELETE",
        RapidRecastHttpMethod::UPDATE => "UPDATE",
        RapidRecastHttpMethod::PATCH => "PATCH",
        RapidRecastHttpMethod::PUT => "PUT",
        RapidRecastHttpMethod::OPTIONS => "OPTIONS",
        RapidRecastHttpMethod::HEAD => "HEAD",
        RapidRecastHttpMethod::CONNECT => "CONNECT",
        RapidRecastHttpMethod::TRACE => "TRACE",
    }
}

fn protocol_name(p: RapidRecastProtocolType) -> (r: &'static str)
    ensures
        r@ == protocol_tag(p),
{
    match p {
        RapidRecastProtocolType::HTTP => "HTTP",
        RapidRecastProtocolType::WebSocket => "WebSocket",
        RapidRecastProtocolType::Kafka => "Kafka",
        RapidRecastProtocolType::RabbitMQ => "RabbitMQ",
        RapidRecastProtocolType::Grpc => "Grpc",
    }
}

fn client_name(c: ClientObject) -> (r: &'static str)
    ensures
        r@ == client_tag(c),
{
    match c {
        ClientObject::Http1 => "Http1",
        ClientObject::Http2 => "Http2",
        ClientObject::Http3 => "Http3",
        ClientObject::Kafka => "Kafka",
        ClientObject::Mqtt => "Mqtt",
    }
}

fn rbac_action_name(a: RapidRecastRbacAction) -> (r: &'static str)
    ensures
        r@ == rbac_action_tag(a),
{
    match a {
        RapidRecastRbacAction::Create => "Create",
        RapidRecastRbacAction::Read => "Read",
        RapidRecastRbacAction::Update => "Update",
        RapidRecastRbacAction::Delete => "Delete",
        RapidRecastRbacAction::Write => "Write",
        RapidRecastRbacAction::List => "List",
        RapidRecastRbacAction::Rename => "Rename",
    }
}

fn value_value(v: &RecastValue) -> (r: JsonValue)
    ensures
        r@ == value_json(v@),
{
    match v {
        RecastValue::Param(s) => tag_value("Param", string_of(s.as_str())),
        RecastValue::String(s) => tag_value("String", string_of(s.as_str())),
        RecastValue::Number(t) => tag_value("Number", JsonValue::Number(t.clone())),
    }
}

fn binary_value(tag: &str, a: &RecastValue, b: &RecastValue) -> (r: JsonValue)
    ensures
        r@ == tagged(tag@, Json::Array(seq![value_json(a@), value_json(b@)])),
{
    let items = vec![value_value(a), value_value(b)];
    assert(items@.map_values(|x: JsonValue| x@) =~= seq![value_json(a@), value_json(b@)]);
    tag_value(tag, array_of(items))
}

fn condition_value(c: &ConditionStatement) -> (r: JsonValue)
    ensures
        r@ == condition_json(c@),
{
    match c {
        ConditionStatement::Equals(a, b) => binary_value("Equals", a, b),
        ConditionStatement::NotEquals(a, b) => binary_value("NotEquals", a, b),
        ConditionStatement::GreaterThan(a, b) => binary_value("GreaterThan", a, b),
        ConditionStatement::LessThan(a, b) => binary_value("LessThan", a, b),
        ConditionStatement::GreaterThanOrEqual(a, b) => binary_value("GreaterThanOrEqual", a, b),
        ConditionStatement::LessThanOrEqual(a, b) => binary_value("LessThanOrEqual", a, b),
        ConditionStatement::And(a, b) => binary_value("And", a, b),
        ConditionStatement::Or(a, b) => binary_value("Or", a, b),
        ConditionStatement::Not(a) => tag_value("Not", value_value(a)),
    }
}

fn user_value(u: &UserIdentifier) -> (r: JsonValue)
    ensures
        r@ == user_json(u@),
{
    let e = vec![
        entry("namespace", string_of(u.namespace.as_str())),
        entry("username", string_of(u.username.as_str())),
    ];
    assert(entries_view(e@) =~= seq![
        ("namespace"@, Json::Str(u.namespace@)),
        ("username"@, Json::Str(u.username@)),
    ]);
    object_of(e)
}

fn subject_value(s: &RapidRecastRbacSubject) -> (r: JsonValue)
    ensures
        r@ == subject_json(s@),
{
    match s {
        RapidRecastRbacSubject::Admin => string_of("Admin"),
        RapidRecastRbacSubject::Anon => string_of("Anon"),
        RapidRecastRbacSubject::UserOrRole(n, u) => tag_value("UserOrRole", pair_value(n, u)),
    }
}

fn object_value(o: &RapidRecastRbacObject) -> (r: JsonValue)
    ensures
        r@ == object_json(o@),
{
    match o {
        RapidRecastRbacObject::Namespace(n) => {
            let inner = match n {
                NamespaceObject::ExistingNamespace(x) => tag_value(
                    "ExistingNamespace",
                    string_of(x.as_str()),
                ),
                NamespaceObject::NonExistingNamespace(x) => tag_value(
                    "NonExistingNamespace",
                    string_of(x.as_str()),
                ),
            };
            tag_value("Namespace", inner)
        },
        RapidRecastRbacObject::Protocol(p) => tag_value("Protocol", string_of(protocol_name(*p))),
        RapidRecastRbacObject::Topic(t) => {
            let inner = match t {
                TopicObject::NonExistingTopic(x) => tag_value(
                    "NonExistingTopic",
                    string_of(x.as_str()),
                ),
                TopicObject::NamespaceTopic(n, x) => tag_value("NamespaceTopic", pair_value(n, x)),
            };
            tag_value("Topic", inner)
        },
        RapidRecastRbacObject::Client(c) => tag_value("Client", string_of(client_name(*c))),
        RapidRecastRbacObject::Model(_) => {
            let empty = object_of(Vec::new());
            assert(entries_view(Seq::<(String, JsonValue)>::empty()) =~= Seq::empty());
            tag_value("Model", empty)
        },
    }
}

fn policy_value(p: &RapidRecastRbacPolicy) -> (r: JsonValue)
    ensures
        r@ == policy_json(p@),
{
    let e = vec![
        entry("subject", subject_value(&p.subject)),
        entry("object", object_value(&p.object)),
        entry("action", string_of(rbac_action_name(p.action))),
    ];
    assert(entries_view(e@) =~= seq![
        ("subject"@, subject_json(p@.subject)),
        ("object"@, object_json(p@.object)),
        ("action"@, Json::Str(rbac_action_tag(p.action))),
    ]);
    object_of(e)
}

fn metadata_value(m: &Vec<(String, String)>) -> (r: JsonValue)
    ensures
        r@ == metadata_json(pairs_view(m@)),
{
    let mut e: Vec<(String, JsonValue)> = Vec::new();
    let ghost want = pairs_view(m@).map_values(|p: (Seq<char>, Seq<char>)| (p.0, Json::Str(p.1)));
    let mut i: usize = 0;
    while i < m.len()
        invariant
            i <= m.len(),
            want == pairs_view(m@).map_values(|p: (Seq<char>, Seq<char>)| (p.0, Json::Str(p.1))),
            e.len() == i,
            forall|k: int| 0 <= k < i ==> (#[trigger] e@[k]).0@ == want[k].0 && e@[k].1@ == want[k].1,
        decreases m.len() - i,
    {
        e.push(entry(m[i].0.as_str(), string_of(m[i].1.as_str())));
        i = i + 1;
    }
    assert(entries_view(e@) =~= want);
    object_of(e)
}

fn policies_value(ps: &Vec<RapidRecastRbacPolicy>) -> (r: JsonValue)
    ensures
        r@ == Json::Array(
            ps@.map_values(|p: RapidRecastRbacPolicy| p@).map_values(|p| policy_json(p)),
        ),
{
    let mut items: Vec<JsonValue> = Vec::new();
    let ghost want = ps@.map_values(|p: RapidRecastRbacPolicy| p@).map_values(|p| policy_json(p));
    let mut i: usize = 0;
    while i < ps.len()
        invariant
            i <= ps.len(),
            want == ps@.map_values(|p: RapidRecastRbacPolicy| p@).map_values(|p| policy_json(p)),
            items.len() == i,
            forall|k: int| 0 <= k < i ==> #[trigger] items@[k]@ == want[k],
        decreases ps.len() - i,
    {
        items.push(policy_value(&ps[i]));
        i = i + 1;
    }
    assert(items@.map_values(|x: JsonValue| x@) =~= want);
    array_of(items)
}

fn auth_value(a: &AuthBasedAction) -> (r: JsonValue)
    ensures
        r@ == auth_json(a@),
{
    match a {
        AuthBasedAction::CreateUser { subject, password } => {
            let e = vec![entry("subject", user_value(subject)), entry("password", opt_value(password))];
            assert(entries_view(e@) =~= seq![
                ("subject"@, user_json(subject@)),
                ("password"@, opt_json(crate::ast::opt_view(password))),
            ]);
            tag_value("CreateUser", object_of(e))
        },
        AuthBasedAction::AddMetadataToUser { subject, metadata } => {
            let e = vec![entry("subject", user_value(subject)), entry("metadata", metadata_value(metadata))];
            assert(entries_view(e@) =~= seq![
                ("subject"@, user_json(subject@)),
                ("metadata"@, metadata_json(pairs_view(metadata@))),
            ]);
            tag_value("AddMetadataToUser", object_of(e))
        },
        AuthBasedAction::GrantPermissions { subject, policy } => {
            let e = vec![entry("subject", user_value(subject)), entry("policy", policies_value(policy))];
            let ghost pv = policy@.map_values(|p: RapidRecastRbacPolicy| p@);
            assert(entries_view(e@) =~= seq![
                ("subject"@, user_json(subject@)),
                ("policy"@, Json::Array(pv.map_values(|p| policy_json(p)))),
            ]);
            tag_value("GrantPermissions", object_of(e))
        },
    }
}

fn action_value(a: &RapidRecastAction) -> (r: JsonValue)
    ensures
        r@ == action_json(action_view(a)),
    decreases a,
{
    match a {
        RapidRecastAction::AuthBasedAction(x) => tag_value("AuthBasedAction", auth_value(x)),
        RapidRecastAction::LogicBasedAction(x) => tag_value("LogicBasedAction", logic_value(x)),
    }
}

fn logic_value(l: &LogicBasedAction) -> (r: JsonValue)
    ensures
        tagged("LogicBasedAction"@, r@) == action_json(ActionView::LogicBasedAction(logic_view(l))),
    decreases l,
{
    match l {
        LogicBasedAction::ConditionBlock { condition, if_true, if_false } => {
            let f = match if_false {
                Some(b) => action_value(&**b),
                None => JsonValue::Null,
            };
            let e = vec![
                entry("condition", condition_value(condition)),
                entry("if_true", action_value(&**if_true)),
                entry("if_false", f),
            ];
            let ghost fv = match if_false {
                Some(b) => action_json(action_view(&**b)),
                None => Json::Null,
            };
            assert(entries_view(e@) =~= seq![
                ("condition"@, condition_json(condition@)),
                ("if_true"@, action_json(action_view(&**if_true))),
                ("if_false"@, fv),
            ]);
            let r = tag_value("ConditionBlock", object_of(e));
            let ghost av = ActionView::LogicBasedAction(logic_view(l));
            assert(action_json(av)->Object_0[0].1->Object_0[0].1->Object_0 =~= entries_view(e@));
            r
        },
    }
}

fn http_value(h: &HttpStatement) -> (r: JsonValue)
    ensures
        r@ == http_json(h@),
{
    let mut paths: Vec<JsonValue> = Vec::new();
    let mut i: usize = 0;
    while i < h.paths.len()
        invariant
            i <= h.paths.len(),
            paths.len() == i,
            forall|k: int| 0 <= k < i ==> #[trigger] paths@[k]@ == h@.paths.map_values(
                |x: Seq<char>| Json::Str(x),
            )[k],
        decreases h.paths.len() - i,
    {
        paths.push(string_of(h.paths[i].as_str()));
        i = i + 1;
    }
    assert(paths@.map_values(|x: JsonValue| x@) =~= h@.paths.map_values(
                |x: Seq<char>| Json::Str(x),
            ));
    let mut methods: Vec<JsonValue> = Vec::new();
    let mut i: usize = 0;
    while i < h.methods.len()
        invariant
            i <= h.methods.len(),
            methods.len() == i,
            forall|k: int| 0 <= k < i ==> #[trigger] methods@[k]@ == h@.methods.map_values(
                |m: RapidRecastHttpMethod| Json::Str(method_tag(m)),
            )[k],
        decreases h.methods.len() - i,
    {
        methods.push(string_of(method_name(h.methods[i])));
        i = i + 1;
    }
    assert(methods@.map_values(|x: JsonValue| x@) =~= h@.methods.map_values(
                |m: RapidRecastHttpMethod| Json::Str(method_tag(m)),
            ));
    let mut actions: Vec<JsonValue> = Vec::new();
    let mut i: usize = 0;
    while i < h.actions.len()
        invariant
            i <= h.actions.len(),
            actions.len() == i,
            forall|k: int| 0 <= k < i ==> #[trigger] actions@[k]@ == h@.actions.map_values(
                |a| action_json(a),
            )[k],
        decreases h.actions.len() - i,
    {
        actions.push(action_value(&h.actions[i]));
        i = i + 1;
    }
    assert(actions@.map_values(|x: JsonValue| x@) =~= h@.actions.map_values(
                |a| action_json(a),
            ));
    let e = vec![
        entry("sequence", JsonValue::Number(crate::version::u64_text(h.sequence as u64))),
        entry("paths", array_of(paths)),
        entry("methods", array_of(methods)),
        entry("actions", array_of(actions)),
    ];
    assert(entries_view(e@) =~= seq![
        ("sequence"@, Json::Number(crate::version::decimal(h.sequence as nat))),
        ("paths"@, crate::codec::strings_json(h@.paths)),
        ("methods"@, Json::Array(h@.methods.map_values(|m: RapidRecastHttpMethod| Json::Str(method_tag(m))))),
        ("actions"@, Json::Array(h@.actions.map_values(|a| action_json(a)))),
    ]);
    object_of(e)
}

fn statement_value(s: &RapidAstStatement) -> (r: JsonValue)
    ensures
        r@ == statement_json(s@),
{
    match s {
        RapidAstStatement::ProtocolDefinition(RapidProtocolDefinition::HttpProtocolDefinition(h)) => {
            tag_value("ProtocolDefinition", tag_value("HttpProtocolDefinition", http_value(h)))
        },
        _ => {
            let empty = object_of(Vec::new());
            assert(entries_view(Seq::<(String, JsonValue)>::empty()) =~= Seq::empty());
            match s {
                RapidAstStatement::ModelDefinition(_) => tag_value("ModelDefinition", empty),
                RapidAstStatement::TopicDefinition(_) => tag_value("TopicDefinition", empty),
                _ => tag_value("CronDefinition", empty),
            }
        },
    }
}

/// The JSON value of a definition.
pub fn definition_value(d: &RapidRecastDefinition) -> (r: JsonValue)
    ensures
        r@ == definition_json(d@),
{
    let mut ast: Vec<JsonValue> = Vec::new();
    let mut i: usize = 0;
    while i < d.ast.len()
        invariant
            i <= d.ast.len(),
            ast.len() == i,
            forall|k: int| 0 <= k < i ==> #[trigger] ast@[k]@ == d@.ast.map_values(
                |s| statement_json(s),
            )[k],
        decreases d.ast.len() - i,
    {
        ast.push(statement_value(&d.ast[i]));
        i = i + 1;
    }
    assert(ast@.map_values(|x: JsonValue| x@) =~= d@.ast.map_values(
                |s| statement_json(s),
            ));
    let e = vec![
        entry("id", string_of(d.id.as_str())),
        entry("language_version", JsonValue::String(d.language_version.format())),
        entry("file_version", JsonValue::String(d.file_version.format())),
        entry("name", opt_value(&d.name)),
        entry("description", opt_value(&d.description)),
        entry("ast", array_of(ast)),
    ];
    assert(entries_view(e@) =~= seq![
        ("id"@, Json::Str(d@.id)),
        ("language_version"@, crate::codec::version_json(d.language_version)),
        ("file_version"@, crate::codec::version_json(d.file_version)),
        ("name"@, opt_json(d@.name)),
        ("description"@, opt_json(d@.description)),
        ("ast"@, Json::Array(d@.ast.map_values(|s| statement_json(s)))),
    ]);
    object_of(e)
}

} // verus!
