use rrdl::action::{
    AuthBasedAction, ClientObject, ModelObject, NamespaceObject, ConditionStatement, LogicBasedAction, RapidRecastAction,
    RapidRecastRbacAction, RapidRecastRbacObject, RapidRecastRbacPolicy, RapidRecastRbacSubject,
    RecastValue, TopicObject, UserIdentifier,
};
use rrdl::ast::{
    HttpStatement, RapidAstStatement, RapidModelDefinition, RapidProtocolDefinition,
    RapidRecastDefinition, RapidRecastHttpMethod, RapidRecastProtocolType,
};
use rrdl::decode::definition_from_value;
use rrdl::encode::definition_value;
use rrdl::error::{DecodeError, EncodeError};
use rrdl::json::{JsonRRDL, JsonValue};
use rrdl::version::Version;
use rrdl::{ParseRRDL, SaveRRDL};
use serde_json::Value;

fn bare_minimum_schema() -> RapidRecastDefinition {
    RapidRecastDefinition {
        id: "unique-schema-id-123".to_string(),
        language_version: Version {
            major: 1,
            minor: 2,
            patch: 3,
        },
        file_version: Version {
            major: 4,
            minor: 5,
            patch: 6,
        },
        name: Some("some name".to_string()),
        description: Some("some description".to_string()),
        ast: vec![],
    }
}

fn schema_with_proto_definition() -> RapidRecastDefinition {
    let mut schema = bare_minimum_schema();
    schema.ast.push(RapidAstStatement::ProtocolDefinition(
        RapidProtocolDefinition::HttpProtocolDefinition(HttpStatement {
            sequence: 0,
            paths: vec!["/".to_string()],
            methods: vec![RapidRecastHttpMethod::GET],
            actions: vec![],
        }),
    ));
    schema
}

fn user() -> UserIdentifier {
    UserIdentifier {
        namespace: "some-namespace".to_string(),
        username: "some-username".to_string(),
    }
}

fn saved(definition: &RapidRecastDefinition) -> Value {
    let bytes = JsonRRDL {}.save_rrdl(definition).unwrap();
    let text = String::from_utf8(bytes).unwrap();
    serde_json::from_str(&text).unwrap()
}

fn minimal_with_ast(ast: &str) -> String {
    format!(
        r#"{{"id":"unique-schema-id-123","language_version":"1.2.3","file_version":"4.5.6","ast":[{}]}}"#,
        ast
    )
}

fn metadata_action(metadata: &str) -> String {
    minimal_with_ast(&format!(
        r#"{{"ProtocolDefinition":{{"HttpProtocolDefinition":{{"sequence":0,"paths":[],"methods":[],"actions":[{{"AuthBasedAction":{{"AddMetadataToUser":{{"subject":{{"namespace":"n","username":"u"}},"metadata":{}}}}}}}]}}}}}}"#,
        metadata
    ))
}

fn decoded_metadata(text: &str) -> Vec<(String, String)> {
    let d = JsonRRDL {}.parse_rrdl(text).unwrap();
    match d.ast.into_iter().next() {
        Some(RapidAstStatement::ProtocolDefinition(RapidProtocolDefinition::HttpProtocolDefinition(
            h,
        ))) => match h.actions.into_iter().next() {
            Some(RapidRecastAction::AuthBasedAction(AuthBasedAction::AddMetadataToUser {
                metadata,
                ..
            })) => metadata,
            other => panic!("unexpected action {:?}", other),
        },
        other => panic!("unexpected statement {:?}", other),
    }
}

#[test]
fn test_bare_minimum() {
    let input = r#"
    {
        "id": "unique-schema-id-123",
        "language_version": "1.2.3",
        "file_version": "4.5.6",
        "ast": []
    }
    "#;

    let parser = JsonRRDL {};

    let res = parser.parse_rrdl(input).unwrap();
    assert_eq!(
        res,
        RapidRecastDefinition {
            id: "unique-schema-id-123".to_string(),
            language_version: Version {
                major: 1,
                minor: 2,
                patch: 3,
            },
            file_version: Version {
                major: 4,
                minor: 5,
                patch: 6,
            },
            name: None,
            description: None,
            ast: vec![],
        }
    )
}

#[test]
fn deserialisation_bare_minimum() {
    let input = r#"
    {
        "id": "unique-schema-id-123",
        "language_version": "1.2.3",
        "file_version": "4.5.6",
        "ast": []
    }
    "#;

    let parser = JsonRRDL {};

    let res = parser.parse_rrdl(input).unwrap();
    assert_eq!(
        res,
        RapidRecastDefinition {
            id: "unique-schema-id-123".to_string(),
            language_version: Version {
                major: 1,
                minor: 2,
                patch: 3,
            },
            file_version: Version {
                major: 4,
                minor: 5,
                patch: 6,
            },
            name: None,
            description: None,
            ast: vec![],
        }
    )
}

#[test]
fn protocol_definition() {
    let input = r#"
    {
        "id": "unique-schema-id-123",
        "language_version": "1.2.3",
        "file_version": "4.5.6",
        "ast": [
            {
                "ProtocolDefinition": {
                    "HttpProtocolDefinition": {
                        "sequence": 0,
                        "paths": ["/user"],
                        "methods": ["POST"],
                        "actions": []
                    }
                }
            }
        ]
    }
    "#;

    let parser = JsonRRDL {};

    let res = parser.parse_rrdl(input).unwrap();
    assert_eq!(
        res,
        RapidRecastDefinition {
            id: "unique-schema-id-123".to_string(),
            language_version: Version {
                major: 1,
                minor: 2,
                patch: 3,
            },
            file_version: Version {
                major: 4,
                minor: 5,
                patch: 6,
            },
            name: None,
            description: None,
            ast: vec![RapidAstStatement::ProtocolDefinition(
                RapidProtocolDefinition::HttpProtocolDefinition(HttpStatement {
                    sequence: 0,
                    paths: vec!["/user".to_string()],
                    methods: vec![RapidRecastHttpMethod::POST],
                    actions: vec![],
                })
            ),],
        }
    );
}

#[test]
fn serialisation_test_basic_save() {
    let definition = bare_minimum_schema();
    let res = saved(&definition);
    let expected_str = r#"{
        "id":"unique-schema-id-123",
        "language_version":"1.2.3",
        "file_version":"4.5.6",
        "name":"some name",
        "description":"some description",
        "ast":[]}"#;
    let expected: Value = serde_json::from_str(expected_str).unwrap();
    assert!(expected.is_object());
    assert!(res.is_object());
    assert_eq!(res, expected);
}

#[test]
fn test_save_protocol_definition() {
    let definition = schema_with_proto_definition();
    let res = saved(&definition);
    let expected_str = r#"{
        "id":"unique-schema-id-123",
        "language_version":"1.2.3",
        "file_version":"4.5.6",
        "name":"some name",
        "description":"some description",
        "ast":[{
            "ProtocolDefinition": {
                "HttpProtocolDefinition": {
                    "sequence":0,
                    "paths": ["/"],
                    "methods": ["GET"],
                    "actions": []
                    }
                }
            }
        ]}"#;
    let expected: Value = serde_json::from_str(expected_str).unwrap();
    assert!(expected.is_object());
    assert!(res.is_object());
    assert_eq!(res, expected);
}

fn gh_1_definition() -> RapidRecastDefinition {
    let mut definition = bare_minimum_schema();
    let metadata = vec![("key1".to_string(), "value1".to_string())];
    definition.ast.push(RapidAstStatement::ProtocolDefinition(
        RapidProtocolDefinition::HttpProtocolDefinition(HttpStatement {
            sequence: 0,
            paths: vec!["/create-user".to_string()],
            methods: vec![
                RapidRecastHttpMethod::PUT,
                RapidRecastHttpMethod::POST,
                RapidRecastHttpMethod::GET,
            ],
            actions: vec![
                RapidRecastAction::AuthBasedAction(AuthBasedAction::CreateUser {
                    subject: user(),
                    password: Some("some-password".to_string()),
                }),
                RapidRecastAction::AuthBasedAction(AuthBasedAction::AddMetadataToUser {
                    subject: user(),
                    metadata,
                }),
                RapidRecastAction::AuthBasedAction(AuthBasedAction::GrantPermissions {
                    subject: user(),
                    policy: vec![RapidRecastRbacPolicy {
                        subject: RapidRecastRbacSubject::Admin,
                        object: RapidRecastRbacObject::Topic(TopicObject::NonExistingTopic(
                            "some-namespace".to_string(),
                        )),
                        action: RapidRecastRbacAction::Create,
                    }],
                }),
            ],
        }),
    ));
    definition
}

#[test]
fn gh_1_http_to_create_user_and_permissions() {
    let definition = gh_1_definition();
    let bytes = JsonRRDL {}.save_rrdl(&definition).unwrap();
    let text = String::from_utf8(bytes).unwrap();
    assert_eq!(JsonRRDL {}.parse_rrdl(&text), Ok(definition));
}

#[test]
fn gh_1_encoding_names_each_variant() {
    let res = saved(&gh_1_definition());
    let expected: Value = serde_json::from_str(
        r#"{
        "id":"unique-schema-id-123",
        "language_version":"1.2.3",
        "file_version":"4.5.6",
        "name":"some name",
        "description":"some description",
        "ast":[{"ProtocolDefinition":{"HttpProtocolDefinition":{
            "sequence":0,
            "paths":["/create-user"],
            "methods":["PUT","POST","GET"],
            "actions":[
                {"AuthBasedAction":{"CreateUser":{
                    "subject":{"namespace":"some-namespace","username":"some-username"},
                    "password":"some-password"}}},
                {"AuthBasedAction":{"AddMetadataToUser":{
                    "subject":{"namespace":"some-namespace","username":"some-username"},
                    "metadata":{"key1":"value1"}}}},
                {"AuthBasedAction":{"GrantPermissions":{
                    "subject":{"namespace":"some-namespace","username":"some-username"},
                    "policy":[{"subject":"Admin",
                               "object":{"Topic":{"NonExistingTopic":"some-namespace"}},
                               "action":"Create"}]}}}
            ]}}}]}"#,
    )
    .unwrap();
    assert_eq!(res, expected);
}

#[test]
fn minimal_document_has_no_name_description_or_statements() {
    let d = JsonRRDL {}
        .decode(&minimal_with_ast(""))
        .unwrap();
    assert_eq!(d.name, None);
    assert_eq!(d.description, None);
    assert!(d.ast.is_empty());
    assert_eq!(d.id, "unique-schema-id-123");
}

#[test]
fn null_name_means_none_and_unknown_fields_are_ignored() {
    let text = r#"{"id":"x","language_version":"0.0.1","file_version":"0.0.2","name":null,"extra":[1,2],"ast":[]}"#;
    let d = JsonRRDL {}.decode(text).unwrap();
    assert_eq!(d.name, None);
    assert_eq!(
        d.file_version,
        Version {
            major: 0,
            minor: 0,
            patch: 2
        }
    );
}

#[test]
fn tagged_statement_re_encodes_to_the_same_structure() {
    let statement = r#"{"ProtocolDefinition":{"HttpProtocolDefinition":{"sequence":0,"paths":["/user"],"methods":["POST"],"actions":[]}}}"#;
    let d = JsonRRDL {}.decode(&minimal_with_ast(statement)).unwrap();
    assert_eq!(d.ast.len(), 1);
    let res = saved(&d);
    let expected: Value = serde_json::from_str(statement).unwrap();
    assert_eq!(res["ast"][0], expected);
}

#[test]
fn placeholder_statements_round_trip() {
    let d = JsonRRDL {}
        .decode(&minimal_with_ast(
            r#"{"ModelDefinition":{}},{"TopicDefinition":{}},{"CronDefinition":{}}"#,
        ))
        .unwrap();
    assert_eq!(d.ast.len(), 3);
    assert_eq!(
        d.ast[0],
        RapidAstStatement::ModelDefinition(RapidModelDefinition {})
    );
    let res = saved(&d);
    assert_eq!(res["ast"][1], serde_json::from_str::<Value>(r#"{"TopicDefinition":{}}"#).unwrap());
}

#[test]
fn unknown_statement_tag_is_refused() {
    let r = JsonRRDL {}.decode(&minimal_with_ast(r#"{"QueueDefinition":{}}"#));
    assert_eq!(r, Err(DecodeError::UnknownVariant));
}

#[test]
fn unknown_method_is_refused() {
    let statement = r#"{"ProtocolDefinition":{"HttpProtocolDefinition":{"sequence":0,"paths":[],"methods":["FETCH"],"actions":[]}}}"#;
    let r = JsonRRDL {}.decode(&minimal_with_ast(statement));
    assert_eq!(r, Err(DecodeError::UnknownVariant));
}

#[test]
fn missing_ast_is_a_missing_field() {
    let text = r#"{"id":"x","language_version":"1.2.3","file_version":"4.5.6"}"#;
    assert_eq!(JsonRRDL {}.decode(text), Err(DecodeError::MissingField));
}

#[test]
fn bad_version_text_is_reported() {
    let text = r#"{"id":"x","language_version":"1.2","file_version":"4.5.6","ast":[]}"#;
    assert_eq!(JsonRRDL {}.decode(text), Err(DecodeError::MissingSegment));
    let text = r#"{"id":"x","language_version":"1.2.3","file_version":"4.5.6.7","ast":[]}"#;
    assert_eq!(JsonRRDL {}.decode(text), Err(DecodeError::TooManySegments));
    let text = r#"{"id":"x","language_version":"1.b.3","file_version":"4.5.6","ast":[]}"#;
    assert_eq!(JsonRRDL {}.decode(text), Err(DecodeError::InvalidInteger));
}

#[test]
fn wrong_shape_is_a_type_mismatch() {
    let text = r#"{"id":7,"language_version":"1.2.3","file_version":"4.5.6","ast":[]}"#;
    assert_eq!(JsonRRDL {}.decode(text), Err(DecodeError::TypeMismatch));
    let statement = r#"{"ProtocolDefinition":{"HttpProtocolDefinition":{"sequence":256,"paths":[],"methods":[],"actions":[]}}}"#;
    assert_eq!(
        JsonRRDL {}.decode(&minimal_with_ast(statement)),
        Err(DecodeError::TypeMismatch)
    );
}

#[test]
fn malformed_text_is_refused() {
    assert_eq!(
        JsonRRDL {}.decode("{\"id\": "),
        Err(DecodeError::MalformedText)
    );
}

fn nested_block(depth: usize) -> RapidRecastAction {
    let mut action = RapidRecastAction::AuthBasedAction(AuthBasedAction::CreateUser {
        subject: user(),
        password: None,
    });
    for i in 0..depth {
        action = RapidRecastAction::LogicBasedAction(LogicBasedAction::ConditionBlock {
            condition: ConditionStatement::Equals(
                RecastValue::Param("level".to_string()),
                RecastValue::Number(format!("{}", i)),
            ),
            if_true: Box::new(action),
            if_false: None,
        });
    }
    action
}

fn with_action(action: RapidRecastAction) -> RapidRecastDefinition {
    let mut d = bare_minimum_schema();
    d.ast.push(RapidAstStatement::ProtocolDefinition(
        RapidProtocolDefinition::HttpProtocolDefinition(HttpStatement {
            sequence: 3,
            paths: vec![],
            methods: vec![],
            actions: vec![action],
        }),
    ));
    d
}

#[test]
fn nested_condition_blocks_round_trip() {
    for depth in [1, 2, 10, 32] {
        let d = with_action(nested_block(depth));
        let bytes = JsonRRDL {}.encode(&d).unwrap();
        let text = String::from_utf8(bytes).unwrap();
        assert_eq!(JsonRRDL {}.decode(&text), Ok(d));
    }
}

#[test]
fn condition_block_with_else_round_trips() {
    let action = RapidRecastAction::LogicBasedAction(LogicBasedAction::ConditionBlock {
        condition: ConditionStatement::Not(RecastValue::String("yes".to_string())),
        if_true: Box::new(nested_block(1)),
        if_false: Some(Box::new(nested_block(2))),
    });
    let d = with_action(action);
    let v = definition_value(&d);
    assert_eq!(definition_from_value(&v), Ok(d));
}

#[test]
fn nesting_beyond_the_bound_is_refused() {
    let d = with_action(nested_block(33));
    let bytes = JsonRRDL {}.encode(&d).unwrap();
    let text = String::from_utf8(bytes).unwrap();
    assert_eq!(JsonRRDL {}.decode(&text), Err(DecodeError::NestingTooDeep));
}

#[test]
fn float_number_literal_keeps_its_text() {
    let action = RapidRecastAction::LogicBasedAction(LogicBasedAction::ConditionBlock {
        condition: ConditionStatement::GreaterThan(
            RecastValue::Param("x".to_string()),
            RecastValue::Number("0.5".to_string()),
        ),
        if_true: Box::new(nested_block(0)),
        if_false: None,
    });
    let d = with_action(action);
    let text = String::from_utf8(JsonRRDL {}.encode(&d).unwrap()).unwrap();
    assert!(text.contains("0.5"));
    assert_eq!(JsonRRDL {}.decode(&text), Ok(d));
}

#[test]
fn number_that_is_not_json_fails_to_encode() {
    let action = RapidRecastAction::LogicBasedAction(LogicBasedAction::ConditionBlock {
        condition: ConditionStatement::Not(RecastValue::Number("abc".to_string())),
        if_true: Box::new(nested_block(0)),
        if_false: None,
    });
    assert_eq!(
        JsonRRDL {}.encode(&with_action(action)),
        Err(EncodeError::WriterFailed)
    );
}

#[test]
fn duplicate_metadata_keys_last_value_wins() {
    let m = decoded_metadata(&metadata_action(r#"{"k":"first","other":"o","k":"last"}"#));
    assert_eq!(m.len(), 2);
    assert!(m.contains(&("k".to_string(), "last".to_string())));
    assert!(m.contains(&("other".to_string(), "o".to_string())));
}

#[test]
fn metadata_key_order_has_no_effect() {
    let a = decoded_metadata(&metadata_action(r#"{"a":"1","b":"2"}"#));
    let b = decoded_metadata(&metadata_action(r#"{"b":"2","a":"1"}"#));
    assert_eq!(a, b);
}

#[test]
fn metadata_from_a_json_value_keeps_the_last_duplicate() {
    let entries = vec![
        ("k".to_string(), JsonValue::String("first".to_string())),
        ("j".to_string(), JsonValue::String("x".to_string())),
        ("k".to_string(), JsonValue::String("last".to_string())),
    ];
    let action = JsonValue::Object(vec![(
        "AuthBasedAction".to_string(),
        JsonValue::Object(vec![(
            "AddMetadataToUser".to_string(),
            JsonValue::Object(vec![
                (
                    "subject".to_string(),
                    JsonValue::Object(vec![
                        ("namespace".to_string(), JsonValue::String("n".to_string())),
                        ("username".to_string(), JsonValue::String("u".to_string())),
                    ]),
                ),
                ("metadata".to_string(), JsonValue::Object(entries)),
            ]),
        )]),
    )]);
    let http = JsonValue::Object(vec![
        ("sequence".to_string(), JsonValue::Number("1".to_string())),
        ("paths".to_string(), JsonValue::Array(vec![])),
        ("methods".to_string(), JsonValue::Array(vec![])),
        ("actions".to_string(), JsonValue::Array(vec![action])),
    ]);
    let doc = JsonValue::Object(vec![
        ("id".to_string(), JsonValue::String("d".to_string())),
        ("language_version".to_string(), JsonValue::String("1.0.0".to_string())),
        ("file_version".to_string(), JsonValue::String("1.0.0".to_string())),
        (
            "ast".to_string(),
            JsonValue::Array(vec![JsonValue::Object(vec![(
                "ProtocolDefinition".to_string(),
                JsonValue::Object(vec![("HttpProtocolDefinition".to_string(), http)]),
            )])]),
        ),
    ]);
    let d = definition_from_value(&doc).unwrap();
    match &d.ast[0] {
        RapidAstStatement::ProtocolDefinition(RapidProtocolDefinition::HttpProtocolDefinition(h)) => {
            assert_eq!(h.sequence, 1);
            assert_eq!(
                h.actions[0],
                RapidRecastAction::AuthBasedAction(AuthBasedAction::AddMetadataToUser {
                    subject: UserIdentifier {
                        namespace: "n".to_string(),
                        username: "u".to_string()
                    },
                    metadata: vec![
                        ("j".to_string(), "x".to_string()),
                        ("k".to_string(), "last".to_string()),
                    ],
                })
            );
        }
        other => panic!("unexpected statement {:?}", other),
    }
}

#[test]
fn rbac_objects_and_subjects_round_trip() {
    let policy = vec![
        RapidRecastRbacPolicy {
            subject: RapidRecastRbacSubject::UserOrRole("ns".to_string(), "role".to_string()),
            object: RapidRecastRbacObject::Namespace(NamespaceObject::ExistingNamespace(
                "ns".to_string(),
            )),
            action: RapidRecastRbacAction::Rename,
        },
        RapidRecastRbacPolicy {
            subject: RapidRecastRbacSubject::Anon,
            object: RapidRecastRbacObject::Protocol(RapidRecastProtocolType::RabbitMQ),
            action: RapidRecastRbacAction::List,
        },
        RapidRecastRbacPolicy {
            subject: RapidRecastRbacSubject::Admin,
            object: RapidRecastRbacObject::Client(ClientObject::Http3),
            action: RapidRecastRbacAction::Write,
        },
        RapidRecastRbacPolicy {
            subject: RapidRecastRbacSubject::Admin,
            object: RapidRecastRbacObject::Topic(TopicObject::NamespaceTopic(
                "ns".to_string(),
                "t".to_string(),
            )),
            action: RapidRecastRbacAction::Read,
        },
        RapidRecastRbacPolicy {
            subject: RapidRecastRbacSubject::Admin,
            object: RapidRecastRbacObject::Model(ModelObject {}),
            action: RapidRecastRbacAction::Delete,
        },
    ];
    let d = with_action(RapidRecastAction::AuthBasedAction(
        AuthBasedAction::GrantPermissions {
            subject: user(),
            policy,
        },
    ));
    let text = String::from_utf8(JsonRRDL {}.encode(&d).unwrap()).unwrap();
    let res: Value = serde_json::from_str(&text).unwrap();
    let p = &res["ast"][0]["ProtocolDefinition"]["HttpProtocolDefinition"]["actions"][0]
        ["AuthBasedAction"]["GrantPermissions"]["policy"];
    assert_eq!(p[0]["subject"]["UserOrRole"][1], "role");
    assert_eq!(p[1]["object"]["Protocol"], "RabbitMQ");
    assert_eq!(p[2]["object"]["Client"], "Http3");
    assert_eq!(JsonRRDL {}.decode(&text), Ok(d));
}

#[test]
fn minimal_document_re_encodes_equivalently() {
    let text = r#"{"id":"unique-schema-id-123","language_version":"1.2.3","file_version":"4.5.6","ast":[]}"#;
    let d = JsonRRDL {}.decode(text).unwrap();
    let res = saved(&d);
    let expected: Value = serde_json::from_str(
        r#"{"id":"unique-schema-id-123","language_version":"1.2.3","file_version":"4.5.6","name":null,"description":null,"ast":[]}"#,
    )
    .unwrap();
    assert_eq!(res, expected);
}

#[test]
fn metadata_decodes_in_key_order() {
    let m = decoded_metadata(&metadata_action(r#"{"b":"2","a":"1","c":"3"}"#));
    assert_eq!(
        m,
        vec![
            ("a".to_string(), "1".to_string()),
            ("b".to_string(), "2".to_string()),
            ("c".to_string(), "3".to_string()),
        ]
    );
}

#[test]
fn metadata_in_key_order_round_trips() {
    let d = with_action(RapidRecastAction::AuthBasedAction(
        AuthBasedAction::AddMetadataToUser {
            subject: user(),
            metadata: vec![
                ("A".to_string(), "upper".to_string()),
                ("a".to_string(), "lower".to_string()),
                ("ab".to_string(), "longer".to_string()),
                ("b".to_string(), "next".to_string()),
            ],
        },
    ));
    let bytes = JsonRRDL {}.save_rrdl(&d).unwrap();
    let text = String::from_utf8(bytes).unwrap();
    assert_eq!(JsonRRDL {}.parse_rrdl(&text), Ok(d));
}

#[test]
fn plain_numbers_always_encode() {
    for t in ["0", "-0", "7", "-12", "0.5", "-3.25", "18446744073709551616"] {
        let action = RapidRecastAction::LogicBasedAction(LogicBasedAction::ConditionBlock {
            condition: ConditionStatement::LessThan(
                RecastValue::Param("x".to_string()),
                RecastValue::Number(t.to_string()),
            ),
            if_true: Box::new(nested_block(0)),
            if_false: None,
        });
        assert!(JsonRRDL {}.encode(&with_action(action)).is_ok());
    }
}
