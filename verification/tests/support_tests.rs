use mecp::auth::{AuthConfig, AuthService};
use mecp::broker::{uuid_v4, InterAppMessage};
use mecp::dbmodel::{DatabaseType, MockGraphDatabase, MockSqlDatabase, MockVectorDatabase};
use mecp::jsonval::{Json, JsonField};
use mecp::llm::{LlmConfig, LlmProviderType, Message, MockLlmProvider, Role};
use mecp::numparse::{format_i64, format_u64, parse_i64, parse_u64};
use mecp::prompts::MockPrompt;
use mecp::resources::MockResource;
use mecp::services::{MilvusService, MySqlService, Neo4jService, ServiceConfig, ServiceManager};
use mecp::timeutil::{civil_from_days, format_hex16, xorshift64};
use mecp::resources::{component_resource_name, component_resource_uri, WassetteResourceType};
use mecp::tools::{FetchTool, HelloWorldTool, SearchTool};

fn test_config() -> AuthConfig {
    AuthConfig {
        enabled: true,
        allowed_address: "0x742d35Cc6634C0532925a3b844Bc9e7595f0bEb".to_string(),
        jwt_secret: "test-secret-key".to_string(),
        session_duration: 86400,
    }
}

#[test]
fn test_generate_challenge() {
    let service = AuthService::new(test_config());
    let challenge = service.generate_challenge("0x742d35Cc6634C0532925a3b844Bc9e7595f0bEb");
    assert!(challenge.message.contains("Sign this message"));
    assert!(!challenge.nonce.is_empty());
}

#[test]
fn test_daily_nonce_format() {
    let nonce = AuthService::get_daily_nonce();
    assert!(nonce.len() == 10);
    assert!(nonce.contains("-"));
}

#[test]
fn test_token_generation() {
    let service = AuthService::new(test_config());
    let result = service.generate_token("0x742d35Cc6634C0532925a3b844Bc9e7595f0bEb");
    assert!(result.is_some());
    let token = result.unwrap();
    assert!(!token.is_empty());
}

#[test]
fn test_token_validation() {
    let service = AuthService::new(test_config());
    let token = service.generate_token("0x742d35Cc6634C0532925a3b844Bc9e7595f0bEb").unwrap();
    let result = service.validate_token(&token);
    assert!(result.is_ok());
    let claims = result.unwrap();
    assert_eq!(claims.address, "0x742d35cc6634c0532925a3b844bc9e7595f0beb");
}

#[test]
fn test_invalid_token() {
    let service = AuthService::new(test_config());
    let result = service.validate_token("invalid.token.here");
    assert!(result.is_err());
}

#[test]
fn unauthorized_addresses_are_refused() {
    let service = AuthService::new(test_config());
    assert!(!service.address_authorized("0xDifferentAddress"));
    assert!(service.address_authorized("0X742D35CC6634C0532925A3B844BC9E7595F0BEB"));
}

#[test]
fn nonce_of_a_known_day() {
    assert_eq!(AuthService::nonce_of_day(0), "1970-01-01");
    assert_eq!(AuthService::nonce_of_day(19723), "2024-01-01");
    let (y, m, d) = civil_from_days(19723 + 366);
    assert_eq!((y, m, d), (2025, 1, 1));
}

#[test]
fn test_message_creation() {
    let payload = Json::Obj(vec![JsonField {
        name: "subject".to_string(),
        value: Json::Str("Hello".to_string()),
    }]);
    let msg = InterAppMessage::new("mailbox", "alice", "mailbox", "bob", "new_mail", payload);
    assert_eq!(msg.from_app, "mailbox");
    assert_eq!(msg.from_user, "alice");
    assert_eq!(msg.to_app, "mailbox");
    assert_eq!(msg.to_user, "bob");
    assert_eq!(msg.message_type, "new_mail");
    assert!(!msg.id.is_empty());
    assert!(!msg.delivered);
}

#[test]
fn test_recipient_key() {
    let msg = InterAppMessage::new("app1", "user1", "app2", "user2", "test", Json::Obj(vec![]));
    assert_eq!(msg.recipient_key(), "app2:user2");
    assert_eq!(msg.sender_key(), "app1:user1");
}

#[test]
fn identifiers_have_the_fixed_shape() {
    let id = uuid_v4();
    assert_eq!(id.len(), 33);
    assert_eq!(id.as_bytes()[16], b'-');
    assert_eq!(format_hex16(0), "0000000000000000");
    assert_eq!(format_hex16(0xdead_beef), "00000000deadbeef");
    assert_eq!(xorshift64(1), {
        let mut x: u64 = 1;
        x ^= x << 13;
        x ^= x >> 7;
        x ^= x << 17;
        x
    });
}

#[test]
fn decimal_parsing_matches_std() {
    assert_eq!(parse_u64("18446744073709551615"), Some(u64::MAX));
    assert_eq!(parse_u64("18446744073709551616"), None);
    assert_eq!(parse_u64(""), None);
    assert_eq!(parse_u64("+0"), Some(0));
    assert_eq!(parse_i64("-9223372036854775808"), Some(i64::MIN));
    assert_eq!(parse_i64("9223372036854775808"), None);
    assert_eq!(parse_i64("12a"), None);
    assert_eq!(format_u64(90210), "90210");
    assert_eq!(format_i64(-42), "-42");
    assert_eq!(format_i64(i64::MIN), i64::MIN.to_string());
}

#[test]
fn default_config_matches_the_stock_settings() {
    let cfg = ServiceConfig::default();
    assert!(cfg.mysql.enabled);
    assert_eq!(cfg.mysql.port, 3306);
    assert_eq!(cfg.mysql.database, "mecp_db");
    assert_eq!(cfg.neo4j.bolt_url, "bolt://localhost:7687");
    assert!(!cfg.milvus.enabled);
    assert_eq!(cfg.milvus.dimension, 384);
    assert_eq!(cfg.server.port, 8080);
    assert!(cfg.auth.is_none());
}

#[test]
fn service_status_reflects_probes() {
    let cfg = ServiceConfig::default();
    let manager = ServiceManager::new(cfg);
    let st = manager.mysql.status(true, false);
    assert_eq!(st.name, "MySQL");
    assert!(st.installed);
    assert!(!st.running);
    assert_eq!(st.database.as_deref(), Some("mecp_db"));
    let neo = Neo4jService::new(ServiceConfig::default().neo4j).status(false, false);
    assert_eq!(neo.name, "Neo4j");
    let mil = MilvusService::new(ServiceConfig::default().milvus).status(true, true);
    assert_eq!(mil.name, "Milvus");
    assert_eq!(mil.database.as_deref(), Some("mecp_vectors"));
    let my = MySqlService::new(ServiceConfig::default().mysql);
    assert_eq!(my.config.host, "localhost");
}

#[test]
fn llm_builder_accumulates_settings() {
    let cfg = LlmConfig::new(LlmProviderType::Local, "tiny".to_string())
        .with_api_key("k".to_string())
        .with_endpoint("http://localhost:1234".to_string());
    assert_eq!(cfg.model, "tiny");
    assert_eq!(cfg.api_key.as_deref(), Some("k"));
    assert_eq!(cfg.endpoint.as_deref(), Some("http://localhost:1234"));
    assert_eq!(cfg.timeout_seconds, Some(30));
}

#[test]
fn mock_provider_echoes_the_last_message() {
    let mut p = MockLlmProvider::new();
    assert!(!p.is_initialized());
    p.initialize(LlmConfig::new(LlmProviderType::Local, "tiny".to_string()));
    assert!(p.is_initialized());
    assert_eq!(p.provider_name(), "Mock Provider");
    let reply = p.complete(&vec![
        Message { role: Role::System, content: "be brief".to_string() },
        Message { role: Role::User, content: "hi".to_string() },
    ]);
    assert_eq!(reply.content, "Mock response to: hi");
    assert!(matches!(reply.role, Role::Assistant));
    assert_eq!(reply.usage.unwrap().total_tokens, 30);
    let models = p.available_models();
    assert_eq!(models[0].id, "mock-model");
    let chunks = p.stream_chunks();
    assert_eq!(chunks.len(), 3);
    assert_eq!(chunks[2].finish_reason.as_deref(), Some("stop"));
}

#[test]
fn mock_databases_track_connections() {
    let mut sql = MockSqlDatabase::new(DatabaseType::MySQL);
    assert!(!sql.is_connected());
    sql.connect();
    assert!(sql.is_connected());
    assert_eq!(sql.database_type(), DatabaseType::MySQL);
    let q = sql.query();
    assert_eq!(q.columns, vec!["id", "name"]);
    assert!(q.rows.is_empty());
    assert_eq!(sql.execute(), 1);
    sql.disconnect();
    assert!(!sql.is_connected());
    let mut g = MockGraphDatabase::new();
    g.connect();
    assert!(g.is_connected());
    let mut v = MockVectorDatabase::new();
    assert!(!v.is_connected());
    v.connect();
    assert!(v.is_connected());
}

#[test]
fn hello_tool_greets_by_name() {
    let tool = HelloWorldTool::new();
    let meta = tool.metadata();
    assert_eq!(meta.name, "hello_world");
    let params = Json::Obj(vec![JsonField {
        name: "name".to_string(),
        value: Json::Str("Ada".to_string()),
    }]);
    let r = tool.execute(&params);
    assert!(r.success);
    match &r.output {
        Json::Obj(fields) => match &fields[0].value {
            Json::Str(s) => assert_eq!(s, "Hello, Ada! Welcome to MeCP."),
            other => panic!("unexpected: {:?}", other),
        },
        other => panic!("unexpected: {:?}", other),
    }
    let fallback = tool.execute(&Json::Null);
    match &fallback.output {
        Json::Obj(fields) => match &fields[0].value {
            Json::Str(s) => assert_eq!(s, "Hello, World! Welcome to MeCP."),
            other => panic!("unexpected: {:?}", other),
        },
        other => panic!("unexpected: {:?}", other),
    }
}

#[test]
fn search_tool_caps_results_and_requires_query() {
    let tool = SearchTool::new();
    let missing = tool.execute(&Json::Null);
    assert!(!missing.success);
    assert_eq!(missing.error.as_deref(), Some("Missing required parameter: query"));
    let params = Json::Obj(vec![
        JsonField { name: "query".to_string(), value: Json::Str("verus".to_string()) },
        JsonField {
            name: "max_results".to_string(),
            value: Json::Num(mecp::jsonval::JsonNum::Int(2)),
        },
    ]);
    let r = tool.execute(&params);
    assert!(r.success);
    match &r.output {
        Json::Obj(fields) => match &fields[2].value {
            Json::Arr(rs) => {
                assert_eq!(rs.len(), 2);
                match &rs[0] {
                    Json::Obj(rf) => match &rf[0].value {
                        Json::Str(t) => assert_eq!(t, "Result 1: Information about verus"),
                        other => panic!("unexpected: {:?}", other),
                    },
                    other => panic!("unexpected: {:?}", other),
                }
            }
            other => panic!("unexpected: {:?}", other),
        },
        other => panic!("unexpected: {:?}", other),
    }
}

#[test]
fn fetch_tool_titles_known_addresses() {
    let tool = FetchTool::new();
    let missing = tool.execute(&Json::Obj(vec![]));
    assert!(!missing.success);
    let params = Json::Obj(vec![JsonField {
        name: "url".to_string(),
        value: Json::Str("https://example.com/result3".to_string()),
    }]);
    let r = tool.execute(&params);
    assert!(r.success);
    match &r.output {
        Json::Obj(fields) => match &fields[1].value {
            Json::Str(t) => assert_eq!(t, "Result 3 Content"),
            other => panic!("unexpected: {:?}", other),
        },
        other => panic!("unexpected: {:?}", other),
    }
}

#[test]
fn mock_prompt_builds_a_conversation() {
    let p = MockPrompt::new();
    assert_eq!(p.metadata().name, "mock_prompt");
    let args = Json::Obj(vec![JsonField {
        name: "topic".to_string(),
        value: Json::Str("dogs".to_string()),
    }]);
    let out = p.generate(&args);
    assert_eq!(out.messages.len(), 2);
    assert_eq!(out.messages[0].role, "system");
    assert!(out.messages[0].content.contains("dogs"));
    assert_eq!(out.messages[1].content, "Let's start a conversation about dogs.");
    let fallback = p.generate(&Json::Null);
    assert!(fallback.messages[1].content.contains("general discussion"));
}

#[test]
fn mock_resource_serves_fixed_content() {
    let r = MockResource::new();
    assert_eq!(r.metadata().uri, "mock://example/resource");
    let c = r.read();
    assert_eq!(c.uri, "mock://example/resource");
    match &c.content {
        Json::Obj(fields) => {
            assert_eq!(fields[0].name, "message");
            match &fields[1].value {
                Json::Arr(items) => assert_eq!(items.len(), 3),
                other => panic!("unexpected: {:?}", other),
            }
        }
        other => panic!("unexpected: {:?}", other),
    }
}

#[test]
fn mailbox_messages_build_receive_arguments() {
    let payload = Json::Obj(vec![
        JsonField { name: "sender".to_string(), value: Json::Str("alice".to_string()) },
        JsonField { name: "subject".to_string(), value: Json::Str("hi".to_string()) },
    ]);
    let msg = InterAppMessage::new("mailbox", "alice", "mailbox", "bob", "new_mail", payload);
    let params = mecp::broker::mailbox_delivery_params("user-mailbox", "bob", &msg).unwrap();
    match &params {
        Json::Obj(fields) => {
            assert_eq!(fields[0].name, "sender");
            assert!(matches!(&fields[0].value, Json::Str(s) if s == "alice"));
            assert!(matches!(&fields[1].value, Json::Str(s) if s == "bob"));
            assert!(matches!(&fields[2].value, Json::Str(s) if s == "hi"));
            assert!(matches!(&fields[3].value, Json::Str(s) if s.is_empty()));
        }
        other => panic!("unexpected: {:?}", other),
    }
    let other_msg =
        InterAppMessage::new("a", "u", "b", "v", "t", Json::Obj(vec![]));
    assert!(mecp::broker::mailbox_delivery_params("counter", "bob", &other_msg).is_none());
}

#[test]
fn delivery_replies_are_checked_strictly() {
    let ok = Json::Obj(vec![JsonField {
        name: "result".to_string(),
        value: Json::Bool(true),
    }]);
    assert!(mecp::broker::delivery_succeeded(&ok));
    let not_bool = Json::Obj(vec![JsonField {
        name: "result".to_string(),
        value: Json::Str("true".to_string()),
    }]);
    assert!(!mecp::broker::delivery_succeeded(&not_bool));
    assert!(!mecp::broker::delivery_succeeded(&Json::Null));
}

#[test]
fn component_resources_have_scoped_addresses() {
    assert_eq!(
        component_resource_uri(WassetteResourceType::Inbox, "user-mailbox", "bob"),
        "mailbox://bob/inbox"
    );
    assert_eq!(
        component_resource_uri(WassetteResourceType::AppState, "counter", "bob"),
        "counter://bob/state"
    );
    assert_eq!(
        component_resource_name(WassetteResourceType::Inbox, "user-mailbox", "bob"),
        "bob's Inbox"
    );
    assert_eq!(
        component_resource_name(WassetteResourceType::AppState, "counter", "bob"),
        "counter - bob State"
    );
}

#[test]
fn inbox_updates_are_routed_to_the_right_user() {
    let send_params = Json::Obj(vec![JsonField {
        name: "recipient".to_string(),
        value: Json::Str("bob".to_string()),
    }]);
    assert_eq!(
        mecp::resources::updated_resource_uri("send-message", &send_params, "alice").as_deref(),
        Some("mailbox://bob/inbox")
    );
    assert_eq!(
        mecp::resources::updated_resource_uri("delete-message", &Json::Null, "alice").as_deref(),
        Some("mailbox://alice/inbox")
    );
    assert!(mecp::resources::updated_resource_uri("send-message", &Json::Null, "alice").is_none());
    assert!(mecp::resources::updated_resource_uri("get-inbox-count", &Json::Null, "alice").is_none());
}
