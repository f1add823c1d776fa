use omini::config::project::sanitize;
use omini::config::project::ProjectDir;
use omini::config::project::ProjectState;
use omini::config::project::ProjectsDir;
use omini::config::project::ProviderEntry;
use omini::db::content_text;
use omini::db::extract_message_text;
use omini::db::insert_message;
use omini::db::load_blocks;
use omini::db::overflows;
use omini::db::prepare_blocks;
use omini::db::BlockForm;
use omini::db::BlockSource;
use omini::db::NewMessage;
use omini::db::StoredMessage;
use omini::db::BLOCK_SIZE_THRESHOLD;
use omini::json::Json;
use omini::runtime::history::load_messages_from_db;
use omini::runtime::history::messages_of_rows;
use omini::runtime::history::plan_row;
use omini::runtime::history::LoadedRow;
use omini::types::message::ContentBlock;
use omini::types::message::Message;
use omini::types::message::Role;

fn string(s: &str) -> Json {
    Json::Str(s.to_string())
}

fn object(entries: &[(&str, &str)]) -> Json {
    Json::Object(
        entries
            .iter()
            .map(|(key, value)| (key.to_string(), string(value)))
            .collect(),
    )
}

fn small() -> BlockForm {
    BlockForm {
        value: object(&[("type", "text"), ("text", "hi")]),
        text: "{\"type\":\"text\",\"text\":\"hi\"}".to_string(),
    }
}

fn large() -> BlockForm {
    BlockForm {
        value: object(&[
            ("type", "tool_result"),
            ("tool_use_id", "t1"),
            ("content", "long"),
        ]),
        text: "x".repeat(BLOCK_SIZE_THRESHOLD + 1),
    }
}

fn ids(list: &[&str]) -> Vec<String> {
    list.iter().map(|s| s.to_string()).collect()
}

#[test]
fn blocks_overflow_by_their_bytes() {
    assert!(!overflows(&"x".repeat(BLOCK_SIZE_THRESHOLD)));
    assert!(overflows(&"x".repeat(BLOCK_SIZE_THRESHOLD + 1)));
    assert!(overflows(&"\u{4f60}".repeat(BLOCK_SIZE_THRESHOLD / 3 + 1)));
    assert!(!overflows(&"\u{4f60}".repeat(BLOCK_SIZE_THRESHOLD / 3)));
}

#[test]
fn stored_blocks_are_read_back() {
    let blocks = vec![small(), large()];
    let prepared = prepare_blocks(&blocks, &ids(&["u1", "u2"]), "/s/blocks");
    assert_eq!(prepared.stored[0], small().value);
    assert_eq!(
        prepared.stored[1],
        object(&[("type", "tool_result"), ("tool_use_id", "t1"), ("file", "u2")])
    );
    assert_eq!(prepared.files.len(), 1);
    assert_eq!(prepared.files[0].path, "/s/blocks/u2/block.json");
    assert_eq!(prepared.files[0].content, large().text);

    let sources = load_blocks(&prepared.stored, "/s/blocks");
    assert_eq!(
        sources,
        vec![
            BlockSource::Row(small().value),
            BlockSource::File("/s/blocks/u2/block.json".to_string())
        ]
    );
}

#[test]
fn message_row_is_json() {
    let msg = NewMessage {
        session_id: "s".to_string(),
        role: "user".to_string(),
        blocks: vec![small()],
        kind: "normal".to_string(),
        created_at: 0,
        blocks_dir: "/s/blocks".to_string(),
    };
    let (content, files) = insert_message(&msg, &ids(&["u1"]));
    assert_eq!(content, "[{\"text\":\"hi\",\"type\":\"text\"}]");
    assert!(files.is_empty());
    assert_eq!(content_text(Vec::new()), "[]");
}

#[test]
fn message_text_is_extracted() {
    assert_eq!(
        extract_message_text(
            "[{\"type\":\"text\",\"text\":\"a\\nb\\r\"},{\"type\":\"tool_use\"},{\"type\":\"text\",\"text\":\"c\"}]"
        ),
        "a b c"
    );
    assert_eq!(extract_message_text("{}"), "");
    assert_eq!(extract_message_text("no json"), "");
}

fn row(role: &str, content: &str) -> StoredMessage {
    StoredMessage {
        id: 1,
        session_id: "s".to_string(),
        role: role.to_string(),
        content: content.to_string(),
        kind: "normal".to_string(),
        created_at: 0,
    }
}

#[test]
fn rows_that_cannot_be_read_are_left_out() {
    let rows = vec![
        row("user", "[{\"type\":\"text\"}]"),
        row("system", "[]"),
        row("assistant", "broken"),
        row("assistant", "[{\"file\":\"u9\"}]"),
    ];
    let loaded = load_messages_from_db(&rows, "/b");
    assert_eq!(
        loaded,
        vec![
            LoadedRow {
                role: Role::User,
                blocks: vec![BlockSource::Row(object(&[("type", "text")]))],
            },
            LoadedRow {
                role: Role::Assistant,
                blocks: vec![BlockSource::File("/b/u9/block.json".to_string())],
            },
        ]
    );
    assert_eq!(plan_row("user", &None, "/b"), None);
}

#[test]
fn messages_with_unreadable_blocks_are_left_out() {
    let hello = || vec![ContentBlock::from_text("hello".to_string())];
    let messages = messages_of_rows(vec![
        (Role::User, Some(hello())),
        (Role::Assistant, None),
        (Role::Assistant, Some(Vec::new())),
    ]);
    assert_eq!(
        messages,
        vec![
            Message::new(Role::User, hello()),
            Message::new(Role::Assistant, Vec::new())
        ]
    );
}

#[test]
fn project_names_are_safe() {
    assert_eq!(sanitize("/home/a_b/my app"), "-home-a-b-my-app");
}

#[test]
fn project_paths_are_built() {
    let projects = ProjectsDir::new("/root/.omini");
    assert_eq!(projects.path(), "/root/.omini/projects");
    let project = projects.for_cwd("/w/x");
    assert_eq!(project.path(), "/root/.omini/projects/-w-x");
    assert_eq!(project.state_path(), "/root/.omini/projects/-w-x/state.toml");
    assert_eq!(project.sessions_dir(), "/root/.omini/projects/-w-x/sessions");
    let session = project.session("s1");
    assert_eq!(
        session.history_path(),
        "/root/.omini/projects/-w-x/sessions/s1/history.jsonl"
    );
    assert_eq!(
        session.subagent("c1").path(),
        "/root/.omini/projects/-w-x/sessions/s1/subagents/c1"
    );
}

#[test]
fn only_directories_are_listed() {
    let projects = ProjectsDir::new("/r");
    let found = projects.list_projects(&vec![
        ("/r/projects/a".to_string(), true),
        ("/r/projects/note".to_string(), false),
    ]);
    let paths: Vec<&str> = found.iter().map(ProjectDir::path).collect();
    assert_eq!(paths, vec!["/r/projects/a"]);
    let sessions = found[0].list_sessions(&vec![("/r/projects/a/sessions/s".to_string(), true)]);
    assert_eq!(sessions.len(), 1);
}

#[test]
fn history_gives_back_what_was_appended() {
    let session = ProjectsDir::new("/r").for_cwd("/w").session("s");
    let mut content = String::new();
    content.push_str(&session.append_history("{\"a\":1}"));
    content.push_str("\n   \n");
    content.push_str(&session.append_history("{\"b\":2}"));
    assert_eq!(
        session.load_history(&content),
        vec!["{\"a\":1}".to_string(), "{\"b\":2}".to_string()]
    );
}

#[test]
fn new_project_takes_the_first_provider_and_model() {
    let providers = vec![
        ProviderEntry {
            name: "first".to_string(),
            models: Some(vec!["m1".to_string(), "m2".to_string()]),
        },
        ProviderEntry {
            name: "second".to_string(),
            models: None,
        },
    ];
    let mut state = ProjectState::initial(&providers, 5);
    assert_eq!(state.default_provider, Some("first".to_string()));
    assert_eq!(state.default_model, Some("m1".to_string()));
    assert_eq!(state.created_at, 5);
    state.accessed(9);
    assert_eq!(state.accessed_at, 9);
    assert_eq!(ProjectState::new(3).default_provider, None);
}
