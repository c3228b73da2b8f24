use std::cell::RefCell;
use std::collections::HashMap;
use std::sync::Arc;

use cron_engine::memory_writer::{
    check_write, memory_file, GuardedWriter, MemoryWriteResult, MemoryWriter,
    MAX_CONTENT_BYTES,
};
use cron_engine::tools::{
    Chunk, GetParams, GetResponse, MemoryGetTool, MemorySaveTool, MemorySearchTool,
    ParameterDefault, ParameterKind, SaveParams, SearchHit, SearchParams,
};

/// A manager that keeps the files in memory.
struct Files {
    files: RefCell<HashMap<String, String>>,
}

impl MemoryWriter for Files {
    fn write_memory(
        &self,
        file: &str,
        content: &str,
        append: bool,
    ) -> Result<MemoryWriteResult, String> {
        let mut files = self.files.borrow_mut();
        let text = match files.get(file) {
            Some(old) if append => format!("{old}\n\n{content}"),
            _ => content.to_string(),
        };
        let bytes_written = text.len();
        files.insert(file.to_string(), text);
        Ok(MemoryWriteResult { location: format!("/data/{file}"), bytes_written })
    }
}

fn setup_manager() -> Arc<GuardedWriter<Files>> {
    Arc::new(GuardedWriter { inner: Files { files: RefCell::new(HashMap::new()) } })
}

fn read(manager: &GuardedWriter<Files>, file: &str) -> String {
    manager.inner.files.borrow().get(file).cloned().unwrap()
}

fn save(content: &str) -> SaveParams {
    SaveParams { content: Some(content.into()), file: None, append: None }
}

fn save_to(content: &str, file: &str) -> SaveParams {
    SaveParams { content: Some(content.into()), file: Some(file.into()), append: None }
}

#[test]
fn test_memory_search_tool_schema() {
    let tool = MemorySearchTool::new(setup_manager());
    assert_eq!(tool.name(), "memory_search");
    let schema = tool.parameters_schema();
    assert!(schema.has_property("query"));
    assert!(schema.is_required("query"));
}

#[test]
fn test_memory_get_tool_schema() {
    let tool = MemoryGetTool::new(setup_manager());
    assert_eq!(tool.name(), "memory_get");
    let schema = tool.parameters_schema();
    assert!(schema.has_property("chunk_id"));
    assert!(schema.is_required("chunk_id"));
}

#[test]
fn test_memory_save_tool_schema() {
    let tool = MemorySaveTool::new(setup_manager());
    assert_eq!(tool.name(), "memory_save");
    let schema = tool.parameters_schema();
    assert!(schema.has_property("content"));
    assert!(schema.has_property("file"));
    assert!(schema.has_property("append"));
    assert!(schema.is_required("content"));
}

#[test]
fn schemas_name_kinds_and_defaults() {
    let search = MemorySearchTool::new(setup_manager()).parameters_schema();
    assert_eq!(search.properties.len(), 2);
    assert_eq!(search.properties[0].kind, ParameterKind::Text);
    assert_eq!(search.properties[0].default, None);
    assert_eq!(search.properties[1].name, "limit");
    assert_eq!(search.properties[1].kind, ParameterKind::Integer);
    assert_eq!(search.properties[1].default, Some(ParameterDefault::Integer(5)));
    assert!(!search.is_required("limit"));
    assert!(!search.has_property("chunk_id"));

    let save = MemorySaveTool::new(setup_manager()).parameters_schema();
    assert_eq!(save.properties[1].default, Some(ParameterDefault::Text("MEMORY.md".into())));
    assert_eq!(save.properties[2].kind, ParameterKind::Boolean);
    assert_eq!(save.properties[2].default, Some(ParameterDefault::Boolean(true)));
    assert_eq!(save.required, vec!["content".to_string()]);
}

#[test]
fn descriptions_say_what_the_tools_do() {
    assert!(MemorySearchTool::new(setup_manager()).description().starts_with("Search agent memory"));
    assert!(MemoryGetTool::new(setup_manager()).description().starts_with("Retrieve a specific"));
    assert!(MemorySaveTool::new(setup_manager()).description().starts_with("Save content"));
}

/// A search without a query is an error.
#[test]
fn test_memory_search_tool_missing_query() {
    let tool = MemorySearchTool::new(setup_manager());
    let result = tool.request(SearchParams { query: None, limit: None });
    assert!(result.is_err(), "missing query should produce an error");
    assert_eq!(result.unwrap_err(), "missing 'query' parameter");
}

#[test]
fn search_request_takes_the_limit_or_five() {
    let tool = MemorySearchTool::new(setup_manager());
    let r = tool.request(SearchParams { query: Some("rust memory".into()), limit: Some(3) }).unwrap();
    assert_eq!(r.query, "rust memory");
    assert_eq!(r.limit, 3);
    let r = tool.request(SearchParams { query: Some("q".into()), limit: None }).unwrap();
    assert_eq!(r.limit, 5);
    let r = tool.request(SearchParams { query: Some("q".into()), limit: Some(0) }).unwrap();
    assert_eq!(r.limit, 0);
}

fn hit() -> SearchHit {
    SearchHit {
        chunk_id: "c1".into(),
        path: "memory/note.md".into(),
        source: "memory".into(),
        start_line: 12,
        end_line: 30,
        text: "Rust is a systems programming language.".into(),
        text_with_citation: "Rust is a systems programming language.\n\nSource: memory/note.md#12".into(),
    }
}

#[test]
fn search_response_carries_the_hits_in_order() {
    let tool = MemorySearchTool::new(setup_manager());
    let mut second = hit();
    second.chunk_id = "c2".into();
    second.start_line = 0;
    let plain = tool.respond(vec![hit(), second], false);
    assert!(!plain.citations_enabled);
    assert_eq!(plain.results.len(), 2);
    assert_eq!(plain.results[0].chunk_id, "c1");
    assert_eq!(plain.results[0].path, "memory/note.md");
    assert_eq!(plain.results[0].source, "memory");
    assert_eq!(plain.results[0].start_line, 12);
    assert_eq!(plain.results[0].end_line, 30);
    assert_eq!(plain.results[0].text, "Rust is a systems programming language.");
    assert_eq!(plain.results[0].citation, "memory/note.md#12");
    assert_eq!(plain.results[1].chunk_id, "c2");
    assert_eq!(plain.results[1].citation, "memory/note.md#0");

    let cited = tool.respond(vec![hit()], true);
    assert!(cited.citations_enabled);
    assert!(cited.results[0].text.ends_with("Source: memory/note.md#12"));

    assert!(tool.respond(Vec::new(), true).results.is_empty());
}

/// A lookup of a chunk that does not exist gives an answer that says so, not an error.
#[test]
fn test_memory_get_tool_not_found() {
    let tool = MemoryGetTool::new(setup_manager());
    let id = tool.request(GetParams { chunk_id: Some("nonexistent-id".into()) }).unwrap();
    let result = tool.respond(id, None);
    match result {
        GetResponse::Missing { error, chunk_id } => {
            assert_eq!(error, "chunk not found");
            assert_eq!(chunk_id, "nonexistent-id");
        }
        other => panic!("{other:?}"),
    }
}

/// A lookup without a chunk id is an error.
#[test]
fn test_memory_get_tool_missing_param() {
    let tool = MemoryGetTool::new(setup_manager());
    let result = tool.request(GetParams { chunk_id: None });
    assert!(result.is_err(), "missing chunk_id should produce an error");
    assert_eq!(result.unwrap_err(), "missing 'chunk_id' parameter");
}

#[test]
fn get_response_hands_the_chunk_on() {
    let tool = MemoryGetTool::new(setup_manager());
    let chunk = Chunk {
        id: "c1".into(),
        path: "memory/data.md".into(),
        source: "memory".into(),
        start_line: 1,
        end_line: 2,
        text: "Some database content here.".into(),
    };
    match tool.respond("c1".into(), Some(chunk)) {
        GetResponse::Found(found) => {
            assert_eq!(found.id, "c1");
            assert!(found.text.contains("database"));
        }
        other => panic!("{other:?}"),
    }
}

/// Default append mode: two writes produce both contents in the file.
#[test]
fn test_memory_save_append_default() {
    let manager = setup_manager();
    let tool = MemorySaveTool::new(Arc::clone(&manager));

    let r1 = tool.save(save("First memory about rust.")).unwrap();
    assert_eq!(r1.saved, true);
    assert_eq!(r1.path, "MEMORY.md");

    let r2 = tool.save(save("Second memory about database.")).unwrap();
    assert_eq!(r2.saved, true);

    let content = read(&manager, "MEMORY.md");
    assert!(content.contains("First memory"), "should have first write");
    assert!(content.contains("Second memory"), "should have second write");
    assert_eq!(r2.bytes_written, content.len());
}

/// Overwrite mode: second write replaces the first.
#[test]
fn test_memory_save_overwrite() {
    let manager = setup_manager();
    let tool = MemorySaveTool::new(Arc::clone(&manager));

    tool.save(save("Original content about rust.")).unwrap();
    tool.save(SaveParams {
        content: Some("Replaced content about database.".into()),
        file: None,
        append: Some(false),
    })
    .unwrap();

    let content = read(&manager, "MEMORY.md");
    assert!(!content.contains("Original"), "overwrite should remove original");
    assert!(content.contains("Replaced"), "overwrite should have new");
}

/// Custom file under memory/ subdirectory.
#[test]
fn test_memory_save_custom_file() {
    let manager = setup_manager();
    let tool = MemorySaveTool::new(Arc::clone(&manager));

    let result = tool
        .save(save_to("Notes from 2024-01-15 about cooking.", "memory/2024-01-15.md"))
        .unwrap();

    assert_eq!(result.saved, true);
    assert_eq!(result.path, "memory/2024-01-15.md");

    let content = read(&manager, "memory/2024-01-15.md");
    assert!(content.contains("Notes from 2024-01-15"));
}

/// Path traversal attempts are rejected.
#[test]
fn test_memory_save_rejects_path_traversal() {
    let manager = setup_manager();
    let tool = MemorySaveTool::new(Arc::clone(&manager));

    for bad_path in &["../etc/passwd", "memory/../../../etc/passwd", "memory/../../secret.md"] {
        let result = tool.save(save_to("test", bad_path));
        assert!(result.is_err(), "should reject path traversal: {bad_path}");
    }
    assert!(manager.inner.files.borrow().is_empty());
}

/// Absolute paths are rejected.
#[test]
fn test_memory_save_rejects_absolute_paths() {
    let tool = MemorySaveTool::new(setup_manager());
    let result = tool.save(save_to("test", "/etc/passwd"));
    assert!(result.is_err(), "should reject absolute paths");
}

/// Invalid file names are rejected.
#[test]
fn test_memory_save_rejects_invalid_names() {
    let tool = MemorySaveTool::new(setup_manager());

    let invalid = &[
        "memory/notes.txt",     // wrong extension
        "memory/.md",           // empty stem
        "memory/a b c.md",      // spaces in name
        "memory/sub/nested.md", // nested subdirectory
        "random.md",            // not MEMORY.md or memory/
        "foo/bar.md",           // not in allowed paths
    ];

    for name in invalid {
        let result = tool.save(save_to("test", name));
        assert!(result.is_err(), "should reject invalid name: {name}");
    }
}

/// Missing content parameter returns an error.
#[test]
fn test_memory_save_missing_content() {
    let tool = MemorySaveTool::new(setup_manager());
    let result = tool.save(SaveParams { content: None, file: None, append: None });
    assert!(result.is_err(), "missing content should produce an error");
    assert_eq!(result.unwrap_err(), "missing 'content' parameter");
}

/// Content exceeding the size limit is rejected.
#[test]
fn test_memory_save_content_size_limit() {
    let tool = MemorySaveTool::new(setup_manager());

    let big = "x".repeat(50 * 1024 + 1);
    let result = tool.save(save(&big));
    assert!(result.is_err(), "oversized content should be rejected");

    let at_limit = "x".repeat(50 * 1024);
    let result = tool.save(save(&at_limit));
    assert!(result.is_ok(), "content at limit should succeed");
}

#[test]
fn memory_file_names() {
    for good in ["MEMORY.md", "memory.md", "memory/notes.md", "memory/a.md", "memory/A_b-9.md"] {
        assert!(memory_file(good), "{good}");
    }
    for bad in [
        "",
        "MEMORY.MD",
        "Memory.md",
        "MEMORY.md ",
        "memory/",
        "memory/.md",
        "memory/a.md/",
        "memory/a.b.md",
        "memory/\u{e9}.md",
        "memory//a.md",
        "memory/a",
        "./MEMORY.md",
    ] {
        assert!(!memory_file(bad), "{bad}");
    }
    assert_eq!(MAX_CONTENT_BYTES, 50 * 1024);
    assert!(check_write("MEMORY.md", "").is_ok());
    assert!(check_write("nope.md", "").is_err());
}

#[test]
fn a_failure_of_the_writer_is_the_failure_of_the_save() {
    struct Broken;
    impl MemoryWriter for Broken {
        fn write_memory(&self, _: &str, _: &str, _: bool) -> Result<MemoryWriteResult, String> {
            Err("disk full".into())
        }
    }
    let tool = MemorySaveTool::new(Arc::new(Broken));
    assert_eq!(tool.save(save("x")), Err("disk full".to_string()));
}

fn json(text: &str) -> serde_json::Value {
    serde_json::from_str(text).unwrap()
}

#[test]
fn tool_parameters_are_read_from_the_call() {
    assert_eq!(
        SearchParams::read(&json(r#"{"query": "rust memory", "limit": 3}"#)),
        SearchParams { query: Some("rust memory".into()), limit: Some(3) }
    );
    assert_eq!(SearchParams::read(&json("{}")), SearchParams { query: None, limit: None });
    assert_eq!(
        SearchParams::read(&json(r#"{"query": ["rust"], "limit": -1}"#)),
        SearchParams { query: None, limit: None }
    );
    assert_eq!(
        GetParams::read(&json(r#"{"chunk_id": "nonexistent-id"}"#)),
        GetParams { chunk_id: Some("nonexistent-id".into()) }
    );
    assert_eq!(GetParams::read(&json("{}")), GetParams { chunk_id: None });
    assert_eq!(
        SaveParams::read(&json(r#"{"content": "c", "file": "memory/a.md", "append": false}"#)),
        SaveParams { content: Some("c".into()), file: Some("memory/a.md".into()), append: Some(false) }
    );
    assert_eq!(
        SaveParams::read(&json(r#"{"content": "c"}"#)),
        SaveParams { content: Some("c".into()), file: None, append: None }
    );
}

#[test]
fn save_calls_in_json() {
    let manager = setup_manager();
    let tool = MemorySaveTool::new(Arc::clone(&manager));
    let r1 = tool.execute(json(r#"{"content": "First memory about rust."}"#)).unwrap();
    assert!(r1.saved);
    assert_eq!(r1.path, "MEMORY.md");
    tool.execute(json(r#"{"content": "Replaced.", "append": false}"#)).unwrap();
    assert_eq!(read(&manager, "MEMORY.md"), "Replaced.");
    let r = tool.execute(json(r#"{"content": "Notes.", "file": "memory/notes.md"}"#)).unwrap();
    assert_eq!(r.path, "memory/notes.md");
    assert_eq!(r.bytes_written, 6);
    assert!(tool.execute(json("{}")).is_err(), "missing content should produce an error");
    assert!(tool.execute(json(r#"{"content": "x", "file": "../etc/passwd"}"#)).is_err());
}

#[test]
fn refused_writes_say_why_and_write_nothing() {
    let manager = setup_manager();
    assert_eq!(
        manager.write_memory("notes.md", "x", true).unwrap_err(),
        "invalid memory file path"
    );
    let big = "x".repeat(MAX_CONTENT_BYTES + 1);
    assert_eq!(
        manager.write_memory("MEMORY.md", &big, true).unwrap_err(),
        "content exceeds the size limit"
    );
    // A file that is no memory file is named first, whatever the content.
    assert_eq!(
        manager.write_memory("/etc/passwd", &big, false).unwrap_err(),
        "invalid memory file path"
    );
    assert!(manager.inner.files.borrow().is_empty());
    assert_eq!(check_write("notes.md", "x"), Err("invalid memory file path".to_string()));
    assert_eq!(check_write("MEMORY.md", &big), Err("content exceeds the size limit".to_string()));

    // What passes is answered by the inner writer.
    let done = manager.write_memory("memory/a.md", "abc", false).unwrap();
    assert_eq!(done.bytes_written, 3);
    assert_eq!(done.location, "/data/memory/a.md");
    assert_eq!(read(&manager, "memory/a.md"), "abc");
}
