//! Agent tools for memory search, retrieval, and persistence.
//!
//! A tool turns the parameters of a call into a request, and the answer of the memory
//! manager into a response. The search and the lookup themselves are the manager's work;
//! the save tool writes through a [`MemoryWriter`].

use serde_json::Value;
use std::sync::Arc;
use vstd::prelude::*;
use crate::json::{count_at, count_member, flag_at, flag_member, text_at, text_member};
use crate::memory_writer::{MemoryWriteResult, MemoryWriter};
use crate::text::{decimal, decimal_text, joined_text};
use crate::types::text_view;

verus! {

/// The type of a tool parameter.
#[derive(Clone, Copy, Debug, PartialEq, Eq, Structural)]
pub enum ParameterKind {
    Text,
    Integer,
    Boolean,
}

/// The value that a tool parameter has when the caller gives none.
#[derive(Debug, PartialEq, Eq)]
pub enum ParameterDefault {
    Text(String),
    Integer(u64),
    Boolean(bool),
}

/// One parameter of a tool.
#[derive(Debug, PartialEq, Eq)]
pub struct ToolParameter {
    pub name: String,
    pub kind: ParameterKind,
    pub description: String,
    pub default: Option<ParameterDefault>,
}

/// The parameters that a tool takes, and which of them a caller has to give.
#[derive(Debug, PartialEq, Eq)]
pub struct ToolSchema {
    pub properties: Vec<ToolParameter>,
    pub required: Vec<String>,
}

impl ToolParameter {
    /// The parameter has this name, kind and description, and no default.
    pub open spec fn is_plain(self, name: Seq<char>, kind: ParameterKind, text: Seq<char>) -> bool {
        self.name@ == name && self.kind == kind && self.description@ == text
            && self.default.is_none()
    }
}

impl ToolSchema {
    /// Whether the schema has a parameter called `name`.
    pub fn has_property(&self, name: &str) -> (r: bool)
        ensures
            r == exists|i: int|
                0 <= i < self.properties@.len() && (#[trigger] self.properties@[i]).name@ == name@,
    {
        let wanted = name.to_owned();
        let mut i: usize = 0;
        while i < self.properties.len()
            invariant
                i <= self.properties@.len(),
                wanted@ == name@,
                forall|j: int| 0 <= j < i ==> (#[trigger] self.properties@[j]).name@ != name@,
            decreases self.properties@.len() - i,
        {
            if self.properties[i].name == wanted {
                return true;
            }
            i = i + 1;
        }
        false
    }

    /// Whether a caller has to give the parameter called `name`.
    pub fn is_required(&self, name: &str) -> (r: bool)
        ensures
            r == exists|i: int|
                0 <= i < self.required@.len() && (#[trigger] self.required@[i])@ == name@,
    {
        let wanted = name.to_owned();
        let mut i: usize = 0;
        while i < self.required.len()
            invariant
                i <= self.required@.len(),
                wanted@ == name@,
                forall|j: int| 0 <= j < i ==> (#[trigger] self.required@[j])@ != name@,
            decreases self.required@.len() - i,
        {
            if self.required[i] == wanted {
                return true;
            }
            i = i + 1;
        }
        false
    }
}

/// The parameters of a call of the search tool, as far as the caller gave them.
#[derive(Debug, PartialEq, Eq)]
pub struct SearchParams {
    pub query: Option<String>,
    pub limit: Option<u64>,
}

impl SearchParams {
    /// The parameters that the call `params` gives: its member `query`, if that is a
    /// text, and its member `limit`, if that is an integer that is not negative.
    pub fn read(params: &Value) -> (r: SearchParams)
        ensures
            text_view(r.query) == text_at(*params, "query"@),
            r.limit == count_at(*params, "limit"@),
    {
        SearchParams { query: text_member(params, "query"), limit: count_member(params, "limit") }
    }
}

/// What the search tool asks of the memory manager.
#[derive(Debug, PartialEq, Eq)]
pub struct SearchRequest {
    pub query: String,
    pub limit: usize,
}

/// One chunk that a search found.
#[derive(Debug, PartialEq, Eq)]
pub struct SearchHit {
    pub chunk_id: String,
    pub path: String,
    pub source: String,
    pub start_line: u64,
    pub end_line: u64,
    pub text: String,
    /// The text followed by a note of where it comes from.
    pub text_with_citation: String,
}

/// One entry of the search tool's answer.
#[derive(Debug, PartialEq, Eq)]
pub struct SearchItem {
    pub chunk_id: String,
    pub path: String,
    pub source: String,
    pub start_line: u64,
    pub end_line: u64,
    pub text: String,
    /// The path, a `#`, and the first line.
    pub citation: String,
}

/// The answer of the search tool.
#[derive(Debug, PartialEq, Eq)]
pub struct SearchResponse {
    pub results: Vec<SearchItem>,
    pub citations_enabled: bool,
}

/// How many results a search returns when the caller names no limit.
pub const DEFAULT_SEARCH_LIMIT: u64 = 5;

pub open spec fn search_limit(limit: Option<u64>) -> usize {
    let wanted = match limit {
        Some(n) => n,
        None => 5,
    };
    if wanted <= usize::MAX {
        wanted as usize
    } else {
        usize::MAX
    }
}

/// Tool: search memory with a natural language query.
pub struct MemorySearchTool<M> {
    manager: Arc<M>,
}

impl<M> MemorySearchTool<M> {
    pub closed spec fn manager(self) -> Arc<M> {
        self.manager
    }

    pub fn new(manager: Arc<M>) -> (r: Self)
        ensures
            r.manager() == manager,
    {
        Self { manager }
    }

    /// The manager that carries out the searches.
    pub fn get_manager(&self) -> (r: &Arc<M>)
        ensures
            *r == self.manager(),
    {
        &self.manager
    }

    pub fn name(&self) -> (r: &'static str)
        ensures
            r@ == "memory_search"@,
    {
        "memory_search"
    }

    pub fn description(&self) -> (r: &'static str)
        ensures
            r@
                == "Search agent memory using hybrid vector + keyword search. Returns relevant chunks from daily logs and long-term memory files."@,
    {
        "Search agent memory using hybrid vector + keyword search. Returns relevant chunks from daily logs and long-term memory files."
    }

    /// A required text `query`, and an integer `limit` that is 5 unless given.
    pub fn parameters_schema(&self) -> (r: ToolSchema)
        ensures
            r.properties@.len() == 2,
            r.properties@[0].is_plain("query"@, ParameterKind::Text, "The search query"@),
            r.properties@[1].name@ == "limit"@,
            r.properties@[1].kind == ParameterKind::Integer,
            r.properties@[1].description@ == "Maximum number of results to return"@,
            r.properties@[1].default == Some(ParameterDefault::Integer(5)),
            r.required@.len() == 1,
            r.required@[0]@ == "query"@,
    {
        let query = ToolParameter {
            name: "query".to_owned(),
            kind: ParameterKind::Text,
            description: "The search query".to_owned(),
            default: None,
        };
        let limit = ToolParameter {
            name: "limit".to_owned(),
            kind: ParameterKind::Integer,
            description: "Maximum number of results to return".to_owned(),
            default: Some(ParameterDefault::Integer(DEFAULT_SEARCH_LIMIT)),
        };
        ToolSchema { properties: vec![query, limit], required: vec!["query".to_owned()] }
    }

    /// What to ask of the manager: fails if and only if there is no query.
    pub fn request(&self, params: SearchParams) -> (r: Result<SearchRequest, String>)
        ensures
            match params.query {
                Some(q) => r matches Ok(req) && req.query == q && req.limit == search_limit(
                    params.limit,
                ),
                None => r matches Err(e) && e@ == "missing 'query' parameter"@,
            },
    {
        let query = match params.query {
            Some(q) => q,
            None => {
                return Err("missing 'query' parameter".to_owned());
            },
        };
        let wanted: u64 = match params.limit {
            Some(n) => n,
            None => DEFAULT_SEARCH_LIMIT,
        };
        let limit: usize = if wanted <= usize::MAX as u64 {
            wanted as usize
        } else {
            usize::MAX
        };
        Ok(SearchRequest { query, limit })
    }

    /// The answer for what the manager found, in the order in which it found it. With
    /// citations, each text carries its note of origin.
    pub fn respond(&self, hits: Vec<SearchHit>, include_citations: bool) -> (r: SearchResponse)
        ensures
            r.citations_enabled == include_citations,
            r.results@.len() == hits@.len(),
            forall|i: int|
                0 <= i < hits@.len() ==> {
                    let item = #[trigger] r.results@[i];
                    let hit = hits@[i];
                    &&& item.chunk_id@ == hit.chunk_id@
                    &&& item.path@ == hit.path@
                    &&& item.source@ == hit.source@
                    &&& item.start_line == hit.start_line
                    &&& item.end_line == hit.end_line
                    &&& item.text@ == (if include_citations {
                        hit.text_with_citation@
                    } else {
                        hit.text@
                    })
                    &&& item.citation@ == hit.path@ + "#"@ + decimal(hit.start_line as nat)
                },
    {
        let mut results: Vec<SearchItem> = Vec::new();
        let mut i: usize = 0;
        while i < hits.len()
            invariant
                i <= hits@.len(),
                results@.len() == i,
                forall|j: int|
                    0 <= j < i ==> {
                        let item = #[trigger] results@[j];
                        let hit = hits@[j];
                        &&& item.chunk_id@ == hit.chunk_id@
                        &&& item.path@ == hit.path@
                        &&& item.source@ == hit.source@
                        &&& item.start_line == hit.start_line
                        &&& item.end_line == hit.end_line
                        &&& item.text@ == (if include_citations {
                            hit.text_with_citation@
                        } else {
                            hit.text@
                        })
                        &&& item.citation@ == hit.path@ + "#"@ + decimal(hit.start_line as nat)
                    },
            decreases hits@.len() - i,
        {
            let hit = &hits[i];
            let text = if include_citations {
                hit.text_with_citation.clone()
            } else {
                hit.text.clone()
            };
            let line = decimal_text(hit.start_line);
            let anchor = joined_text(hit.path.as_str(), "#");
            let citation = joined_text(anchor.as_str(), line.as_str());
            results.push(
                SearchItem {
                    chunk_id: hit.chunk_id.clone(),
                    path: hit.path.clone(),
                    source: hit.source.clone(),
                    start_line: hit.start_line,
                    end_line: hit.end_line,
                    text,
                    citation,
                },
            );
            i = i + 1;
        }
        SearchResponse { results, citations_enabled: include_citations }
    }
}

/// The parameters of a call of the lookup tool.
#[derive(Debug, PartialEq, Eq)]
pub struct GetParams {
    pub chunk_id: Option<String>,
}

impl GetParams {
    /// The parameters that the call `params` gives: its member `chunk_id`, if that is a
    /// text.
    pub fn read(params: &Value) -> (r: GetParams)
        ensures
            text_view(r.chunk_id) == text_at(*params, "chunk_id"@),
    {
        GetParams { chunk_id: text_member(params, "chunk_id") }
    }
}

/// A stored chunk of a memory file.
#[derive(Debug, PartialEq, Eq)]
pub struct Chunk {
    pub id: String,
    pub path: String,
    pub source: String,
    pub start_line: u64,
    pub end_line: u64,
    pub text: String,
}

/// The answer of the lookup tool.
#[derive(Debug, PartialEq, Eq)]
pub enum GetResponse {
    Found(Chunk),
    /// No chunk has the id; `error` says so.
    Missing { error: String, chunk_id: String },
}

/// Tool: get a specific memory chunk by ID.
pub struct MemoryGetTool<M> {
    manager: Arc<M>,
}

impl<M> MemoryGetTool<M> {
    pub closed spec fn manager(self) -> Arc<M> {
        self.manager
    }

    pub fn new(manager: Arc<M>) -> (r: Self)
        ensures
            r.manager() == manager,
    {
        Self { manager }
    }

    /// The manager that holds the chunks.
    pub fn get_manager(&self) -> (r: &Arc<M>)
        ensures
            *r == self.manager(),
    {
        &self.manager
    }

    pub fn name(&self) -> (r: &'static str)
        ensures
            r@ == "memory_get"@,
    {
        "memory_get"
    }

    pub fn description(&self) -> (r: &'static str)
        ensures
            r@
                == "Retrieve a specific memory chunk by its ID. Use this to get the full text of a chunk found via memory_search."@,
    {
        "Retrieve a specific memory chunk by its ID. Use this to get the full text of a chunk found via memory_search."
    }

    /// One required text, `chunk_id`.
    pub fn parameters_schema(&self) -> (r: ToolSchema)
        ensures
            r.properties@.len() == 1,
            r.properties@[0].is_plain(
                "chunk_id"@,
                ParameterKind::Text,
                "The chunk ID to retrieve"@,
            ),
            r.required@.len() == 1,
            r.required@[0]@ == "chunk_id"@,
    {
        let chunk_id = ToolParameter {
            name: "chunk_id".to_owned(),
            kind: ParameterKind::Text,
            description: "The chunk ID to retrieve".to_owned(),
            default: None,
        };
        ToolSchema { properties: vec![chunk_id], required: vec!["chunk_id".to_owned()] }
    }

    /// The id to look up: fails if and only if the caller gave none.
    pub fn request(&self, params: GetParams) -> (r: Result<String, String>)
        ensures
            match params.chunk_id {
                Some(id) => r == Ok::<String, String>(id),
                None => r matches Err(e) && e@ == "missing 'chunk_id' parameter"@,
            },
    {
        match params.chunk_id {
            Some(id) => Ok(id),
            None => Err("missing 'chunk_id' parameter".to_owned()),
        }
    }

    /// The answer for what the manager found under `chunk_id`.
    pub fn respond(&self, chunk_id: String, found: Option<Chunk>) -> (r: GetResponse)
        ensures
            match found {
                Some(chunk) => r == GetResponse::Found(chunk),
                None => r matches GetResponse::Missing { error, chunk_id: id } && id == chunk_id
                    && error@ == "chunk not found"@,
            },
    {
        match found {
            Some(chunk) => GetResponse::Found(chunk),
            None => GetResponse::Missing { error: "chunk not found".to_owned(), chunk_id },
        }
    }
}

/// The parameters of a call of the save tool, as far as the caller gave them.
#[derive(Debug, PartialEq, Eq)]
pub struct SaveParams {
    pub content: Option<String>,
    pub file: Option<String>,
    pub append: Option<bool>,
}

impl SaveParams {
    /// The parameters that the call `params` gives: its members `content` and `file`,
    /// as far as they are texts, and its member `append`, if that is a boolean.
    pub fn read(params: &Value) -> (r: SaveParams)
        ensures
            text_view(r.content) == text_at(*params, "content"@),
            text_view(r.file) == text_at(*params, "file"@),
            r.append == flag_at(*params, "append"@),
    {
        SaveParams {
            content: text_member(params, "content"),
            file: text_member(params, "file"),
            append: flag_member(params, "append"),
        }
    }
}

/// What the save tool hands to the writer.
#[derive(Debug, PartialEq, Eq)]
pub struct SaveRequest {
    pub file: String,
    pub content: String,
    pub append: bool,
}

/// The answer of the save tool.
#[derive(Debug, PartialEq, Eq)]
pub struct SaveResponse {
    pub saved: bool,
    pub path: String,
    pub bytes_written: usize,
}

/// The file that a save goes to: `MEMORY.md` unless the caller names one.
pub open spec fn save_file(file: Option<Seq<char>>) -> Seq<char> {
    match file {
        Some(f) => f,
        None => "MEMORY.md"@,
    }
}

/// Whether a save appends: it does unless the caller says otherwise.
pub open spec fn save_appends(append: Option<bool>) -> bool {
    match append {
        Some(a) => a,
        None => true,
    }
}

/// Tool: save content to long-term memory files.
pub struct MemorySaveTool<M> {
    manager: Arc<M>,
}

impl<M> MemorySaveTool<M> {
    pub closed spec fn manager(self) -> Arc<M> {
        self.manager
    }

    pub fn new(manager: Arc<M>) -> (r: Self)
        ensures
            r.manager() == manager,
    {
        Self { manager }
    }

    /// The manager that writes the files.
    pub fn get_manager(&self) -> (r: &Arc<M>)
        ensures
            *r == self.manager(),
    {
        &self.manager
    }

    pub fn name(&self) -> (r: &'static str)
        ensures
            r@ == "memory_save"@,
    {
        "memory_save"
    }

    pub fn description(&self) -> (r: &'static str)
        ensures
            r@
                == "Save content to long-term memory. Writes to MEMORY.md or memory/<name>.md. Content persists across sessions and is searchable via memory_search."@,
    {
        "Save content to long-term memory. Writes to MEMORY.md or memory/<name>.md. Content persists across sessions and is searchable via memory_search."
    }

    /// A required text `content`, a text `file` that is `MEMORY.md` unless given, and a
    /// boolean `append` that is true unless given.
    pub fn parameters_schema(&self) -> (r: ToolSchema)
        ensures
            r.properties@.len() == 3,
            r.properties@[0].is_plain(
                "content"@,
                ParameterKind::Text,
                "The content to save to memory"@,
            ),
            r.properties@[1].name@ == "file"@,
            r.properties@[1].kind == ParameterKind::Text,
            r.properties@[1].description@
                == "Target file: MEMORY.md, memory.md, or memory/<name>.md"@,
            r.properties@[1].default matches Some(ParameterDefault::Text(t)) && t@ == "MEMORY.md"@,
            r.properties@[2].name@ == "append"@,
            r.properties@[2].kind == ParameterKind::Boolean,
            r.properties@[2].description@
                == "Append to existing file (true) or overwrite (false)"@,
            r.properties@[2].default == Some(ParameterDefault::Boolean(true)),
            r.required@.len() == 1,
            r.required@[0]@ == "content"@,
    {
        let content = ToolParameter {
            name: "content".to_owned(),
            kind: ParameterKind::Text,
            description: "The content to save to memory".to_owned(),
            default: None,
        };
        let file = ToolParameter {
            name: "file".to_owned(),
            kind: ParameterKind::Text,
            description: "Target file: MEMORY.md, memory.md, or memory/<name>.md".to_owned(),
            default: Some(ParameterDefault::Text("MEMORY.md".to_owned())),
        };
        let append = ToolParameter {
            name: "append".to_owned(),
            kind: ParameterKind::Boolean,
            description: "Append to existing file (true) or overwrite (false)".to_owned(),
            default: Some(ParameterDefault::Boolean(true)),
        };
        ToolSchema {
            properties: vec![content, file, append],
            required: vec!["content".to_owned()],
        }
    }

    /// What to hand to the writer: fails if and only if there is no content.
    pub fn request(&self, params: SaveParams) -> (r: Result<SaveRequest, String>)
        ensures
            match params.content {
                Some(c) => r matches Ok(req) && req.content == c && req.file@ == save_file(
                    text_view(params.file),
                ) && req.append == save_appends(params.append),
                None => r matches Err(e) && e@ == "missing 'content' parameter"@,
            },
    {
        let content = match params.content {
            Some(c) => c,
            None => {
                return Err("missing 'content' parameter".to_owned());
            },
        };
        let file = match params.file {
            Some(f) => f,
            None => "MEMORY.md".to_owned(),
        };
        let append = match params.append {
            Some(a) => a,
            None => true,
        };
        Ok(SaveRequest { file, content, append })
    }

    /// The answer for what the writer reported: its error, or the file as the caller
    /// named it with the number of bytes written.
    pub fn respond(&self, file: String, written: Result<MemoryWriteResult, String>) -> (r: Result<
        SaveResponse,
        String,
    >)
        ensures
            match written {
                Ok(w) => r == Ok::<SaveResponse, String>(
                    SaveResponse { saved: true, path: file, bytes_written: w.bytes_written },
                ),
                Err(e) => r == Err::<SaveResponse, String>(e),
            },
    {
        match written {
            Ok(w) => Ok(SaveResponse { saved: true, path: file, bytes_written: w.bytes_written }),
            Err(e) => Err(e),
        }
    }
}

/// The answer of the save tool to what the writer answered for the file `file`: the
/// writer's error, or the file with the number of bytes that the writer wrote.
pub open spec fn saved_as(
    file: Seq<char>,
    written: Result<MemoryWriteResult, String>,
    r: Result<SaveResponse, String>,
) -> bool {
    match written {
        Ok(w) => r matches Ok(done) && done.saved && done.path@ == file && done.bytes_written
            == w.bytes_written,
        Err(e) => r == Err::<SaveResponse, String>(e),
    }
}

/// What a save of `content` does: the writer `writer` is asked to write the content to
/// the file that the call names, or to `MEMORY.md`, appending unless the call says
/// otherwise, and the answer of the tool is made of the writer's answer.
pub open spec fn saved_through<M: MemoryWriter>(
    writer: M,
    content: Seq<char>,
    file: Option<Seq<char>>,
    append: Option<bool>,
    r: Result<SaveResponse, String>,
) -> bool {
    exists|written: Result<MemoryWriteResult, String>|
        #[trigger] writer.answers(save_file(file), content, save_appends(append), written)
            && saved_as(save_file(file), written, r)
}

/// What the save tool does with a call: without content it fails and writes nothing;
/// with content it saves through the writer.
pub open spec fn save_outcome<M: MemoryWriter>(
    writer: M,
    content: Option<Seq<char>>,
    file: Option<Seq<char>>,
    append: Option<bool>,
    r: Result<SaveResponse, String>,
) -> bool {
    match content {
        Some(text) => saved_through(writer, text, file, append, r),
        None => r matches Err(e) && e@ == "missing 'content' parameter"@,
    }
}

impl<M: MemoryWriter> MemorySaveTool<M> {
    /// Saves what the parameters name through the manager. Without content nothing is
    /// written; otherwise the manager is asked once, and its answer decides.
    pub fn save(&self, params: SaveParams) -> (r: Result<SaveResponse, String>)
        ensures
            save_outcome(
                *self.manager(),
                text_view(params.content),
                text_view(params.file),
                params.append,
                r,
            ),
    {
        let request = self.request(params)?;
        let written = self.manager.write_memory(
            request.file.as_str(),
            request.content.as_str(),
            request.append,
        );
        let ghost seen = written;
        let ghost file = request.file@;
        let r = self.respond(request.file, written);
        proof {
            assert(self.manager().answers(file, request.content@, request.append, seen)
                && saved_as(file, seen, r));
        }
        r
    }

    /// `save` with the parameters read from the call `params`.
    pub fn execute(&self, params: Value) -> (r: Result<SaveResponse, String>)
        ensures
            save_outcome(
                *self.manager(),
                text_at(params, "content"@),
                text_at(params, "file"@),
                flag_at(params, "append"@),
                r,
            ),
    {
        self.save(SaveParams::read(&params))
    }
}

} // verus!
