//! Writing to memory files, shared by the save tool and the silent memory turn.
//!
//! Implementations handle path validation, size limits, and the actual storage.

use vstd::prelude::*;
use vstd::string::StringSliceAdditionalSpecFns;
use vstd::utf8::encode_utf8;

verus! {

/// Result of a successful memory write.
#[derive(Debug)]
pub struct MemoryWriteResult {
    /// Storage-agnostic location identifier for the written content: for file-based
    /// writers the resolved absolute path, for others a database id, URL, or similar.
    pub location: String,
    /// Total number of bytes written.
    pub bytes_written: usize,
}

/// Writes content to memory files with validation.
pub trait MemoryWriter {
    /// `r` is an answer that the writer may give to the write of `content` to `file`. A
    /// writer that does not say what it answers may answer anything.
    open spec fn answers(
        &self,
        file: Seq<char>,
        content: Seq<char>,
        append: bool,
        r: Result<MemoryWriteResult, String>,
    ) -> bool {
        true
    }

    /// Writes `content` to a memory file.
    ///
    /// `file` is a relative path like `"MEMORY.md"` or `"memory/notes.md"`. When `append`
    /// is `true`, `content` is appended to any existing file (separated by a blank line);
    /// otherwise the file is overwritten. Returns the location and the total bytes written,
    /// or the reason why nothing was written.
    fn write_memory(&self, file: &str, content: &str, append: bool) -> (r: Result<
        MemoryWriteResult,
        String,
    >)
        ensures
            self.answers(file@, content@, append, r),
    ;
}

/// The largest content, in bytes, that one write accepts: 50 KiB.
pub const MAX_CONTENT_BYTES: usize = 51_200;

/// `MEMORY.md` in bytes.
pub open spec fn root_file() -> Seq<u8> {
    seq![77u8, 69, 77, 79, 82, 89, 46, 109, 100]
}

/// `memory.md` in bytes.
pub open spec fn root_file_lower() -> Seq<u8> {
    seq![109u8, 101, 109, 111, 114, 121, 46, 109, 100]
}

/// `memory/` in bytes.
pub open spec fn notes_directory() -> Seq<u8> {
    seq![109u8, 101, 109, 111, 114, 121, 47]
}

/// `.md` in bytes.
pub open spec fn notes_extension() -> Seq<u8> {
    seq![46u8, 109, 100]
}

/// A byte that may stand in the name of a memory file: a letter, a digit, `-` or `_`.
pub open spec fn is_name_byte(b: u8) -> bool {
    (48 <= b <= 57) || (65 <= b <= 90) || (97 <= b <= 122) || b == 45 || b == 95
}

/// `path` names a memory file: `MEMORY.md`, `memory.md`, or `memory/<name>.md` with a
/// name of one or more letters, digits, `-` and `_`. No other path is one: none that is
/// absolute, leaves the directory, or goes deeper.
pub open spec fn is_memory_file(path: Seq<u8>) -> bool {
    ||| path == root_file()
    ||| path == root_file_lower()
    ||| {
        &&& path.len() > 10
        &&& path.subrange(0, 7) == notes_directory()
        &&& path.subrange(path.len() - 3, path.len() as int) == notes_extension()
        &&& forall|i: int| 7 <= i < path.len() - 3 ==> is_name_byte(#[trigger] path[i])
    }
}

/// A write that a guarded writer lets through.
pub open spec fn write_allowed(file: Seq<u8>, content: Seq<u8>) -> bool {
    is_memory_file(file) && content.len() <= MAX_CONTENT_BYTES
}

/// Whether `s` holds `word` at the position `from`.
fn spells(s: &[u8], from: usize, word: &Vec<u8>) -> (r: bool)
    requires
        from <= s@.len(),
    ensures
        r == (from + word@.len() <= s@.len() && s@.subrange(from as int, from + word@.len())
            == word@),
{
    if word.len() > s.len() - from {
        return false;
    }
    let mut i: usize = 0;
    while i < word.len()
        invariant
            i <= word@.len(),
            from + word@.len() <= s@.len() <= usize::MAX,
            forall|j: int| 0 <= j < i ==> s@[from + j] == word@[j],
        decreases word@.len() - i,
    {
        if s[from + i] != word[i] {
            proof {
                assert(s@.subrange(from as int, from + word@.len())[i as int] != word@[i as int]);
            }
            return false;
        }
        i = i + 1;
    }
    proof {
        assert(s@.subrange(from as int, from + word@.len()) =~= word@);
    }
    true
}

/// Whether `file` names a memory file.
pub fn memory_file(file: &str) -> (r: bool)
    ensures
        r == is_memory_file(file.spec_bytes()),
{
    let s = file.as_bytes();
    let n = s.len();
    if n == 9 {
        let upper: Vec<u8> = vec![77u8, 69, 77, 79, 82, 89, 46, 109, 100];
        let lower: Vec<u8> = vec![109u8, 101, 109, 111, 114, 121, 46, 109, 100];
        let r = spells(s, 0, &upper) || spells(s, 0, &lower);
        proof {
            assert(s@.subrange(0, 9) =~= s@);
            assert(upper@ =~= root_file());
            assert(lower@ =~= root_file_lower());
        }
        return r;
    }
    if n <= 10 {
        return false;
    }
    let directory: Vec<u8> = vec![109u8, 101, 109, 111, 114, 121, 47];
    let extension: Vec<u8> = vec![46u8, 109, 100];
    proof {
        assert(directory@ =~= notes_directory());
        assert(extension@ =~= notes_extension());
    }
    if !spells(s, 0, &directory) || !spells(s, n - 3, &extension) {
        return false;
    }
    let mut i: usize = 7;
    while i < n - 3
        invariant
            7 <= i <= n - 3,
            n == s@.len(),
            n > 10,
            s@ == file.spec_bytes(),
            s@.subrange(0, 7) == notes_directory(),
            s@.subrange(n - 3, n as int) == notes_extension(),
            forall|j: int| 7 <= j < i ==> is_name_byte(#[trigger] s@[j]),
        decreases n - i,
    {
        let b = s[i];
        let fine = (48 <= b && b <= 57) || (65 <= b && b <= 90) || (97 <= b && b <= 122) || b
            == 45 || b == 95;
        if !fine {
            proof {
                assert(!is_name_byte(s@[i as int]));
            }
            return false;
        }
        i = i + 1;
    }
    true
}

/// Why a write is refused, if it is: the file is no memory file, or else the content is
/// too large.
pub open spec fn refusal(file: Seq<u8>, content: Seq<u8>) -> Option<Seq<char>> {
    if !is_memory_file(file) {
        Some("invalid memory file path"@)
    } else if content.len() > MAX_CONTENT_BYTES {
        Some("content exceeds the size limit"@)
    } else {
        None
    }
}

/// Checks a write before it is carried out: fails, with the reason, if and only if the
/// file is no memory file or the content is too large.
pub fn check_write(file: &str, content: &str) -> (r: Result<(), String>)
    ensures
        r.is_ok() == write_allowed(file.spec_bytes(), content.spec_bytes()),
        match refusal(file.spec_bytes(), content.spec_bytes()) {
            Some(reason) => r matches Err(e) && e@ == reason,
            None => r.is_ok(),
        },
{
    if !memory_file(file) {
        return Err("invalid memory file path".to_owned());
    }
    if content.as_bytes().len() > MAX_CONTENT_BYTES {
        return Err("content exceeds the size limit".to_owned());
    }
    Ok(())
}

/// A writer that checks every write and hands on those that pass.
pub struct GuardedWriter<W: MemoryWriter> {
    pub inner: W,
}

impl<W: MemoryWriter> MemoryWriter for GuardedWriter<W> {
    /// A write that is refused is answered with the reason; any other is answered as the
    /// inner writer answers it.
    open spec fn answers(
        &self,
        file: Seq<char>,
        content: Seq<char>,
        append: bool,
        r: Result<MemoryWriteResult, String>,
    ) -> bool {
        match refusal(encode_utf8(file), encode_utf8(content)) {
            Some(reason) => r matches Err(e) && e@ == reason,
            None => self.inner.answers(file, content, append, r),
        }
    }

    /// Refuses what `check_write` refuses, with its reason, and writes nothing then; the
    /// rest is handed to the inner writer, whose answer is the answer.
    fn write_memory(&self, file: &str, content: &str, append: bool) -> (r: Result<
        MemoryWriteResult,
        String,
    >)
        ensures
            !write_allowed(file.spec_bytes(), content.spec_bytes()) ==> r.is_err(),
            match refusal(file.spec_bytes(), content.spec_bytes()) {
                Some(reason) => r matches Err(e) && e@ == reason,
                None => self.inner.answers(file@, content@, append, r),
            },
    {
        match check_write(file, content) {
            Ok(_) => self.inner.write_memory(file, content, append),
            Err(reason) => Err(reason),
        }
    }
}

} // verus!
