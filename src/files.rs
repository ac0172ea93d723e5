//! The files capability: its configuration, the rule on uploaded files and
//! the shapes of file responses.

use vstd::prelude::*;
use vstd::string::*;
use crate::client::{OpenAI, OpenAIConfig};
use crate::image::opt_view;
use crate::text::split_lines;

verus! {

/// The configuration of a files request.
#[derive(Clone, Debug)]
pub struct Files {
    /// The path of the JSON Lines file to upload.
    pub file: Option<String>,
    /// What the uploaded file is for.
    pub purpose: Option<String>,
    /// The file a request is about.
    pub file_id: Option<String>,
}

impl OpenAIConfig for Files {
    open spec fn is_default(&self) -> bool {
        &&& self.file is None
        &&& self.purpose is None
        &&& self.file_id is None
    }

    fn default() -> (r: Files) {
        Files { file: None, purpose: None, file_id: None }
    }
}

/// The files stored with the API.
#[derive(Clone, Debug)]
pub struct Response {
    pub data: Vec<Data>,
    pub object: String,
}

/// A file stored with the API.
#[derive(Clone, Debug)]
pub struct Data {
    pub id: String,
    pub object: String,
    /// The file's size in bytes.
    pub bytes: u64,
    /// When the file was stored, in seconds since the epoch.
    pub created_at: u64,
    pub filename: String,
    pub purpose: String,
}

/// The outcome of deleting a file.
#[derive(Clone, Debug)]
pub struct DeleteResponse {
    pub object: String,
    pub id: String,
    pub deleted: bool,
}

/// One line of a fine-tuning data file.
#[derive(Clone, Debug)]
pub struct PromptCompletion {
    pub prompt: String,
    pub completion: String,
}

/// The index of the last occurrence of `c` in `s`, or -1.
pub open spec fn last_index_of(s: Seq<char>, c: char) -> int
    decreases s.len(),
{
    if s.len() == 0 {
        -1
    } else if s.last() == c {
        s.len() - 1
    } else {
        last_index_of(s.drop_last(), c)
    }
}

proof fn lemma_last_index_of(s: Seq<char>, c: char)
    ensures
        -1 <= last_index_of(s, c) < s.len(),
        last_index_of(s, c) >= 0 ==> s[last_index_of(s, c)] == c,
        forall|k: int| last_index_of(s, c) < k < s.len() ==> s[k] != c,
    decreases s.len(),
{
    if s.len() > 0 && s.last() != c {
        lemma_last_index_of(s.drop_last(), c);
        assert forall|k: int| last_index_of(s, c) < k < s.len() implies s[k] != c by {
            if k < s.len() - 1 {
                assert(s[k] == s.drop_last()[k]);
            }
        }
    }
}

/// The last component of a path: what follows its last slash.
pub open spec fn file_name_of(path: Seq<char>) -> Seq<char> {
    path.subrange(last_index_of(path, '/') + 1, path.len() as int)
}

/// The extension of a path, as `Path::extension` gives it: what follows the
/// last dot of the file name, where that dot is not the name's first
/// character.
pub open spec fn extension_of_path(path: Seq<char>) -> Option<Seq<char>> {
    let name = file_name_of(path);
    let k = last_index_of(name, '.');
    if k > 0 {
        Some(name.subrange(k + 1, name.len() as int))
    } else {
        None
    }
}

/// Whether `s` is `jsonl` in any mix of ASCII letter cases.
pub open spec fn is_jsonl_ignoring_case(s: Seq<char>) -> bool {
    &&& s.len() == 5
    &&& (s[0] == 'j' || s[0] == 'J')
    &&& (s[1] == 's' || s[1] == 'S')
    &&& (s[2] == 'o' || s[2] == 'O')
    &&& (s[3] == 'n' || s[3] == 'N')
    &&& (s[4] == 'l' || s[4] == 'L')
}

/// Whether a path names a JSON Lines file by its extension.
pub open spec fn is_jsonl_path(path: Seq<char>) -> bool {
    match extension_of_path(path) {
        Some(e) => is_jsonl_ignoring_case(e),
        None => false,
    }
}

fn last_index(s: &str, c: char) -> (r: Option<usize>)
    ensures
        r is None <==> last_index_of(s@, c) == -1,
        r is Some ==> r->0 == last_index_of(s@, c),
{
    let n = s.unicode_len();
    let mut i: usize = n;
    proof {
        assert(s@.subrange(0, n as int) =~= s@);
    }
    while i > 0
        invariant
            n == s@.len(),
            i <= n,
            last_index_of(s@.subrange(0, i as int), c) == last_index_of(s@, c),
        decreases i,
    {
        let ghost pre = s@.subrange(0, i as int);
        assert(pre.drop_last() =~= s@.subrange(0, i - 1));
        if s.get_char(i - 1) == c {
            return Some(i - 1);
        }
        i = i - 1;
    }
    None
}

/// Whether `path` names a JSON Lines file: its extension is `jsonl` in any
/// letter case.
pub fn has_jsonl_extension(path: &str) -> (r: bool)
    ensures
        r == is_jsonl_path(path@),
{
    let n = path.unicode_len();
    proof {
        lemma_last_index_of(path@, '/');
    }
    let start = match last_index(path, '/') {
        Some(k) => k + 1,
        None => 0,
    };
    let name = path.substring_char(start, n);
    assert(name@ == file_name_of(path@));
    proof {
        lemma_last_index_of(name@, '.');
    }
    let dot = match last_index(name, '.') {
        Some(k) => k,
        None => {
            return false;
        },
    };
    if dot == 0 {
        return false;
    }
    let m = name.unicode_len();
    let ext = name.substring_char(dot + 1, m);
    if ext.unicode_len() != 5 {
        return false;
    }
    let a = ext.get_char(0);
    let b = ext.get_char(1);
    let c = ext.get_char(2);
    let d = ext.get_char(3);
    let e = ext.get_char(4);
    (a == 'j' || a == 'J') && (b == 's' || b == 'S') && (c == 'o' || c == 'O') && (d == 'n' || d
        == 'N') && (e == 'l' || e == 'L')
}

/// Why a files request was refused before it was sent.
#[derive(Clone, Debug)]
pub enum FilesError {
    /// The file to upload is not a `.jsonl` file; it holds the path.
    NotJsonLines(String),
}

impl FilesError {
    /// A description of the error.
    pub fn message(&self) -> (r: String)
        ensures
            r@ == "File must be a .jsonl file: "@ + self->NotJsonLines_0@,
    {
        match self {
            FilesError::NotJsonLines(p) => String::from_str("File must be a .jsonl file: ").concat(p.as_str()),
        }
    }
}

/// The lines of a text as `str::lines` gives them: split at each newline,
/// with no empty line after a final newline, and one carriage return removed
/// from the end of each line that a newline ends.
pub open spec fn text_lines(t: Seq<char>) -> Seq<Seq<char>> {
    let pieces = split_lines(t);
    let count = if t.len() == 0 || t.last() == '\n' {
        pieces.len() - 1
    } else {
        pieces.len() as int
    };
    Seq::new(
        count as nat,
        |i: int|
            if i + 1 < pieces.len() {
                strip_cr(pieces[i])
            } else {
                pieces[i]
            },
    )
}

/// A line with one trailing carriage return, if any, removed.
pub open spec fn strip_cr(l: Seq<char>) -> Seq<char> {
    if l.len() > 0 && l.last() == '\r' {
        l.drop_last()
    } else {
        l
    }
}

/// The lines of `text`, each to be decoded as one JSON record.
pub fn content_lines(text: &str) -> (r: Vec<String>)
    ensures
        r@.map_values(|l: String| l@) == text_lines(text@),
{
    let pieces = crate::text::split_lines_of(text);
    proof {
        crate::text::lemma_split_lines_nonempty(text@);
    }
    let n = text.unicode_len();
    let drop_last = n == 0 || text.get_char(n - 1) == '\n';
    let total = pieces.len();
    let count = if drop_last {
        total - 1
    } else {
        total
    };
    let ghost pv = pieces@.map_values(|l: String| l@);
    let ghost want = text_lines(text@);
    assert(want.len() == count);
    let mut out: Vec<String> = Vec::new();
    let mut i: usize = 0;
    while i < count
        invariant
            i <= count,
            count <= total,
            total == pieces@.len(),
            pv == pieces@.map_values(|l: String| l@),
            pv == split_lines(text@),
            want == text_lines(text@),
            want.len() == count,
            out@.map_values(|l: String| l@) == want.subrange(0, i as int),
        decreases count - i,
    {
        let line = pieces[i].as_str();
        let m = line.unicode_len();
        let piece = if i + 1 < total && m > 0 && line.get_char(m - 1) == '\r' {
            String::from_str(line.substring_char(0, m - 1))
        } else {
            String::from_str(line)
        };
        assert(piece@ == want[i as int]);
        let ghost before = out@;
        out.push(piece);
        assert(out@.map_values(|l: String| l@) =~= before.map_values(|l: String| l@).push(piece@));
        assert(want.subrange(0, i + 1) =~= want.subrange(0, i as int).push(piece@));
        i = i + 1;
    }
    assert(want.subrange(0, count as int) =~= want);
    out
}

impl OpenAI<Files> {
    /// Records `path` as the file to upload, or fails where it is not a
    /// `.jsonl` file; nothing is recorded then.
    pub fn prepare_upload(&mut self, path: &str) -> (r: Result<(), FilesError>)
        ensures
            r is Ok <==> is_jsonl_path(path@),
            r is Ok ==> opt_view(final(self).config.file) == Some(path@),
            r is Err ==> final(self).config.file == old(self).config.file
                && r->Err_0->NotJsonLines_0@ == path@,
            final(self).config == (Files { file: final(self).config.file, ..old(self).config }),
            final(self).api_key == old(self).api_key,
            final(self).disable_live_stream == old(self).disable_live_stream,
    {
        if !has_jsonl_extension(path) {
            return Err(FilesError::NotJsonLines(String::from_str(path)));
        }
        self.config.file = Some(String::from_str(path));
        Ok(())
    }
}

} // verus!
