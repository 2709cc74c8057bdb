//! Read-only access to sessions kept in the legacy JSON store.

use std::path::{Path, PathBuf};
use vstd::prelude::*;
use vstd::string::*;
use vstd::utf8::*;
use crate::text::{clone_opt_string, strings_view, take_chars, trim_spec, trim_str, truncate_chars};

verus! {

#[verifier::external_type_specification]
#[verifier::external_body]
pub struct ExPathBuf(PathBuf);

#[verifier::external_type_specification]
#[verifier::external_body]
pub struct ExPath(Path);

#[verifier::external_type_specification]
#[verifier::external_body]
pub struct ExIoError(std::io::Error);

/// A legacy session read from the tauri-plugin-store JSON format.
///
/// These are read-only: viewable, referenceable, but not resumable as ACP
/// sessions and not migrated to SQLite.
#[derive(Debug, Clone)]
pub struct LegacySession {
    pub id: String,
    pub title: Option<String>,
    /// ISO 8601
    pub created_at: Option<String>,
    /// ISO 8601
    pub updated_at: Option<String>,
    pub message_count: usize,
    pub last_preview: Option<String>,
}

/// One message of a legacy session, as stored.
#[derive(Debug, Clone)]
pub struct LegacyMessage {
    pub content: Option<String>,
}

/// One entry of the legacy store, keyed by its session id in the file.
#[derive(Debug, Clone)]
pub struct LegacyEntry {
    pub title: Option<String>,
    pub created_at: Option<String>,
    pub updated_at: Option<String>,
    pub messages: Option<Vec<LegacyMessage>>,
}

/// What reading the legacy store file at a path gave.
#[derive(Debug)]
pub enum LegacyFileState {
    /// No file exists at the path.
    Missing,
    /// The file exists and was read and parsed as a legacy store.
    Readable,
    /// The file exists but could not be read or parsed: the error.
    Unreadable(std::io::Error),
}

/// Reader for legacy tauri-plugin-store JSON sessions.
pub struct LegacySessionStore {
    path: PathBuf,
}

/// The owned path holding the same path as `path`.
pub uninterp spec fn path_buf_of(path: &Path) -> PathBuf;

/// An owned copy of `path` (`Path::to_path_buf`): it depends on `path` alone,
/// and is named `path_buf_of`.
#[verifier::external_body]
fn path_to_buf(path: &Path) -> (r: PathBuf)
    ensures
        r == path_buf_of(path),
{
    path.to_path_buf()
}

impl LegacySessionStore {
    /// The location of the store file.
    pub closed spec fn location(&self) -> PathBuf {
        self.path
    }

    /// Open the legacy JSON store at `path`, given what reading the file
    /// there gave: `Ok(None)` when no file exists, a store at `path` when the
    /// file was read and parsed, and the error when it exists but could not be
    /// read or parsed. The store reads the file again when sessions are listed.
    pub fn open(path: &Path, state: LegacyFileState) -> (r: Result<Option<Self>, std::io::Error>)
        ensures
            match state {
                LegacyFileState::Missing => r matches Ok(None),
                LegacyFileState::Readable => r matches Ok(Some(s)) && s.location() == path_buf_of(path),
                LegacyFileState::Unreadable(e) => r matches Err(e2) && e2 == e,
            },
    {
        match state {
            LegacyFileState::Missing => Ok(None),
            LegacyFileState::Readable => Ok(Some(Self { path: path_to_buf(path) })),
            LegacyFileState::Unreadable(e) => Err(e),
        }
    }

    /// The location of the store file.
    pub fn path(&self) -> (r: &PathBuf)
        ensures
            *r == self.location(),
    {
        &self.path
    }
}

/// The preview of a message: trimmed, and cut to `max_len` characters followed
/// by an ellipsis when its UTF-8 encoding is longer than `max_len` bytes.
pub open spec fn preview_spec(s: Seq<char>, max_len: nat) -> Seq<char> {
    let t = trim_spec(s);
    if encode_utf8(t).len() <= max_len {
        t
    } else {
        take_chars(t, max_len) + "\u{2026}"@
    }
}

/// Trim `s` and cut it for display as a preview.
pub fn truncate_preview(s: &str, max_len: usize) -> (r: String)
    ensures
        r@ == preview_spec(s@, max_len as nat),
{
    let t = trim_str(s);
    let ts = t.as_str();
    if ts.as_bytes().len() <= max_len {
        t
    } else {
        let mut r = truncate_chars(ts, max_len);
        r.append("\u{2026}");
        r
    }
}

/// Length of the preview cut of session listings.
pub const PREVIEW_MAX_LEN: usize = 120;

/// The content of the last message, if there are messages and the last has content.
pub open spec fn last_content(messages: Option<Seq<LegacyMessage>>) -> Option<Seq<char>> {
    match messages {
        Some(m) => if m.len() > 0 {
            match m.last().content {
                Some(c) => Some(c@),
                None => None,
            }
        } else {
            None
        },
        None => None,
    }
}

/// The listing entry for the legacy session `id` with the given stored entry.
pub open spec fn summary_spec(id: Seq<char>, e: LegacyEntry, r: LegacySession) -> bool {
    &&& r.id@ == id
    &&& r.title == e.title
    &&& r.created_at == e.created_at
    &&& r.updated_at == e.updated_at
    &&& r.message_count == (match e.messages {
        Some(m) => m@.len(),
        None => 0,
    })
    &&& (match last_content(match e.messages {
        Some(m) => Some(m@),
        None => None,
    }) {
        Some(c) => r.last_preview is Some && r.last_preview->0@ == preview_spec(c, PREVIEW_MAX_LEN as nat),
        None => r.last_preview is None,
    })
}

/// The contents of the messages that have content, in order.
pub open spec fn contents_spec(m: Seq<LegacyMessage>) -> Seq<Seq<char>>
    decreases m.len(),
{
    if m.len() == 0 {
        Seq::empty()
    } else {
        let rest = contents_spec(m.drop_last());
        match m.last().content {
            Some(c) => rest.push(c@),
            None => rest,
        }
    }
}

impl LegacyEntry {
    /// The listing entry for this stored entry under the session id `id`.
    pub fn summarize(&self, id: String) -> (r: LegacySession)
        ensures
            summary_spec(id@, *self, r),
    {
        let (count, last) = match &self.messages {
            Some(m) => {
                let n = m.len();
                let last = if n > 0 {
                    match &m[n - 1].content {
                        Some(c) => Some(truncate_preview(c.as_str(), PREVIEW_MAX_LEN)),
                        None => None,
                    }
                } else {
                    None
                };
                (n, last)
            },
            None => (0, None),
        };
        LegacySession {
            id,
            title: clone_opt_string(&self.title),
            created_at: clone_opt_string(&self.created_at),
            updated_at: clone_opt_string(&self.updated_at),
            message_count: count,
            last_preview: last,
        }
    }

    /// The message texts of this entry (messages without content are left
    /// out), or `None` when the entry has no message list.
    pub fn message_texts(&self) -> (r: Option<Vec<String>>)
        ensures
            match self.messages {
                Some(m) => r is Some && strings_view(r->0@) == contents_spec(m@),
                None => r is None,
            },
    {
        match &self.messages {
            None => None,
            Some(m) => {
                let mut out: Vec<String> = Vec::new();
                let mut i: usize = 0;
                while i < m.len()
                    invariant
                        i <= m.len(),
                        strings_view(out@) == contents_spec(m@.take(i as int)),
                    decreases m.len() - i,
                {
                    assert(m@.take(i + 1).drop_last() =~= m@.take(i as int));
                    match &m[i].content {
                        Some(c) => {
                            out.push(c.clone());
                        },
                        None => {},
                    }
                    assert(strings_view(out@) =~= contents_spec(m@.take(i + 1)));
                    i = i + 1;
                }
                assert(m@.take(m.len() as int) =~= m@);
                Some(out)
            },
        }
    }
}

} // verus!
