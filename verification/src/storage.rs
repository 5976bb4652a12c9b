//! Where persisted records go: paths of the file storage and keys of the
//! key-value storage. Writing is the caller's work.

use crate::ident::{hyphenated, id_text, SessionId, TraceId};
use vstd::prelude::*;

verus! {

/// Storage in files under a root directory, one directory per session.
#[derive(Clone, Debug)]
pub struct FileStorage {
    pub root: String,
}

/// The directory of a session under a root.
pub open spec fn session_dir_text(root: Seq<char>, session: SessionId) -> Seq<char> {
    root + "/"@ + hyphenated(session)
}

/// The path of a record of a trace: a file in the session's directory whose
/// name is made of a prefix, the trace id and an extension.
pub open spec fn record_path_text(
    root: Seq<char>,
    session: SessionId,
    prefix: Seq<char>,
    trace: TraceId,
    extension: Seq<char>,
) -> Seq<char> {
    session_dir_text(root, session) + "/"@ + prefix + hyphenated(trace) + extension
}

/// The key of a record in the key-value storage: prefix, session and, where
/// there is one, trace, with colons between them.
pub open spec fn key_text(prefix: Seq<char>, session: SessionId, trace: Option<TraceId>) -> Seq<
    char,
> {
    match trace {
        Some(trace) => prefix + ":"@ + hyphenated(session) + ":"@ + hyphenated(trace),
        None => prefix + ":"@ + hyphenated(session),
    }
}

impl FileStorage {
    /// The directory that holds the records of a session.
    pub fn session_dir(&self, session: SessionId) -> (path: String)
        ensures
            path@ == session_dir_text(self.root@, session),
    {
        let mut path = self.root.clone();
        path.append("/");
        path.append(id_text(session).as_str());
        path
    }

    fn record_path(&self, session: SessionId, prefix: &str, trace: TraceId, extension: &str) -> (path:
        String)
        ensures
            path@ == record_path_text(self.root@, session, prefix@, trace, extension@),
    {
        let mut path = self.session_dir(session);
        path.append("/");
        path.append(prefix);
        path.append(id_text(trace).as_str());
        path.append(extension);
        assert(path@ =~= record_path_text(self.root@, session, prefix@, trace, extension@));
        path
    }

    /// The file that holds the raw payload of a trace.
    pub fn trace_path(&self, session: SessionId, trace: TraceId) -> (path: String)
        ensures
            path@ == record_path_text(self.root@, session, "trace-"@, trace, ".json"@),
    {
        self.record_path(session, "trace-", trace, ".json")
    }

    /// The file that holds the rate-distortion series of a session.
    pub fn rd_series_path(&self, session: SessionId) -> (path: String)
        ensures
            path@ == session_dir_text(self.root@, session) + "/rd-series.json"@,
    {
        let mut path = self.session_dir(session);
        path.append("/rd-series.json");
        path
    }

    /// The file to which the provenance records of a trace are appended.
    pub fn provenance_path(&self, session: SessionId, trace: TraceId) -> (path: String)
        ensures
            path@ == record_path_text(self.root@, session, "prov-"@, trace, ".jsonl"@),
    {
        self.record_path(session, "prov-", trace, ".jsonl")
    }

    /// The file to which the checkpoints of a trace are appended.
    pub fn checkpoint_path(&self, session: SessionId, trace: TraceId) -> (path: String)
        ensures
            path@ == record_path_text(self.root@, session, "chk-"@, trace, ".jsonl"@),
    {
        self.record_path(session, "chk-", trace, ".jsonl")
    }
}

/// The key under which the key-value storage keeps a record.
pub fn make_key(prefix: &str, session: SessionId, trace: Option<TraceId>) -> (key: String)
    ensures
        key@ == key_text(prefix@, session, trace),
{
    let mut key = prefix.to_owned();
    key.append(":");
    key.append(id_text(session).as_str());
    match trace {
        Some(trace) => {
            key.append(":");
            key.append(id_text(trace).as_str());
        },
        None => {},
    }
    assert(key@ =~= key_text(prefix@, session, trace));
    key
}

} // verus!
