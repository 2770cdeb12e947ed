//! Where the service keeps its files: the database path, its directory, and
//! the RPC token file, each resolved against the executable's directory; and
//! reading a stored token.
use vstd::prelude::*;
use crate::text::{chars_of, str_to_string, string_of, trim, trim_vec};

verus! {

// ---------------------------------------------------------------------------
// The platform's path rules. What counts as absolute, how paths are joined and
// which prefix is a parent are fixed by the platform the crate is built for
// (separators and prefixes differ between Unix and Windows), so each is named
// here rather than written out; for one build each is a function of its
// arguments alone.

/// `Path::new(p).is_absolute()`.
pub uninterp spec fn platform_path_is_absolute(p: Seq<char>) -> bool;

/// The text of `Path::new(base).join(p)`.
pub uninterp spec fn platform_path_join(base: Seq<char>, p: Seq<char>) -> Seq<char>;

/// The text of `Path::new(p).parent()`.
pub uninterp spec fn platform_path_parent(p: Seq<char>) -> Option<Seq<char>>;

/// `Path::is_absolute` on a path given as text. Besides naming the answer, it
/// claims the documented case that holds on every platform: an empty path has
/// no root, so it is not absolute.
#[verifier::external_body]
fn path_is_absolute(p: &str) -> (r: bool)
    ensures
        r == platform_path_is_absolute(p@),
        p@.len() == 0 ==> !r,
{
    std::path::Path::new(p).is_absolute()
}

/// `Path::join` on paths given as text, converted back to text
/// (`to_string_lossy`).
#[verifier::external_body]
fn path_join(base: &str, p: &str) -> (r: String)
    ensures
        r@ == platform_path_join(base@, p@),
{
    std::path::Path::new(base).join(p).to_string_lossy().into_owned()
}

/// `Path::parent` on a path given as text. Besides naming the answer, it
/// claims the documented case that the empty path has no parent.
#[verifier::external_body]
fn path_parent(p: &str) -> (r: Option<String>)
    ensures
        match r {
            Some(q) => platform_path_parent(p@) == Some(q@),
            None => platform_path_parent(p@) is None,
        },
        p@.len() == 0 ==> r is None,
{
    std::path::Path::new(p).parent().map(|parent| parent.to_string_lossy().into_owned())
}

/// A configured path: blank gives the empty path; an absolute path is kept as
/// it is (trimmed); a relative one is joined to `base_dir`.
pub open spec fn spec_resolve_path(raw: Seq<char>, base_dir: Seq<char>) -> Seq<char> {
    let t = trim(raw);
    if t.len() == 0 {
        Seq::empty()
    } else if platform_path_is_absolute(t) {
        t
    } else {
        platform_path_join(base_dir, t)
    }
}

pub fn resolve_path_with_base(raw: &str, base_dir: &str) -> (r: String)
    ensures
        r@ == spec_resolve_path(raw@, base_dir@),
        trim(raw@).len() == 0 ==> r@.len() == 0,
{
    let t = trim_vec(&chars_of(raw));
    if t.len() == 0 {
        return String::new();
    }
    let text = string_of(t.as_slice());
    if path_is_absolute(text.as_str()) {
        return text;
    }
    path_join(base_dir, text.as_str())
}

/// The database path: the configured one when it is not blank, resolved
/// against the executable's directory, else `codexmanager.db` there.
pub open spec fn spec_db_path(configured: Option<Seq<char>>, exe_dir: Seq<char>) -> Seq<char> {
    match configured {
        Some(raw) if trim(raw).len() > 0 => spec_resolve_path(raw, exe_dir),
        _ => platform_path_join(exe_dir, "codexmanager.db"@),
    }
}

/// The database path (the caller records the result in the environment).
pub fn ensure_default_db_path(configured: Option<&str>, exe_dir: &str) -> (r: String)
    ensures
        r@ == spec_db_path(
            match configured {
                Some(c) => Some(c@),
                None => None,
            },
            exe_dir@,
        ),
{
    proof {
        reveal_strlit("codexmanager.db");
    }
    if let Some(raw) = configured {
        if trim_vec(&chars_of(raw)).len() > 0 {
            return resolve_path_with_base(raw, exe_dir);
        }
    }
    path_join(exe_dir, "codexmanager.db")
}

/// The directory of the database: the parent of its path, else the
/// executable's directory.
pub open spec fn spec_db_dir(db_path: Seq<char>, exe_dir: Seq<char>) -> Seq<char> {
    match platform_path_parent(db_path) {
        Some(p) => p,
        None => exe_dir,
    }
}

pub fn db_dir(db_path: &str, exe_dir: &str) -> (r: String)
    ensures
        r@ == spec_db_dir(db_path@, exe_dir@),
        db_path@.len() == 0 ==> r@ == exe_dir@,
{
    match path_parent(db_path) {
        Some(p) => p,
        None => str_to_string(exe_dir),
    }
}

/// The RPC token file: the configured one when it is not blank, resolved
/// against the executable's directory, else `codexmanager.rpc-token` in the
/// database directory.
pub open spec fn spec_rpc_token_file_path(
    configured: Option<Seq<char>>,
    configured_db_path: Option<Seq<char>>,
    exe_dir: Seq<char>,
) -> Seq<char> {
    match configured {
        Some(raw) if trim(raw).len() > 0 => spec_resolve_path(trim(raw), exe_dir),
        _ => platform_path_join(
            spec_db_dir(spec_db_path(configured_db_path, exe_dir), exe_dir),
            "codexmanager.rpc-token"@,
        ),
    }
}

pub fn rpc_token_file_path(configured: Option<&str>, configured_db_path: Option<&str>, exe_dir: &str) -> (r: String)
    ensures
        r@ == spec_rpc_token_file_path(
            match configured {
                Some(c) => Some(c@),
                None => None,
            },
            match configured_db_path {
                Some(c) => Some(c@),
                None => None,
            },
            exe_dir@,
        ),
{
    proof {
        reveal_strlit("codexmanager.rpc-token");
    }
    if let Some(raw) = configured {
        let t = trim_vec(&chars_of(raw));
        if t.len() > 0 {
            return resolve_path_with_base(string_of(t.as_slice()).as_str(), exe_dir);
        }
    }
    let db_path = ensure_default_db_path(configured_db_path, exe_dir);
    let dir = db_dir(db_path.as_str(), exe_dir);
    path_join(dir.as_str(), "codexmanager.rpc-token")
}

/// A token as stored or configured: the trimmed text, when not blank.
pub open spec fn spec_token_text(text: Seq<char>) -> Option<Seq<char>> {
    if trim(text).len() == 0 {
        None
    } else {
        Some(trim(text))
    }
}

/// The token in a token file's contents.
pub fn read_rpc_token_from_file(contents: &str) -> (r: Option<String>)
    ensures
        match r {
            Some(t) => spec_token_text(contents@) == Some(t@),
            None => spec_token_text(contents@) is None,
        },
{
    let t = trim_vec(&chars_of(contents));
    if t.len() == 0 {
        None
    } else {
        Some(string_of(t.as_slice()))
    }
}

/// How creating the token file (create-new, then writing the token) went.
pub enum TokenFileCreate {
    /// The file was created (whether or not writing the token then succeeded).
    Created,
    /// Another process created it first.
    AlreadyExists,
    /// It could not be created for another reason.
    Failed,
}

/// Where persisting a token stands.
pub enum PersistTokenState {
    Start,
    ReadingExisting,
    Overwriting,
    MakingDir,
    Creating,
    Rereading,
}

/// What the caller does next.
pub enum PersistTokenAction {
    /// Read the token file and report its text (`None` when it cannot be read).
    ReadTokenFile,
    /// Replace the contents of the existing (blank) token file with the token.
    OverwriteBlankFile,
    /// Make sure the file's directory exists and report whether it does.
    CreateParentDir,
    /// Create the file, failing if it exists, write the token, and report.
    CreateNewAndWrite,
    /// Stop: `Some(token)` when a token already stored must be used instead.
    Finish(Option<String>),
}

/// What the caller reports back.
pub enum PersistTokenEvent {
    Begin,
    FileRead(Option<String>),
    /// The overwrite was attempted (whether or not it succeeded).
    Overwritten,
    ParentDirReady(bool),
    CreateResult(TokenFileCreate),
}

/// The events each state waits for.
pub open spec fn persist_event_fits(state: PersistTokenState, event: PersistTokenEvent) -> bool {
    match state {
        PersistTokenState::Start => event is Begin,
        PersistTokenState::ReadingExisting => event is FileRead,
        PersistTokenState::Overwriting => event is Overwritten,
        PersistTokenState::MakingDir => event is ParentDirReady,
        PersistTokenState::Creating => event is CreateResult,
        PersistTokenState::Rereading => event is FileRead,
    }
}

pub open spec fn opt_text(o: Option<String>) -> Option<Seq<char>> {
    match o {
        Some(s) => Some(s@),
        None => None,
    }
}

pub open spec fn read_token(contents: Option<Seq<char>>) -> Option<Seq<char>> {
    match contents {
        Some(c) => spec_token_text(c),
        None => None,
    }
}

/// Writing the token only when the file is missing or blank: a token already
/// stored is returned for use; a blank file is overwritten with the token; a
/// missing (or unreadable) one is created fresh after making its directory;
/// when another process created it in between, its token is read back; every
/// failure ends with nothing to use instead.
pub open spec fn spec_persist_step(
    state: PersistTokenState,
    event: PersistTokenEvent,
) -> (PersistTokenState, Option<Option<Seq<char>>>) {
    match (state, event) {
        (PersistTokenState::ReadingExisting, PersistTokenEvent::FileRead(c)) => match opt_text(c) {
            Some(text) => match spec_token_text(text) {
                Some(t) => (PersistTokenState::ReadingExisting, Some(Some(t))),
                None => (PersistTokenState::Overwriting, None),
            },
            None => (PersistTokenState::MakingDir, None),
        },
        (PersistTokenState::Overwriting, PersistTokenEvent::Overwritten) => (
            PersistTokenState::Overwriting,
            Some(None),
        ),
        (PersistTokenState::MakingDir, PersistTokenEvent::ParentDirReady(ok)) => if ok {
            (PersistTokenState::Creating, None)
        } else {
            (PersistTokenState::MakingDir, Some(None))
        },
        (PersistTokenState::Creating, PersistTokenEvent::CreateResult(outcome)) => match outcome {
            TokenFileCreate::AlreadyExists => (PersistTokenState::Rereading, None),
            _ => (PersistTokenState::Creating, Some(None)),
        },
        (PersistTokenState::Rereading, PersistTokenEvent::FileRead(c)) => (
            PersistTokenState::Rereading,
            Some(read_token(opt_text(c))),
        ),
        _ => (PersistTokenState::ReadingExisting, None),
    }
}

/// The action that goes with a state the machine moved on to.
pub open spec fn action_for(state: PersistTokenState) -> PersistTokenAction {
    match state {
        PersistTokenState::Overwriting => PersistTokenAction::OverwriteBlankFile,
        PersistTokenState::MakingDir => PersistTokenAction::CreateParentDir,
        PersistTokenState::Creating => PersistTokenAction::CreateNewAndWrite,
        _ => PersistTokenAction::ReadTokenFile,
    }
}

/// One step of persisting a token: from the state and what the caller
/// reports, the next state and the next action. (Begin with `Start` and
/// `Begin`; stop at `Finish`.)
pub fn persist_rpc_token_if_missing(
    state: PersistTokenState,
    event: PersistTokenEvent,
) -> (r: (PersistTokenState, PersistTokenAction))
    requires
        persist_event_fits(state, event),
    ensures
        match spec_persist_step(state, event).1 {
            Some(out) => r.1 matches PersistTokenAction::Finish(o) && opt_text(o) == out,
            None => r.0 == spec_persist_step(state, event).0 && r.1 == action_for(r.0),
        },
{
    match (state, event) {
        (PersistTokenState::ReadingExisting, PersistTokenEvent::FileRead(c)) => match &c {
            Some(text) => match read_rpc_token_from_file(text.as_str()) {
                Some(t) => (PersistTokenState::ReadingExisting, PersistTokenAction::Finish(Some(t))),
                None => (PersistTokenState::Overwriting, PersistTokenAction::OverwriteBlankFile),
            },
            None => (PersistTokenState::MakingDir, PersistTokenAction::CreateParentDir),
        },
        (PersistTokenState::Overwriting, PersistTokenEvent::Overwritten) => (
            PersistTokenState::Overwriting,
            PersistTokenAction::Finish(None),
        ),
        (PersistTokenState::MakingDir, PersistTokenEvent::ParentDirReady(ok)) => {
            if ok {
                (PersistTokenState::Creating, PersistTokenAction::CreateNewAndWrite)
            } else {
                (PersistTokenState::MakingDir, PersistTokenAction::Finish(None))
            }
        },
        (PersistTokenState::Creating, PersistTokenEvent::CreateResult(outcome)) => match outcome {
            TokenFileCreate::AlreadyExists => (
                PersistTokenState::Rereading,
                PersistTokenAction::ReadTokenFile,
            ),
            _ => (PersistTokenState::Creating, PersistTokenAction::Finish(None)),
        },
        (PersistTokenState::Rereading, PersistTokenEvent::FileRead(c)) => {
            let again = match &c {
                Some(text) => read_rpc_token_from_file(text.as_str()),
                None => None,
            };
            (PersistTokenState::Rereading, PersistTokenAction::Finish(again))
        },
        _ => (PersistTokenState::ReadingExisting, PersistTokenAction::ReadTokenFile),
    }
}

/// The token from the environment when it is set and not blank; otherwise the
/// caller reads the token file.
pub fn read_rpc_token_from_env(configured: Option<&str>) -> (r: Option<String>)
    ensures
        match configured {
            Some(c) => match r {
                Some(t) => spec_token_text(c@) == Some(t@),
                None => spec_token_text(c@) is None,
            },
            None => r is None,
        },
{
    match configured {
        Some(c) => read_rpc_token_from_file(c),
        None => None,
    }
}

} // verus!
