//! What is known of an agent thread, and the form in which it is sent and stored.
use serde_json::Value;
use vstd::prelude::*;

use crate::folder;
use crate::json;
use crate::text;
use crate::thread_id;
use crate::thread_id::{InvalidThreadId, ThreadId};
use crate::timestamp;
use crate::timestamp::Timestamp;

verus! {

/// The title of a thread that has none of its own.
pub const DEFAULT_THREAD_TITLE: &'static str = "New Agent Thread";

/// What became of the changes of a thread.
#[derive(Debug, Clone, Copy, PartialEq, Eq, Structural)]
pub enum ThreadLandingState {
    Merged,
    PullRequested,
}

impl ThreadLandingState {
    /// The word by which a state is stored.
    pub open spec fn word(self) -> Seq<char> {
        match self {
            ThreadLandingState::Merged => "merged"@,
            ThreadLandingState::PullRequested => "pull_requested"@,
        }
    }

    /// The state that a word stands for.
    pub open spec fn of_word(word: Seq<char>) -> Option<ThreadLandingState> {
        if word == "merged"@ {
            Some(ThreadLandingState::Merged)
        } else if word == "pull_requested"@ {
            Some(ThreadLandingState::PullRequested)
        } else {
            None
        }
    }

    pub fn from_db_value(value: &str) -> (state: Option<Self>)
        ensures
            state == Self::of_word(value@),
    {
        if text::same_text(value, "merged") {
            Some(ThreadLandingState::Merged)
        } else if text::same_text(value, "pull_requested") {
            Some(ThreadLandingState::PullRequested)
        } else {
            None
        }
    }

    pub fn as_db_value(self) -> (value: &'static str)
        ensures
            value@ == self.word(),
    {
        match self {
            ThreadLandingState::Merged => "merged",
            ThreadLandingState::PullRequested => "pull_requested",
        }
    }
}

/// A state is read back from its word, and no other word stands for it.
pub proof fn landing_state_reads_back(state: ThreadLandingState, word: Seq<char>)
    ensures
        ThreadLandingState::of_word(word) == Some(state) <==> word == state.word(),
{
    reveal_strlit("merged");
    reveal_strlit("pull_requested");
    assert("merged"@.len() != "pull_requested"@.len());
}

/// A list of paths in its stored form.
#[derive(Debug, PartialEq, Eq)]
pub struct SerializedPathList {
    pub paths: String,
    pub order: String,
}

/// A list of paths. The paths are in their normal form, in which equal paths are equal
/// texts.
#[derive(Debug, PartialEq, Eq)]
pub struct PathList {
    /// The paths, sorted.
    pub paths: Vec<String>,
    /// The paths in the order in which they were added.
    pub ordered_paths: Vec<String>,
    pub serialized: SerializedPathList,
}

/// The folders of a project: the checkouts that are worked in, and the main worktrees
/// that they belong to.
#[derive(Debug, PartialEq, Eq)]
pub struct WorktreePaths {
    pub folder_paths: PathList,
    pub main_worktree_paths: PathList,
}

/// The model of a [`SerializedPathList`] or an [`AgentThreadPathList`].
pub struct SerializedPathListView {
    pub paths: Seq<char>,
    pub order: Seq<char>,
}

/// The model of a [`PathList`].
pub struct PathListView {
    pub paths: Seq<Seq<char>>,
    pub ordered_paths: Seq<Seq<char>>,
    pub serialized: SerializedPathListView,
}

/// The model of [`WorktreePaths`].
pub struct WorktreePathsView {
    pub folder_paths: PathListView,
    pub main_worktree_paths: PathListView,
}

impl View for SerializedPathList {
    type V = SerializedPathListView;

    open spec fn view(&self) -> SerializedPathListView {
        SerializedPathListView { paths: self.paths@, order: self.order@ }
    }
}

impl View for PathList {
    type V = PathListView;

    open spec fn view(&self) -> PathListView {
        PathListView {
            paths: text::texts(self.paths@),
            ordered_paths: text::texts(self.ordered_paths@),
            serialized: self.serialized@,
        }
    }
}

impl View for WorktreePaths {
    type V = WorktreePathsView;

    open spec fn view(&self) -> WorktreePathsView {
        WorktreePathsView {
            folder_paths: self.folder_paths@,
            main_worktree_paths: self.main_worktree_paths@,
        }
    }
}

/// The list without paths.
pub open spec fn no_paths() -> PathListView {
    PathListView {
        paths: Seq::empty(),
        ordered_paths: Seq::empty(),
        serialized: SerializedPathListView { paths: Seq::empty(), order: Seq::empty() },
    }
}

/// No folders at all.
pub open spec fn no_worktree_paths() -> WorktreePathsView {
    WorktreePathsView { folder_paths: no_paths(), main_worktree_paths: no_paths() }
}

impl Default for PathList {
    fn default() -> (list: Self)
        ensures
            list@ == no_paths(),
    {
        let list = PathList {
            paths: Vec::new(),
            ordered_paths: Vec::new(),
            serialized: SerializedPathList { paths: String::new(), order: String::new() },
        };
        assert(list@.paths =~= no_paths().paths);
        assert(list@.ordered_paths =~= no_paths().ordered_paths);
        assert(list@.serialized.paths =~= no_paths().serialized.paths);
        assert(list@.serialized.order =~= no_paths().serialized.order);
        list
    }
}

impl Default for WorktreePaths {
    fn default() -> (paths: Self)
        ensures
            paths@ == no_worktree_paths(),
    {
        WorktreePaths { folder_paths: PathList::default(), main_worktree_paths: PathList::default() }
    }
}

impl Clone for PathList {
    fn clone(&self) -> (copy: Self)
        ensures
            copy@ == self@,
    {
        PathList {
            paths: text::copy_texts(&self.paths),
            ordered_paths: text::copy_texts(&self.ordered_paths),
            serialized: SerializedPathList {
                paths: self.serialized.paths.clone(),
                order: self.serialized.order.clone(),
            },
        }
    }
}

impl Clone for WorktreePaths {
    fn clone(&self) -> (copy: Self)
        ensures
            copy@ == self@,
    {
        WorktreePaths {
            folder_paths: self.folder_paths.clone(),
            main_worktree_paths: self.main_worktree_paths.clone(),
        }
    }
}

/// How to reach the machine that a thread lives on: the JSON object of the connection's
/// options.
#[derive(Debug, PartialEq, Eq)]
pub struct RemoteConnectionOptions {
    pub options: Value,
}

/// What is known of a thread.
#[derive(Debug, PartialEq, Eq)]
pub struct ThreadMetadata {
    pub thread_id: ThreadId,
    pub session_id: Option<String>,
    pub agent_id: String,
    pub title: Option<String>,
    /// User-supplied title that takes precedence over `title`.
    pub title_override: Option<String>,
    pub parallel_attempt_group: Option<String>,
    pub landed: Option<ThreadLandingState>,
    pub updated_at: Timestamp,
    pub created_at: Option<Timestamp>,
    /// When a user last interacted to send a message, including queueing.
    pub interacted_at: Option<Timestamp>,
    pub worktree_paths: WorktreePaths,
    pub remote_connection: Option<RemoteConnectionOptions>,
    pub archived: bool,
    /// Whether the session of the thread runs on the server. This is not sent.
    pub server_hosted: bool,
}

/// The model of [`ThreadMetadata`].
pub struct ThreadMetadataView {
    pub thread_id: ThreadId,
    pub session_id: Option<Seq<char>>,
    pub agent_id: Seq<char>,
    pub title: Option<Seq<char>>,
    pub title_override: Option<Seq<char>>,
    pub parallel_attempt_group: Option<Seq<char>>,
    pub landed: Option<ThreadLandingState>,
    pub updated_at: timestamp::TimestampView,
    pub created_at: Option<timestamp::TimestampView>,
    pub interacted_at: Option<timestamp::TimestampView>,
    pub worktree_paths: WorktreePathsView,
    pub remote_connection: Option<Value>,
    pub archived: bool,
    pub server_hosted: bool,
}

/// The model of an optional point in time.
pub open spec fn optional_time(time: Option<Timestamp>) -> Option<timestamp::TimestampView> {
    match time {
        Some(time) => Some(time@),
        None => None,
    }
}

impl View for ThreadMetadata {
    type V = ThreadMetadataView;

    open spec fn view(&self) -> ThreadMetadataView {
        ThreadMetadataView {
            thread_id: self.thread_id,
            session_id: text::optional_text(self.session_id),
            agent_id: self.agent_id@,
            title: text::optional_text(self.title),
            title_override: text::optional_text(self.title_override),
            parallel_attempt_group: text::optional_text(self.parallel_attempt_group),
            landed: self.landed,
            updated_at: self.updated_at@,
            created_at: optional_time(self.created_at),
            interacted_at: optional_time(self.interacted_at),
            worktree_paths: self.worktree_paths@,
            remote_connection: match self.remote_connection {
                Some(connection) => Some(connection.options),
                None => None,
            },
            archived: self.archived,
            server_hosted: self.server_hosted,
        }
    }
}

impl Clone for ThreadMetadata {
    fn clone(&self) -> (copy: Self)
        ensures
            copy@ == self@,
    {
        ThreadMetadata {
            thread_id: self.thread_id,
            session_id: self.session_id.clone(),
            agent_id: self.agent_id.clone(),
            title: self.title.clone(),
            title_override: self.title_override.clone(),
            parallel_attempt_group: self.parallel_attempt_group.clone(),
            landed: self.landed,
            updated_at: self.updated_at,
            created_at: self.created_at,
            interacted_at: self.interacted_at,
            worktree_paths: self.worktree_paths.clone(),
            remote_connection: match &self.remote_connection {
                Some(connection) => Some(
                    RemoteConnectionOptions { options: connection.options.clone() },
                ),
                None => None,
            },
            archived: self.archived,
            server_hosted: self.server_hosted,
        }
    }
}

/// A list of paths in a message.
#[derive(Debug, PartialEq, Eq)]
pub struct AgentThreadPathList {
    pub paths: String,
    pub order: String,
}

impl View for AgentThreadPathList {
    type V = SerializedPathListView;

    open spec fn view(&self) -> SerializedPathListView {
        SerializedPathListView { paths: self.paths@, order: self.order@ }
    }
}

/// What is known of a thread, in a message.
#[derive(Debug, PartialEq, Eq)]
pub struct AgentThreadMetadata {
    pub thread_id: String,
    pub session_id: Option<String>,
    pub agent_id: String,
    pub title: Option<String>,
    pub title_override: Option<String>,
    pub parallel_attempt_group: Option<String>,
    pub landed: Option<String>,
    pub updated_at_millis: i64,
    pub created_at_millis: Option<i64>,
    pub interacted_at_millis: Option<i64>,
    pub folder_paths: Option<AgentThreadPathList>,
    pub main_worktree_paths: Option<AgentThreadPathList>,
    pub remote_connection_json: Option<String>,
    pub archived: bool,
}

/// The model of [`AgentThreadMetadata`].
pub struct AgentThreadMetadataView {
    pub thread_id: Seq<char>,
    pub session_id: Option<Seq<char>>,
    pub agent_id: Seq<char>,
    pub title: Option<Seq<char>>,
    pub title_override: Option<Seq<char>>,
    pub parallel_attempt_group: Option<Seq<char>>,
    pub landed: Option<Seq<char>>,
    pub updated_at_millis: int,
    pub created_at_millis: Option<int>,
    pub interacted_at_millis: Option<int>,
    pub folder_paths: Option<SerializedPathListView>,
    pub main_worktree_paths: Option<SerializedPathListView>,
    pub remote_connection_json: Option<Seq<char>>,
    pub archived: bool,
}

/// The model of optional milliseconds.
pub open spec fn optional_millis(millis: Option<i64>) -> Option<int> {
    match millis {
        Some(millis) => Some(millis as int),
        None => None,
    }
}

/// The model of an optional list of paths.
pub open spec fn optional_list(list: Option<AgentThreadPathList>) -> Option<
    SerializedPathListView,
> {
    match list {
        Some(list) => Some(list@),
        None => None,
    }
}

impl View for AgentThreadMetadata {
    type V = AgentThreadMetadataView;

    open spec fn view(&self) -> AgentThreadMetadataView {
        AgentThreadMetadataView {
            thread_id: self.thread_id@,
            session_id: text::optional_text(self.session_id),
            agent_id: self.agent_id@,
            title: text::optional_text(self.title),
            title_override: text::optional_text(self.title_override),
            parallel_attempt_group: text::optional_text(self.parallel_attempt_group),
            landed: text::optional_text(self.landed),
            updated_at_millis: self.updated_at_millis as int,
            created_at_millis: optional_millis(self.created_at_millis),
            interacted_at_millis: optional_millis(self.interacted_at_millis),
            folder_paths: optional_list(self.folder_paths),
            main_worktree_paths: optional_list(self.main_worktree_paths),
            remote_connection_json: text::optional_text(self.remote_connection_json),
            archived: self.archived,
        }
    }
}

/// Why thread metadata could not be written or read.
#[derive(Debug)]
pub enum ThreadMetadataError {
    SerializeRemoteConnection(serde_json::Error),
    DeserializeRemoteConnection(serde_json::Error),
    InvalidThreadId(InvalidThreadId),
    InvalidUpdatedAt,
    InvalidCreatedAt,
    InvalidInteractedAt,
}

/// What is wrong with thread metadata.
pub enum ThreadMetadataFault {
    SerializeRemoteConnection,
    DeserializeRemoteConnection,
    InvalidThreadId,
    InvalidUpdatedAt,
    InvalidCreatedAt,
    InvalidInteractedAt,
}

impl View for ThreadMetadataError {
    type V = ThreadMetadataFault;

    open spec fn view(&self) -> ThreadMetadataFault {
        match self {
            ThreadMetadataError::SerializeRemoteConnection(_) =>
                ThreadMetadataFault::SerializeRemoteConnection,
            ThreadMetadataError::DeserializeRemoteConnection(_) =>
                ThreadMetadataFault::DeserializeRemoteConnection,
            ThreadMetadataError::InvalidThreadId(_) => ThreadMetadataFault::InvalidThreadId,
            ThreadMetadataError::InvalidUpdatedAt => ThreadMetadataFault::InvalidUpdatedAt,
            ThreadMetadataError::InvalidCreatedAt => ThreadMetadataFault::InvalidCreatedAt,
            ThreadMetadataError::InvalidInteractedAt => ThreadMetadataFault::InvalidInteractedAt,
        }
    }
}

impl ThreadMetadataFault {
    pub open spec fn message(self) -> Seq<char> {
        match self {
            ThreadMetadataFault::SerializeRemoteConnection =>
                "serialize thread metadata remote connection"@,
            ThreadMetadataFault::DeserializeRemoteConnection =>
                "deserialize thread metadata remote connection"@,
            ThreadMetadataFault::InvalidThreadId => "invalid thread id"@,
            ThreadMetadataFault::InvalidUpdatedAt => "invalid updated_at timestamp"@,
            ThreadMetadataFault::InvalidCreatedAt => "invalid created_at timestamp"@,
            ThreadMetadataFault::InvalidInteractedAt => "invalid interacted_at timestamp"@,
        }
    }
}

impl ThreadMetadataError {
    pub fn message(&self) -> (message: &'static str)
        ensures
            message@ == self@.message(),
    {
        match self {
            ThreadMetadataError::SerializeRemoteConnection(_) =>
                "serialize thread metadata remote connection",
            ThreadMetadataError::DeserializeRemoteConnection(_) =>
                "deserialize thread metadata remote connection",
            ThreadMetadataError::InvalidThreadId(_) => "invalid thread id",
            ThreadMetadataError::InvalidUpdatedAt => "invalid updated_at timestamp",
            ThreadMetadataError::InvalidCreatedAt => "invalid created_at timestamp",
            ThreadMetadataError::InvalidInteractedAt => "invalid interacted_at timestamp",
        }
    }
}

/// The time that optional milliseconds stand for; outside `None` where `chrono` has no
/// date for them.
pub open spec fn time_of(millis: Option<int>) -> Option<Option<timestamp::TimestampView>> {
    match millis {
        Some(millis) => match timestamp::from_millis(millis) {
            Some(time) => Some(Some(time)),
            None => None,
        },
        None => Some(None),
    }
}

impl ThreadMetadataView {
    /// The title that is shown: the user's own before the generated one.
    pub open spec fn title(self) -> Option<Seq<char>> {
        match self.title_override {
            Some(title) => Some(title),
            None => self.title,
        }
    }

    /// The message that tells of a thread, `None` where `serde_json` cannot print the
    /// options of its connection.
    pub open spec fn to_wire(self) -> Option<AgentThreadMetadataView> {
        let printed = match self.remote_connection {
            Some(options) => match json::printed_json(options) {
                Some(text) => Some(Some(text)),
                None => None,
            },
            None => Some(None),
        };
        match printed {
            Some(remote_connection_json) => Some(
                AgentThreadMetadataView {
                    thread_id: thread_id::hyphenated_text(self.thread_id.bits),
                    session_id: self.session_id,
                    agent_id: self.agent_id,
                    title: self.title,
                    title_override: self.title_override,
                    parallel_attempt_group: self.parallel_attempt_group,
                    landed: match self.landed {
                        Some(state) => Some(state.word()),
                        None => None,
                    },
                    updated_at_millis: self.updated_at.millis(),
                    created_at_millis: match self.created_at {
                        Some(time) => Some(time.millis()),
                        None => None,
                    },
                    interacted_at_millis: match self.interacted_at {
                        Some(time) => Some(time.millis()),
                        None => None,
                    },
                    folder_paths: Some(self.worktree_paths.folder_paths.serialized),
                    main_worktree_paths: Some(self.worktree_paths.main_worktree_paths.serialized),
                    remote_connection_json,
                    archived: self.archived,
                },
            ),
            None => None,
        }
    }

    /// Whether the times are such that `chrono` can hold them.
    pub open spec fn times_in_range(self) -> bool {
        &&& self.updated_at.in_range()
        &&& self.created_at matches Some(time) ==> time.in_range()
        &&& self.interacted_at matches Some(time) ==> time.in_range()
    }

    /// Whether a message can tell everything of a thread: it keeps times to the
    /// millisecond, has no text for an empty title or group, and does not say where a
    /// session runs.
    pub open spec fn fits_wire(self) -> bool {
        &&& self.title != Some(Seq::<char>::empty())
        &&& self.title_override != Some(Seq::<char>::empty())
        &&& self.parallel_attempt_group != Some(Seq::<char>::empty())
        &&& self.updated_at.is_whole_millis()
        &&& self.created_at matches Some(time) ==> time.is_whole_millis()
        &&& self.interacted_at matches Some(time) ==> time.is_whole_millis()
        &&& !self.server_hosted
    }

    /// Whether the options of the connection are read back from what is printed of them.
    pub open spec fn connection_reads_back(self) -> bool {
        self.remote_connection matches Some(options) ==> (json::printed_json(options) matches Some(
            text,
        ) && json::parsed_json(text) == Some(options))
    }
}

impl AgentThreadMetadataView {
    /// The thread that a message tells of, given the folders that its two lists of paths
    /// are read as and whether its connection is read as options, or the first thing that is
    /// wrong with it. Lists that do not fit together count as no folders, and a landing
    /// state that is not known as none.
    pub open spec fn from_wire(
        self,
        worktree_paths: Option<WorktreePathsView>,
        options_read: bool,
    ) -> Result<ThreadMetadataView, ThreadMetadataFault> {
        let remote_connection = match self.remote_connection_json {
            Some(text) => json::parsed_json(text),
            None => None,
        };
        if self.remote_connection_json is Some && (remote_connection is None || !options_read) {
            Err(ThreadMetadataFault::DeserializeRemoteConnection)
        } else if thread_id::uuid_number(self.thread_id) is None {
            Err(ThreadMetadataFault::InvalidThreadId)
        } else if timestamp::from_millis(self.updated_at_millis) is None {
            Err(ThreadMetadataFault::InvalidUpdatedAt)
        } else if time_of(self.created_at_millis) is None {
            Err(ThreadMetadataFault::InvalidCreatedAt)
        } else if time_of(self.interacted_at_millis) is None {
            Err(ThreadMetadataFault::InvalidInteractedAt)
        } else {
            Ok(
                ThreadMetadataView {
                    thread_id: ThreadId { bits: thread_id::uuid_number(self.thread_id)->0 as u128 },
                    session_id: self.session_id,
                    agent_id: self.agent_id,
                    title: text::non_empty(self.title),
                    title_override: text::non_empty(self.title_override),
                    parallel_attempt_group: text::non_empty(self.parallel_attempt_group),
                    landed: match self.landed {
                        Some(word) => ThreadLandingState::of_word(word),
                        None => None,
                    },
                    updated_at: timestamp::from_millis(self.updated_at_millis)->0,
                    created_at: time_of(self.created_at_millis)->0,
                    interacted_at: time_of(self.interacted_at_millis)->0,
                    worktree_paths: match worktree_paths {
                        Some(paths) => paths,
                        None => no_worktree_paths(),
                    },
                    remote_connection,
                    archived: self.archived,
                    server_hosted: false,
                },
            )
        }
    }
}

impl AgentThreadMetadataView {
    /// Whether an error holds what reading the connection as options gave, where that is
    /// why the message was refused.
    pub open spec fn hands_on(
        self,
        options_read: Result<(), serde_json::Error>,
        error: ThreadMetadataError,
    ) -> bool {
        self.remote_connection_json matches Some(text) ==> json::parsed_json(text) is Some ==> (
        options_read matches Err(cause) ==> error
            == ThreadMetadataError::DeserializeRemoteConnection(cause))
    }
}

/// The model of folders that may not fit together.
pub open spec fn optional_paths(paths: Option<WorktreePaths>) -> Option<WorktreePathsView> {
    match paths {
        Some(paths) => Some(paths@),
        None => None,
    }
}

fn time_from_millis(millis: Option<i64>) -> (time: Option<Option<Timestamp>>)
    ensures
        match time {
            Some(time) => time_of(optional_millis(millis)) == Some(optional_time(time)),
            None => time_of(optional_millis(millis)) is None,
        },
{
    match millis {
        Some(millis) => match Timestamp::from_timestamp_millis(millis) {
            Some(time) => Some(Some(time)),
            None => None,
        },
        None => Some(None),
    }
}

fn path_list_to_proto(path_list: &PathList) -> (list: AgentThreadPathList)
    ensures
        list@ == path_list@.serialized,
{
    AgentThreadPathList {
        paths: path_list.serialized.paths.clone(),
        order: path_list.serialized.order.clone(),
    }
}

impl ThreadMetadata {
    /// Whether the thread has no session yet.
    pub fn is_draft(&self) -> (draft: bool)
        ensures
            draft == (self@.session_id is None),
    {
        self.session_id.is_none()
    }

    /// The title that is shown for the thread.
    pub fn display_title(&self) -> (title: String)
        ensures
            title@ == (match self@.title() {
                Some(title) => title,
                None => DEFAULT_THREAD_TITLE@,
            }),
    {
        match self.title() {
            Some(title) => title,
            None => DEFAULT_THREAD_TITLE.to_string(),
        }
    }

    pub fn title(&self) -> (title: Option<String>)
        ensures
            text::optional_text(title) == self@.title(),
    {
        match &self.title_override {
            Some(title) => Some(title.clone()),
            None => self.title.clone(),
        }
    }

    pub fn folder_paths(&self) -> (paths: &PathList)
        ensures
            paths@ == self@.worktree_paths.folder_paths,
    {
        &self.worktree_paths.folder_paths
    }

    pub fn main_worktree_paths(&self) -> (paths: &PathList)
        ensures
            paths@ == self@.worktree_paths.main_worktree_paths,
    {
        &self.worktree_paths.main_worktree_paths
    }

    /// Whether the thread works in a folder, whichever way the path of the folder is written.
    /// Which paths are the same is for the platform to say; see [`folder::compares`].
    pub fn references_folder_path(&self, path: &str) -> (found: bool)
        ensures
            ({
                let paths = self@.worktree_paths.folder_paths.paths;
                if found {
                    exists|i: int|
                        0 <= i < paths.len() && folder::compares(#[trigger] paths[i], path@, true)
                } else {
                    forall|i: int|
                        0 <= i < paths.len() ==> folder::compares(
                            #[trigger] paths[i],
                            path@,
                            false,
                        )
                }
            }),
    {
        let paths = &self.worktree_paths.folder_paths.paths;
        let ghost views = self@.worktree_paths.folder_paths.paths;
        let mut i: usize = 0;
        while i < paths.len()
            invariant
                i <= paths.len(),
                paths@ == self.worktree_paths.folder_paths.paths@,
                views == text::texts(paths@),
                views == self@.worktree_paths.folder_paths.paths,
                forall|j: int| 0 <= j < i ==> folder::compares(#[trigger] views[j], path@, false),
            decreases paths.len() - i,
        {
            assert(views[i as int] == paths@[i as int]@);
            if folder::same_folder(&paths[i], path) {
                assert(folder::compares(views[i as int], path@, true));
                return true;
            }
            i += 1;
        }
        false
    }

    /// The message that tells of the thread.
    pub fn to_proto(&self) -> (res: Result<AgentThreadMetadata, ThreadMetadataError>)
        ensures
            match res {
                Ok(thread) => self@.to_wire() == Some(thread@),
                Err(error) => self@.to_wire() is None && error@
                    == ThreadMetadataFault::SerializeRemoteConnection,
            },
            self@.times_in_range(),
    {
        let updated_at_millis = self.updated_at.timestamp_millis();
        let created_at_millis = match &self.created_at {
            Some(time) => Some(time.timestamp_millis()),
            None => None,
        };
        let interacted_at_millis = match &self.interacted_at {
            Some(time) => Some(time.timestamp_millis()),
            None => None,
        };
        let remote_connection_json = match &self.remote_connection {
            Some(connection) => match json::print_json(&connection.options) {
                Ok(text) => Some(text),
                Err(error) => {
                    return Err(ThreadMetadataError::SerializeRemoteConnection(error));
                },
            },
            None => None,
        };
        let landed = match self.landed {
            Some(state) => Some(state.as_db_value().to_string()),
            None => None,
        };
        Ok(
            AgentThreadMetadata {
                thread_id: self.thread_id.to_key_string(),
                session_id: self.session_id.clone(),
                agent_id: self.agent_id.clone(),
                title: self.title.clone(),
                title_override: self.title_override.clone(),
                parallel_attempt_group: self.parallel_attempt_group.clone(),
                landed,
                updated_at_millis,
                created_at_millis,
                interacted_at_millis,
                folder_paths: Some(path_list_to_proto(self.folder_paths())),
                main_worktree_paths: Some(path_list_to_proto(self.main_worktree_paths())),
                remote_connection_json,
                archived: self.archived,
            },
        )
    }

    /// The thread that a message tells of. The folders that the message's two lists of
    /// paths are read as are handed in, `None` where the lists do not fit together, and
    /// what reading the JSON of the message's connection as options came to; without a
    /// connection that does not count.
    pub fn from_proto(
        thread: AgentThreadMetadata,
        worktree_paths: Option<WorktreePaths>,
        options_read: Result<(), serde_json::Error>,
    ) -> (res: Result<Self, ThreadMetadataError>)
        ensures
            match res {
                Ok(metadata) => thread@.from_wire(
                    optional_paths(worktree_paths),
                    options_read is Ok,
                ) == Ok::<ThreadMetadataView, ThreadMetadataFault>(metadata@),
                Err(error) => thread@.from_wire(
                    optional_paths(worktree_paths),
                    options_read is Ok,
                ) == Err::<ThreadMetadataView, ThreadMetadataFault>(error@) && thread@.hands_on(
                    options_read,
                    error,
                ),
            },
    {
        let remote_connection = match &thread.remote_connection_json {
            Some(text) => match json::parse_json(text) {
                Ok(options) => match options_read {
                    Ok(_) => Some(RemoteConnectionOptions { options }),
                    Err(error) => {
                        return Err(ThreadMetadataError::DeserializeRemoteConnection(error));
                    },
                },
                Err(error) => {
                    return Err(ThreadMetadataError::DeserializeRemoteConnection(error));
                },
            },
            None => None,
        };
        let worktree_paths = match worktree_paths {
            Some(paths) => paths,
            None => WorktreePaths::default(),
        };
        let thread_id = match ThreadId::parse(&thread.thread_id) {
            Ok(id) => id,
            Err(error) => {
                return Err(ThreadMetadataError::InvalidThreadId(error));
            },
        };
        let landed = match &thread.landed {
            Some(word) => ThreadLandingState::from_db_value(word),
            None => None,
        };
        let updated_at = match Timestamp::from_timestamp_millis(thread.updated_at_millis) {
            Some(time) => time,
            None => {
                return Err(ThreadMetadataError::InvalidUpdatedAt);
            },
        };
        let created_at = match time_from_millis(thread.created_at_millis) {
            Some(time) => time,
            None => {
                return Err(ThreadMetadataError::InvalidCreatedAt);
            },
        };
        let interacted_at = match time_from_millis(thread.interacted_at_millis) {
            Some(time) => time,
            None => {
                return Err(ThreadMetadataError::InvalidInteractedAt);
            },
        };
        Ok(
            ThreadMetadata {
                thread_id,
                session_id: thread.session_id,
                agent_id: thread.agent_id,
                title: text::keep_non_empty(thread.title),
                title_override: text::keep_non_empty(thread.title_override),
                parallel_attempt_group: text::keep_non_empty(thread.parallel_attempt_group),
                landed,
                updated_at,
                created_at,
                interacted_at,
                worktree_paths,
                remote_connection,
                archived: thread.archived,
                server_hosted: false,
            },
        )
    }
}

/// A thread of which a message can tell everything is read back from its message, where
/// the lists of paths are read as the folders they were written from, `serde_json` reads
/// back the options that it printed, and they are read as options.
pub proof fn proto_round_trip(metadata: ThreadMetadataView)
    requires
        metadata.times_in_range(),
        metadata.fits_wire(),
    ensures
        metadata.connection_reads_back() ==> (metadata.to_wire() matches Some(thread)
            && thread.from_wire(Some(metadata.worktree_paths), true) == Ok::<
            ThreadMetadataView,
            ThreadMetadataFault,
        >(metadata)),
{
    thread_id::key_string_reads_back(metadata.thread_id);
    timestamp::millis_read_back(metadata.updated_at);
    if let Some(time) = metadata.created_at {
        timestamp::millis_read_back(time);
    }
    if let Some(time) = metadata.interacted_at {
        timestamp::millis_read_back(time);
    }
    if let Some(state) = metadata.landed {
        landing_state_reads_back(state, state.word());
    }
    if metadata.connection_reads_back() {
        let thread = metadata.to_wire()->0;
        let read = thread.from_wire(Some(metadata.worktree_paths), true);
        assert(read is Ok);
        assert(text::non_empty(metadata.title) == metadata.title) by {
            if let Some(title) = metadata.title {
                assert(title.len() == 0 ==> title =~= Seq::<char>::empty());
            }
        }
        assert(text::non_empty(metadata.title_override) == metadata.title_override) by {
            if let Some(title) = metadata.title_override {
                assert(title.len() == 0 ==> title =~= Seq::<char>::empty());
            }
        }
        assert(text::non_empty(metadata.parallel_attempt_group)
            == metadata.parallel_attempt_group) by {
            if let Some(group) = metadata.parallel_attempt_group {
                assert(group.len() == 0 ==> group =~= Seq::<char>::empty());
            }
        }
        assert(read->Ok_0 == metadata);
    }
}

/// Whatever a message says of a landing state that is not known, the thread is read, and
/// as one that has not landed.
pub proof fn unknown_landing_state_is_tolerated(
    thread: AgentThreadMetadataView,
    word: Seq<char>,
    worktree_paths: Option<WorktreePathsView>,
    options_read: bool,
)
    requires
        ThreadLandingState::of_word(word) is None,
    ensures
        ({
            let known = AgentThreadMetadataView { landed: None, ..thread };
            let unknown = AgentThreadMetadataView { landed: Some(word), ..thread };
            unknown.from_wire(worktree_paths, options_read) == known.from_wire(
                worktree_paths,
                options_read,
            )
        }),
{
}

/// What is known of a thread is seen whole.
pub proof fn threads_are_seen_whole(metadata: ThreadMetadata)
    ensures
        metadata@.thread_id == metadata.thread_id,
        metadata@.session_id == text::optional_text(metadata.session_id),
        metadata@.agent_id == metadata.agent_id@,
        metadata@.title == text::optional_text(metadata.title),
        metadata@.title_override == text::optional_text(metadata.title_override),
        metadata@.parallel_attempt_group == text::optional_text(metadata.parallel_attempt_group),
        metadata@.landed == metadata.landed,
        metadata@.updated_at == metadata.updated_at@,
        metadata.created_at is None ==> metadata@.created_at is None,
        metadata.created_at matches Some(time) ==> metadata@.created_at == Some(time@),
        metadata.interacted_at is None ==> metadata@.interacted_at is None,
        metadata.interacted_at matches Some(time) ==> metadata@.interacted_at == Some(time@),
        metadata@.worktree_paths == metadata.worktree_paths@,
        metadata.remote_connection is None ==> metadata@.remote_connection is None,
        metadata.remote_connection matches Some(connection) ==> metadata@.remote_connection == Some(
            connection.options,
        ),
        metadata@.archived == metadata.archived,
        metadata@.server_hosted == metadata.server_hosted,
{
}

/// Folders are seen whole.
pub proof fn folders_are_seen_whole(list: PathList, paths: WorktreePaths, written: AgentThreadPathList)
    ensures
        list@.paths == text::texts(list.paths@),
        list@.ordered_paths == text::texts(list.ordered_paths@),
        list@.serialized.paths == list.serialized.paths@,
        list@.serialized.order == list.serialized.order@,
        paths@.folder_paths == paths.folder_paths@,
        paths@.main_worktree_paths == paths.main_worktree_paths@,
        written@.paths == written.paths@,
        written@.order == written.order@,
        optional_paths(Some(paths)) == Some(paths@),
        optional_paths(None) is None,
        no_worktree_paths().folder_paths.paths.len() == 0,
        no_worktree_paths().folder_paths.ordered_paths.len() == 0,
        no_worktree_paths().main_worktree_paths.paths.len() == 0,
        no_worktree_paths().main_worktree_paths.ordered_paths.len() == 0,
{
}

/// A message about a thread is seen whole.
pub proof fn messages_are_seen_whole(thread: AgentThreadMetadata)
    ensures
        thread@.thread_id == thread.thread_id@,
        thread@.session_id == text::optional_text(thread.session_id),
        thread@.agent_id == thread.agent_id@,
        thread@.title == text::optional_text(thread.title),
        thread@.title_override == text::optional_text(thread.title_override),
        thread@.parallel_attempt_group == text::optional_text(thread.parallel_attempt_group),
        thread@.landed == text::optional_text(thread.landed),
        thread@.updated_at_millis == thread.updated_at_millis,
        thread.created_at_millis is None ==> thread@.created_at_millis is None,
        thread.created_at_millis matches Some(millis) ==> thread@.created_at_millis == Some(
            millis as int,
        ),
        thread.interacted_at_millis is None ==> thread@.interacted_at_millis is None,
        thread.interacted_at_millis matches Some(millis) ==> thread@.interacted_at_millis == Some(
            millis as int,
        ),
        thread.folder_paths is None ==> thread@.folder_paths is None,
        thread.folder_paths matches Some(list) ==> thread@.folder_paths == Some(list@),
        thread.main_worktree_paths is None ==> thread@.main_worktree_paths is None,
        thread.main_worktree_paths matches Some(list) ==> thread@.main_worktree_paths == Some(
            list@,
        ),
        thread@.remote_connection_json == text::optional_text(thread.remote_connection_json),
        thread@.archived == thread.archived,
{
}

/// What is wrong with a thread or its message is seen by its kind.
pub proof fn metadata_faults_are_seen(error: ThreadMetadataError)
    ensures
        error is SerializeRemoteConnection <==> error@ is SerializeRemoteConnection,
        error is DeserializeRemoteConnection <==> error@ is DeserializeRemoteConnection,
        error is InvalidThreadId <==> error@ is InvalidThreadId,
        error is InvalidUpdatedAt <==> error@ is InvalidUpdatedAt,
        error is InvalidCreatedAt <==> error@ is InvalidCreatedAt,
        error is InvalidInteractedAt <==> error@ is InvalidInteractedAt,
{
}

/// A title that the user gave comes before the one that the thread has.
pub proof fn given_titles_come_first(metadata: ThreadMetadataView)
    ensures
        metadata.title_override is Some ==> metadata.title() == metadata.title_override,
        metadata.title_override is None ==> metadata.title() == metadata.title,
{
}

/// The message about a thread holds everything of it that a message can hold, whatever the
/// thread: only options of a connection that cannot be printed are in its way.
pub proof fn writing_keeps_the_thread(metadata: ThreadMetadataView)
    ensures
        metadata.to_wire() is None <==> (metadata.remote_connection is Some && json::printed_json(
            metadata.remote_connection->0,
        ) is None),
        metadata.to_wire() matches Some(thread) ==> {
            &&& thread_id::uuid_number(thread.thread_id) == Some(metadata.thread_id.bits as nat)
            &&& thread.thread_id == thread_id::hyphenated_text(metadata.thread_id.bits)
            &&& thread.session_id == metadata.session_id
            &&& thread.agent_id == metadata.agent_id
            &&& thread.title == metadata.title
            &&& thread.title_override == metadata.title_override
            &&& thread.parallel_attempt_group == metadata.parallel_attempt_group
            &&& metadata.landed is None ==> thread.landed is None
            &&& metadata.landed matches Some(state) ==> thread.landed == Some(state.word())
            &&& thread.updated_at_millis == metadata.updated_at.millis()
            &&& metadata.created_at is None ==> thread.created_at_millis is None
            &&& metadata.created_at matches Some(time) ==> thread.created_at_millis == Some(
                time.millis(),
            )
            &&& metadata.interacted_at is None ==> thread.interacted_at_millis is None
            &&& metadata.interacted_at matches Some(time) ==> thread.interacted_at_millis == Some(
                time.millis(),
            )
            &&& thread.folder_paths == Some(metadata.worktree_paths.folder_paths.serialized)
            &&& thread.main_worktree_paths == Some(
                metadata.worktree_paths.main_worktree_paths.serialized,
            )
            &&& metadata.remote_connection is None ==> thread.remote_connection_json is None
            &&& metadata.remote_connection matches Some(options) ==> thread.remote_connection_json
                == json::printed_json(options)
            &&& thread.archived == metadata.archived
        },
{
    thread_id::key_string_reads_back(metadata.thread_id);
}

/// The thread of a message is what the message says, whatever it says: only an empty title
/// or group and a landing state that is not known are dropped, and the folders are those
/// that were read.
pub proof fn reading_keeps_the_thread(
    thread: AgentThreadMetadataView,
    worktree_paths: Option<WorktreePathsView>,
    options_read: bool,
)
    ensures
        thread.from_wire(worktree_paths, options_read) matches Ok(metadata) ==> {
            &&& thread_id::uuid_number(thread.thread_id) is Some
            &&& metadata.thread_id.bits == thread_id::uuid_number(thread.thread_id)->0 as u128
            &&& metadata.session_id == thread.session_id
            &&& metadata.agent_id == thread.agent_id
            &&& (thread.title is Some && thread.title->0.len() > 0) ==> metadata.title
                == thread.title
            &&& !(thread.title is Some && thread.title->0.len() > 0) ==> metadata.title is None
            &&& (thread.title_override is Some && thread.title_override->0.len() > 0)
                ==> metadata.title_override == thread.title_override
            &&& !(thread.title_override is Some && thread.title_override->0.len() > 0)
                ==> metadata.title_override is None
            &&& (thread.parallel_attempt_group is Some && thread.parallel_attempt_group->0.len()
                > 0) ==> metadata.parallel_attempt_group == thread.parallel_attempt_group
            &&& !(thread.parallel_attempt_group is Some && thread.parallel_attempt_group->0.len()
                > 0) ==> metadata.parallel_attempt_group is None
            &&& thread.landed is None ==> metadata.landed is None
            &&& thread.landed matches Some(word) ==> metadata.landed
                == ThreadLandingState::of_word(word)
            &&& Some(metadata.updated_at) == timestamp::from_millis(thread.updated_at_millis)
            &&& thread.created_at_millis is None ==> metadata.created_at is None
            &&& thread.created_at_millis matches Some(millis) ==> metadata.created_at
                == timestamp::from_millis(millis) && metadata.created_at is Some
            &&& thread.interacted_at_millis is None ==> metadata.interacted_at is None
            &&& thread.interacted_at_millis matches Some(millis) ==> metadata.interacted_at
                == timestamp::from_millis(millis) && metadata.interacted_at is Some
            &&& worktree_paths matches Some(paths) ==> metadata.worktree_paths == paths
            &&& worktree_paths is None ==> metadata.worktree_paths.folder_paths.paths.len() == 0
                && metadata.worktree_paths.main_worktree_paths.paths.len() == 0
            &&& thread.remote_connection_json is None ==> metadata.remote_connection is None
            &&& thread.remote_connection_json matches Some(text) ==> metadata.remote_connection
                == json::parsed_json(text) && metadata.remote_connection is Some && options_read
            &&& metadata.archived == thread.archived
            &&& !metadata.server_hosted
        },
{
}

/// A message is refused exactly where its connection cannot be read as options, its id is no
/// id, or one of its times is no date; the first of these is told.
pub proof fn messages_are_refused_for_a_reason(
    thread: AgentThreadMetadataView,
    worktree_paths: Option<WorktreePathsView>,
    options_read: bool,
)
    ensures
        ({
            let connection = thread.remote_connection_json is Some && (json::parsed_json(
                thread.remote_connection_json->0,
            ) is None || !options_read);
            let id = thread_id::uuid_number(thread.thread_id) is None;
            let updated = timestamp::from_millis(thread.updated_at_millis) is None;
            let created = thread.created_at_millis is Some && timestamp::from_millis(
                thread.created_at_millis->0,
            ) is None;
            let interacted = thread.interacted_at_millis is Some && timestamp::from_millis(
                thread.interacted_at_millis->0,
            ) is None;
            let res = thread.from_wire(worktree_paths, options_read);
            &&& res is Ok <==> !connection && !id && !updated && !created && !interacted
            &&& connection ==> (res matches Err(fault) && fault is DeserializeRemoteConnection)
            &&& !connection && id ==> (res matches Err(fault) && fault is InvalidThreadId)
            &&& !connection && !id && updated ==> (res matches Err(fault) && fault
                is InvalidUpdatedAt)
            &&& !connection && !id && !updated && created ==> (res matches Err(fault) && fault
                is InvalidCreatedAt)
            &&& !connection && !id && !updated && !created && interacted ==> (res matches Err(fault)
                && fault is InvalidInteractedAt)
        }),
{
}

/// An error that is handed on for a connection is the very one that reading it gave.
pub proof fn connection_errors_are_handed_on(
    thread: AgentThreadMetadataView,
    cause: serde_json::Error,
    error: ThreadMetadataError,
)
    requires
        thread.remote_connection_json is Some,
        json::parsed_json(thread.remote_connection_json->0) is Some,
        thread.hands_on(Err(cause), error),
    ensures
        error == ThreadMetadataError::DeserializeRemoteConnection(cause),
{
}

/// Each fault of a thread or its message is told in words of its own.
pub proof fn metadata_faults_are_told_apart(told: ThreadMetadataFault)
    ensures
        told.message() == "serialize thread metadata remote connection"@ <==> told is SerializeRemoteConnection,
        told.message() == "deserialize thread metadata remote connection"@ <==> told is DeserializeRemoteConnection,
        told.message() == "invalid thread id"@ <==> told is InvalidThreadId,
        told.message() == "invalid updated_at timestamp"@ <==> told is InvalidUpdatedAt,
        told.message() == "invalid created_at timestamp"@ <==> told is InvalidCreatedAt,
        told.message() == "invalid interacted_at timestamp"@ <==> told is InvalidInteractedAt,
{
    reveal_strlit("serialize thread metadata remote connection");
    reveal_strlit("deserialize thread metadata remote connection");
    reveal_strlit("invalid thread id");
    reveal_strlit("invalid updated_at timestamp");
    reveal_strlit("invalid created_at timestamp");
    reveal_strlit("invalid interacted_at timestamp");
    assert("serialize thread metadata remote connection"@.len() == 43);
    assert("deserialize thread metadata remote connection"@.len() == 45);
    assert("invalid thread id"@.len() == 17);
    assert("invalid updated_at timestamp"@.len() == 28);
    assert("invalid created_at timestamp"@.len() == 28);
    assert("invalid interacted_at timestamp"@.len() == 31);
    assert("invalid created_at timestamp"@[8] == 'c');
    assert("invalid updated_at timestamp"@[8] == 'u');
}

/// Each landing state is stored by a word of its own.
pub proof fn landing_states_are_told_apart(told: ThreadLandingState)
    ensures
        told.word() == "merged"@ <==> told is Merged,
        told.word() == "pull_requested"@ <==> told is PullRequested,
{
    reveal_strlit("merged");
    reveal_strlit("pull_requested");
    assert("merged"@.len() == 6);
    assert("pull_requested"@.len() == 14);
}

/// The word of a landing state stands for that state, and every other word for none.
pub proof fn words_stand_for_their_state(state: ThreadLandingState, word: Seq<char>)
    ensures
        ThreadLandingState::of_word(state.word()) == Some(state),
        ThreadLandingState::of_word(word) == Some(state) <==> word == state.word(),
{
    landing_states_are_told_apart(state);
    reveal_strlit("merged");
    reveal_strlit("pull_requested");
    assert("merged"@.len() == 6);
    assert("pull_requested"@.len() == 14);
}

} // verus!
