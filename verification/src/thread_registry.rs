//! The registry of a project's threads: what is known of each thread, how it is stored,
//! and what the other side of a shared project is told.
use std::collections::HashMap;
use vstd::prelude::*;
use vstd::std_specs::iter::IteratorSpec;

use crate::text;
use crate::thread_id;
use crate::thread_id::{InvalidThreadId, ThreadId};
use crate::thread_metadata;
use crate::thread_metadata::{
    AgentThreadMetadata, AgentThreadPathList, SerializedPathList, ThreadMetadata,
    ThreadMetadataError, WorktreePaths,
};

verus! {

/// What is known of a thread, as it is stored.
#[derive(Debug, PartialEq, Eq)]
pub struct PersistedThreadMetadata {
    pub thread_id: String,
    pub session_id: Option<String>,
    pub agent_id: String,
    pub title: Option<String>,
    pub title_override: Option<String>,
    pub parallel_attempt_group: Option<String>,
    pub landed: Option<String>,
    pub updated_at_millis: i64,
    pub created_at_millis: Option<i64>,
    pub interacted_at_millis: Option<i64>,
    pub folder_paths: SerializedPathList,
    pub main_worktree_paths: SerializedPathList,
    pub remote_connection_json: Option<String>,
    pub archived: bool,
}

/// The model of a stored record is that of the message with the same content.
impl View for PersistedThreadMetadata {
    type V = thread_metadata::AgentThreadMetadataView;

    open spec fn view(&self) -> thread_metadata::AgentThreadMetadataView {
        thread_metadata::AgentThreadMetadataView {
            thread_id: self.thread_id@,
            session_id: text::optional_text(self.session_id),
            agent_id: self.agent_id@,
            title: text::optional_text(self.title),
            title_override: text::optional_text(self.title_override),
            parallel_attempt_group: text::optional_text(self.parallel_attempt_group),
            landed: text::optional_text(self.landed),
            updated_at_millis: self.updated_at_millis as int,
            created_at_millis: thread_metadata::optional_millis(self.created_at_millis),
            interacted_at_millis: thread_metadata::optional_millis(self.interacted_at_millis),
            folder_paths: Some(self.folder_paths@),
            main_worktree_paths: Some(self.main_worktree_paths@),
            remote_connection_json: text::optional_text(self.remote_connection_json),
            archived: self.archived,
        }
    }
}

/// The stored form of a list of paths that may be missing.
pub open spec fn stored_list(list: Option<thread_metadata::SerializedPathListView>) -> Option<
    thread_metadata::SerializedPathListView,
> {
    match list {
        Some(list) => Some(list),
        None => Some(
            thread_metadata::SerializedPathListView { paths: Seq::empty(), order: Seq::empty() },
        ),
    }
}

fn serialized_list(list: Option<AgentThreadPathList>) -> (serialized: SerializedPathList)
    ensures
        Some(serialized@) == stored_list(thread_metadata::optional_list(list)),
{
    match list {
        Some(list) => SerializedPathList { paths: list.paths, order: list.order },
        None => {
            let serialized = SerializedPathList { paths: String::new(), order: String::new() };
            assert(serialized@.paths =~= Seq::empty());
            assert(serialized@.order =~= Seq::empty());
            serialized
        },
    }
}

impl PersistedThreadMetadata {
    /// The record of a message.
    pub fn from_message(thread: AgentThreadMetadata) -> (record: Self)
        ensures
            record@ == (thread_metadata::AgentThreadMetadataView {
                folder_paths: stored_list(thread@.folder_paths),
                main_worktree_paths: stored_list(thread@.main_worktree_paths),
                ..thread@
            }),
    {
        PersistedThreadMetadata {
            thread_id: thread.thread_id,
            session_id: thread.session_id,
            agent_id: thread.agent_id,
            title: thread.title,
            title_override: thread.title_override,
            parallel_attempt_group: thread.parallel_attempt_group,
            landed: thread.landed,
            updated_at_millis: thread.updated_at_millis,
            created_at_millis: thread.created_at_millis,
            interacted_at_millis: thread.interacted_at_millis,
            folder_paths: serialized_list(thread.folder_paths),
            main_worktree_paths: serialized_list(thread.main_worktree_paths),
            remote_connection_json: thread.remote_connection_json,
            archived: thread.archived,
        }
    }

    /// The record of a thread.
    pub fn from_metadata(metadata: &ThreadMetadata) -> (res: Result<Self, ThreadMetadataError>)
        ensures
            match res {
                Ok(record) => metadata@.to_wire() == Some(record@),
                Err(error) => metadata@.to_wire() is None && error@
                    == thread_metadata::ThreadMetadataFault::SerializeRemoteConnection,
            },
    {
        match metadata.to_proto() {
            Ok(thread) => Ok(Self::from_message(thread)),
            Err(error) => Err(error),
        }
    }

    /// The message with the content of a record.
    pub fn into_message(self) -> (thread: AgentThreadMetadata)
        ensures
            thread@ == self@,
    {
        AgentThreadMetadata {
            thread_id: self.thread_id,
            session_id: self.session_id,
            agent_id: self.agent_id,
            title: self.title,
            title_override: self.title_override,
            parallel_attempt_group: self.parallel_attempt_group,
            landed: self.landed,
            updated_at_millis: self.updated_at_millis,
            created_at_millis: self.created_at_millis,
            interacted_at_millis: self.interacted_at_millis,
            folder_paths: Some(
                AgentThreadPathList {
                    paths: self.folder_paths.paths,
                    order: self.folder_paths.order,
                },
            ),
            main_worktree_paths: Some(
                AgentThreadPathList {
                    paths: self.main_worktree_paths.paths,
                    order: self.main_worktree_paths.order,
                },
            ),
            remote_connection_json: self.remote_connection_json,
            archived: self.archived,
        }
    }
}

/// A record, with the folders that its two lists of paths are read as, and what reading
/// its connection as options came to.
#[derive(Debug)]
pub struct StoredThread {
    pub record: PersistedThreadMetadata,
    pub worktree_paths: Option<WorktreePaths>,
    pub options_read: Result<(), serde_json::Error>,
}

/// The model of a [`StoredThread`].
pub struct StoredThreadView {
    pub record: thread_metadata::AgentThreadMetadataView,
    pub worktree_paths: Option<thread_metadata::WorktreePathsView>,
    pub options_read: bool,
}

impl View for StoredThread {
    type V = StoredThreadView;

    open spec fn view(&self) -> StoredThreadView {
        StoredThreadView {
            record: self.record@,
            worktree_paths: thread_metadata::optional_paths(self.worktree_paths),
            options_read: self.options_read is Ok,
        }
    }
}

/// The models of stored records.
pub open spec fn stored_views(stored: Seq<StoredThread>) -> Seq<StoredThreadView> {
    stored.map_values(|thread: StoredThread| thread@)
}

/// The models of threads.
pub open spec fn thread_views(threads: Seq<ThreadMetadata>) -> Seq<
    thread_metadata::ThreadMetadataView,
> {
    threads.map_values(|thread: ThreadMetadata| thread@)
}

/// The models of records.
pub open spec fn record_views(records: Seq<PersistedThreadMetadata>) -> Seq<
    thread_metadata::AgentThreadMetadataView,
> {
    records.map_values(|record: PersistedThreadMetadata| record@)
}

/// The models of messages.
pub open spec fn message_views(messages: Seq<AgentThreadMetadata>) -> Seq<
    thread_metadata::AgentThreadMetadataView,
> {
    messages.map_values(|message: AgentThreadMetadata| message@)
}

/// The threads that records are read as, or what is wrong with the first record that
/// cannot be read.
pub open spec fn read_threads(stored: Seq<StoredThreadView>) -> Result<
    Seq<thread_metadata::ThreadMetadataView>,
    thread_metadata::ThreadMetadataFault,
>
    decreases stored.len(),
{
    if stored.len() == 0 {
        Ok(Seq::empty())
    } else {
        match read_threads(stored.drop_last()) {
            Ok(threads) => match stored.last().record.from_wire(
                stored.last().worktree_paths,
                stored.last().options_read,
            ) {
                Ok(thread) => Ok(threads.push(thread)),
                Err(fault) => Err(fault),
            },
            Err(fault) => Err(fault),
        }
    }
}

/// The records of threads, `None` where one of them cannot be written.
pub open spec fn written(threads: Seq<thread_metadata::ThreadMetadataView>) -> Option<
    Seq<thread_metadata::AgentThreadMetadataView>,
>
    decreases threads.len(),
{
    if threads.len() == 0 {
        Some(Seq::empty())
    } else {
        match (written(threads.drop_last()), threads.last().to_wire()) {
            (Some(records), Some(record)) => Some(records.push(record)),
            _ => None,
        }
    }
}

/// Threads by their ids; of two with the same id the later one counts.
pub open spec fn thread_map(threads: Seq<thread_metadata::ThreadMetadataView>) -> Map<
    ThreadId,
    thread_metadata::ThreadMetadataView,
>
    decreases threads.len(),
{
    if threads.len() == 0 {
        Map::empty()
    } else {
        thread_map(threads.drop_last()).insert(threads.last().thread_id, threads.last())
    }
}

/// Whether no id occurs twice.
pub open spec fn ids_distinct(threads: Seq<thread_metadata::ThreadMetadataView>) -> bool {
    forall|i: int, j: int|
        0 <= i < j < threads.len() ==> #[trigger] threads[i].thread_id
            != #[trigger] threads[j].thread_id
}

/// Whether no thread stands before one that was updated later.
pub open spec fn newest_first(threads: Seq<thread_metadata::ThreadMetadataView>) -> bool {
    forall|i: int, j: int|
        0 <= i < j < threads.len() ==> !(#[trigger] threads[j]).updated_at.after(
            (#[trigger] threads[i]).updated_at,
        )
}

/// Whether a list holds every thread of a registry once, and nothing else.
pub open spec fn holds_all(
    threads: Seq<thread_metadata::ThreadMetadataView>,
    map: Map<ThreadId, thread_metadata::ThreadMetadataView>,
) -> bool {
    ids_distinct(threads) && thread_map(threads) == map
}

/// Whether a list holds every thread of a registry once, the newest first.
pub open spec fn lists(
    threads: Seq<thread_metadata::ThreadMetadataView>,
    map: Map<ThreadId, thread_metadata::ThreadMetadataView>,
) -> bool {
    holds_all(threads, map) && newest_first(threads)
}

/// Whether some thread of a registry cannot be written.
pub open spec fn some_unwritable(
    map: Map<ThreadId, thread_metadata::ThreadMetadataView>,
) -> bool {
    exists|id: ThreadId| #[trigger] map.dom().contains(id) && map[id].to_wire() is None
}

/// What a list holds for an id is what the map of it holds.
pub proof fn thread_map_holds(threads: Seq<thread_metadata::ThreadMetadataView>)
    ensures
        forall|i: int|
            0 <= i < threads.len() ==> #[trigger] thread_map(threads).dom().contains(
                threads[i].thread_id,
            ),
        ids_distinct(threads) ==> forall|i: int|
            0 <= i < threads.len() ==> thread_map(threads)[#[trigger] threads[i].thread_id]
                == threads[i],
        forall|id: ThreadId| #[trigger]
            thread_map(threads).dom().contains(id) ==> exists|i: int|
                0 <= i < threads.len() && (#[trigger] threads[i]).thread_id == id
                    && thread_map(threads)[id] == threads[i],
    decreases threads.len(),
{
    if threads.len() > 0 {
        let before = threads.drop_last();
        let last = threads.last();
        thread_map_holds(before);
        assert forall|i: int| 0 <= i < threads.len() implies #[trigger] thread_map(
            threads,
        ).dom().contains(threads[i].thread_id) by {
            if i < before.len() {
                assert(before[i] == threads[i]);
                assert(thread_map(before).dom().contains(before[i].thread_id));
            }
        }
        if ids_distinct(threads) {
            assert forall|i: int, j: int| 0 <= i < j < before.len() implies #[trigger] before[i]
                .thread_id != #[trigger] before[j].thread_id by {
                assert(before[i] == threads[i] && before[j] == threads[j]);
            }
            assert forall|i: int| 0 <= i < threads.len() implies thread_map(
                threads,
            )[#[trigger] threads[i].thread_id] == threads[i] by {
                if i < before.len() {
                    assert(before[i] == threads[i]);
                    assert(threads[i].thread_id != threads[threads.len() - 1].thread_id);
                    assert(thread_map(before)[before[i].thread_id] == before[i]);
                }
            }
        }
        assert forall|id: ThreadId| #[trigger] thread_map(threads).dom().contains(
            id,
        ) implies exists|i: int|
            0 <= i < threads.len() && (#[trigger] threads[i]).thread_id == id && thread_map(
                threads,
            )[id] == threads[i] by {
            if id == last.thread_id {
                assert(threads[threads.len() - 1].thread_id == id);
            } else {
                assert(thread_map(before).dom().contains(id));
                let i = choose|i: int|
                    0 <= i < before.len() && (#[trigger] before[i]).thread_id == id && thread_map(
                        before,
                    )[id] == before[i];
                assert(threads[i] == before[i]);
            }
        }
    }
}

/// A list without repeated ids whose threads are those of a map is a list of the map.
proof fn thread_map_is(
    threads: Seq<thread_metadata::ThreadMetadataView>,
    map: Map<ThreadId, thread_metadata::ThreadMetadataView>,
)
    requires
        ids_distinct(threads),
        forall|i: int|
            0 <= i < threads.len() ==> map.dom().contains((#[trigger] threads[i]).thread_id)
                && map[threads[i].thread_id] == threads[i],
        forall|id: ThreadId| #[trigger]
            map.dom().contains(id) ==> exists|i: int|
                0 <= i < threads.len() && (#[trigger] threads[i]).thread_id == id,
    ensures
        thread_map(threads) == map,
{
    thread_map_holds(threads);
    assert forall|id: ThreadId| thread_map(threads).dom().contains(id) == map.dom().contains(
        id,
    ) by {
        if thread_map(threads).dom().contains(id) {
            let i = choose|i: int|
                0 <= i < threads.len() && (#[trigger] threads[i]).thread_id == id && thread_map(
                    threads,
                )[id] == threads[i];
            assert(map.dom().contains(threads[i].thread_id));
        }
        if map.dom().contains(id) {
            let i = choose|i: int|
                0 <= i < threads.len() && (#[trigger] threads[i]).thread_id == id;
            assert(thread_map(threads).dom().contains(threads[i].thread_id));
        }
    }
    assert forall|id: ThreadId| map.dom().contains(id) implies thread_map(threads)[id]
        == map[id] by {
        let i = choose|i: int| 0 <= i < threads.len() && (#[trigger] threads[i]).thread_id == id;
        assert(thread_map(threads)[threads[i].thread_id] == threads[i]);
    }
    assert(thread_map(threads) =~= map);
}

proof fn list_insert(
    threads: Seq<thread_metadata::ThreadMetadataView>,
    position: int,
    thread: thread_metadata::ThreadMetadataView,
)
    requires
        ids_distinct(threads),
        0 <= position <= threads.len(),
        !thread_map(threads).dom().contains(thread.thread_id),
    ensures
        holds_all(
            threads.insert(position, thread),
            thread_map(threads).insert(thread.thread_id, thread),
        ),
{
    let more = threads.insert(position, thread);
    let map = thread_map(threads).insert(thread.thread_id, thread);
    thread_map_holds(threads);
    assert forall|i: int| 0 <= i < threads.len() implies (#[trigger] threads[i]).thread_id
        != thread.thread_id by {
        assert(thread_map(threads).dom().contains(threads[i].thread_id));
    }
    assert forall|i: int, j: int| 0 <= i < j < more.len() implies #[trigger] more[i].thread_id
        != #[trigger] more[j].thread_id by {
        let a = if i < position {
            i
        } else {
            i - 1
        };
        let b = if j < position {
            j
        } else {
            j - 1
        };
        if i == position {
            assert(more[j] == threads[b]);
        } else if j == position {
            assert(more[i] == threads[a]);
        } else {
            assert(more[i] == threads[a]);
            assert(more[j] == threads[b]);
        }
    }
    assert forall|i: int| 0 <= i < more.len() implies map.dom().contains(
        (#[trigger] more[i]).thread_id,
    ) && map[more[i].thread_id] == more[i] by {
        if i != position {
            let a = if i < position {
                i
            } else {
                i - 1
            };
            assert(more[i] == threads[a]);
            assert(thread_map(threads).dom().contains(threads[a].thread_id));
            assert(thread_map(threads)[threads[a].thread_id] == threads[a]);
        }
    }
    assert forall|id: ThreadId| #[trigger] map.dom().contains(id) implies exists|i: int|
        0 <= i < more.len() && (#[trigger] more[i]).thread_id == id by {
        if id == thread.thread_id {
            assert(more[position].thread_id == id);
        } else {
            assert(thread_map(threads).dom().contains(id));
            let a = choose|a: int|
                0 <= a < threads.len() && (#[trigger] threads[a]).thread_id == id && thread_map(
                    threads,
                )[id] == threads[a];
            let i = if a < position {
                a
            } else {
                a + 1
            };
            assert(more[i] == threads[a]);
        }
    }
    thread_map_is(more, map);
}

/// Threads can be written exactly where each of them can, and the record at each place is that
/// of the thread at the place.
pub proof fn threads_are_written_in_turn(threads: Seq<thread_metadata::ThreadMetadataView>)
    ensures
        written(threads) is None <==> exists|i: int|
            0 <= i < threads.len() && (#[trigger] threads[i]).to_wire() is None,
        written(threads) matches Some(records) ==> records.len() == threads.len() && forall|i: int|
            0 <= i < threads.len() ==> (#[trigger] threads[i]).to_wire() == Some(records[i]),
    decreases threads.len(),
{
    if threads.len() > 0 {
        let before = threads.drop_last();
        threads_are_written_in_turn(before);
        assert(forall|i: int| 0 <= i < before.len() ==> before[i] == threads[i]);
        assert(threads[threads.len() - 1] == threads.last());
        if written(threads) is None {
            if written(before) is None {
                let i = choose|i: int|
                    0 <= i < before.len() && (#[trigger] before[i]).to_wire() is None;
                assert(threads[i].to_wire() is None);
            } else {
                assert(threads[threads.len() - 1].to_wire() is None);
            }
        } else {
            assert forall|i: int| 0 <= i < threads.len() implies (
            #[trigger] threads[i]).to_wire() == Some(written(threads)->0[i]) by {
                if i < before.len() {
                    assert(before[i].to_wire() == Some(written(before)->0[i]));
                }
            }
        }
    }
}

/// A list of a registry can be written exactly where each thread of the registry can.
pub proof fn list_is_writable(
    threads: Seq<thread_metadata::ThreadMetadataView>,
    map: Map<ThreadId, thread_metadata::ThreadMetadataView>,
)
    requires
        holds_all(threads, map),
    ensures
        written(threads) is None <==> some_unwritable(map),
{
    threads_are_written_in_turn(threads);
    thread_map_holds(threads);
    if written(threads) is None {
        let i = choose|i: int| 0 <= i < threads.len() && (#[trigger] threads[i]).to_wire() is None;
        assert(map.dom().contains(threads[i].thread_id));
        assert(map[threads[i].thread_id] == threads[i]);
    }
    if some_unwritable(map) {
        let id = choose|id: ThreadId| #[trigger]
            map.dom().contains(id) && map[id].to_wire() is None;
        let i = choose|i: int|
            0 <= i < threads.len() && (#[trigger] threads[i]).thread_id == id && thread_map(
                threads,
            )[id] == threads[i];
        assert(threads[i].to_wire() is None);
    }
}

/// What is in the place where the threads are stored.
#[derive(Debug)]
pub enum StoredThreads<E> {
    /// Nothing was stored yet.
    Missing,
    /// It could not be read.
    Unreadable(E),
    Records(Vec<StoredThread>),
}

/// Why an operation on the registry failed.
#[derive(Debug)]
pub enum RegistryError<E> {
    /// What is stored could not be read.
    Storage(E),
    Metadata(ThreadMetadataError),
}

/// The model of a [`RegistryError`].
pub enum RegistryFault<E> {
    Storage(E),
    Metadata(thread_metadata::ThreadMetadataFault),
}

impl<E> View for RegistryError<E> {
    type V = RegistryFault<E>;

    open spec fn view(&self) -> RegistryFault<E> {
        match *self {
            RegistryError::Storage(error) => RegistryFault::Storage(error),
            RegistryError::Metadata(error) => RegistryFault::Metadata(error@),
        }
    }
}

/// The threads in a store, or why they cannot be had.
pub open spec fn loaded<E>(stored: StoredThreads<E>) -> Result<
    Seq<thread_metadata::ThreadMetadataView>,
    RegistryFault<E>,
> {
    match stored {
        StoredThreads::Missing => Ok(Seq::empty()),
        StoredThreads::Unreadable(error) => Err(RegistryFault::Storage(error)),
        StoredThreads::Records(records) => match read_threads(stored_views(records@)) {
            Ok(threads) => Ok(threads),
            Err(fault) => Err(RegistryFault::Metadata(fault)),
        },
    }
}

impl StoredThread {
    /// Whether the record cannot be read, and an error tells why.
    pub open spec fn is_refused_with(self, error: ThreadMetadataError) -> bool {
        &&& self@.record.from_wire(self@.worktree_paths, self@.options_read) == Err::<
            thread_metadata::ThreadMetadataView,
            thread_metadata::ThreadMetadataFault,
        >(error@)
        &&& self@.record.hands_on(self.options_read, error)
    }
}

/// Whether an error is that of the first record that cannot be read.
pub open spec fn is_first_refusal(
    records: Seq<StoredThread>,
    error: ThreadMetadataError,
) -> bool {
    exists|i: int|
        0 <= i < records.len() && (#[trigger] records[i]).is_refused_with(error) && read_threads(
            stored_views(records).take(i),
        ) is Ok
}

/// Whether an error tells why the threads in a store cannot be had: where a record cannot
/// be read, it is the error of the first such record.
pub open spec fn tells_of_store<E>(stored: StoredThreads<E>, error: RegistryError<E>) -> bool {
    match (stored, error) {
        (StoredThreads::Records(records), RegistryError::Metadata(error)) => is_first_refusal(
            records@,
            error,
        ),
        (StoredThreads::Unreadable(cause), RegistryError::Storage(error)) => error == cause,
        _ => false,
    }
}

#[verifier::loop_isolation(false)]
fn read_stored(stored: Vec<StoredThread>) -> (res: Result<Vec<ThreadMetadata>, ThreadMetadataError>)
    ensures
        match res {
            Ok(threads) => read_threads(stored_views(stored@)) == Ok::<
                Seq<thread_metadata::ThreadMetadataView>,
                thread_metadata::ThreadMetadataFault,
            >(thread_views(threads@)),
            Err(error) => read_threads(stored_views(stored@)) == Err::<
                Seq<thread_metadata::ThreadMetadataView>,
                thread_metadata::ThreadMetadataFault,
            >(error@) && is_first_refusal(stored@, error),
        },
{
    let ghost all = stored@;
    let ghost views = stored_views(all);
    let mut threads: Vec<ThreadMetadata> = Vec::new();
    assert(thread_views(threads@) =~= Seq::empty());
    assert(views.take(0) =~= Seq::empty());
    for thread in iter: stored
        invariant
            iter.seq() == all,
            views == stored_views(all),
            threads.len() == iter.index(),
            read_threads(views.take(threads.len() as int)) == Ok::<
                Seq<thread_metadata::ThreadMetadataView>,
                thread_metadata::ThreadMetadataFault,
            >(thread_views(threads@)),
    {
        let ghost i = threads.len() as int;
        let ghost next = views.take(i + 1);
        let ghost before = thread_views(threads@);
        assert(next.drop_last() =~= views.take(i));
        assert(next.last() == thread@);
        match ThreadMetadata::from_proto(
            thread.record.into_message(),
            thread.worktree_paths,
            thread.options_read,
        ) {
            Ok(metadata) => {
                threads.push(metadata);
                assert(thread_views(threads@) =~= before.push(metadata@));
            },
            Err(error) => {
                proof {
                    read_fault_stays(views, i + 1);
                    assert(all[i].is_refused_with(error));
                }
                return Err(error);
            },
        }
    }
    assert(views.take(threads.len() as int) =~= views);
    Ok(threads)
}

proof fn read_fault_stays(stored: Seq<StoredThreadView>, count: int)
    requires
        0 <= count <= stored.len(),
        read_threads(stored.take(count)) is Err,
    ensures
        read_threads(stored) == read_threads(stored.take(count)),
    decreases stored.len(),
{
    if count == stored.len() {
        assert(stored.take(count) =~= stored);
    } else {
        let before = stored.drop_last();
        assert(before.take(count) =~= stored.take(count));
        read_fault_stays(before, count);
    }
}

/// What listeners of the registry are told.
#[derive(Debug)]
pub enum ThreadRegistryEvent {
    ThreadUpdated(ThreadMetadata),
    ThreadRemoved(ThreadId),
}

/// The model of a [`ThreadRegistryEvent`].
pub enum ThreadRegistryEventView {
    ThreadUpdated(thread_metadata::ThreadMetadataView),
    ThreadRemoved(ThreadId),
}

impl View for ThreadRegistryEvent {
    type V = ThreadRegistryEventView;

    open spec fn view(&self) -> ThreadRegistryEventView {
        match *self {
            ThreadRegistryEvent::ThreadUpdated(metadata) => ThreadRegistryEventView::ThreadUpdated(
                metadata@,
            ),
            ThreadRegistryEvent::ThreadRemoved(id) => ThreadRegistryEventView::ThreadRemoved(id),
        }
    }
}

/// The message that tells the other side of a thread.
#[derive(Debug, PartialEq, Eq)]
pub struct AgentThreadUpdated {
    pub project_id: u64,
    pub thread: AgentThreadMetadata,
}

/// The message that tells the other side that a thread is gone.
#[derive(Debug, PartialEq, Eq)]
pub struct AgentThreadRemoved {
    pub project_id: u64,
    pub thread_id: String,
}

/// The model of an [`AgentThreadUpdated`].
pub struct AgentThreadUpdatedView {
    pub project_id: u64,
    pub thread: thread_metadata::AgentThreadMetadataView,
}

impl View for AgentThreadUpdated {
    type V = AgentThreadUpdatedView;

    open spec fn view(&self) -> AgentThreadUpdatedView {
        AgentThreadUpdatedView { project_id: self.project_id, thread: self.thread@ }
    }
}

/// The models of messages about threads.
pub open spec fn update_views(updates: Seq<AgentThreadUpdated>) -> Seq<AgentThreadUpdatedView> {
    updates.map_values(|update: AgentThreadUpdated| update@)
}

/// The message about a thread; there is none for a thread that cannot be written.
pub open spec fn update_of(
    project_id: u64,
    thread: thread_metadata::ThreadMetadataView,
) -> Option<AgentThreadUpdatedView> {
    match thread.to_wire() {
        Some(thread) => Some(AgentThreadUpdatedView { project_id, thread }),
        None => None,
    }
}

/// The messages about threads, one after the other.
pub open spec fn updates_of(
    project_id: u64,
    threads: Seq<thread_metadata::ThreadMetadataView>,
) -> Seq<AgentThreadUpdatedView>
    decreases threads.len(),
{
    if threads.len() == 0 {
        Seq::empty()
    } else {
        let before = updates_of(project_id, threads.drop_last());
        match update_of(project_id, threads.last()) {
            Some(update) => before.push(update),
            None => before,
        }
    }
}

fn update_message(project_id: u64, metadata: &ThreadMetadata) -> (update: Option<
    AgentThreadUpdated,
>)
    ensures
        (match update {
            Some(update) => Some(update@),
            None => None,
        }) == update_of(project_id, metadata@),
{
    match metadata.to_proto() {
        Ok(thread) => Some(AgentThreadUpdated { project_id, thread }),
        Err(_) => None,
    }
}

/// The registry of a project's threads. One that is local is stored, one on the other
/// side of a shared project is not.
#[derive(Debug)]
pub struct ThreadRegistry {
    persistent: bool,
    /// The threads, by the numbers of their ids.
    threads: HashMap<u128, ThreadMetadata>,
    downstream: Option<u64>,
}

/// The model of a registry is the map of its threads.
impl View for ThreadRegistry {
    type V = Map<ThreadId, thread_metadata::ThreadMetadataView>;

    closed spec fn view(&self) -> Map<ThreadId, thread_metadata::ThreadMetadataView> {
        Map::new(
            |id: ThreadId| self.threads@.dom().contains(id.bits),
            |id: ThreadId| self.threads@[id.bits]@,
        )
    }
}

impl ThreadRegistry {
    /// The invariant: each thread is found by its own id.
    pub closed spec fn wf(&self) -> bool {
        forall|bits: u128| #[trigger]
            self.threads@.dom().contains(bits) ==> self.threads@[bits]@.thread_id.bits == bits
    }

    /// Whether the registry is stored.
    pub closed spec fn is_persistent(&self) -> bool {
        self.persistent
    }

    /// The project under whose id the registry is shared.
    pub closed spec fn shared_as(&self) -> Option<u64> {
        self.downstream
    }

    /// The threads once those in the store have replaced them; only a registry that is
    /// stored reads the store.
    pub open spec fn reloaded<E>(&self, stored: StoredThreads<E>) -> Result<
        Map<ThreadId, thread_metadata::ThreadMetadataView>,
        RegistryFault<E>,
    > {
        if self.is_persistent() {
            match loaded(stored) {
                Ok(threads) => Ok(thread_map(threads)),
                Err(fault) => Err(fault),
            }
        } else {
            Ok(self@)
        }
    }

    /// A registry that is stored. A store that cannot be read counts as empty.
    pub fn local<E>(stored: StoredThreads<E>) -> (registry: Self)
        ensures
            registry.wf(),
            registry.is_persistent(),
            registry.shared_as() is None,
            registry@ == (match loaded(stored) {
                Ok(threads) => thread_map(threads),
                Err(_) => Map::empty(),
            }),
    {
        let mut registry = ThreadRegistry {
            persistent: true,
            threads: HashMap::new(),
            downstream: None,
        };
        assert(registry@ =~= Map::empty());
        match registry.reload(stored) {
            Ok(_) => {},
            Err(_) => {},
        }
        registry
    }

    /// A registry that is not stored.
    pub fn remote() -> (registry: Self)
        ensures
            registry.wf(),
            !registry.is_persistent(),
            registry.shared_as() is None,
            registry@ == Map::<ThreadId, thread_metadata::ThreadMetadataView>::empty(),
    {
        let registry = ThreadRegistry {
            persistent: false,
            threads: HashMap::new(),
            downstream: None,
        };
        assert(registry@ =~= Map::empty());
        registry
    }

    fn insert(&mut self, metadata: ThreadMetadata)
        requires
            old(self).wf(),
        ensures
            final(self).wf(),
            final(self)@ == old(self)@.insert(metadata@.thread_id, metadata@),
            final(self).is_persistent() == old(self).is_persistent(),
            final(self).shared_as() == old(self).shared_as(),
    {
        let ghost view = metadata@;
        self.threads.insert(metadata.thread_id.bits, metadata);
        assert(self@ =~= old(self)@.insert(view.thread_id, view));
    }

    fn take_out(&mut self, thread_id: ThreadId)
        requires
            old(self).wf(),
        ensures
            final(self).wf(),
            final(self)@ == old(self)@.remove(thread_id),
            final(self).is_persistent() == old(self).is_persistent(),
            final(self).shared_as() == old(self).shared_as(),
    {
        self.threads.remove(&thread_id.bits);
        assert(self@ =~= old(self)@.remove(thread_id));
    }

    /// The threads, in no particular order.
    fn values(&self) -> (threads: Vec<ThreadMetadata>)
        requires
            self.wf(),
        ensures
            holds_all(thread_views(threads@), self@),
    {
        let mut threads: Vec<ThreadMetadata> = Vec::new();
        let ghost mut numbers: Seq<u128> = Seq::empty();
        let ghost all = self.threads.keys().remaining().unref();
        for key in iter: self.threads.keys()
            invariant
                self.wf(),
                all == iter.seq().unref(),
                all.to_set() == self.threads@.dom(),
                iter.seq().no_duplicates(),
                iter.index() <= all.len(),
                numbers == all.take(iter.index() as int),
                threads.len() == numbers.len(),
                forall|j: int|
                    0 <= j < threads.len() ==> (#[trigger] threads@[j])@
                        == self.threads@[numbers[j]]@,
        {
            let ghost number = *key;
            proof {
                assert(all[iter.index() as int] == number);
                assert(self.threads@.dom().contains(number));
                assert(all.take(iter.index() + 1) =~= numbers.push(number));
                numbers = numbers.push(number);
            }
            match self.threads.get(key) {
                Some(thread) => {
                    threads.push(thread.clone());
                },
                None => {},
            }
        }
        proof {
            assert(numbers =~= all);
            let views = thread_views(threads@);
            assert forall|j: int| 0 <= j < views.len() implies self@.dom().contains(
                (#[trigger] views[j]).thread_id,
            ) && self@[views[j].thread_id] == views[j] && views[j].thread_id.bits == all[j] by {
                assert(threads@[j]@ == self.threads@[all[j]]@);
                assert(all.to_set().contains(all[j]));
            }
            assert(ids_distinct(views));
            assert forall|id: ThreadId| #[trigger] self@.dom().contains(id) implies exists|j: int|
                0 <= j < views.len() && (#[trigger] views[j]).thread_id == id by {
                assert(all.to_set().contains(id.bits));
                let j = choose|j: int| 0 <= j < all.len() && all[j] == id.bits;
                assert(views[j].thread_id == id);
            }
            thread_map_is(views, self@);
        }
        threads
    }

    fn reload<E>(&mut self, stored: StoredThreads<E>) -> (res: Result<(), RegistryError<E>>)
        requires
            old(self).wf(),
        ensures
            final(self).wf(),
            final(self).is_persistent() == old(self).is_persistent(),
            final(self).shared_as() == old(self).shared_as(),
            match res {
                Ok(_) => old(self).reloaded(stored) == Ok::<
                    Map<ThreadId, thread_metadata::ThreadMetadataView>,
                    RegistryFault<E>,
                >(final(self)@),
                Err(error) => old(self).reloaded(stored) == Err::<
                    Map<ThreadId, thread_metadata::ThreadMetadataView>,
                    RegistryFault<E>,
                >(error@) && final(self)@ == old(self)@ && tells_of_store(stored, error),
            },
    {
        if !self.persistent {
            return Ok(());
        }
        let threads = match stored {
            StoredThreads::Missing => {
                let none: Vec<ThreadMetadata> = Vec::new();
                assert(thread_views(none@) =~= Seq::empty());
                none
            },
            StoredThreads::Unreadable(error) => {
                return Err(RegistryError::Storage(error));
            },
            StoredThreads::Records(records) => match read_stored(records) {
                Ok(threads) => threads,
                Err(error) => {
                    return Err(RegistryError::Metadata(error));
                },
            },
        };
        let ghost views = thread_views(threads@);
        self.threads = HashMap::new();
        assert(self@ =~= Map::empty());
        assert(views.take(0) =~= Seq::empty());
        let mut i: usize = 0;
        while i < threads.len()
            invariant
                i <= threads.len(),
                views == thread_views(threads@),
                self.wf(),
                self@ == thread_map(views.take(i as int)),
                self.is_persistent() == old(self).is_persistent(),
                self.shared_as() == old(self).shared_as(),
            decreases threads.len() - i,
        {
            let ghost next = views.take(i + 1);
            assert(next.drop_last() =~= views.take(i as int));
            assert(next.last() == threads@[i as int]@);
            self.insert(threads[i].clone());
            i += 1;
        }
        assert(views.take(i as int) =~= views);
        Ok(())
    }

    /// The threads, the newest first.
    pub fn list(&self) -> (threads: Vec<ThreadMetadata>)
        requires
            self.wf(),
        ensures
            lists(thread_views(threads@), self@),
    {
        let unsorted = self.values();
        let ghost views = thread_views(unsorted@);
        let mut sorted: Vec<ThreadMetadata> = Vec::new();
        assert(thread_views(sorted@) =~= Seq::empty());
        assert(views.take(0) =~= Seq::empty());
        let mut i: usize = 0;
        while i < unsorted.len()
            invariant
                i <= unsorted.len(),
                views == thread_views(unsorted@),
                ids_distinct(views),
                lists(thread_views(sorted@), thread_map(views.take(i as int))),
            decreases unsorted.len() - i,
        {
            let ghost before = thread_views(sorted@);
            let ghost thread = unsorted@[i as int]@;
            let mut position: usize = 0;
            while position < sorted.len() && !unsorted[i].updated_at.is_after(
                &sorted[position].updated_at,
            )
                invariant
                    position <= sorted.len(),
                    i < unsorted.len(),
                    before == thread_views(sorted@),
                    thread == unsorted@[i as int]@,
                    forall|j: int|
                        0 <= j < position ==> !thread.updated_at.after(
                            (#[trigger] before[j]).updated_at,
                        ),
                decreases sorted.len() - position,
            {
                assert(before[position as int] == sorted@[position as int]@);
                position += 1;
            }
            proof {
                let next = views.take(i + 1);
                let taken = views.take(i as int);
                assert(next.drop_last() =~= taken);
                assert(next.last() == thread);
                assert(!thread_map(before).dom().contains(thread.thread_id)) by {
                    thread_map_holds(taken);
                    if thread_map(taken).dom().contains(thread.thread_id) {
                        let j = choose|j: int|
                            0 <= j < taken.len() && (#[trigger] taken[j]).thread_id
                                == thread.thread_id && thread_map(taken)[thread.thread_id]
                                == taken[j];
                        assert(taken[j] == views[j]);
                        assert(views[i as int] == thread);
                        assert(views[j].thread_id != views[i as int].thread_id);
                    }
                }
                list_insert(before, position as int, thread);
                sorted_insert(before, position as int, thread);
            }
            if position < sorted.len() {
                assert(before[position as int] == sorted@[position as int]@);
            }
            sorted.insert(position, unsorted[i].clone());
            assert(thread_views(sorted@) =~= before.insert(position as int, thread));
            i += 1;
        }
        assert(views.take(i as int) =~= views);
        sorted
    }

    /// Puts a thread into the registry, in the place of an earlier one with its id, after
    /// the store was read. The records to store are handed back.
    pub fn upsert<E>(&mut self, metadata: ThreadMetadata, stored: StoredThreads<E>) -> (res: Result<
        Option<Vec<PersistedThreadMetadata>>,
        RegistryError<E>,
    >)
        requires
            old(self).wf(),
        ensures
            final(self).wf(),
            final(self).is_persistent() == old(self).is_persistent(),
            final(self).shared_as() == old(self).shared_as(),
            match old(self).reloaded(stored) {
                Err(fault) => final(self)@ == old(self)@ && (res matches Err(error) && error@
                    == fault && tells_of_store(stored, error)),
                Ok(threads) => final(self)@ == threads.insert(metadata@.thread_id, metadata@)
                    && final(self).to_store(res),
            },
    {
        match self.reload(stored) {
            Ok(_) => {},
            Err(error) => {
                return Err(error);
            },
        }
        self.insert(metadata);
        self.records()
    }

    /// Takes a thread out of the registry after the store was read. The records to store
    /// are handed back.
    pub fn remove<E>(&mut self, thread_id: ThreadId, stored: StoredThreads<E>) -> (res: Result<
        Option<Vec<PersistedThreadMetadata>>,
        RegistryError<E>,
    >)
        requires
            old(self).wf(),
        ensures
            final(self).wf(),
            final(self).is_persistent() == old(self).is_persistent(),
            final(self).shared_as() == old(self).shared_as(),
            match old(self).reloaded(stored) {
                Err(fault) => final(self)@ == old(self)@ && (res matches Err(error) && error@
                    == fault && tells_of_store(stored, error)),
                Ok(threads) => final(self)@ == threads.remove(thread_id) && final(self).to_store(
                    res,
                ),
            },
    {
        match self.reload(stored) {
            Ok(_) => {},
            Err(error) => {
                return Err(error);
            },
        }
        self.take_out(thread_id);
        self.records()
    }

    /// Whether a result holds what is to be stored: nothing for a registry that is not
    /// stored, else the record of every thread, the newest first, or the error that one
    /// of them cannot be written.
    pub open spec fn to_store<E>(
        &self,
        res: Result<Option<Vec<PersistedThreadMetadata>>, RegistryError<E>>,
    ) -> bool {
        if !self.is_persistent() {
            res matches Ok(None)
        } else if some_unwritable(self@) {
            res matches Err(error) && error@ == RegistryFault::<E>::Metadata(
                thread_metadata::ThreadMetadataFault::SerializeRemoteConnection,
            )
        } else {
            res matches Ok(Some(records)) && exists|threads: Seq<
                thread_metadata::ThreadMetadataView,
            >| #[trigger]
                lists(threads, self@) && written(threads) == Some(record_views(records@))
        }
    }

    fn records<E>(&self) -> (res: Result<Option<Vec<PersistedThreadMetadata>>, RegistryError<E>>)
        requires
            self.wf(),
        ensures
            self.to_store(res),
    {
        if !self.persistent {
            return Ok(None);
        }
        let threads = self.list();
        let ghost views = thread_views(threads@);
        proof {
            list_is_writable(views, self@);
            threads_are_written_in_turn(views);
        }
        let mut records: Vec<PersistedThreadMetadata> = Vec::new();
        assert(record_views(records@) =~= Seq::empty());
        assert(views.take(0) =~= Seq::empty());
        let mut i: usize = 0;
        while i < threads.len()
            invariant
                i <= threads.len(),
                views == thread_views(threads@),
                written(views) is None <==> some_unwritable(self@),
                written(views) is None <==> exists|j: int|
                    0 <= j < views.len() && (#[trigger] views[j]).to_wire() is None,
                written(views.take(i as int)) == Some(record_views(records@)),
                self.persistent,
            decreases threads.len() - i,
        {
            let ghost next = views.take(i + 1);
            let ghost before = record_views(records@);
            assert(next.drop_last() =~= views.take(i as int));
            assert(next.last() == threads@[i as int]@);
            match PersistedThreadMetadata::from_metadata(&threads[i]) {
                Ok(record) => {
                    records.push(record);
                    assert(record_views(records@) =~= before.push(record@));
                },
                Err(error) => {
                    assert(views[i as int].to_wire() is None);
                    return Err(RegistryError::Metadata(error));
                },
            }
            i += 1;
        }
        assert(views.take(i as int) =~= views);
        Ok(Some(records))
    }

    /// The threads for the other side, the newest first, after the store was read.
    pub fn list_agent_threads<E>(&mut self, stored: StoredThreads<E>) -> (res: Result<
        Vec<AgentThreadMetadata>,
        RegistryError<E>,
    >)
        requires
            old(self).wf(),
        ensures
            final(self).wf(),
            final(self).is_persistent() == old(self).is_persistent(),
            final(self).shared_as() == old(self).shared_as(),
            match old(self).reloaded(stored) {
                Err(fault) => final(self)@ == old(self)@ && (res matches Err(error) && error@
                    == fault && tells_of_store(stored, error)),
                Ok(threads) => final(self)@ == threads && (if some_unwritable(threads) {
                    res matches Err(error) && error@ == RegistryFault::<E>::Metadata(
                        thread_metadata::ThreadMetadataFault::SerializeRemoteConnection,
                    )
                } else {
                    res matches Ok(messages) && exists|list: Seq<
                        thread_metadata::ThreadMetadataView,
                    >| #[trigger]
                        lists(list, threads) && written(list) == Some(message_views(messages@))
                }),
            },
    {
        match self.reload(stored) {
            Ok(_) => {},
            Err(error) => {
                return Err(error);
            },
        }
        let threads = self.list();
        let ghost views = thread_views(threads@);
        proof {
            list_is_writable(views, self@);
            threads_are_written_in_turn(views);
        }
        let mut messages: Vec<AgentThreadMetadata> = Vec::new();
        assert(message_views(messages@) =~= Seq::empty());
        assert(views.take(0) =~= Seq::empty());
        let mut i: usize = 0;
        while i < threads.len()
            invariant
                i <= threads.len(),
                views == thread_views(threads@),
                written(views) is None <==> some_unwritable(self@),
                written(views) is None <==> exists|j: int|
                    0 <= j < views.len() && (#[trigger] views[j]).to_wire() is None,
                written(views.take(i as int)) == Some(message_views(messages@)),
                self.wf(),
                self.is_persistent() == old(self).is_persistent(),
                self.shared_as() == old(self).shared_as(),
                old(self).reloaded(stored) == Ok::<
                    Map<ThreadId, thread_metadata::ThreadMetadataView>,
                    RegistryFault<E>,
                >(self@),
            decreases threads.len() - i,
        {
            let ghost next = views.take(i + 1);
            let ghost before = message_views(messages@);
            assert(next.drop_last() =~= views.take(i as int));
            assert(next.last() == threads@[i as int]@);
            match threads[i].to_proto() {
                Ok(message) => {
                    messages.push(message);
                    assert(message_views(messages@) =~= before.push(message@));
                },
                Err(error) => {
                    assert(views[i as int].to_wire() is None);
                    return Err(RegistryError::Metadata(error));
                },
            }
            i += 1;
        }
        assert(views.take(i as int) =~= views);
        Ok(messages)
    }

    /// Shares the registry under the id of a project. The messages that tell the other
    /// side of the threads are handed back, in no particular order.
    pub fn shared(&mut self, project_id: u64) -> (updates: Vec<AgentThreadUpdated>)
        requires
            old(self).wf(),
        ensures
            final(self).wf(),
            final(self)@ == old(self)@,
            final(self).is_persistent() == old(self).is_persistent(),
            final(self).shared_as() == Some(project_id),
            exists|threads: Seq<thread_metadata::ThreadMetadataView>| #[trigger]
                holds_all(threads, old(self)@) && update_views(updates@) == updates_of(
                    project_id,
                    threads,
                ),
            tells_of_each_once(project_id, old(self)@, update_views(updates@)),
    {
        let threads = self.values();
        let ghost views = thread_views(threads@);
        let mut updates: Vec<AgentThreadUpdated> = Vec::new();
        assert(update_views(updates@) =~= Seq::empty());
        assert(views.take(0) =~= Seq::empty());
        let mut i: usize = 0;
        while i < threads.len()
            invariant
                i <= threads.len(),
                *self == *old(self),
                views == thread_views(threads@),
                update_views(updates@) == updates_of(project_id, views.take(i as int)),
            decreases threads.len() - i,
        {
            let ghost next = views.take(i + 1);
            let ghost before = update_views(updates@);
            assert(next.drop_last() =~= views.take(i as int));
            assert(next.last() == threads@[i as int]@);
            match update_message(project_id, &threads[i]) {
                Some(update) => {
                    updates.push(update);
                    assert(update_views(updates@) =~= before.push(update@));
                },
                None => {},
            }
            i += 1;
        }
        assert(views.take(i as int) =~= views);
        assert(holds_all(views, self@));
        proof {
            sharing_tells_of_each_thread_once(project_id, views, self@);
        }
        self.downstream = Some(project_id);
        updates
    }

    /// What is told of a thread once it is stored: the message to the other side, where
    /// the registry is shared, and the event.
    pub fn upserted(&self, metadata: ThreadMetadata) -> (told: (
        Option<AgentThreadUpdated>,
        ThreadRegistryEvent,
    ))
        ensures
            (match told.0 {
                Some(update) => Some(update@),
                None => None,
            }) == (match self.shared_as() {
                Some(project_id) => update_of(project_id, metadata@),
                None => None,
            }),
            told.0 is Some <==> self.shared_as() is Some && metadata@.to_wire() is Some,
            told.0 matches Some(update) ==> Some(update.project_id) == self.shared_as() && Some(
                update.thread@,
            ) == metadata@.to_wire(),
            told.1@ == ThreadRegistryEventView::ThreadUpdated(metadata@),
    {
        let update = match self.downstream {
            Some(project_id) => update_message(project_id, &metadata),
            None => None,
        };
        (update, ThreadRegistryEvent::ThreadUpdated(metadata))
    }

    /// What is told of a thread once it is out of the store: the message to the other
    /// side, where the registry is shared, and the event.
    pub fn removed(&self, thread_id: ThreadId) -> (told: (
        Option<AgentThreadRemoved>,
        ThreadRegistryEvent,
    ))
        ensures
            told.0 is Some <==> self.shared_as() is Some,
            told.0 matches Some(removed) ==> Some(removed.project_id) == self.shared_as()
                && removed.thread_id@ == thread_id::hyphenated_text(thread_id.bits),
            told.1@ == ThreadRegistryEventView::ThreadRemoved(thread_id),
    {
        let removed = match self.downstream {
            Some(project_id) => Some(
                AgentThreadRemoved { project_id, thread_id: thread_id.to_key_string() },
            ),
            None => None,
        };
        (removed, ThreadRegistryEvent::ThreadRemoved(thread_id))
    }

    /// Takes in what the other side tells of a thread.
    pub fn agent_thread_updated(
        &mut self,
        thread: Option<AgentThreadMetadata>,
        worktree_paths: Option<WorktreePaths>,
        options_read: Result<(), serde_json::Error>,
    ) -> (res: Result<ThreadRegistryEvent, ThreadMessageError>)
        requires
            old(self).wf(),
        ensures
            final(self).wf(),
            final(self).is_persistent() == old(self).is_persistent(),
            final(self).shared_as() == old(self).shared_as(),
            match thread_in(thread, worktree_paths, options_read is Ok) {
                Ok(metadata) => final(self)@ == old(self)@.insert(metadata.thread_id, metadata) && (
                res matches Ok(event) && event@ == ThreadRegistryEventView::ThreadUpdated(
                    metadata,
                )),
                Err(fault) => final(self)@ == old(self)@ && (res matches Err(error) && error@
                    == fault && hands_on(thread, options_read, error)),
            },
    {
        match read_thread_message(thread, worktree_paths, options_read) {
            Ok(metadata) => {
                self.insert(metadata.clone());
                Ok(ThreadRegistryEvent::ThreadUpdated(metadata))
            },
            Err(error) => Err(error),
        }
    }

    /// Takes in that a thread of the other side is gone.
    pub fn agent_thread_removed(&mut self, thread_id: &str) -> (res: Result<
        ThreadRegistryEvent,
        InvalidThreadId,
    >)
        requires
            old(self).wf(),
        ensures
            final(self).wf(),
            final(self).is_persistent() == old(self).is_persistent(),
            final(self).shared_as() == old(self).shared_as(),
            match res {
                Ok(event) => thread_id::uuid_number(thread_id@) matches Some(bits) && final(self)@
                    == old(self)@.remove(ThreadId { bits: bits as u128 }) && event@
                    == ThreadRegistryEventView::ThreadRemoved(ThreadId { bits: bits as u128 }),
                Err(_) => thread_id::uuid_number(thread_id@) is None && final(self)@ == old(self)@,
            },
    {
        match ThreadId::parse(thread_id) {
            Ok(id) => {
                self.take_out(id);
                Ok(ThreadRegistryEvent::ThreadRemoved(id))
            },
            Err(error) => Err(error),
        }
    }
}

/// Why a message about a thread was refused.
#[derive(Debug)]
pub enum ThreadMessageError {
    MissingThread,
    Metadata(ThreadMetadataError),
}

/// The model of a [`ThreadMessageError`].
pub enum ThreadMessageFault {
    MissingThread,
    Metadata(thread_metadata::ThreadMetadataFault),
}

impl View for ThreadMessageError {
    type V = ThreadMessageFault;

    open spec fn view(&self) -> ThreadMessageFault {
        match *self {
            ThreadMessageError::MissingThread => ThreadMessageFault::MissingThread,
            ThreadMessageError::Metadata(error) => ThreadMessageFault::Metadata(error@),
        }
    }
}

impl ThreadMessageError {
    pub fn message(&self) -> (message: &'static str)
        ensures
            message@ == (match self@ {
                ThreadMessageFault::MissingThread => "missing thread metadata"@,
                ThreadMessageFault::Metadata(fault) => fault.message(),
            }),
    {
        match self {
            ThreadMessageError::MissingThread => "missing thread metadata",
            ThreadMessageError::Metadata(error) => error.message(),
        }
    }
}

/// The thread that a message tells of, or why it tells of none.
pub open spec fn thread_in(
    thread: Option<AgentThreadMetadata>,
    worktree_paths: Option<WorktreePaths>,
    options_read: bool,
) -> Result<thread_metadata::ThreadMetadataView, ThreadMessageFault> {
    match thread {
        None => Err(ThreadMessageFault::MissingThread),
        Some(thread) => match thread@.from_wire(
            thread_metadata::optional_paths(worktree_paths),
            options_read,
        ) {
            Ok(metadata) => Ok(metadata),
            Err(fault) => Err(ThreadMessageFault::Metadata(fault)),
        },
    }
}

/// Whether an error holds what reading the connection of a message as options gave, where
/// that is why the message was refused.
pub open spec fn hands_on(
    thread: Option<AgentThreadMetadata>,
    options_read: Result<(), serde_json::Error>,
    error: ThreadMessageError,
) -> bool {
    thread matches Some(thread) ==> (error matches ThreadMessageError::Metadata(error)
        && thread@.hands_on(options_read, error))
}

/// Reads the thread of a message that asks to put it into the registry.
pub fn read_thread_message(
    thread: Option<AgentThreadMetadata>,
    worktree_paths: Option<WorktreePaths>,
    options_read: Result<(), serde_json::Error>,
) -> (res: Result<ThreadMetadata, ThreadMessageError>)
    ensures
        match res {
            Ok(metadata) => thread_in(thread, worktree_paths, options_read is Ok) == Ok::<
                thread_metadata::ThreadMetadataView,
                ThreadMessageFault,
            >(metadata@),
            Err(error) => thread_in(thread, worktree_paths, options_read is Ok) == Err::<
                thread_metadata::ThreadMetadataView,
                ThreadMessageFault,
            >(error@) && hands_on(thread, options_read, error),
        },
{
    match thread {
        None => Err(ThreadMessageError::MissingThread),
        Some(thread) => match ThreadMetadata::from_proto(thread, worktree_paths, options_read) {
            Ok(metadata) => Ok(metadata),
            Err(error) => Err(ThreadMessageError::Metadata(error)),
        },
    }
}

proof fn sorted_insert(
    threads: Seq<thread_metadata::ThreadMetadataView>,
    position: int,
    thread: thread_metadata::ThreadMetadataView,
)
    requires
        newest_first(threads),
        0 <= position <= threads.len(),
        forall|j: int|
            0 <= j < position ==> !thread.updated_at.after((#[trigger] threads[j]).updated_at),
        position < threads.len() ==> thread.updated_at.after(threads[position].updated_at),
    ensures
        newest_first(threads.insert(position, thread)),
{
    let more = threads.insert(position, thread);
    assert forall|i: int, j: int| 0 <= i < j < more.len() implies !(#[trigger] more[j])
        .updated_at.after((#[trigger] more[i]).updated_at) by {
        let a = if i < position {
            i
        } else {
            i - 1
        };
        let b = if j < position {
            j
        } else {
            j - 1
        };
        if i == position {
            assert(more[j] == threads[b]);
            assert(!threads[b].updated_at.after(threads[position].updated_at)) by {
                if b > position {
                    assert(threads[b].updated_at == more[j].updated_at);
                }
            }
        } else if j == position {
            assert(more[i] == threads[a]);
        } else {
            assert(more[i] == threads[a]);
            assert(more[j] == threads[b]);
        }
    }
}

/// Whether everything of a thread can be stored.
pub open spec fn storable(thread: thread_metadata::ThreadMetadataView) -> bool {
    thread.times_in_range() && thread.fits_wire() && thread.connection_reads_back()
}

/// Records with the folders of the threads that they were written from.
pub open spec fn stored_with_folders(
    records: Seq<thread_metadata::AgentThreadMetadataView>,
    threads: Seq<thread_metadata::ThreadMetadataView>,
) -> Seq<StoredThreadView> {
    Seq::new(
        threads.len(),
        |i: int|
            StoredThreadView {
                record: records[i],
                worktree_paths: Some(threads[i].worktree_paths),
                options_read: true,
            },
    )
}

/// A registry outlives the process: what is stored of its threads is read back as the
/// same threads, where everything of each thread can be stored, its lists of paths are read
/// as the folders they were written from, and its connection is read as options.
pub proof fn stored_threads_read_back(threads: Seq<thread_metadata::ThreadMetadataView>)
    ensures
        (forall|i: int| 0 <= i < threads.len() ==> storable(#[trigger] threads[i])) ==> (written(
            threads,
        ) matches Some(records) && read_threads(stored_with_folders(records, threads)) == Ok::<
            Seq<thread_metadata::ThreadMetadataView>,
            thread_metadata::ThreadMetadataFault,
        >(threads)),
    decreases threads.len(),
{
    if forall|i: int| 0 <= i < threads.len() ==> storable(#[trigger] threads[i]) {
        if threads.len() == 0 {
            assert(threads =~= Seq::empty());
        } else {
            let before = threads.drop_last();
            assert forall|i: int| 0 <= i < before.len() implies storable(#[trigger] before[i]) by {
                assert(before[i] == threads[i]);
            }
            stored_threads_read_back(before);
            let last = threads.last();
            assert(storable(threads[threads.len() - 1]));
            thread_metadata::proto_round_trip(last);
            let records = written(threads)->0;
            threads_are_written_in_turn(before);
            threads_are_written_in_turn(threads);
            let stored = stored_with_folders(records, threads);
            assert(stored.drop_last() =~= stored_with_folders(written(before)->0, before)) by {
                assert(records.drop_last() =~= written(before)->0);
                assert forall|i: int| 0 <= i < before.len() implies stored.drop_last()[i]
                    == stored_with_folders(written(before)->0, before)[i] by {
                    assert(before[i] == threads[i]);
                    assert(records[i] == records.drop_last()[i]);
                }
            }
            assert(before.push(last) =~= threads);
        }
    }
}

/// A thread that was put into the registry is listed, and the other threads as before.
pub proof fn upsert_then_list(
    before: Map<ThreadId, thread_metadata::ThreadMetadataView>,
    thread: thread_metadata::ThreadMetadataView,
    list: Seq<thread_metadata::ThreadMetadataView>,
)
    requires
        lists(list, before.insert(thread.thread_id, thread)),
    ensures
        list.contains(thread),
        forall|other: thread_metadata::ThreadMetadataView|
            other.thread_id != thread.thread_id ==> (#[trigger] list.contains(other) <==> (
            before.dom().contains(other.thread_id) && before[other.thread_id] == other)),
{
    let after = before.insert(thread.thread_id, thread);
    list_membership(list, after, thread);
    assert forall|other: thread_metadata::ThreadMetadataView|
        other.thread_id != thread.thread_id implies (#[trigger] list.contains(other) <==> (
    before.dom().contains(other.thread_id) && before[other.thread_id] == other)) by {
        list_membership(list, after, other);
    }
}

/// A thread that was taken out of the registry is not listed, and the other threads are
/// as before.
pub proof fn remove_then_list(
    before: Map<ThreadId, thread_metadata::ThreadMetadataView>,
    id: ThreadId,
    list: Seq<thread_metadata::ThreadMetadataView>,
)
    requires
        lists(list, before.remove(id)),
    ensures
        forall|i: int| 0 <= i < list.len() ==> (#[trigger] list[i]).thread_id != id,
        forall|other: thread_metadata::ThreadMetadataView|
            other.thread_id != id ==> (#[trigger] list.contains(other) <==> (before.dom().contains(
                other.thread_id,
            ) && before[other.thread_id] == other)),
{
    let after = before.remove(id);
    thread_map_holds(list);
    assert forall|i: int| 0 <= i < list.len() implies (#[trigger] list[i]).thread_id != id by {
        assert(after.dom().contains(list[i].thread_id));
    }
    assert forall|other: thread_metadata::ThreadMetadataView| other.thread_id != id implies (
    #[trigger] list.contains(other) <==> (before.dom().contains(other.thread_id)
        && before[other.thread_id] == other)) by {
        list_membership(list, after, other);
    }
}

/// A new thread that was put into the registry and taken out again leaves the threads as
/// they were.
pub proof fn upsert_then_remove(
    before: Map<ThreadId, thread_metadata::ThreadMetadataView>,
    thread: thread_metadata::ThreadMetadataView,
)
    requires
        !before.dom().contains(thread.thread_id),
    ensures
        before.insert(thread.thread_id, thread).remove(thread.thread_id) == before,
{
    assert(before.insert(thread.thread_id, thread).remove(thread.thread_id) =~= before);
}

proof fn list_membership(
    list: Seq<thread_metadata::ThreadMetadataView>,
    map: Map<ThreadId, thread_metadata::ThreadMetadataView>,
    thread: thread_metadata::ThreadMetadataView,
)
    requires
        holds_all(list, map),
    ensures
        list.contains(thread) <==> (map.dom().contains(thread.thread_id)
            && map[thread.thread_id] == thread),
{
    thread_map_holds(list);
    if list.contains(thread) {
        let i = choose|i: int| 0 <= i < list.len() && list[i] == thread;
        assert(map.dom().contains(list[i].thread_id));
        assert(map[list[i].thread_id] == list[i]);
    }
    if map.dom().contains(thread.thread_id) && map[thread.thread_id] == thread {
        let i = choose|i: int|
            0 <= i < list.len() && (#[trigger] list[i]).thread_id == thread.thread_id && thread_map(
                list,
            )[thread.thread_id] == list[i];
        assert(list[i] == thread);
    }
}

/// Whether a record or a message is that of a thread of a registry, the one that it names.
pub open spec fn is_of_registry(
    thread: thread_metadata::AgentThreadMetadataView,
    map: Map<ThreadId, thread_metadata::ThreadMetadataView>,
) -> bool {
    thread_id::uuid_number(thread.thread_id) matches Some(bits) && map.dom().contains(
        ThreadId { bits: bits as u128 },
    ) && map[ThreadId { bits: bits as u128 }].to_wire() == Some(thread)
}

/// Whether messages tell of each thread of a registry that can be written exactly once, each
/// with the id of the project and the whole thread, and of nothing else.
pub open spec fn tells_of_each_once(
    project_id: u64,
    map: Map<ThreadId, thread_metadata::ThreadMetadataView>,
    updates: Seq<AgentThreadUpdatedView>,
) -> bool {
    &&& forall|i: int|
        0 <= i < updates.len() ==> (#[trigger] updates[i]).project_id == project_id
            && is_of_registry(updates[i].thread, map)
    &&& forall|id: ThreadId| #[trigger]
        map.dom().contains(id) && map[id].to_wire() is Some ==> exists|i: int|
            0 <= i < updates.len() && Some((#[trigger] updates[i]).thread) == map[id].to_wire()
    &&& forall|i: int, j: int|
        0 <= i < j < updates.len() ==> (#[trigger] updates[i]).thread.thread_id != (
        #[trigger] updates[j]).thread.thread_id
}

/// The message about a thread that can be written holds the id of the project and the whole
/// thread, whatever the thread; only for a thread whose connection cannot be printed there is
/// none.
pub proof fn threads_are_told_as_they_are(
    project_id: u64,
    thread: thread_metadata::ThreadMetadataView,
)
    ensures
        update_of(project_id, thread) is None <==> (thread.remote_connection is Some
            && crate::json::printed_json(thread.remote_connection->0) is None),
        update_of(project_id, thread) matches Some(update) ==> {
            &&& update.project_id == project_id
            &&& Some(update.thread) == thread.to_wire()
            &&& thread_id::uuid_number(update.thread.thread_id) == Some(
                thread.thread_id.bits as nat,
            )
            &&& update.thread.archived == thread.archived
            &&& update.thread.agent_id == thread.agent_id
            &&& update.thread.title == thread.title
            &&& update.thread.title_override == thread.title_override
            &&& update.thread.updated_at_millis == thread.updated_at.millis()
        },
{
    thread_metadata::writing_keeps_the_thread(thread);
}

/// The messages about threads are those about each of them, one after the other, and a thread
/// alone gives its message, where it has one, and nothing else.
pub proof fn every_thread_is_told(
    project_id: u64,
    threads: Seq<thread_metadata::ThreadMetadataView>,
    more: Seq<thread_metadata::ThreadMetadataView>,
    one: thread_metadata::ThreadMetadataView,
)
    ensures
        updates_of(project_id, threads + more) == updates_of(project_id, threads) + updates_of(
            project_id,
            more,
        ),
        one.to_wire() is None ==> updates_of(project_id, seq![one]).len() == 0,
        one.to_wire() matches Some(thread) ==> updates_of(project_id, seq![one])
            == seq![AgentThreadUpdatedView { project_id, thread }],
    decreases more.len(),
{
    if more.len() == 0 {
        assert(threads + more =~= threads);
        assert(updates_of(project_id, threads) + updates_of(project_id, more) =~= updates_of(
            project_id,
            threads,
        ));
    } else {
        every_thread_is_told(project_id, threads, more.drop_last(), one);
        assert((threads + more).drop_last() =~= threads + more.drop_last());
        assert((threads + more).last() == more.last());
        assert(updates_of(project_id, threads + more) =~= updates_of(project_id, threads)
            + updates_of(project_id, more));
    }
    assert(seq![one].drop_last() =~= Seq::empty());
    assert(seq![one].last() == one);
    assert(updates_of(project_id, seq![one].drop_last()) =~= Seq::empty());
    if let Some(thread) = one.to_wire() {
        assert(updates_of(project_id, seq![one]) =~= seq![
            AgentThreadUpdatedView { project_id, thread },
        ]);
    }
}

proof fn told_thread(
    project_id: u64,
    threads: Seq<thread_metadata::ThreadMetadataView>,
    i: int,
) -> (j: int)
    requires
        0 <= i < updates_of(project_id, threads).len(),
    ensures
        0 <= j < threads.len(),
        threads[j].to_wire() == Some(updates_of(project_id, threads)[i].thread),
        updates_of(project_id, threads)[i].project_id == project_id,
    decreases threads.len(),
{
    let before = threads.drop_last();
    if i < updates_of(project_id, before).len() {
        let j = told_thread(project_id, before, i);
        assert(before[j] == threads[j]);
        j
    } else {
        threads.len() - 1
    }
}

proof fn told_at(
    project_id: u64,
    threads: Seq<thread_metadata::ThreadMetadataView>,
    j: int,
) -> (i: int)
    requires
        0 <= j < threads.len(),
        threads[j].to_wire() is Some,
    ensures
        0 <= i < updates_of(project_id, threads).len(),
        threads[j].to_wire() == Some(updates_of(project_id, threads)[i].thread),
    decreases threads.len(),
{
    let before = threads.drop_last();
    if j < before.len() {
        assert(before[j] == threads[j]);
        told_at(project_id, before, j)
    } else {
        updates_of(project_id, threads).len() - 1
    }
}

proof fn written_ids_differ(
    a: thread_metadata::ThreadMetadataView,
    b: thread_metadata::ThreadMetadataView,
)
    requires
        a.thread_id != b.thread_id,
        a.to_wire() is Some,
        b.to_wire() is Some,
    ensures
        a.to_wire()->0.thread_id != b.to_wire()->0.thread_id,
{
    thread_metadata::writing_keeps_the_thread(a);
    thread_metadata::writing_keeps_the_thread(b);
}

proof fn told_ids_differ(
    project_id: u64,
    threads: Seq<thread_metadata::ThreadMetadataView>,
    i: int,
    j: int,
)
    requires
        ids_distinct(threads),
        0 <= i < j < updates_of(project_id, threads).len(),
    ensures
        updates_of(project_id, threads)[i].thread.thread_id != updates_of(
            project_id,
            threads,
        )[j].thread.thread_id,
    decreases threads.len(),
{
    let before = threads.drop_last();
    assert forall|a: int, b: int| 0 <= a < b < before.len() implies #[trigger] before[a].thread_id
        != #[trigger] before[b].thread_id by {
        assert(before[a] == threads[a] && before[b] == threads[b]);
    }
    if j < updates_of(project_id, before).len() {
        told_ids_differ(project_id, before, i, j);
    } else {
        let k = told_thread(project_id, before, i);
        assert(before[k] == threads[k]);
        assert(threads[k].thread_id != threads[threads.len() - 1].thread_id);
        written_ids_differ(threads[k], threads.last());
    }
}

proof fn written_is_of_registry(
    threads: Seq<thread_metadata::ThreadMetadataView>,
    map: Map<ThreadId, thread_metadata::ThreadMetadataView>,
    j: int,
)
    requires
        holds_all(threads, map),
        0 <= j < threads.len(),
        threads[j].to_wire() is Some,
    ensures
        is_of_registry(threads[j].to_wire()->0, map),
{
    thread_map_holds(threads);
    let thread = threads[j];
    assert(map.dom().contains(thread.thread_id));
    assert(map[thread.thread_id] == thread);
    thread_metadata::writing_keeps_the_thread(thread);
    assert(ThreadId { bits: thread.thread_id.bits as nat as u128 } == thread.thread_id);
}

proof fn registry_thread_at(
    threads: Seq<thread_metadata::ThreadMetadataView>,
    map: Map<ThreadId, thread_metadata::ThreadMetadataView>,
    id: ThreadId,
) -> (j: int)
    requires
        holds_all(threads, map),
        map.dom().contains(id),
    ensures
        0 <= j < threads.len(),
        threads[j] == map[id],
{
    thread_map_holds(threads);
    choose|j: int|
        0 <= j < threads.len() && (#[trigger] threads[j]).thread_id == id && thread_map(threads)[id]
            == threads[j]
}

/// Sharing a registry tells of each of its threads that can be written exactly once, under the
/// id of the project and with the whole thread, and of nothing else.
pub proof fn sharing_tells_of_each_thread_once(
    project_id: u64,
    threads: Seq<thread_metadata::ThreadMetadataView>,
    map: Map<ThreadId, thread_metadata::ThreadMetadataView>,
)
    requires
        holds_all(threads, map),
    ensures
        tells_of_each_once(project_id, map, updates_of(project_id, threads)),
{
    let updates = updates_of(project_id, threads);
    assert forall|i: int| 0 <= i < updates.len() implies (#[trigger] updates[i]).project_id
        == project_id && is_of_registry(updates[i].thread, map) by {
        let j = told_thread(project_id, threads, i);
        written_is_of_registry(threads, map, j);
    }
    assert forall|id: ThreadId| #[trigger]
        map.dom().contains(id) && map[id].to_wire() is Some implies exists|i: int|
        0 <= i < updates.len() && Some((#[trigger] updates[i]).thread) == map[id].to_wire() by {
        let j = registry_thread_at(threads, map, id);
        let i = told_at(project_id, threads, j);
        assert(Some(updates[i].thread) == map[id].to_wire());
    }
    assert forall|i: int, j: int| 0 <= i < j < updates.len() implies (
    #[trigger] updates[i]).thread.thread_id != (#[trigger] updates[j]).thread.thread_id by {
        told_ids_differ(project_id, threads, i, j);
    }
}

/// While a registry is shared, a thread of it is told of unless its connection cannot be
/// printed, archived or not; and a message is about the thread that it names, under the id of
/// the project.
pub proof fn shared_threads_are_told(
    project_id: u64,
    map: Map<ThreadId, thread_metadata::ThreadMetadataView>,
    updates: Seq<AgentThreadUpdatedView>,
    id: ThreadId,
)
    requires
        tells_of_each_once(project_id, map, updates),
        map.dom().contains(id),
        map[id].remote_connection is None || crate::json::printed_json(
            map[id].remote_connection->0,
        ) is Some,
    ensures
        exists|i: int|
            0 <= i < updates.len() && {
                &&& (#[trigger] updates[i]).project_id == project_id
                &&& Some(updates[i].thread) == map[id].to_wire()
                &&& thread_id::uuid_number(updates[i].thread.thread_id) == Some(
                    map[id].thread_id.bits as nat,
                )
                &&& updates[i].thread.archived == map[id].archived
            },
{
    thread_metadata::writing_keeps_the_thread(map[id]);
    let i = choose|i: int|
        0 <= i < updates.len() && Some((#[trigger] updates[i]).thread) == map[id].to_wire();
    assert(updates[i].project_id == project_id);
}

/// A record is seen whole.
pub proof fn records_are_seen_whole(record: PersistedThreadMetadata)
    ensures
        record@.thread_id == record.thread_id@,
        record@.session_id == text::optional_text(record.session_id),
        record@.agent_id == record.agent_id@,
        record@.title == text::optional_text(record.title),
        record@.title_override == text::optional_text(record.title_override),
        record@.parallel_attempt_group == text::optional_text(record.parallel_attempt_group),
        record@.landed == text::optional_text(record.landed),
        record@.updated_at_millis == record.updated_at_millis,
        record.created_at_millis is None ==> record@.created_at_millis is None,
        record.created_at_millis matches Some(millis) ==> record@.created_at_millis == Some(
            millis as int,
        ),
        record.interacted_at_millis is None ==> record@.interacted_at_millis is None,
        record.interacted_at_millis matches Some(millis) ==> record@.interacted_at_millis == Some(
            millis as int,
        ),
        record@.folder_paths == Some(record.folder_paths@),
        record@.main_worktree_paths == Some(record.main_worktree_paths@),
        record@.remote_connection_json == text::optional_text(record.remote_connection_json),
        record@.archived == record.archived,
{
}

/// A stored thread is seen whole: its record, its folders, and whether its connection was
/// read.
pub proof fn stored_threads_are_seen_whole(stored: StoredThread)
    ensures
        stored@.record == stored.record@,
        stored.worktree_paths is None ==> stored@.worktree_paths is None,
        stored.worktree_paths matches Some(paths) ==> stored@.worktree_paths == Some(paths@),
        stored@.options_read <==> stored.options_read is Ok,
{
}

/// In a list each is seen at its place.
pub proof fn registry_lists_are_seen_in_place(
    stored: Seq<StoredThread>,
    threads: Seq<ThreadMetadata>,
    records: Seq<PersistedThreadMetadata>,
    messages: Seq<AgentThreadMetadata>,
    updates: Seq<AgentThreadUpdated>,
)
    ensures
        stored_views(stored).len() == stored.len(),
        forall|i: int| 0 <= i < stored.len() ==> #[trigger] stored_views(stored)[i] == stored[i]@,
        thread_views(threads).len() == threads.len(),
        forall|i: int| 0 <= i < threads.len() ==> #[trigger] thread_views(threads)[i] == threads[i]@,
        record_views(records).len() == records.len(),
        forall|i: int| 0 <= i < records.len() ==> #[trigger] record_views(records)[i] == records[i]@,
        message_views(messages).len() == messages.len(),
        forall|i: int|
            0 <= i < messages.len() ==> #[trigger] message_views(messages)[i] == messages[i]@,
        update_views(updates).len() == updates.len(),
        forall|i: int|
            0 <= i < updates.len() ==> (#[trigger] update_views(updates)[i]).project_id
                == updates[i].project_id && update_views(updates)[i].thread == updates[i].thread@,
{
}

/// A list of paths is stored as it is, and one that is missing as an empty one.
pub proof fn missing_lists_are_stored_empty(list: thread_metadata::SerializedPathListView)
    ensures
        stored_list(Some(list)) == Some(list),
        stored_list(None) matches Some(empty) && empty.paths.len() == 0 && empty.order.len() == 0,
{
}

/// Records can be read exactly where each of them can, and the thread at each place is that of
/// the record at the place. Where they cannot, the fault is that of the first that cannot.
pub proof fn records_are_read_in_turn(stored: Seq<StoredThreadView>)
    ensures
        read_threads(stored) matches Ok(threads) ==> threads.len() == stored.len() && forall|i: int|
            0 <= i < stored.len() ==> (#[trigger] stored[i]).record.from_wire(
                stored[i].worktree_paths,
                stored[i].options_read,
            ) == Ok::<thread_metadata::ThreadMetadataView, thread_metadata::ThreadMetadataFault>(
                threads[i],
            ),
        read_threads(stored) matches Err(fault) ==> exists|i: int|
            0 <= i < stored.len() && (#[trigger] stored[i]).record.from_wire(
                stored[i].worktree_paths,
                stored[i].options_read,
            ) == Err::<thread_metadata::ThreadMetadataView, thread_metadata::ThreadMetadataFault>(
                fault,
            ) && forall|j: int|
                0 <= j < i ==> (#[trigger] stored[j]).record.from_wire(
                    stored[j].worktree_paths,
                    stored[j].options_read,
                ) is Ok,
    decreases stored.len(),
{
    if stored.len() > 0 {
        let before = stored.drop_last();
        let count = before.len() as int;
        records_are_read_in_turn(before);
        assert(forall|i: int| 0 <= i < count ==> before[i] == stored[i]);
        assert(stored[count] == stored.last());
        match read_threads(before) {
            Ok(earlier) => {
                assert forall|i: int| 0 <= i < count implies (
                #[trigger] stored[i]).record.from_wire(
                    stored[i].worktree_paths,
                    stored[i].options_read,
                ) == Ok::<thread_metadata::ThreadMetadataView, thread_metadata::ThreadMetadataFault>(
                    earlier[i],
                ) by {
                    assert(before[i] == stored[i]);
                }
                if read_threads(stored) is Err {
                    assert(stored[count].record.from_wire(
                        stored[count].worktree_paths,
                        stored[count].options_read,
                    ) is Err);
                }
            },
            Err(fault) => {
                let i = choose|i: int|
                    0 <= i < before.len() && (#[trigger] before[i]).record.from_wire(
                        before[i].worktree_paths,
                        before[i].options_read,
                    ) == Err::<
                        thread_metadata::ThreadMetadataView,
                        thread_metadata::ThreadMetadataFault,
                    >(fault) && forall|j: int|
                        0 <= j < i ==> (#[trigger] before[j]).record.from_wire(
                            before[j].worktree_paths,
                            before[j].options_read,
                        ) is Ok;
                assert(stored[i] == before[i]);
                assert forall|j: int| 0 <= j < i implies (#[trigger] stored[j]).record.from_wire(
                    stored[j].worktree_paths,
                    stored[j].options_read,
                ) is Ok by {
                    assert(before[j] == stored[j]);
                }
            },
        }
    }
}

/// Of threads with the same id the later one counts, and every thread counts that has an id of
/// its own.
pub proof fn later_threads_count(
    threads: Seq<thread_metadata::ThreadMetadataView>,
    more: Seq<thread_metadata::ThreadMetadataView>,
    one: thread_metadata::ThreadMetadataView,
)
    ensures
        thread_map(threads + more) == thread_map(threads).union_prefer_right(thread_map(more)),
        thread_map(seq![one]) == map![one.thread_id => one],
    decreases more.len(),
{
    if more.len() == 0 {
        assert(threads + more =~= threads);
    } else {
        later_threads_count(threads, more.drop_last(), one);
        assert((threads + more).drop_last() =~= threads + more.drop_last());
        assert((threads + more).last() == more.last());
    }
    assert(thread_map(threads + more) =~= thread_map(threads).union_prefer_right(thread_map(more)));
    assert(seq![one].drop_last() =~= Seq::empty());
    assert(seq![one].last() == one);
    assert(thread_map(seq![one].drop_last()) =~= Map::empty());
    assert(thread_map(seq![one]) =~= map![one.thread_id => one]);
}

/// A list of a registry holds each of its threads at one place, and nothing else; a thread that
/// was updated later stands before.
pub proof fn lists_hold_each_thread_once(
    list: Seq<thread_metadata::ThreadMetadataView>,
    map: Map<ThreadId, thread_metadata::ThreadMetadataView>,
)
    requires
        lists(list, map),
    ensures
        holds_all(list, map),
        forall|id: ThreadId| #[trigger]
            map.dom().contains(id) ==> list.contains(map[id]) && map[id].thread_id == id,
        forall|i: int|
            0 <= i < list.len() ==> map.dom().contains((#[trigger] list[i]).thread_id)
                && map[list[i].thread_id] == list[i],
        forall|i: int, j: int|
            0 <= i < j < list.len() ==> {
                &&& (#[trigger] list[i]).thread_id != (#[trigger] list[j]).thread_id
                &&& list[i].updated_at.seconds >= list[j].updated_at.seconds
                &&& list[i].updated_at.seconds == list[j].updated_at.seconds
                    ==> list[i].updated_at.nanos >= list[j].updated_at.nanos
            },
{
    thread_map_holds(list);
    assert forall|i: int| 0 <= i < list.len() implies map.dom().contains(
        (#[trigger] list[i]).thread_id,
    ) && map[list[i].thread_id] == list[i] by {
        assert(thread_map(list).dom().contains(list[i].thread_id));
    }
    assert forall|i: int, j: int| 0 <= i < j < list.len() implies {
        &&& (#[trigger] list[i]).thread_id != (#[trigger] list[j]).thread_id
        &&& list[i].updated_at.seconds >= list[j].updated_at.seconds
        &&& list[i].updated_at.seconds == list[j].updated_at.seconds ==> list[i].updated_at.nanos
            >= list[j].updated_at.nanos
    } by {
        assert(!list[j].updated_at.after(list[i].updated_at));
    }
}

/// In no particular order, too, a list of a registry holds each of its threads at one place,
/// and nothing else.
pub proof fn values_hold_each_thread_once(
    threads: Seq<thread_metadata::ThreadMetadataView>,
    map: Map<ThreadId, thread_metadata::ThreadMetadataView>,
)
    requires
        holds_all(threads, map),
    ensures
        forall|thread: thread_metadata::ThreadMetadataView| #[trigger]
            threads.contains(thread) <==> (map.dom().contains(thread.thread_id)
                && map[thread.thread_id] == thread),
        forall|i: int, j: int|
            0 <= i < j < threads.len() ==> (#[trigger] threads[i]).thread_id != (
            #[trigger] threads[j]).thread_id,
{
    assert forall|thread: thread_metadata::ThreadMetadataView| #[trigger]
        threads.contains(thread) <==> (map.dom().contains(thread.thread_id)
            && map[thread.thread_id] == thread) by {
        list_membership(threads, map, thread);
    }
}

/// A registry can be written unless one of its threads has a connection that cannot be
/// printed.
pub proof fn only_connections_are_unwritable(
    map: Map<ThreadId, thread_metadata::ThreadMetadataView>,
    id: ThreadId,
)
    ensures
        map.dom().contains(id) && map[id].remote_connection is Some && crate::json::printed_json(
            map[id].remote_connection->0,
        ) is None ==> some_unwritable(map),
        (forall|id: ThreadId| #[trigger]
            map.dom().contains(id) ==> map[id].remote_connection is None
                || crate::json::printed_json(map[id].remote_connection->0) is Some)
            ==> !some_unwritable(map),
{
    thread_metadata::writing_keeps_the_thread(map[id]);
    if some_unwritable(map) {
        let bad = choose|bad: ThreadId| #[trigger]
            map.dom().contains(bad) && map[bad].to_wire() is None;
        thread_metadata::writing_keeps_the_thread(map[bad]);
    }
}

/// Nothing stored is no thread, a store that cannot be read is the error it gave, and records
/// are the threads they are read as.
pub proof fn stores_are_loaded<E>(error: E, records: Vec<StoredThread>)
    ensures
        loaded(StoredThreads::<E>::Missing) matches Ok(none) && none.len() == 0,
        loaded(StoredThreads::Unreadable(error)) == Err::<
            Seq<thread_metadata::ThreadMetadataView>,
            RegistryFault<E>,
        >(RegistryFault::Storage(error)),
        read_threads(stored_views(records@)) matches Ok(threads) ==> loaded(
            StoredThreads::<E>::Records(records),
        ) == Ok::<Seq<thread_metadata::ThreadMetadataView>, RegistryFault<E>>(threads),
        read_threads(stored_views(records@)) matches Err(fault) ==> loaded(
            StoredThreads::<E>::Records(records),
        ) == Err::<Seq<thread_metadata::ThreadMetadataView>, RegistryFault<E>>(
            RegistryFault::Metadata(fault),
        ),
{
}

/// Only a registry that is stored reads the store: then its threads are those of the store,
/// and else they stay.
pub proof fn only_stored_registries_reload<E>(registry: ThreadRegistry, stored: StoredThreads<E>)
    ensures
        !registry.is_persistent() ==> registry.reloaded(stored) == Ok::<
            Map<ThreadId, thread_metadata::ThreadMetadataView>,
            RegistryFault<E>,
        >(registry@),
        registry.is_persistent() ==> (loaded(stored) matches Ok(threads) ==> registry.reloaded(
            stored,
        ) == Ok::<Map<ThreadId, thread_metadata::ThreadMetadataView>, RegistryFault<E>>(
            thread_map(threads),
        )),
        registry.is_persistent() ==> (loaded(stored) matches Err(fault) ==> registry.reloaded(
            stored,
        ) == Err::<Map<ThreadId, thread_metadata::ThreadMetadataView>, RegistryFault<E>>(fault)),
{
}

/// What is to be stored of a registry holds the record of each of its threads at one place,
/// and nothing else, those that were updated later before the others.
pub proof fn every_thread_is_stored<E>(
    registry: ThreadRegistry,
    res: Result<Option<Vec<PersistedThreadMetadata>>, RegistryError<E>>,
)
    requires
        registry.to_store(res),
    ensures
        !registry.is_persistent() ==> res matches Ok(None),
        registry.is_persistent() && some_unwritable(registry@) ==> (res matches Err(
            RegistryError::Metadata(error),
        ) && error is SerializeRemoteConnection),
        registry.is_persistent() && !some_unwritable(registry@) ==> (res matches Ok(Some(records))
            && {
            &&& forall|id: ThreadId| #[trigger]
                registry@.dom().contains(id) ==> exists|i: int|
                    0 <= i < records@.len() && Some((#[trigger] records@[i])@)
                        == registry@[id].to_wire()
            &&& forall|i: int|
                0 <= i < records@.len() ==> is_of_registry((#[trigger] records@[i])@, registry@)
            &&& forall|i: int, j: int|
                0 <= i < j < records@.len() ==> (#[trigger] records@[i])@.thread_id != (
                #[trigger] records@[j])@.thread_id
        }),
{
    if registry.is_persistent() && !some_unwritable(registry@) {
        let records = res->Ok_0->0;
        let threads = choose|threads: Seq<thread_metadata::ThreadMetadataView>| #[trigger]
            lists(threads, registry@) && written(threads) == Some(record_views(records@));
        threads_are_written_in_turn(threads);
        assert forall|i: int| 0 <= i < records@.len() implies is_of_registry(
            (#[trigger] records@[i])@,
            registry@,
        ) by {
            assert(record_views(records@)[i] == records@[i]@);
            assert(threads[i].to_wire() == Some(records@[i]@));
            written_is_of_registry(threads, registry@, i);
        }
        assert forall|id: ThreadId| #[trigger] registry@.dom().contains(id) implies exists|i: int|
            0 <= i < records@.len() && Some((#[trigger] records@[i])@) == registry@[id].to_wire() by {
            let i = registry_thread_at(threads, registry@, id);
            assert(record_views(records@)[i] == records@[i]@);
            assert(threads[i].to_wire() == Some(records@[i]@));
        }
        assert forall|i: int, j: int| 0 <= i < j < records@.len() implies (
        #[trigger] records@[i])@.thread_id != (#[trigger] records@[j])@.thread_id by {
            assert(record_views(records@)[i] == records@[i]@);
            assert(record_views(records@)[j] == records@[j]@);
            assert(threads[i].to_wire() == Some(records@[i]@));
            assert(threads[j].to_wire() == Some(records@[j]@));
            written_ids_differ(threads[i], threads[j]);
        }
    }
}

/// An error about records is that of a record which cannot be read, after others that all can;
/// the error that reading its connection gave is handed on.
pub proof fn refusals_tell_of_the_first_record(
    records: Seq<StoredThread>,
    error: ThreadMetadataError,
)
    requires
        is_first_refusal(records, error),
    ensures
        exists|i: int|
            0 <= i < records.len() && (#[trigger] records[i])@.record.from_wire(
                records[i]@.worktree_paths,
                records[i]@.options_read,
            ) == Err::<thread_metadata::ThreadMetadataView, thread_metadata::ThreadMetadataFault>(
                error@,
            ) && records[i]@.record.hands_on(records[i].options_read, error) && forall|j: int|
                0 <= j < i ==> (#[trigger] records[j])@.record.from_wire(
                    records[j]@.worktree_paths,
                    records[j]@.options_read,
                ) is Ok,
{
    let i = choose|i: int|
        0 <= i < records.len() && (#[trigger] records[i]).is_refused_with(error) && read_threads(
            stored_views(records).take(i),
        ) is Ok;
    let before = stored_views(records).take(i);
    records_are_read_in_turn(before);
    assert forall|j: int| 0 <= j < i implies (#[trigger] records[j])@.record.from_wire(
        records[j]@.worktree_paths,
        records[j]@.options_read,
    ) is Ok by {
        assert(before[j] == records[j]@);
    }
}

/// The error about a store is the one that reading it gave, or that of its first record that
/// cannot be read.
pub proof fn errors_tell_of_the_store<E>(stored: StoredThreads<E>, error: RegistryError<E>)
    requires
        tells_of_store(stored, error),
    ensures
        stored matches StoredThreads::Unreadable(cause) ==> error == RegistryError::Storage(cause),
        stored matches StoredThreads::Records(records) ==> (error matches RegistryError::Metadata(
            refusal,
        ) && is_first_refusal(records@, refusal)),
        !(stored is Missing),
{
}

/// Errors, events and messages of the registry are seen whole.
pub proof fn registry_tidings_are_seen_whole<E>(
    error: RegistryError<E>,
    event: ThreadRegistryEvent,
    refusal: ThreadMessageError,
    update: AgentThreadUpdated,
)
    ensures
        error matches RegistryError::Storage(cause) ==> error@ == RegistryFault::<E>::Storage(
            cause,
        ),
        error matches RegistryError::Metadata(cause) ==> error@ == RegistryFault::<E>::Metadata(
            cause@,
        ),
        event matches ThreadRegistryEvent::ThreadUpdated(thread) ==> event@
            == ThreadRegistryEventView::ThreadUpdated(thread@),
        event matches ThreadRegistryEvent::ThreadRemoved(id) ==> event@
            == ThreadRegistryEventView::ThreadRemoved(id),
        refusal is MissingThread ==> refusal@ is MissingThread,
        refusal matches ThreadMessageError::Metadata(cause) ==> refusal@
            == ThreadMessageFault::Metadata(cause@),
        update@.project_id == update.project_id,
        update@.thread == update.thread@,
{
}

/// A message about a thread is read as its thread, with the folders that were read, and refused
/// only where it holds no thread or one that cannot be read; an error that reading its
/// connection gave is handed on.
pub proof fn thread_messages_are_read(
    thread: AgentThreadMetadata,
    worktree_paths: Option<WorktreePaths>,
    options_read: bool,
    error: ThreadMessageError,
    cause: serde_json::Error,
)
    ensures
        thread_in(None, worktree_paths, options_read) == Err::<
            thread_metadata::ThreadMetadataView,
            ThreadMessageFault,
        >(ThreadMessageFault::MissingThread),
        thread@.from_wire(thread_metadata::optional_paths(worktree_paths), options_read) matches Ok(
            metadata,
        ) ==> thread_in(Some(thread), worktree_paths, options_read) == Ok::<
            thread_metadata::ThreadMetadataView,
            ThreadMessageFault,
        >(metadata),
        thread@.from_wire(thread_metadata::optional_paths(worktree_paths), options_read) matches Err(
            fault,
        ) ==> thread_in(Some(thread), worktree_paths, options_read) == Err::<
            thread_metadata::ThreadMetadataView,
            ThreadMessageFault,
        >(ThreadMessageFault::Metadata(fault)),
        hands_on(Some(thread), Err(cause), error) && thread.remote_connection_json is Some
            && crate::json::parsed_json(thread.remote_connection_json->0@) is Some ==> error
            == ThreadMessageError::Metadata(
            ThreadMetadataError::DeserializeRemoteConnection(cause),
        ),
{
}

} // verus!
