//! The credentials of the agent in a file: when the file is read, what is kept of it, and
//! how it is replaced so that it never holds half of what was written.
use vstd::prelude::*;
use vstd::string::StringExecFns;

use crate::text;
use crate::thread_id;

verus! {

/// The name under which the credentials are kept.
pub const AGENT_CREDENTIALS_USERNAME: &'static str = "Bearer";

/// What is known of the content of the file.
#[derive(Debug, PartialEq, Eq)]
pub struct AgentCredentialsCache {
    loaded: bool,
    bytes: Option<Vec<u8>>,
}

/// The credentials in a file. They answer to one address only.
#[derive(Debug, PartialEq, Eq)]
pub struct FileBackedAgentCredentialsProvider {
    credentials_key: String,
    path: String,
    cache: AgentCredentialsCache,
}

/// The model of a [`FileBackedAgentCredentialsProvider`].
pub struct CredentialsProviderView {
    pub credentials_key: Seq<char>,
    pub path: Seq<char>,
    /// What the file holds, where that is known: its bytes, or that there is no file.
    pub cache: Option<Option<Seq<u8>>>,
}

/// The model of bytes that may be there.
pub open spec fn optional_bytes(bytes: Option<Vec<u8>>) -> Option<Seq<u8>> {
    match bytes {
        Some(bytes) => Some(bytes@),
        None => None,
    }
}

impl View for FileBackedAgentCredentialsProvider {
    type V = CredentialsProviderView;

    closed spec fn view(&self) -> CredentialsProviderView {
        CredentialsProviderView {
            credentials_key: self.credentials_key@,
            path: self.path@,
            cache: if self.cache.loaded {
                Some(optional_bytes(self.cache.bytes))
            } else {
                None
            },
        }
    }
}

/// What reading the file gave.
#[derive(Debug, PartialEq, Eq)]
pub enum FileRead<E> {
    Bytes(Vec<u8>),
    NotFound,
    Failed(E),
}

/// What removing the file gave.
#[derive(Debug, Clone, Copy, PartialEq, Eq)]
pub enum FileRemoval<E> {
    Removed,
    NotFound,
    Failed(E),
}

/// What the file holds, or why that is not known.
pub open spec fn file_content<E>(file: FileRead<E>) -> Result<Option<Seq<u8>>, E> {
    match file {
        FileRead::Bytes(bytes) => Ok(Some(bytes@)),
        FileRead::NotFound => Ok(None),
        FileRead::Failed(error) => Err(error),
    }
}

impl CredentialsProviderView {
    /// What the file holds, as far as is known or was just read.
    pub open spec fn content<E>(self, file: FileRead<E>) -> Result<Option<Seq<u8>>, E> {
        match self.cache {
            Some(known) => Ok(known),
            None => file_content(file),
        }
    }

    /// The provider once it is known what the file holds.
    pub open spec fn knowing(self, content: Option<Seq<u8>>) -> Self {
        CredentialsProviderView { cache: Some(content), ..self }
    }
}

/// What is to be done to write credentials.
#[derive(Debug, PartialEq, Eq)]
pub enum CredentialsWrite<E> {
    /// They are not kept here.
    Skip,
    /// The file is to be replaced, and the new content remembered.
    ReplaceFile,
    /// Only one name is kept here.
    UnsupportedUsername(String),
    /// They are no credentials.
    Invalid(E),
}

/// The credentials that are kept, as far as it is asked who has signed in.
#[derive(Debug, PartialEq, Eq)]
pub struct StoredCredentials {
    pub refresh_token: String,
    pub email: Option<String>,
}

/// Who has signed in.
#[derive(Debug, PartialEq, Eq)]
pub struct AgentAuthStatus {
    pub authenticated: bool,
    pub email: Option<String>,
}

fn copy_bytes(bytes: &Vec<u8>) -> (copy: Vec<u8>)
    ensures
        copy@ == bytes@,
{
    let mut copy: Vec<u8> = Vec::new();
    let mut i: usize = 0;
    while i < bytes.len()
        invariant
            i <= bytes.len(),
            copy@ == bytes@.take(i as int),
        decreases bytes.len() - i,
    {
        copy.push(bytes[i]);
        assert(copy@ =~= bytes@.take(i + 1));
        i += 1;
    }
    assert(copy@ =~= bytes@);
    copy
}

impl FileBackedAgentCredentialsProvider {
    /// The credentials in the file at a path, of which nothing is known yet.
    pub fn with_path(credentials_key: String, path: String) -> (provider: Self)
        ensures
            provider@ == (CredentialsProviderView {
                credentials_key: credentials_key@,
                path: path@,
                cache: None,
            }),
    {
        FileBackedAgentCredentialsProvider {
            credentials_key,
            path,
            cache: AgentCredentialsCache { loaded: false, bytes: None },
        }
    }

    pub fn path(&self) -> (path: &str)
        ensures
            path@ == self@.path,
    {
        self.path.as_str()
    }

    /// Whether the file is to be read.
    pub fn needs_file(&self) -> (needed: bool)
        ensures
            needed == (self@.cache is None),
    {
        !self.cache.loaded
    }

    /// What the file holds. What reading it gave is handed in, and counts only where
    /// nothing was known before.
    pub fn read_bytes<E>(&mut self, file: FileRead<E>) -> (res: Result<Option<Vec<u8>>, E>)
        ensures
            match old(self)@.content(file) {
                Ok(content) => {
                    &&& final(self)@ == old(self)@.knowing(content)
                    &&& res matches Ok(bytes)
                    &&& optional_bytes(bytes) == content
                },
                Err(error) => {
                    &&& final(self)@ == old(self)@
                    &&& res == Err::<Option<Vec<u8>>, E>(error)
                },
            },
    {
        if !self.cache.loaded {
            match file {
                FileRead::Bytes(bytes) => {
                    self.cache = AgentCredentialsCache { loaded: true, bytes: Some(bytes) };
                },
                FileRead::NotFound => {
                    self.cache = AgentCredentialsCache { loaded: true, bytes: None };
                },
                FileRead::Failed(error) => {
                    return Err(error);
                },
            }
        }
        match &self.cache.bytes {
            Some(bytes) => Ok(Some(copy_bytes(bytes))),
            None => Ok(None),
        }
    }

    /// Whether an address is the one that is answered to.
    pub fn answers_to(&self, url: &str) -> (answers: bool)
        ensures
            answers == (url@ == self@.credentials_key),
    {
        text::same_text(url, &self.credentials_key)
    }

    /// The name and the credentials for an address; there are none for any but one.
    pub fn read_credentials<E>(&mut self, url: &str, file: FileRead<E>) -> (res: Result<
        Option<(String, Vec<u8>)>,
        E,
    >)
        ensures
            if url@ != old(self)@.credentials_key {
                final(self)@ == old(self)@ && res == Ok::<Option<(String, Vec<u8>)>, E>(None)
            } else {
                match old(self)@.content(file) {
                    Ok(bytes) => {
                        &&& final(self)@ == old(self)@.knowing(bytes)
                        &&& res matches Ok(found)
                        &&& match found {
                            Some((username, password)) => username@ == AGENT_CREDENTIALS_USERNAME@
                                && bytes == Some(password@),
                            None => bytes is None,
                        }
                    },
                    Err(error) => {
                        &&& final(self)@ == old(self)@
                        &&& res == Err::<Option<(String, Vec<u8>)>, E>(error)
                    },
                }
            },
    {
        if !self.answers_to(url) {
            return Ok(None);
        }
        match self.read_bytes(file) {
            Ok(Some(bytes)) => Ok(Some((AGENT_CREDENTIALS_USERNAME.to_string(), bytes))),
            Ok(None) => Ok(None),
            Err(error) => Err(error),
        }
    }

    /// Decides what is to be done to write credentials for an address. Whether the bytes
    /// are credentials is handed in.
    pub fn begin_write<E>(&self, url: &str, username: &str, validity: Result<(), E>) -> (write:
        CredentialsWrite<E>)
        ensures
            if url@ != self@.credentials_key {
                write is Skip
            } else if username@ != AGENT_CREDENTIALS_USERNAME@ {
                write matches CredentialsWrite::UnsupportedUsername(name) && name@ == username@
            } else {
                match validity {
                    Ok(_) => write is ReplaceFile,
                    Err(error) => write == CredentialsWrite::Invalid(error),
                }
            },
    {
        if !self.answers_to(url) {
            return CredentialsWrite::Skip;
        }
        if !text::same_text(username, AGENT_CREDENTIALS_USERNAME) {
            return CredentialsWrite::UnsupportedUsername(username.to_string());
        }
        match validity {
            Ok(_) => CredentialsWrite::ReplaceFile,
            Err(error) => CredentialsWrite::Invalid(error),
        }
    }

    /// Remembers what was written to the file.
    pub fn finish_write(&mut self, bytes: &Vec<u8>)
        ensures
            final(self)@ == old(self)@.knowing(Some(bytes@)),
    {
        self.cache = AgentCredentialsCache { loaded: true, bytes: Some(copy_bytes(bytes)) };
    }

    /// Remembers that there is no file any more, where that is so.
    pub fn delete_file<E>(&mut self, removal: FileRemoval<E>) -> (res: Result<(), E>)
        ensures
            match removal {
                FileRemoval::Failed(error) => {
                    &&& final(self)@ == old(self)@
                    &&& res == Err::<(), E>(error)
                },
                _ => final(self)@ == old(self)@.knowing(None) && res is Ok,
            },
    {
        match removal {
            FileRemoval::Removed => {},
            FileRemoval::NotFound => {},
            FileRemoval::Failed(error) => {
                return Err(error);
            },
        }
        self.cache = AgentCredentialsCache { loaded: true, bytes: None };
        Ok(())
    }
}

/// Tells who has signed in: nobody without credentials, or with credentials that cannot
/// be renewed.
pub fn auth_status(credentials: Option<StoredCredentials>) -> (status: AgentAuthStatus)
    ensures
        match credentials {
            Some(credentials) => status.authenticated == (credentials.refresh_token@.len() > 0)
                && status.email == credentials.email,
            None => !status.authenticated && status.email is None,
        },
{
    match credentials {
        Some(credentials) => AgentAuthStatus {
            authenticated: !credentials.refresh_token.as_str().is_empty(),
            email: credentials.email,
        },
        None => AgentAuthStatus { authenticated: false, email: None },
    }
}

/// What was written, deleted or read last is what is read next, whatever the file is said
/// to hold.
pub proof fn last_content_is_read<E>(
    provider: CredentialsProviderView,
    content: Option<Seq<u8>>,
    file: FileRead<E>,
)
    ensures
        provider.knowing(content).content(file) == Ok::<Option<Seq<u8>>, E>(content),
{
}

/// The name of the file that takes the new content before it replaces the old one.
pub fn temp_file_name(file_name: &str, id: &uuid::Uuid) -> (name: String)
    ensures
        name@ == "."@ + file_name@ + "."@ + thread_id::hyphenated_text(thread_id::uuid_bits(*id))
            + ".tmp"@,
{
    let mut name = ".".to_string();
    name.append(file_name);
    name.append(".");
    name.append(thread_id::hyphenated_uuid(id).as_str());
    name.append(".tmp");
    name
}

/// A new name for the file that takes the new content.
pub fn new_temp_file_name(file_name: &str) -> (name: String)
    ensures
        exists|bits: u128|
            thread_id::is_random_uuid(bits) && name@ == "."@ + file_name@ + "."@
                + #[trigger] thread_id::hyphenated_text(bits) + ".tmp"@,
{
    let id = uuid::Uuid::new_v4();
    temp_file_name(file_name, &id)
}

/// A thing to do to replace the file, in the order in which they are done.
#[derive(Debug, Clone, Copy, PartialEq, Eq, Structural)]
pub enum WriteStep {
    CreateDirectory,
    CreateTempFile,
    WriteTempFile,
    SyncTempFile,
    SetPermissions,
    RenameTempFile,
    /// Remove the temporary file after a failure; whether that works does not matter.
    RemoveTempFile,
    Done,
    Fail,
}

/// Why the file was not replaced.
#[derive(Debug, Clone, Copy, PartialEq, Eq, Structural)]
pub enum WriteFault {
    /// The path has no directory.
    NoParent,
    /// The path has no file name.
    NoFileName,
    /// A step failed.
    Step(WriteStep),
}

/// The replacement of the file.
#[derive(Debug, Clone, Copy, PartialEq, Eq, Structural)]
pub struct AtomicWrite {
    /// Whether the path has a file name.
    pub has_file_name: bool,
    pub step: WriteStep,
    /// The first thing that went wrong.
    pub fault: Option<WriteFault>,
}

impl AtomicWrite {
    /// The state after a step that worked or did not.
    pub open spec fn after(self, worked: bool) -> AtomicWrite {
        match self.step {
            WriteStep::CreateDirectory => if !worked {
                self.failed(WriteFault::Step(self.step), WriteStep::Fail)
            } else if !self.has_file_name {
                self.failed(WriteFault::NoFileName, WriteStep::Fail)
            } else {
                AtomicWrite { step: WriteStep::CreateTempFile, ..self }
            },
            WriteStep::RemoveTempFile => AtomicWrite { step: WriteStep::Fail, ..self },
            WriteStep::Done => self,
            WriteStep::Fail => self,
            _ => if !worked {
                self.failed(WriteFault::Step(self.step), WriteStep::RemoveTempFile)
            } else {
                AtomicWrite {
                    step: match self.step {
                        WriteStep::CreateTempFile => WriteStep::WriteTempFile,
                        WriteStep::WriteTempFile => WriteStep::SyncTempFile,
                        WriteStep::SyncTempFile => WriteStep::SetPermissions,
                        WriteStep::SetPermissions => WriteStep::RenameTempFile,
                        _ => WriteStep::Done,
                    },
                    ..self
                }
            },
        }
    }

    /// The state once something went wrong.
    pub open spec fn failed(self, fault: WriteFault, step: WriteStep) -> AtomicWrite {
        AtomicWrite { fault: Some(fault), step, ..self }
    }

    /// The start, for a path that has or has not a directory and a file name.
    pub open spec fn start(has_parent: bool, has_file_name: bool) -> AtomicWrite {
        if has_parent {
            AtomicWrite { has_file_name, step: WriteStep::CreateDirectory, fault: None }
        } else {
            AtomicWrite { has_file_name, step: WriteStep::Fail, fault: Some(WriteFault::NoParent) }
        }
    }

    /// Starts to replace the file.
    pub fn begin(has_parent: bool, has_file_name: bool) -> (write: Self)
        ensures
            write == Self::start(has_parent, has_file_name),
    {
        if has_parent {
            AtomicWrite { has_file_name, step: WriteStep::CreateDirectory, fault: None }
        } else {
            AtomicWrite { has_file_name, step: WriteStep::Fail, fault: Some(WriteFault::NoParent) }
        }
    }

    /// Goes on after the step that was due.
    pub fn advance(&mut self, worked: bool)
        ensures
            *final(self) == old(self).after(worked),
    {
        match self.step {
            WriteStep::CreateDirectory => {
                if !worked {
                    self.fault = Some(WriteFault::Step(self.step));
                    self.step = WriteStep::Fail;
                } else if !self.has_file_name {
                    self.fault = Some(WriteFault::NoFileName);
                    self.step = WriteStep::Fail;
                } else {
                    self.step = WriteStep::CreateTempFile;
                }
            },
            WriteStep::RemoveTempFile => {
                self.step = WriteStep::Fail;
            },
            WriteStep::Done => {},
            WriteStep::Fail => {},
            _ => {
                if !worked {
                    self.fault = Some(WriteFault::Step(self.step));
                    self.step = WriteStep::RemoveTempFile;
                } else {
                    self.step = match self.step {
                        WriteStep::CreateTempFile => WriteStep::WriteTempFile,
                        WriteStep::WriteTempFile => WriteStep::SyncTempFile,
                        WriteStep::SyncTempFile => WriteStep::SetPermissions,
                        WriteStep::SetPermissions => WriteStep::RenameTempFile,
                        _ => WriteStep::Done,
                    };
                }
            },
        }
    }
}

/// What went wrong, in words, given the directory, the temporary file and the file.
pub open spec fn fault_text(
    fault: WriteFault,
    parent: Seq<char>,
    temp_path: Seq<char>,
    path: Seq<char>,
) -> Seq<char> {
    match fault {
        WriteFault::NoParent => "agent credentials path has no parent"@,
        WriteFault::NoFileName => "agent credentials path has no file name"@,
        WriteFault::Step(step) => match step {
            WriteStep::CreateDirectory => "create agent credentials directory "@ + parent,
            WriteStep::CreateTempFile => "create temp credentials file "@ + temp_path,
            WriteStep::WriteTempFile => "write temp credentials file "@ + temp_path,
            WriteStep::SyncTempFile => "sync temp credentials file "@ + temp_path,
            WriteStep::SetPermissions => "set permissions on "@ + temp_path,
            _ => "rename temp credentials file "@ + temp_path + " to "@ + path,
        },
    }
}

/// Says what went wrong.
pub fn fault_message(fault: WriteFault, parent: &str, temp_path: &str, path: &str) -> (message:
    String)
    ensures
        message@ == fault_text(fault, parent@, temp_path@, path@),
{
    match fault {
        WriteFault::NoParent => "agent credentials path has no parent".to_string(),
        WriteFault::NoFileName => "agent credentials path has no file name".to_string(),
        WriteFault::Step(step) => match step {
            WriteStep::CreateDirectory => with_path("create agent credentials directory ", parent),
            WriteStep::CreateTempFile => with_path("create temp credentials file ", temp_path),
            WriteStep::WriteTempFile => with_path("write temp credentials file ", temp_path),
            WriteStep::SyncTempFile => with_path("sync temp credentials file ", temp_path),
            WriteStep::SetPermissions => with_path("set permissions on ", temp_path),
            _ => {
                let mut message = with_path("rename temp credentials file ", temp_path);
                message.append(" to ");
                message.append(path);
                message
            },
        },
    }
}

fn with_path(words: &str, path: &str) -> (message: String)
    ensures
        message@ == words@ + path@,
{
    let mut message = words.to_string();
    message.append(path);
    message
}

/// The state after steps that worked or did not.
pub open spec fn after_all(write: AtomicWrite, worked: Seq<bool>) -> AtomicWrite
    decreases worked.len(),
{
    if worked.len() == 0 {
        write
    } else {
        after_all(write, worked.drop_last()).after(worked.last())
    }
}

/// Whatever works or does not: the replacement is done only if nothing went wrong, and it
/// has failed only if something did; the file itself is touched by the last step alone,
/// which comes when everything before it has worked.
pub proof fn replaced_whole_or_not_at_all(
    has_parent: bool,
    has_file_name: bool,
    worked: Seq<bool>,
)
    ensures
        ({
            let write = after_all(AtomicWrite::start(has_parent, has_file_name), worked);
            &&& write.step == WriteStep::Done ==> write.fault is None
            &&& write.step == WriteStep::RenameTempFile ==> write.fault is None
            &&& write.step == WriteStep::Fail <==> (write.fault is Some && write.step
                != WriteStep::RemoveTempFile)
            &&& worked.len() >= 7 ==> (write.step == WriteStep::Done || write.step
                == WriteStep::Fail)
        }),
    decreases worked.len(),
{
    steps_left(has_parent, has_file_name, worked);
}

/// How many steps can come before the end.
spec fn distance(step: WriteStep) -> nat {
    match step {
        WriteStep::CreateDirectory => 7,
        WriteStep::CreateTempFile => 6,
        WriteStep::WriteTempFile => 5,
        WriteStep::SyncTempFile => 4,
        WriteStep::SetPermissions => 3,
        WriteStep::RenameTempFile => 2,
        WriteStep::RemoveTempFile => 1,
        WriteStep::Done => 0,
        WriteStep::Fail => 0,
    }
}

proof fn steps_left(has_parent: bool, has_file_name: bool, worked: Seq<bool>)
    ensures
        ({
            let write = after_all(AtomicWrite::start(has_parent, has_file_name), worked);
            &&& write.fault is Some <==> (write.step == WriteStep::Fail || write.step
                == WriteStep::RemoveTempFile)
            &&& distance(write.step) <= (if worked.len() >= 7 {
                0
            } else {
                7 - worked.len()
            })
        }),
    decreases worked.len(),
{
    if worked.len() > 0 {
        steps_left(has_parent, has_file_name, worked.drop_last());
    }
}

/// What the file holds is what reading it gave: its bytes, that there is no file, or the
/// error.
pub proof fn files_hold_what_was_read<E>(bytes: Vec<u8>, error: E)
    ensures
        file_content(FileRead::<E>::Bytes(bytes)) == Ok::<Option<Seq<u8>>, E>(Some(bytes@)),
        file_content(FileRead::<E>::NotFound) == Ok::<Option<Seq<u8>>, E>(None),
        file_content(FileRead::Failed(error)) == Err::<Option<Seq<u8>>, E>(error),
        optional_bytes(Some(bytes)) == Some(bytes@),
        optional_bytes(None) is None,
{
}

/// What is known of the file counts, and what reading it gave only where nothing is known.
pub proof fn what_is_known_counts<E>(provider: CredentialsProviderView, file: FileRead<E>)
    ensures
        provider.cache matches Some(known) ==> provider.content(file) == Ok::<
            Option<Seq<u8>>,
            E,
        >(known),
        provider.cache is None ==> provider.content(file) == file_content(file),
{
}

/// Knowing what the file holds changes nothing else.
pub proof fn only_the_content_is_known(
    provider: CredentialsProviderView,
    content: Option<Seq<u8>>,
)
    ensures
        provider.knowing(content).cache == Some(content),
        provider.knowing(content).credentials_key == provider.credentials_key,
        provider.knowing(content).path == provider.path,
{
}

/// The step that is due after a number of steps that have all worked.
pub open spec fn step_in_order(count: nat) -> WriteStep {
    if count == 0 {
        WriteStep::CreateDirectory
    } else if count == 1 {
        WriteStep::CreateTempFile
    } else if count == 2 {
        WriteStep::WriteTempFile
    } else if count == 3 {
        WriteStep::SyncTempFile
    } else if count == 4 {
        WriteStep::SetPermissions
    } else if count == 5 {
        WriteStep::RenameTempFile
    } else {
        WriteStep::Done
    }
}

/// While every step works the steps come in their order, none is left out, and nothing is said
/// to have gone wrong: the new content is written, synced and protected before it takes the
/// place of the old one.
pub proof fn steps_come_in_order(worked: Seq<bool>)
    requires
        forall|i: int| 0 <= i < worked.len() ==> #[trigger] worked[i],
    ensures
        after_all(AtomicWrite::start(true, true), worked) == (AtomicWrite {
            has_file_name: true,
            step: step_in_order(worked.len()),
            fault: None,
        }),
    decreases worked.len(),
{
    if worked.len() > 0 {
        let before = worked.drop_last();
        assert(forall|i: int| 0 <= i < before.len() ==> before[i] == worked[i]);
        steps_come_in_order(before);
        assert(worked.last() == worked[worked.len() - 1]);
    }
}

/// The first step that does not work ends the replacement: it is told, the temporary file is
/// removed where it may be there, and nothing more is done, whatever works after that.
pub proof fn the_first_failure_ends_it(worked: Seq<bool>, first: int)
    requires
        0 <= first < 6,
        first < worked.len(),
        !worked[first],
        forall|i: int| 0 <= i < first ==> #[trigger] worked[i],
    ensures
        after_all(AtomicWrite::start(true, true), worked) == (AtomicWrite {
            has_file_name: true,
            step: if first > 0 && worked.len() == first + 1 {
                WriteStep::RemoveTempFile
            } else {
                WriteStep::Fail
            },
            fault: Some(WriteFault::Step(step_in_order(first as nat))),
        }),
    decreases worked.len(),
{
    let before = worked.drop_last();
    assert(forall|i: int| 0 <= i < before.len() ==> before[i] == worked[i]);
    if worked.len() == first + 1 {
        steps_come_in_order(before);
        assert(worked.last() == worked[first]);
    } else {
        the_first_failure_ends_it(before, first);
    }
}

/// A path without a directory is refused at once; one without a file name is refused once the
/// directory is there, unless making it fails.
pub proof fn paths_are_refused(has_file_name: bool, worked: Seq<bool>)
    ensures
        after_all(AtomicWrite::start(false, has_file_name), worked) == (AtomicWrite {
            has_file_name,
            step: WriteStep::Fail,
            fault: Some(WriteFault::NoParent),
        }),
        worked.len() > 0 && worked[0] ==> after_all(AtomicWrite::start(true, false), worked) == (
        AtomicWrite {
            has_file_name: false,
            step: WriteStep::Fail,
            fault: Some(WriteFault::NoFileName),
        }),
        worked.len() > 0 && !worked[0] ==> after_all(AtomicWrite::start(true, false), worked) == (
        AtomicWrite {
            has_file_name: false,
            step: WriteStep::Fail,
            fault: Some(WriteFault::Step(WriteStep::CreateDirectory)),
        }),
        AtomicWrite::start(true, has_file_name) == (AtomicWrite {
            has_file_name,
            step: WriteStep::CreateDirectory,
            fault: None,
        }),
    decreases worked.len(),
{
    if worked.len() > 0 {
        let before = worked.drop_last();
        paths_are_refused(has_file_name, before);
        assert(worked.last() == worked[worked.len() - 1]);
        if before.len() > 0 {
            assert(before[0] == worked[0]);
        }
    }
}

/// What went wrong is told with the path that it went wrong with: the directory, the temporary
/// file, or, where that could not be renamed, both files.
pub proof fn faults_name_the_path(
    step: WriteStep,
    parent: Seq<char>,
    temp_path: Seq<char>,
    path: Seq<char>,
)
    ensures
        ({
            let text = fault_text(WriteFault::Step(step), parent, temp_path, path);
            &&& step is CreateDirectory ==> text == "create agent credentials directory "@ + parent
            &&& step is CreateTempFile ==> text == "create temp credentials file "@ + temp_path
            &&& step is WriteTempFile ==> text == "write temp credentials file "@ + temp_path
            &&& step is SyncTempFile ==> text == "sync temp credentials file "@ + temp_path
            &&& step is SetPermissions ==> text == "set permissions on "@ + temp_path
            &&& step is RenameTempFile ==> text == "rename temp credentials file "@ + temp_path
                + " to "@ + path
        }),
        fault_text(WriteFault::NoParent, parent, temp_path, path)
            == "agent credentials path has no parent"@,
        fault_text(WriteFault::NoFileName, parent, temp_path, path)
            == "agent credentials path has no file name"@,
{
}

} // verus!
