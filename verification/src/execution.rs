//! Running SQL-file executions: their registration, their clean-up, and the
//! decisions of the task that executes one file.
use crate::error::{AppError, ErrorKind};
use crate::paths::{path_validation, resolution_view, validated_uploaded_sql_path, validation_view};
use crate::registry::Registry;
use crate::text::{
    duplicate_execution_message, duplicate_execution_text, file_too_large_message,
    file_too_large_text, read_only_message, read_only_text, MAX_SQL_FILE_BYTES,
};
use crate::progress::opt_view;
use crate::requests::CancelSqlFileRequest;
use vstd::prelude::*;

verus! {

/// Registers a new execution under `execution_id` with its cancellation
/// token. An id that is already registered is refused and the registry is
/// left as it was (the running execution keeps its token).
pub fn register_execution<T>(
    executions: &mut Registry<T>,
    execution_id: &String,
    token: T,
) -> (r: Result<(), AppError>)
    requires
        old(executions).wf(),
    ensures
        final(executions).wf(),
        old(executions)@.contains_key(execution_id@) ==> {
            &&& final(executions)@ == old(executions)@
            &&& r matches Err(e) && e.kind == ErrorKind::Internal && e.message@
                == duplicate_execution_text(execution_id@)
        },
        !old(executions)@.contains_key(execution_id@) ==> {
            &&& final(executions)@ == old(executions)@.insert(execution_id@, token)
            &&& r is Ok
        },
{
    if executions.contains_key(execution_id) {
        return Err(AppError::from_message(duplicate_execution_message(execution_id)));
    }
    executions.insert(execution_id.clone(), token);
    Ok(())
}

/// The bookkeeping at the start of an execution of the upload `file_path`:
/// the upload is claimed first (its pending clean-up is taken out and handed
/// back, to be cancelled), then the execution is registered.
pub fn begin_execution<T, H>(
    executions: &mut Registry<T>,
    upload_ttls: &mut Registry<H>,
    execution_id: &String,
    file_path: &String,
    token: T,
) -> (r: (Option<H>, Result<(), AppError>))
    requires
        old(executions).wf(),
        old(upload_ttls).wf(),
    ensures
        final(executions).wf(),
        final(upload_ttls).wf(),
        final(upload_ttls)@ == old(upload_ttls)@.remove(file_path@),
        match r.0 {
            Some(h) => old(upload_ttls)@.contains_key(file_path@) && h == old(upload_ttls)@[file_path@],
            None => !old(upload_ttls)@.contains_key(file_path@),
        },
        old(executions)@.contains_key(execution_id@) ==> {
            &&& final(executions)@ == old(executions)@
            &&& r.1 matches Err(e) && e.kind == ErrorKind::Internal && e.message@
                == duplicate_execution_text(execution_id@)
        },
        !old(executions)@.contains_key(execution_id@) ==> {
            &&& final(executions)@ == old(executions)@.insert(execution_id@, token)
            &&& r.1 is Ok
        },
{
    let claimed = upload_ttls.remove(file_path);
    let registered = register_execution(executions, execution_id, token);
    (claimed, registered)
}

/// What the execute route learned before it may start an execution: the
/// name of the connection when it is read-only, and the outcomes of
/// resolving the requested path and the upload root on disk.
#[derive(Debug)]
pub struct ExecutionChecks {
    pub read_only_connection: Option<String>,
    pub canonical_path: Result<String, String>,
    pub is_file: bool,
    pub canonical_tmp: Result<String, String>,
}

/// The admission of an execution of the upload `file_path` under
/// `execution_id`, with its cancellation token and progress channel.
///
/// A read-only connection is refused first, then a path that is not a file
/// in the upload tree; both leave every table as it was. Otherwise the
/// upload is claimed (its pending clean-up is handed back, to be cancelled),
/// and the execution is registered with its channel, unless its id is
/// already in use. On success the answer is the resolved path to read.
pub fn start_execution<T, H, S>(
    executions: &mut Registry<T>,
    upload_ttls: &mut Registry<H>,
    channels: &mut Registry<S>,
    execution_id: &String,
    file_path: &String,
    checks: &ExecutionChecks,
    token: T,
    channel: S,
) -> (r: (Option<H>, Result<String, AppError>))
    requires
        old(executions).wf(),
        old(upload_ttls).wf(),
        old(channels).wf(),
    ensures
        final(executions).wf(),
        final(upload_ttls).wf(),
        final(channels).wf(),
        ({
            let validation = path_validation(
                resolution_view(checks.canonical_path),
                checks.is_file,
                resolution_view(checks.canonical_tmp),
            );
            match opt_view(checks.read_only_connection) {
                Some(name) => {
                    &&& r.0 is None
                    &&& r.1 matches Err(e) && e.kind == ErrorKind::Internal && e.message@
                        == read_only_text(name)
                    &&& final(executions)@ == old(executions)@
                    &&& final(upload_ttls)@ == old(upload_ttls)@
                    &&& final(channels)@ == old(channels)@
                },
                None => match validation {
                    Err(err) => {
                        &&& r.0 is None
                        &&& validation_view(r.1) == Err::<Seq<char>, (ErrorKind, Seq<char>)>(err)
                        &&& final(executions)@ == old(executions)@
                        &&& final(upload_ttls)@ == old(upload_ttls)@
                        &&& final(channels)@ == old(channels)@
                    },
                    Ok(path) => {
                        &&& final(upload_ttls)@ == old(upload_ttls)@.remove(file_path@)
                        &&& match r.0 {
                            Some(h) => old(upload_ttls)@.contains_key(file_path@) && h == old(
                                upload_ttls,
                            )@[file_path@],
                            None => !old(upload_ttls)@.contains_key(file_path@),
                        }
                        &&& old(executions)@.contains_key(execution_id@) ==> {
                            &&& final(executions)@ == old(executions)@
                            &&& final(channels)@ == old(channels)@
                            &&& r.1 matches Err(e) && e.kind == ErrorKind::Internal && e.message@
                                == duplicate_execution_text(execution_id@)
                        }
                        &&& !old(executions)@.contains_key(execution_id@) ==> {
                            &&& final(executions)@ == old(executions)@.insert(execution_id@, token)
                            &&& final(channels)@ == old(channels)@.insert(execution_id@, channel)
                            &&& validation_view(r.1) == Ok::<Seq<char>, (ErrorKind, Seq<char>)>(
                                path,
                            )
                        }
                    },
                },
            }
        }),
{
    if let Some(name) = &checks.read_only_connection {
        return (None, Err(AppError::from_message(read_only_message(name))));
    }
    let path = match validated_uploaded_sql_path(
        &checks.canonical_path,
        checks.is_file,
        &checks.canonical_tmp,
    ) {
        Ok(path) => path,
        Err(e) => return (None, Err(e)),
    };
    let (claimed, registered) = begin_execution(
        executions,
        upload_ttls,
        execution_id,
        file_path,
        token,
    );
    match registered {
        Ok(()) => {
            channels.insert(execution_id.clone(), channel);
            (claimed, Ok(path))
        },
        Err(e) => (claimed, Err(e)),
    }
}

/// The cancellation asked by `request`: the token of the running execution
/// to cancel, or none when no execution runs under that id (the route then
/// answers that nothing was cancelled).
pub fn cancel_sql_file<'a, T>(executions: &'a Registry<T>, request: &CancelSqlFileRequest) -> (r:
    Option<&'a T>)
    requires
        executions.wf(),
    ensures
        match r {
            Some(token) => executions@.contains_key(request.execution_id@) && *token
                == executions@[request.execution_id@],
            None => !executions@.contains_key(request.execution_id@),
        },
{
    executions.get(&request.execution_id)
}

/// Forgets a finished execution: its progress channel and its token.
pub fn cleanup_sql_file_execution<S, T>(
    channels: &mut Registry<S>,
    executions: &mut Registry<T>,
    execution_id: &String,
)
    requires
        old(channels).wf(),
        old(executions).wf(),
    ensures
        final(channels).wf(),
        final(executions).wf(),
        final(channels)@ == old(channels)@.remove(execution_id@),
        final(executions)@ == old(executions)@.remove(execution_id@),
{
    channels.remove(execution_id);
    executions.remove(execution_id);
}

/// Where the task that executes one SQL file stands.
#[derive(Clone, Copy, Debug, PartialEq, Eq, Structural)]
pub enum ExecutionStage {
    /// The start was reported; the file's size is being looked up.
    CheckingFile,
    /// The file is being read and decoded.
    LoadingContent,
    /// The statements are being executed.
    Executing,
    /// The task has ended.
    Finished,
}

/// What the outside work of the task reported.
#[derive(Debug)]
pub enum ExecutionEvent {
    /// The file's size in bytes.
    FileSize(u64),
    /// The file's size could not be read (the error's text).
    FileUnavailable(String),
    /// The file was read and decoded.
    ContentLoaded,
    /// The file could not be read or decoded (the error's text).
    ContentFailed(String),
    /// The executor returned without error.
    ExecutorFinished,
    /// The executor returned an error; `terminal_recorded` tells whether a
    /// final progress of this execution is in the store.
    ExecutorFailed { message: String, terminal_recorded: bool },
}

/// What the task does next.
#[derive(Debug)]
pub enum ExecutionAction {
    /// Read and decode the file.
    LoadContent,
    /// Run the executor on the decoded content.
    RunExecutor,
    /// Report an error progress with this message, then finalize.
    FailAndFinalize(String),
    /// Finalize: delete the upload, forget the execution, schedule the
    /// store's eviction.
    Finalize,
}

/// Whether `event` is one the task can receive in `stage`.
pub open spec fn event_fits(stage: ExecutionStage, event: ExecutionEvent) -> bool {
    match stage {
        ExecutionStage::CheckingFile => event is FileSize || event is FileUnavailable,
        ExecutionStage::LoadingContent => event is ContentLoaded || event is ContentFailed,
        ExecutionStage::Executing => event is ExecutorFinished || event is ExecutorFailed,
        ExecutionStage::Finished => false,
    }
}

/// The stage that `event` leads to.
pub open spec fn next_stage(event: ExecutionEvent) -> ExecutionStage {
    match event {
        ExecutionEvent::FileSize(size) => if size > MAX_SQL_FILE_BYTES {
            ExecutionStage::Finished
        } else {
            ExecutionStage::LoadingContent
        },
        ExecutionEvent::ContentLoaded => ExecutionStage::Executing,
        _ => ExecutionStage::Finished,
    }
}

/// The order of the stages.
pub open spec fn stage_rank(stage: ExecutionStage) -> int {
    match stage {
        ExecutionStage::CheckingFile => 0,
        ExecutionStage::LoadingContent => 1,
        ExecutionStage::Executing => 2,
        ExecutionStage::Finished => 3,
    }
}

/// Whether an action ends the task with its finalization.
pub open spec fn finalizes(action: ExecutionAction) -> bool {
    action is FailAndFinalize || action is Finalize
}

/// Every step of the task moves it to a later stage, and a step finalizes
/// exactly when it leads to the end. So the task ends after at most three
/// steps, and finalizes once: no event is accepted once it has ended.
pub proof fn lemma_task_finalizes_once(stage: ExecutionStage, event: ExecutionEvent)
    requires
        event_fits(stage, event),
    ensures
        stage_rank(next_stage(event)) > stage_rank(stage),
        forall|later: ExecutionEvent| #[trigger]
            event_fits(next_stage(event), later) ==> next_stage(event) != ExecutionStage::Finished,
{
}

/// The task executing one SQL file, as a state machine: the caller performs
/// each action and hands back what it produced.
pub struct ExecutionTask {
    pub stage: ExecutionStage,
}

impl ExecutionTask {
    /// A task whose start has been reported; it checks the file first.
    pub fn start() -> (r: ExecutionTask)
        ensures
            r.stage == ExecutionStage::CheckingFile,
    {
        ExecutionTask { stage: ExecutionStage::CheckingFile }
    }

    /// One step of the task.
    ///
    /// A file above the size limit, a file that cannot be looked up or read,
    /// and an executor error that left no final progress are reported as an
    /// error progress before the task finalizes; an executor error after a
    /// final progress was stored is not reported twice.
    pub fn advance(&mut self, event: ExecutionEvent) -> (r: ExecutionAction)
        requires
            event_fits(old(self).stage, event),
        ensures
            final(self).stage == next_stage(event),
            finalizes(r) == (next_stage(event) == ExecutionStage::Finished),
            match event {
                ExecutionEvent::FileSize(size) => if size > MAX_SQL_FILE_BYTES {
                    &&& final(self).stage == ExecutionStage::Finished
                    &&& r matches ExecutionAction::FailAndFinalize(m) && m@ == file_too_large_text(
                        size as nat,
                    )
                } else {
                    &&& final(self).stage == ExecutionStage::LoadingContent
                    &&& r is LoadContent
                },
                ExecutionEvent::FileUnavailable(e) => {
                    &&& final(self).stage == ExecutionStage::Finished
                    &&& r matches ExecutionAction::FailAndFinalize(m) && m@ == e@
                },
                ExecutionEvent::ContentLoaded => {
                    &&& final(self).stage == ExecutionStage::Executing
                    &&& r is RunExecutor
                },
                ExecutionEvent::ContentFailed(e) => {
                    &&& final(self).stage == ExecutionStage::Finished
                    &&& r matches ExecutionAction::FailAndFinalize(m) && m@ == e@
                },
                ExecutionEvent::ExecutorFinished => {
                    &&& final(self).stage == ExecutionStage::Finished
                    &&& r is Finalize
                },
                ExecutionEvent::ExecutorFailed { message, terminal_recorded } => {
                    &&& final(self).stage == ExecutionStage::Finished
                    &&& terminal_recorded ==> r is Finalize
                    &&& !terminal_recorded ==> (r matches ExecutionAction::FailAndFinalize(m) && m@
                        == message@)
                },
            },
    {
        match event {
            ExecutionEvent::FileSize(size) => {
                if size > MAX_SQL_FILE_BYTES {
                    self.stage = ExecutionStage::Finished;
                    ExecutionAction::FailAndFinalize(file_too_large_message(size))
                } else {
                    self.stage = ExecutionStage::LoadingContent;
                    ExecutionAction::LoadContent
                }
            },
            ExecutionEvent::FileUnavailable(e) => {
                self.stage = ExecutionStage::Finished;
                ExecutionAction::FailAndFinalize(e)
            },
            ExecutionEvent::ContentLoaded => {
                self.stage = ExecutionStage::Executing;
                ExecutionAction::RunExecutor
            },
            ExecutionEvent::ContentFailed(e) => {
                self.stage = ExecutionStage::Finished;
                ExecutionAction::FailAndFinalize(e)
            },
            ExecutionEvent::ExecutorFinished => {
                self.stage = ExecutionStage::Finished;
                ExecutionAction::Finalize
            },
            ExecutionEvent::ExecutorFailed { message, terminal_recorded } => {
                self.stage = ExecutionStage::Finished;
                if terminal_recorded {
                    ExecutionAction::Finalize
                } else {
                    ExecutionAction::FailAndFinalize(message)
                }
            },
        }
    }
}

} // verus!
