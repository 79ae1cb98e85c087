//! Per-session runtime state: the handles an instance owns, the task ids it
//! has issued, and the decisions of the asynchronous command protocol —
//! lazy creation, sentinel filtering, agent-connect outcomes, and the fixed
//! teardown order.

use vstd::prelude::*;

use crate::config::{MAA_INVALID_ID, MAA_STATUS_PENDING, MAA_STATUS_RUNNING, MAA_STATUS_SUCCEEDED};
use crate::errors::MaaError;

verus! {

/// Connection state derivable from the engine's synchronous query. Only
/// `Disconnected` and `Connected` can be re-derived; the transient states
/// exist for callers that track callback events.
pub enum ConnectionStatus {
    Disconnected,
    Connecting,
    Connected,
    Failed(Vec<u8>),
}

/// State of one issued task.
#[derive(Debug, Clone, Copy, PartialEq, Eq, Structural)]
pub enum TaskStatus {
    Pending,
    Running,
    Succeeded,
    Failed,
}

/// Maps a raw engine status code to a task state. Any unrecognized code
/// collapses to `Failed`.
pub fn map_task_status(code: i32) -> (r: TaskStatus)
    ensures
        code == MAA_STATUS_PENDING ==> r == TaskStatus::Pending,
        code == MAA_STATUS_RUNNING ==> r == TaskStatus::Running,
        code == MAA_STATUS_SUCCEEDED ==> r == TaskStatus::Succeeded,
        code != MAA_STATUS_PENDING && code != MAA_STATUS_RUNNING && code != MAA_STATUS_SUCCEEDED
            ==> r == TaskStatus::Failed,
{
    if code == MAA_STATUS_PENDING {
        TaskStatus::Pending
    } else if code == MAA_STATUS_RUNNING {
        TaskStatus::Running
    } else if code == MAA_STATUS_SUCCEEDED {
        TaskStatus::Succeeded
    } else {
        TaskStatus::Failed
    }
}

/// The answer of a status query that runs through an optional handle: an
/// absent handle is simply "no" — not an error — and a present one reports
/// what the engine said of it.
pub fn status_answer(handle: Option<u64>, native: bool) -> (r: bool)
    ensures
        r == (handle is Some && native),
{
    match handle {
        Some(_) => native,
        None => false,
    }
}

/// Maps the engine's boolean connectivity query to a status: the query can
/// only witness `Connected` or `Disconnected`.
pub fn map_connection_status(connected: bool) -> (r: ConnectionStatus)
    ensures
        connected ==> r is Connected,
        !connected ==> r is Disconnected,
{
    if connected {
        ConnectionStatus::Connected
    } else {
        ConnectionStatus::Disconnected
    }
}

/// Runtime snapshot of one instance, as a status query reports it.
pub struct InstanceState {
    /// Whether the controller reports connected.
    pub connected: bool,
    /// Whether the resource reports loaded.
    pub resource_loaded: bool,
    /// Whether the tasker reports initialized.
    pub tasker_inited: bool,
    /// Whether a task is currently running.
    pub is_running: bool,
    /// The task ids issued and not yet cleared.
    pub task_ids: Vec<i64>,
}

/// One native action of an ordered teardown. The handle address each action
/// names is the one the process must pass to the engine.
#[derive(Debug, Clone, Copy, PartialEq, Eq, Structural)]
pub enum TeardownAction {
    DisconnectAgent(u64),
    DestroyAgentClient(u64),
    KillChild(u64),
    DestroyTasker(u64),
    DestroyController(u64),
    DestroyResource(u64),
}

/// The handles one logical session owns. `Resource`, `Tasker` and
/// `AgentClient` are exclusively owned; the controller is only a reference
/// into the pool, tracked together with the fingerprint it was acquired
/// under.
pub struct InstanceRuntime {
    /// Address of the owned resource handle, if created.
    pub resource: Option<u64>,
    /// Address of the shared controller handle, for fast access; its
    /// lifetime is the pool's.
    pub controller: Option<u64>,
    /// Fingerprint the controller reference was acquired under.
    pub controller_pool_key: Option<Vec<u8>>,
    /// Address of the owned tasker handle, if created.
    pub tasker: Option<u64>,
    /// Address of the owned agent-client handle, if connected.
    pub agent_client: Option<u64>,
    /// Process id of the spawned agent child, if any.
    pub agent_child: Option<u64>,
    /// Task ids issued on this instance, for state recovery.
    pub task_ids: Vec<i64>,
}

/// The ordered teardown of a runtime's exclusively owned handles:
/// disconnect and destroy the agent client, kill the child process, destroy
/// the tasker, destroy the resource. The pooled controller is not here — it
/// is released through the pool, which decides whether a destroy follows.
pub open spec fn teardown_spec(r: InstanceRuntime) -> Seq<TeardownAction> {
    (match r.agent_client {
        Some(a) => seq![TeardownAction::DisconnectAgent(a), TeardownAction::DestroyAgentClient(a)],
        None => Seq::empty(),
    }) + (match r.agent_child {
        Some(c) => seq![TeardownAction::KillChild(c)],
        None => Seq::empty(),
    }) + (match r.tasker {
        Some(t) => seq![TeardownAction::DestroyTasker(t)],
        None => Seq::empty(),
    }) + (match r.resource {
        Some(x) => seq![TeardownAction::DestroyResource(x)],
        None => Seq::empty(),
    })
}

/// True of a runtime that holds nothing yet: no handles, no issued tasks.
pub open spec fn is_empty_runtime(r: InstanceRuntime) -> bool {
    &&& r.resource is None
    &&& r.controller is None
    &&& r.controller_pool_key is None
    &&& r.tasker is None
    &&& r.agent_client is None
    &&& r.agent_child is None
    &&& r.task_ids@ == Seq::<i64>::empty()
}

impl Default for InstanceRuntime {
    /// An empty runtime: no handles, no issued tasks.
    fn default() -> (r: Self)
        ensures
            r.resource is None,
            r.controller is None,
            r.controller_pool_key is None,
            r.tasker is None,
            r.agent_client is None,
            r.agent_child is None,
            r.task_ids@ == Seq::<i64>::empty(),
    {
        InstanceRuntime {
            resource: None,
            controller: None,
            controller_pool_key: None,
            tasker: None,
            agent_client: None,
            agent_child: None,
            task_ids: Vec::new(),
        }
    }
}

impl InstanceRuntime {
    /// The native actions that tear this runtime's owned handles down, in
    /// the fixed order. The runtime itself is left unchanged; the caller
    /// discards it afterwards.
    pub fn teardown_actions(&self) -> (r: Vec<TeardownAction>)
        ensures
            r@ == teardown_spec(*self),
    {
        let mut r: Vec<TeardownAction> = Vec::new();
        match self.agent_client {
            Some(a) => {
                r.push(TeardownAction::DisconnectAgent(a));
                r.push(TeardownAction::DestroyAgentClient(a));
            },
            None => {},
        }
        match self.agent_child {
            Some(c) => {
                r.push(TeardownAction::KillChild(c));
            },
            None => {},
        }
        match self.tasker {
            Some(t) => {
                r.push(TeardownAction::DestroyTasker(t));
            },
            None => {},
        }
        match self.resource {
            Some(x) => {
                r.push(TeardownAction::DestroyResource(x));
            },
            None => {},
        }
        assert(r@ =~= teardown_spec(*self));
        r
    }

    /// Records one issued task id, for recovery after a front-end reload.
    pub fn record_task_id(&mut self, id: i64)
        ensures
            final(self).task_ids@ == old(self).task_ids@ + seq![id],
            final(self).resource == old(self).resource,
            final(self).controller == old(self).controller,
            final(self).controller_pool_key == old(self).controller_pool_key,
            final(self).tasker == old(self).tasker,
            final(self).agent_client == old(self).agent_client,
            final(self).agent_child == old(self).agent_child,
    {
        self.task_ids.push(id);
    }

    /// Replaces the recorded task ids with a fresh batch.
    pub fn set_task_ids(&mut self, ids: Vec<i64>)
        ensures
            final(self).task_ids@ == ids@,
            final(self).resource == old(self).resource,
            final(self).controller == old(self).controller,
            final(self).controller_pool_key == old(self).controller_pool_key,
            final(self).tasker == old(self).tasker,
            final(self).agent_client == old(self).agent_client,
            final(self).agent_child == old(self).agent_child,
    {
        self.task_ids = ids;
    }

    /// The tasker to post a stop to. A stop only requests the transition;
    /// it also forgets the recorded task ids. Without a tasker the reference
    /// is unknown.
    pub fn take_stop_target(&mut self) -> (r: Result<u64, MaaError>)
        ensures
            old(self).tasker matches Some(t) ==> r == Ok::<u64, MaaError>(t) && final(self).task_ids@ == Seq::<i64>::empty(),
            old(self).tasker is None ==> r == Err::<u64, MaaError>(MaaError::NotFound) && final(self).task_ids@ == old(self).task_ids@,
            final(self).resource == old(self).resource,
            final(self).controller == old(self).controller,
            final(self).controller_pool_key == old(self).controller_pool_key,
            final(self).tasker == old(self).tasker,
            final(self).agent_client == old(self).agent_client,
            final(self).agent_child == old(self).agent_child,
    {
        match self.tasker {
            Some(t) => {
                self.task_ids = Vec::new();
                Ok(t)
            },
            None => Err(MaaError::NotFound),
        }
    }

    /// The tasker a task-scoped query needs; an unknown reference otherwise.
    pub fn require_tasker(&self) -> (r: Result<u64, MaaError>)
        ensures
            self.tasker matches Some(t) ==> r == Ok::<u64, MaaError>(t),
            self.tasker is None ==> r == Err::<u64, MaaError>(MaaError::NotFound),
    {
        match self.tasker {
            Some(t) => Ok(t),
            None => Err(MaaError::NotFound),
        }
    }

    /// The resource and controller a task run is bound to. Succeeds exactly
    /// when both are present; names the first missing one otherwise.
    pub fn require_ready(&self) -> (r: Result<(u64, u64), MaaError>)
        ensures
            r is Ok <==> (self.resource is Some && self.controller is Some),
            r matches Ok(p) ==> self.resource == Some(p.0) && self.controller == Some(p.1),
            r is Err ==> r == Err::<(u64, u64), MaaError>(MaaError::NotFound),
    {
        match self.resource {
            Some(res) => match self.controller {
                Some(c) => Ok((res, c)),
                None => Err(MaaError::NotFound),
            },
            None => Err(MaaError::NotFound),
        }
    }

    /// Stores a freshly created resource handle; at most one resource ever
    /// exists per instance.
    pub fn store_resource(&mut self, res: u64)
        requires
            old(self).resource is None,
        ensures
            final(self).resource == Some(res),
            final(self).controller == old(self).controller,
            final(self).controller_pool_key == old(self).controller_pool_key,
            final(self).tasker == old(self).tasker,
            final(self).agent_client == old(self).agent_client,
            final(self).agent_child == old(self).agent_child,
            final(self).task_ids@ == old(self).task_ids@,
    {
        self.resource = Some(res);
    }

    /// Stores a freshly created tasker handle; the tasker is created
    /// exactly once per instance.
    pub fn store_tasker(&mut self, t: u64)
        requires
            old(self).tasker is None,
        ensures
            final(self).tasker == Some(t),
            final(self).resource == old(self).resource,
            final(self).controller == old(self).controller,
            final(self).controller_pool_key == old(self).controller_pool_key,
            final(self).agent_client == old(self).agent_client,
            final(self).agent_child == old(self).agent_child,
            final(self).task_ids@ == old(self).task_ids@,
    {
        self.tasker = Some(t);
    }

    /// Records the outcome of the agent connect handshake. On success both
    /// the client and the child handle are stored. On failure only the
    /// child is retained — for diagnostics — the client is not stored, and
    /// the caller must destroy it; the error is a native failure.
    pub fn on_agent_connect(&mut self, connected: bool, agent_client: u64, child: u64) -> (r:
        Result<(), MaaError>)
        ensures
            connected ==> r is Ok && final(self).agent_client == Some(agent_client) && final(self).agent_child == Some(child),
            !connected ==> r == Err::<(), MaaError>(MaaError::NativeFailure) && final(self).agent_client == old(self).agent_client && final(self).agent_child == Some(child),
            final(self).resource == old(self).resource,
            final(self).controller == old(self).controller,
            final(self).controller_pool_key == old(self).controller_pool_key,
            final(self).tasker == old(self).tasker,
            final(self).task_ids@ == old(self).task_ids@,
    {
        if connected {
            self.agent_client = Some(agent_client);
            self.agent_child = Some(child);
            Ok(())
        } else {
            self.agent_child = Some(child);
            Err(MaaError::NativeFailure)
        }
    }

    /// Stops the agent: disconnect and destroy the client, then kill the
    /// child process. Clears both fields and returns the actions in order.
    pub fn stop_agent(&mut self) -> (r: Vec<TeardownAction>)
        ensures
            r@ == (match old(self).agent_client {
                Some(a) => seq![
                    TeardownAction::DisconnectAgent(a),
                    TeardownAction::DestroyAgentClient(a),
                ],
                None => Seq::<TeardownAction>::empty(),
            }) + (match old(self).agent_child {
                Some(c) => seq![TeardownAction::KillChild(c)],
                None => Seq::<TeardownAction>::empty(),
            }),
            final(self).agent_client is None,
            final(self).agent_child is None,
            final(self).resource == old(self).resource,
            final(self).controller == old(self).controller,
            final(self).controller_pool_key == old(self).controller_pool_key,
            final(self).tasker == old(self).tasker,
            final(self).task_ids@ == old(self).task_ids@,
    {
        let mut r: Vec<TeardownAction> = Vec::new();
        match self.agent_client {
            Some(a) => {
                r.push(TeardownAction::DisconnectAgent(a));
                r.push(TeardownAction::DestroyAgentClient(a));
            },
            None => {},
        }
        match self.agent_child {
            Some(c) => {
                r.push(TeardownAction::KillChild(c));
            },
            None => {},
        }
        self.agent_client = None;
        self.agent_child = None;
        assert(r@ =~= (match old(self).agent_client {
            Some(a) => seq![TeardownAction::DisconnectAgent(a), TeardownAction::DestroyAgentClient(a)],
            None => Seq::<TeardownAction>::empty(),
        }) + (match old(self).agent_child {
            Some(c) => seq![TeardownAction::KillChild(c)],
            None => Seq::<TeardownAction>::empty(),
        }));
        r
    }

    /// Destroys the resource so a new one can be created, and with it the
    /// tasker, which was bound to it. Returns the actions in that order.
    pub fn destroy_resource(&mut self) -> (r: Vec<TeardownAction>)
        ensures
            r@ == (match old(self).resource {
                Some(x) => seq![TeardownAction::DestroyResource(x)],
                None => Seq::<TeardownAction>::empty(),
            }) + (match old(self).tasker {
                Some(t) => seq![TeardownAction::DestroyTasker(t)],
                None => Seq::<TeardownAction>::empty(),
            }),
            final(self).resource is None,
            final(self).tasker is None,
            final(self).controller == old(self).controller,
            final(self).controller_pool_key == old(self).controller_pool_key,
            final(self).agent_client == old(self).agent_client,
            final(self).agent_child == old(self).agent_child,
            final(self).task_ids@ == old(self).task_ids@,
    {
        let mut r: Vec<TeardownAction> = Vec::new();
        match self.resource {
            Some(x) => {
                r.push(TeardownAction::DestroyResource(x));
            },
            None => {},
        }
        match self.tasker {
            Some(t) => {
                r.push(TeardownAction::DestroyTasker(t));
            },
            None => {},
        }
        self.resource = None;
        self.tasker = None;
        assert(r@ =~= (match old(self).resource {
            Some(x) => seq![TeardownAction::DestroyResource(x)],
            None => Seq::<TeardownAction>::empty(),
        }) + (match old(self).tasker {
            Some(t) => seq![TeardownAction::DestroyTasker(t)],
            None => Seq::<TeardownAction>::empty(),
        }));
        r
    }

    /// Assembles the snapshot a status query reports, from the engine's
    /// answers and this runtime's recorded task ids.
    pub fn snapshot(
        &self,
        connected: bool,
        resource_loaded: bool,
        tasker_inited: bool,
        is_running: bool,
    ) -> (r: InstanceState)
        ensures
            r.connected == connected,
            r.resource_loaded == resource_loaded,
            r.tasker_inited == tasker_inited,
            r.is_running == is_running,
            r.task_ids@ == self.task_ids@,
    {
        let mut ids: Vec<i64> = Vec::new();
        let mut i: usize = 0;
        while i < self.task_ids.len()
            invariant
                0 <= i <= self.task_ids.len(),
                ids@ =~= self.task_ids@.take(i as int),
            decreases self.task_ids.len() - i,
        {
            ids.push(self.task_ids[i]);
            assert(ids@ =~= self.task_ids@.take(i + 1));
            i = i + 1;
        }
        assert(ids@ =~= self.task_ids@);
        InstanceState { connected, resource_loaded, tasker_inited, is_running, task_ids: ids }
    }
}

/// The operation ids a multi-item post run keeps: the ids in order, with
/// every invalid sentinel dropped.
pub open spec fn valid_ids(s: Seq<i64>) -> Seq<i64>
    decreases s.len(),
{
    if s.len() == 0 {
        Seq::empty()
    } else {
        let rest = valid_ids(s.drop_last());
        if s.last() == MAA_INVALID_ID {
            rest
        } else {
            rest + seq![s.last()]
        }
    }
}

/// Keeps the accepted operation ids of a batch post: a posted item whose id
/// is the invalid sentinel is skipped, the remaining items proceed.
pub fn accepted_ids(posted: &Vec<i64>) -> (r: Vec<i64>)
    ensures
        r@ == valid_ids(posted@),
{
    let mut r: Vec<i64> = Vec::new();
    let mut i: usize = 0;
    while i < posted.len()
        invariant
            0 <= i <= posted.len(),
            r@ =~= valid_ids(posted@.take(i as int)),
        decreases posted.len() - i,
    {
        assert(posted@.take(i + 1).drop_last() =~= posted@.take(i as int));
        assert(posted@.take(i + 1).last() == posted@[i as int]);
        if posted[i] != MAA_INVALID_ID {
            r.push(posted[i]);
        }
        i = i + 1;
    }
    assert(posted@.take(posted@.len() as int) =~= posted@);
    r
}

/// Checks the id one post returned: the invalid sentinel is a hard error
/// for that single item.
pub fn check_posted_id(id: i64) -> (r: Result<i64, MaaError>)
    ensures
        id == MAA_INVALID_ID ==> r == Err::<i64, MaaError>(MaaError::NativeFailure),
        id != MAA_INVALID_ID ==> r == Ok::<i64, MaaError>(id),
{
    if id == MAA_INVALID_ID {
        Err(MaaError::NativeFailure)
    } else {
        Ok(id)
    }
}


/// Configuration of an optional helper agent: the child executable, its
/// arguments, an optional identifier, and the connect timeout in
/// milliseconds (negative meaning an indefinite wait).
pub struct AgentConfig {
    pub child_exec: Vec<u8>,
    pub child_args: Option<Vec<Vec<u8>>>,
    pub identifier: Option<Vec<u8>>,
    pub timeout: Option<i64>,
}

/// One task to post: the entry name and its pipeline override text.
pub struct TaskConfig {
    pub entry: Vec<u8>,
    pub pipeline_override: Vec<u8>,
}

/// The argument list handed to the agent child process: the configured
/// arguments, with the generated socket identifier appended last.
pub fn agent_child_args(child_args: Option<Vec<Vec<u8>>>, socket_id: Vec<u8>) -> (r: Vec<Vec<u8>>)
    ensures
        r.deep_view() == (match child_args {
            Some(a) => a.deep_view(),
            None => Seq::<Seq<u8>>::empty(),
        }) + seq![socket_id@],
{
    let ghost note = socket_id@;
    match child_args {
        Some(mut a) => {
            let ghost before = a.deep_view();
            a.push(socket_id);
            assert(a.deep_view() =~~= before + seq![note]);
            a
        },
        None => {
            let mut a: Vec<Vec<u8>> = Vec::new();
            a.push(socket_id);
            assert(a.deep_view() =~~= Seq::<Seq<u8>>::empty() + seq![note]);
            a
        },
    }
}

/// The connect timeout a handshake uses: the configured one, or an
/// indefinite wait when none was given.
pub fn agent_timeout(timeout: Option<i64>) -> (r: i64)
    ensures
        r == (match timeout {
            Some(t) => t,
            None => -1i64,
        }),
{
    match timeout {
        Some(t) => t,
        None => -1,
    }
}

} // verus!
