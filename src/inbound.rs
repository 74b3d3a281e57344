//! The decisions of a proxied-connection task: which flows are refused before
//! they are tracked, what admission does to the registry, and how the end of
//! a relay is accounted for.
use vstd::prelude::*;

use crate::addr::IpAddr;
use crate::connection_manager::{after_register, after_release, after_track, ConnectionManager};
use crate::rbac::{ProxyRbacContext, ProxyRbacContextView};

verus! {

/// How the proxy is deployed.
#[derive(Clone, Copy, Debug, PartialEq, Eq, Structural)]
pub enum ProxyMode {
    /// One proxy serves every workload of a node.
    Shared,
    /// One proxy per workload.
    Dedicated,
}

/// Why a connection ended without success.
#[derive(Clone, Debug, PartialEq, Eq)]
pub enum ProxyError {
    /// The flow is addressed to the proxy itself.
    SelfCall,
    /// No workload is known at the destination address.
    UnknownDestination(IpAddr),
    /// Policy refused the flow at admission.
    AuthorizationPolicyRejection,
    /// Policy revoked the flow after admission.
    AuthorizationPolicyLateRejection,
    /// The upstream dial or the relay failed, with the reason.
    ConnectionFailed(String),
}

/// How the relay of an admitted connection ended.
pub enum RelayOutcome {
    /// Both directions finished.
    Finished,
    /// The upstream dial or the relay failed, with the reason.
    Failed(String),
    /// The connection's watcher fired first: its entry was closed.
    Signaled,
}

/// In shared mode, a flow addressed to the proxy's own IP is a recursive call.
pub fn is_self_call(mode: ProxyMode, dest: IpAddr, local_ip: Option<IpAddr>) -> (r: bool)
    ensures
        r == (mode == ProxyMode::Shared && local_ip == Some(dest)),
{
    match local_ip {
        Some(ip) => mode == ProxyMode::Shared && ip == dest,
        None => false,
    }
}

/// Acts on the admission verdict of a registered connection. A refused
/// connection gives its registration back. An admitted one takes a watcher;
/// when its entry was closed meanwhile there is none, and the connection is
/// refused late.
pub fn on_verdict(cm: &mut ConnectionManager, ctx: &ProxyRbacContext, allowed: bool) -> (r: Result<
    drain::Watch,
    ProxyError,
>)
    requires
        old(cm).wf(),
        allowed && old(cm)@.contains_key(ctx@) ==> old(cm)@[ctx@] < usize::MAX,
    ensures
        final(cm).wf(),
        !allowed ==> final(cm)@ == after_release(old(cm)@, ctx@) && r == Err::<
            drain::Watch,
            ProxyError,
        >(ProxyError::AuthorizationPolicyRejection),
        allowed ==> final(cm)@ == after_track(old(cm)@, ctx@),
        allowed ==> (r is Ok <==> old(cm)@.contains_key(ctx@)),
        allowed && r is Err ==> r == Err::<drain::Watch, ProxyError>(
            ProxyError::AuthorizationPolicyLateRejection,
        ),
{
    if !allowed {
        cm.release(ctx);
        return Err(ProxyError::AuthorizationPolicyRejection);
    }
    match cm.track(ctx) {
        Some(w) => Ok(w),
        None => Err(ProxyError::AuthorizationPolicyLateRejection),
    }
}

/// Accounts for the end of a relay. A relay that finished or failed releases
/// its tracking slot; one cut short by the watcher leaves the registry alone,
/// since `close` already removed the entry.
pub fn finish(cm: &mut ConnectionManager, ctx: &ProxyRbacContext, outcome: RelayOutcome) -> (r:
    Result<(), ProxyError>)
    requires
        old(cm).wf(),
    ensures
        final(cm).wf(),
        match outcome {
            RelayOutcome::Finished => final(cm)@ == after_release(old(cm)@, ctx@) && r == Ok::<
                (),
                ProxyError,
            >(()),
            RelayOutcome::Failed(msg) => final(cm)@ == after_release(old(cm)@, ctx@) && r
                == Err::<(), ProxyError>(ProxyError::ConnectionFailed(msg)),
            RelayOutcome::Signaled => final(cm)@ == old(cm)@ && r == Err::<(), ProxyError>(
                ProxyError::AuthorizationPolicyLateRejection,
            ),
        },
{
    match outcome {
        RelayOutcome::Finished => {
            cm.release(ctx);
            Ok(())
        },
        RelayOutcome::Failed(msg) => {
            cm.release(ctx);
            Err(ProxyError::ConnectionFailed(msg))
        },
        RelayOutcome::Signaled => Err(ProxyError::AuthorizationPolicyLateRejection),
    }
}


/// Where a connection task stands once it has registered.
#[derive(Clone, Copy, Debug, PartialEq, Eq, Structural)]
pub enum TaskPhase {
    /// Registered, waiting for the admission verdict.
    Admitting,
    /// Admitted and watching: the relay runs.
    Relaying,
    /// Ended; the task touches the registry no more.
    Done,
}

/// A connection task past its early checks. It exists only once its context
/// is registered, so a flow refused early never touches the registry. It
/// counts the releases it performs.
pub struct ConnectionTask {
    ctx: ProxyRbacContext,
    phase: TaskPhase,
    releases: Ghost<nat>,
}

impl ConnectionTask {
    pub closed spec fn context(&self) -> ProxyRbacContextView {
        self.ctx@
    }

    pub closed spec fn phase(&self) -> TaskPhase {
        self.phase
    }

    /// The number of releases made for the connection so far.
    pub closed spec fn releases(&self) -> nat {
        self.releases@
    }

    /// Registers the context before the admission check, so that the policy
    /// watcher sees the connection while it is being evaluated.
    pub fn start(cm: &mut ConnectionManager, ctx: ProxyRbacContext) -> (r: ConnectionTask)
        requires
            old(cm).wf(),
        ensures
            final(cm).wf(),
            final(cm)@ == after_register(old(cm)@, ctx@),
            r.context() == ctx@,
            r.phase() == TaskPhase::Admitting,
            r.releases() == 0,
    {
        cm.register(&ctx);
        ConnectionTask { ctx, phase: TaskPhase::Admitting, releases: Ghost(0) }
    }

    /// Acts on the admission verdict, as `on_verdict` does. A denial releases
    /// the registration and ends the task; an admission that finds its entry
    /// closed ends it without a release, the entry being gone.
    pub fn verdict(&mut self, cm: &mut ConnectionManager, allowed: bool) -> (r: Result<
        drain::Watch,
        ProxyError,
    >)
        requires
            old(self).phase() == TaskPhase::Admitting,
            old(self).releases() == 0,
            old(cm).wf(),
            allowed && old(cm)@.contains_key(old(self).context()) ==> old(cm)@[old(self).context()]
                < usize::MAX,
        ensures
            final(cm).wf(),
            final(self).context() == old(self).context(),
            !allowed ==> final(cm)@ == after_release(old(cm)@, old(self).context()) && r
                == Err::<drain::Watch, ProxyError>(ProxyError::AuthorizationPolicyRejection)
                && final(self).phase() == TaskPhase::Done && final(self).releases() == 1,
            allowed ==> final(cm)@ == after_track(old(cm)@, old(self).context())
                && final(self).releases() == 0,
            allowed ==> (r is Ok <==> old(cm)@.contains_key(old(self).context())),
            allowed && r is Ok ==> final(self).phase() == TaskPhase::Relaying,
            allowed && r is Err ==> r == Err::<drain::Watch, ProxyError>(
                ProxyError::AuthorizationPolicyLateRejection,
            ) && final(self).phase() == TaskPhase::Done,
    {
        let r = on_verdict(cm, &self.ctx, allowed);
        if !allowed {
            self.releases = Ghost(1);
            self.phase = TaskPhase::Done;
        } else if r.is_ok() {
            self.phase = TaskPhase::Relaying;
        } else {
            self.phase = TaskPhase::Done;
        }
        r
    }

    /// Accounts for the end of the relay, as `finish` does, and ends the task.
    /// A relay that finished or failed has released once; one cut short by
    /// the watcher has not released at all.
    pub fn relay_ended(&mut self, cm: &mut ConnectionManager, outcome: RelayOutcome) -> (r: Result<
        (),
        ProxyError,
    >)
        requires
            old(self).phase() == TaskPhase::Relaying,
            old(self).releases() == 0,
            old(cm).wf(),
        ensures
            final(cm).wf(),
            final(self).context() == old(self).context(),
            final(self).phase() == TaskPhase::Done,
            match outcome {
                RelayOutcome::Finished => final(cm)@ == after_release(old(cm)@, old(self).context())
                    && r == Ok::<(), ProxyError>(()) && final(self).releases() == 1,
                RelayOutcome::Failed(msg) => final(cm)@ == after_release(
                    old(cm)@,
                    old(self).context(),
                ) && r == Err::<(), ProxyError>(ProxyError::ConnectionFailed(msg))
                    && final(self).releases() == 1,
                RelayOutcome::Signaled => final(cm)@ == old(cm)@ && r == Err::<(), ProxyError>(
                    ProxyError::AuthorizationPolicyLateRejection,
                ) && final(self).releases() == 0,
            },
    {
        let signaled = match &outcome {
            RelayOutcome::Signaled => true,
            _ => false,
        };
        let r = finish(cm, &self.ctx, outcome);
        if !signaled {
            self.releases = Ghost(1);
        }
        self.phase = TaskPhase::Done;
        r
    }
}

} // verus!
