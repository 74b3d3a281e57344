//! The authorization context of a proxied flow: the key under which a
//! connection is tracked.
use vstd::prelude::*;

use crate::addr::SocketAddr;

verus! {

/// A SPIFFE-style workload identity.
#[derive(Clone, Debug, PartialEq, Eq, Hash, PartialOrd, Ord)]
pub struct Identity {
    pub trust_domain: String,
    pub namespace: String,
    pub service_account: String,
}

pub struct IdentityView {
    pub trust_domain: Seq<char>,
    pub namespace: Seq<char>,
    pub service_account: Seq<char>,
}

impl View for Identity {
    type V = IdentityView;

    open spec fn view(&self) -> IdentityView {
        IdentityView {
            trust_domain: self.trust_domain@,
            namespace: self.namespace@,
            service_account: self.service_account@,
        }
    }
}

impl Identity {
    /// Value equality of two identities.
    pub fn same(&self, other: &Identity) -> (r: bool)
        ensures
            r == (self@ == other@),
    {
        self.trust_domain == other.trust_domain && self.namespace == other.namespace
            && self.service_account == other.service_account
    }

    /// A copy with the same value.
    pub fn duplicate(&self) -> (r: Identity)
        ensures
            r@ == self@,
    {
        Identity {
            trust_domain: self.trust_domain.clone(),
            namespace: self.namespace.clone(),
            service_account: self.service_account.clone(),
        }
    }
}

/// Metadata of the workload that a flow is destined to.
#[derive(Clone, Debug, PartialEq, Eq, Hash, PartialOrd, Ord)]
pub struct WorkloadInfo {
    pub name: String,
    pub namespace: String,
    pub service_account: String,
}

pub struct WorkloadInfoView {
    pub name: Seq<char>,
    pub namespace: Seq<char>,
    pub service_account: Seq<char>,
}

impl View for WorkloadInfo {
    type V = WorkloadInfoView;

    open spec fn view(&self) -> WorkloadInfoView {
        WorkloadInfoView {
            name: self.name@,
            namespace: self.namespace@,
            service_account: self.service_account@,
        }
    }
}

impl WorkloadInfo {
    /// Value equality of two workload descriptions.
    pub fn same(&self, other: &WorkloadInfo) -> (r: bool)
        ensures
            r == (self@ == other@),
    {
        self.name == other.name && self.namespace == other.namespace && self.service_account
            == other.service_account
    }

    /// A copy with the same value.
    pub fn duplicate(&self) -> (r: WorkloadInfo)
        ensures
            r@ == self@,
    {
        WorkloadInfo {
            name: self.name.clone(),
            namespace: self.namespace.clone(),
            service_account: self.service_account.clone(),
        }
    }
}

/// The flow-identifying part of an authorization context.
#[derive(Clone, Debug, PartialEq, Eq, Hash, PartialOrd, Ord)]
pub struct Connection {
    pub src_identity: Option<Identity>,
    pub src: SocketAddr,
    pub dst_network: String,
    pub dst: SocketAddr,
}

pub struct ConnectionView {
    pub src_identity: Option<IdentityView>,
    pub src: SocketAddr,
    pub dst_network: Seq<char>,
    pub dst: SocketAddr,
}

impl View for Connection {
    type V = ConnectionView;

    open spec fn view(&self) -> ConnectionView {
        ConnectionView {
            src_identity: match self.src_identity {
                Some(id) => Some(id@),
                None => None,
            },
            src: self.src,
            dst_network: self.dst_network@,
            dst: self.dst,
        }
    }
}

impl Connection {
    /// Value equality of two connections.
    pub fn same(&self, other: &Connection) -> (r: bool)
        ensures
            r == (self@ == other@),
    {
        let ids = match (&self.src_identity, &other.src_identity) {
            (Some(a), Some(b)) => a.same(b),
            (None, None) => true,
            _ => false,
        };
        ids && self.src == other.src && self.dst_network == other.dst_network && self.dst
            == other.dst
    }

    /// A copy with the same value.
    pub fn duplicate(&self) -> (r: Connection)
        ensures
            r@ == self@,
    {
        let src_identity = match &self.src_identity {
            Some(id) => Some(id.duplicate()),
            None => None,
        };
        Connection {
            src_identity,
            src: self.src,
            dst_network: self.dst_network.clone(),
            dst: self.dst,
        }
    }
}

/// Everything that authorization policy is evaluated against for one flow.
#[derive(Clone, Debug, PartialEq, Eq, Hash, PartialOrd, Ord)]
pub struct ProxyRbacContext {
    pub conn: Connection,
    pub dest_workload_info: Option<WorkloadInfo>,
}

pub struct ProxyRbacContextView {
    pub conn: ConnectionView,
    pub dest_workload_info: Option<WorkloadInfoView>,
}

impl View for ProxyRbacContext {
    type V = ProxyRbacContextView;

    open spec fn view(&self) -> ProxyRbacContextView {
        ProxyRbacContextView {
            conn: self.conn@,
            dest_workload_info: match self.dest_workload_info {
                Some(w) => Some(w@),
                None => None,
            },
        }
    }
}

impl ProxyRbacContext {
    /// Value equality of two contexts: the tracker's key equality.
    pub fn same(&self, other: &ProxyRbacContext) -> (r: bool)
        ensures
            r == (self@ == other@),
    {
        let infos = match (&self.dest_workload_info, &other.dest_workload_info) {
            (Some(a), Some(b)) => a.same(b),
            (None, None) => true,
            _ => false,
        };
        infos && self.conn.same(&other.conn)
    }

    /// A copy with the same value.
    pub fn duplicate(&self) -> (r: ProxyRbacContext)
        ensures
            r@ == self@,
    {
        let dest_workload_info = match &self.dest_workload_info {
            Some(w) => Some(w.duplicate()),
            None => None,
        };
        ProxyRbacContext { conn: self.conn.duplicate(), dest_workload_info }
    }
}

} // verus!
