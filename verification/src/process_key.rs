//! The child processes that the Desktop may own.
use vstd::prelude::*;

verus! {

/// Names a tunnel profile.
#[derive(Debug, Clone, Copy, PartialEq, Eq, Hash, Structural)]
pub struct TunnelProfileId {
    pub value: u64,
}

impl Default for TunnelProfileId {
    /// The profile that is used where none was chosen.
    fn default() -> (id: TunnelProfileId)
        ensures
            id.value == 0,
    {
        TunnelProfileId { value: 0 }
    }
}

/// A process that the Desktop may own: at most one of each.
#[derive(Debug, Clone, Copy, PartialEq, Eq, Hash, Structural)]
pub enum ProcessKey {
    LocalServer,
    LocalRunner,
    QuickShare,
    RegularTunnel(TunnelProfileId),
}

impl ProcessKey {
    /// The tunnel profile that the process runs for.
    pub fn tunnel_profile_id(self) -> (id: Option<TunnelProfileId>)
        ensures
            id == match self {
                ProcessKey::RegularTunnel(id) => Some(id),
                _ => None,
            },
    {
        match self {
            ProcessKey::RegularTunnel(id) => Some(id),
            _ => None,
        }
    }

    /// The source under which activity of the process is recorded.
    pub fn source(self) -> (name: &'static str)
        ensures
            name@ == match self {
                ProcessKey::LocalServer => "service"@,
                ProcessKey::LocalRunner => "runner"@,
                ProcessKey::QuickShare => "quick_share"@,
                ProcessKey::RegularTunnel(_) => "regular_tunnel"@,
            },
    {
        match self {
            ProcessKey::LocalServer => "service",
            ProcessKey::LocalRunner => "runner",
            ProcessKey::QuickShare => "quick_share",
            ProcessKey::RegularTunnel(_) => "regular_tunnel",
        }
    }
}

/// Each process is named by what it is, and two are named alike only where both are
/// tunnels; a tunnel alone belongs to a profile, the one it runs for.
pub proof fn law_processes_are_named_by_what_they_are(
    key: ProcessKey,
    name: &'static str,
    id: Option<TunnelProfileId>,
)
    requires
        call_ensures(ProcessKey::source, (key,), name),
        call_ensures(ProcessKey::tunnel_profile_id, (key,), id),
    ensures
        key is LocalServer <==> name@ == "service"@,
        key is LocalRunner <==> name@ == "runner"@,
        key is QuickShare <==> name@ == "quick_share"@,
        key is RegularTunnel <==> name@ == "regular_tunnel"@,
        key matches ProcessKey::RegularTunnel(profile) ==> id == Some(profile),
        !(key is RegularTunnel) ==> id is None,
{
    reveal_strlit("service");
    reveal_strlit("runner");
    reveal_strlit("quick_share");
    reveal_strlit("regular_tunnel");
    assert("service"@.len() == 7 && "runner"@.len() == 6 && "quick_share"@.len() == 11
        && "regular_tunnel"@.len() == 14);
}

} // verus!
