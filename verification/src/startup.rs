//! The decisions the node makes while starting: the ports it advertises, the
//! optional services it runs, and the check of the shred version it computes.

use vstd::prelude::*;

verus! {

/// Which optional parts of the node run.
#[derive(Clone, Copy, Debug, PartialEq, Eq)]
pub struct StartupPlan {
    /// The RPC and PubSub addresses are advertised in gossip.
    pub advertise_rpc: bool,
    /// Transaction statuses are recorded (for RPC history or for a plugin).
    pub transaction_status_service: bool,
    /// The WebSocket PubSub service runs.
    pub pubsub_service: bool,
    /// Completed slots are forwarded to subscribers and plugins.
    pub completed_slots_service: bool,
    /// Bank notifications include parent slots (for the plugins).
    pub send_parents: bool,
    /// Confirmed banks are forwarded to the plugins.
    pub confirmed_bank_subscribers: bool,
}

/// Decides which optional parts of the node run, from the RPC settings,
/// whether Geyser plugins were configured, and whether a loaded plugin
/// asked for transactions.
pub fn plan_startup(
    private_rpc: bool,
    full_rpc_api: bool,
    enable_rpc_transaction_history: bool,
    geyser_plugins: bool,
    plugin_wants_transactions: bool,
) -> (plan: StartupPlan)
    ensures
        plan.advertise_rpc == !private_rpc,
        plan.transaction_status_service == (enable_rpc_transaction_history
            || plugin_wants_transactions),
        plan.pubsub_service == full_rpc_api,
        plan.completed_slots_service == (full_rpc_api || geyser_plugins),
        plan.send_parents == geyser_plugins,
        plan.confirmed_bank_subscribers == geyser_plugins,
{
    StartupPlan {
        advertise_rpc: !private_rpc,
        transaction_status_service: enable_rpc_transaction_history || plugin_wants_transactions,
        pubsub_service: full_rpc_api,
        completed_slots_service: full_rpc_api || geyser_plugins,
        send_parents: geyser_plugins,
        confirmed_bank_subscribers: geyser_plugins,
    }
}

/// The PubSub port, the one after the RPC port; `None` when the RPC port is
/// the last one.
pub fn rpc_pubsub_port(rpc_port: u16) -> (r: Option<u16>)
    ensures
        r == (if rpc_port < u16::MAX {
            Some((rpc_port + 1) as u16)
        } else {
            None
        }),
{
    rpc_port.checked_add(1)
}

/// The shred version expected by the configuration and the one computed from
/// the genesis configuration and the hard forks differ.
#[derive(Clone, Copy, Debug, PartialEq, Eq)]
pub struct ShredVersionMismatch {
    pub expected: u16,
    pub computed: u16,
}

/// Checks the computed shred version against the expected one, if any.
pub fn check_shred_version(expected: Option<u16>, computed: u16) -> (r: Result<
    (),
    ShredVersionMismatch,
>)
    ensures
        match expected {
            Some(e) => if e == computed {
                r is Ok
            } else {
                r == Err::<(), ShredVersionMismatch>(ShredVersionMismatch { expected: e, computed })
            },
            None => r is Ok,
        },
{
    match expected {
        Some(e) => if e != computed {
            Err(ShredVersionMismatch { expected: e, computed })
        } else {
            Ok(())
        },
        None => Ok(()),
    }
}

} // verus!
