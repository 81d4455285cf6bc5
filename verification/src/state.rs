use crate::counters::RxGainDecodeCounters;
use crate::registry::{MemberView, SubscriberRegistry};
use vstd::prelude::*;

verus! {

/// Mutable state shared by the protocol stack's entities.
#[derive(Debug)]
pub struct StackState {
    /// Backhaul connection to the switching infrastructure; false means
    /// fallback mode.
    pub network_connected: bool,
    /// Autonomous receiver gain test mode, enabled on the command line.
    pub rx_gain_test_mode: bool,
    /// Decode and CRC counters used to rank receiver gain settings.
    pub rx_gain_decode_counters: RxGainDecodeCounters,
    /// Registry of local subscribers and their groups.
    pub subscribers: SubscriberRegistry,
}

impl Default for StackState {
    fn default() -> (s: Self)
        ensures
            !s.network_connected,
            !s.rx_gain_test_mode,
            s.rx_gain_decode_counters.is_zero(),
            s.subscribers.members() == Map::<u32, MemberView>::empty(),
            s.subscribers.groups() == Set::<u32>::empty(),
    {
        StackState {
            network_connected: false,
            rx_gain_test_mode: false,
            rx_gain_decode_counters: RxGainDecodeCounters::zero(),
            subscribers: SubscriberRegistry::new(),
        }
    }
}

impl Clone for StackState {
    fn clone(&self) -> (c: Self)
        ensures
            c.network_connected == self.network_connected,
            c.rx_gain_test_mode == self.rx_gain_test_mode,
            c.rx_gain_decode_counters.same_as(&self.rx_gain_decode_counters),
            c.subscribers.members() == self.subscribers.members(),
            c.subscribers.groups() == self.subscribers.groups(),
    {
        StackState {
            network_connected: self.network_connected,
            rx_gain_test_mode: self.rx_gain_test_mode,
            rx_gain_decode_counters: self.rx_gain_decode_counters,
            subscribers: self.subscribers.clone(),
        }
    }
}

} // verus!
