//! Reconciliation of the configured devices against what the transport can see, and
//! the choice of the notification channel to subscribe to.

use vstd::prelude::*;
use crate::address::HardwareAddress;
use crate::registry::{DeviceRegistry, DeviceEvent, DeviceState, DescriptorView, TransportError, step};

verus! {

/// Delay between two scans of the medium while devices are missing, in milliseconds.
pub const RETRY_DELAY_MS: u64 = 1000;

/// Identifier of the characteristic over which a sensor pushes its payloads.
pub const NOTIFY_CHARACTERISTIC: u128 = 0x6e400003_b5a3_f393_e0a9_e50e24dcca9e;

/// A characteristic as the transport describes it.
#[derive(Clone, Copy, Debug, PartialEq, Eq, Structural)]
pub struct Characteristic {
    pub uuid: u128,
    /// Whether the characteristic can push notifications.
    pub notify: bool,
}

pub open spec fn visible_in(address: Seq<u8>, visible: Seq<HardwareAddress>) -> bool {
    exists|k: int| 0 <= k < visible.len() && visible[k].octets@ == address
}

/// A device that a scan sighted and that now awaits a connection attempt.
pub open spec fn awaits_connect(d: DescriptorView, visible: Seq<HardwareAddress>) -> bool {
    visible_in(d.address, visible) && d.state == DeviceState::Discovered
}

/// Records a scan: each configured device whose address is visible is sighted, which
/// moves an `Unseen` or `Failed` device to `Discovered`. Returns, in increasing order, the
/// devices that a connection attempt should now be made for.
pub fn observe_scan(
    registry: &mut DeviceRegistry,
    visible: &Vec<HardwareAddress>,
    now_ms: u64,
) -> (r: Vec<usize>)
    requires
        old(registry).wf(),
    ensures
        final(registry).wf(),
        final(registry)@.len() == old(registry)@.len(),
        forall|k: int|
            0 <= k < old(registry)@.len() ==> final(registry)@[k] == if visible_in(
                old(registry)@[k].address,
                visible@,
            ) {
                step(old(registry)@[k], DeviceEvent::Sighted, now_ms)
            } else {
                old(registry)@[k]
            },
        forall|a: int, b: int| 0 <= a < b < r@.len() ==> r@[a] < r@[b],
        forall|a: int|
            0 <= a < r@.len() ==> r@[a] < final(registry)@.len() && awaits_connect(
                final(registry)@[r@[a] as int],
                visible@,
            ),
        forall|k: int|
            0 <= k < final(registry)@.len() && awaits_connect(final(registry)@[k], visible@)
                ==> r@.contains(k as usize),
{
    let n = registry.len();
    let mut r: Vec<usize> = Vec::new();
    let mut i: usize = 0;
    while i < n
        invariant
            registry.wf(),
            n == registry@.len() == old(registry)@.len(),
            0 <= i <= n,
            forall|k: int|
                0 <= k < i ==> registry@[k] == if visible_in(old(registry)@[k].address, visible@) {
                    step(old(registry)@[k], DeviceEvent::Sighted, now_ms)
                } else {
                    old(registry)@[k]
                },
            forall|k: int| i <= k < n ==> registry@[k] == old(registry)@[k],
            forall|a: int, b: int| 0 <= a < b < r@.len() ==> r@[a] < r@[b],
            forall|a: int|
                0 <= a < r@.len() ==> r@[a] < i && awaits_connect(
                    registry@[r@[a] as int],
                    visible@,
                ),
            forall|k: int|
                0 <= k < i && awaits_connect(registry@[k], visible@) ==> r@.contains(k as usize),
        decreases n - i,
    {
        let ghost r_before = r@;
        let ghost reg_before = registry@;
        let seen = registry.get(i).address.is_among(visible);
        if seen {
            registry.apply(i, DeviceEvent::Sighted, now_ms);
            if registry.get(i).state == DeviceState::Discovered {
                r.push(i);
                assert(r@[r@.len() - 1] == i);
            }
        }
        assert forall|k: int|
            0 <= k < i + 1 && awaits_connect(registry@[k], visible@) implies r@.contains(
            k as usize,
        ) by {
            if k < i {
                assert(registry@[k] == reg_before[k]);
                assert(r_before.contains(k as usize));
                let w = choose|w: int| 0 <= w < r_before.len() && r_before[w] == k as usize;
                assert(r@[w] == k as usize);
            } else {
                assert(r@[r@.len() - 1] == i);
            }
        }
        i = i + 1;
    }
    r
}

/// A transport failure while connecting or subscribing one device does not change
/// whether a scan lets another device go on to its own connection attempt.
pub proof fn failure_does_not_block_others(
    devices: Seq<DescriptorView>,
    a: int,
    error: TransportError,
    now_ms: u64,
    b: int,
    visible: Seq<HardwareAddress>,
)
    requires
        0 <= a < devices.len(),
        0 <= b < devices.len(),
        a != b,
    ensures
        ({
            let after = devices.update(a, step(devices[a], DeviceEvent::TransportFailed(error), now_ms));
            &&& after[b] == devices[b]
            &&& step(after[b], DeviceEvent::Sighted, now_ms) == step(devices[b], DeviceEvent::Sighted, now_ms)
            &&& awaits_connect(after[b], visible) == awaits_connect(devices[b], visible)
        }),
{
}

/// Whether every configured device is `Subscribed`: the end of the startup phase.
pub fn all_subscribed(registry: &DeviceRegistry) -> (r: bool)
    ensures
        r == forall|k: int|
            0 <= k < registry@.len() ==> registry@[k].state == DeviceState::Subscribed,
{
    let n = registry.len();
    let mut i: usize = 0;
    while i < n
        invariant
            n == registry@.len(),
            0 <= i <= n,
            forall|k: int| 0 <= k < i ==> registry@[k].state == DeviceState::Subscribed,
        decreases n - i,
    {
        if registry.get(i).state != DeviceState::Subscribed {
            return false;
        }
        i = i + 1;
    }
    true
}

/// The devices in state `Subscribed`, in increasing order: the targets of a poll tick.
pub fn subscribed_devices(registry: &DeviceRegistry) -> (r: Vec<usize>)
    ensures
        forall|a: int, b: int| 0 <= a < b < r@.len() ==> r@[a] < r@[b],
        forall|a: int|
            0 <= a < r@.len() ==> r@[a] < registry@.len() && registry@[r@[a] as int].state
                == DeviceState::Subscribed,
        forall|k: int|
            0 <= k < registry@.len() && registry@[k].state == DeviceState::Subscribed
                ==> r@.contains(k as usize),
{
    let n = registry.len();
    let mut r: Vec<usize> = Vec::new();
    let mut i: usize = 0;
    while i < n
        invariant
            n == registry@.len(),
            0 <= i <= n,
            forall|a: int, b: int| 0 <= a < b < r@.len() ==> r@[a] < r@[b],
            forall|a: int|
                0 <= a < r@.len() ==> r@[a] < i && registry@[r@[a] as int].state
                    == DeviceState::Subscribed,
            forall|k: int|
                0 <= k < i && registry@[k].state == DeviceState::Subscribed ==> r@.contains(
                    k as usize,
                ),
        decreases n - i,
    {
        let ghost r_before = r@;
        if registry.get(i).state == DeviceState::Subscribed {
            r.push(i);
        }
        assert forall|k: int|
            0 <= k < i + 1 && registry@[k].state == DeviceState::Subscribed implies r@.contains(
            k as usize,
        ) by {
            if k < i {
                let w = choose|w: int| 0 <= w < r_before.len() && r_before[w] == k as usize;
                assert(r@[w] == k as usize);
            } else {
                assert(r@[r@.len() - 1] == i);
            }
        }
        i = i + 1;
    }
    r
}

/// The first characteristic that carries the sensor's notifications, if any.
pub fn pick_notify_channel(characteristics: &Vec<Characteristic>) -> (r: Option<usize>)
    ensures
        r is Some <==> exists|k: int|
            0 <= k < characteristics@.len() && characteristics@[k].uuid == NOTIFY_CHARACTERISTIC
                && characteristics@[k].notify,
        r is Some ==> ({
            let k = r->Some_0 as int;
            &&& k < characteristics@.len()
            &&& characteristics@[k].uuid == NOTIFY_CHARACTERISTIC
            &&& characteristics@[k].notify
            &&& forall|j: int|
                0 <= j < k ==> !(characteristics@[j].uuid == NOTIFY_CHARACTERISTIC
                    && characteristics@[j].notify)
        }),
{
    let mut i: usize = 0;
    while i < characteristics.len()
        invariant
            0 <= i <= characteristics@.len(),
            forall|j: int|
                0 <= j < i ==> !(characteristics@[j].uuid == NOTIFY_CHARACTERISTIC
                    && characteristics@[j].notify),
        decreases characteristics@.len() - i,
    {
        let c = characteristics[i];
        if c.uuid == NOTIFY_CHARACTERISTIC && c.notify {
            return Some(i);
        }
        i = i + 1;
    }
    None
}

} // verus!
