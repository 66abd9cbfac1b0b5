//! The table of configured devices and the connection lifecycle of each.

use vstd::prelude::*;
use crate::address::HardwareAddress;

verus! {

/// Where a device stands in its connection lifecycle.
#[derive(Clone, Copy, Debug, PartialEq, Eq, Structural)]
pub enum DeviceState {
    Unseen,
    Discovered,
    Connecting,
    Connected,
    Subscribed,
    Failed,
}

/// Failures of the wireless transport.
#[derive(Clone, Copy, Debug, PartialEq, Eq, Structural)]
pub enum TransportError {
    NotFound,
    ConnectFailed,
    SubscribeFailed,
    Timeout,
    Disconnected,
}

/// What happened to one device.
#[derive(Clone, Copy, Debug, PartialEq, Eq, Structural)]
pub enum DeviceEvent {
    /// The device's address was among the visible devices of a scan.
    Sighted,
    /// A connection attempt begins.
    ConnectStarted,
    /// The connection was established.
    ConnectSucceeded,
    /// Services were discovered and the notification channel subscribed.
    SubscribeSucceeded,
    /// A notification was read and decoded.
    ReadSucceeded,
    /// A notification was read but did not decode.
    DecodeFailed,
    /// The transport reported an error for this device.
    TransportFailed(TransportError),
}

/// Errors in the configured name/address table.
#[derive(Clone, Copy, Debug, PartialEq, Eq, Structural)]
pub enum ConfigError {
    DuplicateName,
    DuplicateAddress,
}

/// The lifecycle's edges. Every change of state follows one of them.
pub open spec fn is_edge(from: DeviceState, to: DeviceState) -> bool {
    match (from, to) {
        (DeviceState::Unseen, DeviceState::Discovered) => true,
        (DeviceState::Discovered, DeviceState::Connecting) => true,
        (DeviceState::Connecting, DeviceState::Connected) => true,
        (DeviceState::Connected, DeviceState::Subscribed) => true,
        (DeviceState::Connecting, DeviceState::Failed) => true,
        (DeviceState::Connected, DeviceState::Failed) => true,
        (DeviceState::Subscribed, DeviceState::Failed) => true,
        (DeviceState::Failed, DeviceState::Connecting) => true,
        (DeviceState::Failed, DeviceState::Discovered) => true,
        _ => false,
    }
}

/// One configured device.
#[derive(Clone, Debug)]
pub struct DeviceDescriptor {
    pub name: String,
    pub address: HardwareAddress,
    pub state: DeviceState,
    /// Collector time, in milliseconds, at which the device was last sighted or read.
    pub last_seen_ms: Option<u64>,
    pub consecutive_failures: u32,
}

/// The mathematical value of a descriptor.
pub struct DescriptorView {
    pub name: Seq<char>,
    pub address: Seq<u8>,
    pub state: DeviceState,
    pub last_seen_ms: Option<u64>,
    pub consecutive_failures: u32,
}

impl View for DeviceDescriptor {
    type V = DescriptorView;

    open spec fn view(&self) -> DescriptorView {
        DescriptorView {
            name: self.name@,
            address: self.address.octets@,
            state: self.state,
            last_seen_ms: self.last_seen_ms,
            consecutive_failures: self.consecutive_failures,
        }
    }
}

pub open spec fn failures_after_one_more(n: u32) -> u32 {
    if n == u32::MAX { n } else { (n + 1) as u32 }
}

/// The descriptor after `event` at time `now_ms`. An event that does not apply to the
/// current state leaves the descriptor as it is.
pub open spec fn step(d: DescriptorView, event: DeviceEvent, now_ms: u64) -> DescriptorView {
    match event {
        DeviceEvent::Sighted => match d.state {
            DeviceState::Unseen | DeviceState::Failed => DescriptorView {
                state: DeviceState::Discovered,
                last_seen_ms: Some(now_ms),
                ..d
            },
            _ => DescriptorView { last_seen_ms: Some(now_ms), ..d },
        },
        DeviceEvent::ConnectStarted => match d.state {
            DeviceState::Discovered | DeviceState::Failed => DescriptorView {
                state: DeviceState::Connecting,
                ..d
            },
            _ => d,
        },
        DeviceEvent::ConnectSucceeded => match d.state {
            DeviceState::Connecting => DescriptorView { state: DeviceState::Connected, ..d },
            _ => d,
        },
        DeviceEvent::SubscribeSucceeded => match d.state {
            DeviceState::Connected => DescriptorView {
                state: DeviceState::Subscribed,
                consecutive_failures: 0,
                ..d
            },
            _ => d,
        },
        DeviceEvent::ReadSucceeded => match d.state {
            DeviceState::Subscribed => DescriptorView {
                last_seen_ms: Some(now_ms),
                consecutive_failures: 0,
                ..d
            },
            _ => d,
        },
        DeviceEvent::DecodeFailed => match d.state {
            DeviceState::Subscribed => DescriptorView {
                consecutive_failures: failures_after_one_more(d.consecutive_failures),
                ..d
            },
            _ => d,
        },
        DeviceEvent::TransportFailed(e) => match d.state {
            DeviceState::Subscribed => DescriptorView {
                state: if e == TransportError::Timeout {
                    DeviceState::Subscribed
                } else {
                    DeviceState::Failed
                },
                consecutive_failures: failures_after_one_more(d.consecutive_failures),
                ..d
            },
            DeviceState::Connecting | DeviceState::Connected => DescriptorView {
                state: DeviceState::Failed,
                consecutive_failures: failures_after_one_more(d.consecutive_failures),
                ..d
            },
            _ => d,
        },
    }
}

/// A fresh descriptor for a configured device.
pub open spec fn initial(name: Seq<char>, address: Seq<u8>) -> DescriptorView {
    DescriptorView {
        name,
        address,
        state: DeviceState::Unseen,
        last_seen_ms: None,
        consecutive_failures: 0,
    }
}

/// No two configured entries share a name or an address.
pub open spec fn keys_unique(devices: Seq<DescriptorView>) -> bool {
    forall|i: int, j: int|
        0 <= i < devices.len() && 0 <= j < devices.len() && i != j ==> devices[i].name
            != devices[j].name && devices[i].address != devices[j].address
}

pub open spec fn has_duplicate_name(entries: Seq<(String, HardwareAddress)>) -> bool {
    exists|i: int, j: int|
        0 <= i < j < entries.len() && entries[i].0@ == entries[j].0@
}

pub open spec fn has_duplicate_address(entries: Seq<(String, HardwareAddress)>) -> bool {
    exists|i: int, j: int|
        0 <= i < j < entries.len() && entries[i].1.octets@ == entries[j].1.octets@
}

/// The configured devices, in the order of configuration, each under a unique
/// name and a unique address.
pub struct DeviceRegistry {
    devices: Vec<DeviceDescriptor>,
}

impl View for DeviceRegistry {
    type V = Seq<DescriptorView>;

    closed spec fn view(&self) -> Seq<DescriptorView> {
        self.devices@.map_values(|d: DeviceDescriptor| d@)
    }
}

impl DeviceRegistry {
    pub open spec fn wf(&self) -> bool {
        keys_unique(self@)
    }

    /// Builds the registry from configured name/address pairs. Every device starts
    /// `Unseen`; a repeated name or address is refused.
    pub fn from_config(entries: Vec<(String, HardwareAddress)>) -> (r: Result<
        DeviceRegistry,
        ConfigError,
    >)
        ensures
            has_duplicate_name(entries@) ==> r == Err::<DeviceRegistry, ConfigError>(
                ConfigError::DuplicateName,
            ),
            !has_duplicate_name(entries@) && has_duplicate_address(entries@) ==> r == Err::<
                DeviceRegistry,
                ConfigError,
            >(ConfigError::DuplicateAddress),
            !has_duplicate_name(entries@) && !has_duplicate_address(entries@) ==> r is Ok,
            r is Ok ==> r->Ok_0.wf() && r->Ok_0@.len() == entries@.len() && forall|k: int|
                0 <= k < entries@.len() ==> r->Ok_0@[k] == initial(
                    entries@[k].0@,
                    entries@[k].1.octets@,
                ),
    {
        let n = entries.len();
        let mut i: usize = 0;
        while i < n
            invariant
                n == entries@.len(),
                0 <= i <= n,
                forall|a: int, b: int| 0 <= a < b < i ==> entries@[a].0@ != entries@[b].0@,
            decreases n - i,
        {
            let mut j: usize = 0;
            while j < i
                invariant
                    n == entries@.len(),
                    0 <= j <= i < n,
                    forall|a: int| 0 <= a < j ==> entries@[a].0@ != entries@[i as int].0@,
                decreases i - j,
            {
                if entries[j].0 == entries[i].0 {
                    return Err(ConfigError::DuplicateName);
                }
                j = j + 1;
            }
            i = i + 1;
        }
        assert(!has_duplicate_name(entries@));
        let mut i: usize = 0;
        while i < n
            invariant
                n == entries@.len(),
                0 <= i <= n,
                !has_duplicate_name(entries@),
                forall|a: int, b: int|
                    0 <= a < b < i ==> entries@[a].1.octets@ != entries@[b].1.octets@,
            decreases n - i,
        {
            let mut j: usize = 0;
            while j < i
                invariant
                    n == entries@.len(),
                    0 <= j <= i < n,
                    !has_duplicate_name(entries@),
                    forall|a: int|
                        0 <= a < j ==> entries@[a].1.octets@ != entries@[i as int].1.octets@,
                decreases i - j,
            {
                if entries[j].1.eq(&entries[i].1) {
                    return Err(ConfigError::DuplicateAddress);
                }
                j = j + 1;
            }
            i = i + 1;
        }
        assert(!has_duplicate_address(entries@));
        let mut devices: Vec<DeviceDescriptor> = Vec::new();
        let mut i: usize = 0;
        while i < n
            invariant
                n == entries@.len(),
                0 <= i <= n,
                devices@.len() == i,
                forall|k: int|
                    0 <= k < i ==> devices@[k]@ == initial(
                        entries@[k].0@,
                        entries@[k].1.octets@,
                    ),
            decreases n - i,
        {
            let d = DeviceDescriptor {
                name: entries[i].0.clone(),
                address: entries[i].1,
                state: DeviceState::Unseen,
                last_seen_ms: None,
                consecutive_failures: 0,
            };
            devices.push(d);
            i = i + 1;
        }
        let r = DeviceRegistry { devices };
        assert forall|a: int, b: int|
            0 <= a < r@.len() && 0 <= b < r@.len() && a != b implies r@[a].name != r@[b].name
                && r@[a].address != r@[b].address by {
            if a < b {
                assert(!(entries@[a].0@ == entries@[b].0@));
            } else {
                assert(!(entries@[b].0@ == entries@[a].0@));
            }
        }
        Ok(r)
    }

    pub fn len(&self) -> (r: usize)
        ensures
            r == self@.len(),
    {
        self.devices.len()
    }

    pub fn get(&self, i: usize) -> (r: &DeviceDescriptor)
        requires
            i < self@.len(),
        ensures
            r@ == self@[i as int],
    {
        &self.devices[i]
    }

    /// Applies `event` to device `i`. No other device changes; a descriptor's name and
    /// address never change.
    pub fn apply(&mut self, i: usize, event: DeviceEvent, now_ms: u64)
        requires
            old(self).wf(),
            i < old(self)@.len(),
        ensures
            final(self).wf(),
            final(self)@ == old(self)@.update(i as int, step(old(self)@[i as int], event, now_ms)),
    {
        let d = &self.devices[i];
        let failures = if d.consecutive_failures == u32::MAX {
            d.consecutive_failures
        } else {
            d.consecutive_failures + 1
        };
        let mut state = d.state;
        let mut last_seen_ms = d.last_seen_ms;
        let mut consecutive_failures = d.consecutive_failures;
        match event {
            DeviceEvent::Sighted => {
                match d.state {
                    DeviceState::Unseen | DeviceState::Failed => {
                        state = DeviceState::Discovered;
                    },
                    _ => {},
                }
                last_seen_ms = Some(now_ms);
            },
            DeviceEvent::ConnectStarted => {
                match d.state {
                    DeviceState::Discovered | DeviceState::Failed => {
                        state = DeviceState::Connecting;
                    },
                    _ => {},
                }
            },
            DeviceEvent::ConnectSucceeded => {
                if d.state == DeviceState::Connecting {
                    state = DeviceState::Connected;
                }
            },
            DeviceEvent::SubscribeSucceeded => {
                if d.state == DeviceState::Connected {
                    state = DeviceState::Subscribed;
                    consecutive_failures = 0;
                }
            },
            DeviceEvent::ReadSucceeded => {
                if d.state == DeviceState::Subscribed {
                    last_seen_ms = Some(now_ms);
                    consecutive_failures = 0;
                }
            },
            DeviceEvent::DecodeFailed => {
                if d.state == DeviceState::Subscribed {
                    consecutive_failures = failures;
                }
            },
            DeviceEvent::TransportFailed(e) => {
                match d.state {
                    DeviceState::Subscribed => {
                        if e != TransportError::Timeout {
                            state = DeviceState::Failed;
                        }
                        consecutive_failures = failures;
                    },
                    DeviceState::Connecting | DeviceState::Connected => {
                        state = DeviceState::Failed;
                        consecutive_failures = failures;
                    },
                    _ => {},
                }
            },
        }
        let next = DeviceDescriptor {
            name: d.name.clone(),
            address: d.address,
            state,
            last_seen_ms,
            consecutive_failures,
        };
        self.devices.set(i, next);
        assert(self@ =~= old(self)@.update(i as int, step(old(self)@[i as int], event, now_ms)));
    }
}

/// The descriptor after each of `events` in turn, all at time `now_ms`.
pub open spec fn run_events(d: DescriptorView, events: Seq<DeviceEvent>, now_ms: u64) -> DescriptorView
    decreases events.len(),
{
    if events.len() == 0 {
        d
    } else {
        step(run_events(d, events.drop_last(), now_ms), events.last(), now_ms)
    }
}

/// Every event either leaves a device's state as it is or moves it along one edge of
/// the lifecycle; the only edge into `Subscribed` leaves `Connected`.
pub proof fn events_follow_edges(d: DescriptorView, event: DeviceEvent, now_ms: u64)
    ensures
        step(d, event, now_ms).state == d.state || is_edge(d.state, step(d, event, now_ms).state),
        forall|from: DeviceState|
            is_edge(from, DeviceState::Subscribed) ==> from == DeviceState::Connected,
{
}

/// A device that is not `Subscribed` and becomes so over a run of events passes
/// through `Connected` on the way.
pub proof fn subscribed_only_through_connected(d: DescriptorView, events: Seq<DeviceEvent>, now_ms: u64)
    requires
        d.state != DeviceState::Subscribed,
        run_events(d, events, now_ms).state == DeviceState::Subscribed,
    ensures
        exists|k: int|
            0 <= k < events.len() && run_events(d, events.take(k), now_ms).state
                == DeviceState::Connected,
    decreases events.len(),
{
    let n = events.len() as int;
    assert(n > 0);
    assert(events.take(n - 1) =~= events.drop_last());
    let before = run_events(d, events.drop_last(), now_ms);
    if before.state == DeviceState::Subscribed {
        subscribed_only_through_connected(d, events.drop_last(), now_ms);
        let k = choose|k: int|
            0 <= k < n - 1 && run_events(d, events.drop_last().take(k), now_ms).state
                == DeviceState::Connected;
        assert(events.drop_last().take(k) =~= events.take(k));
    } else {
        events_follow_edges(before, events.last(), now_ms);
        assert(before.state == DeviceState::Connected);
    }
}

/// An event on one device, a transport failure among them, leaves every other
/// device's descriptor as it was.
pub proof fn events_isolated(devices: Seq<DescriptorView>, i: int, event: DeviceEvent, now_ms: u64, j: int)
    requires
        0 <= i < devices.len(),
        0 <= j < devices.len(),
        j != i,
    ensures
        devices.update(i, step(devices[i], event, now_ms))[j] == devices[j],
{
}

} // verus!
