//! Finding SnapLAN devices on the local network: the name a device
//! announces itself under, and what the server does with what the browser
//! finds.
use vstd::prelude::*;
use crate::handler::Event;
use crate::state::{AppState, DiscoveryDevice};
use crate::text::{concat_str, replace_char, swap_char};

verus! {

/// The service type that SnapLAN devices announce.
pub const SERVICE_TYPE: &'static str = "_snaplan._tcp.local.";

/// The host name a device announces: its name with spaces turned into
/// hyphens, in the `.local.` domain.
pub fn advertised_host_name(device_name: &str) -> (r: String)
    ensures
        r@ == swap_char(device_name@, ' ', '-') + ".local."@,
{
    let host = replace_char(device_name, ' ', '-');
    concat_str(host.as_str(), ".local.")
}

/// A device that the network browser resolved: its full service name, its
/// first address ("unknown" when it has none) and its port.
pub fn resolved_device(name: String, addresses: Vec<String>, port: u16) -> (d: DiscoveryDevice)
    ensures
        d.name == name,
        d.port == port,
        addresses@.len() > 0 ==> d.ip == addresses@[0],
        addresses@.len() == 0 ==> d.ip@ == "unknown"@,
{
    let ip = if addresses.len() > 0 {
        addresses[0].clone()
    } else {
        String::from_str("unknown")
    };
    DiscoveryDevice { name, ip, port }
}

/// Files a resolved device and gives the list of every discovered device to
/// announce.
pub fn on_service_resolved(state: &mut AppState, device: DiscoveryDevice) -> (e: Event)
    requires
        old(state).wf(),
    ensures
        final(state).wf(),
        final(state)@ == old(state)@.with_device(device@),
        e matches Event::DiscoveryList(list) && list@ == final(state).discovery_devices.value_seq(),
{
    state.add_discovery_device(device);
    Event::DiscoveryList(state.discovery_list())
}

/// Forgets the device filed under the removed service's name and gives the
/// list of every discovered device to announce.  (Devices are filed by
/// address, so only a device whose address equals the name goes.)
pub fn on_service_removed(state: &mut AppState, name: &str) -> (e: Event)
    requires
        old(state).wf(),
    ensures
        final(state).wf(),
        final(state)@ == old(state)@.without_device(name@),
        e matches Event::DiscoveryList(list) && list@ == final(state).discovery_devices.value_seq(),
{
    state.remove_discovery_device(name);
    Event::DiscoveryList(state.discovery_list())
}

} // verus!
