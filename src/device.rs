//! Clients, device handles, the device listing and the resolution of a
//! device from an explicit target or an ambient selector.
use std::collections::HashMap;

use vstd::prelude::*;
use vstd::string::StringExecFns;

use crate::error::{AdbError, SelectorFault};
use crate::selector::selector_command;
use crate::text::{split_on, split_text};

verus! {

/// The characters of each string.
pub open spec fn views(v: Seq<String>) -> Seq<Seq<char>> {
    v.map_values(|s: String| s@)
}

/// The serials of the online devices among listing lines: a line is
/// `<serial>\t<state>`, and a device is online when its state is `device`.
pub open spec fn online_serials_of(lines: Seq<Seq<char>>) -> Seq<Seq<char>>
    decreases lines.len(),
{
    if lines.len() == 0 {
        Seq::empty()
    } else {
        let prev = online_serials_of(lines.drop_last());
        let fields = split_on(lines.last(), '\t');
        if fields.len() == 2 && fields[1] == "device"@ {
            prev.push(fields[0])
        } else {
            prev
        }
    }
}

/// The serials of the online devices of a `host:devices` answer.
pub open spec fn online_serials(listing: Seq<char>) -> Seq<Seq<char>> {
    online_serials_of(split_on(listing, '\n'))
}

/// How many of `serials` equal `selector`.
pub open spec fn count_matching(serials: Seq<Seq<char>>, selector: Seq<char>) -> nat
    decreases serials.len(),
{
    if serials.len() == 0 {
        0
    } else {
        count_matching(serials.drop_last(), selector) + if serials.last() == selector {
            1nat
        } else {
            0nat
        }
    }
}

/// The serial that an ambient selector resolves to among the online
/// devices: it must name exactly one of them.
pub open spec fn resolve_spec(online: Seq<Seq<char>>, selector: Seq<char>) -> Result<
    Seq<char>,
    SelectorFault,
> {
    if selector.len() == 0 {
        Err(SelectorFault::NoTarget)
    } else if count_matching(online, selector) == 0 {
        Err(SelectorFault::NoMatchingDevice)
    } else if count_matching(online, selector) > 1 {
        Err(SelectorFault::AmbiguousDevice)
    } else {
        Ok(selector)
    }
}

/// Where the server is and how long a socket may block.
#[derive(Debug)]
pub struct AdbClient {
    pub host: String,
    pub port: u32,
    /// Read and write deadline in milliseconds; 0 means no deadline.
    pub socket_time_ms: u64,
}

/// How a device is addressed by the commands sent for it.
#[derive(Debug)]
pub struct ShellMixin {
    pub client: AdbClient,
    /// The device's serial; empty for none.
    pub serial: String,
    /// The device's transport id; 0 for none.
    pub transport_id: u32,
    /// Device properties already fetched, by name; `None` until one is.
    pub properties: Option<HashMap<String, String>>,
}

/// A handle to one device.
#[derive(Debug)]
pub struct AdbDevice {
    pub shell_mixin: ShellMixin,
}

/// What resolving a device needs next.
#[derive(Debug)]
pub enum DevicePlan {
    /// The device is known without asking the server.
    Ready(AdbDevice),
    /// The online devices must be listed first.
    NeedListing,
}

impl AdbClient {
    pub open spec fn wf(&self) -> bool {
        self.port <= 65535
    }

    pub fn new(host: String, port: u32, socket_time_ms: u64) -> (r: AdbClient)
        requires
            port <= 65535,
        ensures
            r.wf(),
            r.host@ == host@,
            r.port == port,
            r.socket_time_ms == socket_time_ms,
    {
        AdbClient { host, port, socket_time_ms }
    }

    /// The socket deadline, or `None` where the client blocks without one.
    pub fn deadline_ms(&self) -> (r: Option<u64>)
        ensures
            r is None <==> self.socket_time_ms == 0,
            r matches Some(t) ==> t == self.socket_time_ms,
    {
        if self.socket_time_ms == 0 {
            None
        } else {
            Some(self.socket_time_ms)
        }
    }

    pub open spec fn same_server(&self, other: &AdbClient) -> bool {
        self.host@ == other.host@ && self.port == other.port && self.socket_time_ms
            == other.socket_time_ms
    }

    fn duplicate(&self) -> (r: AdbClient)
        ensures
            r.same_server(self),
    {
        AdbClient { host: self.host.clone(), port: self.port, socket_time_ms: self.socket_time_ms }
    }

    fn device_for(&self, serial: String, transport_id: u32) -> (r: AdbDevice)
        ensures
            r.shell_mixin.client.same_server(self),
            r.shell_mixin.serial@ == serial@,
            r.shell_mixin.transport_id == transport_id,
    {
        AdbDevice { shell_mixin: ShellMixin::new(self.duplicate(), serial, transport_id, None) }
    }

    /// The online devices of a `host:devices` answer, in the order listed.
    pub fn devices_from_listing(&self, listing: &str) -> (r: Vec<AdbDevice>)
        ensures
            r@.len() == online_serials(listing@).len(),
            forall|i: int|
                0 <= i < r@.len() ==> {
                    &&& (#[trigger] r@[i]).shell_mixin.serial@ == online_serials(listing@)[i]
                    &&& r@[i].shell_mixin.transport_id == 0
                    &&& r@[i].shell_mixin.client.same_server(self)
                },
    {
        let serials = parse_device_list(listing);
        let mut r: Vec<AdbDevice> = Vec::new();
        let mut i: usize = 0;
        while i < serials.len()
            invariant
                i <= serials@.len(),
                views(serials@) == online_serials(listing@),
                r@.len() == i,
                forall|j: int|
                    0 <= j < i ==> {
                        &&& (#[trigger] r@[j]).shell_mixin.serial@ == serials@[j]@
                        &&& r@[j].shell_mixin.transport_id == 0
                        &&& r@[j].shell_mixin.client.same_server(self)
                    },
            decreases serials@.len() - i,
        {
            r.push(self.device_for(serials[i].clone(), 0));
            i = i + 1;
        }
        proof {
            assert forall|j: int| 0 <= j < r@.len() implies (#[trigger] r@[j]).shell_mixin.serial@
                == online_serials(listing@)[j] by {
                assert(views(serials@)[j] == serials@[j]@);
            }
        }
        r
    }

    /// The first step of resolving a device. An explicit serial or
    /// transport id gives the device at once. Otherwise a non-empty ambient
    /// selector calls for the device listing, and an empty one gives a
    /// handle with no target, which device commands then refuse.
    pub fn device_plan(&self, serial: &str, transport_id: u32, env_selector: &str) -> (r: DevicePlan)
        ensures
            serial@.len() > 0 || transport_id > 0 ==> (r matches DevicePlan::Ready(d)
                && d.shell_mixin.serial@ == serial@ && d.shell_mixin.transport_id == transport_id
                && d.shell_mixin.client.same_server(self)),
            serial@.len() == 0 && transport_id == 0 && env_selector@.len() > 0 ==> r is NeedListing,
            serial@.len() == 0 && transport_id == 0 && env_selector@.len() == 0 ==> (r matches DevicePlan::Ready(d)
                && d.shell_mixin.serial@.len() == 0 && d.shell_mixin.transport_id == 0
                && d.shell_mixin.client.same_server(self)),
    {
        if !serial.is_empty() || transport_id > 0 {
            DevicePlan::Ready(self.device_for(String::from_str(serial), transport_id))
        } else if !env_selector.is_empty() {
            DevicePlan::NeedListing
        } else {
            DevicePlan::Ready(self.device_for(String::new(), 0))
        }
    }

    /// The second step of resolving a device: the ambient selector must name
    /// exactly one online device of the listing.
    pub fn device_from_listing(&self, env_selector: &str, listing: &str) -> (r: Result<
        AdbDevice,
        AdbError,
    >)
        ensures
            match resolve_spec(online_serials(listing@), env_selector@) {
                Ok(s) => (r matches Ok(d) && d.shell_mixin.serial@ == s
                    && d.shell_mixin.transport_id == 0 && d.shell_mixin.client.same_server(self)),
                Err(f) => (r matches Err(AdbError::SelectorInvariantError { fault }) && fault == f),
            },
    {
        let serials = parse_device_list(listing);
        match resolve_serial(&serials, env_selector) {
            Ok(s) => Ok(self.device_for(s, 0)),
            Err(e) => Err(e),
        }
    }
}

impl ShellMixin {
    pub fn new(
        client: AdbClient,
        serial: String,
        transport_id: u32,
        properties: Option<HashMap<String, String>>,
    ) -> (r: ShellMixin)
        ensures
            r.client == client,
            r.serial == serial,
            r.transport_id == transport_id,
            r.properties == properties,
    {
        ShellMixin { client, serial, transport_id, properties }
    }

    /// The command that opens a transport: nothing for an empty command,
    /// which leaves a bare connection for server commands; otherwise the
    /// command addressed to this device.
    pub fn transport_command(&self, command: &str) -> (r: Result<Option<String>, AdbError>)
        ensures
            command@.len() == 0 ==> r == Ok::<Option<String>, AdbError>(None),
            command@.len() > 0 ==> match crate::selector::selector_spec(
                self.serial@,
                self.transport_id as nat,
                command@,
            ) {
                Ok(t) => (r matches Ok(Some(s)) && s@ == t),
                Err(f) => (r matches Err(AdbError::SelectorInvariantError { fault }) && fault == f),
            },
    {
        if command.is_empty() {
            Ok(None)
        } else {
            match selector_command(self.serial.as_str(), self.transport_id, command) {
                Ok(s) => Ok(Some(s)),
                Err(e) => Err(e),
            }
        }
    }
}

impl AdbDevice {
    /// `AdbDevice(serial=<serial>)`.
    pub fn describe(&self) -> (r: String)
        ensures
            r@ == "AdbDevice(serial="@ + self.shell_mixin.serial@ + ")"@,
    {
        let mut s = String::from_str("AdbDevice(serial=");
        s.append(self.shell_mixin.serial.as_str());
        s.append(")");
        s
    }
}

/// The serials of the online devices of a `host:devices` answer.
pub fn parse_device_list(listing: &str) -> (r: Vec<String>)
    ensures
        views(r@) == online_serials(listing@),
{
    let lines = split_text(listing, '\n');
    let marker = String::from_str("device");
    let mut r: Vec<String> = Vec::new();
    let mut i: usize = 0;
    while i < lines.len()
        invariant
            i <= lines@.len(),
            lines@.len() == split_on(listing@, '\n').len(),
            forall|k: int| 0 <= k < lines@.len() ==> #[trigger] lines@[k]@ == split_on(listing@, '\n')[k],
            marker@ == "device"@,
            views(r@) == online_serials_of(split_on(listing@, '\n').take(i as int)),
        decreases lines@.len() - i,
    {
        let ghost all = split_on(listing@, '\n');
        let fields = split_text(lines[i].as_str(), '\t');
        assert(all.take(i + 1).drop_last() =~= all.take(i as int));
        if fields.len() == 2 && fields[1] == marker {
            let serial = fields[0].clone();
            r.push(serial);
            assert(views(r@) =~= online_serials_of(all.take(i + 1)));
        } else {
            assert(views(r@) =~= online_serials_of(all.take(i + 1)));
        }
        i = i + 1;
    }
    assert(split_on(listing@, '\n').take(i as int) =~= split_on(listing@, '\n'));
    r
}

/// The serial an ambient selector names among the online serials.
pub fn resolve_serial(online: &Vec<String>, selector: &str) -> (r: Result<String, AdbError>)
    ensures
        match resolve_spec(views(online@), selector@) {
            Ok(s) => (r matches Ok(t) && t@ == s),
            Err(f) => (r matches Err(AdbError::SelectorInvariantError { fault }) && fault == f),
        },
{
    if selector.is_empty() {
        return Err(AdbError::SelectorInvariantError { fault: SelectorFault::NoTarget });
    }
    let wanted = String::from_str(selector);
    let mut count: usize = 0;
    let mut i: usize = 0;
    while i < online.len()
        invariant
            i <= online@.len(),
            wanted@ == selector@,
            count == count_matching(views(online@).take(i as int), selector@),
            count <= i,
        decreases online@.len() - i,
    {
        assert(views(online@).take(i + 1).drop_last() =~= views(online@).take(i as int));
        if online[i] == wanted {
            count = count + 1;
        }
        i = i + 1;
    }
    assert(views(online@).take(i as int) =~= views(online@));
    if count == 0 {
        Err(AdbError::SelectorInvariantError { fault: SelectorFault::NoMatchingDevice })
    } else if count > 1 {
        Err(AdbError::SelectorInvariantError { fault: SelectorFault::AmbiguousDevice })
    } else {
        Ok(wanted)
    }
}

/// Resolving against a listing with no online device fails for every
/// non-empty selector: no handle to an absent serial comes out.
pub proof fn lemma_no_online_device_fails(listing: Seq<char>, selector: Seq<char>)
    requires
        online_serials(listing).len() == 0,
        selector.len() > 0,
    ensures
        resolve_spec(online_serials(listing), selector) == Err::<Seq<char>, SelectorFault>(
            SelectorFault::NoMatchingDevice,
        ),
{
    assert(count_matching(online_serials(listing), selector) == 0);
}

/// When exactly one online device matches the selector, resolution gives
/// that device's serial.
pub proof fn lemma_single_match_resolves(online: Seq<Seq<char>>, selector: Seq<char>, i: int)
    requires
        selector.len() > 0,
        0 <= i < online.len(),
        online[i] == selector,
        count_matching(online, selector) == 1,
    ensures
        resolve_spec(online, selector) == Ok::<Seq<char>, SelectorFault>(online[i]),
{
}

proof fn lemma_counted_is_listed(online: Seq<Seq<char>>, selector: Seq<char>)
    requires
        count_matching(online, selector) > 0,
    ensures
        exists|i: int| 0 <= i < online.len() && online[i] == selector,
    decreases online.len(),
{
    if online.last() == selector {
        assert(online[online.len() - 1] == selector);
    } else {
        lemma_counted_is_listed(online.drop_last(), selector);
        let i = choose|i: int| 0 <= i < online.len() - 1 && online.drop_last()[i] == selector;
        assert(online[i] == selector);
    }
}

/// A resolved serial is always the serial of a listed online device.
pub proof fn lemma_resolved_serial_is_listed(online: Seq<Seq<char>>, selector: Seq<char>)
    requires
        resolve_spec(online, selector) is Ok,
    ensures
        exists|i: int| 0 <= i < online.len() && online[i] == resolve_spec(online, selector)->Ok_0,
{
    lemma_counted_is_listed(online, selector);
}

} // verus!
