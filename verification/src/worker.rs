//! The host-side discovery channel: the worker's scan state machine, the
//! registry of discovered controllers (deduplicated by address), the
//! status feed the caller polls, and the per-controller command helpers.
//!
//! All serial I/O stays with the caller: the worker decides which port to
//! probe next and what each probe outcome does to the registry; the
//! controller helpers compute the requests to send.

use vstd::prelude::*;
use crate::color::{color_u32, RGBLedColor};
use crate::commands::{enc_hex, hex_string};
use crate::params::ParameterTypes;
use crate::strutil::str_eq;
use crate::wire::{ReqView, Request};

verus! {

broadcast use vstd::string::group_string_axioms;

/// A command for the worker thread.
#[derive(Clone, Copy, Debug, PartialEq, Eq, Structural)]
pub enum Command {
    ProbeControllersOnSerials,
}

/// Progress of the discovery cycle, as the caller observes it.
#[derive(Clone, Debug, PartialEq)]
pub enum ChannelStatus {
    Idle,
    ProbingControllers(String),
    NoControllers,
    Done,
}

/// The mathematical shape of a status.
pub enum StatusView {
    Idle,
    ProbingControllers(Seq<char>),
    NoControllers,
    Done,
}

impl View for ChannelStatus {
    type V = StatusView;

    open spec fn view(&self) -> StatusView {
        match self {
            ChannelStatus::Idle => StatusView::Idle,
            ChannelStatus::ProbingControllers(a) => StatusView::ProbingControllers(a@),
            ChannelStatus::NoControllers => StatusView::NoControllers,
            ChannelStatus::Done => StatusView::Done,
        }
    }
}

impl ChannelStatus {
    /// An equal status value (the address string copied).
    pub fn duplicate(&self) -> (r: ChannelStatus)
        ensures
            r@ == self@,
    {
        match self {
            ChannelStatus::Idle => ChannelStatus::Idle,
            ChannelStatus::ProbingControllers(a) => ChannelStatus::ProbingControllers(a.clone()),
            ChannelStatus::NoControllers => ChannelStatus::NoControllers,
            ChannelStatus::Done => ChannelStatus::Done,
        }
    }

    /// The status as a line for a human, as the caller's footer shows it.
    pub fn describe(&self) -> (r: String)
        ensures
            match self@ {
                StatusView::Idle => r@ == "Idle"@,
                StatusView::ProbingControllers(a) => r@ == "Probing controller on address: "@ + a,
                StatusView::NoControllers => r@
                    == "No COM/Serial Ports controllers are present in system"@,
                StatusView::Done => r@ == "Done"@,
            },
    {
        match self {
            ChannelStatus::Idle => "Idle".to_owned(),
            ChannelStatus::ProbingControllers(a) => {
                let mut r = "Probing controller on address: ".to_owned();
                r.append(a.as_str());
                r
            },
            ChannelStatus::NoControllers => {
                "No COM/Serial Ports controllers are present in system".to_owned()
            },
            ChannelStatus::Done => "Done".to_owned(),
        }
    }
}

/// Position of the first element of `l` equal to `name`.
pub open spec fn spec_position(l: Seq<Seq<char>>, name: Seq<char>) -> Option<int>
    decreases l.len(),
{
    if l.len() == 0 {
        None
    } else if l[0] == name {
        Some(0)
    } else {
        match spec_position(l.drop_first(), name) {
            Some(i) => Some(i + 1),
            None => None,
        }
    }
}

/// The index an effect name resolves to: its position in the list, or 0
/// where the name is absent — the fallback the protocol has always had.
pub open spec fn resolve_index(l: Seq<Seq<char>>, name: Seq<char>) -> int {
    match spec_position(l, name) {
        Some(i) => i,
        None => 0,
    }
}

/// A first match at `i` is the position found.
proof fn lemma_position_found(l: Seq<Seq<char>>, i: int, name: Seq<char>)
    requires
        0 <= i < l.len(),
        forall|j: int| 0 <= j < i ==> l[j] != name,
        l[i] == name,
    ensures
        spec_position(l, name) == Some(i),
    decreases i,
{
    if i > 0 {
        lemma_position_found(l.drop_first(), i - 1, name);
    }
}

/// No match anywhere means no position.
proof fn lemma_position_none(l: Seq<Seq<char>>, name: Seq<char>)
    requires
        forall|j: int| 0 <= j < l.len() ==> l[j] != name,
    ensures
        spec_position(l, name) is None,
    decreases l.len(),
{
    if l.len() > 0 {
        lemma_position_none(l.drop_first(), name);
    }
}

/// One discovered device, as the host remembers it.
#[derive(Debug)]
pub struct Controller {
    /// The device's reported name.
    pub name: String,
    /// The serial port identifier the device was found on; the registry's
    /// dedup key.
    pub address: String,
    /// The device's parameter listing, refreshed wholesale.
    pub options: Vec<(String, ParameterTypes)>,
    /// The device's effects, in its order.
    pub effect_list: Vec<String>,
    /// The effect the host believes is selected.
    pub selected_effect: String,
}

impl Controller {
    /// The selected effect's name, as a sequence.
    pub open spec fn selected(self) -> Seq<char> {
        self.selected_effect@
    }

    /// The effect names, as sequences.
    pub open spec fn effect_names(self) -> Seq<Seq<char>> {
        self.effect_list@.map_values(|s: String| s@)
    }

    /// The selected effect's name.
    pub fn get_effect(&self) -> (r: String)
        ensures
            r@ == self.selected(),
    {
        self.selected_effect.clone()
    }

    /// Selects an effect by name and yields the request to send: the
    /// name's position in the effect list, or index 0 where the name is
    /// absent. The caller sends the request and then refreshes the
    /// options with `refresh_options`, whatever the device answered.
    pub fn set_effect(&mut self, effect_name: &str) -> (r: Request)
        ensures
            final(self).selected() == effect_name@,
            final(self).name == old(self).name,
            final(self).address == old(self).address,
            final(self).options == old(self).options,
            final(self).effect_list == old(self).effect_list,
            r@ == ReqView::SetEffect(resolve_index(old(self).effect_names(), effect_name@)),
    {
        self.selected_effect = effect_name.to_owned();
        let mut i: usize = 0;
        let ghost names = self.effect_names();
        while i < self.effect_list.len()
            invariant
                i <= self.effect_list@.len(),
                names == self.effect_names(),
                names.len() == self.effect_list@.len(),
                self.name == old(self).name,
                self.address == old(self).address,
                self.options == old(self).options,
                self.effect_list == old(self).effect_list,
                self.selected_effect@ == effect_name@,
                forall|j: int| 0 <= j < i ==> names[j] != effect_name@,
            decreases self.effect_list@.len() - i,
        {
            if str_eq(self.effect_list[i].as_str(), effect_name) {
                proof {
                    lemma_position_found(names, i as int, effect_name@);
                }
                return Request::SetEffect(i);
            }
            i = i + 1;
        }
        proof {
            lemma_position_none(names, effect_name@);
        }
        Request::SetEffect(0)
    }

    /// Overwrites the local options wholesale with what the device
    /// reported; no merge with the previous values.
    pub fn refresh_options(&mut self, options: Vec<(String, ParameterTypes)>)
        ensures
            final(self).options == options,
            final(self).name == old(self).name,
            final(self).address == old(self).address,
            final(self).effect_list == old(self).effect_list,
            final(self).selected() == old(self).selected(),
    {
        self.options = options;
    }

    /// The looser textual command of the older protocol revision: one
    /// line setting the color directly, no response expected. The caller
    /// writes it with a short timeout and no retry.
    pub fn apply_color(&self, color: RGBLedColor) -> (r: String)
        ensures
            r@ == "color "@ + enc_hex(color_u32(color)) + seq!['\n'],
    {
        proof {
            reveal_strlit("color ");
            reveal_strlit("\n");
        }
        let mut r = "color ".to_owned();
        let hx = hex_string(color.to_u32());
        r.append(hx.as_str());
        r.append("\n");
        proof {
            assert(r@ =~= "color "@ + enc_hex(color_u32(color)) + seq!['\n']);
        }
        r
    }

    /// One `SetOption` request per local option, in order; the caller
    /// sends them sequentially and drops the rest if the device vanishes.
    pub fn set_options(&self) -> (r: Vec<Request>)
        ensures
            r@.len() == self.options@.len(),
            forall|i: int|
                0 <= i < r@.len() ==> (#[trigger] r@[i])@ == ReqView::SetOption(
                    self.options@[i].0@,
                    self.options@[i].1,
                ),
    {
        let mut r: Vec<Request> = Vec::new();
        let mut i: usize = 0;
        while i < self.options.len()
            invariant
                i <= self.options@.len(),
                r@.len() == i,
                forall|j: int|
                    0 <= j < i ==> (#[trigger] r@[j])@ == ReqView::SetOption(
                        self.options@[j].0@,
                        self.options@[j].1,
                    ),
            decreases self.options@.len() - i,
        {
            let e = &self.options[i];
            r.push(Request::SetOption(e.0.clone(), e.1));
            i = i + 1;
        }
        r
    }
}

/// Assembles a controller from the four handshake replies; the probe
/// succeeds only if every step answered.
pub fn probe_controller_on_serial_port(
    address: String,
    name: Option<String>,
    options: Option<Vec<(String, ParameterTypes)>>,
    selected_effect: Option<String>,
    effect_list: Option<Vec<String>>,
) -> (r: Option<Controller>)
    ensures
        r is Some <==> (name is Some && options is Some && selected_effect is Some
            && effect_list is Some),
        r matches Some(c) ==> {
            &&& name matches Some(n) && c.name == n
            &&& options matches Some(o) && c.options == o
            &&& selected_effect matches Some(s) && c.selected() == s@
            &&& effect_list matches Some(l) && c.effect_list == l
            &&& c.address == address
        },
{
    let name = match name {
        Some(n) => n,
        None => {
            return None;
        },
    };
    let options = match options {
        Some(o) => o,
        None => {
            return None;
        },
    };
    let selected_effect = match selected_effect {
        Some(s) => s,
        None => {
            return None;
        },
    };
    let effect_list = match effect_list {
        Some(l) => l,
        None => {
            return None;
        },
    };
    Some(Controller { name, address, options, effect_list, selected_effect })
}

/// Whether some registry entry carries this address.
pub open spec fn has_address(reg: Seq<Controller>, a: Seq<char>) -> bool {
    exists|i: int| 0 <= i < reg.len() && (#[trigger] reg[i]).address@ == a
}

/// No two registry entries share an address.
pub open spec fn unique_addresses(reg: Seq<Controller>) -> bool {
    forall|i: int, j: int|
        0 <= i < j < reg.len() ==> (#[trigger] reg[i]).address@ != (#[trigger] reg[j]).address@
}

/// What one probe outcome does to the registry: a successful probe of a
/// new address appends its controller; a known address or a failed probe
/// changes nothing.
pub open spec fn spec_record(reg: Seq<Controller>, probe: Option<Controller>) -> Seq<Controller> {
    match probe {
        Some(c) => if has_address(reg, c.address@) {
            reg
        } else {
            reg.push(c)
        },
        None => reg,
    }
}

/// Recording keeps the addresses unique.
pub proof fn lemma_record_keeps_unique(reg: Seq<Controller>, probe: Option<Controller>)
    requires
        unique_addresses(reg),
    ensures
        unique_addresses(spec_record(reg, probe)),
{
    match probe {
        Some(c) => {
            if !has_address(reg, c.address@) {
                assert forall|i: int, j: int| 0 <= i < j < reg.push(c).len() implies (
                #[trigger] reg.push(c)[i]).address@ != (#[trigger] reg.push(c)[j]).address@ by {
                    if j == reg.len() {
                        assert(reg[i].address@ != c.address@);
                    }
                }
            }
        },
        None => {},
    }
}

/// Probing the same address twice leaves one entry: whatever the first
/// probe did, a second probe of that address changes nothing.
pub proof fn lemma_probe_twice_adds_once(reg: Seq<Controller>, c1: Controller, c2: Controller)
    requires
        c2.address@ == c1.address@,
    ensures
        spec_record(spec_record(reg, Some(c1)), Some(c2)) == spec_record(reg, Some(c1)),
{
    let after = spec_record(reg, Some(c1));
    if has_address(reg, c1.address@) {
        assert(after == reg);
    } else {
        assert(after == reg.push(c1));
        assert(after[reg.len() as int].address@ == c2.address@);
        assert(has_address(after, c2.address@));
    }
}

/// The worker's side of discovery: the registry and the scan in
/// progress. Exactly one worker owns a value of this; ports are probed
/// strictly in sequence.
pub struct ControlWorker {
    registry: Vec<Controller>,
    ports: Vec<String>,
    next_port: usize,
    scanning: bool,
}

impl ControlWorker {
    /// The discovered controllers, in discovery order.
    pub closed spec fn registry(self) -> Seq<Controller> {
        self.registry@
    }

    /// The ports of the scan in progress.
    pub closed spec fn ports(self) -> Seq<Seq<char>> {
        self.ports@.map_values(|s: String| s@)
    }

    /// Index of the next port to probe.
    pub closed spec fn next_port(self) -> int {
        self.next_port as int
    }

    /// Whether a scan is in progress.
    pub closed spec fn scanning(self) -> bool {
        self.scanning
    }

    /// The registry never holds two entries for one address, and the
    /// scan cursor stays within the port list.
    pub open spec fn wf(self) -> bool {
        &&& unique_addresses(self.registry())
        &&& self.next_port() <= self.ports().len()
    }

    /// A fresh worker: empty registry, no scan.
    pub fn new() -> (w: Self)
        ensures
            w.wf(),
            w.registry() == Seq::<Controller>::empty(),
            !w.scanning(),
    {
        ControlWorker { registry: Vec::new(), ports: Vec::new(), next_port: 0, scanning: false }
    }

    /// Begins a scan over the given ports; the registry is kept — known
    /// controllers are never removed, even if their device is gone.
    pub fn start_scan(&mut self, ports: Vec<String>)
        requires
            old(self).wf(),
        ensures
            final(self).wf(),
            final(self).scanning(),
            final(self).ports() == ports@.map_values(|s: String| s@),
            final(self).next_port() == 0,
            final(self).registry() == old(self).registry(),
    {
        self.ports = ports;
        self.next_port = 0;
        self.scanning = true;
    }

    /// The port the worker probes next, and the status to publish for
    /// it; `None` once every port of the scan was handled.
    pub fn current_target(&self) -> (r: Option<(String, ChannelStatus)>)
        requires
            self.scanning(),
        ensures
            match r {
                Some((p, st)) => self.next_port() < self.ports().len() && p@
                    == self.ports()[self.next_port()] && st@ == StatusView::ProbingControllers(p@),
                None => self.next_port() >= self.ports().len(),
            },
    {
        if self.next_port < self.ports.len() {
            let p = self.ports[self.next_port].clone();
            let st = ChannelStatus::ProbingControllers(self.ports[self.next_port].clone());
            Some((p, st))
        } else {
            None
        }
    }

    /// Takes one probe's outcome for the current port: a new address is
    /// appended to the registry, a known one is left untouched (no
    /// refresh on rediscovery), a failed probe is skipped. The scan moves
    /// to the next port.
    pub fn record_result(&mut self, probe: Option<Controller>)
        requires
            old(self).wf(),
            old(self).scanning(),
            old(self).next_port() < old(self).ports().len(),
        ensures
            final(self).wf(),
            final(self).registry() == spec_record(old(self).registry(), probe),
            final(self).next_port() == old(self).next_port() + 1,
            final(self).ports() == old(self).ports(),
            final(self).scanning(),
    {
        proof {
            lemma_record_keeps_unique(self.registry@, probe);
        }
        match probe {
            Some(c) => {
                let mut i: usize = 0;
                let mut known = false;
                while i < self.registry.len()
                    invariant
                        i <= self.registry@.len(),
                        self.registry@ == old(self).registry@,
                        self.next_port == old(self).next_port,
                        self.ports@ == old(self).ports@,
                        self.scanning == old(self).scanning,
                        known <==> exists|j: int|
                            0 <= j < i && (#[trigger] self.registry@[j]).address@ == c.address@,
                    decreases self.registry@.len() - i,
                {
                    if str_eq(self.registry[i].address.as_str(), c.address.as_str()) {
                        known = true;
                    }
                    i = i + 1;
                }
                if known {
                    assert(has_address(self.registry@, c.address@));
                } else {
                    assert(!has_address(self.registry@, c.address@));
                    self.registry.push(c);
                }
            },
            None => {},
        }
        let port_count = self.ports.len();
        proof {
            assert(self.ports().len() == self.ports@.len());
            assert(self.next_port < port_count);
        }
        self.next_port = self.next_port + 1;
    }

    /// Ends the scan, yielding the status to publish: `Done` if anything
    /// was ever discovered, `NoControllers` otherwise.
    pub fn finish_scan(&mut self) -> (st: ChannelStatus)
        requires
            old(self).wf(),
            old(self).scanning(),
            old(self).next_port() >= old(self).ports().len(),
        ensures
            final(self).wf(),
            !final(self).scanning(),
            final(self).registry() == old(self).registry(),
            st@ == if old(self).registry().len() > 0 {
                StatusView::Done
            } else {
                StatusView::NoControllers
            },
    {
        self.scanning = false;
        if self.registry.len() > 0 {
            ChannelStatus::Done
        } else {
            ChannelStatus::NoControllers
        }
    }

    /// The registry as it stands.
    pub fn controllers(&self) -> (r: &Vec<Controller>)
        ensures
            r@ == self.registry(),
    {
        &self.registry
    }
}

/// The caller's end of the channel: the cached status, fed by the
/// worker's messages one at a time.
pub struct ControlChannel {
    last_status: ChannelStatus,
}

impl ControlChannel {
    /// The most recently observed status.
    pub closed spec fn last_status(self) -> ChannelStatus {
        self.last_status
    }

    /// Before any discovery the channel is idle.
    pub fn new() -> (c: Self)
        ensures
            c.last_status()@ is Idle,
    {
        ControlChannel { last_status: ChannelStatus::Idle }
    }

    /// The command a discovery wish enqueues for the worker; enqueueing
    /// never blocks the caller.
    pub fn discover_controllers(&self) -> (r: Command)
        ensures
            r == Command::ProbeControllersOnSerials,
    {
        Command::ProbeControllersOnSerials
    }

    /// One non-blocking poll: at most one newly arrived message (handed
    /// in by the caller) replaces the cache; with none, the cached status
    /// stands.
    pub fn status(&mut self, incoming: Option<ChannelStatus>) -> (r: ChannelStatus)
        ensures
            match incoming {
                Some(st) => final(self).last_status()@ == st@ && r@ == st@,
                None => final(self).last_status() == old(self).last_status() && r@ == old(
                    self,
                ).last_status()@,
            },
    {
        if let Some(st) = incoming {
            self.last_status = st;
        }
        self.last_status.duplicate()
    }

    /// Acknowledges a terminal status: the channel returns to idle until
    /// the next discovery.
    pub fn acknown_status(&mut self)
        ensures
            final(self).last_status()@ is Idle,
    {
        self.last_status = ChannelStatus::Idle;
    }
}

} // verus!
