use crate::elf2ble::{wire_bytes, BleCommand, Cmd, OutputFormat, SinkError};
use vstd::pervasive::unreached;
use vstd::prelude::*;

verus! {

/// Renders a command into its fixed-format wire instruction.
pub fn wire_instruction(cmd: &BleCommand) -> (r: Vec<u8>)
    ensures
        r@ == wire_bytes(cmd@),
{
    match cmd {
        BleCommand::Start => {
            let mut w: Vec<u8> = Vec::new();
            w.push(2u8);
            proof {
                assert(w@ =~= wire_bytes(cmd@));
            }
            w
        },
        BleCommand::Write { offset, data } => {
            let mut w: Vec<u8> = Vec::new();
            w.push(3u8);
            w.push((*offset % 256) as u8);
            w.push((*offset / 256) as u8);
            let ghost head = w@;
            let mut i: usize = 0;
            proof {
                assert(w@ =~= head + data@.take(0));
            }
            while i < data.len()
                invariant
                    i <= data@.len(),
                    w@ == head + data@.take(i as int),
                decreases data@.len() - i,
            {
                w.push(data[i]);
                proof {
                    assert(head + data@.take(i + 1) =~= (head + data@.take(i as int)).push(
                        data@[i as int],
                    ));
                }
                i = i + 1;
            }
            proof {
                assert(data@.take(data@.len() as int) =~= data@);
                assert(w@ =~= wire_bytes(cmd@));
            }
            w
        },
        BleCommand::Commit { crc } => {
            let mut w: Vec<u8> = Vec::new();
            w.push(4u8);
            w.push((*crc % 256) as u8);
            w.push((*crc / 256) as u8);
            proof {
                assert(w@ =~= wire_bytes(cmd@));
            }
            w
        },
        BleCommand::Run { crc } => {
            let mut w: Vec<u8> = Vec::new();
            w.push(5u8);
            w.push((*crc % 256) as u8);
            w.push((*crc / 256) as u8);
            proof {
                assert(w@ =~= wire_bytes(cmd@));
            }
            w
        },
    }
}

/// The direct-delivery sink: renders each command into its wire instruction
/// and collects the instructions in order, for transmission over the radio.
/// Its byte budget stays below the transport's negotiated write size.
pub struct BleOutput {
    writes: Vec<Vec<u8>>,
    cmds: Ghost<Seq<Cmd>>,
}

impl BleOutput {
    pub fn new() -> (r: BleOutput)
        ensures
            r.inv(),
            r.consumed() == Seq::<Cmd>::empty(),
            r.mtu_spec() == 124,
    {
        let r = BleOutput { writes: Vec::new(), cmds: Ghost(Seq::empty()) };
        proof {
            assert(r.writes.deep_view() =~= r.cmds@.map_values(|c: Cmd| wire_bytes(c)));
        }
        r
    }
}

impl OutputFormat for BleOutput {
    type Error = SinkError;

    type Finish = Vec<Vec<u8>>;

    closed spec fn inv(&self) -> bool {
        self.writes.deep_view() == self.cmds@.map_values(|c: Cmd| wire_bytes(c))
    }

    closed spec fn consumed(&self) -> Seq<Cmd> {
        self.cmds@
    }

    open spec fn mtu_spec(&self) -> usize {
        124
    }

    /// Each consumed command stands in the output as its wire instruction,
    /// in order.
    open spec fn finish_rel(cmds: Seq<Cmd>, f: Vec<Vec<u8>>) -> bool {
        f.deep_view() == cmds.map_values(|c: Cmd| wire_bytes(c))
    }

    fn mtu(&self) -> (r: usize) {
        124
    }

    fn write_cmd(&mut self, cmd: &BleCommand) -> (r: Result<(), SinkError>)
        ensures
            r is Ok,
    {
        let w = wire_instruction(cmd);
        let ghost wdv = w.deep_view();
        let ghost wv = w@;
        self.writes.push(w);
        proof {
            let f = |c: Cmd| wire_bytes(c);
            assert(wdv =~= wv);
            assert(self.writes.deep_view() =~~= old(self).writes.deep_view().push(
                wire_bytes(cmd@),
            ));
            assert(old(self).cmds@.push(cmd@).map_values(f) =~~= old(self).cmds@.map_values(
                f,
            ).push(f(cmd@)));
        }
        self.cmds = Ghost(self.cmds@.push(cmd@));
        Ok(())
    }

    fn finish(self) -> (r: Result<Vec<Vec<u8>>, SinkError>)
        ensures
            r is Ok,
    {
        Ok(self.writes)
    }
}

/// The fixed UUID of the application service on the target device.
pub const APP_SERVICE_UUID: &'static str = "a2773100-e035-13ae-4647-0e0437dd272a";

/// The fixed UUID of the programming characteristic within that service.
pub const PROG_CHAR_UUID: &'static str = "a2773101-e035-13ae-4647-0e0437dd272a";

/// What `uuid::Uuid::parse_str` makes of a string: the parse depends on the
/// characters alone.
pub uninterp spec fn uuid_parsed(s: Seq<char>) -> Option<u128>;

/// Relies on uuid::Uuid::parse_str to read a UUID string, and on
/// Uuid::as_u128 to hand the value over as a plain integer.
#[verifier::external_body]
fn parse_uuid(s: &str) -> (r: Option<u128>)
    ensures
        r == uuid_parsed(s@),
{
    match uuid::Uuid::parse_str(s) {
        Ok(u) => Some(u.as_u128()),
        Err(_) => None,
    }
}

/// The application service UUID and the programming characteristic UUID as
/// 128-bit values; `None` only if the UUID parser rejected a fixed literal.
pub fn target_uuids() -> (r: Option<(u128, u128)>)
    ensures
        r == match (uuid_parsed(APP_SERVICE_UUID@), uuid_parsed(PROG_CHAR_UUID@)) {
            (Some(s), Some(c)) => Some((s, c)),
            _ => None::<(u128, u128)>,
        },
{
    let svc = parse_uuid(APP_SERVICE_UUID);
    let prog = parse_uuid(PROG_CHAR_UUID);
    match (svc, prog) {
        (Some(s), Some(c)) => Some((s, c)),
        _ => None,
    }
}

/// A peripheral's advertised identity, as a scan reports it: an optional
/// local name and the hardware address packed into the low 48 bits.
pub struct Advertisement {
    pub name: Option<String>,
    pub mac: u64,
}

/// The advertised name as a mathematical value.
pub open spec fn adv_name_view(name: Option<String>) -> Option<Seq<char>> {
    match name {
        Some(n) => Some(n@),
        None => None,
    }
}

/// The operator's device selector: an optional advertised name and an
/// optional hardware address. At least one must be supplied.
pub struct DeviceFilter {
    pub name: Option<String>,
    pub mac: Option<u64>,
}

impl DeviceFilter {
    /// At least one of name and address is present; a selector with both
    /// absent is rejected before the uploader ever runs.
    pub open spec fn wf(&self) -> bool {
        self.name is Some || self.mac is Some
    }

    /// A field that is absent matches unconditionally; both fields, when
    /// present, must match.
    pub open spec fn matches(&self, name: Seq<char>, mac: u64) -> bool {
        &&& (self.name matches Some(n) ==> n@ == name)
        &&& (self.mac matches Some(m) ==> m == mac)
    }

    /// Build a selector; one with both fields absent is refused.
    pub fn new(name: Option<String>, mac: Option<u64>) -> (r: Option<DeviceFilter>)
        ensures
            r is Some <==> (name is Some || mac is Some),
            r matches Some(f) ==> f.name == name && f.mac == mac && f.wf(),
    {
        if name.is_none() && mac.is_none() {
            None
        } else {
            Some(DeviceFilter { name, mac })
        }
    }
}

/// Whether a discovered peripheral is selected: one without an advertised
/// name cannot match; otherwise the filter decides.
pub open spec fn selects(f: DeviceFilter, adv_name: Option<Seq<char>>, mac: u64) -> bool {
    match adv_name {
        Some(n) => f.matches(n, mac),
        None => false,
    }
}

/// Apply the candidate filter to an advertisement.
pub fn filter_selects(f: &DeviceFilter, adv: &Advertisement) -> (r: bool)
    ensures
        r == selects(*f, adv_name_view(adv.name), adv.mac),
{
    let name = match &adv.name {
        Some(n) => n,
        None => {
            return false;
        },
    };
    let name_ok = match &f.name {
        Some(fname) => *fname == *name,
        None => true,
    };
    let mac_ok = match f.mac {
        Some(m) => m == adv.mac,
        None => true,
    };
    name_ok && mac_ok
}

/// A characteristic of a discovered GATT service.
pub struct GattCharacteristic {
    pub uuid: u128,
}

/// A discovered GATT service with its child characteristics.
pub struct GattService {
    pub uuid: u128,
    pub characteristics: Vec<GattCharacteristic>,
}

/// The index of the first service carrying the UUID, if any.
pub open spec fn first_service_index(svcs: Seq<GattService>, uuid: u128) -> Option<int>
    decreases svcs.len(),
{
    if svcs.len() == 0 {
        None
    } else if svcs[0].uuid == uuid {
        Some(0int)
    } else {
        match first_service_index(svcs.drop_first(), uuid) {
            Some(i) => Some(i + 1),
            None => None,
        }
    }
}

/// The index of the first characteristic carrying the UUID, if any.
pub open spec fn first_characteristic_index(chs: Seq<GattCharacteristic>, uuid: u128) -> Option<
    int,
>
    decreases chs.len(),
{
    if chs.len() == 0 {
        None
    } else if chs[0].uuid == uuid {
        Some(0int)
    } else {
        match first_characteristic_index(chs.drop_first(), uuid) {
            Some(i) => Some(i + 1),
            None => None,
        }
    }
}

/// An index option shifted by a distance.
pub open spec fn shift_index(o: Option<int>, d: int) -> Option<int> {
    match o {
        Some(i) => Some(i + d),
        None => None,
    }
}

/// The first service carrying the UUID, if any.
pub fn find_service(services: &Vec<GattService>, uuid: u128) -> (r: Option<usize>)
    ensures
        match r {
            Some(i) => first_service_index(services@, uuid) == Some(i as int) && i
                < services@.len(),
            None => first_service_index(services@, uuid) is None,
        },
{
    let mut i: usize = 0;
    proof {
        assert(services@.skip(0) =~= services@);
    }
    while i < services.len()
        invariant
            i <= services@.len(),
            first_service_index(services@, uuid) == shift_index(
                first_service_index(services@.skip(i as int), uuid),
                i as int,
            ),
        decreases services@.len() - i,
    {
        proof {
            assert(services@.skip(i as int)[0] == services@[i as int]);
            assert(services@.skip(i as int).drop_first() =~= services@.skip(i as int + 1));
        }
        if services[i].uuid == uuid {
            return Some(i);
        }
        i = i + 1;
    }
    None
}

/// The first characteristic of the service carrying the UUID, if any.
pub fn find_characteristic(service: &GattService, uuid: u128) -> (r: Option<usize>)
    ensures
        match r {
            Some(i) => first_characteristic_index(service.characteristics@, uuid) == Some(
                i as int,
            ) && i < service.characteristics@.len(),
            None => first_characteristic_index(service.characteristics@, uuid) is None,
        },
{
    let chs = &service.characteristics;
    let mut i: usize = 0;
    proof {
        assert(chs@.skip(0) =~= chs@);
    }
    while i < chs.len()
        invariant
            i <= chs@.len(),
            chs == &service.characteristics,
            first_characteristic_index(chs@, uuid) == shift_index(
                first_characteristic_index(chs@.skip(i as int), uuid),
                i as int,
            ),
        decreases chs@.len() - i,
    {
        proof {
            assert(chs@.skip(i as int)[0] == chs@[i as int]);
            assert(chs@.skip(i as int).drop_first() =~= chs@.skip(i as int + 1));
        }
        if chs[i].uuid == uuid {
            return Some(i);
        }
        i = i + 1;
    }
    None
}

/// Where the delivery procedure stands. Indices name the adapter and the
/// peripheral under consideration; `written` counts acknowledged
/// instructions.
#[derive(Clone, Copy, Debug, PartialEq, Eq, Structural)]
pub enum UploadState {
    /// About to start a scan on this adapter.
    Scanning { adapter: usize },
    /// Considering one peripheral of those the scan discovered.
    Considering { adapter: usize, peripheral: usize, n_peripherals: usize },
    /// Connecting to the selected peripheral.
    Connecting { adapter: usize, peripheral: usize, n_peripherals: usize },
    /// Waiting for service discovery on the connected peripheral.
    Discovering { adapter: usize, peripheral: usize, n_peripherals: usize },
    /// Delivering instructions to the located characteristic, one at a
    /// time, each acknowledged before the next.
    Writing {
        adapter: usize,
        peripheral: usize,
        n_peripherals: usize,
        svc: usize,
        chr: usize,
        written: usize,
    },
    /// Best-effort disconnect; `delivered` tells whether every instruction
    /// was acknowledged.
    Cleanup { adapter: usize, peripheral: usize, n_peripherals: usize, delivered: bool },
    /// The run is over.
    Done { success: bool },
}

/// What the driver must do next.
#[derive(Clone, Copy, Debug, PartialEq, Eq, Structural)]
pub enum UploadAction {
    /// Start an unfiltered scan on the adapter, wait the settle time, then
    /// report how many peripherals were discovered.
    Scan { adapter: usize },
    /// Read the advertisement of the peripheral.
    ReadAdvertisement { adapter: usize, peripheral: usize },
    /// Connect to it, then wait the settle time before discovery.
    Connect { adapter: usize, peripheral: usize },
    /// Discover its services.
    DiscoverServices { adapter: usize, peripheral: usize },
    /// Write instruction `index` to the characteristic, acknowledged.
    WriteInstruction { adapter: usize, peripheral: usize, svc: usize, chr: usize, index: usize },
    /// Disconnect if still connected, best-effort.
    Disconnect { adapter: usize, peripheral: usize },
    /// Report the outcome and stop.
    Report { success: bool },
}

/// What the driver observed.
pub enum UploadEvent {
    /// The scan ended; this many peripherals were discovered.
    Scanned { n_peripherals: usize },
    /// The advertisement of the current peripheral.
    Advertised { adv: Advertisement },
    /// The connection attempt succeeded or failed.
    Connected { ok: bool },
    /// Service discovery produced these services, or failed.
    Discovered { services: Option<Vec<GattService>> },
    /// The acknowledged write succeeded or failed.
    Written { ok: bool },
    /// The disconnect cleanup finished.
    Disconnected,
}

/// The delivery procedure: find a target device among nearby peripherals,
/// across all adapters, and play the rendered command stream into it. The
/// struct holds what the decisions depend on; the driver owns the radio.
pub struct Uploader {
    pub filter: DeviceFilter,
    pub n_adapters: usize,
    pub n_writes: usize,
    pub svc_uuid: u128,
    pub chr_uuid: u128,
}

/// Which events a state awaits; the driver answers each action with the
/// matching event.
pub open spec fn expects(state: UploadState, event: UploadEvent) -> bool {
    match (state, event) {
        (UploadState::Scanning { .. }, UploadEvent::Scanned { .. }) => true,
        (UploadState::Considering { .. }, UploadEvent::Advertised { .. }) => true,
        (UploadState::Connecting { .. }, UploadEvent::Connected { .. }) => true,
        (UploadState::Discovering { .. }, UploadEvent::Discovered { .. }) => true,
        (UploadState::Writing { .. }, UploadEvent::Written { .. }) => true,
        (UploadState::Cleanup { .. }, UploadEvent::Disconnected) => true,
        _ => false,
    }
}

impl Uploader {
    /// The state's indices stay within this run's bounds.
    pub open spec fn state_wf(&self, state: UploadState) -> bool {
        match state {
            UploadState::Scanning { adapter } => adapter < self.n_adapters,
            UploadState::Considering { adapter, peripheral, n_peripherals } => adapter
                < self.n_adapters && peripheral < n_peripherals,
            UploadState::Connecting { adapter, peripheral, n_peripherals } => adapter
                < self.n_adapters && peripheral < n_peripherals,
            UploadState::Discovering { adapter, peripheral, n_peripherals } => adapter
                < self.n_adapters && peripheral < n_peripherals,
            UploadState::Writing { adapter, peripheral, n_peripherals, svc, chr, written } =>
                adapter < self.n_adapters && peripheral < n_peripherals && written
                    < self.n_writes,
            UploadState::Cleanup { adapter, peripheral, n_peripherals, delivered } => adapter
                < self.n_adapters && peripheral < n_peripherals,
            UploadState::Done { .. } => true,
        }
    }

    /// Move to the next candidate: the peripheral `peripheral` on the
    /// current adapter if one is left, else the next adapter, else give up.
    pub open spec fn next_candidate_spec(
        &self,
        adapter: usize,
        peripheral: usize,
        n_peripherals: usize,
    ) -> (UploadState, UploadAction) {
        if peripheral < n_peripherals {
            (
                UploadState::Considering { adapter, peripheral, n_peripherals },
                UploadAction::ReadAdvertisement { adapter, peripheral },
            )
        } else if adapter + 1 < self.n_adapters {
            (
                UploadState::Scanning { adapter: (adapter + 1) as usize },
                UploadAction::Scan { adapter: (adapter + 1) as usize },
            )
        } else {
            (UploadState::Done { success: false }, UploadAction::Report { success: false })
        }
    }

    /// The decision table of the delivery procedure, one transition per
    /// awaited event.
    pub open spec fn step_spec(&self, state: UploadState, event: UploadEvent) -> (
        UploadState,
        UploadAction,
    ) {
        match (state, event) {
            (
                UploadState::Scanning { adapter },
                UploadEvent::Scanned { n_peripherals },
            ) => self.next_candidate_spec(adapter, 0, n_peripherals),
            (
                UploadState::Considering { adapter, peripheral, n_peripherals },
                UploadEvent::Advertised { adv },
            ) => {
                if selects(self.filter, adv_name_view(adv.name), adv.mac) {
                    (
                        UploadState::Connecting { adapter, peripheral, n_peripherals },
                        UploadAction::Connect { adapter, peripheral },
                    )
                } else {
                    self.next_candidate_spec(adapter, (peripheral + 1) as usize, n_peripherals)
                }
            },
            (
                UploadState::Connecting { adapter, peripheral, n_peripherals },
                UploadEvent::Connected { ok },
            ) => {
                if ok {
                    (
                        UploadState::Discovering { adapter, peripheral, n_peripherals },
                        UploadAction::DiscoverServices { adapter, peripheral },
                    )
                } else {
                    (
                        UploadState::Cleanup {
                            adapter,
                            peripheral,
                            n_peripherals,
                            delivered: false,
                        },
                        UploadAction::Disconnect { adapter, peripheral },
                    )
                }
            },
            (
                UploadState::Discovering { adapter, peripheral, n_peripherals },
                UploadEvent::Discovered { services },
            ) => {
                let cleanup = (
                    UploadState::Cleanup { adapter, peripheral, n_peripherals, delivered: false },
                    UploadAction::Disconnect { adapter, peripheral },
                );
                match services {
                    None => cleanup,
                    Some(svcs) => match first_service_index(svcs@, self.svc_uuid) {
                        None => cleanup,
                        Some(i) => match first_characteristic_index(
                            svcs@[i].characteristics@,
                            self.chr_uuid,
                        ) {
                            None => cleanup,
                            Some(k) => {
                                if self.n_writes == 0 {
                                    (
                                        UploadState::Cleanup {
                                            adapter,
                                            peripheral,
                                            n_peripherals,
                                            delivered: true,
                                        },
                                        UploadAction::Disconnect { adapter, peripheral },
                                    )
                                } else {
                                    (
                                        UploadState::Writing {
                                            adapter,
                                            peripheral,
                                            n_peripherals,
                                            svc: i as usize,
                                            chr: k as usize,
                                            written: 0,
                                        },
                                        UploadAction::WriteInstruction {
                                            adapter,
                                            peripheral,
                                            svc: i as usize,
                                            chr: k as usize,
                                            index: 0,
                                        },
                                    )
                                }
                            },
                        },
                    },
                }
            },
            (
                UploadState::Writing { adapter, peripheral, n_peripherals, svc, chr, written },
                UploadEvent::Written { ok },
            ) => {
                if !ok {
                    (
                        UploadState::Cleanup {
                            adapter,
                            peripheral,
                            n_peripherals,
                            delivered: false,
                        },
                        UploadAction::Disconnect { adapter, peripheral },
                    )
                } else if written + 1 < self.n_writes {
                    (
                        UploadState::Writing {
                            adapter,
                            peripheral,
                            n_peripherals,
                            svc,
                            chr,
                            written: (written + 1) as usize,
                        },
                        UploadAction::WriteInstruction {
                            adapter,
                            peripheral,
                            svc,
                            chr,
                            index: (written + 1) as usize,
                        },
                    )
                } else {
                    (
                        UploadState::Cleanup {
                            adapter,
                            peripheral,
                            n_peripherals,
                            delivered: true,
                        },
                        UploadAction::Disconnect { adapter, peripheral },
                    )
                }
            },
            (
                UploadState::Cleanup { adapter, peripheral, n_peripherals, delivered },
                UploadEvent::Disconnected,
            ) => {
                if delivered {
                    (UploadState::Done { success: true }, UploadAction::Report { success: true })
                } else {
                    self.next_candidate_spec(adapter, (peripheral + 1) as usize, n_peripherals)
                }
            },
            _ => (UploadState::Done { success: false }, UploadAction::Report { success: false }),
        }
    }

    /// The opening move: scan the first adapter, or give up at once when
    /// there is none.
    pub fn start(&self) -> (r: (UploadState, UploadAction))
        ensures
            self.n_adapters == 0 ==> r == (
                UploadState::Done { success: false },
                UploadAction::Report { success: false },
            ),
            self.n_adapters > 0 ==> r == (
                UploadState::Scanning { adapter: 0usize },
                UploadAction::Scan { adapter: 0usize },
            ),
            self.state_wf(r.0),
    {
        if self.n_adapters == 0 {
            (UploadState::Done { success: false }, UploadAction::Report { success: false })
        } else {
            (UploadState::Scanning { adapter: 0 }, UploadAction::Scan { adapter: 0 })
        }
    }

    /// One decision of the delivery procedure: from the current state and
    /// the observed event to the next state and the next action.
    pub fn step(&self, state: UploadState, event: &UploadEvent) -> (r: (
        UploadState,
        UploadAction,
    ))
        requires
            self.filter.wf(),
            self.state_wf(state),
            expects(state, *event),
        ensures
            r == self.step_spec(state, *event),
            self.state_wf(r.0),
    {
        match (state, event) {
            (
                UploadState::Scanning { adapter },
                UploadEvent::Scanned { n_peripherals },
            ) => self.next_candidate(adapter, 0, *n_peripherals),
            (
                UploadState::Considering { adapter, peripheral, n_peripherals },
                UploadEvent::Advertised { adv },
            ) => {
                if filter_selects(&self.filter, adv) {
                    (
                        UploadState::Connecting { adapter, peripheral, n_peripherals },
                        UploadAction::Connect { adapter, peripheral },
                    )
                } else {
                    self.next_candidate(adapter, peripheral + 1, n_peripherals)
                }
            },
            (
                UploadState::Connecting { adapter, peripheral, n_peripherals },
                UploadEvent::Connected { ok },
            ) => {
                if *ok {
                    (
                        UploadState::Discovering { adapter, peripheral, n_peripherals },
                        UploadAction::DiscoverServices { adapter, peripheral },
                    )
                } else {
                    (
                        UploadState::Cleanup {
                            adapter,
                            peripheral,
                            n_peripherals,
                            delivered: false,
                        },
                        UploadAction::Disconnect { adapter, peripheral },
                    )
                }
            },
            (
                UploadState::Discovering { adapter, peripheral, n_peripherals },
                UploadEvent::Discovered { services },
            ) => {
                match services {
                    None => (
                        UploadState::Cleanup {
                            adapter,
                            peripheral,
                            n_peripherals,
                            delivered: false,
                        },
                        UploadAction::Disconnect { adapter, peripheral },
                    ),
                    Some(svcs) => {
                        match find_service(svcs, self.svc_uuid) {
                            None => (
                                UploadState::Cleanup {
                                    adapter,
                                    peripheral,
                                    n_peripherals,
                                    delivered: false,
                                },
                                UploadAction::Disconnect { adapter, peripheral },
                            ),
                            Some(i) => {
                                match find_characteristic(&svcs[i], self.chr_uuid) {
                                    None => (
                                        UploadState::Cleanup {
                                            adapter,
                                            peripheral,
                                            n_peripherals,
                                            delivered: false,
                                        },
                                        UploadAction::Disconnect { adapter, peripheral },
                                    ),
                                    Some(k) => {
                                        if self.n_writes == 0 {
                                            (
                                                UploadState::Cleanup {
                                                    adapter,
                                                    peripheral,
                                                    n_peripherals,
                                                    delivered: true,
                                                },
                                                UploadAction::Disconnect { adapter, peripheral },
                                            )
                                        } else {
                                            (
                                                UploadState::Writing {
                                                    adapter,
                                                    peripheral,
                                                    n_peripherals,
                                                    svc: i,
                                                    chr: k,
                                                    written: 0,
                                                },
                                                UploadAction::WriteInstruction {
                                                    adapter,
                                                    peripheral,
                                                    svc: i,
                                                    chr: k,
                                                    index: 0,
                                                },
                                            )
                                        }
                                    },
                                }
                            },
                        }
                    },
                }
            },
            (
                UploadState::Writing { adapter, peripheral, n_peripherals, svc, chr, written },
                UploadEvent::Written { ok },
            ) => {
                if !*ok {
                    (
                        UploadState::Cleanup {
                            adapter,
                            peripheral,
                            n_peripherals,
                            delivered: false,
                        },
                        UploadAction::Disconnect { adapter, peripheral },
                    )
                } else if written + 1 < self.n_writes {
                    (
                        UploadState::Writing {
                            adapter,
                            peripheral,
                            n_peripherals,
                            svc,
                            chr,
                            written: written + 1,
                        },
                        UploadAction::WriteInstruction {
                            adapter,
                            peripheral,
                            svc,
                            chr,
                            index: written + 1,
                        },
                    )
                } else {
                    (
                        UploadState::Cleanup {
                            adapter,
                            peripheral,
                            n_peripherals,
                            delivered: true,
                        },
                        UploadAction::Disconnect { adapter, peripheral },
                    )
                }
            },
            (
                UploadState::Cleanup { adapter, peripheral, n_peripherals, delivered },
                UploadEvent::Disconnected,
            ) => {
                if delivered {
                    (UploadState::Done { success: true }, UploadAction::Report { success: true })
                } else {
                    self.next_candidate(adapter, peripheral + 1, n_peripherals)
                }
            },
            _ => unreached(),
        }
    }

    /// The next candidate after the given peripheral index on this adapter.
    fn next_candidate(&self, adapter: usize, peripheral: usize, n_peripherals: usize) -> (r: (
        UploadState,
        UploadAction,
    ))
        requires
            adapter < self.n_adapters,
            peripheral <= n_peripherals,
        ensures
            r == self.next_candidate_spec(adapter, peripheral, n_peripherals),
            self.state_wf(r.0),
    {
        if peripheral < n_peripherals {
            (
                UploadState::Considering { adapter, peripheral, n_peripherals },
                UploadAction::ReadAdvertisement { adapter, peripheral },
            )
        } else if adapter + 1 < self.n_adapters {
            (
                UploadState::Scanning { adapter: adapter + 1 },
                UploadAction::Scan { adapter: adapter + 1 },
            )
        } else {
            (UploadState::Done { success: false }, UploadAction::Report { success: false })
        }
    }
}

/// Instructions go out strictly in order, none skipped: the machine asks
/// for instruction `i` exactly when `i` instructions have been
/// acknowledged, and it reports success only from a cleanup whose delivery
/// completed.
pub proof fn lemma_writes_in_order(u: Uploader, state: UploadState, event: UploadEvent)
    requires
        u.state_wf(state),
    ensures
        ({
            let (s2, act) = u.step_spec(state, event);
            &&& (act matches UploadAction::WriteInstruction { index, .. } ==> s2 matches
                UploadState::Writing { written, .. } && index == written && index < u.n_writes)
            &&& (s2 matches UploadState::Done { success: true } ==> state matches
                UploadState::Cleanup { delivered: true, .. })
        }),
{
}

/// For a fixed command sequence the direct-delivery rendering is unique:
/// any two outputs that render the same commands hold the same bytes.
pub proof fn lemma_direct_rendering_deterministic(cmds: Seq<Cmd>, f1: Vec<Vec<u8>>, f2: Vec<
    Vec<u8>,
>)
    requires
        <BleOutput as OutputFormat>::finish_rel(cmds, f1),
        <BleOutput as OutputFormat>::finish_rel(cmds, f2),
    ensures
        f1.deep_view() == f2.deep_view(),
{
}

} // verus!
