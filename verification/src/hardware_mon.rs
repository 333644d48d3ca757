//! When the machine's gauges are read, and what is made of the readings.
//!
//! Time is a count of nanoseconds on a clock that never runs backwards; the
//! host reads the clock and the gauges.

use vstd::prelude::*;

verus! {

/// A gauge of the machine that is read afresh from time to time.
#[derive(Debug, Clone, Copy, PartialEq, Eq, Structural)]
pub enum Probe {
    Cpu,
    Memory,
    Networks,
    NetworkList,
}

/// Nanoseconds in a millisecond.
pub const MILLISECOND: u64 = 1_000_000;

/// Nanoseconds in a second.
pub const SECOND: u64 = 1_000_000_000;

/// The whole seconds that a transfer rate is taken over.
pub const RATE_SPAN: u64 = 2;

/// How long the processor's load is taken to stay good.
pub const CPU_PERIOD: u64 = 500 * MILLISECOND;

/// How long the memory figures are taken to stay good.
pub const MEMORY_PERIOD: u64 = 1000 * MILLISECOND;

/// How long the network counters are taken to stay good. The counters hold
/// what went over an interface since they were last read, so this is also
/// the span that a transfer rate is taken over.
pub const NETWORK_PERIOD: u64 = RATE_SPAN * SECOND;

/// How long the list of network interfaces is taken to stay good.
pub const NETWORK_LIST_PERIOD: u64 = 10 * SECOND;

/// One gauge and the rhythm in which it is read.
#[derive(Debug, Clone, Copy, PartialEq, Eq, Structural)]
pub struct HardwareModule {
    /// The gauge.
    pub probe: Probe,
    /// The time after which the gauge is read again.
    pub due_after: u64,
    /// How long a reading is taken to stay good.
    pub frequency: u64,
}

/// What went over one network interface since its counters were last read.
#[derive(Debug, Clone)]
pub struct InterfaceCounters {
    pub name: String,
    pub received: u64,
    pub transmitted: u64,
}

/// The gauges of the machine, each with its rhythm, and the network interface
/// whose traffic is shown.
pub struct HardwareMonitor {
    modules: Vec<HardwareModule>,
    interface_name: String,
}

/// The sum of two times, as far as the clock goes.
pub open spec fn later(time: u64, span: u64) -> u64 {
    if time + span <= u64::MAX {
        (time + span) as u64
    } else {
        u64::MAX
    }
}

/// The modules as they start at the given time: the processor, the memory,
/// the network counters and the list of interfaces, each due at once.
pub open spec fn starting_modules(now: u64) -> Seq<HardwareModule> {
    seq![
        HardwareModule { probe: Probe::Cpu, due_after: now, frequency: CPU_PERIOD },
        HardwareModule { probe: Probe::Memory, due_after: now, frequency: MEMORY_PERIOD },
        HardwareModule { probe: Probe::Networks, due_after: now, frequency: NETWORK_PERIOD },
        HardwareModule { probe: Probe::NetworkList, due_after: now, frequency: NETWORK_LIST_PERIOD },
    ]
}

/// The gauges among the first `n` modules that are due at the given time, in
/// the modules' order.
pub open spec fn due_probes(modules: Seq<HardwareModule>, now: u64, n: int) -> Seq<Probe>
    decreases n,
{
    if n <= 0 {
        Seq::empty()
    } else if modules[n - 1].is_due(now) {
        due_probes(modules, now, n - 1).push(modules[n - 1].probe)
    } else {
        due_probes(modules, now, n - 1)
    }
}

/// The named interface is the first of that name among the first `n`.
pub open spec fn is_first_named(
    interfaces: Seq<InterfaceCounters>,
    name: Seq<char>,
    at: int,
) -> bool {
    &&& 0 <= at < interfaces.len()
    &&& interfaces[at].name@ == name
    &&& forall|j: int| 0 <= j < at ==> (#[trigger] interfaces[j]).name@ != name
}

/// No interface has the name.
pub open spec fn none_named(interfaces: Seq<InterfaceCounters>, name: Seq<char>) -> bool {
    forall|j: int| 0 <= j < interfaces.len() ==> (#[trigger] interfaces[j]).name@ != name
}

impl HardwareModule {
    /// Whether the gauge is to be read at the given time: when more time than
    /// a reading stays good has passed since the last one.
    pub open spec fn is_due(self, now: u64) -> bool {
        now > self.due_after
    }

    /// The module after a look at the given time: read again if it was due.
    pub open spec fn looked_at(self, now: u64) -> HardwareModule {
        if self.is_due(now) {
            HardwareModule { due_after: later(now, self.frequency), ..self }
        } else {
            self
        }
    }

    /// A module for the given gauge, made at the given time and due as soon
    /// as any time has passed.
    pub fn new(frequency: u64, probe: Probe, now: u64) -> (module: Self)
        ensures
            module == (HardwareModule { probe, due_after: now, frequency }),
    {
        HardwareModule { probe, due_after: now, frequency }
    }

    /// Looks at the clock and tells whether the gauge is to be read now; if
    /// so, the reading counts as taken at the given time.
    pub fn update(&mut self, now: u64) -> (due: bool)
        ensures
            due == old(self).is_due(now),
            *final(self) == old(self).looked_at(now),
    {
        if now > self.due_after {
            self.due_after = now.saturating_add(self.frequency);
            true
        } else {
            false
        }
    }
}

impl HardwareMonitor {
    pub closed spec fn modules(&self) -> Seq<HardwareModule> {
        self.modules@
    }

    pub closed spec fn interface_name(&self) -> Seq<char> {
        self.interface_name@
    }

    /// A monitor for the traffic of the named interface, started at the
    /// given time with every gauge due.
    pub fn new(interface_name: String, now: u64) -> (monitor: Self)
        ensures
            monitor.modules() == starting_modules(now),
            monitor.interface_name() == interface_name@,
    {
        let mut modules: Vec<HardwareModule> = Vec::new();
        modules.push(HardwareModule::new(CPU_PERIOD, Probe::Cpu, now));
        modules.push(HardwareModule::new(MEMORY_PERIOD, Probe::Memory, now));
        modules.push(HardwareModule::new(NETWORK_PERIOD, Probe::Networks, now));
        modules.push(HardwareModule::new(NETWORK_LIST_PERIOD, Probe::NetworkList, now));
        assert(modules@ =~= starting_modules(now));
        HardwareMonitor { modules, interface_name }
    }

    /// Looks at the clock and tells which gauges are to be read now, in the
    /// modules' order; their readings count as taken at the given time.
    pub fn update(&mut self, now: u64) -> (due: Vec<Probe>)
        ensures
            final(self).interface_name() == old(self).interface_name(),
            due@ == due_probes(old(self).modules(), now, old(self).modules().len() as int),
            final(self).modules() == old(self).modules().map_values(
                |module: HardwareModule| module.looked_at(now),
            ),
    {
        let mut due: Vec<Probe> = Vec::new();
        let n = self.modules.len();
        let mut i: usize = 0;
        while i < n
            invariant
                0 <= i <= n,
                n == self.modules@.len(),
                n == old(self).modules@.len(),
                self.interface_name == old(self).interface_name,
                due@ == due_probes(old(self).modules@, now, i as int),
                forall|j: int| 0 <= j < i ==> self.modules@[j] == old(self).modules@[j].looked_at(now),
                forall|j: int| i <= j < n ==> self.modules@[j] == old(self).modules@[j],
            decreases n - i,
        {
            let mut module = self.modules[i];
            if module.update(now) {
                due.push(module.probe);
            }
            self.modules[i] = module;
            i = i + 1;
        }
        assert(self.modules@ =~= old(self).modules@.map_values(
            |module: HardwareModule| module.looked_at(now),
        ));
        due
    }

    /// What the shown interface sent in a second: what it transmitted since
    /// its counters were last read, by the seconds between two readings. Zero
    /// where no interface has the name; the first where several have.
    pub fn uploaded_bytes(&self, interfaces: &Vec<InterfaceCounters>) -> (rate: u64)
        ensures
            none_named(interfaces@, self.interface_name()) ==> rate == 0,
            forall|at: int|
                is_first_named(interfaces@, self.interface_name(), at) ==> rate
                    == interfaces@[at].transmitted / RATE_SPAN,
    {
        match self.find(interfaces) {
            Some(at) => interfaces[at].transmitted / RATE_SPAN,
            None => 0,
        }
    }

    /// What the shown interface took in in a second: what it received since
    /// its counters were last read, by the seconds between two readings. Zero
    /// where no interface has the name; the first where several have.
    pub fn downloaded_bytes(&self, interfaces: &Vec<InterfaceCounters>) -> (rate: u64)
        ensures
            none_named(interfaces@, self.interface_name()) ==> rate == 0,
            forall|at: int|
                is_first_named(interfaces@, self.interface_name(), at) ==> rate
                    == interfaces@[at].received / RATE_SPAN,
    {
        match self.find(interfaces) {
            Some(at) => interfaces[at].received / RATE_SPAN,
            None => 0,
        }
    }

    /// Whether some interface has the shown interface's name.
    pub fn knows_interface(&self, interfaces: &Vec<InterfaceCounters>) -> (known: bool)
        ensures
            known == !none_named(interfaces@, self.interface_name()),
    {
        self.find(interfaces).is_some()
    }

    fn find(&self, interfaces: &Vec<InterfaceCounters>) -> (found: Option<usize>)
        ensures
            match found {
                Some(at) => is_first_named(interfaces@, self.interface_name@, at as int),
                None => none_named(interfaces@, self.interface_name@),
            },
            forall|at: int|
                is_first_named(interfaces@, self.interface_name@, at) ==> found == Some(
                    at as usize,
                ),
    {
        let mut i: usize = 0;
        while i < interfaces.len()
            invariant
                0 <= i <= interfaces.len(),
                forall|j: int| 0 <= j < i ==> (#[trigger] interfaces@[j]).name@ != self.interface_name@,
            decreases interfaces.len() - i,
        {
            if interfaces[i].name == self.interface_name {
                assert forall|at: int|
                    is_first_named(interfaces@, self.interface_name@, at) implies at == i by {
                    if at < i {
                        assert(interfaces@[at].name@ != self.interface_name@);
                    } else if i < at {
                        assert(interfaces@[i as int].name@ != self.interface_name@);
                    }
                }
                return Some(i);
            }
            i = i + 1;
        }
        assert forall|at: int| !is_first_named(interfaces@, self.interface_name@, at) by {
            if is_first_named(interfaces@, self.interface_name@, at) {
                assert(interfaces@[at].name@ != self.interface_name@);
            }
        }
        None
    }
}

} // verus!
