//! What the panel shows of the machine: the texts that go into the
//! renderer's properties on every turn of the host's loop.

use std::fmt::Write;
use vstd::prelude::*;

verus! {

/// A property of the renderer that shows a reading of the machine.
#[derive(Debug, Clone, Copy, PartialEq, Eq, Structural)]
pub enum HardwareProperty {
    TotalMemory,
    UsedMemory,
    NetworkUp,
    NetworkDown,
}

/// A property and the text it is to show.
#[derive(Debug)]
pub struct PropertyUpdate {
    pub property: HardwareProperty,
    pub value: String,
}

/// The readings that are shown anew on every turn.
#[derive(Debug, Clone, Copy, PartialEq, Eq, Structural)]
pub struct HardwareReadings {
    /// Bytes of memory in use.
    pub used_mem: u64,
    /// Bytes sent in a second.
    pub uploaded_bytes: u64,
    /// Bytes received in a second.
    pub downloaded_bytes: u64,
}

/// The text that `human_repr` gives for a count of bytes.
pub uninterp spec fn human_count_bytes_text(count: u64) -> Seq<char>;

/// The text that `human_repr` gives for a rate of bytes in a second.
pub uninterp spec fn human_throughput_bytes_text(rate: u64) -> Seq<char>;

/// Calls `HumanCount::human_count_bytes` of `human_repr` on a `u64` and
/// formats what it returns. The text depends on the count alone; the
/// contract gives it a name and says no more of it.
#[verifier::external_body]
fn human_count_bytes(count: u64) -> (text: String)
    ensures
        text@ == human_count_bytes_text(count),
{
    human_repr::HumanCount::human_count_bytes(count).to_string()
}

/// Calls `HumanThroughput::human_throughput_bytes` of `human_repr` on a `u64`
/// and formats what it returns. The text depends on the rate alone; the
/// contract gives it a name and says no more of it.
#[verifier::external_body]
fn human_throughput_bytes(rate: u64) -> (text: String)
    ensures
        text@ == human_throughput_bytes_text(rate),
{
    human_repr::HumanThroughput::human_throughput_bytes(rate).to_string()
}

/// The text that `chrono` gives for the moment `secs` seconds after the start
/// of 1970, as a clock `offset` seconds east of Greenwich shows it, written
/// in the given pattern; none where it gives no text.
pub uninterp spec fn clock_text(secs: i64, offset: i32, pattern: Seq<char>) -> Option<Seq<char>>;

/// Calls `FixedOffset::east_opt`, `DateTime::from_timestamp`,
/// `DateTime::with_timezone` and `DateTime::format` of `chrono` and writes
/// out what the last returns. There is no text where the offset is a day or
/// more, the moment is beyond what `chrono` can hold, or the pattern cannot
/// be written. The text depends on the three arguments alone; the contract
/// gives it a name and says no more of it.
#[verifier::external_body]
fn format_clock(secs: i64, offset: i32, pattern: &str) -> (text: Option<String>)
    ensures
        match text {
            Some(t) => clock_text(secs, offset, pattern@) == Some(t@),
            None => clock_text(secs, offset, pattern@) is None,
        },
{
    let zone = chrono::FixedOffset::east_opt(offset)?;
    let moment = chrono::DateTime::from_timestamp(secs, 0)?.with_timezone(&zone);
    let mut text = String::new();
    write!(text, "{}", moment.format(pattern)).ok()?;
    Some(text)
}

/// The updates of one turn, given the three texts: what is sent, what is
/// received, and the memory in use, in this order.
pub open spec fn turn_updates(up: Seq<char>, down: Seq<char>, used: Seq<char>) -> Seq<
    (HardwareProperty, Seq<char>),
> {
    seq![
        (HardwareProperty::NetworkUp, up),
        (HardwareProperty::NetworkDown, down),
        (HardwareProperty::UsedMemory, used),
    ]
}

/// The property and the text of an update.
pub open spec fn shown(update: PropertyUpdate) -> (HardwareProperty, Seq<char>) {
    (update.property, update.value@)
}

impl HardwareProperty {
    /// The name of the renderer's global that holds the properties.
    pub fn global() -> (name: &'static str)
        ensures
            name@ == "HardwareMonitor"@,
    {
        "HardwareMonitor"
    }

    pub open spec fn spec_name(self) -> Seq<char> {
        match self {
            HardwareProperty::TotalMemory => "totalmemory"@,
            HardwareProperty::UsedMemory => "used_memory"@,
            HardwareProperty::NetworkUp => "network_up"@,
            HardwareProperty::NetworkDown => "network_down"@,
        }
    }

    /// The name of the property in the renderer's global.
    pub fn name(&self) -> (name: &'static str)
        ensures
            name@ == self.spec_name(),
    {
        match self {
            HardwareProperty::TotalMemory => "totalmemory",
            HardwareProperty::UsedMemory => "used_memory",
            HardwareProperty::NetworkUp => "network_up",
            HardwareProperty::NetworkDown => "network_down",
        }
    }
}

/// The pattern in which the clock is shown.
pub fn clock_format() -> (pattern: &'static str)
    ensures
        pattern@ == "%I:%M%P -- %d of %b, %Y"@,
{
    "%I:%M%P -- %d of %b, %Y"
}

/// The name of the renderer's property that shows the clock.
pub fn clock_property() -> (name: &'static str)
    ensures
        name@ == "time"@,
{
    "time"
}

/// What the clock shows at the moment `secs` seconds after the start of
/// 1970, at a place whose clocks are `offset` seconds ahead of Greenwich:
/// the hour of twelve, the minute, morning or afternoon, then the day, the
/// month and the year.
pub fn clock(secs: i64, offset: i32) -> (text: Option<String>)
    ensures
        match text {
            Some(t) => clock_text(secs, offset, "%I:%M%P -- %d of %b, %Y"@) == Some(t@),
            None => clock_text(secs, offset, "%I:%M%P -- %d of %b, %Y"@) is None,
        },
{
    format_clock(secs, offset, clock_format())
}

/// The update that shows the machine's memory, which is set once.
pub fn total_memory_update(total_mem: u64) -> (update: PropertyUpdate)
    ensures
        shown(update) == (HardwareProperty::TotalMemory, human_count_bytes_text(total_mem)),
{
    PropertyUpdate { property: HardwareProperty::TotalMemory, value: human_count_bytes(total_mem) }
}

/// The updates of one turn, from the texts of the three readings.
pub fn updates_from_texts(up: String, down: String, used: String) -> (updates: Vec<PropertyUpdate>)
    ensures
        updates@.map_values(|u: PropertyUpdate| shown(u)) == turn_updates(up@, down@, used@),
{
    let mut updates: Vec<PropertyUpdate> = Vec::new();
    updates.push(PropertyUpdate { property: HardwareProperty::NetworkUp, value: up });
    updates.push(PropertyUpdate { property: HardwareProperty::NetworkDown, value: down });
    updates.push(PropertyUpdate { property: HardwareProperty::UsedMemory, value: used });
    assert(updates@.map_values(|u: PropertyUpdate| shown(u)) =~= turn_updates(up@, down@, used@));
    updates
}

/// The updates of one turn: the rates as throughput, the memory as a count.
pub fn turn(readings: &HardwareReadings) -> (updates: Vec<PropertyUpdate>)
    ensures
        updates@.map_values(|u: PropertyUpdate| shown(u)) == turn_updates(
            human_throughput_bytes_text(readings.uploaded_bytes),
            human_throughput_bytes_text(readings.downloaded_bytes),
            human_count_bytes_text(readings.used_mem),
        ),
{
    updates_from_texts(
        human_throughput_bytes(readings.uploaded_bytes),
        human_throughput_bytes(readings.downloaded_bytes),
        human_count_bytes(readings.used_mem),
    )
}

} // verus!
