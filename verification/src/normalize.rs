//! The telemetry normaliser: from a raw snapshot to the canonical summary.
//!
//! The transform is total. A field that is missing, or holds a value of
//! another shape than expected, degrades to its default and is never an error.

use crate::raw::{RawValue, MILLION};
use crate::summary::{
    share_is_bounded, used_space, DiskSummary, DiskSummaryView, Percentage, SystemSummary,
    SystemSummaryView, FULL_SHARE,
};
use vstd::prelude::*;

verus! {

/// What a string field defaults to.
pub open spec fn unknown() -> Seq<char> {
    "Unknown"@
}

/// The string in field `name` of `node`, or `"Unknown"`.
pub open spec fn text_of(node: RawValue, name: Seq<char>) -> Seq<char> {
    match optional_text_of(node, name) {
        Some(text) => text,
        None => unknown(),
    }
}

/// The string in field `name` of `node`, if there is one.
pub open spec fn optional_text_of(node: RawValue, name: Seq<char>) -> Option<Seq<char>> {
    match node.spec_field(name) {
        Some(v) => v.spec_text(),
        None => None,
    }
}

/// The unsigned integer in field `name` of `node`, or zero.
pub open spec fn count_of(node: RawValue, name: Seq<char>) -> u64 {
    match node.spec_field(name) {
        Some(v) => match v.spec_count() {
            Some(n) => n,
            None => 0,
        },
        None => 0,
    }
}

/// The list in field `name` of `node`, or the empty list.
pub open spec fn items_of(node: RawValue, name: Seq<char>) -> Seq<RawValue> {
    match node.spec_field(name) {
        Some(v) => match v.spec_items() {
            Some(items) => items,
            None => Seq::empty(),
        },
        None => Seq::empty(),
    }
}

/// The usage that one core reports, in millionths, if it reports a number.
pub open spec fn core_usage(core: RawValue) -> Option<i64> {
    match core.spec_field("cpu_usage"@) {
        Some(v) => v.spec_millionths(),
        None => None,
    }
}

/// The sum of the usages that `cores` report.
pub open spec fn usage_sum(cores: Seq<RawValue>) -> int
    decreases cores.len(),
{
    if cores.len() == 0 {
        0
    } else {
        usage_sum(cores.drop_last()) + match core_usage(cores.last()) {
            Some(u) => u as int,
            None => 0,
        }
    }
}

/// How many of `cores` report a usage.
pub open spec fn usage_count(cores: Seq<RawValue>) -> nat
    decreases cores.len(),
{
    if cores.len() == 0 {
        0
    } else {
        usage_count(cores.drop_last()) + match core_usage(cores.last()) {
            Some(_) => 1nat,
            None => 0nat,
        }
    }
}

/// `a` divided by a positive `b`, rounded toward zero.
pub open spec fn toward_zero(a: int, b: int) -> int {
    if a >= 0 {
        a / b
    } else {
        -((-a) / b)
    }
}

/// The percentage that an average usage of `average` millionths stands for.
/// An average above one is taken to be a percentage already; any other is
/// taken to be a fraction of one and is multiplied by a hundred. The rule is
/// applied to the average, not to each core.
pub open spec fn as_percentage(average: int) -> int {
    if average > MILLION {
        average
    } else {
        100 * average
    }
}

/// The average usage over the cores that report one, as a percentage in
/// millionths of a percent point; zero where no core reports one.
pub open spec fn average_usage(cores: Seq<RawValue>) -> int {
    if usage_count(cores) == 0 {
        0
    } else {
        as_percentage(toward_zero(usage_sum(cores), usage_count(cores) as int))
    }
}

/// The brand of the first core, or `"Unknown"` where there is no core.
pub open spec fn brand_of(cores: Seq<RawValue>) -> Seq<char> {
    if cores.len() > 0 {
        text_of(cores[0], "brand"@)
    } else {
        unknown()
    }
}

/// The summary of one disk entry.
pub open spec fn disk_of(entry: RawValue) -> DiskSummaryView {
    let total = count_of(entry, "total_space"@);
    let available = count_of(entry, "available_space"@);
    DiskSummaryView {
        name: text_of(entry, "name"@),
        mount_point: text_of(entry, "mount_point"@),
        total_space: total,
        available_space: available,
        usage_percentage: Percentage {
            millionths: Percentage::share(used_space(total, available) as int, total as int) as i128,
        },
        file_system: optional_text_of(entry, "file_system"@),
    }
}

/// The canonical summary of the snapshot `raw`.
pub open spec fn summary_of(raw: RawValue) -> SystemSummaryView {
    let total = count_of(raw, "total_memory"@);
    let used = count_of(raw, "used_memory"@);
    let cores = items_of(raw, "cpus"@);
    SystemSummaryView {
        hostname: text_of(raw, "hostname"@),
        system_name: text_of(raw, "name"@),
        os_version: text_of(raw, "os_version"@),
        kernel_version: text_of(raw, "kernel_version"@),
        total_memory: total,
        used_memory: used,
        memory_usage_percentage: Percentage {
            millionths: Percentage::share(used as int, total as int) as i128,
        },
        cpu_count: count_of(raw, "cpu_count"@),
        cpu_brand: brand_of(cores),
        cpu_usage: Percentage { millionths: average_usage(cores) as i128 },
        disks: items_of(raw, "disks"@).map_values(|entry: RawValue| disk_of(entry)),
    }
}

/// Reads a string field, with `"Unknown"` for one that is missing or no
/// string.
pub fn read_text(node: &RawValue, name: &str) -> (text: String)
    ensures
        text@ == text_of(*node, name@),
{
    match node.field(name) {
        Some(v) => match v.as_text() {
            Some(s) => s.to_owned(),
            None => "Unknown".to_owned(),
        },
        None => "Unknown".to_owned(),
    }
}

/// Reads a string field whose absence has a meaning of its own.
pub fn read_optional_text(node: &RawValue, name: &str) -> (text: Option<String>)
    ensures
        match text {
            Some(s) => optional_text_of(*node, name@) == Some(s@),
            None => optional_text_of(*node, name@).is_none(),
        },
{
    match node.field(name) {
        Some(v) => match v.as_text() {
            Some(s) => Some(s.to_owned()),
            None => None,
        },
        None => None,
    }
}

/// Reads an unsigned integer field, with zero for one that is missing or no
/// unsigned integer.
pub fn read_count(node: &RawValue, name: &str) -> (count: u64)
    ensures
        count == count_of(*node, name@),
{
    match node.field(name) {
        Some(v) => match v.as_count() {
            Some(n) => n,
            None => 0,
        },
        None => 0,
    }
}

/// Reads a list field; `None` stands for the empty list of a field that is
/// missing or no list.
pub fn read_items<'a>(node: &'a RawValue, name: &str) -> (items: Option<&'a Vec<RawValue>>)
    ensures
        match items {
            Some(list) => items_of(*node, name@) == list@,
            None => items_of(*node, name@) == Seq::<RawValue>::empty(),
        },
{
    match node.field(name) {
        Some(v) => v.as_items(),
        None => None,
    }
}

/// A quotient of a sum of `count` terms is bounded as the terms are.
proof fn quotient_is_bounded(sum: int, count: int, bound: int)
    requires
        0 < count,
        0 <= sum <= count * bound,
    ensures
        0 <= sum / count <= bound,
{
    assert(0 <= sum / count <= bound) by (nonlinear_arith)
        requires
            0 < count,
            0 <= sum <= count * bound,
    ;
}

/// The average usage of `cores` as a percentage: the usages that are numbers
/// are summed and divided by their count, and the scale of the result is
/// settled once, on the average.
pub fn average_cpu_usage(cores: &Vec<RawValue>) -> (usage: Percentage)
    ensures
        usage.millionths == average_usage(cores@),
{
    let mut sum: i128 = 0;
    let mut count: usize = 0;
    let mut i: usize = 0;
    assert(cores@.take(0) == Seq::<RawValue>::empty());
    while i < cores.len()
        invariant
            i <= cores.len(),
            count <= i,
            sum == usage_sum(cores@.take(i as int)),
            count == usage_count(cores@.take(i as int)),
            -(count * 0x8000_0000_0000_0000) <= sum <= count * 0x7fff_ffff_ffff_ffff,
        decreases cores.len() - i,
    {
        proof {
            let upto = cores@.take(i as int + 1);
            assert(upto.drop_last() == cores@.take(i as int));
            assert(upto.last() == cores@[i as int]);
        }
        let reported = match cores[i].field("cpu_usage") {
            Some(v) => v.as_millionths(),
            None => None,
        };
        match reported {
            Some(u) => {
                sum = sum + u as i128;
                count = count + 1;
            },
            None => {},
        }
        i += 1;
    }
    assert(cores@.take(cores@.len() as int) == cores@);
    if count == 0 {
        return Percentage::zero();
    }
    let divisor: i128 = count as i128;
    let average: i128 = if sum >= 0 {
        proof {
            quotient_is_bounded(sum as int, divisor as int, 0x7fff_ffff_ffff_ffff);
        }
        sum / divisor
    } else {
        proof {
            quotient_is_bounded(-sum as int, divisor as int, 0x8000_0000_0000_0000);
        }
        -((-sum) / divisor)
    };
    if average > 1_000_000 {
        Percentage { millionths: average }
    } else {
        Percentage { millionths: 100 * average }
    }
}

/// Summarises one disk entry. An entry of any shape gives a summary: what it
/// lacks is defaulted.
pub fn summarize_disk(entry: &RawValue) -> (disk: DiskSummary)
    ensures
        disk@ == disk_of(*entry),
        disk.wf(),
        disk.usage_percentage.in_range(),
{
    let total = read_count(entry, "total_space");
    let available = read_count(entry, "available_space");
    let used = if available <= total {
        total - available
    } else {
        0
    };
    DiskSummary {
        name: read_text(entry, "name"),
        mount_point: read_text(entry, "mount_point"),
        total_space: total,
        available_space: available,
        usage_percentage: Percentage::of(used, total),
        file_system: read_optional_text(entry, "file_system"),
    }
}

/// Turns a raw snapshot into the canonical summary. Never fails: a snapshot of
/// any shape has a summary. The disks come out in the order they came in.
pub fn normalize(raw: &RawValue) -> (summary: SystemSummary)
    ensures
        summary@ == summary_of(*raw),
        summary.wf(),
{
    let total_memory = read_count(raw, "total_memory");
    let used_memory = read_count(raw, "used_memory");
    let no_items: Vec<RawValue> = Vec::new();
    let cores = match read_items(raw, "cpus") {
        Some(list) => list,
        None => &no_items,
    };
    let cpu_brand = if cores.len() > 0 {
        read_text(&cores[0], "brand")
    } else {
        "Unknown".to_owned()
    };
    let entries = match read_items(raw, "disks") {
        Some(list) => list,
        None => &no_items,
    };
    let mut disks: Vec<DiskSummary> = Vec::new();
    let mut i: usize = 0;
    while i < entries.len()
        invariant
            i <= entries.len(),
            disks@.len() == i,
            forall|j: int| 0 <= j < i ==> (#[trigger] disks@[j])@ == disk_of(entries@[j]),
            forall|j: int| 0 <= j < i ==> (#[trigger] disks@[j]).wf(),
        decreases entries.len() - i,
    {
        disks.push(summarize_disk(&entries[i]));
        i += 1;
    }
    let summary = SystemSummary {
        hostname: read_text(raw, "hostname"),
        system_name: read_text(raw, "name"),
        os_version: read_text(raw, "os_version"),
        kernel_version: read_text(raw, "kernel_version"),
        total_memory,
        used_memory,
        memory_usage_percentage: Percentage::of(used_memory, total_memory),
        cpu_count: read_count(raw, "cpu_count"),
        cpu_brand,
        cpu_usage: average_cpu_usage(cores),
        disks,
    };
    assert(summary@.disks =~= summary_of(*raw).disks);
    summary
}

/// Whether `raw` lacks every field that a summary is made from.
pub open spec fn lacks_every_field(raw: RawValue) -> bool {
    &&& raw.spec_field("hostname"@).is_none()
    &&& raw.spec_field("name"@).is_none()
    &&& raw.spec_field("os_version"@).is_none()
    &&& raw.spec_field("kernel_version"@).is_none()
    &&& raw.spec_field("total_memory"@).is_none()
    &&& raw.spec_field("used_memory"@).is_none()
    &&& raw.spec_field("cpu_count"@).is_none()
    &&& raw.spec_field("cpus"@).is_none()
    &&& raw.spec_field("disks"@).is_none()
}

/// The summary of a host of which nothing is known.
pub open spec fn blank_summary() -> SystemSummaryView {
    SystemSummaryView {
        hostname: unknown(),
        system_name: unknown(),
        os_version: unknown(),
        kernel_version: unknown(),
        total_memory: 0,
        used_memory: 0,
        memory_usage_percentage: Percentage { millionths: 0 },
        cpu_count: 0,
        cpu_brand: unknown(),
        cpu_usage: Percentage { millionths: 0 },
        disks: Seq::empty(),
    }
}

/// A snapshot that lacks every field has the blank summary: each string is
/// `"Unknown"`, each number and each percentage is zero, and there is no disk.
pub proof fn missing_fields_give_defaults(raw: RawValue)
    requires
        lacks_every_field(raw),
    ensures
        summary_of(raw) == blank_summary(),
{
    let none = Seq::<RawValue>::empty();
    assert(items_of(raw, "cpus"@) == none);
    assert(items_of(raw, "disks"@) == none);
    assert(usage_count(none) == 0);
    assert(none.map_values(|entry: RawValue| disk_of(entry)) =~= Seq::<DiskSummaryView>::empty());
}

/// A disk of no space is in use to zero percent, whatever it reports as
/// available.
pub proof fn disk_without_space_is_unused(entry: RawValue)
    requires
        count_of(entry, "total_space"@) == 0,
    ensures
        disk_of(entry).usage_percentage.millionths == 0,
{
}

/// The usage of every disk lies between 0 % and 100 %.
pub proof fn disk_usage_in_range(entry: RawValue)
    ensures
        disk_of(entry).usage_percentage.in_range(),
{
    let total = count_of(entry, "total_space"@);
    let available = count_of(entry, "available_space"@);
    if total > 0 {
        share_is_bounded(used_space(total, available) as int, total as int);
    }
}

/// An average of exactly one is taken to be a fraction and comes out as
/// 100 %. Whatever comes out above one percent point is a percentage already:
/// settling its scale a second time leaves it as it is.
pub proof fn scale_is_settled_once(average: int)
    ensures
        as_percentage(MILLION as int) == FULL_SHARE,
        as_percentage(average) > MILLION ==> as_percentage(as_percentage(average))
            == as_percentage(average),
{
}

/// Whether every usage that `cores` report lies between zero and a hundred,
/// the widest range that a fraction of one or a percentage can take.
pub open spec fn reports_plausible_usage(cores: Seq<RawValue>) -> bool {
    forall|i: int|
        0 <= i < cores.len() ==> match #[trigger] core_usage(cores[i]) {
            Some(u) => 0 <= u <= FULL_SHARE,
            None => true,
        }
}

/// The sum of plausible usages is bounded by their count.
proof fn plausible_sum_is_bounded(cores: Seq<RawValue>)
    requires
        reports_plausible_usage(cores),
    ensures
        0 <= usage_sum(cores) <= usage_count(cores) * FULL_SHARE,
    decreases cores.len(),
{
    if cores.len() > 0 {
        let front = cores.drop_last();
        assert forall|i: int| 0 <= i < front.len() implies match #[trigger] core_usage(front[i]) {
            Some(u) => 0 <= u <= FULL_SHARE,
            None => true,
        } by {
            assert(front[i] == cores[i]);
        }
        plausible_sum_is_bounded(front);
    }
}

/// Where every core reports a usage between zero and a hundred, the average
/// comes out between 0 % and 100 %.
pub proof fn average_usage_in_range(cores: Seq<RawValue>)
    requires
        reports_plausible_usage(cores),
    ensures
        0 <= average_usage(cores) <= FULL_SHARE,
{
    plausible_sum_is_bounded(cores);
    if usage_count(cores) > 0 {
        quotient_is_bounded(usage_sum(cores), usage_count(cores) as int, FULL_SHARE as int);
    }
}

} // verus!
