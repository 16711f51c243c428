//! The canonical summary of a host: what `normalize` produces.
//!
//! Percentages are fixed-point numbers, so that every derivation is exact and
//! the same on every machine.

use vstd::prelude::*;

verus! {

/// One hundred percent, in millionths of a percent point.
pub const FULL_SHARE: i128 = 100_000_000;

/// A percentage in millionths of a percent point: `75_000_000` is 75 %.
#[derive(Clone, Copy, Debug, PartialEq, Eq, Structural)]
pub struct Percentage {
    pub millionths: i128,
}

impl Percentage {
    /// Whether the percentage lies between 0 % and 100 %, both included.
    pub open spec fn in_range(self) -> bool {
        0 <= self.millionths <= FULL_SHARE
    }

    /// What share `part` is of `whole`, in millionths of a percent point,
    /// rounded down. Of a `whole` that is not positive every share is zero.
    pub open spec fn share(part: int, whole: int) -> int {
        if whole > 0 {
            (part * FULL_SHARE) / whole
        } else {
            0
        }
    }

    /// Zero percent.
    pub fn zero() -> (p: Percentage)
        ensures
            p.millionths == 0,
    {
        Percentage { millionths: 0 }
    }

    /// The share that `part` is of `whole`. Nothing is divided when `whole` is
    /// zero: the share is then zero.
    pub fn of(part: u64, whole: u64) -> (p: Percentage)
        ensures
            p.millionths == Self::share(part as int, whole as int),
            p.millionths >= 0,
            part <= whole ==> p.in_range(),
    {
        if whole == 0 {
            return Percentage { millionths: 0 };
        }
        let scaled: u128 = (part as u128) * 100_000_000u128;
        let quotient: u128 = scaled / (whole as u128);
        proof {
            share_is_bounded(part as int, whole as int);
        }
        Percentage { millionths: quotient as i128 }
    }
}

/// A share is never negative, never more than the scaled part, and at most
/// 100 % where the part does not exceed the whole.
pub proof fn share_is_bounded(part: int, whole: int)
    requires
        0 <= part,
        0 < whole,
    ensures
        0 <= Percentage::share(part, whole) <= part * FULL_SHARE,
        part <= whole ==> Percentage::share(part, whole) <= FULL_SHARE,
{
    let scaled = part * FULL_SHARE;
    assert(0 <= scaled / whole <= scaled) by (nonlinear_arith)
        requires
            0 <= scaled,
            0 < whole,
    ;
    if part <= whole {
        assert(scaled / whole <= FULL_SHARE) by (nonlinear_arith)
            requires
                0 <= scaled <= whole * FULL_SHARE,
                0 < whole,
        ;
    }
}

/// The space in use on a disk of `total` bytes of which `available` are free.
/// More free space than there is space counts as nothing in use.
pub open spec fn used_space(total: u64, available: u64) -> u64 {
    if available <= total {
        (total - available) as u64
    } else {
        0
    }
}

/// One disk of the host.
#[derive(Clone, Debug, PartialEq, Eq)]
pub struct DiskSummary {
    pub name: String,
    pub mount_point: String,
    pub total_space: u64,
    pub available_space: u64,
    pub usage_percentage: Percentage,
    pub file_system: Option<String>,
}

/// What a `DiskSummary` holds.
pub struct DiskSummaryView {
    pub name: Seq<char>,
    pub mount_point: Seq<char>,
    pub total_space: u64,
    pub available_space: u64,
    pub usage_percentage: Percentage,
    pub file_system: Option<Seq<char>>,
}

impl View for DiskSummary {
    type V = DiskSummaryView;

    open spec fn view(&self) -> DiskSummaryView {
        DiskSummaryView {
            name: self.name@,
            mount_point: self.mount_point@,
            total_space: self.total_space,
            available_space: self.available_space,
            usage_percentage: self.usage_percentage,
            file_system: match self.file_system {
                Some(s) => Some(s@),
                None => None,
            },
        }
    }
}

impl DiskSummary {
    /// Whether the usage is the one that the two sizes give: the share that
    /// the space in use is of the whole, and zero for a disk of no space.
    pub open spec fn wf(&self) -> bool {
        self.usage_percentage.millionths == Percentage::share(
            used_space(self.total_space, self.available_space) as int,
            self.total_space as int,
        )
    }

    /// The usage of a well-formed disk lies between 0 % and 100 %.
    pub proof fn well_formed_usage_is_in_range(self)
        requires
            self.wf(),
        ensures
            self.usage_percentage.in_range(),
    {
        if self.total_space > 0 {
            share_is_bounded(
                used_space(self.total_space, self.available_space) as int,
                self.total_space as int,
            );
        }
    }
}

/// The canonical summary of a host.
#[derive(Clone, Debug, PartialEq, Eq)]
pub struct SystemSummary {
    pub hostname: String,
    pub system_name: String,
    pub os_version: String,
    pub kernel_version: String,
    pub total_memory: u64,
    pub used_memory: u64,
    pub memory_usage_percentage: Percentage,
    pub cpu_count: u64,
    pub cpu_brand: String,
    pub cpu_usage: Percentage,
    pub disks: Vec<DiskSummary>,
}

/// What a `SystemSummary` holds.
pub struct SystemSummaryView {
    pub hostname: Seq<char>,
    pub system_name: Seq<char>,
    pub os_version: Seq<char>,
    pub kernel_version: Seq<char>,
    pub total_memory: u64,
    pub used_memory: u64,
    pub memory_usage_percentage: Percentage,
    pub cpu_count: u64,
    pub cpu_brand: Seq<char>,
    pub cpu_usage: Percentage,
    pub disks: Seq<DiskSummaryView>,
}

impl View for SystemSummary {
    type V = SystemSummaryView;

    open spec fn view(&self) -> SystemSummaryView {
        SystemSummaryView {
            hostname: self.hostname@,
            system_name: self.system_name@,
            os_version: self.os_version@,
            kernel_version: self.kernel_version@,
            total_memory: self.total_memory,
            used_memory: self.used_memory,
            memory_usage_percentage: self.memory_usage_percentage,
            cpu_count: self.cpu_count,
            cpu_brand: self.cpu_brand@,
            cpu_usage: self.cpu_usage,
            disks: self.disks@.map_values(|d: DiskSummary| d@),
        }
    }
}

impl SystemSummary {
    /// Whether each derived field is the one that the fields it derives from
    /// give: the memory usage is the share that the used memory is of the
    /// whole, and every disk is well formed.
    pub open spec fn wf(&self) -> bool {
        &&& self.memory_usage_percentage.millionths == Percentage::share(
            self.used_memory as int,
            self.total_memory as int,
        )
        &&& forall|i: int| 0 <= i < self.disks@.len() ==> (#[trigger] self.disks@[i]).wf()
    }
}

} // verus!
