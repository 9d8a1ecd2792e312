//! The kernel's CPU and memory statistics lines, parsed exactly, and
//! the derived memory figures the bar shows. The file I/O lives in
//! the embedding; the line formats live here.

use vstd::prelude::*;

use crate::parse::{
    next_field, parse_u32, parse_u64, find_from, spec_all_digits, spec_decimal_value, spec_field,
    spec_find_from, spec_skip_spaces,
};

verus! {

/// One `cpu` line of the kernel's scheduler statistics: the ten time
/// counters after the label.
#[derive(Clone, Copy, Debug, Default, PartialEq, Eq, Structural)]
pub struct CpuStat {
    pub user: u32,
    pub nice: u32,
    pub system: u32,
    pub idle: u32,
    pub iowait: u32,
    pub irq: u32,
    pub softirq: u32,
    pub steal: u32,
    pub guest: u32,
    pub guest_nice: u32,
}

/// The value of the `n`th space-separated field after position `p`,
/// when it is a non-empty digit run in `u32` range.
pub open spec fn spec_field_u32(s: Seq<u8>, a: int, b: int) -> Option<u32> {
    if a < b && spec_all_digits(s.subrange(a, b)) && spec_decimal_value(s.subrange(a, b))
        <= u32::MAX {
        Option::Some(spec_decimal_value(s.subrange(a, b)) as u32)
    } else {
        Option::None
    }
}

/// What parsing a scheduler statistics line yields: the first field is
/// the label and is skipped; the next ten fields must be in-range
/// digit runs, and become the counters in order.
pub open spec fn spec_parse_cpu_stat(s: Seq<u8>) -> Option<CpuStat> {
    let (a0, b0) = spec_field(s, 0);
    let (a1, b1) = spec_field(s, b0);
    let (a2, b2) = spec_field(s, b1);
    let (a3, b3) = spec_field(s, b2);
    let (a4, b4) = spec_field(s, b3);
    let (a5, b5) = spec_field(s, b4);
    let (a6, b6) = spec_field(s, b5);
    let (a7, b7) = spec_field(s, b6);
    let (a8, b8) = spec_field(s, b7);
    let (a9, b9) = spec_field(s, b8);
    let (a10, b10) = spec_field(s, b9);
    if a0 == b0 {
        Option::None
    } else {
        match (
            spec_field_u32(s, a1, b1),
            spec_field_u32(s, a2, b2),
            spec_field_u32(s, a3, b3),
            spec_field_u32(s, a4, b4),
            spec_field_u32(s, a5, b5),
            spec_field_u32(s, a6, b6),
            spec_field_u32(s, a7, b7),
            spec_field_u32(s, a8, b8),
            spec_field_u32(s, a9, b9),
            spec_field_u32(s, a10, b10),
        ) {
            (
                Option::Some(user),
                Option::Some(nice),
                Option::Some(system),
                Option::Some(idle),
                Option::Some(iowait),
                Option::Some(irq),
                Option::Some(softirq),
                Option::Some(steal),
                Option::Some(guest),
                Option::Some(guest_nice),
            ) => Option::Some(
                CpuStat {
                    user,
                    nice,
                    system,
                    idle,
                    iowait,
                    irq,
                    softirq,
                    steal,
                    guest,
                    guest_nice,
                },
            ),
            _ => Option::None,
        }
    }
}

impl CpuStat {
    /// Parses one statistics line; exactly the lines
    /// `spec_parse_cpu_stat` accepts yield a value, and that value.
    pub fn parse_from(s: &[u8]) -> (r: Option<CpuStat>)
        ensures
            r == spec_parse_cpu_stat(s@),
    {
        let (a0, b0) = next_field(s, 0);
        if a0 == b0 {
            return Option::None;
        }
        let f1 = parse_field_u32(s, b0);
        let f2 = parse_field_u32(s, f1.1);
        let f3 = parse_field_u32(s, f2.1);
        let f4 = parse_field_u32(s, f3.1);
        let f5 = parse_field_u32(s, f4.1);
        let f6 = parse_field_u32(s, f5.1);
        let f7 = parse_field_u32(s, f6.1);
        let f8 = parse_field_u32(s, f7.1);
        let f9 = parse_field_u32(s, f8.1);
        let f10 = parse_field_u32(s, f9.1);
        match (f1.0, f2.0, f3.0, f4.0, f5.0, f6.0, f7.0, f8.0, f9.0, f10.0) {
            (
                Option::Some(user),
                Option::Some(nice),
                Option::Some(system),
                Option::Some(idle),
                Option::Some(iowait),
                Option::Some(irq),
                Option::Some(softirq),
                Option::Some(steal),
                Option::Some(guest),
                Option::Some(guest_nice),
            ) => Option::Some(
                CpuStat {
                    user,
                    nice,
                    system,
                    idle,
                    iowait,
                    irq,
                    softirq,
                    steal,
                    guest,
                    guest_nice,
                },
            ),
            _ => Option::None,
        }
    }

    /// Total busy time: every counter except the idle ones.
    pub fn total(&self) -> (r: u64)
        ensures
            r == self.user + self.nice + self.system + self.irq + self.softirq,
    {
        self.user as u64 + self.nice as u64 + self.system as u64 + self.irq as u64
            + self.softirq as u64
    }
}

/// Reads one field as a `u32` and hands back where it ended.
fn parse_field_u32(s: &[u8], p: usize) -> (r: (Option<u32>, usize))
    requires
        p <= s@.len(),
    ensures
        ({
            let (a, b) = spec_field(s@, p as int);
            r.0 == spec_field_u32(s@, a, b) && r.1 == b && p <= b <= s@.len()
        }),
{
    let (a, b) = next_field(s, p);
    if a == b {
        return (Option::None, b);
    }
    let part = &s[a..b];
    proof {
        assert(part@ =~= s@.subrange(a as int, b as int));
    }
    (parse_u32(part), b)
}

/// The memory figures the bar shows, in whole mebibytes.
#[derive(Clone, Copy, Debug, Default, PartialEq, Eq, Structural)]
pub struct MemoryState {
    pub total_mb: u64,
    pub used_mb: u64,
    pub avail_mb: u64,
}

impl MemoryState {
    /// Derives the shown figures from the kernel's total and
    /// available kibibyte counts: used memory is what is not
    /// available, and every figure is scaled to whole mebibytes.
    pub fn from_kb(total_kb: u64, avail_kb: u64) -> (r: MemoryState)
        requires
            avail_kb <= total_kb,
        ensures
            r.total_mb == total_kb / 1024,
            r.used_mb == (total_kb - avail_kb) / 1024,
            r.avail_mb == avail_kb / 1024,
    {
        MemoryState {
            total_mb: total_kb / 1024,
            used_mb: (total_kb - avail_kb) / 1024,
            avail_mb: avail_kb / 1024,
        }
    }
}

/// Share of the elapsed scheduler time that was busy, in whole
/// percent: busy time over busy plus idle time, and zero when no time
/// passed at all.
pub fn cpu_usage_percent(busy_delta: u64, idle_delta: u64) -> (r: u64)
    ensures
        busy_delta + idle_delta == 0 ==> r == 0,
        busy_delta + idle_delta > 0 ==> r == busy_delta * 100 / (busy_delta + idle_delta),
        r <= 100,
{
    let span = busy_delta as u128 + idle_delta as u128;
    if span == 0 {
        return 0;
    }
    proof {
        assert(busy_delta * 100 <= (busy_delta + idle_delta) * 100) by (nonlinear_arith)
            requires
                0 <= busy_delta,
                0 <= idle_delta,
        ;
        assert((busy_delta + idle_delta) * 100 / (busy_delta + idle_delta) == 100)
            by (nonlinear_arith)
            requires
                busy_delta + idle_delta >= 1,
        ;
        vstd::arithmetic::div_mod::lemma_div_is_ordered(
            busy_delta * 100,
            (busy_delta + idle_delta) * 100,
            busy_delta + idle_delta,
        );
    }
    (busy_delta as u128 * 100 / span) as u64
}

/// How the per-core readout is arranged: at most eight rows per
/// column, and as many columns as that takes; rows then spread the
/// cores evenly over those columns.
pub fn cpu_grid(cores: usize) -> (r: (usize, usize))
    requires
        1 <= cores <= 0x1_0000,
    ensures
        r.1 == (cores + 7) / 8,
        r.0 == (cores + r.1 - 1) as int / (r.1 as int),
{
    let cols = (cores + 7) / 8;
    let rows = (cores + cols - 1) / cols;
    (rows, cols)
}

/// What parsing one memory statistics line yields: everything after
/// the first colon must be a digit-run field followed by a `kB` field
/// and nothing else; the value is that digit run's.
pub open spec fn spec_parse_meminfo_value(s: Seq<u8>) -> Option<u64> {
    let c = spec_find_from(s, 0, 0x3A);
    if c >= s.len() {
        Option::None
    } else {
        let (a1, b1) = spec_field(s, c + 1);
        let (a2, b2) = spec_field(s, b1);
        if a1 < b1 && spec_all_digits(s.subrange(a1, b1)) && spec_decimal_value(
            s.subrange(a1, b1),
        ) <= u64::MAX && s.subrange(a2, b2) =~= seq![0x6Bu8, 0x42u8] && spec_skip_spaces(s, b2)
            == s.len() {
            Option::Some(spec_decimal_value(s.subrange(a1, b1)) as u64)
        } else {
            Option::None
        }
    }
}

/// Parses one `Name:   12345 kB` line of the kernel's memory
/// statistics; exactly the lines `spec_parse_meminfo_value` accepts
/// yield a value, and that value.
pub fn parse_meminfo_value(s: &[u8]) -> (r: Option<u64>)
    ensures
        r == spec_parse_meminfo_value(s@),
{
    let c = find_from(s, 0, 0x3A);
    if c >= s.len() {
        return Option::None;
    }
    let (a1, b1) = next_field(s, c + 1);
    if a1 == b1 {
        return Option::None;
    }
    let part = &s[a1..b1];
    proof {
        assert(part@ =~= s@.subrange(a1 as int, b1 as int));
    }
    let value = match parse_u64(part) {
        Option::Some(v) => v,
        Option::None => {
            return Option::None;
        },
    };
    let (a2, b2) = next_field(s, b1);
    let unit = &s[a2..b2];
    proof {
        assert(unit@ =~= s@.subrange(a2 as int, b2 as int));
    }
    if !(unit.len() == 2 && unit[0] == 0x6B && unit[1] == 0x42) {
        proof {
            assert(!(s@.subrange(a2 as int, b2 as int) =~= seq![0x6Bu8, 0x42u8]));
        }
        return Option::None;
    }
    proof {
        assert(s@.subrange(a2 as int, b2 as int) =~= seq![0x6Bu8, 0x42u8]);
    }
    let mut t = b2;
    while t < s.len() && s[t] == 0x20
        invariant
            b2 <= t <= s@.len(),
            spec_skip_spaces(s@, b2 as int) == spec_skip_spaces(s@, t as int),
        decreases s@.len() - t,
    {
        t = t + 1;
    }
    if t < s.len() {
        return Option::None;
    }
    Option::Some(value)
}

} // verus!
