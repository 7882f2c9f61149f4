//! Decoding of the kernel's per-device disk statistics table.

use vstd::prelude::*;
use crate::text::{all_digits, decimal_value, fields_of, parse_decimal, split_fields};

verus! {

/// What a device counter counts. The kernel's statistics table counts
/// sectors; an OS aggregation API may count bytes. The two are not
/// converted into each other: the unit travels with the figures.
#[derive(PartialEq, Eq, Structural, Clone, Copy, Debug)]
pub enum CounterUnit {
    Sectors,
    Bytes,
}

/// Cumulative read/write counters of one block device since boot.
pub struct IoCounter {
    pub device_name: String,
    pub sectors_read: u64,
    pub sectors_written: u64,
    pub unit: CounterUnit,
}

impl View for IoCounter {
    type V = (Seq<char>, nat, nat, CounterUnit);

    open spec fn view(&self) -> Self::V {
        (self.device_name@, self.sectors_read as nat, self.sectors_written as nat, self.unit)
    }
}

/// Fewest fields a well-formed statistics line has.
pub const MIN_STAT_FIELDS: usize = 14;

/// A field that reads as a 64-bit unsigned decimal counter.
pub open spec fn is_counter(s: Seq<char>) -> bool {
    s.len() > 0 && all_digits(s) && decimal_value(s) <= u64::MAX
}

/// The counters a statistics line describes: device name in field 2, sectors
/// read in field 5 and sectors written in field 9 (from zero), in sectors.
pub open spec fn io_row(line: Seq<char>) -> Option<(Seq<char>, nat, nat, CounterUnit)> {
    let f = fields_of(line);
    if f.len() < MIN_STAT_FIELDS || !is_counter(f[5]) || !is_counter(f[9]) {
        None
    } else {
        Some((f[2], decimal_value(f[5]), decimal_value(f[9]), CounterUnit::Sectors))
    }
}

/// The counters kept from a whole statistics table, in order.
pub open spec fn io_rows(lines: Seq<Seq<char>>) -> Seq<(Seq<char>, nat, nat, CounterUnit)>
    decreases lines.len(),
{
    if lines.len() == 0 {
        Seq::empty()
    } else {
        let rest = io_rows(lines.drop_last());
        match io_row(lines.last()) {
            Some(e) => rest.push(e),
            None => rest,
        }
    }
}

/// Decodes one line of the statistics table; short or malformed lines give `None`.
pub fn parse_iostat_line(line: &str) -> (r: Option<IoCounter>)
    ensures
        r is Some <==> io_row(line@) is Some,
        r is Some ==> r->0@ == io_row(line@)->0,
{
    let fields = split_fields(line);
    proof {
        assert(fields@.len() == fields_of(line@).len());
    }
    if fields.len() < MIN_STAT_FIELDS {
        return None;
    }
    proof {
        assert(fields@[2]@ == fields_of(line@)[2]);
        assert(fields@[5]@ == fields_of(line@)[5]);
        assert(fields@[9]@ == fields_of(line@)[9]);
    }
    let read = parse_decimal(fields[5].as_str());
    let written = parse_decimal(fields[9].as_str());
    match (read, written) {
        (Some(rd), Some(wr)) => Some(IoCounter {
            device_name: fields[2].clone(),
            sectors_read: rd,
            sectors_written: wr,
            unit: CounterUnit::Sectors,
        }),
        _ => None,
    }
}

/// Decodes a statistics table given line by line, skipping malformed lines.
pub fn parse_diskstats(lines: &Vec<String>) -> (r: Vec<IoCounter>)
    ensures
        r@.map_values(|c: IoCounter| c@) == io_rows(lines@.map_values(|l: String| l@)),
{
    let mut out: Vec<IoCounter> = Vec::new();
    let mut i: usize = 0;
    while i < lines.len()
        invariant
            i <= lines@.len(),
            out@.map_values(|c: IoCounter| c@) == io_rows(
                lines@.subrange(0, i as int).map_values(|l: String| l@),
            ),
        decreases lines@.len() - i,
    {
        let ghost before = out@.map_values(|c: IoCounter| c@);
        proof {
            let pre = lines@.subrange(0, i as int + 1).map_values(|l: String| l@);
            assert(pre.drop_last() =~= lines@.subrange(0, i as int).map_values(|l: String| l@));
            assert(pre.last() == lines@[i as int]@);
        }
        match parse_iostat_line(lines[i].as_str()) {
            Some(c) => {
                out.push(c);
                assert(out@.map_values(|c: IoCounter| c@) =~= before.push(c@));
            },
            None => {},
        }
        i = i + 1;
    }
    assert(lines@.subrange(0, lines@.len() as int) =~= lines@);
    out
}

} // verus!
