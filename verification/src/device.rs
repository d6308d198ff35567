//! Rows of the flat diagnostic listing: one parsed record per device, with
//! classification into pool/vdev-level and disk-level rows.

use vstd::prelude::*;
use vstd::string::*;

use crate::text::{
    dec_value, lemma_dec_value_nonneg, parse_u64, split_on, split_text, str_views, valid_u64,
};

verus! {

/// I/O counters of one row; `capacity`/`available` are both present on a
/// pool/vdev-level row and both absent on a disk-level row.
#[derive(Debug, PartialEq, Eq, Clone, Copy)]
pub struct IoStats {
    pub capacity: Option<u64>,
    pub available: Option<u64>,
    pub read_op: u64,
    pub write_op: u64,
    pub read_band: u64,
    pub write_band: u64,
}

impl IoStats {
    /// Both size fields present, or neither.
    pub open spec fn well_formed(self) -> bool {
        self.capacity is Some <==> self.available is Some
    }

    pub fn new(
        capacity: Option<u64>,
        available: Option<u64>,
        read_op: u64,
        write_op: u64,
        read_band: u64,
        write_band: u64,
    ) -> (r: Self)
        ensures
            r == (IoStats { capacity, available, read_op, write_op, read_band, write_band }),
    {
        Self { capacity, available, read_op, write_op, read_band, write_band }
    }
}

/// One named device row of the listing.
#[derive(Debug, PartialEq, Eq)]
pub struct Device {
    pub name: String,
    pub io_stats: IoStats,
}

/// The mathematical value of a `Device`.
pub struct DeviceV {
    pub name: Seq<char>,
    pub io_stats: IoStats,
}

impl View for Device {
    type V = DeviceV;

    open spec fn view(&self) -> DeviceV {
        DeviceV { name: self.name@, io_stats: self.io_stats }
    }
}

/// The values of a sequence of devices.
pub open spec fn devs_view(v: Seq<Device>) -> Seq<DeviceV> {
    v.map_values(|d: Device| d@)
}

/// Why a row or a whole listing cannot be parsed.
#[derive(Debug, PartialEq, Eq, Structural, Clone, Copy)]
pub enum ParseError {
    /// Wrong field count or an empty field: the row is dropped.
    MalformedRow,
    /// A field that must be numeric is not: fatal for the listing.
    NumericParseFailure,
}

/// The fields of one row: the row text split on the tab character.
pub open spec fn row_fields(line: Seq<char>) -> Seq<Seq<char>> {
    split_text(line, '\t')
}

/// A row is well-formed iff it has exactly 7 fields, none empty.
pub open spec fn row_well_formed(line: Seq<char>) -> bool {
    let f = row_fields(line);
    f.len() == 7 && (forall|k: int| 0 <= k < 7 ==> f[k].len() > 0)
}

/// All six counter fields of a well-formed row denote 64-bit values.
pub open spec fn row_numeric_ok(line: Seq<char>) -> bool {
    let f = row_fields(line);
    forall|k: int| 1 <= k < 7 ==> valid_u64(f[k])
}

/// The record a well-formed, numeric row denotes: field 0 names the device;
/// an allocated value of 0 marks a disk-level row, anything else a
/// pool/vdev-level row carrying capacity and available.
pub open spec fn row_device(line: Seq<char>) -> DeviceV {
    let f = row_fields(line);
    let alloc = dec_value(f[1]) as u64;
    let free = dec_value(f[2]) as u64;
    DeviceV {
        name: f[0],
        io_stats: IoStats {
            capacity: if alloc == 0 {
                None
            } else {
                Some(alloc)
            },
            available: if alloc == 0 {
                None
            } else {
                Some(free)
            },
            read_op: dec_value(f[3]) as u64,
            write_op: dec_value(f[4]) as u64,
            read_band: dec_value(f[5]) as u64,
            write_band: dec_value(f[6]) as u64,
        },
    }
}

/// A parsed row whose allocated field reads 0 is disk-level (capacity and
/// available absent); any other allocated value is pool/vdev-level (both
/// present).
pub proof fn lemma_row_classification(line: Seq<char>)
    requires
        row_well_formed(line),
        row_numeric_ok(line),
    ensures
        dec_value(row_fields(line)[1]) == 0 ==> row_device(line).io_stats.capacity is None
            && row_device(line).io_stats.available is None,
        dec_value(row_fields(line)[1]) != 0 ==> row_device(line).io_stats.capacity == Some(
            dec_value(row_fields(line)[1]) as u64,
        ) && row_device(line).io_stats.available == Some(dec_value(row_fields(line)[2]) as u64),
        row_device(line).io_stats.well_formed(),
{
    lemma_dec_value_nonneg(row_fields(line)[1]);
}

/// Parsing is a pure function of the row text: two parses of the same
/// well-formed row yield identical records.
pub proof fn lemma_parse_idempotent(line: Seq<char>, a: DeviceV, b: DeviceV)
    requires
        a == row_device(line),
        b == row_device(line),
    ensures
        a == b,
{
}

impl Device {
    pub fn new(name: String, io_stats: IoStats) -> (r: Self)
        ensures
            r@.name == name@,
            r@.io_stats == io_stats,
    {
        Self { name, io_stats }
    }

    /// A row carrying capacity and available is a pool- or vdev-level row.
    pub fn is_pool_or_vdev(&self) -> (r: bool)
        ensures
            r == (self@.io_stats.capacity is Some && self@.io_stats.available is Some),
    {
        self.io_stats.available.is_some() && self.io_stats.capacity.is_some()
    }

    /// Parses one tab-delimited row.
    pub fn parse_row(line: &str) -> (r: Result<Device, ParseError>)
        ensures
            row_well_formed(line@) && row_numeric_ok(line@) ==> (r matches Ok(d) && d@
                == row_device(line@) && d@.io_stats.well_formed()),
            !row_well_formed(line@) ==> r == Err::<Device, ParseError>(ParseError::MalformedRow),
            row_well_formed(line@) && !row_numeric_ok(line@) ==> r == Err::<Device, ParseError>(
                ParseError::NumericParseFailure,
            ),
    {
        let fields = split_on(line, '\t');
        if fields.len() != 7 {
            return Err(ParseError::MalformedRow);
        }
        let mut k: usize = 0;
        while k < 7
            invariant
                fields@.len() == 7,
                str_views(fields@) == row_fields(line@),
                k <= 7,
                forall|j: int| 0 <= j < k ==> row_fields(line@)[j].len() > 0,
            decreases 7 - k,
        {
            if fields[k].as_str().is_empty() {
                return Err(ParseError::MalformedRow);
            }
            k = k + 1;
        }
        let alloc = match parse_u64(fields[1].as_str()) {
            Some(v) => v,
            None => {
                return Err(ParseError::NumericParseFailure);
            },
        };
        let free = match parse_u64(fields[2].as_str()) {
            Some(v) => v,
            None => {
                return Err(ParseError::NumericParseFailure);
            },
        };
        let read_op = match parse_u64(fields[3].as_str()) {
            Some(v) => v,
            None => {
                return Err(ParseError::NumericParseFailure);
            },
        };
        let write_op = match parse_u64(fields[4].as_str()) {
            Some(v) => v,
            None => {
                return Err(ParseError::NumericParseFailure);
            },
        };
        let read_band = match parse_u64(fields[5].as_str()) {
            Some(v) => v,
            None => {
                return Err(ParseError::NumericParseFailure);
            },
        };
        let write_band = match parse_u64(fields[6].as_str()) {
            Some(v) => v,
            None => {
                return Err(ParseError::NumericParseFailure);
            },
        };
        let (capacity, available) = if alloc == 0 {
            (None, None)
        } else {
            (Some(alloc), Some(free))
        };
        let name = fields[0].clone();
        Ok(Device::new(name, IoStats::new(capacity, available, read_op, write_op, read_band,
            write_band)))
    }

    /// Parses the whole listing: malformed rows are dropped, a numeric parse
    /// failure in any well-formed row fails the whole listing, and the
    /// surviving records keep the listing's order.
    pub fn parse_from_stdout(stdout: String) -> (r: Result<Vec<Device>, ParseError>)
        ensures
            r matches Ok(v) ==> scrape_ok(stdout@) && devs_view(v@) == devices_of(stdout@),
            r is Err ==> !scrape_ok(stdout@) && r == Err::<Vec<Device>, ParseError>(
                ParseError::NumericParseFailure,
            ),
    {
        let lines = split_on(stdout.as_str(), '\n');
        let ghost lv = scrape_lines(stdout@);
        let mut devices: Vec<Device> = Vec::new();
        let mut i: usize = 0;
        proof {
            assert(lv.subrange(0, lv.len() as int) =~= lv);
        }
        while i < lines.len()
            invariant
                str_views(lines@) == lv,
                lv == scrape_lines(stdout@),
                i <= lines@.len(),
                lines@.len() == lv.len(),
                devs_view(devices@) + devices_of_lines(lv.subrange(i as int, lv.len() as int))
                    == devices_of(stdout@),
                forall|k: int| 0 <= k < i ==> (row_well_formed(lv[k]) ==> row_numeric_ok(lv[k])),
            decreases lines@.len() - i,
        {
            let ghost rest = lv.subrange(i as int, lv.len() as int);
            proof {
                assert(rest[0] == lv[i as int]);
                assert(rest.drop_first() =~= lv.subrange(i + 1, lv.len() as int));
            }
            let line = &lines[i];
            match Device::parse_row(line.as_str()) {
                Ok(d) => {
                    let ghost old_devices = devices@;
                    devices.push(d);
                    proof {
                        assert(devs_view(devices@) =~= devs_view(old_devices).push(d@));
                        assert(devs_view(devices@)
                            + devices_of_lines(lv.subrange(i + 1, lv.len() as int))
                            =~= devices_of(stdout@));
                    }
                },
                Err(ParseError::MalformedRow) => {
                    proof {
                        assert(devs_view(devices@)
                            + devices_of_lines(lv.subrange(i + 1, lv.len() as int))
                            =~= devices_of(stdout@));
                    }
                },
                Err(ParseError::NumericParseFailure) => {
                    proof {
                        assert(!scrape_ok(stdout@)) by {
                            assert(row_well_formed(lv[i as int]) && !row_numeric_ok(
                                lv[i as int],
                            ));
                        }
                    }
                    return Err(ParseError::NumericParseFailure);
                },
            }
            i = i + 1;
        }
        proof {
            assert(lv.subrange(i as int, lv.len() as int) =~= Seq::<Seq<char>>::empty());
            assert(devs_view(devices@) + Seq::<DeviceV>::empty() =~= devs_view(devices@));
        }
        Ok(devices)
    }
}

/// The rows of the listing: the raw text split on newlines.
pub open spec fn scrape_lines(s: Seq<char>) -> Seq<Seq<char>> {
    split_text(s, '\n')
}

/// No well-formed row of the listing has a non-numeric counter field.
pub open spec fn scrape_ok(s: Seq<char>) -> bool {
    forall|k: int|
        0 <= k < scrape_lines(s).len() ==> (row_well_formed(scrape_lines(s)[k])
            ==> row_numeric_ok(scrape_lines(s)[k]))
}

/// The records of the listing's rows, in row order: well-formed numeric rows
/// parsed, all other rows dropped.
pub open spec fn devices_of_lines(lines: Seq<Seq<char>>) -> Seq<DeviceV>
    decreases lines.len(),
{
    if lines.len() == 0 {
        Seq::empty()
    } else {
        let head = if row_well_formed(lines[0]) && row_numeric_ok(lines[0]) {
            seq![row_device(lines[0])]
        } else {
            Seq::<DeviceV>::empty()
        };
        head + devices_of_lines(lines.drop_first())
    }
}

/// The records the whole listing denotes.
pub open spec fn devices_of(s: Seq<char>) -> Seq<DeviceV> {
    devices_of_lines(scrape_lines(s))
}

} // verus!
