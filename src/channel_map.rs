//! The map from GET hardware addresses to detector elements.
use std::collections::HashMap;
use vstd::prelude::*;
use vstd::string::StringSliceAdditionalSpecFns;
use vstd::utf8::{decode_utf8, valid_utf8};

use crate::error::{DetectorError, GetChannelMapError};
use crate::hardware_id::{detector_of, generate_uuid, uuid_of, Detector, HardwareID};
use crate::text::string_from_utf8;

verus! {

broadcast use vstd::std_specs::hash::group_hash_axioms;

/// Maps the key of each populated hardware address (see `generate_uuid`) to
/// its full `HardwareID`.
#[derive(Debug, Clone)]
pub struct GetChannelMap {
    map: HashMap<u64, HardwareID>,
}

impl View for GetChannelMap {
    type V = Map<u64, HardwareID>;

    closed spec fn view(&self) -> Map<u64, HardwareID> {
        self.map@
    }
}

/// Key of the hardware address of a `HardwareID`.
pub open spec fn hardware_key(h: HardwareID) -> int {
    uuid_of(h.cobo_id as int, h.asad_id as int, h.aget_id as int, h.channel as int)
}

impl GetChannelMap {
    /// An empty map.
    pub fn new() -> (r: Self)
        ensures
            r@ == Map::<u64, HardwareID>::empty(),
    {
        GetChannelMap { map: HashMap::new() }
    }

    /// Adds (or replaces) the entry of `hw`'s address.
    pub fn insert(&mut self, hw: HardwareID)
        requires
            hw.cobo_id < 256,
            hw.asad_id < 256,
            hw.aget_id < 256,
            hw.channel < 256,
        ensures
            final(self)@ == old(self)@.insert(hardware_key(hw) as u64, hw),
    {
        let key = generate_uuid(&(hw.cobo_id as u8), &(hw.asad_id as u8), &(hw.aget_id as u8), &(hw.channel as u8));
        self.map.insert(key, hw);
    }

    /// The entry of a hardware address, if the map has one.
    pub fn get_hardware_id(&self, cobo_id: &u8, asad_id: &u8, aget_id: &u8, channel_id: &u8) -> (r: Option<&HardwareID>)
        ensures
            ({
                let key = uuid_of(*cobo_id as int, *asad_id as int, *aget_id as int, *channel_id as int) as u64;
                match r {
                    Some(h) => self@.contains_key(key) && *h == self@[key],
                    None => !self@.contains_key(key),
                }
            }),
    {
        let uuid = generate_uuid(cobo_id, asad_id, aget_id, channel_id);
        self.map.get(&uuid)
    }
}

/// Pieces of `b` between the `sep` bytes (one more than there are `sep`s).
pub open spec fn split(b: Seq<u8>, sep: u8) -> Seq<Seq<u8>>
    decreases b.len(),
{
    if b.len() == 0 {
        seq![seq![]]
    } else {
        let s = split(b.drop_last(), sep);
        if b.last() == sep {
            s.push(seq![])
        } else {
            s.update(s.len() - 1, s.last().push(b.last()))
        }
    }
}

proof fn lemma_split_nonempty(b: Seq<u8>, sep: u8)
    ensures
        split(b, sep).len() >= 1,
    decreases b.len(),
{
    if b.len() > 0 {
        lemma_split_nonempty(b.drop_last(), sep);
    }
}

/// `split`, without the last piece when it is empty: the pieces that a
/// `sep` terminates or separates.
pub open spec fn split_terminated(b: Seq<u8>, sep: u8) -> Seq<Seq<u8>> {
    let s = split(b, sep);
    if s.len() > 0 && s.last().len() == 0 {
        s.drop_last()
    } else {
        s
    }
}

/// A line without its trailing carriage return, if any.
pub open spec fn strip_cr(line: Seq<u8>) -> Seq<u8> {
    if line.len() > 0 && line.last() == 13 {
        line.drop_last()
    } else {
        line
    }
}

/// The rows of a channel-map text: its lines after the header line.
pub open spec fn data_lines(b: Seq<u8>) -> Seq<Seq<u8>> {
    let lines = split_terminated(b, 10);
    if lines.len() == 0 {
        lines
    } else {
        lines.subrange(1, lines.len() as int)
    }
}

/// Value of a string of decimal digits.
pub open spec fn digits_value(s: Seq<u8>) -> nat
    decreases s.len(),
{
    if s.len() == 0 {
        0
    } else {
        digits_value(s.drop_last()) * 10 + (s.last() - 48) as nat
    }
}

pub open spec fn all_digits(s: Seq<u8>) -> bool {
    forall|i: int| 0 <= i < s.len() ==> 48 <= #[trigger] s[i] <= 57
}

/// An unsigned decimal integer at most `max`, with an optional leading '+'.
pub open spec fn parse_unsigned(s: Seq<u8>, max: nat) -> Option<nat> {
    let d = if s.len() > 0 && s[0] == 43 {
        s.subrange(1, s.len() as int)
    } else {
        s
    };
    if d.len() > 0 && all_digits(d) && digits_value(d) <= max {
        Some(digits_value(d))
    } else {
        None
    }
}

/// Why a channel-map row is rejected.
#[derive(Debug, Clone, Copy, PartialEq, Eq)]
pub enum RowFault {
    /// A number of columns that no layout has.
    Format,
    /// A field that should hold an integer does not.
    Number,
    /// An unknown detector keyword.
    Keyword,
}

pub open spec fn fault_of(e: GetChannelMapError) -> RowFault {
    match e {
        GetChannelMapError::BadFileFormat => RowFault::Format,
        GetChannelMapError::ParsingError(_) => RowFault::Number,
        GetChannelMapError::BadDetKeyword(_) => RowFault::Keyword,
    }
}

/// The entry of a row of fields: `cobo,asad,aget,channel` (each at most
/// 255), then either a pad number (5 fields) or a detector keyword, its
/// channel and one more field that is not read (7 fields); any other count
/// of fields is a format fault.
pub open spec fn row_spec(f: Seq<Seq<u8>>) -> Result<HardwareID, RowFault> {
    if f.len() < 5 {
        Err(RowFault::Format)
    } else if parse_unsigned(f[0], 255) is None || parse_unsigned(f[1], 255) is None
        || parse_unsigned(f[2], 255) is None || parse_unsigned(f[3], 255) is None {
        Err(RowFault::Number)
    } else {
        let cobo = parse_unsigned(f[0], 255).unwrap() as usize;
        let asad = parse_unsigned(f[1], 255).unwrap() as usize;
        let aget = parse_unsigned(f[2], 255).unwrap() as usize;
        let channel = parse_unsigned(f[3], 255).unwrap() as usize;
        if f.len() == 5 {
            match parse_unsigned(f[4], usize::MAX as nat) {
                None => Err(RowFault::Number),
                Some(p) => Ok(HardwareID { cobo_id: cobo, asad_id: asad, aget_id: aget, channel, detector: Detector::Pad(p as usize) }),
            }
        } else if f.len() == 7 {
            match parse_unsigned(f[5], usize::MAX as nat) {
                None => Err(RowFault::Number),
                Some(c) => if !valid_utf8(f[4]) {
                    Err(RowFault::Keyword)
                } else {
                    match detector_of(decode_utf8(f[4]), c as usize) {
                        None => Err(RowFault::Keyword),
                        Some(d) => Ok(HardwareID { cobo_id: cobo, asad_id: asad, aget_id: aget, channel, detector: d }),
                    }
                },
            }
        } else {
            Err(RowFault::Format)
        }
    }
}

/// Entries of the rows, or the fault of the first bad row.
pub open spec fn parse_rows(lines: Seq<Seq<u8>>) -> Result<Seq<HardwareID>, RowFault>
    decreases lines.len(),
{
    if lines.len() == 0 {
        Ok(seq![])
    } else {
        match parse_rows(lines.drop_last()) {
            Err(e) => Err(e),
            Ok(rows) => match row_spec(split_terminated(strip_cr(lines.last()), 44)) {
                Err(e) => Err(e),
                Ok(h) => Ok(rows.push(h)),
            },
        }
    }
}

/// The map holding the entries in order, a later entry replacing an
/// earlier one of the same address.
pub open spec fn rows_map(rows: Seq<HardwareID>) -> Map<u64, HardwareID>
    decreases rows.len(),
{
    if rows.len() == 0 {
        Map::empty()
    } else {
        rows_map(rows.drop_last()).insert(hardware_key(rows.last()) as u64, rows.last())
    }
}

pub open spec fn pieces_view(v: Seq<Vec<u8>>) -> Seq<Seq<u8>> {
    v.map_values(|p: Vec<u8>| p@)
}

fn split_bytes(b: &[u8], sep: u8) -> (r: Vec<Vec<u8>>)
    ensures
        pieces_view(r@) == split(b@, sep),
{
    let mut out: Vec<Vec<u8>> = Vec::new();
    let mut cur: Vec<u8> = Vec::new();
    let mut i: usize = 0;
    while i < b.len()
        invariant
            i <= b@.len(),
            pieces_view(out@).push(cur@) == split(b@.subrange(0, i as int), sep),
        decreases b@.len() - i,
    {
        let ghost pre = b@.subrange(0, i as int);
        assert(b@.subrange(0, i + 1).drop_last() =~= pre);
        proof {
            lemma_split_nonempty(pre, sep);
        }
        if b[i] == sep {
            out.push(cur);
            cur = Vec::new();
            assert(pieces_view(out@).push(cur@) =~= split(pre, sep).push(seq![]));
        } else {
            cur.push(b[i]);
            assert(pieces_view(out@).push(cur@) =~= split(pre, sep).update(
                split(pre, sep).len() - 1,
                split(pre, sep).last().push(b@[i as int]),
            ));
        }
        i = i + 1;
    }
    assert(b@.subrange(0, b@.len() as int) =~= b@);
    out.push(cur);
    out
}

fn split_terminated_bytes(b: &[u8], sep: u8) -> (r: Vec<Vec<u8>>)
    ensures
        pieces_view(r@) == split_terminated(b@, sep),
{
    let mut pieces = split_bytes(b, sep);
    let n = pieces.len();
    if n > 0 && pieces[n - 1].len() == 0 {
        pieces.pop();
        assert(pieces_view(pieces@) =~= split(b@, sep).drop_last());
    }
    pieces
}

fn strip_cr_bytes(line: &Vec<u8>) -> (r: Vec<u8>)
    ensures
        r@ == strip_cr(line@),
{
    let mut r = line.clone();
    assert(r@ == line@);
    let n = r.len();
    if n > 0 && r[n - 1] == 13 {
        r.pop();
        assert(r@ =~= line@.drop_last());
    }
    r
}

proof fn lemma_digits_prefix(s: Seq<u8>, k: int)
    requires
        0 <= k <= s.len(),
        all_digits(s),
    ensures
        digits_value(s.subrange(0, k)) <= digits_value(s),
    decreases s.len() - k,
{
    if k < s.len() {
        lemma_digits_prefix(s, k + 1);
        assert(s.subrange(0, k + 1).drop_last() =~= s.subrange(0, k));
    } else {
        assert(s.subrange(0, k) =~= s);
    }
}

/// The value of `s` as an unsigned decimal at most `max` (see `parse_unsigned`).
fn parse_field(s: &Vec<u8>, max: usize) -> (r: Option<usize>)
    ensures
        match parse_unsigned(s@, max as nat) {
            Some(v) => r == Some(v as usize),
            None => r is None,
        },
{
    let n = s.len();
    let start: usize = if n > 0 && s[0] == 43 { 1 } else { 0 };
    let ghost d = s@.subrange(start as int, n as int);
    proof {
        if start == 0 {
            assert(d =~= s@);
        }
        assert(d == (if s@.len() > 0 && s@[0] == 43 {
            s@.subrange(1, s@.len() as int)
        } else {
            s@
        }));
    }
    if start >= n {
        return None;
    }
    let mut v: usize = 0;
    let mut i: usize = start;
    while i < n
        invariant
            start <= i <= n,
            n == s@.len(),
            d == s@.subrange(start as int, n as int),
            d == (if s@.len() > 0 && s@[0] == 43 {
                s@.subrange(1, s@.len() as int)
            } else {
                s@
            }),
            all_digits(s@.subrange(start as int, i as int)),
            v == digits_value(s@.subrange(start as int, i as int)),
            v <= max,
        decreases n - i,
    {
        let ghost pre = s@.subrange(start as int, i as int);
        let ghost next = s@.subrange(start as int, i + 1);
        assert(next.drop_last() =~= pre);
        let c = s[i];
        if c < 48 || c > 57 {
            proof {
                assert(!all_digits(d)) by {
                    assert(d[i - start] == c);
                }
            }
            return None;
        }
        let digit = (c - 48) as usize;
        if digit > max || v > (max - digit) / 10 {
            proof {
                if digit <= max {
                    let q = ((max - digit) / 10) as int;
                    vstd::arithmetic::div_mod::lemma_fundamental_div_mod((max - digit) as int, 10);
                    vstd::arithmetic::div_mod::lemma_mod_bound((max - digit) as int, 10);
                    assert(v * 10 + digit > max) by (nonlinear_arith)
                        requires
                            v > q,
                            (max - digit) as int == 10 * q + (max - digit) as int % 10,
                            (max - digit) as int % 10 < 10,
                    ;
                }
                assert(digits_value(next) == v * 10 + digit);
                if all_digits(d) {
                    assert(next =~= d.subrange(0, i + 1 - start));
                    lemma_digits_prefix(d, i + 1 - start);
                }
            }
            return None;
        }
        assert(v * 10 + digit <= max) by (nonlinear_arith)
            requires
                v <= (max - digit) / 10,
                digit <= max,
        ;
        v = v * 10 + digit;
        assert(all_digits(next)) by {
            assert forall|k: int| 0 <= k < next.len() implies 48 <= #[trigger] next[k] <= 57 by {
                if k < pre.len() {
                    assert(next[k] == pre[k]);
                }
            }
        }
        i = i + 1;
    }
    Some(v)
}

fn field_text(f: &Vec<u8>) -> (r: String) {
    match string_from_utf8(f.clone()) {
        Some(s) => s,
        None => String::new(),
    }
}

/// The entry of one row of fields (see `row_spec`).
fn parse_row(f: &Vec<Vec<u8>>) -> (r: Result<HardwareID, GetChannelMapError>)
    ensures
        match row_spec(pieces_view(f@)) {
            Ok(h) => r == Ok::<HardwareID, GetChannelMapError>(h),
            Err(k) => r matches Err(e) && fault_of(e) == k,
        },
{
    let ghost fv = pieces_view(f@);
    let n = f.len();
    if n < 5 {
        return Err(GetChannelMapError::BadFileFormat);
    }
    assert(fv[0] == f@[0]@ && fv[1] == f@[1]@ && fv[2] == f@[2]@ && fv[3] == f@[3]@ && fv[4] == f@[4]@);
    let cobo = match parse_field(&f[0], 255) {
        Some(v) => v as u8,
        None => {
            return Err(GetChannelMapError::ParsingError(field_text(&f[0])));
        },
    };
    let asad = match parse_field(&f[1], 255) {
        Some(v) => v as u8,
        None => {
            return Err(GetChannelMapError::ParsingError(field_text(&f[1])));
        },
    };
    let aget = match parse_field(&f[2], 255) {
        Some(v) => v as u8,
        None => {
            return Err(GetChannelMapError::ParsingError(field_text(&f[2])));
        },
    };
    let channel = match parse_field(&f[3], 255) {
        Some(v) => v as u8,
        None => {
            return Err(GetChannelMapError::ParsingError(field_text(&f[3])));
        },
    };
    if n == 5 {
        match parse_field(&f[4], usize::MAX) {
            Some(p) => Ok(HardwareID::new(&cobo, &asad, &aget, &channel, &Detector::Pad(p))),
            None => Err(GetChannelMapError::ParsingError(field_text(&f[4]))),
        }
    } else if n == 7 {
        assert(fv[5] == f@[5]@);
        let c = match parse_field(&f[5], usize::MAX) {
            Some(c) => c,
            None => {
                return Err(GetChannelMapError::ParsingError(field_text(&f[5])));
            },
        };
        match string_from_utf8(f[4].clone()) {
            None => Err(GetChannelMapError::BadDetKeyword(DetectorError::InvalidKeyword(String::new()))),
            Some(kw) => match Detector::from_str_channel(kw.as_str(), c) {
                Ok(d) => Ok(HardwareID::new(&cobo, &asad, &aget, &channel, &d)),
                Err(e) => Err(GetChannelMapError::BadDetKeyword(e)),
            },
        }
    } else {
        Err(GetChannelMapError::BadFileFormat)
    }
}

/// The entry of one line of a channel-map text.
fn parse_line(line: &Vec<u8>) -> (r: Result<HardwareID, GetChannelMapError>)
    ensures
        match row_spec(split_terminated(strip_cr(line@), 44)) {
            Ok(h) => r == Ok::<HardwareID, GetChannelMapError>(h),
            Err(k) => r matches Err(e) && fault_of(e) == k,
        },
{
    let stripped = strip_cr_bytes(line);
    let fields = split_terminated_bytes(stripped.as_slice(), 44);
    parse_row(&fields)
}

impl GetChannelMap {
    /// The map given by a channel-map text: a header line, then rows of
    /// comma-separated fields (see `row_spec`); the first bad row fails the
    /// whole text.
    pub fn from_csv(contents: &str) -> (r: Result<Self, GetChannelMapError>)
        ensures
            match parse_rows(data_lines(contents.spec_bytes())) {
                Ok(rows) => r matches Ok(m) && m@ == rows_map(rows),
                Err(k) => r matches Err(e) && fault_of(e) == k,
            },
    {
        let bytes = contents.as_bytes();
        let lines = split_terminated_bytes(bytes, 10);
        let ghost all = pieces_view(lines@);
        let mut pm = GetChannelMap::new();
        if lines.len() == 0 {
            assert(data_lines(contents.spec_bytes()) =~= Seq::<Seq<u8>>::empty());
            return Ok(pm);
        }
        let ghost data = all.subrange(1, all.len() as int);
        assert(data == data_lines(contents.spec_bytes()));
        let mut i: usize = 1;
        while i < lines.len()
            invariant
                1 <= i <= lines@.len(),
                all == pieces_view(lines@),
                data == all.subrange(1, all.len() as int),
                data == data_lines(contents.spec_bytes()),
                parse_rows(data.subrange(0, i - 1)) matches Ok(rows) && pm@ == rows_map(rows),
            decreases lines@.len() - i,
        {
            let ghost pre = data.subrange(0, i - 1);
            let ghost next = data.subrange(0, i as int);
            assert(next.drop_last() =~= pre);
            assert(next.last() == lines@[i as int]@);
            let hw = match parse_line(&lines[i]) {
                Ok(h) => h,
                Err(e) => {
                    proof {
                        lemma_parse_rows_err(data, i as int, data.len() as int);
                        assert(data.subrange(0, data.len() as int) =~= data);
                    }
                    return Err(e);
                },
            };
            proof {
                let rows = parse_rows(pre).unwrap();
                assert(parse_rows(next) == Ok::<Seq<HardwareID>, RowFault>(rows.push(hw)));
                assert(rows.push(hw).drop_last() =~= rows);
            }
            pm.insert(hw);
            i = i + 1;
        }
        assert(data.subrange(0, data.len() as int) =~= data);
        Ok(pm)
    }
}

proof fn lemma_parse_rows_err(lines: Seq<Seq<u8>>, k: int, j: int)
    requires
        0 <= k <= j <= lines.len(),
        parse_rows(lines.subrange(0, k)) is Err,
    ensures
        parse_rows(lines.subrange(0, j)) == parse_rows(lines.subrange(0, k)),
    decreases j - k,
{
    if j > k {
        lemma_parse_rows_err(lines, k, j - 1);
        assert(lines.subrange(0, j).drop_last() =~= lines.subrange(0, j - 1));
    }
}

/// The channel map's round trip: for a row of the text that no later row
/// overrides, the map holds that row's entry under the row's address, so a
/// lookup of that cobo, asad, aget and channel gives the row's detector.
pub proof fn lemma_channel_map_round_trip(rows: Seq<HardwareID>, i: int)
    requires
        0 <= i < rows.len(),
        forall|j: int| i < j < rows.len() ==> hardware_key(#[trigger] rows[j]) != hardware_key(rows[i]),
        forall|j: int|
            0 <= j < rows.len() ==> (#[trigger] rows[j]).cobo_id < 256 && rows[j].asad_id < 256
                && rows[j].aget_id < 256 && rows[j].channel < 256,
    ensures
        rows_map(rows).contains_key(hardware_key(rows[i]) as u64),
        rows_map(rows)[hardware_key(rows[i]) as u64] == rows[i],
    decreases rows.len(),
{
    if i < rows.len() - 1 {
        let last = rows.last();
        assert(hardware_key(rows[i]) as u64 != hardware_key(last) as u64) by {
            assert(hardware_key(rows[rows.len() - 1]) != hardware_key(rows[i]));
        }
        lemma_channel_map_round_trip(rows.drop_last(), i);
    }
}

} // verus!
