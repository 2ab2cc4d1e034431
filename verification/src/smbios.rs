//! SMBIOS/DMI binary table decoder.
//!
//! Walks the SMBIOS 3 entry point and the linked chain of variable-length,
//! string-table-terminated records into a keyed collection of decoded
//! tables with their string pools.  Decoding works on an explicitly bounded
//! byte slice with a tracked offset: every read carries a bound check, and
//! a chain that runs off the buffer fails instead of scanning on.

use vstd::prelude::*;

use crate::bytes::copy_range;
use crate::bytes::read_u16_le;
use crate::bytes::read_u32_le;
use crate::bytes::read_u64_le;
use crate::bytes::u16_le;
use crate::bytes::u32_le;
use crate::bytes::u64_le;

verus! {

/// Decoder failures.
#[derive(Debug, Clone, Copy, PartialEq, Eq)]
pub enum DecodeError {
    /// The entry-point input was absent or too short to hold an entry point.
    InvalidPointer,
    /// The table chain or a string pool runs outside the buffer, or a
    /// record header declares an impossible length.
    MalformedTable,
}

/// Size in bytes of the fixed SMBIOS 3 (64-bit) entry point structure.
pub const ENTRY_POINT_SIZE: usize = 24;

/// The structure-terminating sentinel type: end of table.
pub const END_OF_TABLE: u8 = 127;

/// Decoded SMBIOS 3 entry point.
#[derive(Debug, Clone, PartialEq, Eq)]
pub struct SMBios3EntryPoint {
    /// `_SM3_` anchor bytes, not validated here.
    pub anchor: Vec<u8>,
    pub checksum: u8,
    pub length: u8,
    pub major_ver: u8,
    pub minor_ver: u8,
    pub doc_rev: u8,
    pub entry_point_rev: u8,
    pub reserved: u8,
    /// Maximum possible size of the structure table.
    pub table_maximum_size: u32,
    /// Physical address of the first structure table record.
    pub struct_table_address: u64,
}

/// What each field of a parsed entry point holds of the 24 entry bytes.
pub open spec fn entry_point_matches(e: SMBios3EntryPoint, data: Seq<u8>) -> bool {
    &&& e.anchor@ == data.subrange(0, 5)
    &&& e.checksum == data[5]
    &&& e.length == data[6]
    &&& e.major_ver == data[7]
    &&& e.minor_ver == data[8]
    &&& e.doc_rev == data[9]
    &&& e.entry_point_rev == data[10]
    &&& e.reserved == data[11]
    &&& e.table_maximum_size == u32_le(data[12], data[13], data[14], data[15])
    &&& e.struct_table_address == u64_le(data.subrange(16, 24))
}

impl SMBios3EntryPoint {
    /// Reads the fixed-size entry point from the head of `data`.
    pub fn parse(data: &[u8]) -> (r: Result<SMBios3EntryPoint, DecodeError>)
        ensures
            data@.len() >= 24 ==> (r matches Ok(e) && entry_point_matches(e, data@)),
            data@.len() < 24 ==> r == Err::<SMBios3EntryPoint, DecodeError>(
                DecodeError::InvalidPointer,
            ),
    {
        if data.len() < 24 {
            return Err(DecodeError::InvalidPointer);
        }
        let anchor = copy_range(data, 0, 5);
        Ok(SMBios3EntryPoint {
            anchor,
            checksum: data[5],
            length: data[6],
            major_ver: data[7],
            minor_ver: data[8],
            doc_rev: data[9],
            entry_point_rev: data[10],
            reserved: data[11],
            table_maximum_size: read_u32_le(data, 12),
            struct_table_address: read_u64_le(data, 16),
        })
    }
}

/// A structure record header: type, declared formatted length, and handle.
#[derive(Debug, Clone, Copy, PartialEq, Eq)]
pub struct SMBiosTableHeader {
    pub table_type: u8,
    pub length: u8,
    pub handle: u16,
}

/// The header denoted by the four bytes at `p`.
pub open spec fn spec_header_at(data: Seq<u8>, p: int) -> SMBiosTableHeader
    recommends
        0 <= p,
        p + 4 <= data.len(),
{
    SMBiosTableHeader {
        table_type: data[p],
        length: data[p + 1],
        handle: u16_le(data[p + 2], data[p + 3]) as u16,
    }
}

/// The element views of a sequence of byte buffers.
pub open spec fn views_of(v: Seq<Vec<u8>>) -> Seq<Seq<u8>> {
    v.map_values(|x: Vec<u8>| x@)
}

/// The byte-by-byte string-pool scan, one step per byte.  `cur` is the
/// string being collected, `acc` the strings collected so far.  A NUL ends
/// the current string; a NUL with nothing collected since the last one ends
/// the pool, and the scan consumes it.  Running off the buffer yields
/// `None`.
pub open spec fn scan_pool_rec(data: Seq<u8>, p: int, cur: Seq<u8>, acc: Seq<Seq<u8>>) -> Option<
    (Seq<Seq<u8>>, int),
>
    decreases data.len() - p,
{
    if !(0 <= p < data.len()) {
        None
    } else if data[p] == 0 {
        if cur.len() == 0 {
            Some((acc, p + 1))
        } else {
            scan_pool_rec(data, p + 1, Seq::empty(), acc.push(cur))
        }
    } else {
        scan_pool_rec(data, p + 1, cur.push(data[p]), acc)
    }
}

/// The string pool that starts at `start`: the collected strings and the
/// position one past the pool's final NUL.  A pool whose first byte is
/// already NUL consumes that byte first, so a no-string pool is exactly the
/// two bytes NUL NUL.
pub open spec fn scan_pool(data: Seq<u8>, start: int) -> Option<(Seq<Seq<u8>>, int)> {
    if !(0 <= start < data.len()) {
        None
    } else if data[start] == 0 {
        scan_pool_rec(data, start + 1, Seq::empty(), Seq::empty())
    } else {
        scan_pool_rec(data, start, Seq::empty(), Seq::empty())
    }
}

/// A pool's strings laid out back to back, each NUL-terminated.
pub open spec fn encode_strings(strings: Seq<Seq<u8>>) -> Seq<u8>
    decreases strings.len(),
{
    if strings.len() == 0 {
        Seq::empty()
    } else {
        strings[0].push(0u8).add(encode_strings(strings.drop_first()))
    }
}

/// The byte form of a whole string pool: the strings, each
/// NUL-terminated, then the pool's final NUL; a pool with no strings is
/// the two bytes NUL NUL.
pub open spec fn encode_pool(strings: Seq<Seq<u8>>) -> Seq<u8> {
    if strings.len() == 0 {
        seq![0u8, 0u8]
    } else {
        encode_strings(strings).push(0u8)
    }
}

/// A pool can carry exactly the non-empty NUL-free strings.
pub open spec fn pool_strings_wf(strings: Seq<Seq<u8>>) -> bool {
    forall|i: int|
        0 <= i < strings.len() ==> (#[trigger] strings[i]).len() > 0 && (forall|j: int|
            0 <= j < strings[i].len() ==> strings[i][j] != 0)
}

/// Scanning one encoded string: the collector crosses the string and its
/// terminator, finishing the current string with it.
proof fn lemma_scan_rec_one_string(data: Seq<u8>, p: int, s: Seq<u8>, cur: Seq<u8>, acc: Seq<Seq<u8>>)
    requires
        s.len() > 0,
        forall|j: int| 0 <= j < s.len() ==> s[j] != 0,
        0 <= p,
        p + s.len() < data.len(),
        data.subrange(p, p + s.len()) == s,
        data[p + s.len()] == 0,
    ensures
        scan_pool_rec(data, p, cur, acc) == scan_pool_rec(
            data,
            p + s.len() + 1,
            Seq::empty(),
            acc.push(cur.add(s)),
        ),
    decreases s.len(),
{
    assert(data[p] == s[0]);
    if s.len() == 1 {
        assert(scan_pool_rec(data, p, cur, acc) == scan_pool_rec(data, p + 1, cur.push(s[0]), acc));
        assert(data[p + 1] == 0);
        assert(cur.push(s[0]).len() > 0);
        assert(scan_pool_rec(data, p + 1, cur.push(s[0]), acc) == scan_pool_rec(
            data,
            p + 2,
            Seq::empty(),
            acc.push(cur.push(s[0])),
        ));
        assert(cur.push(s[0]) =~= cur.add(s));
    } else {
        let s2 = s.drop_first();
        assert(forall|j: int| 0 <= j < s2.len() ==> s2[j] == s[j + 1]);
        assert(data.subrange(p + 1, p + 1 + s2.len()) =~= s2);
        lemma_scan_rec_one_string(data, p + 1, s2, cur.push(s[0]), acc);
        assert(scan_pool_rec(data, p, cur, acc) == scan_pool_rec(data, p + 1, cur.push(s[0]), acc));
        assert(cur.push(s[0]).add(s2) =~= cur.add(s));
    }
}

/// Scanning a whole run of encoded strings followed by the final NUL:
/// every string is collected in order and the scan ends one past that
/// final NUL.
proof fn lemma_scan_rec_strings(data: Seq<u8>, p: int, strings: Seq<Seq<u8>>, acc: Seq<Seq<u8>>)
    requires
        pool_strings_wf(strings),
        0 <= p,
        p + encode_strings(strings).len() < data.len(),
        data.subrange(p, p + encode_strings(strings).len()) == encode_strings(strings),
        data[p + encode_strings(strings).len()] == 0,
    ensures
        scan_pool_rec(data, p, Seq::empty(), acc) == Some(
            (acc.add(strings), p + encode_strings(strings).len() + 1),
        ),
    decreases strings.len(),
{
    if strings.len() == 0 {
        assert(encode_strings(strings).len() == 0);
        assert(data[p] == 0);
        assert(acc.add(strings) =~= acc);
    } else {
        let s = strings[0];
        let rest = strings.drop_first();
        let enc = encode_strings(strings);
        let enc_rest = encode_strings(rest);
        assert(enc == s.push(0u8).add(enc_rest));
        assert(forall|j: int| 0 <= j < s.len() ==> enc[j] == s[j]);
        assert(data.subrange(p, p + s.len()) =~= s);
        assert(enc[s.len() as int] == 0);
        assert(data[p + s.len()] == 0);
        lemma_scan_rec_one_string(data, p, s, Seq::empty(), acc);
        assert(Seq::<u8>::empty().add(s) =~= s);
        let p2 = p + s.len() + 1;
        assert(forall|j: int| 0 <= j < enc_rest.len() ==> enc[s.len() + 1 + j] == enc_rest[j]);
        assert(data.subrange(p2, p2 + enc_rest.len()) =~= enc_rest);
        assert(forall|i: int| 0 <= i < rest.len() ==> rest[i] == strings[i + 1]);
        lemma_scan_rec_strings(data, p2, rest, acc.push(s));
        assert(acc.push(s).add(rest) =~= acc.add(strings));
    }
}

/// A synthetic string pool decodes back to exactly its strings: wherever
/// a buffer carries the encoded form of some non-empty NUL-free strings,
/// the scan collects those strings and stops one past the pool's final
/// NUL.
pub proof fn lemma_pool_round_trip(data: Seq<u8>, p: int, strings: Seq<Seq<u8>>)
    requires
        pool_strings_wf(strings),
        0 <= p,
        p + encode_pool(strings).len() <= data.len(),
        data.subrange(p, p + encode_pool(strings).len()) == encode_pool(strings),
    ensures
        scan_pool(data, p) == Some((strings, p + encode_pool(strings).len())),
{
    let enc = encode_pool(strings);
    if strings.len() == 0 {
        assert(enc == seq![0u8, 0u8]);
        assert(data[p] == 0);
        assert(data[p + 1] == 0);
        assert(scan_pool(data, p) == scan_pool_rec(data, p + 1, Seq::empty(), Seq::empty()));
        assert(scan_pool_rec(data, p + 1, Seq::empty(), Seq::empty()) == Some(
            (Seq::<Seq<u8>>::empty(), p + 2),
        ));
        assert(Seq::<Seq<u8>>::empty() =~= strings);
    } else {
        let enc_s = encode_strings(strings);
        assert(enc == enc_s.push(0u8));
        assert(strings[0].len() > 0);
        assert(enc_s == strings[0].push(0u8).add(encode_strings(strings.drop_first())));
        assert(enc_s[0] == strings[0].push(0u8)[0]);
        assert(enc_s[0] == strings[0][0]);
        assert(data.subrange(p, p + enc.len())[0] == data[p]);
        assert(data[p] == strings[0][0]);
        assert(data[p] != 0);
        assert(forall|j: int| 0 <= j < enc_s.len() ==> enc[j] == enc_s[j]);
        assert(data.subrange(p, p + enc_s.len()) =~= enc_s);
        assert(data.subrange(p, p + enc.len())[enc_s.len() as int] == data[p + enc_s.len()]);
        assert(enc[enc_s.len() as int] == 0);
        assert(data[p + enc_s.len()] == 0);
        lemma_scan_rec_strings(data, p, strings, Seq::empty());
        assert(Seq::<Seq<u8>>::empty().add(strings) =~= strings);
    }
}

/// Mathematical model of one decoded table record.
pub struct TableView {
    pub header: SMBiosTableHeader,
    /// The formatted area, header bytes included.
    pub data: Seq<u8>,
    /// The string pool, 1-based: index 0 is the reserved empty string.
    pub strings: Seq<Seq<u8>>,
}

/// One decoded structure record: header, raw formatted area, and the
/// indexed string pool (1-based; index 0 is reserved and empty).
#[derive(Debug, Clone, PartialEq, Eq)]
pub struct SMBiosTable {
    pub header: SMBiosTableHeader,
    /// Raw formatted area (including the header bytes).
    pub data: Vec<u8>,
    /// String pool; entry 0 is the reserved empty string.
    pub strings: Vec<Vec<u8>>,
}

impl View for SMBiosTable {
    type V = TableView;

    open spec fn view(&self) -> TableView {
        TableView { header: self.header, data: self.data@, strings: views_of(self.strings@) }
    }
}

/// The record denoted at offset `p`: its model and the offset one past its
/// string pool, where the next record starts.  `None` when the record or
/// its pool does not fit the buffer, or the declared length cannot even
/// hold the header.
pub open spec fn spec_decode_table(data: Seq<u8>, p: int) -> Option<(TableView, int)> {
    if !(0 <= p && p + 4 <= data.len()) {
        None
    } else {
        let h = spec_header_at(data, p);
        if h.length < 4 || p + h.length > data.len() {
            None
        } else {
            match scan_pool(data, p + h.length) {
                Some((strs, end)) => Some(
                    (
                        TableView {
                            header: h,
                            data: data.subrange(p, p + h.length),
                            strings: seq![Seq::<u8>::empty()].add(strs),
                        },
                        end,
                    ),
                ),
                None => None,
            }
        }
    }
}

/// A synthetic record round-trips: a buffer that carries a header, its
/// formatted area of the declared length, and the encoded pool of some
/// non-empty NUL-free strings decodes back to exactly that record, its
/// strings behind the reserved empty entry at pool index 0.
pub proof fn lemma_table_round_trip(data: Seq<u8>, p: int, strings: Seq<Seq<u8>>)
    requires
        pool_strings_wf(strings),
        0 <= p,
        p + 4 <= data.len(),
        spec_header_at(data, p).length >= 4,
        p + spec_header_at(data, p).length + encode_pool(strings).len() <= data.len(),
        data.subrange(
            p + spec_header_at(data, p).length,
            p + spec_header_at(data, p).length + encode_pool(strings).len(),
        ) == encode_pool(strings),
    ensures
        spec_decode_table(data, p) == Some(
            (
                TableView {
                    header: spec_header_at(data, p),
                    data: data.subrange(p, p + spec_header_at(data, p).length),
                    strings: seq![Seq::<u8>::empty()].add(strings),
                },
                p + spec_header_at(data, p).length + encode_pool(strings).len(),
            ),
        ),
{
    lemma_pool_round_trip(data, p + spec_header_at(data, p).length, strings);
}

proof fn lemma_views_push(s: Seq<Vec<u8>>, v: Vec<u8>)
    ensures
        views_of(s.push(v)) == views_of(s).push(v@),
{
    assert(views_of(s.push(v)) =~= views_of(s).push(v@));
}

/// Collects the string pool that starts at `start`.
#[verifier::loop_isolation(false)]
fn scan_strings(data: &[u8], start: usize) -> (r: Result<(Vec<Vec<u8>>, usize), DecodeError>)
    ensures
        match r {
            Ok(out) => scan_pool(data@, start as int) == Some((views_of(out.0@), out.1 as int))
                && start < out.1 <= data@.len(),
            Err(e) => {
                &&& scan_pool(data@, start as int) == None::<(Seq<Seq<u8>>, int)>
                &&& e == DecodeError::MalformedTable
            },
        },
{
    let n = data.len();
    if start >= n {
        return Err(DecodeError::MalformedTable);
    }
    let mut p = start;
    if data[p] == 0 {
        p = p + 1;
    }
    let mut cur: Vec<u8> = Vec::new();
    let mut acc: Vec<Vec<u8>> = Vec::new();
    proof {
        assert(views_of(acc@) =~= Seq::<Seq<u8>>::empty());
    }
    while p < n
        invariant
            start <= p <= n,
            scan_pool(data@, start as int) == scan_pool_rec(data@, p as int, cur@, views_of(acc@)),
        decreases n - p,
    {
        let b = data[p];
        if b == 0 {
            if cur.len() == 0 {
                return Ok((acc, p + 1));
            }
            proof {
                lemma_views_push(acc@, cur);
            }
            acc.push(cur);
            cur = Vec::new();
        } else {
            cur.push(b);
        }
        p = p + 1;
    }
    Err(DecodeError::MalformedTable)
}

impl SMBiosTable {
    /// A decoded record always carries the reserved empty string at pool
    /// index 0, and its formatted area is exactly as long as the header
    /// declares.
    pub open spec fn wf(self) -> bool {
        &&& self.strings@.len() >= 1
        &&& self.strings@[0]@.len() == 0
        &&& self.data@.len() == self.header.length
        &&& self.header.length >= 4
    }

    /// Decodes the record that starts at `offset`, returning it together
    /// with the offset of the next record.
    pub fn new(data: &[u8], offset: usize) -> (r: Result<(SMBiosTable, usize), DecodeError>)
        ensures
            match r {
                Ok(out) => {
                    &&& spec_decode_table(data@, offset as int) == Some((out.0@, out.1 as int))
                    &&& offset < out.1 <= data@.len()
                    &&& out.0.wf()
                },
                Err(e) => {
                    &&& spec_decode_table(data@, offset as int) == None::<(TableView, int)>
                    &&& e == DecodeError::MalformedTable
                },
            },
    {
        let n = data.len();
        if offset >= n || n - offset < 4 {
            return Err(DecodeError::MalformedTable);
        }
        let table_type = data[offset];
        let length = data[offset + 1];
        let handle = read_u16_le(data, offset + 2);
        if length < 4 || (length as usize) > n - offset {
            return Err(DecodeError::MalformedTable);
        }
        let header = SMBiosTableHeader { table_type, length, handle };
        let pool_start = offset + length as usize;
        match scan_strings(data, pool_start) {
            Err(e) => Err(e),
            Ok((strs, end)) => {
                let tdata = copy_range(data, offset, length as usize);
                let mut strings = strs;
                strings.insert(0, Vec::new());
                let table = SMBiosTable { header, data: tdata, strings };
                proof {
                    assert(views_of(table.strings@) =~= seq![Seq::<u8>::empty()].add(
                        views_of(strs@),
                    ));
                    assert(header == spec_header_at(data@, offset as int));
                }
                Ok((table, end))
            },
        }
    }

    /// Resolves a 1-based string reference out of the pool.  Reference 0
    /// always yields the reserved empty string; a reference past the pool
    /// yields nothing.
    pub fn get_string(&self, number: u8) -> (r: Option<&Vec<u8>>)
        ensures
            (number as int) < self@.strings.len() ==> (r matches Some(s) && s@
                == self@.strings[number as int]),
            (number as int) >= self@.strings.len() ==> r is None,
            self.wf() && number == 0 ==> (r matches Some(s) && s@.len() == 0),
    {
        if (number as usize) < self.strings.len() {
            Some(&self.strings[number as usize])
        } else {
            None
        }
    }
}

/// The element views of a sequence of decoded tables.
pub open spec fn table_views(v: Seq<SMBiosTable>) -> Seq<TableView> {
    v.map_values(|t: SMBiosTable| t@)
}

/// The chain of records that starts at `p`, decoded up to but not
/// including the end-of-table sentinel.  The chain is strictly forward
/// only: a record whose computed end does not strictly exceed its start
/// would make the walk loop, so it fails instead; and a chain that runs
/// off the buffer before reaching the sentinel fails too.
pub open spec fn spec_decode_chain(data: Seq<u8>, p: int) -> Option<Seq<TableView>>
    decreases data.len() - p,
{
    match spec_decode_table(data, p) {
        None => None,
        Some(t_end) => {
            if t_end.0.header.table_type == END_OF_TABLE {
                Some(Seq::empty())
            } else if !(p < t_end.1 <= data.len()) {
                None
            } else {
                match spec_decode_chain(data, t_end.1) {
                    Some(rest) => Some(seq![t_end.0].add(rest)),
                    None => None,
                }
            }
        },
    }
}

/// Every record of a decoded chain is a real table: never the sentinel.
pub proof fn lemma_chain_no_sentinel(data: Seq<u8>, p: int)
    ensures
        match spec_decode_chain(data, p) {
            Some(ts) => forall|i: int|
                0 <= i < ts.len() ==> (#[trigger] ts[i]).header.table_type != END_OF_TABLE,
            None => true,
        },
    decreases data.len() - p,
{
    match spec_decode_table(data, p) {
        None => {},
        Some(t_end) => {
            if t_end.0.header.table_type != END_OF_TABLE && p < t_end.1 <= data.len() {
                lemma_chain_no_sentinel(data, t_end.1);
            }
        },
    }
}

/// The decoded document: the entry point and the record chain, keyed by
/// structure type through [`SMBios3::get_table`].
#[derive(Debug, Clone, PartialEq, Eq)]
pub struct SMBios3 {
    pub entry_point: SMBios3EntryPoint,
    pub tables: Vec<SMBiosTable>,
}

/// Position of the record a type-keyed lookup resolves to: the last record
/// of the chain with the given structure type.
pub open spec fn spec_find_table(ts: Seq<TableView>, number: u8) -> Option<int>
    decreases ts.len(),
{
    if ts.len() == 0 {
        None
    } else if ts[ts.len() - 1].header.table_type == number {
        Some(ts.len() - 1)
    } else {
        spec_find_table(ts.drop_last(), number)
    }
}

proof fn lemma_find_table_found(ts: Seq<TableView>, number: u8, i: int)
    requires
        0 <= i < ts.len(),
        ts[i].header.table_type == number,
        forall|j: int| i < j < ts.len() ==> (#[trigger] ts[j]).header.table_type != number,
    ensures
        spec_find_table(ts, number) == Some(i),
    decreases ts.len(),
{
    if i < ts.len() - 1 {
        assert(forall|j: int| 0 <= j < ts.len() - 1 ==> ts.drop_last()[j] == ts[j]);
        lemma_find_table_found(ts.drop_last(), number, i);
    }
}

proof fn lemma_find_table_none(ts: Seq<TableView>, number: u8)
    requires
        forall|j: int| 0 <= j < ts.len() ==> (#[trigger] ts[j]).header.table_type != number,
    ensures
        spec_find_table(ts, number) == None::<int>,
    decreases ts.len(),
{
    if ts.len() > 0 {
        assert(forall|j: int| 0 <= j < ts.len() - 1 ==> ts.drop_last()[j] == ts[j]);
        lemma_find_table_none(ts.drop_last(), number);
    }
}

impl SMBios3 {
    /// Every held record is well formed and none is the sentinel.
    pub open spec fn wf(self) -> bool {
        forall|i: int|
            0 <= i < self.tables@.len() ==> (#[trigger] self.tables@[i]).wf()
                && self.tables@[i].header.table_type != END_OF_TABLE
    }

    /// Decodes a document out of the entry-point bytes and the structure
    /// table bytes.  The record chain is walked until the end-of-table
    /// sentinel, which is not kept; a chain that leaves the buffer or
    /// declares an impossible record length is malformed.
    #[verifier::loop_isolation(false)]
    pub fn new(entry_data: &[u8], table_data: &[u8]) -> (r: Result<SMBios3, DecodeError>)
        ensures
            entry_data@.len() < 24 ==> r == Err::<SMBios3, DecodeError>(DecodeError::InvalidPointer),
            entry_data@.len() >= 24 && spec_decode_chain(table_data@, 0) is None ==> r
                == Err::<SMBios3, DecodeError>(DecodeError::MalformedTable),
            entry_data@.len() >= 24 ==> (spec_decode_chain(table_data@, 0) matches Some(ts) ==> (
            r matches Ok(doc) && {
                &&& entry_point_matches(doc.entry_point, entry_data@)
                &&& table_views(doc.tables@) == ts
                &&& doc.wf()
            })),
    {
        let entry_point = match SMBios3EntryPoint::parse(entry_data) {
            Ok(e) => e,
            Err(e) => {
                return Err(e);
            },
        };
        let mut tables: Vec<SMBiosTable> = Vec::new();
        let mut p: usize = 0;
        proof {
            let c0 = spec_decode_chain(table_data@, 0);
            if c0 is Some {
                assert(table_views(tables@).add(c0.unwrap()) =~= c0.unwrap());
            }
        }
        loop
            invariant
                p <= table_data@.len(),
                spec_decode_chain(table_data@, 0) == (match spec_decode_chain(
                    table_data@,
                    p as int,
                ) {
                    Some(rest) => Some(table_views(tables@).add(rest)),
                    None => None::<Seq<TableView>>,
                }),
                forall|i: int|
                    0 <= i < tables@.len() ==> (#[trigger] tables@[i]).wf()
                        && tables@[i].header.table_type != END_OF_TABLE,
            decreases table_data@.len() - p,
        {
            match SMBiosTable::new(table_data, p) {
                Err(_) => {
                    return Err(DecodeError::MalformedTable);
                },
                Ok((t, end)) => {
                    if t.header.table_type == END_OF_TABLE {
                        proof {
                            assert(spec_decode_chain(table_data@, p as int) == Some(
                                Seq::<TableView>::empty(),
                            ));
                            assert(table_views(tables@).add(Seq::<TableView>::empty())
                                =~= table_views(tables@));
                        }
                        return Ok(SMBios3 { entry_point, tables });
                    }
                    proof {
                        let ce = spec_decode_chain(table_data@, end as int);
                        if ce is Some {
                            assert(spec_decode_chain(table_data@, p as int) == Some(
                                seq![t@].add(ce.unwrap()),
                            ));
                            assert(table_views(tables@.push(t)) =~= table_views(tables@).push(t@));
                            assert(table_views(tables@).push(t@).add(ce.unwrap())
                                =~= table_views(tables@).add(seq![t@].add(ce.unwrap())));
                        } else {
                            assert(spec_decode_chain(table_data@, p as int) is None);
                        }
                    }
                    tables.push(t);
                    p = end;
                },
            }
        }
    }

    /// Type-keyed lookup: the last record of the given structure type.
    #[verifier::loop_isolation(false)]
    pub fn get_table(&self, number: u8) -> (r: Option<&SMBiosTable>)
        ensures
            match spec_find_table(table_views(self.tables@), number) {
                Some(i) => r matches Some(t) && t@ == table_views(self.tables@)[i]
                    && t@.header.table_type == number,
                None => r is None,
            },
    {
        let n = self.tables.len();
        let mut i: usize = n;
        while i > 0
            invariant
                i <= n,
                n == self.tables@.len(),
                forall|j: int|
                    i <= j < n ==> (#[trigger] table_views(self.tables@)[j]).header.table_type
                        != number,
            decreases i,
        {
            i = i - 1;
            if self.tables[i].header.table_type == number {
                proof {
                    lemma_find_table_found(table_views(self.tables@), number, i as int);
                }
                return Some(&self.tables[i]);
            }
            proof {
                assert(table_views(self.tables@)[i as int] == self.tables@[i as int]@);
            }
        }
        proof {
            lemma_find_table_none(table_views(self.tables@), number);
        }
        None
    }
}

/// The byte at `off`, or zero when the formatted area is too short to
/// carry the field (absent fields read as the reserved null reference).
pub open spec fn spec_byte_or_zero(data: Seq<u8>, off: int) -> u8 {
    if 0 <= off < data.len() {
        data[off]
    } else {
        0
    }
}

/// The little-endian word at `off`, or zero when absent.
pub open spec fn spec_word_or_zero(data: Seq<u8>, off: int) -> u16 {
    if 0 <= off && off + 2 <= data.len() {
        u16_le(data[off], data[off + 1]) as u16
    } else {
        0
    }
}

pub(crate) fn byte_or_zero(data: &Vec<u8>, off: usize) -> (b: u8)
    ensures
        b == spec_byte_or_zero(data@, off as int),
{
    if off < data.len() {
        data[off]
    } else {
        0
    }
}

fn word_or_zero(data: &Vec<u8>, off: usize) -> (w: u16)
    ensures
        w == spec_word_or_zero(data@, off as int),
{
    let n = data.len();
    if n >= 2 && off <= n - 2 {
        read_u16_le(data.as_slice(), off)
    } else {
        0
    }
}

/// The `count` bytes from `start`, absent ones read as zero.
fn bytes_or_zero(data: &Vec<u8>, start: usize, count: usize) -> (r: Vec<u8>)
    requires
        start + count <= usize::MAX,
    ensures
        r@ == Seq::new(count as nat, |i: int| spec_byte_or_zero(data@, start + i)),
{
    let mut r: Vec<u8> = Vec::new();
    let mut i: usize = 0;
    while i < count
        invariant
            start + count <= usize::MAX,
            i <= count,
            r@.len() == i,
            forall|j: int| 0 <= j < i ==> r@[j] == spec_byte_or_zero(data@, start + j),
        decreases count - i,
    {
        r.push(byte_or_zero(data, start + i));
        i = i + 1;
    }
    proof {
        assert(r@ =~= Seq::new(count as nat, |i: int| spec_byte_or_zero(data@, start + i)));
    }
    r
}

/// BIOS information record (structure type 0).  String-reference fields
/// are 1-based indices into the owning table's string pool.
#[derive(Debug, Clone, PartialEq, Eq)]
pub struct Type00 {
    pub bios_vendor: u8,
    pub bios_version: u8,
    pub bios_start_segment: u16,
    pub bios_date: u8,
    pub bios_rom_size: u8,
    pub bios_characteristics: Vec<u8>,
    pub bios_characteristics_ext1: u8,
    pub bios_characteristics_ext2: u8,
    pub bios_release_major: u8,
    pub bios_release_minor: u8,
    pub ec_firmware_release_major: u8,
    pub ec_firmware_release_minor: u8,
}

/// How a decoded BIOS record reads out of a formatted area (header bytes
/// included in `data`; fields past the declared length read as zero).
pub open spec fn type00_matches(t: Type00, data: Seq<u8>) -> bool {
    &&& t.bios_vendor == spec_byte_or_zero(data, 4)
    &&& t.bios_version == spec_byte_or_zero(data, 5)
    &&& t.bios_start_segment == spec_word_or_zero(data, 6)
    &&& t.bios_date == spec_byte_or_zero(data, 8)
    &&& t.bios_rom_size == spec_byte_or_zero(data, 9)
    &&& t.bios_characteristics@ == Seq::new(8, |i: int| spec_byte_or_zero(data, 10 + i))
    &&& t.bios_characteristics_ext1 == spec_byte_or_zero(data, 18)
    &&& t.bios_characteristics_ext2 == spec_byte_or_zero(data, 19)
    &&& t.bios_release_major == spec_byte_or_zero(data, 20)
    &&& t.bios_release_minor == spec_byte_or_zero(data, 21)
    &&& t.ec_firmware_release_major == spec_byte_or_zero(data, 22)
    &&& t.ec_firmware_release_minor == spec_byte_or_zero(data, 23)
}

impl Type00 {
    /// Structure type of this record.
    pub const TYPE: u8 = 0;

    /// Reads the record out of a table's formatted area.
    pub fn read(data: &Vec<u8>) -> (t: Type00)
        ensures
            type00_matches(t, data@),
    {
        Type00 {
            bios_vendor: byte_or_zero(data, 4),
            bios_version: byte_or_zero(data, 5),
            bios_start_segment: word_or_zero(data, 6),
            bios_date: byte_or_zero(data, 8),
            bios_rom_size: byte_or_zero(data, 9),
            bios_characteristics: bytes_or_zero(data, 10, 8),
            bios_characteristics_ext1: byte_or_zero(data, 18),
            bios_characteristics_ext2: byte_or_zero(data, 19),
            bios_release_major: byte_or_zero(data, 20),
            bios_release_minor: byte_or_zero(data, 21),
            ec_firmware_release_major: byte_or_zero(data, 22),
            ec_firmware_release_minor: byte_or_zero(data, 23),
        }
    }
}

/// System information record (structure type 1).
#[derive(Debug, Clone, PartialEq, Eq)]
pub struct Type01 {
    pub sys_vendor: u8,
    pub product_name: u8,
    pub product_version: u8,
    pub product_serial: u8,
    pub product_uuid: Vec<u8>,
    pub wakeup_type: u8,
    pub product_sku: u8,
    pub product_family: u8,
}

/// How a decoded system record reads out of a formatted area.
pub open spec fn type01_matches(t: Type01, data: Seq<u8>) -> bool {
    &&& t.sys_vendor == spec_byte_or_zero(data, 4)
    &&& t.product_name == spec_byte_or_zero(data, 5)
    &&& t.product_version == spec_byte_or_zero(data, 6)
    &&& t.product_serial == spec_byte_or_zero(data, 7)
    &&& t.product_uuid@ == Seq::new(16, |i: int| spec_byte_or_zero(data, 8 + i))
    &&& t.wakeup_type == spec_byte_or_zero(data, 24)
    &&& t.product_sku == spec_byte_or_zero(data, 25)
    &&& t.product_family == spec_byte_or_zero(data, 26)
}

impl Type01 {
    /// Structure type of this record.
    pub const TYPE: u8 = 1;

    /// Reads the record out of a table's formatted area.
    pub fn read(data: &Vec<u8>) -> (t: Type01)
        ensures
            type01_matches(t, data@),
    {
        Type01 {
            sys_vendor: byte_or_zero(data, 4),
            product_name: byte_or_zero(data, 5),
            product_version: byte_or_zero(data, 6),
            product_serial: byte_or_zero(data, 7),
            product_uuid: bytes_or_zero(data, 8, 16),
            wakeup_type: byte_or_zero(data, 24),
            product_sku: byte_or_zero(data, 25),
            product_family: byte_or_zero(data, 26),
        }
    }
}

/// Base-board information record (structure type 2).
#[derive(Debug, Clone, PartialEq, Eq)]
pub struct Type02 {
    pub board_vendor: u8,
    pub board_name: u8,
    pub board_version: u8,
    pub board_serial: u8,
    pub board_asset_tag: u8,
}

/// How a decoded base-board record reads out of a formatted area.
pub open spec fn type02_matches(t: Type02, data: Seq<u8>) -> bool {
    &&& t.board_vendor == spec_byte_or_zero(data, 4)
    &&& t.board_name == spec_byte_or_zero(data, 5)
    &&& t.board_version == spec_byte_or_zero(data, 6)
    &&& t.board_serial == spec_byte_or_zero(data, 7)
    &&& t.board_asset_tag == spec_byte_or_zero(data, 8)
}

impl Type02 {
    /// Structure type of this record.
    pub const TYPE: u8 = 2;

    /// Reads the record out of a table's formatted area.
    pub fn read(data: &Vec<u8>) -> (t: Type02)
        ensures
            type02_matches(t, data@),
    {
        Type02 {
            board_vendor: byte_or_zero(data, 4),
            board_name: byte_or_zero(data, 5),
            board_version: byte_or_zero(data, 6),
            board_serial: byte_or_zero(data, 7),
            board_asset_tag: byte_or_zero(data, 8),
        }
    }
}

/// Chassis information record (structure type 3).
#[derive(Debug, Clone, PartialEq, Eq)]
pub struct Type03 {
    pub chassis_vendor: u8,
    pub chassis_type: u8,
    pub chassis_version: u8,
    pub chassis_serial: u8,
    pub chassis_asset_tag: u8,
}

/// How a decoded chassis record reads out of a formatted area.
pub open spec fn type03_matches(t: Type03, data: Seq<u8>) -> bool {
    &&& t.chassis_vendor == spec_byte_or_zero(data, 4)
    &&& t.chassis_type == spec_byte_or_zero(data, 5)
    &&& t.chassis_version == spec_byte_or_zero(data, 6)
    &&& t.chassis_serial == spec_byte_or_zero(data, 7)
    &&& t.chassis_asset_tag == spec_byte_or_zero(data, 8)
}

impl Type03 {
    /// Structure type of this record.
    pub const TYPE: u8 = 3;

    /// Reads the record out of a table's formatted area.
    pub fn read(data: &Vec<u8>) -> (t: Type03)
        ensures
            type03_matches(t, data@),
    {
        Type03 {
            chassis_vendor: byte_or_zero(data, 4),
            chassis_type: byte_or_zero(data, 5),
            chassis_version: byte_or_zero(data, 6),
            chassis_serial: byte_or_zero(data, 7),
            chassis_asset_tag: byte_or_zero(data, 8),
        }
    }
}

/// The end-of-table sentinel.  Not an actual record: the chain walk stops
/// on it and never keeps it.
#[derive(Debug, Clone, Copy, PartialEq, Eq)]
pub struct Type127 {}

impl Type127 {
    /// Structure type of the sentinel.
    pub const TYPE: u8 = 127;
}

/// A record decoded by its structure type: one tagged variant per type of
/// interest, the sentinel, and everything else left raw.
#[derive(Debug, Clone, PartialEq, Eq)]
pub enum SMBiosTableTypes {
    Bios(Type00),
    System(Type01),
    Board(Type02),
    Chassis(Type03),
    EndOfTable,
    Unknown(u8),
}

impl SMBiosTable {
    /// Decodes the record behind this table's structure type.
    pub fn classify(&self) -> (r: SMBiosTableTypes)
        ensures
            self.header.table_type == 0 ==> (r matches SMBiosTableTypes::Bios(t)
                && type00_matches(t, self@.data)),
            self.header.table_type == 1 ==> (r matches SMBiosTableTypes::System(t)
                && type01_matches(t, self@.data)),
            self.header.table_type == 2 ==> (r matches SMBiosTableTypes::Board(t)
                && type02_matches(t, self@.data)),
            self.header.table_type == 3 ==> (r matches SMBiosTableTypes::Chassis(t)
                && type03_matches(t, self@.data)),
            self.header.table_type == 127 ==> r == SMBiosTableTypes::EndOfTable,
            !(self.header.table_type == 0 || self.header.table_type == 1
                || self.header.table_type == 2 || self.header.table_type == 3
                || self.header.table_type == 127) ==> r == SMBiosTableTypes::Unknown(
                self.header.table_type,
            ),
    {
        if self.header.table_type == 0 {
            SMBiosTableTypes::Bios(Type00::read(&self.data))
        } else if self.header.table_type == 1 {
            SMBiosTableTypes::System(Type01::read(&self.data))
        } else if self.header.table_type == 2 {
            SMBiosTableTypes::Board(Type02::read(&self.data))
        } else if self.header.table_type == 3 {
            SMBiosTableTypes::Chassis(Type03::read(&self.data))
        } else if self.header.table_type == 127 {
            SMBiosTableTypes::EndOfTable
        } else {
            SMBiosTableTypes::Unknown(self.header.table_type)
        }
    }
}

impl SMBios3 {
    /// The decoded BIOS information record, when a type 0 table is present.
    pub fn get_bios_information(&self) -> (r: Option<Type00>)
        ensures
            match spec_find_table(table_views(self.tables@), 0) {
                Some(i) => r matches Some(t) && type00_matches(
                    t,
                    table_views(self.tables@)[i].data,
                ),
                None => r is None,
            },
    {
        match self.get_table(0) {
            None => None,
            Some(table) => Some(Type00::read(&table.data)),
        }
    }

    /// The decoded system information record, when a type 1 table is
    /// present.
    pub fn get_system_information(&self) -> (r: Option<Type01>)
        ensures
            match spec_find_table(table_views(self.tables@), 1) {
                Some(i) => r matches Some(t) && type01_matches(
                    t,
                    table_views(self.tables@)[i].data,
                ),
                None => r is None,
            },
    {
        match self.get_table(1) {
            None => None,
            Some(table) => Some(Type01::read(&table.data)),
        }
    }

    /// The decoded base-board information record, when a type 2 table is
    /// present.
    pub fn get_board_information(&self) -> (r: Option<Type02>)
        ensures
            match spec_find_table(table_views(self.tables@), 2) {
                Some(i) => r matches Some(t) && type02_matches(
                    t,
                    table_views(self.tables@)[i].data,
                ),
                None => r is None,
            },
    {
        match self.get_table(2) {
            None => None,
            Some(table) => Some(Type02::read(&table.data)),
        }
    }

    /// The decoded chassis information record, when a type 3 table is
    /// present.
    pub fn get_chassis_information(&self) -> (r: Option<Type03>)
        ensures
            match spec_find_table(table_views(self.tables@), 3) {
                Some(i) => r matches Some(t) && type03_matches(
                    t,
                    table_views(self.tables@)[i].data,
                ),
                None => r is None,
            },
    {
        match self.get_table(3) {
            None => None,
            Some(table) => Some(Type03::read(&table.data)),
        }
    }
}

} // verus!
