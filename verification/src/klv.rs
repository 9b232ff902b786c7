//! GoPro GPMF key-length-value records.
//!
//! Every record has an 8-byte header: a four-character key, a type byte,
//! the size of one sample and a big-endian 16-bit repeat count. The payload
//! of `size * repeat` bytes follows and is padded to a multiple of four.

use vstd::prelude::*;
use crate::bytes::{be2, be4, be8, lemma_be_at_2, lemma_be_at_4, lemma_be_at_8, sbe16, sbe32, be_uint, read_i16_be, read_i32_be, read_i64_be, read_u16_be, read_u32_be, read_u64_be, signed};
use crate::tags::{GroupId, ParseError, TagId};
use crate::text::{latin1, latin1_string, lossy_utf8, utf8_lossy};

verus! {

/// The header of one GPMF record.
#[derive(Clone, Copy, Debug)]
pub struct KLV {
    pub key: [u8; 4],
    pub data_type: u8,
    pub size: usize,
    pub repeat: usize,
}

/// The header at `pos` of the region `lo..hi` of `d`, if the region holds a
/// whole header there and the payload it announces fits in the region.
pub open spec fn header_at(d: Seq<u8>, lo: int, hi: int, pos: int) -> Option<KLV> {
    if hi - lo < 8 || pos < lo || pos + 8 > hi || hi > d.len() {
        None
    } else {
        let k = KLV {
            key: [d[pos], d[pos + 1], d[pos + 2], d[pos + 3]],
            data_type: d[pos + 4],
            size: d[pos + 5] as usize,
            repeat: (d[pos + 6] * 256 + d[pos + 7]) as usize,
        };
        if k.size * k.repeat > hi - (pos + 8) {
            None
        } else {
            Some(k)
        }
    }
}

/// The header at `pos` of `d`, whatever follows it.
pub open spec fn raw_header(d: Seq<u8>, pos: int) -> KLV {
    KLV {
        key: [d[pos], d[pos + 1], d[pos + 2], d[pos + 3]],
        data_type: d[pos + 4],
        size: d[pos + 5] as usize,
        repeat: (d[pos + 6] * 256 + d[pos + 7]) as usize,
    }
}

/// `n` rounded up to a multiple of four.
pub open spec fn align4(n: int) -> int {
    if n % 4 == 0 {
        n
    } else {
        n + 4 - n % 4
    }
}

impl Default for KLV {
    fn default() -> (k: KLV)
        ensures
            k.key == [0u8, 0u8, 0u8, 0u8],
            k.data_type == 0,
            k.size == 0,
            k.repeat == 0,
    {
        KLV { key: [0, 0, 0, 0], data_type: 0, size: 0, repeat: 0 }
    }
}

impl KLV {
    /// Reads the header at `pos` of the region `lo..hi` of `d`, returning it
    /// with the position just after it.
    pub fn parse_header_in(d: &[u8], lo: usize, hi: usize, pos: usize) -> (r: Result<(KLV, usize), ParseError>)
        ensures
            match header_at(d@, lo as int, hi as int, pos as int) {
                Some(k) => r == Ok::<(KLV, usize), ParseError>((k, (pos + 8) as usize)),
                None => r == Err::<(KLV, usize), ParseError>(ParseError::UnexpectedEof),
            },
    {
        if hi > d.len() || lo > hi || hi - lo < 8 || pos < lo || pos > hi || hi - pos < 8 {
            return Err(ParseError::UnexpectedEof);
        }
        let klv = KLV {
            key: [d[pos], d[pos + 1], d[pos + 2], d[pos + 3]],
            data_type: d[pos + 4],
            size: d[pos + 5] as usize,
            repeat: read_u16_be(&d[pos + 6..pos + 8]) as usize,
        };
        proof {
            reveal_with_fuel(be_uint, 3);
            assert(d@.subrange(pos + 6, pos + 8).drop_last() =~= seq![d@[pos + 6]]);
            assert(seq![d@[pos + 6]].drop_last() =~= Seq::<u8>::empty());
        }
        let avail = hi - (pos + 8);
        assert(klv.size as u64 * klv.repeat as u64 <= 255 * 65535) by (nonlinear_arith)
            requires
                klv.size <= 255,
                klv.repeat <= 65535,
        ;
        if klv.size as u64 * klv.repeat as u64 > avail as u64 {
            return Err(ParseError::UnexpectedEof);
        }
        Ok((klv, pos + 8))
    }

    /// Reads the 8-byte header at `pos` of `d`, returning it with the
    /// position just after it; fails where the payload it announces runs
    /// past the end of `d`.
    pub fn parse_header(d: &[u8], pos: usize) -> (r: Result<(KLV, usize), ParseError>)
        ensures
            match header_at(d@, 0, d@.len() as int, pos as int) {
                Some(k) => r == Ok::<(KLV, usize), ParseError>((k, (pos + 8) as usize)),
                None => r == Err::<(KLV, usize), ParseError>(ParseError::UnexpectedEof),
            },
            r is Ok <==> (pos + 8 <= d.len() && raw_header(d@, pos as int).size * raw_header(d@, pos as int).repeat
                <= d.len() - (pos + 8)),
    {
        Self::parse_header_in(d, 0, d.len(), pos)
    }

    /// Length of the payload: `size * repeat` bytes.
    pub fn data_len(&self) -> (n: usize)
        requires
            self.size * self.repeat <= usize::MAX,
        ensures
            n == self.size * self.repeat,
    {
        self.size * self.repeat
    }

    /// Length of the payload padded to a multiple of four bytes.
    pub fn aligned_data_len(&self) -> (n: usize)
        requires
            self.size * self.repeat + 3 <= usize::MAX,
        ensures
            n == align4(self.size * self.repeat),
            n % 4 == 0,
            self.size * self.repeat <= n < self.size * self.repeat + 4,
    {
        let mut len = self.data_len();
        if len % 4 != 0 {
            len += 4 - len % 4;
        }
        len
    }

    /// The number of samples and the number of values of `elem_size` bytes
    /// in one sample.
    pub fn get_repeat_count(&self, elem_size: usize) -> (r: (usize, usize))
        requires
            elem_size > 0,
        ensures
            r == (self.repeat, self.size / elem_size),
    {
        (self.repeat, self.size / elem_size)
    }

    /// The key decoded as UTF-8, invalid sequences replaced.
    pub fn key_as_string(&self) -> (s: String)
        ensures
            s@ == lossy_utf8(self.key@),
            vstd::utf8::valid_utf8(self.key@) ==> s@ == vstd::utf8::decode_utf8(self.key@),
    {
        utf8_lossy(&self.key)
    }
}



/// The big-endian code of a four-character key.
pub open spec fn fourcc(k: Seq<u8>) -> u32 {
    be_uint(k.subrange(0, 4)) as u32
}

/// `g` holds a custom name with the characters of `name`.
pub open spec fn custom_group(g: GroupId, name: Seq<char>) -> bool {
    g matches GroupId::Custom(s) && s@ == name
}

/// The group that a record with key `k` (as its four bytes `raw`) is
/// filed under.
pub open spec fn group_of_key(k: u32, raw: Seq<u8>, g: GroupId) -> bool {
    if k == 0x4759524f {
        g == GroupId::Gyroscope
    } else if k == 0x4143434c {
        g == GroupId::Accelerometer
    } else if k == 0x47524156 {
        g == GroupId::GravityVector
    } else if k == 0x434f5249 {
        g == GroupId::CameraOrientation
    } else if k == 0x494f5249 {
        g == GroupId::ImageOrientation
    } else if k == 0x53485554 {
        g == GroupId::Exposure
    } else if k == 0x4d574554 {
        custom_group(g, "MicrophoneWet"@)
    } else if k == 0x41414c50 {
        custom_group(g, "AGCAudioLevel"@)
    } else if k == 0x574e444d {
        custom_group(g, "WindProcessing"@)
    } else if k == 0x554e4946 {
        custom_group(g, "ImageUniformity"@)
    } else if k == 0x57524742 {
        custom_group(g, "WhiteBalanceRGBGains"@)
    } else if k == 0x5742414c {
        custom_group(g, "WhiteBalanceTemperature"@)
    } else if k == 0x49534f45 {
        custom_group(g, "SensorISO"@)
    } else {
        custom_group(g, latin1(raw))
    }
}

/// The tag that a record with key `k` holds.
pub open spec fn tag_of_key(k: u32) -> TagId {
    if k == 0x4759524f || k == 0x4143434c || k == 0x47524156 || k == 0x5742414c
        || k == 0x49534f45 || k == 0x53485554 || k == 0x4d574554 || k == 0x494f5249 || k == 0x434f5249
        || k == 0x41414c50 || k == 0x574e444d || k == 0x554e4946 || k == 0x57524742 {
        TagId::Data
    } else if k == 0x5349554e || k == 0x554e4954 {
        TagId::Unit
    } else if k == 0x4d545258 {
        TagId::Matrix
    } else if k == 0x5343414c {
        TagId::Scale
    } else if k == 0x53544d50 {
        TagId::TimestampUs
    } else if k == 0x53544e4d || k == 0x44564e4d {
        TagId::Name
    } else if k == 0x544d5043 {
        TagId::Temperature
    } else if k == 0x54534d50 {
        TagId::Count
    } else if k == 0x4f52494e {
        TagId::OrientationIn
    } else if k == 0x4f52494f {
        TagId::OrientationOut
    } else {
        TagId::Unknown(k)
    }
}

fn custom(name: &str) -> (g: GroupId)
    ensures
        custom_group(g, name@),
{
    GroupId::Custom(name.to_owned())
}

impl KLV {
    /// The group of records with key `k`: known sensors by name, other keys
    /// as a custom group named by the key's characters.
    pub fn group_from_key(k: &[u8]) -> (g: GroupId)
        requires
            k.len() == 0 || k.len() >= 4,
        ensures
            k.len() == 0 ==> g == GroupId::UnknownGroup(0),
            k.len() >= 4 ==> group_of_key(fourcc(k@), k@.subrange(0, 4), g),
    {
        if k.len() == 0 {
            return GroupId::UnknownGroup(0);
        }
        let raw = &k[0..4];
        let c = read_u32_be(raw);
        assert(raw@ =~= k@.subrange(0, 4));
        assert(raw@.subrange(0, 4) =~= k@.subrange(0, 4));
        if c == 0x4759524f {
            GroupId::Gyroscope
        } else if c == 0x4143434c {
            GroupId::Accelerometer
        } else if c == 0x47524156 {
            GroupId::GravityVector
        } else if c == 0x434f5249 {
            GroupId::CameraOrientation
        } else if c == 0x494f5249 {
            GroupId::ImageOrientation
        } else if c == 0x53485554 {
            GroupId::Exposure
        } else if c == 0x4d574554 {
            custom("MicrophoneWet")
        } else if c == 0x41414c50 {
            custom("AGCAudioLevel")
        } else if c == 0x574e444d {
            custom("WindProcessing")
        } else if c == 0x554e4946 {
            custom("ImageUniformity")
        } else if c == 0x57524742 {
            custom("WhiteBalanceRGBGains")
        } else if c == 0x5742414c {
            custom("WhiteBalanceTemperature")
        } else if c == 0x49534f45 {
            custom("SensorISO")
        } else {
            GroupId::Custom(latin1_string(raw))
        }
    }

    /// The tag this record holds, by its key.
    pub fn tag_id(&self) -> (t: TagId)
        ensures
            t == tag_of_key(fourcc(self.key@)),
    {
        let c = read_u32_be(&self.key);
        assert(self.key@.subrange(0, 4) =~= self.key@);
        if c == 0x4759524f || c == 0x4143434c || c == 0x47524156 || c == 0x5742414c
            || c == 0x49534f45 || c == 0x53485554 || c == 0x4d574554 || c == 0x494f5249 || c == 0x434f5249
            || c == 0x41414c50 || c == 0x574e444d || c == 0x554e4946 || c == 0x57524742 {
            TagId::Data
        } else if c == 0x5349554e || c == 0x554e4954 {
            TagId::Unit
        } else if c == 0x4d545258 {
            TagId::Matrix
        } else if c == 0x5343414c {
            TagId::Scale
        } else if c == 0x53544d50 {
            TagId::TimestampUs
        } else if c == 0x53544e4d || c == 0x44564e4d {
            TagId::Name
        } else if c == 0x544d5043 {
            TagId::Temperature
        } else if c == 0x54534d50 {
            TagId::Count
        } else if c == 0x4f52494e {
            TagId::OrientationIn
        } else if c == 0x4f52494f {
            TagId::OrientationOut
        } else {
            TagId::Unknown(c)
        }
    }
}


/// A record that holds data (not a container), found by walking a GPMF
/// stream.
#[derive(Clone, Copy, Debug)]
pub struct GpmfEntry {
    /// Key of the last record of the innermost enclosing container, which
    /// names the entry's group; `None` for records that take the caller's
    /// group.
    pub container_key: Option<[u8; 4]>,
    /// The record's header.
    pub klv: KLV,
    /// Offset of the header in the walked data.
    pub start: usize,
    /// Offset of the first payload byte.
    pub data_start: usize,
    /// Offset just past the payload.
    pub data_end: usize,
}

/// Offset of the last record header in the region `lo..hi`, walking from
/// `pos`; `off` is the offset found so far. `None` when a header is cut off.
pub open spec fn last_offset(d: Seq<u8>, lo: int, hi: int, pos: int, off: int) -> Option<int>
    decreases hi - pos,
{
    if pos >= hi {
        Some(off)
    } else {
        match header_at(d, lo, hi, pos) {
            None => None,
            Some(k) => {
                let next = pos + 8 + align4(k.size * k.repeat);
                if next >= hi {
                    Some(pos)
                } else {
                    last_offset(d, lo, hi, next, pos)
                }
            },
        }
    }
}

/// The data records of the region `lo..hi`, walking from `pos`. Containers
/// (type 0) are walked recursively; their records are filed under the key of
/// the container's last record unless `force` keeps the caller's group
/// `gk`. Records with an empty payload are skipped. `None` when a header is
/// cut off or announces more data than its region holds.
pub open spec fn walk(d: Seq<u8>, lo: int, hi: int, pos: int, force: bool, gk: Option<[u8; 4]>) -> Option<Seq<GpmfEntry>>
    decreases hi - pos,
{
    if pos >= hi || hi - pos < 8 {
        Some(Seq::empty())
    } else {
        match header_at(d, lo, hi, pos) {
            None => None,
            Some(k) => {
                let p = pos + 8;
                let len = k.size * k.repeat;
                if len == 0 {
                    walk(d, lo, hi, p, force, gk)
                } else {
                    let next = p + align4(len);
                    let rest = if next >= hi {
                        Some(Seq::empty())
                    } else {
                        walk(d, lo, hi, next, force, gk)
                    };
                    if k.data_type == 0 {
                        let g = if force {
                            Some(gk)
                        } else {
                            match last_offset(d, p, p + len, p, p) {
                                None => None,
                                Some(off) => Some(Some([d[off], d[off + 1], d[off + 2], d[off + 3]])),
                            }
                        };
                        match g {
                            None => None,
                            Some(g2) => match walk(d, p, p + len, p, force, g2) {
                                None => None,
                                Some(inner) => match rest {
                                    None => None,
                                    Some(r) => Some(inner + r),
                                },
                            },
                        }
                    } else {
                        match rest {
                            None => None,
                            Some(r) => Some(
                                seq![GpmfEntry { container_key: gk, klv: k, start: pos as usize, data_start: p as usize, data_end: (p + len) as usize }]
                                    + r,
                            ),
                        }
                    }
                }
            },
        }
    }
}

/// Prefixes the entries of a walk's result with `pre`.
pub open spec fn cat(pre: Seq<GpmfEntry>, o: Option<Seq<GpmfEntry>>) -> Option<Seq<GpmfEntry>> {
    match o {
        Some(r) => Some(pre + r),
        None => None,
    }
}

proof fn lemma_cat_assoc(a: Seq<GpmfEntry>, b: Seq<GpmfEntry>, o: Option<Seq<GpmfEntry>>)
    ensures
        cat(a, cat(b, o)) == cat(a + b, o),
{
    if let Some(r) = o {
        assert(a + (b + r) =~= (a + b) + r);
    }
}

proof fn lemma_last_offset_bounds(d: Seq<u8>, lo: int, hi: int, pos: int, off: int)
    requires
        lo <= pos,
        lo <= off,
        pos < hi ==> off <= pos,
        pos >= hi ==> off + 8 <= hi,
    ensures
        last_offset(d, lo, hi, pos, off) matches Some(o) ==> lo <= o && o + 8 <= hi,
    decreases hi - pos,
{
    if pos < hi {
        if let Some(k) = header_at(d, lo, hi, pos) {
            let next = pos + 8 + align4(k.size * k.repeat);
            if next < hi {
                lemma_last_offset_bounds(d, lo, hi, next, pos);
            }
        }
    }
}

/// Offset of the last record header in `d[lo..hi]`.
fn last_klv_offset(d: &[u8], lo: usize, hi: usize) -> (r: Result<usize, ParseError>)
    requires
        lo <= hi <= d.len(),
    ensures
        match last_offset(d@, lo as int, hi as int, lo as int, lo as int) {
            Some(o) => r == Ok::<usize, ParseError>(o as usize),
            None => r == Err::<usize, ParseError>(ParseError::UnexpectedEof),
        },
        r matches Ok(o) ==> lo <= o <= hi,
{
    let mut pos = lo;
    let mut offset = lo;
    while pos < hi
        invariant
            lo <= offset <= pos,
            pos <= hi <= d.len(),
            pos > lo ==> offset < pos,
            last_offset(d@, lo as int, hi as int, lo as int, lo as int) == last_offset(d@, lo as int, hi as int, pos as int, offset as int),
        decreases hi - pos,
    {
        offset = pos;
        let (klv, p) = KLV::parse_header_in(d, lo, hi, pos)?;
        let len = klv.data_len();
        let aligned = klv.aligned_data_len();
        if aligned >= hi - p {
            assert(last_offset(d@, lo as int, hi as int, pos as int, offset as int) == Some(pos as int));
            return Ok(pos);
        }
        pos = p + aligned;
    }
    Ok(offset)
}

/// Walks the region `lo..hi` of `d`, appending its data records to `out`
/// (see `walk`).
#[verifier::rlimit(100)]
pub fn walk_region(d: &[u8], lo: usize, hi: usize, force: bool, gk: Option<[u8; 4]>, out: &mut Vec<GpmfEntry>) -> (r: Result<(), ParseError>)
    requires
        lo <= hi <= d.len(),
    ensures
        match walk(d@, lo as int, hi as int, lo as int, force, gk) {
            Some(es) => r is Ok && final(out)@ == old(out)@ + es,
            None => r == Err::<(), ParseError>(ParseError::UnexpectedEof),
        },
    decreases hi - lo,
{
    let ghost start_out = out@;
    let mut pos = lo;
    while pos < hi && hi - pos >= 8
        invariant
            lo <= pos,
            lo <= hi <= d.len(),
            start_out == old(out)@,
            walk(d@, lo as int, hi as int, lo as int, force, gk) == cat(
                out@.subrange(start_out.len() as int, out@.len() as int),
                walk(d@, lo as int, hi as int, pos as int, force, gk),
            ),
            start_out.len() <= out@.len(),
            out@.subrange(0, start_out.len() as int) == start_out,
        decreases hi - pos,
    {
        let ghost pos0 = pos;
        let ghost out0 = out@;
        let (klv, p) = match KLV::parse_header_in(d, lo, hi, pos) {
            Ok(t) => t,
            Err(e) => {
                assert(walk(d@, lo as int, hi as int, pos as int, force, gk) is None);
                return Err(e);
            },
        };
        let len = klv.data_len();
        if len == 0 {
            pos = p;
            continue;
        }
        let aligned = klv.aligned_data_len();
        let next = if aligned >= hi - p { hi } else { p + aligned };
        let ghost rest = if (p + aligned) as int >= hi as int {
            Some(Seq::<GpmfEntry>::empty())
        } else {
            walk(d@, lo as int, hi as int, next as int, force, gk)
        };
        if klv.data_type == 0 {
            let g = if force {
                gk
            } else {
                let off = match last_klv_offset(d, p, p + len) {
                    Ok(o) => o,
                    Err(e) => {
                        assert(walk(d@, lo as int, hi as int, pos as int, force, gk) is None);
                        return Err(e);
                    },
                };
                proof {
                    lemma_last_offset_bounds(d@, p as int, (p + len) as int, p as int, p as int);
                }
                Some([d[off], d[off + 1], d[off + 2], d[off + 3]])
            };
            let ghost mid = out@;
            match walk_region(d, p, p + len, force, g, out) {
                Ok(()) => {},
                Err(e) => {
                    assert(walk(d@, lo as int, hi as int, pos as int, force, gk) is None);
                    return Err(e);
                },
            }
            proof {
                let inner = out@.subrange(mid.len() as int, out@.len() as int);
                assert(out@.subrange(0, start_out.len() as int) =~= start_out);
                assert(out@.subrange(start_out.len() as int, out@.len() as int) =~= mid.subrange(start_out.len() as int, mid.len() as int) + inner);
                lemma_cat_assoc(mid.subrange(start_out.len() as int, mid.len() as int), inner, walk(d@, lo as int, hi as int, next as int, force, gk));
            }
        } else {
            out.push(GpmfEntry { container_key: gk, klv, start: pos, data_start: p, data_end: p + len });
            proof {
                assert(out@.subrange(0, start_out.len() as int) =~= start_out);
                assert(out@.subrange(start_out.len() as int, out@.len() as int) =~= out0.subrange(start_out.len() as int, out0.len() as int) + seq![out@.last()]);
                lemma_cat_assoc(out0.subrange(start_out.len() as int, out0.len() as int), seq![out@.last()], walk(d@, lo as int, hi as int, next as int, force, gk));
            }
        }
        pos = next;
    }
    proof {
        assert(out@.subrange(start_out.len() as int, out@.len() as int) + Seq::<GpmfEntry>::empty() =~= out@.subrange(start_out.len() as int, out@.len() as int));
        assert(out@ =~= start_out + out@.subrange(start_out.len() as int, out@.len() as int));
    }
    Ok(())
}


/// Integer sample types of GPMF records.
#[derive(Clone, Copy, Debug, PartialEq, Eq)]
pub enum NumKind {
    I8,
    U8,
    I16,
    U16,
    I32,
    U32,
    I64,
    U64,
}

/// Width in bytes of one value.
pub open spec fn kind_size(k: NumKind) -> nat {
    match k {
        NumKind::I8 | NumKind::U8 => 1,
        NumKind::I16 | NumKind::U16 => 2,
        NumKind::I32 | NumKind::U32 => 4,
        NumKind::I64 | NumKind::U64 => 8,
    }
}

/// The big-endian value of kind `k` stored at `pos` of `d`.
pub open spec fn number_at(d: Seq<u8>, pos: int, k: NumKind) -> int {
    let u = be_uint(d.subrange(pos, pos + kind_size(k))) as int;
    match k {
        NumKind::I8 => signed(u, 8),
        NumKind::I16 => signed(u, 16),
        NumKind::I32 => signed(u, 32),
        NumKind::I64 => signed(u, 64),
        _ => u,
    }
}

/// The integer kind that a GPMF type byte names.
pub open spec fn kind_of_type(t: u8) -> Option<NumKind> {
    if t == 0x62 {
        Some(NumKind::I8)
    } else if t == 0x42 {
        Some(NumKind::U8)
    } else if t == 0x73 {
        Some(NumKind::I16)
    } else if t == 0x53 {
        Some(NumKind::U16)
    } else if t == 0x6c {
        Some(NumKind::I32)
    } else if t == 0x4c {
        Some(NumKind::U32)
    } else if t == 0x6a {
        Some(NumKind::I64)
    } else if t == 0x4a {
        Some(NumKind::U64)
    } else {
        None
    }
}

/// The values of kind `k` stored one after another from `start`; `None`
/// when they do not fit in `d`.
pub open spec fn values_at(d: Seq<u8>, start: int, count: nat, k: NumKind) -> Option<Seq<int>> {
    if start < 0 || start + count * kind_size(k) > d.len() {
        None
    } else {
        Some(Seq::new(count, |i: int| number_at(d, start + i * kind_size(k), k)))
    }
}

impl NumKind {
    /// The integer kind of a GPMF type byte (`b`, `B`, `s`, `S`, `l`, `L`,
    /// `j`, `J`).
    pub fn from_type(t: u8) -> (k: Option<NumKind>)
        ensures
            k == kind_of_type(t),
    {
        if t == 0x62 {
            Some(NumKind::I8)
        } else if t == 0x42 {
            Some(NumKind::U8)
        } else if t == 0x73 {
            Some(NumKind::I16)
        } else if t == 0x53 {
            Some(NumKind::U16)
        } else if t == 0x6c {
            Some(NumKind::I32)
        } else if t == 0x4c {
            Some(NumKind::U32)
        } else if t == 0x6a {
            Some(NumKind::I64)
        } else if t == 0x4a {
            Some(NumKind::U64)
        } else {
            None
        }
    }

    /// Width in bytes of one value.
    pub fn size(&self) -> (n: usize)
        ensures
            n == kind_size(*self),
    {
        match self {
            NumKind::I8 | NumKind::U8 => 1,
            NumKind::I16 | NumKind::U16 => 2,
            NumKind::I32 | NumKind::U32 => 4,
            NumKind::I64 | NumKind::U64 => 8,
        }
    }
}

/// Reads one value of kind `k` at `pos`.
pub fn read_number(d: &[u8], pos: usize, k: NumKind) -> (v: i128)
    requires
        pos + kind_size(k) <= d.len(),
    ensures
        v == number_at(d@, pos as int, k),
{
    proof {
        reveal_with_fuel(be_uint, 2);
    }
    match k {
        NumKind::I8 => {
            let b = d[pos];
            assert(d@.subrange(pos as int, pos + 1).drop_last() =~= Seq::<u8>::empty());
            assert(d@.subrange(pos as int, pos + 1).last() == b);
            assert(be_uint(d@.subrange(pos as int, pos + 1)) == b as nat);
            assert(number_at(d@, pos as int, k) == signed(b as int, 8));
            let r: i128 = if b >= 128 {
                b as i128 - 256
            } else {
                b as i128
            };
            assert(r == signed(b as int, 8));
            r
        },
        NumKind::U8 => {
            assert(d@.subrange(pos as int, pos + 1).drop_last() =~= Seq::<u8>::empty());
            assert(d@.subrange(pos as int, pos + 1).last() == d@[pos as int]);
            d[pos] as i128
        },
        NumKind::I16 => {
            let b = &d[pos..pos + 2];
            assert(b@.subrange(0, 2) =~= d@.subrange(pos as int, pos + 2));
            read_i16_be(b) as i128
        },
        NumKind::U16 => {
            let b = &d[pos..pos + 2];
            assert(b@.subrange(0, 2) =~= d@.subrange(pos as int, pos + 2));
            read_u16_be(b) as i128
        },
        NumKind::I32 => {
            let b = &d[pos..pos + 4];
            assert(b@.subrange(0, 4) =~= d@.subrange(pos as int, pos + 4));
            read_i32_be(b) as i128
        },
        NumKind::U32 => {
            let b = &d[pos..pos + 4];
            assert(b@.subrange(0, 4) =~= d@.subrange(pos as int, pos + 4));
            read_u32_be(b) as i128
        },
        NumKind::I64 => {
            let b = &d[pos..pos + 8];
            assert(b@.subrange(0, 8) =~= d@.subrange(pos as int, pos + 8));
            read_i64_be(b) as i128
        },
        NumKind::U64 => {
            let b = &d[pos..pos + 8];
            assert(b@.subrange(0, 8) =~= d@.subrange(pos as int, pos + 8));
            read_u64_be(b) as i128
        },
    }
}

/// Reads `count` values of kind `k` stored one after another from `start`.
pub fn read_values(d: &[u8], start: usize, count: usize, k: NumKind) -> (r: Option<Vec<i128>>)
    ensures
        match values_at(d@, start as int, count as nat, k) {
            Some(vs) => r is Some && r->Some_0@.map_values(|x: i128| x as int) == vs,
            None => r is None,
        },
{
    let sz = k.size();
    if start > d.len() || count > (d.len() - start) / sz {
        proof {
            if start <= d.len() {
                assert(count * sz > d.len() - start) by (nonlinear_arith)
                    requires
                        count > (d.len() - start) as int / sz as int,
                        sz > 0,
                ;
            }
        }
        return None;
    }
    proof {
        assert(count * sz <= d.len() - start) by (nonlinear_arith)
            requires
                count <= (d.len() - start) as int / sz as int,
                sz > 0,
        ;
    }
    let mut v: Vec<i128> = Vec::new();
    let mut i: usize = 0;
    while i < count
        invariant
            i <= count,
            sz == kind_size(k),
            start + count * sz <= d.len(),
            v@.len() == i,
            forall|j: int| 0 <= j < i ==> v@[j] as int == number_at(d@, start + j * sz, k),
        decreases count - i,
    {
        assert(start + i * sz + sz <= d.len()) by (nonlinear_arith)
            requires
                i < count,
                start + count * sz <= d.len(),
        ;
        let x = read_number(d, start + i * sz, k);
        v.push(x);
        i = i + 1;
    }
    assert(v@.map_values(|x: i128| x as int) =~= Seq::new(count as nat, |j: int| number_at(d@, start + j * kind_size(k), k)));
    Some(v)
}

impl KLV {
    /// The record's text: the payload bytes after the 8-byte header as
    /// characters, with trailing NUL characters removed.
    pub fn parse_string(full: &[u8]) -> (s: String)
        requires
            full.len() >= 8,
        ensures
            exists|n: int| 8 <= n <= full.len() && s@ == latin1(full@.subrange(8, n))
                && (n > 8 ==> full@[n - 1] != 0)
                && forall|j: int| n <= j < full.len() ==> full@[j] == 0,
    {
        let mut n = full.len();
        while n > 8 && full[n - 1] == 0
            invariant
                8 <= n <= full.len(),
                forall|j: int| n <= j < full.len() ==> full@[j] == 0,
            decreases n,
        {
            n = n - 1;
        }
        latin1_string(&full[8..n])
    }

    /// The integer samples of a record of kind `k`: `repeat` rows of
    /// `size / width` values each, read after the header. Fails as the
    /// header does: where the payload it announces runs past the data.
    pub fn parse_nested(full: &[u8], k: NumKind) -> (r: Result<Vec<Vec<i128>>, ParseError>)
        ensures
            full.len() < 8 ==> r == Err::<Vec<Vec<i128>>, ParseError>(ParseError::UnexpectedEof),
            full.len() >= 8 ==> ({
                let h = raw_header(full@, 0);
                let per = (h.size as nat) / kind_size(k);
                if 8 + h.size * h.repeat > full.len() {
                    r == Err::<Vec<Vec<i128>>, ParseError>(ParseError::UnexpectedEof)
                } else {
                    r is Ok && r->Ok_0@.len() == h.repeat && forall|i: int, j: int|
                        0 <= i < h.repeat && 0 <= j < per ==> #[trigger] r->Ok_0@[i]@[j] as int == number_at(
                            full@,
                            8 + (i * per + j) * kind_size(k),
                            k,
                        ) && r->Ok_0@[i]@.len() == per
                }
            }),
    {
        let (h, p) = KLV::parse_header(full, 0)?;
        let sz = k.size();
        let (repeat, per) = h.get_repeat_count(sz);
        proof {
            assert(h.size <= 255 && h.repeat <= 65535) by {
                reveal_with_fuel(be_uint, 3);
            }
            assert(per <= 255) by (nonlinear_arith)
                requires
                    per == h.size / sz,
                    sz > 0,
                    h.size <= 255,
            ;
            assert(repeat * per <= 65535 * 255) by (nonlinear_arith)
                requires
                    repeat <= 65535,
                    per <= 255,
            ;
            assert(repeat * per * sz == (repeat * per) * sz) by (nonlinear_arith);
            assert(repeat * per * sz <= h.size * h.repeat) by (nonlinear_arith)
                requires
                    per == h.size / sz,
                    sz > 0,
                    repeat == h.repeat,
            ;
        }
        let all = match read_values(full, p, repeat * per, k) {
            Some(v) => v,
            None => {
                return Err(ParseError::UnexpectedEof);
            },
        };
        proof {
            assert(all@.len() == all@.map_values(|x: i128| x as int).len());
            assert forall|a: int| 0 <= a < repeat * per implies #[trigger] all@[a] as int == number_at(full@, 8 + a * sz, k) by {
                assert(all@.map_values(|x: i128| x as int)[a] == all@[a] as int);
            }
        }
        let mut rows: Vec<Vec<i128>> = Vec::new();
        let mut i: usize = 0;
        while i < repeat
            invariant
                i <= repeat,
                all@.len() == repeat * per,
                rows@.len() == i,
                forall|a: int| 0 <= a < repeat * per ==> #[trigger] all@[a] as int == number_at(full@, 8 + a * sz, k),
                forall|a: int, b: int| 0 <= a < i && 0 <= b < per ==> #[trigger] rows@[a]@[b] == all@[(a * per + b) as int],
                forall|a: int| 0 <= a < i ==> #[trigger] rows@[a]@.len() == per,
            decreases repeat - i,
        {
            let mut row: Vec<i128> = Vec::new();
            assert(i * per + per <= repeat * per) by (nonlinear_arith)
                requires
                    i < repeat,
            ;
            assert(i * per + per <= all@.len());
            assert(all@.len() == all.len());
            let base = i * per;
            let mut j: usize = 0;
            while j < per
                invariant
                    j <= per,
                    base + per <= all.len(),
                    row@.len() == j,
                    forall|b: int| 0 <= b < j ==> #[trigger] row@[b] == all@[base + b],
                decreases per - j,
            {
                row.push(all[base + j]);
                j = j + 1;
            }
            rows.push(row);
            i = i + 1;
        }
        proof {
            assert forall|a: int, b: int| 0 <= a < repeat && 0 <= b < per implies #[trigger] rows@[a]@[b] as int
                == number_at(full@, 8 + (a * per + b) * sz, k) by {
                assert(0 <= a * per + b < repeat * per) by (nonlinear_arith)
                    requires
                        0 <= a < repeat,
                        0 <= b < per,
                ;
            }
        }
        Ok(rows)
    }
}


/// The values of a GPMF record are stored one after another, value `i` at
/// `start + i * width`, big-endian: `b`/`B` one signed/unsigned byte,
/// `s`/`S` two bytes, `l`/`L` four, `j`/`J` eight, the lower-case kinds
/// read as two's complement.
pub proof fn lemma_values_layout(d: Seq<u8>, start: int, count: nat, t: u8, i: int)
    requires
        kind_of_type(t) is Some,
        0 <= i < count,
        0 <= start,
        start + count * kind_size(kind_of_type(t)->Some_0) <= d.len(),
    ensures
        values_at(d, start, count, kind_of_type(t)->Some_0) matches Some(v) && v.len() == count && {
            let x = v[i];
            &&& t == 0x62 ==> x == (if d[start + i] >= 128 { d[start + i] - 256 } else { d[start + i] as int })
            &&& t == 0x42 ==> x == d[start + i]
            &&& t == 0x73 ==> x == sbe16(d, start + 2 * i)
            &&& t == 0x53 ==> x == be2(d, start + 2 * i)
            &&& t == 0x6c ==> x == sbe32(d, start + 4 * i)
            &&& t == 0x4c ==> x == be4(d, start + 4 * i)
            &&& t == 0x6a ==> x == (if be8(d, start + 8 * i) >= 0x8000_0000_0000_0000 {
                be8(d, start + 8 * i) - 0x1_0000_0000_0000_0000
            } else {
                be8(d, start + 8 * i)
            })
            &&& t == 0x4a ==> x == be8(d, start + 8 * i)
        },
{
    let k = kind_of_type(t)->Some_0;
    let w = kind_size(k) as int;
    assert(start + i * w + w <= d.len()) by (nonlinear_arith)
        requires 0 <= i < count, start + count * w <= d.len(), w >= 1;
    let p = start + i * w;
    if w == 1 {
        assert(d.subrange(p, p + 1).drop_last() =~= Seq::<u8>::empty());
        assert(be_uint(Seq::<u8>::empty()) == 0);
    } else if w == 2 {
        assert(i * w == 2 * i) by (nonlinear_arith)
            requires w == 2;
        lemma_be_at_2(d, p);
    } else if w == 4 {
        assert(i * w == 4 * i) by (nonlinear_arith)
            requires w == 4;
        lemma_be_at_4(d, p);
    } else {
        assert(i * w == 8 * i) by (nonlinear_arith)
            requires w == 8;
        lemma_be_at_8(d, p);
    }
}

/// A GPMF header is 8 bytes: the four-character key, the type byte, the
/// size of one value and the big-endian repeat count in bytes 6-7.
pub proof fn lemma_header_layout(d: Seq<u8>, pos: int)
    requires
        0 <= pos,
        pos + 8 <= d.len(),
    ensures
        raw_header(d, pos).key@ == d.subrange(pos, pos + 4),
        raw_header(d, pos).data_type == d[pos + 4],
        raw_header(d, pos).size == d[pos + 5],
        raw_header(d, pos).repeat == be2(d, pos + 6),
{
    assert(raw_header(d, pos).key@ =~= d.subrange(pos, pos + 4));
}
} // verus!
