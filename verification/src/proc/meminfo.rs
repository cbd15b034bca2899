//! Memory and swap totals, read from the kernel's meminfo listing.

use vstd::prelude::*;
use vstd::string::StringSliceAdditionalSpecFns;

use crate::parse::{
    digits_val, eq_bytes, parse_u64, spec_find, spec_split, spec_trim, split_bytes, strip_suffix,
    trim_bytes, valid_u64, views, find_byte_from, lemma_find_first,
};
use crate::proc::Error;

verus! {

/// Memory and swap figures in bytes.
#[derive(Debug, Clone, Default, PartialEq, Eq, Structural)]
pub struct MemInfo {
    pub mem_total: usize,
    pub mem_free: usize,
    pub swap_total: usize,
    pub swap_free: usize,
}

/// The byte count a meminfo value field denotes: the field, once trimmed,
/// must end in ` kB`, carry a decimal number before it, and denote a byte
/// count that fits in a `usize` after the kibibyte scaling.
pub open spec fn spec_kb_value(v: Seq<u8>) -> Option<usize> {
    let t = spec_trim(v);
    if t.len() >= " kB".spec_bytes().len() && t.skip(t.len() - " kB".spec_bytes().len())
        == " kB".spec_bytes() {
        let num = t.take(t.len() - " kB".spec_bytes().len());
        if valid_u64(num) && digits_val(num) * 1024 <= usize::MAX {
            Some((digits_val(num) * 1024) as usize)
        } else {
            None
        }
    } else {
        None
    }
}

/// One step per line: a line either is empty, names a figure the listing
/// tracks, names something else (ignored), or is malformed. Reading stops
/// at the swap-free line, the last figure the library needs.
pub open spec fn spec_meminfo_lines(lines: Seq<Seq<u8>>, acc: MemInfo) -> Option<MemInfo>
    decreases lines.len(),
{
    if lines.len() == 0 {
        Some(acc)
    } else {
        let l = lines[0];
        if l.len() == 0 {
            spec_meminfo_lines(lines.skip(1), acc)
        } else {
            match spec_find(l, 58) {
                None => None,
                Some(i) => {
                    let key = l.take(i);
                    let value = l.skip(i + 1);
                    if key == "MemTotal".spec_bytes() {
                        match spec_kb_value(value) {
                            Some(v) => spec_meminfo_lines(
                                lines.skip(1),
                                MemInfo { mem_total: v, ..acc },
                            ),
                            None => None,
                        }
                    } else if key == "MemFree".spec_bytes() {
                        match spec_kb_value(value) {
                            Some(v) => spec_meminfo_lines(
                                lines.skip(1),
                                MemInfo { mem_free: v, ..acc },
                            ),
                            None => None,
                        }
                    } else if key == "SwapTotal".spec_bytes() {
                        match spec_kb_value(value) {
                            Some(v) => spec_meminfo_lines(
                                lines.skip(1),
                                MemInfo { swap_total: v, ..acc },
                            ),
                            None => None,
                        }
                    } else if key == "SwapFree".spec_bytes() {
                        match spec_kb_value(value) {
                            Some(v) => Some(MemInfo { swap_free: v, ..acc }),
                            None => None,
                        }
                    } else {
                        spec_meminfo_lines(lines.skip(1), acc)
                    }
                },
            }
        }
    }
}

/// What reading a whole meminfo listing yields, starting from all-zero
/// figures; `None` means some line up to the swap-free line is malformed.
pub open spec fn spec_meminfo(data: Seq<u8>) -> Option<MemInfo> {
    spec_meminfo_lines(
        spec_split(data, 10),
        MemInfo { mem_total: 0, mem_free: 0, swap_total: 0, swap_free: 0 },
    )
}

/// Reads the trimmed ` kB` value field of one line, scaled to bytes.
fn parse_kb_value(v: &[u8]) -> (r: Option<usize>)
    ensures
        r == spec_kb_value(v@),
{
    let t = trim_bytes(v);
    let num = match strip_suffix(t, " kB".as_bytes()) {
        Some(n) => n,
        None => {
            return None;
        },
    };
    let val = match parse_u64(num) {
        Some(v) => v,
        None => {
            return None;
        },
    };
    if val <= (usize::MAX as u64) / 1024 {
        proof {
            assert(val * 1024 <= usize::MAX) by (nonlinear_arith)
                requires
                    val <= (usize::MAX as u64) / 1024,
            ;
        }
        Some((val as usize) * 1024)
    } else {
        proof {
            assert(val * 1024 > usize::MAX) by (nonlinear_arith)
                requires
                    val > (usize::MAX as u64) / 1024,
            ;
        }
        None
    }
}

impl MemInfo {
    /// Reads the memory and swap figures out of a meminfo listing. Lines
    /// after the swap-free figure are not read at all; a malformed line
    /// before it fails the whole read.
    pub fn parse(data: &[u8]) -> (r: Result<MemInfo, Error>)
        ensures
            r is Ok <==> spec_meminfo(data@) is Some,
            r is Ok ==> Some(r->Ok_0) == spec_meminfo(data@),
            r is Err ==> r->Err_0 is MemInfo,
    {
        let lines = split_bytes(data, 10);
        let mut acc = MemInfo { mem_total: 0, mem_free: 0, swap_total: 0, swap_free: 0 };
        let mut i: usize = 0;
        proof {
            assert(views(lines@).skip(0) =~= views(lines@));
        }
        while i < lines.len()
            invariant
                0 <= i <= lines@.len(),
                views(lines@) == spec_split(data@, 10),
                spec_meminfo(data@) == spec_meminfo_lines(views(lines@).skip(i as int), acc),
            decreases lines@.len() - i,
        {
            let line: &Vec<u8> = &lines[i];
            proof {
                assert(views(lines@)[i as int] == line@);
                assert(views(lines@).skip(i as int)[0] == line@);
                assert(views(lines@).skip(i as int).skip(1) =~= views(lines@).skip(i + 1));
            }
            if line.len() > 0 {
                let ci = match find_byte_from(line.as_slice(), 58, 0) {
                    Some(p) => {
                        proof {
                            lemma_find_first(line@, 58);
                            match spec_find(line@, 58) {
                                Some(k) => {
                                    assert(k == p);
                                },
                                None => {
                                    assert(false);
                                },
                            }
                        }
                        p
                    },
                    None => {
                        proof {
                            lemma_find_first(line@, 58);
                            match spec_find(line@, 58) {
                                Some(k) => {
                                    assert(false);
                                },
                                None => {},
                            }
                        }
                        return Err(
                            Error::MemInfo("Failed to parse memory info line".to_owned()),
                        );
                    },
                };
                let llen = line.len();
                let key = vstd::slice::slice_subrange(line.as_slice(), 0, ci);
                let value = vstd::slice::slice_subrange(line.as_slice(), ci + 1, llen);
                proof {
                    assert(key@ =~= line@.take(ci as int));
                    assert(value@ =~= line@.skip(ci + 1));
                }
                if eq_bytes(key, "MemTotal".as_bytes()) {
                    match parse_kb_value(value) {
                        Some(v) => {
                            acc = MemInfo { mem_total: v, ..acc };
                        },
                        None => {
                            return Err(Error::MemInfo("Failed to parse MemTotal".to_owned()));
                        },
                    }
                } else if eq_bytes(key, "MemFree".as_bytes()) {
                    match parse_kb_value(value) {
                        Some(v) => {
                            acc = MemInfo { mem_free: v, ..acc };
                        },
                        None => {
                            return Err(Error::MemInfo("Failed to parse MemFree".to_owned()));
                        },
                    }
                } else if eq_bytes(key, "SwapTotal".as_bytes()) {
                    match parse_kb_value(value) {
                        Some(v) => {
                            acc = MemInfo { swap_total: v, ..acc };
                        },
                        None => {
                            return Err(Error::MemInfo("Failed to parse SwapTotal".to_owned()));
                        },
                    }
                } else if eq_bytes(key, "SwapFree".as_bytes()) {
                    match parse_kb_value(value) {
                        Some(v) => {
                            acc = MemInfo { swap_free: v, ..acc };
                            return Ok(acc);
                        },
                        None => {
                            return Err(Error::MemInfo("Failed to parse SwapFree".to_owned()));
                        },
                    }
                }
            }
            i = i + 1;
        }
        proof {
            assert(views(lines@).skip(lines@.len() as int) =~= Seq::<Seq<u8>>::empty());
        }
        Ok(acc)
    }

    /// Memory in use: total less free.
    pub fn mem_used(&self) -> (r: usize)
        requires
            self.mem_free <= self.mem_total,
        ensures
            r == self.mem_total - self.mem_free,
    {
        self.mem_total - self.mem_free
    }

    /// Swap in use: total less free.
    pub fn swap_used(&self) -> (r: usize)
        requires
            self.swap_free <= self.swap_total,
        ensures
            r == self.swap_total - self.swap_free,
    {
        self.swap_total - self.swap_free
    }
}

} // verus!
