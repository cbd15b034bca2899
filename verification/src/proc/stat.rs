//! One process's stat line: the command name between parentheses, then a
//! fixed sequence of space-separated fields read by position.

use vstd::prelude::*;

use crate::parse::{
    digits_val, field_or_zero, find2, lemma_split_len, parse_u64, spec_find2, spec_split,
    split_bytes, valid_u64, views,
};
use crate::proc::state::{spec_known_state, State};
use crate::proc::Error;

verus! {

/// The fields the library reads out of a stat line. `cpu_used` is the sum
/// of user-mode and kernel-mode ticks; `memory_res` is in pages and
/// `memory_virtual` in bytes, as the kernel reports them.
#[derive(Debug, Clone)]
pub struct Stat {
    pub name: Vec<u8>,
    pub memory_res: usize,
    pub memory_virtual: usize,
    pub state: State,
    pub cpu_used: u64,
    pub num_threads: u32,
}

/// What stands after the closing parenthesis of the command name, or `None`
/// when the parenthesized name cannot be delimited.
pub open spec fn spec_stat_rest(s: Seq<u8>) -> Option<Seq<u8>> {
    match spec_find2(s, 32, 40) {
        None => None,
        Some(p) => {
            let tmp = s.skip(p + 2);
            match spec_find2(tmp, 41, 32) {
                None => None,
                Some(q) => Some(tmp.skip(q + 2)),
            }
        },
    }
}

/// The command name: what stands between `(` and the first `) ` after it.
pub open spec fn spec_stat_name(s: Seq<u8>) -> Seq<u8> {
    match spec_find2(s, 32, 40) {
        None => Seq::empty(),
        Some(p) => {
            let tmp = s.skip(p + 2);
            match spec_find2(tmp, 41, 32) {
                None => Seq::empty(),
                Some(q) => tmp.take(q),
            }
        },
    }
}

/// The positions the library reads from the field list after the name:
/// state, user ticks, kernel ticks, thread count, virtual size,
/// resident size. Each that is present must parse and fit its type.
pub open spec fn stat_fields_ok(toks: Seq<Seq<u8>>) -> bool {
    &&& (toks.len() > 11 ==> valid_u64(toks[11]))
    &&& (toks.len() > 12 ==> valid_u64(toks[12]))
    &&& (toks.len() > 17 ==> valid_u64(toks[17]) && digits_val(toks[17]) <= u32::MAX)
    &&& (toks.len() > 20 ==> valid_u64(toks[20]) && digits_val(toks[20]) <= usize::MAX)
    &&& (toks.len() > 21 ==> valid_u64(toks[21]) && digits_val(toks[21]) <= usize::MAX)
}

/// Whether a record's state field matches the state token of its line:
/// a documented code maps to its variant, any other token is kept verbatim.
pub open spec fn stat_state_matches(st: State, toks: Seq<Seq<u8>>) -> bool {
    match spec_known_state(toks[0]) {
        Some(ks) => st == ks,
        None => st is Unknown && st->Unknown_0@ == toks[0],
    }
}

/// Whether a whole stat line is readable.
pub open spec fn spec_stat_ok(s: Seq<u8>) -> bool {
    match spec_stat_rest(s) {
        None => false,
        Some(rest) => stat_fields_ok(spec_split(rest, 32)),
    }
}

/// Reads one numeric field by position; a position past the end of the
/// line counts as zero.
fn parse_stat_field(toks: &Vec<Vec<u8>>, i: usize) -> (r: Option<u64>)
    ensures
        r is Some <==> (i < toks@.len() ==> valid_u64(views(toks@)[i as int])),
        r is Some ==> r->Some_0 == field_or_zero(views(toks@), i as int),
{
    if i < toks.len() {
        parse_u64(toks[i].as_slice())
    } else {
        Some(0)
    }
}

impl Stat {
    /// Reads a stat line. The name is taken verbatim from between the
    /// parentheses; the fields after it are read by position, and missing
    /// trailing fields are zero, as the line only ever grows by kernel
    /// version. The two tick counts are added saturating.
    pub fn from_str(s: &[u8]) -> (r: Result<Stat, Error>)
        ensures
            r is Ok <==> spec_stat_ok(s@),
            r is Ok ==> {
                let toks = spec_split(spec_stat_rest(s@)->Some_0, 32);
                let st = r->Ok_0;
                &&& st.name@ == spec_stat_name(s@)
                &&& st.cpu_used == (field_or_zero(toks, 11) as u64).saturating_add(
                    field_or_zero(toks, 12) as u64,
                )
                &&& st.num_threads == field_or_zero(toks, 17)
                &&& st.memory_virtual == field_or_zero(toks, 20)
                &&& st.memory_res == field_or_zero(toks, 21)
                &&& stat_state_matches(st.state, toks)
            },
            r is Err ==> r->Err_0 is StatParsing,
    {
        let p = match find2(s, 32, 40) {
            Some(p) => p,
            None => {
                return Err(Error::StatParsing("Failed to find start of comm".to_owned()));
            },
        };
        let slen = s.len();
        let tmp = vstd::slice::slice_subrange(s, p + 2, slen);
        proof {
            assert(tmp@ =~= s@.skip(p + 2));
        }
        let q = match find2(tmp, 41, 32) {
            Some(q) => q,
            None => {
                return Err(Error::StatParsing("Failed to find end of comm".to_owned()));
            },
        };
        let name = vstd::slice::slice_to_vec(vstd::slice::slice_subrange(tmp, 0, q));
        proof {
            assert(name@ =~= tmp@.take(q as int));
        }
        let tlen = tmp.len();
        let rest = vstd::slice::slice_subrange(tmp, q + 2, tlen);
        proof {
            assert(rest@ =~= tmp@.skip(q + 2));
        }
        let toks = split_bytes(rest, 32);
        proof {
            lemma_split_len(rest@, 32);
            assert(views(toks@)[0] == toks@[0]@);
        }
        let state = State::from_bytes(toks[0].as_slice());
        let utime = match parse_stat_field(&toks, 11) {
            Some(v) => v,
            None => {
                return Err(Error::StatParsing("Failed to parse utime".to_owned()));
            },
        };
        let stime = match parse_stat_field(&toks, 12) {
            Some(v) => v,
            None => {
                return Err(Error::StatParsing("Failed to parse stime".to_owned()));
            },
        };
        let cpu_used = utime.saturating_add(stime);
        let num_threads_v = match parse_stat_field(&toks, 17) {
            Some(v) => v,
            None => {
                return Err(Error::StatParsing("Failed to parse num threads".to_owned()));
            },
        };
        if num_threads_v > u32::MAX as u64 {
            return Err(Error::StatParsing("Failed to parse num threads".to_owned()));
        }
        let memory_virtual_v = match parse_stat_field(&toks, 20) {
            Some(v) => v,
            None => {
                return Err(Error::StatParsing("Failed to parse memory virtual".to_owned()));
            },
        };
        if memory_virtual_v > usize::MAX as u64 {
            return Err(Error::StatParsing("Failed to parse memory virtual".to_owned()));
        }
        let memory_res_v = match parse_stat_field(&toks, 21) {
            Some(v) => v,
            None => {
                return Err(Error::StatParsing("Failed to parse memory res".to_owned()));
            },
        };
        if memory_res_v > usize::MAX as u64 {
            return Err(Error::StatParsing("Failed to parse memory res".to_owned()));
        }
        Ok(
            Stat {
                name,
                memory_res: memory_res_v as usize,
                memory_virtual: memory_virtual_v as usize,
                state,
                cpu_used,
                num_threads: num_threads_v as u32,
            },
        )
    }
}

} // verus!
