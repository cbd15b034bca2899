//! Load averages, as the kernel's one-line loadavg source reports them.

use vstd::prelude::*;

use crate::parse::{centi_val, parse_centi, spec_split, split_bytes, valid_centi};
use crate::proc::Error;

verus! {

/// The 1-, 5- and 15-minute load averages, in hundredths (a stored value
/// of 52 means a load average of 0.52).
#[derive(Debug, Clone, PartialEq, Eq, Structural)]
pub struct LoadAvg {
    pub one: u64,
    pub five: u64,
    pub fifteen: u64,
}

/// The loadavg line is readable: it has at least three space-separated
/// fields and each of the first three is a fixed-point number with two
/// fractional digits.
pub open spec fn valid_loadavg(toks: Seq<Seq<u8>>) -> bool {
    &&& toks.len() >= 3
    &&& valid_centi(toks[0])
    &&& valid_centi(toks[1])
    &&& valid_centi(toks[2])
}

impl LoadAvg {
    /// Reads the three leading load figures of the loadavg line; the
    /// remaining fields (run queue, last pid) are not the library's concern.
    pub fn load(data: &[u8]) -> (r: Result<LoadAvg, Error>)
        ensures
            r is Ok <==> valid_loadavg(spec_split(data@, 32)),
            r is Ok ==> {
                let toks = spec_split(data@, 32);
                &&& r->Ok_0.one == centi_val(toks[0])
                &&& r->Ok_0.five == centi_val(toks[1])
                &&& r->Ok_0.fifteen == centi_val(toks[2])
            },
            r is Err ==> r->Err_0 is LoadAvg,
    {
        let toks = split_bytes(data, 32);
        if toks.len() < 3 {
            return Err(Error::LoadAvg("Failed to read 1 minute average".to_owned()));
        }
        let one = match parse_centi(toks[0].as_slice()) {
            Some(v) => v,
            None => {
                return Err(Error::LoadAvg("Failed to parse 1 minute average".to_owned()));
            },
        };
        let five = match parse_centi(toks[1].as_slice()) {
            Some(v) => v,
            None => {
                return Err(Error::LoadAvg("Failed to parse 5 minute average".to_owned()));
            },
        };
        let fifteen = match parse_centi(toks[2].as_slice()) {
            Some(v) => v,
            None => {
                return Err(Error::LoadAvg("Failed to parse 15 minute average".to_owned()));
            },
        };
        Ok(LoadAvg { one, five, fifteen })
    }
}

} // verus!
