//! Scanning the command line: a `-t <hours>` timezone flag, a `--oneshot`
//! flag, and a record of the arguments that are neither, which callers
//! report as warnings.

use vstd::prelude::*;
use vstd::string::StrSliceExecFns;
use crate::parse::{parse_timezone, spec_parse_i32};

verus! {

/// What the scan decided: run with the given settings, or stop because the
/// value of `-t` is missing or is not a whole number. `index` names the
/// offending argument.
#[derive(Clone, Copy, Debug, PartialEq, Eq, Structural)]
pub enum ScanAction {
    Run { tz_offset: i32, oneshot: bool },
    MissingOffset,
    BadOffset { index: usize },
}

/// The scan's outcome: the positions of the unrecognized arguments seen
/// before it ended, and what to do.
pub struct ScanResult {
    pub unknown: Vec<usize>,
    pub action: ScanAction,
}

/// The mathematical form of a scan outcome.
pub struct ScanModel {
    pub unknown: Seq<usize>,
    pub action: ScanAction,
}

/// The views of a sequence of argument strings.
pub open spec fn arg_views(args: Seq<String>) -> Seq<Seq<char>> {
    Seq::new(args.len(), |i: int| args[i]@)
}

/// One left-to-right pass over the arguments from position `i`, carrying the
/// settings gathered so far. `-t` consumes the following argument as the
/// offset; `--oneshot` switches one-shot mode on; anything else is recorded
/// as unrecognized and skipped.
pub open spec fn spec_scan_args(
    vs: Seq<Seq<char>>,
    i: int,
    tz_offset: i32,
    oneshot: bool,
    unknown: Seq<usize>,
) -> ScanModel
    decreases vs.len() - i,
{
    if i < 1 || i >= vs.len() {
        ScanModel { unknown, action: ScanAction::Run { tz_offset, oneshot } }
    } else if vs[i] == "-t"@ {
        if i + 1 < vs.len() {
            match spec_parse_i32(vs[i + 1]) {
                Some(v) => spec_scan_args(vs, i + 2, v, oneshot, unknown),
                None => ScanModel {
                    unknown,
                    action: ScanAction::BadOffset { index: (i + 1) as usize },
                },
            }
        } else {
            ScanModel { unknown, action: ScanAction::MissingOffset }
        }
    } else if vs[i] == "--oneshot"@ {
        spec_scan_args(vs, i + 1, tz_offset, true, unknown)
    } else {
        spec_scan_args(vs, i + 1, tz_offset, oneshot, unknown.push(i as usize))
    }
}

/// Whether two string slices hold the same characters.
#[verifier::loop_isolation(false)]
fn str_eq(a: &str, b: &str) -> (r: bool)
    ensures
        r == (a@ == b@),
{
    let n = a.unicode_len();
    if n != b.unicode_len() {
        return false;
    }
    let mut i: usize = 0;
    while i < n
        invariant
            0 <= i <= n,
            forall|j: int| 0 <= j < i ==> a@[j] == b@[j],
        decreases n - i,
    {
        if a.get_char(i) != b.get_char(i) {
            return false;
        }
        i = i + 1;
    }
    proof {
        assert(a@ =~= b@);
    }
    true
}

/// Scans the arguments as the command line presents them, program name
/// first. The result is exactly what one pass of `spec_scan_args` over the
/// argument texts decides.
#[verifier::loop_isolation(false)]
pub fn parse_args(args: &Vec<String>) -> (r: ScanResult)
    ensures
        ({
            let m = spec_scan_args(arg_views(args@), 1, 0, false, Seq::empty());
            r.unknown@ == m.unknown && r.action == m.action
        }),
{
    let mut i: usize = 1;
    let mut tz_offset: i32 = 0;
    let mut oneshot: bool = false;
    let mut unknown: Vec<usize> = Vec::new();
    while i < args.len()
        invariant
            1 <= i,
            spec_scan_args(arg_views(args@), 1, 0, false, Seq::empty()) == spec_scan_args(
                arg_views(args@),
                i as int,
                tz_offset,
                oneshot,
                unknown@,
            ),
        decreases args.len() - i,
    {
        if str_eq(args[i].as_str(), "-t") {
            if i + 1 < args.len() {
                match parse_timezone(args[i + 1].as_str()) {
                    Some(v) => {
                        tz_offset = v;
                        i = i + 2;
                    },
                    None => {
                        return ScanResult {
                            unknown,
                            action: ScanAction::BadOffset { index: i + 1 },
                        };
                    },
                }
            } else {
                return ScanResult { unknown, action: ScanAction::MissingOffset };
            }
        } else if str_eq(args[i].as_str(), "--oneshot") {
            oneshot = true;
            i = i + 1;
        } else {
            unknown.push(i);
            i = i + 1;
        }
    }
    ScanResult { unknown, action: ScanAction::Run { tz_offset, oneshot } }
}

} // verus!
