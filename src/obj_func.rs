use vstd::prelude::*;

use crate::ieee::RealBits;
use crate::processing::usable;

verus! {

/// How to run the objective function: a program and the arguments that come
/// before the candidate's JSON text.
#[derive(Debug)]
pub struct ObjFuncCallDef {
    pub program: String,
    pub args: Vec<String>,
}

pub struct CallView {
    pub program: String,
    pub args: Seq<String>,
}

impl View for ObjFuncCallDef {
    type V = CallView;

    open spec fn view(&self) -> CallView {
        CallView { program: self.program, args: self.args@ }
    }
}

/// The objective value that a finished child process yields: none when it
/// wrote anything to stderr or its stdout held no number, and none for NaN.
pub open spec fn outcome_spec(stderr_len: nat, parsed: Option<RealBits>) -> Option<RealBits> {
    if stderr_len > 0 {
        None
    } else {
        usable(parsed)
    }
}

/// Decides the value of one evaluation from the child's stderr and the
/// `obj_func_val` read from its stdout, if one could be read.
pub fn evaluation_outcome(stderr: &Vec<u8>, parsed: Option<RealBits>) -> (r: Option<RealBits>)
    ensures
        r == outcome_spec(stderr@.len(), parsed),
{
    if stderr.len() > 0 {
        None
    } else {
        match parsed {
            Some(x) => if x.is_nan() {
                None
            } else {
                Some(x)
            },
            None => None,
        }
    }
}

} // verus!
