use vstd::prelude::*;

use crate::algo::AlgoConf;

verus! {

/// The request messages of the first protocol version.
#[derive(Debug)]
pub enum Message {
    ProcessingJobDataMsg(ProcessingJobData),
    StopProcessingMsg,
}

#[derive(Debug)]
pub struct ProcessingJobData {
    pub program: String,
    pub args: Vec<String>,
    pub spec_file: String,
    pub algo_conf: AlgoConf,
}

} // verus!
