use vstd::prelude::*;

use crate::app_state::{AppEvent, EventView};
use crate::domain::ProcessingJobData;
use crate::json::Json;
use crate::obj_func::{CallView, ObjFuncCallDef};
use crate::param::{spec_from_json, ParamsSpec, SpecError};

verus! {

/// The event that starts `job`, whose parameter-space document is
/// `spec_json`; the document's error when it is rejected.
pub fn job_event(job: ProcessingJobData, spec_json: Json) -> (r: Result<AppEvent, SpecError>)
    ensures
        spec_from_json(spec_json) matches Ok(dims) ==> r matches Ok(e) && e@ == EventView::ProcessingJob(
            dims,
            job.algo_conf,
            CallView { program: job.program, args: job.args@ },
        ),
        spec_from_json(spec_json) matches Err(err) ==> r == Err::<AppEvent, SpecError>(err),
        r matches Ok(AppEvent::ProcessingJob(s, _, _)) ==> s.valid(),
{
    match ParamsSpec::from_json(spec_json) {
        Ok(spec) => {
            let call = ObjFuncCallDef { program: job.program, args: job.args };
            Ok(AppEvent::ProcessingJob(spec, job.algo_conf, call))
        },
        Err(e) => Err(e),
    }
}

} // verus!
