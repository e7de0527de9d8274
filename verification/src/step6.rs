//! Final layer: the payload's Ascii85 layer is stripped and the resulting
//! bytes are booted as a Tomtel program; the layer's output is whatever the
//! program emits before halting.
//!
//! The machine itself has no iteration ceiling, so the caller hands in a
//! step budget and learns when it ran out before the program halted.

use vstd::prelude::*;

use crate::base85::base85;
use crate::base85::base85_decode;
use crate::base85::base85_input_ok;
use crate::vm::boot;
use crate::vm::spec_run;
use crate::vm::TomtelI69;
use crate::vm::VmError;
use crate::vm::VmStatus;

verus! {

/// Boots a machine over the program image and runs it for at most
/// `max_steps` cycles. `Ok(Some(out))` is the program's output at a `Halt`;
/// `Ok(None)` means the budget ran out first.
pub fn step6_extension(payload: Vec<u8>, max_steps: u64) -> (r: Result<Option<Vec<u8>>, VmError>)
    ensures
        ({
            let (m2, st) = spec_run(boot(payload@), max_steps as nat);
            match st {
                VmStatus::Running => r == Ok::<Option<Vec<u8>>, VmError>(None),
                VmStatus::Halted => r matches Ok(Some(v)) && v@ == m2.out,
                VmStatus::Faulted(e) => r == Err::<Option<Vec<u8>>, VmError>(e),
            }
        }),
{
    let len = payload.len();
    let mut cpu = TomtelI69::new(len, payload);
    cpu.run(max_steps)
}

/// The whole layer: strips the Ascii85 layer, then runs the decoded bytes
/// as a Tomtel program under the given step budget.
pub fn run_step(payload: &[u8], max_steps: u64) -> (r: Result<Option<Vec<u8>>, VmError>)
    requires
        base85_input_ok(payload@),
    ensures
        ({
            let (m2, st) = spec_run(boot(base85_decode(payload@)), max_steps as nat);
            match st {
                VmStatus::Running => r == Ok::<Option<Vec<u8>>, VmError>(None),
                VmStatus::Halted => r matches Ok(Some(v)) && v@ == m2.out,
                VmStatus::Faulted(e) => r == Err::<Option<Vec<u8>>, VmError>(e),
            }
        }),
{
    let encode = base85(payload);
    step6_extension(encode, max_steps)
}

} // verus!
