use vstd::prelude::*;

verus! {

use crate::parser::extract_data_row;
use crate::parser::extract_spec;
use crate::registry::{applied_values, Metrics};

/// Why a collection cycle left the registry untouched.
#[derive(Clone, Copy, Debug, PartialEq, Eq)]
pub enum CycleError {
    /// The sampling tool exited with a failure status.
    ToolFailed,
    /// The tool's result file could not be read.
    ReadFailed,
    /// No row of the result file satisfied the structural criteria.
    NoData,
}

/// What one collection cycle leaves in the registry: the last usable
/// sample's values where the tool succeeded, its file was read and a row
/// qualified, and the previous values in every other case.
pub open spec fn cycle_values(pre: Seq<u64>, tool_ok: bool, content: Option<Seq<u8>>) -> Seq<
    u64,
> {
    if !tool_ok {
        pre
    } else {
        match content {
            None => pre,
            Some(c) => match extract_spec(c) {
                None => pre,
                Some(fields) => applied_values(fields),
            },
        }
    }
}

/// Law (stale on failure): a cycle that fails for any reason — the tool
/// exited with an error, its file could not be read, or no row qualified —
/// leaves the value vector exactly as the last successful apply left it.
pub proof fn lemma_stale_on_failure(v1: Seq<u64>, tool_ok: bool, content: Option<Seq<u8>>)
    requires
        !tool_ok || content is None || extract_spec(content->Some_0) is None,
    ensures
        cycle_values(v1, tool_ok, content) == v1,
{
}

/// One collection cycle's decisions, once the outside work is done: the tool
/// has exited (`tool_ok` per its status) and the result file has been read
/// (`content`, `None` where reading failed). A usable sample is applied to
/// the registry as a whole; on any failure the cycle reports why and leaves
/// every previously published value in place.
pub fn run_cycle(m: &mut Metrics, tool_ok: bool, content: &Option<Vec<u8>>) -> (r: Result<
    (),
    CycleError,
>)
    requires
        old(m).wf(),
    ensures
        final(m).wf(),
        final(m).spec_nodename() == old(m).spec_nodename(),
        final(m).spec_values() == cycle_values(
            old(m).spec_values(),
            tool_ok,
            content.deep_view(),
        ),
        !tool_ok ==> r == Result::<(), CycleError>::Err(CycleError::ToolFailed) && *final(m)
            == *old(m),
        tool_ok ==> match *content {
            None => r == Result::<(), CycleError>::Err(CycleError::ReadFailed) && *final(m)
                == *old(m),
            Some(c) => match extract_spec(c@) {
                None => r == Result::<(), CycleError>::Err(CycleError::NoData) && *final(m)
                    == *old(m),
                Some(fields) => r == Result::<(), CycleError>::Ok(()) && final(m).spec_values()
                    == applied_values(fields),
            },
        },
{
    if !tool_ok {
        return Err(CycleError::ToolFailed);
    }
    let c = match content {
        Some(c) => c,
        None => {
            return Err(CycleError::ReadFailed);
        },
    };
    proof {
        assert(c.deep_view() =~= c@);
    }
    match extract_data_row(c.as_slice()) {
        Some(fields) => {
            proof {
                assert(fields.deep_view().len() == crate::catalog::MEASUREMENT_COUNT as int);
            }
            m.update(&fields);
            Ok(())
        },
        None => Err(CycleError::NoData),
    }
}

} // verus!
