//! The backend resolver: the device identifiers select the CPU backend, one
//! accelerator, or a distributed group of accelerators.
use vstd::prelude::*;
use vstd::set_lib::lemma_len_subset;

use crate::device::{range_ids, DeviceSpec, DeviceSpecModel};
use crate::error::DispatchError;

verus! {

broadcast use vstd::seq_lib::group_seq_properties;

/// A backend selection, as a mathematical value.
pub enum BackendModel {
    Cpu,
    SingleDevice(u32),
    Distributed(Seq<u32>),
}

/// The backend that runs a task.
#[derive(Debug)]
pub enum BackendSelection {
    /// No accelerator: the CPU backend.
    Cpu,
    /// The whole model loaded onto one accelerator.
    SingleDevice(u32),
    /// One device handle per identifier, in the order given, duplicates kept.
    Distributed(Vec<u32>),
}

impl View for BackendSelection {
    type V = BackendModel;

    open spec fn view(&self) -> BackendModel {
        match self {
            BackendSelection::Cpu => BackendModel::Cpu,
            BackendSelection::SingleDevice(id) => BackendModel::SingleDevice(*id),
            BackendSelection::Distributed(ids) => BackendModel::Distributed(ids@),
        }
    }
}

/// How many different identifiers `ids` holds.
pub open spec fn distinct_count(ids: Seq<u32>) -> nat {
    ids.to_set().len()
}

/// The backend for `ids`, decided by the number of distinct identifiers alone.
pub open spec fn backend_for(ids: Seq<u32>) -> BackendModel {
    if distinct_count(ids) == 0 {
        BackendModel::Cpu
    } else if distinct_count(ids) == 1 {
        BackendModel::SingleDevice(ids[0])
    } else {
        BackendModel::Distributed(ids)
    }
}

/// What resolving `ids` gives, given whether this build has distributed support.
pub open spec fn resolve_spec(ids: Seq<u32>, distributed_support: bool) -> Result<
    BackendModel,
    DispatchError,
> {
    if distinct_count(ids) > 1 && !distributed_support {
        Err(DispatchError::UnsupportedTopology)
    } else {
        Ok(backend_for(ids))
    }
}

/// The mathematical value of a resolution result.
pub open spec fn resolve_result_view(r: Result<BackendSelection, DispatchError>) -> Result<
    BackendModel,
    DispatchError,
> {
    match r {
        Ok(b) => Ok(b@),
        Err(e) => Err(e),
    }
}

/// No identifiers: no distinct one.
pub proof fn lemma_distinct_empty(ids: Seq<u32>)
    requires
        ids.len() == 0,
    ensures
        distinct_count(ids) == 0,
{
    assert(ids.to_set() =~= Set::<u32>::empty());
}

/// Identifiers that all equal the first: one distinct.
pub proof fn lemma_distinct_one(ids: Seq<u32>)
    requires
        ids.len() > 0,
        forall|i: int| 0 <= i < ids.len() ==> #[trigger] ids[i] == ids[0],
    ensures
        distinct_count(ids) == 1,
{
    assert(ids.to_set() =~= set![ids[0]]);
}

/// Two different identifiers: more than one distinct.
pub proof fn lemma_distinct_many(ids: Seq<u32>, j: int)
    requires
        0 <= j < ids.len(),
        ids[j] != ids[0],
    ensures
        distinct_count(ids) > 1,
{
    let two = set![ids[0], ids[j]];
    assert(two.subset_of(ids.to_set()));
    lemma_len_subset(two, ids.to_set());
    assert(two.len() == 2);
}

/// Picks the backend for `ids`: none is the CPU, one distinct identifier is a
/// single accelerator, more are a distributed group that needs distributed
/// support in this build.
pub fn resolve(ids: Vec<u32>, distributed_support: bool) -> (r: Result<
    BackendSelection,
    DispatchError,
>)
    ensures
        resolve_result_view(r) == resolve_spec(ids@, distributed_support),
{
    if ids.len() == 0 {
        proof {
            lemma_distinct_empty(ids@);
        }
        return Ok(BackendSelection::Cpu);
    }
    let first = ids[0];
    let mut j: usize = 1;
    while j < ids.len()
        invariant
            1 <= j <= ids@.len(),
            first == ids@[0],
            forall|i: int| 0 <= i < j ==> #[trigger] ids@[i] == first,
        decreases ids@.len() - j,
    {
        if ids[j] != first {
            proof {
                lemma_distinct_many(ids@, j as int);
            }
            if distributed_support {
                return Ok(BackendSelection::Distributed(ids));
            } else {
                return Err(DispatchError::UnsupportedTopology);
            }
        }
        j = j + 1;
    }
    proof {
        lemma_distinct_one(ids@);
    }
    Ok(BackendSelection::SingleDevice(first))
}

/// Resolves what a device specification selects, with `device_count`
/// accelerators present.
pub fn select_backend(devices: DeviceSpec, device_count: u32, distributed_support: bool) -> (r:
    Result<BackendSelection, DispatchError>)
    ensures
        resolve_result_view(r) == resolve_spec(devices@.ids(device_count), distributed_support),
{
    resolve(devices.into_ids(device_count), distributed_support)
}

/// The backend depends on the number of distinct identifiers alone: none is
/// the CPU, one is a single device, more are distributed, whether the
/// identifiers were listed or given as a range.
pub proof fn lemma_backend_by_distinct_count(
    x: DeviceSpecModel,
    y: DeviceSpecModel,
    device_count: u32,
)
    requires
        distinct_count(x.ids(device_count)) == distinct_count(y.ids(device_count)),
    ensures
        (backend_for(x.ids(device_count)) is Cpu) == (backend_for(y.ids(device_count)) is Cpu),
        (backend_for(x.ids(device_count)) is SingleDevice) == (backend_for(
            y.ids(device_count),
        ) is SingleDevice),
        (backend_for(x.ids(device_count)) is Distributed) == (backend_for(
            y.ids(device_count),
        ) is Distributed),
        distinct_count(x.ids(device_count)) == 0 ==> backend_for(x.ids(device_count)) is Cpu,
        distinct_count(x.ids(device_count)) == 1 ==> backend_for(
            x.ids(device_count),
        ) is SingleDevice,
        distinct_count(x.ids(device_count)) > 1 ==> backend_for(
            x.ids(device_count),
        ) is Distributed,
{
}

/// A range `a..b` holds `b - a` distinct identifiers when `a < b`, none otherwise.
pub proof fn lemma_range_distinct_count(a: u32, b: u32)
    ensures
        distinct_count(range_ids(a, b)) == if a < b {
            b - a
        } else {
            0
        },
{
    let s = range_ids(a, b);
    assert(s.no_duplicates());
    s.unique_seq_to_set();
}

} // verus!
