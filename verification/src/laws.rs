//! Laws the linker's contracts entail, written out and proved so that a
//! reader sees them stated rather than implied.

use vstd::prelude::*;

use crate::entry::ImageCommonEntry;
use crate::indexer::{is_depth_sorted, module_edge};

verus! {

/// In a depth-sorted module list, a reached module stands before every module
/// it imports: depths grow strictly along import edges out of reached
/// modules, and the sort is ascending in depth.
pub proof fn lemma_importer_precedes(
    units: Seq<ImageCommonEntry>,
    result: Seq<ImageCommonEntry>,
    d: Seq<usize>,
    ord: Seq<usize>,
    kp: int,
    km: int,
)
    requires
        is_depth_sorted(units, result, d, ord),
        0 <= kp < ord.len(),
        0 <= km < ord.len(),
        module_edge(units, ord[kp] as int, ord[km] as int),
        ord[kp] as int == 0 || d[ord[kp] as int] > 0,
    ensures
        kp < km,
        d[ord[km] as int] as int >= d[ord[kp] as int] + 1,
{
    assert(d[ord[km] as int] as int >= d[ord[kp] as int] + 1);
    if km < kp {
        assert(d[ord[km] as int] <= d[ord[kp] as int]);
    } else if km == kp {
        assert(d[ord[km] as int] == d[ord[kp] as int]);
    }
}

/// The depth-sorted module list is monotone non-decreasing in depth.
pub proof fn lemma_sort_monotone(
    units: Seq<ImageCommonEntry>,
    result: Seq<ImageCommonEntry>,
    d: Seq<usize>,
    ord: Seq<usize>,
    k: int,
    l: int,
)
    requires
        is_depth_sorted(units, result, d, ord),
        0 <= k < l < ord.len(),
    ensures
        d[ord[k] as int] <= d[ord[l] as int],
{
}

} // verus!
