//! The static linker: fuses several object units into one module.

use vstd::prelude::*;

use crate::{LinkErrorType, LinkerError};

use crate::entry::{
    export_data_deq, export_function_deq, inited_data_deq, is_self_reference, local_list_deq,
    relocate_list_deq, type_entry_deq, EffectiveVersion, ExportDataEntry, ExportFunctionEntry,
    ExternalFunctionEntry, ExternalLibraryEntry, FunctionEntry, ImageCommonEntry, ImageType,
    ImportDataEntry, ImportFunctionEntry, ImportModuleEntry, InitedDataEntry,
    LocalVariableListEntry, RelocateListEntry, TypeEntry, UninitDataEntry,
};
use crate::entry::is_self_reference_entry;
use crate::merger::{
    external_functions_distinct, external_library_conflict_witness,
    external_library_versions_valid, extfn_count_before, extfn_slot_ok, find_export_data,
    find_export_fn, fn_count_before, impdata_count_before, impfn_count_before,
    import_module_conflict_witness, import_module_names_distinct, import_module_versions_valid,
    in_any_slot, inited_count_before, le32, local_list_table_distinct, lvl_count_before,
    merge_data_entries, merge_external_function_entries, merge_external_library_entries,
    merge_function_entries, merge_import_data_entries, merge_import_function_entries,
    merge_import_module_entries, merge_local_variable_list_entries, merge_type_entries,
    library_names_folded, lvl_table_folded, merged_data_index, module_from_lists,
    module_names_folded, module_version_max_upto, relocations_fit, remap_lookup,
    type_count_before, type_from_lists, type_table_distinct, type_table_folded,
    unit_functions_fit, uninit_count_before,
};
pub use crate::merger::RemapTable;

use crate::merger::{
    external_library_lists_compatible, import_fn_from_lists, import_module_lists_compatible,
};
use crate::merger::{
    data_slot_bound, lemma_find_export_fn, lemma_merged_data_index_in_range, pubmap_slot_ok,
    section_imports,
};
use crate::entry::{copy_string, DataSectionType, RelocateEntry, RelocateType};

verus! {

// ---------------------------------------------------------------------------
// views of the units' tables
// ---------------------------------------------------------------------------

pub open spec fn unit_types(units: Seq<ImageCommonEntry>) -> Seq<Vec<TypeEntry>> {
    Seq::new(units.len(), |u: int| units[u].type_entries)
}

pub open spec fn unit_lvls(units: Seq<ImageCommonEntry>) -> Seq<Vec<LocalVariableListEntry>> {
    Seq::new(units.len(), |u: int| units[u].local_variable_list_entries)
}

pub open spec fn unit_impmods(units: Seq<ImageCommonEntry>) -> Seq<Vec<ImportModuleEntry>> {
    Seq::new(units.len(), |u: int| units[u].import_module_entries)
}

pub open spec fn unit_impfns(units: Seq<ImageCommonEntry>) -> Seq<Vec<ImportFunctionEntry>> {
    Seq::new(units.len(), |u: int| units[u].import_function_entries)
}

pub open spec fn unit_impdata(units: Seq<ImageCommonEntry>) -> Seq<Vec<ImportDataEntry>> {
    Seq::new(units.len(), |u: int| units[u].import_data_entries)
}

pub open spec fn unit_expdata(units: Seq<ImageCommonEntry>) -> Seq<Vec<ExportDataEntry>> {
    Seq::new(units.len(), |u: int| units[u].export_data_entries)
}

pub open spec fn unit_ro(units: Seq<ImageCommonEntry>) -> Seq<Vec<InitedDataEntry>> {
    Seq::new(units.len(), |u: int| units[u].read_only_data_entries)
}

pub open spec fn unit_rw(units: Seq<ImageCommonEntry>) -> Seq<Vec<InitedDataEntry>> {
    Seq::new(units.len(), |u: int| units[u].read_write_data_entries)
}

pub open spec fn unit_un(units: Seq<ImageCommonEntry>) -> Seq<Vec<UninitDataEntry>> {
    Seq::new(units.len(), |u: int| units[u].uninit_data_entries)
}

pub open spec fn unit_xlibs(units: Seq<ImageCommonEntry>) -> Seq<Vec<ExternalLibraryEntry>> {
    Seq::new(units.len(), |u: int| units[u].external_library_entries)
}

pub open spec fn unit_xfns(units: Seq<ImageCommonEntry>) -> Seq<Vec<ExternalFunctionEntry>> {
    Seq::new(units.len(), |u: int| units[u].external_function_entries)
}

pub open spec fn unit_fns(units: Seq<ImageCommonEntry>) -> Seq<Vec<FunctionEntry>> {
    Seq::new(units.len(), |u: int| units[u].function_entries)
}

pub open spec fn unit_rls(units: Seq<ImageCommonEntry>) -> Seq<Vec<RelocateListEntry>> {
    Seq::new(units.len(), |u: int| units[u].relocate_list_entries)
}

/// How many export functions the units before `u` hold: the merged internal
/// function index space is their concatenation.
pub open spec fn expfn_count_before(units: Seq<ImageCommonEntry>, u: int) -> int
    decreases u,
{
    if u <= 0 {
        0
    } else {
        expfn_count_before(units, u - 1) + units[u - 1].export_function_entries@.len()
    }
}

// ---------------------------------------------------------------------------
// what the static linker asks of its units
// ---------------------------------------------------------------------------

/// Every slot value of a relocation indexes the remap vector its kind selects,
/// measured in the unit's own index spaces.
pub open spec fn unit_slot_in_range(e: ImageCommonEntry, r: RelocateEntry, code: Seq<u8>) -> bool {
    let v = le32(code, r.code_offset as int);
    match r.relocate_type {
        RelocateType::TypeIndex => v < e.type_entries@.len(),
        RelocateType::LocalVariableListIndex => v
            < e.local_variable_list_entries@.len(),
        RelocateType::FunctionPublicIndex => v < e.import_function_entries@.len()
            + e.export_function_entries@.len(),
        RelocateType::ExternalFunctionIndex => v
            < e.external_function_entries@.len(),
        RelocateType::DataPublicIndex => v < e.import_data_entries@.len()
            + e.export_data_entries@.len(),
    }
}

/// The unit is internally consistent: table cross-references are in range,
/// the export tables parallel the internal tables, and every relocation names
/// a 4-byte slot inside its function's bytecode, none of them overlapping.
pub open spec fn unit_well_formed(e: ImageCommonEntry) -> bool {
    &&& e.export_data_entries@.len() == e.read_only_data_entries@.len()
        + e.read_write_data_entries@.len() + e.uninit_data_entries@.len()
    &&& forall|i: int|
        0 <= i < e.import_function_entries@.len() ==> {
            &&& (#[trigger] e.import_function_entries@[i]).import_module_index
                < e.import_module_entries@.len()
            &&& e.import_function_entries@[i].type_index < e.type_entries@.len()
        }
    &&& forall|i: int|
        0 <= i < e.import_data_entries@.len() ==> (
        #[trigger] e.import_data_entries@[i]).import_module_index
            < e.import_module_entries@.len()
    &&& forall|i: int|
        0 <= i < e.external_function_entries@.len() ==> {
            &&& (#[trigger] e.external_function_entries@[i]).external_library_index
                < e.external_library_entries@.len()
            &&& e.external_function_entries@[i].type_index < e.type_entries@.len()
        }
    &&& e.relocate_list_entries@.len() == e.function_entries@.len()
    &&& forall|j: int|
        0 <= j < e.function_entries@.len() ==> {
            &&& (#[trigger] e.function_entries@[j]).type_index < e.type_entries@.len()
            &&& e.function_entries@[j].local_variable_list_index
                < e.local_variable_list_entries@.len()
        }
    &&& forall|j: int, k: int|
        0 <= j < e.function_entries@.len() && 0 <= k
            < e.relocate_list_entries@[j].relocate_entries@.len() ==> {
            let r = #[trigger] e.relocate_list_entries@[j].relocate_entries@[k];
            &&& r.code_offset + 4 <= e.function_entries@[j].code@.len()
            &&& unit_slot_in_range(e, r, e.function_entries@[j].code@)
        }
    &&& forall|j: int, k: int, l: int|
        0 <= j < e.function_entries@.len() && 0 <= k
            < e.relocate_list_entries@[j].relocate_entries@.len() && 0 <= l
            < e.relocate_list_entries@[j].relocate_entries@.len() && k != l ==> ((
        #[trigger] e.relocate_list_entries@[j].relocate_entries@[k]).code_offset + 4 <= (
        #[trigger] e.relocate_list_entries@[j].relocate_entries@[l]).code_offset
            || e.relocate_list_entries@[j].relocate_entries@[l].code_offset + 4
            <= e.relocate_list_entries@[j].relocate_entries@[k].code_offset)
}

/// What the static linker asks of its input: at least one unit, every unit
/// well formed, version strings parseable, and total table sizes that fit the
/// 4-byte relocation slots.
pub open spec fn static_link_inputs_ok(units: Seq<ImageCommonEntry>) -> bool {
    &&& units.len() >= 1
    &&& forall|u: int| 0 <= u < units.len() ==> unit_well_formed(#[trigger] units[u])
    &&& import_module_names_distinct(units[0].import_module_entries@)
    &&& crate::merger::external_library_names_distinct(units[0].external_library_entries@)
    &&& import_module_versions_valid(unit_impmods(units))
    &&& external_library_versions_valid(unit_xlibs(units))
    &&& type_count_before(unit_types(units), units.len() as int) < 0x1_0000_0000
    &&& lvl_count_before(unit_lvls(units), units.len() as int) < 0x1_0000_0000
    &&& impfn_count_before(unit_impfns(units), units.len() as int) + expfn_count_before(
        units,
        units.len() as int,
    ) < 0x1_0000_0000
    &&& extfn_count_before(unit_xfns(units), units.len() as int) < 0x1_0000_0000
    &&& impdata_count_before(unit_impdata(units), units.len() as int) + inited_count_before(
        unit_ro(units),
        units.len() as int,
    ) + inited_count_before(unit_rw(units), units.len() as int) + uninit_count_before(
        unit_un(units),
        units.len() as int,
    ) < 0x1_0000_0000
}

/// Every byte outside the relocated slots is carried over unchanged, and the
/// lengths agree.
pub open spec fn code_preserved(oldc: Seq<u8>, newc: Seq<u8>, rl: Seq<RelocateEntry>) -> bool {
    &&& newc.len() == oldc.len()
    &&& forall|p: int| 0 <= p < oldc.len() && !in_any_slot(rl, p) ==> #[trigger] newc[p] == oldc[p]
}

/// A single unit's import-function table passes through the link unchanged
/// when its names are unique and none of them is exported by the unit.
pub open spec fn unit_imports_clean(e: ImageCommonEntry) -> bool {
    &&& forall|i: int, j: int|
        0 <= i < j < e.import_function_entries@.len() ==> (
        #[trigger] e.import_function_entries@[i]).full_name@ != (
        #[trigger] e.import_function_entries@[j]).full_name@
    &&& forall|i: int|
        0 <= i < e.import_function_entries@.len() ==> find_export_fn(
            e.export_function_entries@,
            (#[trigger] e.import_function_entries@[i]).full_name@,
        ) == -1
}

/// The per-unit remap tables tie the merged module to its units: each vector
/// maps a unit's old index to the merged index of the same entry, public
/// index spaces included.
pub open spec fn static_link_remaps_ok(
    units: Seq<ImageCommonEntry>,
    m: ImageCommonEntry,
    rts: Seq<RemapTable>,
) -> bool {
    let n = units.len() as int;
    &&& rts.len() == n
    &&& forall|u: int|
        0 <= u < n ==> {
            let rt = #[trigger] rts[u];
            &&& rt.type_remap_indices@.len() == units[u].type_entries@.len()
            &&& rt.local_variable_list_remap_indices@.len()
                == units[u].local_variable_list_entries@.len()
            &&& rt.function_public_remap_indices@.len()
                == units[u].import_function_entries@.len()
                + units[u].export_function_entries@.len()
            &&& rt.data_public_remap_indices@.len() == units[u].import_data_entries@.len()
                + units[u].export_data_entries@.len()
            &&& rt.external_function_remap_indices@.len()
                == units[u].external_function_entries@.len()
        }
    // types and local-variable lists map to structurally equal merged entries
    &&& forall|u: int, i: int|
        0 <= u < n && 0 <= i < units[u].type_entries@.len() ==> {
            let d = (#[trigger] rts[u].type_remap_indices@[i]) as int;
            &&& d < m.type_entries@.len()
            &&& type_entry_deq(m.type_entries@[d], units[u].type_entries@[i])
        }
    &&& forall|u: int, i: int|
        0 <= u < n && 0 <= i < units[u].local_variable_list_entries@.len() ==> {
            let d = (#[trigger] rts[u].local_variable_list_remap_indices@[i]) as int;
            &&& d < m.local_variable_list_entries@.len()
            &&& local_list_deq(
                m.local_variable_list_entries@[d],
                units[u].local_variable_list_entries@[i],
            )
        }
    // the function public index space: imports resolve to the merged import
    // of their name or past all imports to their export; internals follow at
    // their concatenated position
    &&& forall|u: int, i: int|
        0 <= u < n && 0 <= i < units[u].import_function_entries@.len() ==> {
            let d = (#[trigger] rts[u].function_public_remap_indices@[i]) as int;
            let name = units[u].import_function_entries@[i].full_name@;
            if find_export_fn(m.export_function_entries@, name) >= 0 {
                d == m.import_function_entries@.len() + find_export_fn(
                    m.export_function_entries@,
                    name,
                )
            } else {
                &&& d < m.import_function_entries@.len()
                &&& m.import_function_entries@[d].full_name@ == name
            }
        }
    &&& forall|u: int, j: int|
        0 <= u < n && 0 <= j < units[u].export_function_entries@.len() ==> (
        #[trigger] rts[u].function_public_remap_indices@[units[u].import_function_entries@.len()
            + j]) as int == m.import_function_entries@.len() + expfn_count_before(units, u) + j
    // the data public index space, stratified imports first, then internals
    &&& forall|u: int, t: int|
        0 <= u < n && 0 <= t < units[u].import_data_entries@.len() ==> pubmap_slot_ok(
            (#[trigger] rts[u].data_public_remap_indices@[t]),
            u,
            t,
            unit_impdata(units),
            m.export_data_entries@,
            m.import_data_entries@,
        )
    &&& forall|u: int, j: int|
        0 <= u < n && 0 <= j < units[u].export_data_entries@.len() ==> (
        #[trigger] rts[u].data_public_remap_indices@[units[u].import_data_entries@.len() + j]) as int
            == m.import_data_entries@.len() + merged_data_index(
            unit_ro(units),
            unit_rw(units),
            unit_un(units),
            u,
            j,
        )
    // external functions map to the unified entry of their identity: same
    // name, and the unified entry's library bears the source library's name
    &&& forall|u: int, i: int|
        0 <= u < n && 0 <= i < units[u].external_function_entries@.len() ==> {
            let d = (#[trigger] rts[u].external_function_remap_indices@[i]) as int;
            &&& d < m.external_function_entries@.len()
            &&& m.external_function_entries@[d].name@
                == units[u].external_function_entries@[i].name@
            &&& (m.external_function_entries@[d].external_library_index as int)
                < m.external_library_entries@.len()
            &&& m.external_library_entries@[m.external_function_entries@[d].external_library_index as int].name@
                == units[u].external_library_entries@[units[u].external_function_entries@[i].external_library_index as int].name@
        }
}

/// These remap tables tie each unit's library indices to merged entries of
/// the same name and its type indices to structurally equal merged entries,
/// and the merged external-function table is their first-occurrence fold.
pub open spec fn static_link_xfn_remaps_ok(
    units: Seq<ImageCommonEntry>,
    m: ImageCommonEntry,
    lib_remaps: Seq<Vec<usize>>,
    type_remaps: Seq<Vec<usize>>,
) -> bool {
    &&& lib_remaps.len() == units.len()
    &&& type_remaps.len() == units.len()
    &&& forall|u: int|
        0 <= u < units.len() ==> (#[trigger] lib_remaps[u])@.len()
            == units[u].external_library_entries@.len()
    &&& forall|u: int|
        0 <= u < units.len() ==> (#[trigger] type_remaps[u])@.len() == units[u].type_entries@.len()
    &&& forall|u: int, j: int|
        0 <= u < units.len() && 0 <= j < units[u].external_library_entries@.len() ==> {
            &&& ((#[trigger] lib_remaps[u]@[j]) as int) < m.external_library_entries@.len()
            &&& m.external_library_entries@[lib_remaps[u]@[j] as int].name@
                == units[u].external_library_entries@[j].name@
        }
    &&& forall|u: int, j: int|
        0 <= u < units.len() && 0 <= j < units[u].type_entries@.len() ==> {
            &&& ((#[trigger] type_remaps[u]@[j]) as int) < m.type_entries@.len()
            &&& type_entry_deq(m.type_entries@[type_remaps[u]@[j] as int], units[u].type_entries@[j])
        }
    &&& crate::merger::xfn_table_folded(
        m.external_function_entries@,
        unit_xfns(units),
        lib_remaps,
        type_remaps,
    )
}

/// The merged external-function table is the first-occurrence fold of the
/// units' declarations, translated through remap tables that name-match the
/// merged library table and deq-match the merged type table.
pub open spec fn static_link_xfns_folded(units: Seq<ImageCommonEntry>, m: ImageCommonEntry) -> bool {
    exists|lib_remaps: Seq<Vec<usize>>, type_remaps: Seq<Vec<usize>>|
        #[trigger] static_link_xfn_remaps_ok(units, m, lib_remaps, type_remaps)
}

/// Some remap tables tie the merged module to its units, and every merged
/// function is its unit's function rewritten through them: type and
/// local-variable indices remapped, and every relocated bytecode slot holding
/// the merged index of what it held before.
pub open spec fn static_link_relocations_witnessed(
    units: Seq<ImageCommonEntry>,
    m: ImageCommonEntry,
) -> bool {
    exists|rts: Seq<RemapTable>|
        {
            &&& #[trigger] static_link_remaps_ok(units, m, rts)
            &&& forall|u: int, j: int|
                #![trigger unit_fns(units)[u]@[j]]
                0 <= u < units.len() && 0 <= j < units[u].function_entries@.len()
                    ==> crate::merger::merged_function_ok(
                    units[u].function_entries@[j],
                    m.function_entries@[fn_count_before(unit_fns(units), u) + j],
                    units[u].relocate_list_entries@[j],
                    m.relocate_list_entries@[fn_count_before(unit_fns(units), u) + j],
                    rts[u],
                )
        }
}

/// What a successful static link guarantees of the merged module `m`.
pub open spec fn static_link_post(
    units: Seq<ImageCommonEntry>,
    target_name: Seq<char>,
    target_version: EffectiveVersion,
    finalize: bool,
    m: ImageCommonEntry,
) -> bool {
    let n = units.len() as int;
    let types = unit_types(units);
    let lvls = unit_lvls(units);
    let ros = unit_ro(units);
    let rws = unit_rw(units);
    let uns = unit_un(units);
    let fns = unit_fns(units);
    let total_ro = inited_count_before(ros, n);
    let total_rw = inited_count_before(rws, n);
    let total_un = uninit_count_before(uns, n);
    &&& m.name@ == target_name
    &&& m.version == target_version
    &&& m.image_type == (if finalize {
        ImageType::SharedModule
    } else {
        ImageType::ObjectFile
    })
    // types: deduplicated, nothing invented, unit 0 kept as prefix, in
    // first-occurrence order
    &&& type_table_folded(m.type_entries@, types)
    &&& type_table_distinct(types[0]@) ==> type_table_distinct(m.type_entries@)
    &&& forall|k: int|
        0 <= k < m.type_entries@.len() ==> type_from_lists(types, #[trigger] m.type_entries@[k])
    &&& m.type_entries@.len() >= types[0]@.len()
    &&& forall|i: int|
        0 <= i < types[0]@.len() ==> type_entry_deq(#[trigger] m.type_entries@[i], types[0]@[i])
    // local-variable lists: the same discipline
    &&& lvl_table_folded(m.local_variable_list_entries@, lvls)
    &&& local_list_table_distinct(lvls[0]@) ==> local_list_table_distinct(
        m.local_variable_list_entries@,
    )
    &&& forall|i: int|
        0 <= i < lvls[0]@.len() ==> local_list_deq(
            #[trigger] m.local_variable_list_entries@[i],
            lvls[0]@[i],
        )
    // a single unit's deduplicated tables pass through unchanged
    &&& (units.len() == 1 && unit_imports_clean(units[0])) ==> {
        &&& m.import_function_entries@.len() == units[0].import_function_entries@.len()
        &&& forall|i: int|
            0 <= i < m.import_function_entries@.len() ==> crate::entry::import_function_deq(
                #[trigger] m.import_function_entries@[i],
                units[0].import_function_entries@[i],
            )
    }
    &&& units.len() == 1 ==> m.type_entries@.len() == types[0]@.len()
    &&& units.len() == 1 ==> m.local_variable_list_entries@.len() == lvls[0]@.len()
    &&& units.len() == 1 ==> m.import_module_entries@.len()
        == unit_impmods(units)[0]@.len()
    &&& units.len() == 1 ==> forall|i: int|
        0 <= i < m.import_module_entries@.len() ==> crate::entry::import_module_deq(
            #[trigger] m.import_module_entries@[i],
            unit_impmods(units)[0]@[i],
        )
    // import modules: named once each, kept at their newest version
    &&& forall|k: int|
        0 <= k < m.import_module_entries@.len() ==> module_from_lists(
            unit_impmods(units),
            #[trigger] m.import_module_entries@[k],
        )
    &&& import_module_names_distinct(m.import_module_entries@)
    &&& module_version_max_upto(m.import_module_entries@, unit_impmods(units), n, 0)
    &&& module_names_folded(m.import_module_entries@, unit_impmods(units))
    // a merged module exists only where every same-name dependency pair of
    // the units could be reconciled
    &&& import_module_lists_compatible(unit_impmods(units))
    &&& external_library_lists_compatible(unit_xlibs(units))
    // import functions: the unresolved names once each, in first-occurrence
    // order
    &&& crate::merger::impfn_names_folded(
        m.import_function_entries@,
        unit_impfns(units),
        m.export_function_entries@,
    )
    // import data: the three section folds in order
    &&& crate::merger::impdata_names_folded(
        m.import_data_entries@,
        unit_impdata(units),
        m.export_data_entries@,
    )
    // external libraries: named once each, nothing invented, names in
    // first-occurrence order
    &&& library_names_folded(m.external_library_entries@, unit_xlibs(units))
    // external functions: the unified table in first-occurrence order of the
    // translated identities
    &&& static_link_xfns_folded(units, m)
    &&& crate::merger::external_library_names_distinct(m.external_library_entries@)
    &&& forall|k: int|
        0 <= k < m.external_library_entries@.len() ==> crate::merger::library_from_lists(
            unit_xlibs(units),
            #[trigger] m.external_library_entries@[k],
        )
    // data sections: each concatenates the units in order
    &&& m.read_only_data_entries@.len() == total_ro
    &&& m.read_write_data_entries@.len() == total_rw
    &&& m.uninit_data_entries@.len() == total_un
    &&& forall|u: int, t: int|
        #![trigger ros[u]@[t]]
        0 <= u < n && 0 <= t < ros[u]@.len() ==> inited_data_deq(
            m.read_only_data_entries@[inited_count_before(ros, u) + t],
            ros[u]@[t],
        )
    &&& forall|u: int, t: int|
        #![trigger rws[u]@[t]]
        0 <= u < n && 0 <= t < rws[u]@.len() ==> inited_data_deq(
            m.read_write_data_entries@[inited_count_before(rws, u) + t],
            rws[u]@[t],
        )
    &&& forall|u: int, t: int|
        #![trigger uns[u]@[t]]
        0 <= u < n && 0 <= t < uns[u]@.len() ==> m.uninit_data_entries@[uninit_count_before(
            uns,
            u,
        ) + t] == uns[u]@[t]
    // the export-data table is the three section blocks, each in unit order
    &&& m.export_data_entries@.len() == total_ro + total_rw + total_un
    &&& forall|u: int, t: int|
        0 <= u < n && 0 <= t < unit_expdata(units)[u]@.len() ==> export_data_deq(
            m.export_data_entries@[merged_data_index(ros, rws, uns, u, t)],
            #[trigger] unit_expdata(units)[u]@[t],
        )
    // export functions: concatenated in unit order
    &&& m.export_function_entries@.len() == expfn_count_before(units, n)
    &&& forall|u: int, j: int|
        #![trigger units[u].export_function_entries@[j]]
        0 <= u < n && 0 <= j < units[u].export_function_entries@.len() ==> export_function_deq(
            m.export_function_entries@[expfn_count_before(units, u) + j],
            units[u].export_function_entries@[j],
        )
    // unresolved imports: deduplicated by name, never shadowing an export
    &&& forall|k: int, l: int|
        0 <= k < l < m.import_function_entries@.len() ==> (
        #[trigger] m.import_function_entries@[k]).full_name@ != (
        #[trigger] m.import_function_entries@[l]).full_name@
    &&& forall|k: int|
        0 <= k < m.import_function_entries@.len() ==> find_export_fn(
            m.export_function_entries@,
            (#[trigger] m.import_function_entries@[k]).full_name@,
        ) == -1
    &&& forall|k: int, l: int|
        0 <= k < l < m.import_data_entries@.len() ==> (
        #[trigger] m.import_data_entries@[k]).full_name@ != (
        #[trigger] m.import_data_entries@[l]).full_name@
    &&& forall|k: int|
        0 <= k < m.import_data_entries@.len() ==> find_export_data(
            m.export_data_entries@,
            (#[trigger] m.import_data_entries@[k]).full_name@,
        ) == -1
    // external functions: one entry per (name, library)
    &&& external_functions_distinct(m.external_function_entries@)
    // a finalized module no longer imports anything from itself
    &&& finalize ==> ({
        let sp = find_self_reference(m.import_module_entries@);
        sp >= 0 ==> {
            &&& forall|k: int|
                0 <= k < m.import_function_entries@.len() ==> (
                #[trigger] m.import_function_entries@[k]).import_module_index as int != sp
            &&& forall|k: int|
                0 <= k < m.import_data_entries@.len() ==> (
                #[trigger] m.import_data_entries@[k]).import_module_index as int != sp
        }
    })
    // functions: flattened in unit order and rewritten through remap tables
    // that the merged module witnesses; bytecode preserved outside the
    // relocated slots, type and local references still structurally equal
    &&& static_link_relocations_witnessed(units, m)
    &&& m.function_entries@.len() == fn_count_before(fns, n)
    &&& m.relocate_list_entries@.len() == fn_count_before(fns, n)
    &&& forall|u: int, j: int|
        #![trigger fns[u]@[j]]
        0 <= u < n && 0 <= j < fns[u]@.len() ==> {
            let src = fns[u]@[j];
            let dst = m.function_entries@[fn_count_before(fns, u) + j];
            &&& code_preserved(
                src.code@,
                dst.code@,
                unit_rls(units)[u]@[j].relocate_entries@,
            )
            &&& dst.type_index < m.type_entries@.len()
            &&& type_entry_deq(
                m.type_entries@[dst.type_index as int],
                units[u].type_entries@[src.type_index as int],
            )
            &&& dst.local_variable_list_index < m.local_variable_list_entries@.len()
            &&& local_list_deq(
                m.local_variable_list_entries@[dst.local_variable_list_index as int],
                units[u].local_variable_list_entries@[src.local_variable_list_index as int],
            )
            &&& relocate_list_deq(
                m.relocate_list_entries@[fn_count_before(fns, u) + j],
                unit_rls(units)[u]@[j],
            )
        }
}

/// `ex` is the units' concatenated export-function table.
pub open spec fn exports_match_units(
    units: Seq<ImageCommonEntry>,
    ex: Seq<ExportFunctionEntry>,
) -> bool {
    &&& ex.len() == expfn_count_before(units, units.len() as int)
    &&& forall|u: int, j: int|
        #![trigger units[u].export_function_entries@[j]]
        0 <= u < units.len() && 0 <= j < units[u].export_function_entries@.len()
            ==> ex[expfn_count_before(units, u) + j] == units[u].export_function_entries@[j]
}

/// `ex`, `ro`, `rw` and `un` are the merged export-data table and data
/// sections of the units: each section concatenates the units in order, and
/// the export table reads `[read-only | read-write | uninit]`.
pub open spec fn data_tables_match_units(
    units: Seq<ImageCommonEntry>,
    ex: Seq<ExportDataEntry>,
    ro: Seq<InitedDataEntry>,
    rw: Seq<InitedDataEntry>,
    un: Seq<UninitDataEntry>,
) -> bool {
    let n = units.len() as int;
    let ros = unit_ro(units);
    let rws = unit_rw(units);
    let uns = unit_un(units);
    let total_ro = inited_count_before(ros, n);
    let total_rw = inited_count_before(rws, n);
    let total_un = uninit_count_before(uns, n);
    &&& ro.len() == total_ro
    &&& rw.len() == total_rw
    &&& un.len() == total_un
    &&& forall|u: int, t: int|
        #![trigger ros[u]@[t]]
        0 <= u < n && 0 <= t < ros[u]@.len() ==> inited_data_deq(
            ro[inited_count_before(ros, u) + t],
            ros[u]@[t],
        )
    &&& forall|u: int, t: int|
        #![trigger rws[u]@[t]]
        0 <= u < n && 0 <= t < rws[u]@.len() ==> inited_data_deq(
            rw[inited_count_before(rws, u) + t],
            rws[u]@[t],
        )
    &&& forall|u: int, t: int|
        #![trigger uns[u]@[t]]
        0 <= u < n && 0 <= t < uns[u]@.len() ==> un[uninit_count_before(uns, u) + t] == uns[u]@[t]
    &&& ex.len() == total_ro + total_rw + total_un
    &&& forall|u: int, t: int|
        0 <= u < n && 0 <= t < unit_expdata(units)[u]@.len() ==> export_data_deq(
            ex[merged_data_index(ros, rws, uns, u, t)],
            #[trigger] unit_expdata(units)[u]@[t],
        )
}

/// An import-function of some unit names the module itself and is defined by
/// no unit, and `le` reports its full name.
pub open spec fn fn_closure_witness(
    units: Seq<ImageCommonEntry>,
    ex: Seq<ExportFunctionEntry>,
    le: LinkErrorType,
) -> bool {
    exists|u: int, i: int|
        {
            &&& 0 <= u < units.len() && 0 <= i < units[u].import_function_entries@.len()
            &&& {
                let imp = #[trigger] units[u].import_function_entries@[i];
                &&& units[u].import_module_entries@[imp.import_module_index as int].name@
                    == crate::entry::self_reference_name()
                &&& find_export_fn(ex, imp.full_name@) == -1
                &&& le matches LinkErrorType::FunctionNotFound(nm) && nm@ == imp.full_name@
            }
        }
}

/// An import-datum of some unit names the module itself and is defined by no
/// unit, and `le` reports its full name.
pub open spec fn data_closure_witness(
    units: Seq<ImageCommonEntry>,
    ex: Seq<ExportDataEntry>,
    le: LinkErrorType,
) -> bool {
    exists|u: int, i: int|
        {
            &&& 0 <= u < units.len() && 0 <= i < units[u].import_data_entries@.len()
            &&& {
                let imp = #[trigger] units[u].import_data_entries@[i];
                &&& units[u].import_module_entries@[imp.import_module_index as int].name@
                    == crate::entry::self_reference_name()
                &&& find_export_data(ex, imp.full_name@) == -1
                &&& le matches LinkErrorType::DataNotFound(nm) && nm@ == imp.full_name@
            }
        }
}

/// The static link succeeds on these units: the import-module and
/// external-library tables are pairwise compatible, every data import is
/// satisfiable against the merged tables (which the merged-table predicates
/// pin up to views), and, when finalizing, every import from the module
/// itself is defined by some unit.
pub open spec fn static_link_succeeds(units: Seq<ImageCommonEntry>, finalize: bool) -> bool {
    &&& import_module_lists_compatible(unit_impmods(units))
    &&& external_library_lists_compatible(unit_xlibs(units))
    &&& forall|ex: Seq<ExportDataEntry>, ro: Seq<InitedDataEntry>, rw: Seq<InitedDataEntry>, un: Seq<UninitDataEntry>|
        #[trigger] data_tables_match_units(units, ex, ro, rw, un)
            ==> crate::merger::import_data_lists_compatible(unit_impdata(units), ex, ro, rw, un)
    &&& finalize ==> forall|ex: Seq<ExportFunctionEntry>|
        #[trigger] exports_match_units(units, ex) ==> forall|u: int, i: int|
            0 <= u < units.len() && 0 <= i < units[u].import_function_entries@.len() && units[u].import_module_entries@[(
            #[trigger] units[u].import_function_entries@[i]).import_module_index as int].name@
                == crate::entry::self_reference_name() ==> find_export_fn(
                ex,
                units[u].import_function_entries@[i].full_name@,
            ) >= 0
    &&& finalize ==> forall|ex: Seq<ExportDataEntry>, ro: Seq<InitedDataEntry>, rw: Seq<InitedDataEntry>, un: Seq<UninitDataEntry>|
        #[trigger] data_tables_match_units(units, ex, ro, rw, un) ==> forall|u: int, i: int|
            0 <= u < units.len() && 0 <= i < units[u].import_data_entries@.len() && units[u].import_module_entries@[(
            #[trigger] units[u].import_data_entries@[i]).import_module_index as int].name@
                == crate::entry::self_reference_name() ==> find_export_data(
                ex,
                units[u].import_data_entries@[i].full_name@,
            ) >= 0
}

/// What a failed static link guarantees of its error: a dependency conflict
/// among the units' import modules or external libraries, an unsatisfiable
/// data import, or, when finalizing, an import left pointing at the module
/// itself.
pub open spec fn static_link_error_ok(units: Seq<ImageCommonEntry>, le: LinkErrorType) -> bool {
    ||| import_module_conflict_witness(le, unit_impmods(units))
    ||| external_library_conflict_witness(le, unit_xlibs(units))
    ||| exists|ex: Seq<ExportDataEntry>, ro: Seq<InitedDataEntry>, rw: Seq<InitedDataEntry>, un: Seq<UninitDataEntry>|
        #[trigger] data_tables_match_units(units, ex, ro, rw, un)
            && crate::merger::import_data_conflict_witness(
            le,
            unit_impdata(units),
            ex,
            ro,
            rw,
            un,
        )
    ||| exists|ex: Seq<ExportFunctionEntry>|
        #[trigger] exports_match_units(units, ex) && fn_closure_witness(units, ex, le)
    ||| exists|ex: Seq<ExportDataEntry>, ro: Seq<InitedDataEntry>, rw: Seq<InitedDataEntry>, un: Seq<UninitDataEntry>|
        #[trigger] data_tables_match_units(units, ex, ro, rw, un) && data_closure_witness(
            units,
            ex,
            le,
        )
}

// ---------------------------------------------------------------------------
// the self-reference entry of a merged import-module table
// ---------------------------------------------------------------------------

/// The index of the first self-reference entry, or `-1`.
pub open spec fn find_self_reference(s: Seq<ImportModuleEntry>) -> int
    decreases s.len(),
{
    if s.len() == 0 {
        -1
    } else if is_self_reference(s[0]) {
        0
    } else {
        let r = find_self_reference(s.subrange(1, s.len() as int));
        if r < 0 {
            -1
        } else {
            r + 1
        }
    }
}

proof fn lemma_find_self_reference(s: Seq<ImportModuleEntry>)
    ensures
        find_self_reference(s) == -1 ==> forall|k: int|
            0 <= k < s.len() ==> !is_self_reference(#[trigger] s[k]),
        find_self_reference(s) >= 0 ==> {
            &&& find_self_reference(s) < s.len()
            &&& is_self_reference(s[find_self_reference(s)])
            &&& forall|k: int|
                0 <= k < find_self_reference(s) ==> !is_self_reference(#[trigger] s[k])
        },
    decreases s.len(),
{
    if s.len() == 0 {
    } else if is_self_reference(s[0]) {
    } else {
        let t = s.subrange(1, s.len() as int);
        lemma_find_self_reference(t);
        assert(forall|k: int| 0 <= k < t.len() ==> t[k] == s[k + 1]);
        if find_self_reference(t) >= 0 {
            assert forall|k: int| 0 <= k < find_self_reference(s) implies !is_self_reference(
                #[trigger] s[k],
            ) by {
                if k >= 1 {
                    assert(!is_self_reference(t[k - 1]));
                }
            }
        } else {
            assert forall|k: int| 0 <= k < s.len() implies !is_self_reference(
                #[trigger] s[k],
            ) by {
                if k >= 1 {
                    assert(!is_self_reference(t[k - 1]));
                }
            }
        }
    }
}

/// Finds the first self-reference entry of a merged import-module table.
fn find_self_reference_entry(entries: &Vec<ImportModuleEntry>) -> (r: Option<usize>)
    ensures
        match r {
            Some(p) => p as int == find_self_reference(entries@),
            None => find_self_reference(entries@) == -1,
        },
{
    proof {
        lemma_find_self_reference(entries@);
    }
    let mut i: usize = 0;
    while i < entries.len()
        invariant
            i <= entries.len(),
            forall|k: int| 0 <= k < i ==> !is_self_reference(#[trigger] entries@[k]),
        decreases entries.len() - i,
    {
        if is_self_reference_entry(&entries[i]) {
            proof {
                lemma_find_self_reference(entries@);
                if find_self_reference(entries@) < i as int {
                    assert(!is_self_reference(entries@[find_self_reference(entries@)]));
                }
                if find_self_reference(entries@) > i as int || find_self_reference(entries@)
                    == -1 {
                    assert(!is_self_reference(entries@[i as int]));
                }
            }
            return Some(i);
        }
        i += 1;
    }
    proof {
        lemma_find_self_reference(entries@);
        if find_self_reference(entries@) >= 0 {
            assert(is_self_reference(entries@[find_self_reference(entries@)]));
        }
    }
    None
}

// ---------------------------------------------------------------------------
// the static link
// ---------------------------------------------------------------------------

/// Fuses the given object units into one module.
///
/// The type, local-variable-list, import-module and external-library tables
/// are deduplicated; the data sections, export tables, functions and
/// relocation lists are flattened in unit order; imports that name a merged
/// export are resolved to it; and every relocated bytecode slot is rewritten
/// to its merged index.  When `finalize_internal_functions_reference` is set
/// the result is a shared module and must no longer import anything from the
/// module itself.
#[verifier::rlimit(100)]
#[verifier::spinoff_prover]
pub fn static_link(
    target_module_name: &str,
    target_module_version: &EffectiveVersion,
    finalize_internal_functions_reference: bool,
    submodule_entries: Vec<ImageCommonEntry>,
) -> (r: Result<ImageCommonEntry, LinkerError>)
    requires
        static_link_inputs_ok(submodule_entries@),
    ensures
        r matches Ok(m) ==> static_link_post(
            submodule_entries@,
            target_module_name@,
            *target_module_version,
            finalize_internal_functions_reference,
            m,
        ),
        static_link_succeeds(submodule_entries@, finalize_internal_functions_reference) ==> r is Ok,
        r matches Err(le) ==> static_link_error_ok(submodule_entries@, le.error_type),
{
    let ghost units = submodule_entries@;
    let module_count = submodule_entries.len();
    let ghost n = module_count as int;

    // take the units apart into their parallel tables
    let mut remaining = submodule_entries;
    let mut type_entries_list: Vec<Vec<TypeEntry>> = Vec::new();
    let mut local_variable_list_entries_list: Vec<Vec<LocalVariableListEntry>> = Vec::new();
    let mut import_module_entries_list: Vec<Vec<ImportModuleEntry>> = Vec::new();
    let mut import_function_entries_list: Vec<Vec<ImportFunctionEntry>> = Vec::new();
    let mut import_data_entries_list: Vec<Vec<ImportDataEntry>> = Vec::new();
    let mut export_function_entries_list: Vec<Vec<ExportFunctionEntry>> = Vec::new();
    let mut export_data_entries_list: Vec<Vec<ExportDataEntry>> = Vec::new();
    let mut read_only_data_entries_list: Vec<Vec<InitedDataEntry>> = Vec::new();
    let mut read_write_data_entries_list: Vec<Vec<InitedDataEntry>> = Vec::new();
    let mut uninit_data_entries_list: Vec<Vec<UninitDataEntry>> = Vec::new();
    let mut external_library_entries_list: Vec<Vec<ExternalLibraryEntry>> = Vec::new();
    let mut external_function_entries_list: Vec<Vec<ExternalFunctionEntry>> = Vec::new();
    let mut function_entries_list: Vec<Vec<FunctionEntry>> = Vec::new();
    let mut relocate_list_entries_list: Vec<Vec<RelocateListEntry>> = Vec::new();
    let mut u0: usize = 0;
    while u0 < module_count
        invariant
            units.len() == n,
            module_count == n,
            u0 <= module_count,
            remaining@ == units.subrange(u0 as int, n),
            type_entries_list.len() == u0,
            local_variable_list_entries_list.len() == u0,
            import_module_entries_list.len() == u0,
            import_function_entries_list.len() == u0,
            import_data_entries_list.len() == u0,
            export_function_entries_list.len() == u0,
            export_data_entries_list.len() == u0,
            read_only_data_entries_list.len() == u0,
            read_write_data_entries_list.len() == u0,
            uninit_data_entries_list.len() == u0,
            external_library_entries_list.len() == u0,
            external_function_entries_list.len() == u0,
            function_entries_list.len() == u0,
            relocate_list_entries_list.len() == u0,
            forall|v: int|
                0 <= v < u0 ==> #[trigger] type_entries_list@[v] == units[v].type_entries,
            forall|v: int|
                0 <= v < u0 ==> #[trigger] local_variable_list_entries_list@[v]
                    == units[v].local_variable_list_entries,
            forall|v: int|
                0 <= v < u0 ==> #[trigger] import_module_entries_list@[v]
                    == units[v].import_module_entries,
            forall|v: int|
                0 <= v < u0 ==> #[trigger] import_function_entries_list@[v]
                    == units[v].import_function_entries,
            forall|v: int|
                0 <= v < u0 ==> #[trigger] import_data_entries_list@[v]
                    == units[v].import_data_entries,
            forall|v: int|
                0 <= v < u0 ==> #[trigger] export_function_entries_list@[v]
                    == units[v].export_function_entries,
            forall|v: int|
                0 <= v < u0 ==> #[trigger] export_data_entries_list@[v]
                    == units[v].export_data_entries,
            forall|v: int|
                0 <= v < u0 ==> #[trigger] read_only_data_entries_list@[v]
                    == units[v].read_only_data_entries,
            forall|v: int|
                0 <= v < u0 ==> #[trigger] read_write_data_entries_list@[v]
                    == units[v].read_write_data_entries,
            forall|v: int|
                0 <= v < u0 ==> #[trigger] uninit_data_entries_list@[v]
                    == units[v].uninit_data_entries,
            forall|v: int|
                0 <= v < u0 ==> #[trigger] external_library_entries_list@[v]
                    == units[v].external_library_entries,
            forall|v: int|
                0 <= v < u0 ==> #[trigger] external_function_entries_list@[v]
                    == units[v].external_function_entries,
            forall|v: int|
                0 <= v < u0 ==> #[trigger] function_entries_list@[v] == units[v].function_entries,
            forall|v: int|
                0 <= v < u0 ==> #[trigger] relocate_list_entries_list@[v]
                    == units[v].relocate_list_entries,
        decreases module_count - u0,
    {
        let unit = remaining.remove(0);
        proof {
            assert(unit == units[u0 as int]);
            assert(remaining@ == units.subrange(u0 as int + 1, n));
        }
        let ImageCommonEntry {
            name: _,
            version: _,
            image_type: _,
            import_module_entries,
            import_function_entries,
            import_data_entries,
            type_entries,
            local_variable_list_entries,
            function_entries,
            read_only_data_entries,
            read_write_data_entries,
            uninit_data_entries,
            export_function_entries,
            export_data_entries,
            relocate_list_entries,
            external_library_entries,
            external_function_entries,
        } = unit;
        type_entries_list.push(type_entries);
        local_variable_list_entries_list.push(local_variable_list_entries);
        import_module_entries_list.push(import_module_entries);
        import_function_entries_list.push(import_function_entries);
        import_data_entries_list.push(import_data_entries);
        export_function_entries_list.push(export_function_entries);
        export_data_entries_list.push(export_data_entries);
        read_only_data_entries_list.push(read_only_data_entries);
        read_write_data_entries_list.push(read_write_data_entries);
        uninit_data_entries_list.push(uninit_data_entries);
        external_library_entries_list.push(external_library_entries);
        external_function_entries_list.push(external_function_entries);
        function_entries_list.push(function_entries);
        relocate_list_entries_list.push(relocate_list_entries);
        u0 += 1;
    }
    proof {
        assert(type_entries_list@ =~= unit_types(units));
        assert(local_variable_list_entries_list@ =~= unit_lvls(units));
        assert(import_module_entries_list@ =~= unit_impmods(units));
        assert(import_function_entries_list@ =~= unit_impfns(units));
        assert(import_data_entries_list@ =~= unit_impdata(units));
        assert(export_data_entries_list@ =~= unit_expdata(units));
        assert(read_only_data_entries_list@ =~= unit_ro(units));
        assert(read_write_data_entries_list@ =~= unit_rw(units));
        assert(uninit_data_entries_list@ =~= unit_un(units));
        assert(external_library_entries_list@ =~= unit_xlibs(units));
        assert(external_function_entries_list@ =~= unit_xfns(units));
        assert(function_entries_list@ =~= unit_fns(units));
        assert(relocate_list_entries_list@ =~= unit_rls(units));
    }

    // merge type entries
    let (type_entries, type_remap_indices_list) = merge_type_entries(&type_entries_list);

    // merge local variable list entries
    let (local_variable_list_entries, local_variable_list_remap_indices_list) =
        merge_local_variable_list_entries(&local_variable_list_entries_list);

    // merge import module entries
    let (import_module_entries, import_module_remap_indices_list) = match merge_import_module_entries(
        &import_module_entries_list,
    ) {
        Ok(p) => p,
        Err(e) => {
            return Err(e);
        },
    };

    // merge export data entries and data entries
    let (
        export_data_entries,
        read_only_data_entries,
        read_write_data_entries,
        uninit_data_entries,
        internal_data_remap_indices_list,
    ) = merge_data_entries(
        &export_data_entries_list,
        &read_only_data_entries_list,
        &read_write_data_entries_list,
        &uninit_data_entries_list,
    );

    // merge import data
    let ghost total_data = inited_count_before(unit_ro(units), n) + inited_count_before(
        unit_rw(units),
        n,
    ) + uninit_count_before(unit_un(units), n);
    proof {
        assert forall|v: int, j: int|
            0 <= v < internal_data_remap_indices_list.len() && 0 <= j
                < internal_data_remap_indices_list@[v]@.len() implies (
        #[trigger] internal_data_remap_indices_list@[v]@[j]) + impdata_count_before(
            unit_impdata(units),
            n,
        ) <= usize::MAX by {
            assert(internal_data_remap_indices_list@[v]@[j] as int == merged_data_index(
                unit_ro(units),
                unit_rw(units),
                unit_un(units),
                v,
                j,
            ));
            lemma_merged_data_index_in_range(unit_ro(units), unit_rw(units), unit_un(units), v, j);
        }
    }
    proof {
        assert(data_tables_match_units(
            units,
            export_data_entries@,
            read_only_data_entries@,
            read_write_data_entries@,
            uninit_data_entries@,
        ));
    }
    let (import_data_entries, data_public_remap_indices_list) = match merge_import_data_entries(
        &export_data_entries,
        &read_only_data_entries,
        &read_write_data_entries,
        &uninit_data_entries,
        &internal_data_remap_indices_list,
        &import_module_remap_indices_list,
        &import_data_entries_list,
    ) {
        Ok(p) => p,
        Err(e) => {
            proof {
                // the witness stands over the merged tables, which match the
                // units' data
                assert(crate::merger::import_data_conflict_witness(
                    e.error_type,
                    unit_impdata(units),
                    export_data_entries@,
                    read_only_data_entries@,
                    read_write_data_entries@,
                    uninit_data_entries@,
                ));
                assert(static_link_error_ok(units, e.error_type));
            }
            return Err(e);
        },
    };

    // merge external libraries
    let (external_library_entries, external_library_remap_indices_list) = match merge_external_library_entries(
        &external_library_entries_list,
    ) {
        Ok(p) => p,
        Err(e) => {
            return Err(e);
        },
    };

    // merge external functions
    let (external_function_entries, external_function_remap_indices_list) =
        merge_external_function_entries(
        &external_library_remap_indices_list,
        &type_remap_indices_list,
        &external_function_entries_list,
    );

    // concatenate the export-function tables, recording each unit's window
    let mut export_function_entries: Vec<ExportFunctionEntry> = Vec::new();
    let mut internal_function_remap_indices_list: Vec<Vec<usize>> = Vec::new();
    let mut u1: usize = 0;
    while u1 < module_count
        invariant
            units.len() == n,
            module_count == n,
            u1 <= module_count,
            export_function_entries_list.len() == n - u1,
            forall|v: int|
                0 <= v < n - u1 ==> #[trigger] export_function_entries_list@[v] == units[v
                    + u1].export_function_entries,
            export_function_entries.len() == expfn_count_before(units, u1 as int),
            forall|v: int|
                0 <= v <= u1 ==> 0 <= #[trigger] expfn_count_before(units, v),
            forall|v: int|
                0 <= v < u1 ==> (#[trigger] expfn_count_before(units, v))
                    + units[v].export_function_entries@.len() <= expfn_count_before(
                    units,
                    u1 as int,
                ),
            internal_function_remap_indices_list.len() == u1,
            forall|v: int, j: int|
                #![trigger internal_function_remap_indices_list@[v]@[j]]
                0 <= v < u1 && 0 <= j < internal_function_remap_indices_list@[v]@.len() ==> {
                    &&& internal_function_remap_indices_list@[v]@[j] as int == expfn_count_before(
                        units,
                        v,
                    ) + j
                    &&& internal_function_remap_indices_list@[v]@[j] < export_function_entries.len()
                },
            forall|v: int|
                0 <= v < u1 ==> (#[trigger] internal_function_remap_indices_list@[v])@.len()
                    == units[v].export_function_entries@.len(),
            forall|v: int, j: int|
                #![trigger units[v].export_function_entries@[j]]
                0 <= v < u1 && 0 <= j < units[v].export_function_entries@.len()
                    ==> export_function_entries@[expfn_count_before(units, v) + j] == units[v].export_function_entries@[j],
        decreases module_count - u1,
    {
        let mut unit_exports = export_function_entries_list.remove(0);
        proof {
            assert(unit_exports == units[u1 as int].export_function_entries);
        }
        let ghost unit_exports_view = unit_exports@;
        let unit_exports_len = unit_exports.len();
        proof {
            assert(unit_exports_view.len() == unit_exports_len as int);
        }
        let mut indices: Vec<usize> = Vec::new();
        let mut j: usize = 0;
        while unit_exports.len() > 0
            invariant
                j + unit_exports.len() == unit_exports_view.len(),
                unit_exports@ == unit_exports_view.subrange(j as int, unit_exports_view.len() as int),
                indices.len() == j,
                export_function_entries.len() == expfn_count_before(units, u1 as int) + j,
                u1 < n,
                units.len() == n,
                unit_exports_view == units[u1 as int].export_function_entries@,
                unit_exports_view.len() <= usize::MAX,
                forall|v: int|
                    0 <= v <= u1 ==> 0 <= #[trigger] expfn_count_before(units, v),
                forall|v: int|
                    0 <= v < u1 ==> (#[trigger] expfn_count_before(units, v))
                        + units[v].export_function_entries@.len() <= expfn_count_before(
                        units,
                        u1 as int,
                    ),
                forall|k: int|
                    0 <= k < j ==> (#[trigger] indices@[k]) as int == expfn_count_before(
                        units,
                        u1 as int,
                    ) + k,
                forall|v: int, m: int|
                    #![trigger units[v].export_function_entries@[m]]
                    0 <= v < u1 && 0 <= m < units[v].export_function_entries@.len()
                        ==> export_function_entries@[expfn_count_before(units, v) + m] == units[v].export_function_entries@[m],
                forall|m: int|
                    0 <= m < j ==> export_function_entries@[expfn_count_before(units, u1 as int)
                        + m] == #[trigger] unit_exports_view[m],
            decreases unit_exports.len(),
        {
            indices.push(export_function_entries.len());
            let e = unit_exports.remove(0);
            proof {
                assert(e == unit_exports_view[j as int]);
                assert(unit_exports@ =~= unit_exports_view.subrange(
                    j as int + 1,
                    unit_exports_view.len() as int,
                ));
            }
            export_function_entries.push(e);
            j += 1;
        }
        internal_function_remap_indices_list.push(indices);
        u1 += 1;
    }

    // merge import function entries
    let (import_function_entries, function_public_remap_indices_list) = match merge_import_function_entries(
        &export_function_entries,
        &internal_function_remap_indices_list,
        &import_module_remap_indices_list,
        &type_remap_indices_list,
        &import_function_entries_list,
    ) {
        Ok(p) => p,
        Err(e) => {
            return Err(e);
        },
    };

    // assemble the per-unit remap tables
    let ghost g_type_remaps = type_remap_indices_list@;
    let ghost g_lvl_remaps = local_variable_list_remap_indices_list@;
    let ghost g_fn_remaps = function_public_remap_indices_list@;
    let ghost g_data_remaps = data_public_remap_indices_list@;
    let ghost g_xfn_remaps = external_function_remap_indices_list@;
    let mut type_remaps = type_remap_indices_list;
    let mut lvl_remaps = local_variable_list_remap_indices_list;
    let mut fn_remaps = function_public_remap_indices_list;
    let mut data_remaps = data_public_remap_indices_list;
    let mut xfn_remaps = external_function_remap_indices_list;
    let mut remap_table_list: Vec<RemapTable> = Vec::new();
    let mut u2: usize = 0;
    while u2 < module_count
        invariant
            module_count == n,
            u2 <= module_count,
            g_type_remaps.len() == n,
            g_lvl_remaps.len() == n,
            g_fn_remaps.len() == n,
            g_data_remaps.len() == n,
            g_xfn_remaps.len() == n,
            type_remaps@ == g_type_remaps.subrange(u2 as int, n),
            lvl_remaps@ == g_lvl_remaps.subrange(u2 as int, n),
            fn_remaps@ == g_fn_remaps.subrange(u2 as int, n),
            data_remaps@ == g_data_remaps.subrange(u2 as int, n),
            xfn_remaps@ == g_xfn_remaps.subrange(u2 as int, n),
            remap_table_list.len() == u2,
            forall|v: int|
                0 <= v < u2 ==> {
                    &&& (#[trigger] remap_table_list@[v]).type_remap_indices == g_type_remaps[v]
                    &&& remap_table_list@[v].local_variable_list_remap_indices == g_lvl_remaps[v]
                    &&& remap_table_list@[v].function_public_remap_indices == g_fn_remaps[v]
                    &&& remap_table_list@[v].data_public_remap_indices == g_data_remaps[v]
                    &&& remap_table_list@[v].external_function_remap_indices == g_xfn_remaps[v]
                },
        decreases module_count - u2,
    {
        let remap_table = RemapTable {
            type_remap_indices: type_remaps.remove(0),
            local_variable_list_remap_indices: lvl_remaps.remove(0),
            function_public_remap_indices: fn_remaps.remove(0),
            data_public_remap_indices: data_remaps.remove(0),
            external_function_remap_indices: xfn_remaps.remove(0),
        };
        remap_table_list.push(remap_table);
        u2 += 1;
    }

    // every unit's relocations fit its remap tables
    proof {
        assert forall|u: int| 0 <= u < n implies unit_functions_fit(
            unit_fns(units)[u]@,
            unit_rls(units)[u]@,
            remap_table_list@[u],
        ) by {
            let e = units[u];
            let rt = remap_table_list@[u];
            assert(unit_well_formed(e));
            assert(rt.type_remap_indices@.len() == e.type_entries@.len());
            assert(rt.local_variable_list_remap_indices@.len()
                == e.local_variable_list_entries@.len());
            assert(rt.function_public_remap_indices@.len() == e.import_function_entries@.len()
                + e.export_function_entries@.len());
            assert(rt.data_public_remap_indices@.len() == e.import_data_entries@.len()
                + e.export_data_entries@.len());
            assert(rt.external_function_remap_indices@.len()
                == e.external_function_entries@.len());
            assert forall|j: int| 0 <= j < e.function_entries@.len() implies {
                &&& (#[trigger] e.function_entries@[j]).type_index < rt.type_remap_indices@.len()
                &&& e.function_entries@[j].local_variable_list_index
                    < rt.local_variable_list_remap_indices@.len()
                &&& relocations_fit(
                    e.function_entries@[j].code@,
                    e.relocate_list_entries@[j].relocate_entries@,
                    rt,
                )
            } by {
                let code = e.function_entries@[j].code@;
                let rl = e.relocate_list_entries@[j].relocate_entries@;
                assert forall|k: int| 0 <= k < rl.len() implies remap_lookup(
                    rt,
                    (#[trigger] rl[k]).relocate_type,
                    le32(code, rl[k].code_offset as int),
                ) < 0x1_0000_0000 by {
                    let v = le32(code, rl[k].code_offset as int);
                    assert(unit_slot_in_range(e, rl[k], code));
                    match rl[k].relocate_type {
                        RelocateType::TypeIndex => {
                            assert((g_type_remaps[u]@[v] as int) < type_entries@.len());
                        },
                        RelocateType::LocalVariableListIndex => {
                            assert((g_lvl_remaps[u]@[v] as int)
                                < local_variable_list_entries@.len());
                        },
                        RelocateType::FunctionPublicIndex => {
                            if v < e.import_function_entries@.len() {
                                let imp = unit_impfns(units)[u]@[v];
                                lemma_find_export_fn(export_function_entries@, imp.full_name@);
                                assert((g_fn_remaps[u]@[v] as int)
                                    < import_function_entries@.len()
                                    + export_function_entries@.len());
                            } else {
                                let j = v - e.import_function_entries@.len();
                                assert(g_fn_remaps[u]@[v] as int == (
                                #[trigger] internal_function_remap_indices_list@[u]@[j]) as int
                                    + import_function_entries@.len());
                            }
                        },
                        RelocateType::ExternalFunctionIndex => {
                            assert(extfn_slot_ok(
                                g_xfn_remaps[u]@[v],
                                unit_xfns(units)[u]@[v],
                                external_library_remap_indices_list@[u as int],
                                external_function_entries@,
                            ));
                        },
                        RelocateType::DataPublicIndex => {
                            if v < e.import_data_entries@.len() {
                                assert(pubmap_slot_ok(
                                    g_data_remaps[u]@[v],
                                    u,
                                    v,
                                    unit_impdata(units),
                                    export_data_entries@,
                                    import_data_entries@,
                                ));
                                let imp_lists = unit_impdata(units);
                                let s_u = imp_lists[u]@;
                                let fro = section_imports(
                                    s_u,
                                    DataSectionType::ReadOnly,
                                );
                                let frw = section_imports(
                                    s_u,
                                    DataSectionType::ReadWrite,
                                );
                                let fun = section_imports(
                                    s_u,
                                    DataSectionType::Uninit,
                                );
                                if v < fro.len() {
                                    data_slot_bound(
                                        g_data_remaps[u]@[v],
                                        fro[v],
                                        export_data_entries@,
                                        import_data_entries@,
                                    );
                                } else if v < fro.len() + frw.len() {
                                    data_slot_bound(
                                        g_data_remaps[u]@[v],
                                        frw[v - fro.len()],
                                        export_data_entries@,
                                        import_data_entries@,
                                    );
                                } else {
                                    data_slot_bound(
                                        g_data_remaps[u]@[v],
                                        fun[v - fro.len() - frw.len()],
                                        export_data_entries@,
                                        import_data_entries@,
                                    );
                                }
                            } else {
                                let j = v - e.import_data_entries@.len();
                                assert(g_data_remaps[u]@[v] as int == (
                                #[trigger] internal_data_remap_indices_list@[u]@[j]) as int
                                    + import_data_entries@.len());
                                assert(internal_data_remap_indices_list@[u]@[j] as int
                                    == merged_data_index(
                                    unit_ro(units),
                                    unit_rw(units),
                                    unit_un(units),
                                    u,
                                    j,
                                ));
                                lemma_merged_data_index_in_range(
                                    unit_ro(units),
                                    unit_rw(units),
                                    unit_un(units),
                                    u,
                                    j,
                                );
                            }
                        },
                    }
                }
            }
        }
    }

    // relocate and flatten the functions
    let (function_entries, relocate_list_entries) = merge_function_entries(
        &relocate_list_entries_list,
        &function_entries_list,
        &remap_table_list,
    );

    // when producing a shared module, no import may still name the module
    // itself
    if finalize_internal_functions_reference {
        proof {
            assert(exports_match_units(units, export_function_entries@));
            assert(data_tables_match_units(
                units,
                export_data_entries@,
                read_only_data_entries@,
                read_write_data_entries@,
                uninit_data_entries@,
            ));
        }
        match find_self_reference_entry(&import_module_entries) {
            Some(pos) => {
                proof {
                    lemma_find_self_reference(import_module_entries@);
                }
                let mut k: usize = 0;
                while k < import_function_entries.len()
                    invariant
                        units == submodule_entries@,
                        finalize_internal_functions_reference,
                        units.len() == n,
                        forall|v: int| 0 <= v < n ==> unit_well_formed(#[trigger] units[v]),
                        import_function_entries_list@ == unit_impfns(units),
                        (pos as int) < import_module_entries@.len(),
                        is_self_reference(import_module_entries@[pos as int]),
                        exports_match_units(units, export_function_entries@),
                        forall|t: int|
                            0 <= t < import_function_entries@.len() ==> find_export_fn(
                                export_function_entries@,
                                (#[trigger] import_function_entries@[t]).full_name@,
                            ) == -1,
                        forall|t: int|
                            0 <= t < import_function_entries@.len() ==> import_fn_from_lists(
                                import_function_entries_list@,
                                import_module_remap_indices_list@,
                                type_remap_indices_list@,
                                #[trigger] import_function_entries@[t],
                            ),
                        import_module_remap_indices_list@.len() == n,
                        forall|v: int|
                            0 <= v < n ==> (
                            #[trigger] import_module_remap_indices_list@[v])@.len()
                                == units[v].import_module_entries@.len(),
                        forall|v: int, t: int|
                            0 <= v < n && 0 <= t < import_module_remap_indices_list@[v]@.len()
                                ==> {
                                &&& (#[trigger] import_module_remap_indices_list@[v]@[t])
                                    < import_module_entries.len()
                                &&& import_module_entries@[import_module_remap_indices_list@[v]@[t] as int].name@
                                    == unit_impmods(units)[v]@[t].name@
                            },
                        k <= import_function_entries.len(),
                        forall|m: int|
                            0 <= m < k ==> (
                            #[trigger] import_function_entries@[m]).import_module_index
                                != pos,
                    decreases import_function_entries.len() - k,
                {
                    if import_function_entries[k].import_module_index == pos {
                        let err = LinkerError::new(
                            LinkErrorType::FunctionNotFound(
                                copy_string(&import_function_entries[k].full_name),
                            ),
                        );
                        proof {
                            // trace the surviving import back to a unit
                            // import that names the module itself
                            assert(import_fn_from_lists(
                                import_function_entries_list@,
                                import_module_remap_indices_list@,
                                type_remap_indices_list@,
                                import_function_entries@[k as int],
                            ));
                            let (wu, wi) = choose|wu: int, wi: int|
                                {
                                    &&& 0 <= wu < import_function_entries_list@.len() && 0 <= wi
                                        < import_function_entries_list@[wu]@.len()
                                    &&& import_function_entries@[k as int].full_name@ == (
                                    #[trigger] import_function_entries_list@[wu]@[wi]).full_name@
                                    &&& import_function_entries@[k as int].import_module_index
                                        == import_module_remap_indices_list@[wu]@[import_function_entries_list@[wu]@[wi].import_module_index as int]
                                    &&& import_function_entries@[k as int].type_index
                                        == type_remap_indices_list@[wu]@[import_function_entries_list@[wu]@[wi].type_index as int]
                                };
                            let srcmi =
                                units[wu].import_function_entries@[wi].import_module_index as int;
                            assert(import_module_entries@[import_module_remap_indices_list@[wu]@[srcmi] as int].name@
                                == unit_impmods(units)[wu]@[srcmi].name@);
                            assert(units[wu].import_module_entries@[srcmi].name@
                                == crate::entry::self_reference_name());
                            assert(find_export_fn(
                                export_function_entries@,
                                units[wu].import_function_entries@[wi].full_name@,
                            ) == -1);
                            assert(fn_closure_witness(
                                units,
                                export_function_entries@,
                                err.error_type,
                            ));
                            assert(static_link_error_ok(units, err.error_type));
                            if static_link_succeeds(units, true) {
                                assert(find_export_fn(
                                    export_function_entries@,
                                    units[wu].import_function_entries@[wi].full_name@,
                                ) >= 0);
                            }
                        }
                        return Err(err);
                    }
                    k += 1;
                }
                let mut k2: usize = 0;
                while k2 < import_data_entries.len()
                    invariant
                        units == submodule_entries@,
                        finalize_internal_functions_reference,
                        units.len() == n,
                        forall|v: int| 0 <= v < n ==> unit_well_formed(#[trigger] units[v]),
                        import_data_entries_list@ == unit_impdata(units),
                        (pos as int) < import_module_entries@.len(),
                        is_self_reference(import_module_entries@[pos as int]),
                        data_tables_match_units(
                            units,
                            export_data_entries@,
                            read_only_data_entries@,
                            read_write_data_entries@,
                            uninit_data_entries@,
                        ),
                        forall|t: int|
                            0 <= t < import_data_entries@.len() ==> find_export_data(
                                export_data_entries@,
                                (#[trigger] import_data_entries@[t]).full_name@,
                            ) == -1,
                        forall|t: int|
                            0 <= t < import_data_entries@.len()
                                ==> crate::merger::import_data_from_lists(
                                import_data_entries_list@,
                                import_module_remap_indices_list@,
                                #[trigger] import_data_entries@[t],
                            ),
                        import_module_remap_indices_list@.len() == n,
                        forall|v: int|
                            0 <= v < n ==> (
                            #[trigger] import_module_remap_indices_list@[v])@.len()
                                == units[v].import_module_entries@.len(),
                        forall|v: int, t: int|
                            0 <= v < n && 0 <= t < import_module_remap_indices_list@[v]@.len()
                                ==> {
                                &&& (#[trigger] import_module_remap_indices_list@[v]@[t])
                                    < import_module_entries.len()
                                &&& import_module_entries@[import_module_remap_indices_list@[v]@[t] as int].name@
                                    == unit_impmods(units)[v]@[t].name@
                            },
                        k2 <= import_data_entries.len(),
                        forall|m: int|
                            0 <= m < k2 ==> (#[trigger] import_data_entries@[m]).import_module_index
                                != pos,
                    decreases import_data_entries.len() - k2,
                {
                    if import_data_entries[k2].import_module_index == pos {
                        let err = LinkerError::new(
                            LinkErrorType::DataNotFound(
                                copy_string(&import_data_entries[k2].full_name),
                            ),
                        );
                        proof {
                            assert(crate::merger::import_data_from_lists(
                                import_data_entries_list@,
                                import_module_remap_indices_list@,
                                import_data_entries@[k2 as int],
                            ));
                            let (wu, wi) = choose|wu: int, wi: int|
                                {
                                    &&& 0 <= wu < import_data_entries_list@.len() && 0 <= wi
                                        < import_data_entries_list@[wu]@.len()
                                    &&& import_data_entries@[k2 as int].full_name@ == (
                                    #[trigger] import_data_entries_list@[wu]@[wi]).full_name@
                                    &&& import_data_entries@[k2 as int].import_module_index
                                        == import_module_remap_indices_list@[wu]@[import_data_entries_list@[wu]@[wi].import_module_index as int]
                                    &&& import_data_entries@[k2 as int].data_section_type
                                        == import_data_entries_list@[wu]@[wi].data_section_type
                                    &&& import_data_entries@[k2 as int].memory_data_type
                                        == import_data_entries_list@[wu]@[wi].memory_data_type
                                };
                            let srcmi =
                                units[wu].import_data_entries@[wi].import_module_index as int;
                            assert(import_module_entries@[import_module_remap_indices_list@[wu]@[srcmi] as int].name@
                                == unit_impmods(units)[wu]@[srcmi].name@);
                            assert(units[wu].import_module_entries@[srcmi].name@
                                == crate::entry::self_reference_name());
                            assert(find_export_data(
                                export_data_entries@,
                                units[wu].import_data_entries@[wi].full_name@,
                            ) == -1);
                            assert(data_closure_witness(
                                units,
                                export_data_entries@,
                                err.error_type,
                            ));
                            assert(static_link_error_ok(units, err.error_type));
                            if static_link_succeeds(units, true) {
                                assert(find_export_data(
                                    export_data_entries@,
                                    units[wu].import_data_entries@[wi].full_name@,
                                ) >= 0);
                            }
                        }
                        return Err(err);
                    }
                    k2 += 1;
                }
            },
            None => {},
        }
    }

    let image_type = if finalize_internal_functions_reference {
        ImageType::SharedModule
    } else {
        ImageType::ObjectFile
    };

    proof {
        if module_count == 1 && unit_imports_clean(units[0]) {
            // the concatenated export table is unit 0's own
            assert(expfn_count_before(units, 0) == 0);
            assert(expfn_count_before(units, 1)
                == units[0].export_function_entries@.len());
            assert(export_function_entries@ =~= units[0].export_function_entries@);
            assert(crate::merger::impfn_unit_clean(
                import_function_entries_list@[0]@,
                export_function_entries@,
                import_module_remap_indices_list@[0],
                type_remap_indices_list@[0],
            ));
        }
    }
    proof {
        // the merged functions still reference structurally equal types and
        // local-variable lists, and their bytecode is preserved outside the
        // relocated slots
        assert forall|u: int, j: int|
            #![trigger unit_fns(units)[u]@[j]]
            0 <= u < n && 0 <= j < unit_fns(units)[u]@.len() implies {
            let src = unit_fns(units)[u]@[j];
            let dst = function_entries@[fn_count_before(unit_fns(units), u) + j];
            &&& code_preserved(src.code@, dst.code@, unit_rls(units)[u]@[j].relocate_entries@)
            &&& dst.type_index < type_entries@.len()
            &&& type_entry_deq(
                type_entries@[dst.type_index as int],
                units[u].type_entries@[src.type_index as int],
            )
            &&& dst.local_variable_list_index < local_variable_list_entries@.len()
            &&& local_list_deq(
                local_variable_list_entries@[dst.local_variable_list_index as int],
                units[u].local_variable_list_entries@[src.local_variable_list_index as int],
            )
            &&& relocate_list_deq(
                relocate_list_entries@[fn_count_before(unit_fns(units), u) + j],
                unit_rls(units)[u]@[j],
            )
        } by {
            assert(unit_fns(units)[u]@[j] == function_entries_list@[u]@[j]);
            let src = unit_fns(units)[u]@[j];
            assert(unit_well_formed(units[u]));
            assert((g_type_remaps[u]@[src.type_index as int] as int) < type_entries@.len());
            assert(type_entry_deq(
                type_entries@[g_type_remaps[u]@[src.type_index as int] as int],
                unit_types(units)[u]@[src.type_index as int],
            ));
            assert((g_lvl_remaps[u]@[src.local_variable_list_index as int] as int)
                < local_variable_list_entries@.len());
            assert(local_list_deq(
                local_variable_list_entries@[g_lvl_remaps[u]@[src.local_variable_list_index as int] as int],
                unit_lvls(units)[u]@[src.local_variable_list_index as int],
            ));
        }
    }
    let merged_image_common_entry = ImageCommonEntry {
        name: target_module_name.to_owned(),
        version: *target_module_version,
        image_type,
        import_module_entries,
        import_function_entries,
        import_data_entries,
        type_entries,
        local_variable_list_entries,
        function_entries,
        read_only_data_entries,
        read_write_data_entries,
        uninit_data_entries,
        export_function_entries,
        export_data_entries,
        relocate_list_entries,
        external_library_entries,
        external_function_entries,
    };

    proof {
        // the assembled remap tables witness the slot rewrites
        let m = merged_image_common_entry;
        let rts = remap_table_list@;
        assert(type_table_folded(m.type_entries@, unit_types(units)));
        assert(lvl_table_folded(m.local_variable_list_entries@, unit_lvls(units)));
        assert(module_names_folded(m.import_module_entries@, unit_impmods(units)));
        assert(library_names_folded(m.external_library_entries@, unit_xlibs(units)));
        assert(crate::merger::impfn_names_folded(
            m.import_function_entries@,
            unit_impfns(units),
            m.export_function_entries@,
        ));
        assert(crate::merger::impdata_names_folded(
            m.import_data_entries@,
            unit_impdata(units),
            m.export_data_entries@,
        ));
        assert forall|u: int, i: int|
            0 <= u < n && 0 <= i < units[u].type_entries@.len() implies {
            let d = (#[trigger] rts[u].type_remap_indices@[i]) as int;
            &&& d < m.type_entries@.len()
            &&& type_entry_deq(m.type_entries@[d], units[u].type_entries@[i])
        } by {
            assert(g_type_remaps[u]@[i] < m.type_entries@.len());
            assert(type_entry_deq(
                m.type_entries@[g_type_remaps[u]@[i] as int],
                unit_types(units)[u]@[i],
            ));
        }
        assert forall|u: int, i: int|
            0 <= u < n && 0 <= i < units[u].local_variable_list_entries@.len() implies {
            let d = (#[trigger] rts[u].local_variable_list_remap_indices@[i]) as int;
            &&& d < m.local_variable_list_entries@.len()
            &&& local_list_deq(
                m.local_variable_list_entries@[d],
                units[u].local_variable_list_entries@[i],
            )
        } by {
            assert(g_lvl_remaps[u]@[i] < m.local_variable_list_entries@.len());
            assert(local_list_deq(
                m.local_variable_list_entries@[g_lvl_remaps[u]@[i] as int],
                unit_lvls(units)[u]@[i],
            ));
        }
        assert forall|u: int, i: int|
            0 <= u < n && 0 <= i < units[u].import_function_entries@.len() implies {
            let d = (#[trigger] rts[u].function_public_remap_indices@[i]) as int;
            let name = units[u].import_function_entries@[i].full_name@;
            if find_export_fn(m.export_function_entries@, name) >= 0 {
                d == m.import_function_entries@.len() + find_export_fn(
                    m.export_function_entries@,
                    name,
                )
            } else {
                &&& d < m.import_function_entries@.len()
                &&& m.import_function_entries@[d].full_name@ == name
            }
        } by {
            assert(unit_impfns(units)[u]@[i] == units[u].import_function_entries@[i]);
        }
        assert forall|u: int, j: int|
            0 <= u < n && 0 <= j < units[u].export_function_entries@.len() implies (
        #[trigger] rts[u].function_public_remap_indices@[units[u].import_function_entries@.len()
            + j]) as int == m.import_function_entries@.len() + expfn_count_before(units, u)
            + j by {
            assert(internal_function_remap_indices_list@[u]@[j] as int == expfn_count_before(
                units,
                u,
            ) + j);
            assert(g_fn_remaps[u]@[unit_impfns(units)[u]@.len() + j] as int
                == internal_function_remap_indices_list@[u]@[j] + m.import_function_entries@.len());
        }
        assert forall|u: int, t: int|
            0 <= u < n && 0 <= t < units[u].import_data_entries@.len() implies pubmap_slot_ok(
            (#[trigger] rts[u].data_public_remap_indices@[t]),
            u,
            t,
            unit_impdata(units),
            m.export_data_entries@,
            m.import_data_entries@,
        ) by {
            assert(pubmap_slot_ok(
                g_data_remaps[u]@[t],
                u,
                t,
                import_data_entries_list@,
                export_data_entries@,
                import_data_entries@,
            ));
        }
        assert forall|u: int, j: int|
            0 <= u < n && 0 <= j < units[u].export_data_entries@.len() implies (
        #[trigger] rts[u].data_public_remap_indices@[units[u].import_data_entries@.len() + j]) as int
            == m.import_data_entries@.len() + merged_data_index(
            unit_ro(units),
            unit_rw(units),
            unit_un(units),
            u,
            j,
        ) by {
            assert(g_data_remaps[u]@[unit_impdata(units)[u]@.len() + j] as int
                == internal_data_remap_indices_list@[u]@[j] + m.import_data_entries@.len());
            assert(internal_data_remap_indices_list@[u]@[j] as int == merged_data_index(
                unit_ro(units),
                unit_rw(units),
                unit_un(units),
                u,
                j,
            ));
        }
        assert forall|u: int, i: int|
            0 <= u < n && 0 <= i < units[u].external_function_entries@.len() implies {
            let d = (#[trigger] rts[u].external_function_remap_indices@[i]) as int;
            &&& d < m.external_function_entries@.len()
            &&& m.external_function_entries@[d].name@
                == units[u].external_function_entries@[i].name@
            &&& (m.external_function_entries@[d].external_library_index as int)
                < m.external_library_entries@.len()
            &&& m.external_library_entries@[m.external_function_entries@[d].external_library_index as int].name@
                == units[u].external_library_entries@[units[u].external_function_entries@[i].external_library_index as int].name@
        } by {
            assert(extfn_slot_ok(
                g_xfn_remaps[u]@[i],
                unit_xfns(units)[u]@[i],
                external_library_remap_indices_list@[u],
                m.external_function_entries@,
            ));
            let li = units[u].external_function_entries@[i].external_library_index as int;
            assert(m.external_library_entries@[external_library_remap_indices_list@[u]@[li] as int].name@
                == unit_xlibs(units)[u]@[li].name@);
        }
        assert(static_link_remaps_ok(units, m, rts));
        assert forall|u: int, j: int|
            0 <= u < n && 0 <= j < units[u].external_library_entries@.len() implies {
            &&& ((#[trigger] external_library_remap_indices_list@[u]@[j]) as int)
                < m.external_library_entries@.len()
            &&& m.external_library_entries@[external_library_remap_indices_list@[u]@[j] as int].name@
                == units[u].external_library_entries@[j].name@
        } by {
            assert(m.external_library_entries@[external_library_remap_indices_list@[u]@[j] as int].name@
                == unit_xlibs(units)[u]@[j].name@);
        }
        assert(crate::merger::xfn_table_folded(
            m.external_function_entries@,
            unit_xfns(units),
            external_library_remap_indices_list@,
            type_remap_indices_list@,
        ));
        assert(static_link_xfn_remaps_ok(
            units,
            m,
            external_library_remap_indices_list@,
            type_remap_indices_list@,
        ));
        assert(static_link_xfns_folded(units, m));
        assert forall|u: int, j: int|
            #![trigger unit_fns(units)[u]@[j]]
            0 <= u < units.len() && 0 <= j < units[u].function_entries@.len() implies crate::merger::merged_function_ok(
            units[u].function_entries@[j],
            m.function_entries@[fn_count_before(unit_fns(units), u) + j],
            units[u].relocate_list_entries@[j],
            m.relocate_list_entries@[fn_count_before(unit_fns(units), u) + j],
            rts[u],
        ) by {
            assert(unit_fns(units)[u]@[j] == function_entries_list@[u]@[j]);
        }
        assert(static_link_relocations_witnessed(units, m));
    }
    Ok(merged_image_common_entry)
}

/// Links the given units into one module carrying a zero version: the static
/// link for callers that track module versions elsewhere.
pub fn link_modules(
    target_module_name: &str,
    generate_shared_module: bool,
    submodule_entries: Vec<ImageCommonEntry>,
) -> (r: Result<ImageCommonEntry, LinkerError>)
    requires
        static_link_inputs_ok(submodule_entries@),
    ensures
        r matches Ok(m) ==> static_link_post(
            submodule_entries@,
            target_module_name@,
            EffectiveVersion { major: 0, minor: 0, patch: 0 },
            generate_shared_module,
            m,
        ),
        static_link_succeeds(submodule_entries@, generate_shared_module) ==> r is Ok,
        r matches Err(le) ==> static_link_error_ok(submodule_entries@, le.error_type),
{
    let version = EffectiveVersion { major: 0, minor: 0, patch: 0 };
    static_link(target_module_name, &version, generate_shared_module, submodule_entries)
}

} // verus!

