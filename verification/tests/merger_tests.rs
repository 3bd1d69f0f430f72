//! The table mergers of the static phase, case by case.

use anc_linker::entry::{
    DataSectionType, DependencyCondition, DependencyShare, ExportDataEntry, ExportFunctionEntry,
    ExternalFunctionEntry, ExternalLibraryDependency, ExternalLibraryEntry, FunctionEntry,
    ImportModuleEntry, InitedDataEntry, LocalVariableEntry, LocalVariableListEntry,
    MemoryDataType, ModuleDependency, OperandDataType, RelocateEntry, RelocateListEntry,
    RelocateType, TypeEntry, UninitDataEntry, Visibility,
};
use anc_linker::merger::{
    compare_version, merge_data_entries, merge_external_library_entries,
    merge_function_entries, merge_import_module_entries, merge_import_modules,
    merge_local_variable_list_entries, merge_type_entries, RemapTable, VersionCompareResult,
};
use anc_linker::LinkErrorType;

fn ty(params: Vec<OperandDataType>, results: Vec<OperandDataType>) -> TypeEntry {
    TypeEntry { params, results }
}

fn share(version: &str) -> ModuleDependency {
    ModuleDependency::Share(DependencyShare {
        version: version.to_string(),
        condition: DependencyCondition::True,
        parameters: vec![],
    })
}

fn imp(name: &str, dep: ModuleDependency) -> ImportModuleEntry {
    ImportModuleEntry { name: name.to_string(), module_dependency: dep }
}

fn lib(name: &str, dep: ExternalLibraryDependency) -> ExternalLibraryEntry {
    ExternalLibraryEntry { name: name.to_string(), value: dep }
}

fn lib_share(version: &str) -> ExternalLibraryDependency {
    ExternalLibraryDependency::Share(DependencyShare {
        version: version.to_string(),
        condition: DependencyCondition::True,
        parameters: vec![],
    })
}

fn inited(value: u8) -> InitedDataEntry {
    InitedDataEntry {
        memory_data_type: MemoryDataType::I32,
        data: vec![value, 0, 0, 0],
        length: 4,
        align: 4,
    }
}

fn export_datum(name: &str, section: DataSectionType) -> ExportDataEntry {
    ExportDataEntry {
        full_name: name.to_string(),
        visibility: Visibility::Private,
        section_type: section,
    }
}

#[test]
fn test_compare_version_orders_within_one_major() {
    assert!(matches!(compare_version("1.0.1", "1.0.1"), VersionCompareResult::Equals));
    assert!(matches!(compare_version("2.1.0", "2.2.0"), VersionCompareResult::LessThan));
    assert!(matches!(compare_version("2.2.0", "2.1.9"), VersionCompareResult::GreaterThan));
    assert!(matches!(compare_version("1.4.2", "1.4.7"), VersionCompareResult::LessThan));
    assert!(matches!(compare_version("1.0.0", "2.0.0"), VersionCompareResult::Different));
}

#[test]
fn test_compare_version_beta_minor_is_part_of_the_key() {
    assert!(matches!(compare_version("0.1.0", "0.2.0"), VersionCompareResult::Different));
    assert!(matches!(compare_version("0.3.1", "0.3.4"), VersionCompareResult::LessThan));
    assert!(matches!(compare_version("0.3.4", "0.3.1"), VersionCompareResult::GreaterThan));
    assert!(matches!(compare_version("0.3.4", "0.3.4"), VersionCompareResult::Equals));
}

#[test]
fn test_merge_type_entries() {
    let a = ty(vec![], vec![]);
    let b = ty(vec![], vec![OperandDataType::I32]);
    let c = ty(vec![OperandDataType::I32, OperandDataType::I32], vec![OperandDataType::I32]);
    let lists = vec![vec![a.clone(), b.clone()], vec![b.clone(), c.clone()]];
    let (merged, remaps) = merge_type_entries(&lists);
    assert_eq!(merged, vec![a, b, c]);
    assert_eq!(remaps, vec![vec![0, 1], vec![1, 2]]);
}

#[test]
fn test_merge_local_variable_list_entries() {
    let v4 = LocalVariableEntry { memory_data_type: MemoryDataType::I32, length: 4, align: 4 };
    let v8 = LocalVariableEntry { memory_data_type: MemoryDataType::I64, length: 8, align: 8 };
    let empty = LocalVariableListEntry { local_variable_entries: vec![] };
    let one = LocalVariableListEntry { local_variable_entries: vec![v4] };
    let two = LocalVariableListEntry { local_variable_entries: vec![v4, v8] };
    let lists = vec![vec![empty.clone(), one.clone()], vec![two.clone(), one.clone()]];
    let (merged, remaps) = merge_local_variable_list_entries(&lists);
    assert_eq!(merged, vec![empty, one, two]);
    assert_eq!(remaps, vec![vec![0, 1], vec![2, 1]]);
}

#[test]
fn test_merge_import_module_entries_keeps_the_newer_share() {
    let entries0 = vec![
        ImportModuleEntry::self_reference_entry(),
        imp("network", share("1.0.1")),
        imp("encoding", share("2.1.0")),
    ];
    let entries1 = vec![
        ImportModuleEntry::self_reference_entry(),
        imp("gui", share("1.3.4")),
        imp("encoding", share("2.2.0")),
        imp("network", share("1.0.1")),
    ];
    let (merged, remaps) = merge_import_module_entries(&vec![entries0, entries1]).unwrap();
    assert_eq!(
        merged,
        vec![
            ImportModuleEntry::self_reference_entry(),
            imp("network", share("1.0.1")),
            imp("encoding", share("2.2.0")),
            imp("gui", share("1.3.4")),
        ]
    );
    assert_eq!(remaps, vec![vec![0, 1, 2], vec![0, 3, 2, 1]]);
}

#[test]
fn entry_merger_test_merge_import_module_entries_with_name_conflict() {
    let entries0 = vec![imp("x", ModuleDependency::Runtime)];
    let entries1 = vec![imp("x", share("1.0.0"))];
    let r = merge_import_module_entries(&vec![entries0, entries1]);
    assert!(matches!(
        r.unwrap_err().error_type,
        LinkErrorType::DependentNameConflict(n) if n == "x"
    ));
}

#[test]
fn entry_merger_test_merge_import_module_entries_with_source_conflict() {
    let entries0 = vec![imp("x", ModuleDependency::Local("a/b".to_string()))];
    let entries1 = vec![imp("x", ModuleDependency::Local("c/d".to_string()))];
    let r = merge_import_module_entries(&vec![entries0, entries1]);
    assert!(matches!(
        r.unwrap_err().error_type,
        LinkErrorType::DependentSourceConflict(n) if n == "x"
    ));
}

#[test]
fn test_merge_import_module_entries_with_major_version_conflict() {
    let entries0 = vec![imp("x", share("1.9.9"))];
    let entries1 = vec![imp("x", share("2.0.0"))];
    let r = merge_import_module_entries(&vec![entries0, entries1]);
    assert!(matches!(
        r.unwrap_err().error_type,
        LinkErrorType::DependentVersionConflict(n) if n == "x"
    ));
}

#[test]
fn test_merge_import_modules_with_name_conflict() {
    let entries0 = vec![imp("y", ModuleDependency::Runtime)];
    let entries1 = vec![imp("y", ModuleDependency::Local("p".to_string()))];
    let r = merge_import_modules(&vec![entries0, entries1]);
    assert!(matches!(
        r.unwrap_err().error_type,
        LinkErrorType::DependentNameConflict(n) if n == "y"
    ));
}

#[test]
fn test_merge_import_modules_with_source_conflict() {
    let remote_a = ModuleDependency::Remote(anc_linker::entry::DependencyRemote {
        url: "https://host/a".to_string(),
        revision: "v1".to_string(),
    });
    let remote_b = ModuleDependency::Remote(anc_linker::entry::DependencyRemote {
        url: "https://host/b".to_string(),
        revision: "v1".to_string(),
    });
    let r = merge_import_modules(&vec![vec![imp("y", remote_a)], vec![imp("y", remote_b)]]);
    assert!(matches!(
        r.unwrap_err().error_type,
        LinkErrorType::DependentSourceConflict(n) if n == "y"
    ));
}

#[test]
fn test_merge_import_modules_with_major_version_conflict() {
    let r = merge_import_modules(&vec![
        vec![imp("z", share("0.1.0"))],
        vec![imp("z", share("0.2.0"))],
    ]);
    assert!(matches!(
        r.unwrap_err().error_type,
        LinkErrorType::DependentVersionConflict(n) if n == "z"
    ));
}

#[test]
fn linker_test_merge_external_libraries() {
    let a = lib("a", ExternalLibraryDependency::Runtime);
    let b = lib("b", lib_share("1.2.0"));
    let c = lib("c", ExternalLibraryDependency::System("c".to_string()));
    let (merged, remaps) =
        merge_external_library_entries(&vec![vec![a.clone(), b.clone()], vec![b.clone(), c.clone()]])
            .unwrap();
    assert_eq!(merged, vec![a, b, c]);
    assert_eq!(remaps, vec![vec![0, 1], vec![1, 2]]);
}

#[test]
fn linker_test_merge_external_libraries_with_name_conflict() {
    let r = merge_external_library_entries(&vec![
        vec![lib("m", ExternalLibraryDependency::Runtime)],
        vec![lib("m", lib_share("1.0.0"))],
    ]);
    assert!(matches!(
        r.unwrap_err().error_type,
        LinkErrorType::DependentNameConflict(n) if n == "m"
    ));
}

#[test]
fn linker_test_merge_external_libraries_with_source_conflict() {
    let r = merge_external_library_entries(&vec![
        vec![lib("m", ExternalLibraryDependency::Local("one.so".to_string()))],
        vec![lib("m", ExternalLibraryDependency::Local("two.so".to_string()))],
    ]);
    assert!(matches!(
        r.unwrap_err().error_type,
        LinkErrorType::DependentSourceConflict(n) if n == "m"
    ));
}

#[test]
fn linker_test_merge_external_libraries_with_version_conflict() {
    let r = merge_external_library_entries(&vec![
        vec![lib("m", lib_share("3.1.0"))],
        vec![lib("m", lib_share("4.0.0"))],
    ]);
    assert!(matches!(
        r.unwrap_err().error_type,
        LinkErrorType::DependentVersionConflict(n) if n == "m"
    ));
}

#[test]
fn static_linker_test_merge_external_libraries() {
    // the share version that wins is the newer one
    let (merged, _) = merge_external_library_entries(&vec![
        vec![lib("enc", lib_share("2.1.0"))],
        vec![lib("enc", lib_share("2.2.0"))],
    ])
    .unwrap();
    assert_eq!(merged, vec![lib("enc", lib_share("2.2.0"))]);
}

#[test]
fn static_linker_test_merge_external_libraries_with_name_conflict() {
    let r = merge_external_library_entries(&vec![
        vec![lib("k", ExternalLibraryDependency::System("k".to_string()))],
        vec![lib("k", lib_share("1.0.0"))],
    ]);
    assert!(matches!(r.unwrap_err().error_type, LinkErrorType::DependentNameConflict(_)));
}

#[test]
fn static_linker_test_merge_external_libraries_with_source_conflict() {
    let remote_a = ExternalLibraryDependency::Remote(anc_linker::entry::DependencyRemote {
        url: "https://host/a".to_string(),
        revision: "r1".to_string(),
    });
    let remote_b = ExternalLibraryDependency::Remote(anc_linker::entry::DependencyRemote {
        url: "https://host/a".to_string(),
        revision: "r2".to_string(),
    });
    let r = merge_external_library_entries(&vec![vec![lib("k", remote_a)], vec![lib("k", remote_b)]]);
    assert!(matches!(r.unwrap_err().error_type, LinkErrorType::DependentSourceConflict(_)));
}

#[test]
fn static_linker_test_merge_external_libraries_with_version_conflict() {
    let r = merge_external_library_entries(&vec![
        vec![lib("k", lib_share("0.5.0"))],
        vec![lib("k", lib_share("0.6.0"))],
    ]);
    assert!(matches!(r.unwrap_err().error_type, LinkErrorType::DependentVersionConflict(_)));
}

#[test]
fn linker_test_merge_data() {
    // unit 0: one datum per section; unit 1: read-only and uninit data only
    let exports0 = vec![
        export_datum("m::d0", DataSectionType::ReadOnly),
        export_datum("m::d2", DataSectionType::ReadWrite),
        export_datum("m::d4", DataSectionType::Uninit),
    ];
    let exports1 = vec![
        export_datum("m::d1", DataSectionType::ReadOnly),
        export_datum("m::d5", DataSectionType::Uninit),
    ];
    let un4 = UninitDataEntry { memory_data_type: MemoryDataType::I32, length: 4, align: 4 };
    let (exports, ro, rw, un, remaps) = merge_data_entries(
        &vec![exports0, exports1],
        &vec![vec![inited(0x11)], vec![inited(0x13)]],
        &vec![vec![inited(0x17)], vec![]],
        &vec![vec![un4], vec![un4]],
    );
    let names: Vec<&str> = exports.iter().map(|e| e.full_name.as_str()).collect();
    assert_eq!(names, vec!["m::d0", "m::d1", "m::d2", "m::d4", "m::d5"]);
    assert_eq!(ro, vec![inited(0x11), inited(0x13)]);
    assert_eq!(rw, vec![inited(0x17)]);
    assert_eq!(un, vec![un4, un4]);
    assert_eq!(remaps, vec![vec![0, 2, 3], vec![1, 4]]);
}

#[test]
fn static_linker_test_merge_data() {
    // a unit with no data at all passes empty tables through
    let (exports, ro, rw, un, remaps) =
        merge_data_entries(&vec![vec![]], &vec![vec![]], &vec![vec![]], &vec![vec![]]);
    assert!(exports.is_empty());
    assert!(ro.is_empty());
    assert!(rw.is_empty());
    assert!(un.is_empty());
    assert_eq!(remaps, vec![vec![]]);
}

#[test]
fn linker_test_merge_function() {
    // one function whose single slot holds type index 1, remapped to 7;
    // every byte outside the slot is carried over unchanged
    let code = vec![0xc1, 0x01, 0x00, 0x00, 0x01, 0x00, 0x00, 0x00, 0xc0, 0x03];
    let functions = vec![vec![FunctionEntry {
        type_index: 0,
        local_variable_list_index: 0,
        code: code.clone(),
    }]];
    let relocations = vec![vec![RelocateListEntry {
        relocate_entries: vec![RelocateEntry { code_offset: 4, relocate_type: RelocateType::TypeIndex }],
    }]];
    let remap_tables = vec![RemapTable {
        type_remap_indices: vec![5, 7],
        data_public_remap_indices: vec![],
        function_public_remap_indices: vec![],
        local_variable_list_remap_indices: vec![0],
        external_function_remap_indices: vec![],
    }];
    let (merged_fns, merged_rls) = merge_function_entries(&relocations, &functions, &remap_tables);
    assert_eq!(merged_fns.len(), 1);
    assert_eq!(merged_fns[0].type_index, 5);
    assert_eq!(
        merged_fns[0].code,
        vec![0xc1, 0x01, 0x00, 0x00, 0x07, 0x00, 0x00, 0x00, 0xc0, 0x03]
    );
    assert_eq!(merged_rls, relocations[0]);
}

#[test]
fn static_linker_test_merge_function() {
    // a 32-bit slot is read and written little-endian
    let code = vec![0xaa, 0x01, 0x00, 0x00, 0x00];
    let functions = vec![vec![FunctionEntry {
        type_index: 0,
        local_variable_list_index: 0,
        code,
    }]];
    let relocations = vec![vec![RelocateListEntry {
        relocate_entries: vec![RelocateEntry {
            code_offset: 1,
            relocate_type: RelocateType::DataPublicIndex,
        }],
    }]];
    let remap_tables = vec![RemapTable {
        type_remap_indices: vec![0],
        data_public_remap_indices: vec![0, 0x01020304],
        function_public_remap_indices: vec![],
        local_variable_list_remap_indices: vec![0],
        external_function_remap_indices: vec![],
    }];
    let (merged_fns, _) = merge_function_entries(&relocations, &functions, &remap_tables);
    assert_eq!(merged_fns[0].code, vec![0xaa, 0x04, 0x03, 0x02, 0x01]);
}

#[test]
fn test_merge_external_function_entries_deduplicates_by_name_and_library() {
    let decl = |name: &str, libidx: usize, tyidx: usize| ExternalFunctionEntry {
        name: name.to_string(),
        external_library_index: libidx,
        type_index: tyidx,
    };
    let lists = vec![
        vec![decl("f", 0, 0), decl("g", 1, 0)],
        vec![decl("g", 0, 0), decl("h", 0, 0)],
    ];
    // unit 1's library 0 is the merged library 1
    let lib_remaps = vec![vec![0, 1], vec![1]];
    let type_remaps = vec![vec![0], vec![0]];
    let (merged, remaps) =
        anc_linker::merger::merge_external_function_entries(&lib_remaps, &type_remaps, &lists);
    assert_eq!(merged, vec![decl("f", 0, 0), decl("g", 1, 0), decl("h", 1, 0)]);
    assert_eq!(remaps, vec![vec![0, 1], vec![1, 2]]);
}

/// The positive merge scenario: the newer compatible minor version wins and
/// new names are appended in first-occurrence order.
#[test]
fn test_merge_import_modules_keeps_order_and_newest_versions() {
    let entries0 = vec![
        ImportModuleEntry::self_reference_entry(),
        imp("network", share("1.0.1")),
        imp("encoding", share("2.1.0")),
    ];
    let entries1 = vec![
        ImportModuleEntry::self_reference_entry(),
        imp("network", share("1.0.1")),
        imp("encoding", share("2.2.0")),
        imp("gui", share("1.3.4")),
    ];
    let merged = merge_import_modules(&vec![entries0, entries1]).unwrap();
    let names: Vec<&str> = merged.iter().map(|e| e.name.as_str()).collect();
    assert_eq!(names, vec!["module", "network", "encoding", "gui"]);
    assert!(matches!(&merged[1].module_dependency,
        ModuleDependency::Share(s) if s.version == "1.0.1"));
    assert!(matches!(&merged[2].module_dependency,
        ModuleDependency::Share(s) if s.version == "2.2.0"));
    assert!(matches!(&merged[3].module_dependency,
        ModuleDependency::Share(s) if s.version == "1.3.4"));
}

