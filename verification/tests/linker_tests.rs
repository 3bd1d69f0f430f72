//! The static link as a whole: fusing units, resolving intra-module imports,
//! patching bytecode, and the failure cases.

use anc_linker::entry::{
    DataSectionType, DependencyCondition, DependencyShare, EffectiveVersion, ExportDataEntry,
    ExportFunctionEntry, FunctionEntry, ImageCommonEntry, ImageType, ImportDataEntry,
    ImportFunctionEntry, ImportModuleEntry, MemoryDataType, ModuleDependency, OperandDataType,
    RelocateEntry, RelocateListEntry, RelocateType, TypeEntry, Visibility,
};
use anc_linker::linker::{link_modules, static_link};
use anc_linker::LinkErrorType;

fn empty_unit(name: &str) -> ImageCommonEntry {
    ImageCommonEntry {
        name: name.to_string(),
        version: EffectiveVersion { major: 0, minor: 0, patch: 0 },
        image_type: ImageType::ObjectFile,
        import_module_entries: vec![],
        import_function_entries: vec![],
        import_data_entries: vec![],
        type_entries: vec![],
        local_variable_list_entries: vec![],
        function_entries: vec![],
        read_only_data_entries: vec![],
        read_write_data_entries: vec![],
        uninit_data_entries: vec![],
        export_function_entries: vec![],
        export_data_entries: vec![],
        relocate_list_entries: vec![],
        external_library_entries: vec![],
        external_function_entries: vec![],
    }
}

fn share(version: &str) -> ModuleDependency {
    ModuleDependency::Share(DependencyShare {
        version: version.to_string(),
        condition: DependencyCondition::True,
        parameters: vec![],
    })
}

fn imp(name: &str, dep: ModuleDependency) -> ImportModuleEntry {
    ImportModuleEntry { name: name.to_string(), module_dependency: dep }
}

fn export_fn(name: &str) -> ExportFunctionEntry {
    ExportFunctionEntry { full_name: name.to_string(), visibility: Visibility::Private }
}

fn version0() -> EffectiveVersion {
    EffectiveVersion { major: 0, minor: 0, patch: 0 }
}

#[test]
fn linker_test_merge_import_module_entries_with_name_conflict() {
    let mut u0 = empty_unit("hello");
    u0.import_module_entries = vec![imp("x", ModuleDependency::Runtime)];
    let mut u1 = empty_unit("hello::world");
    u1.import_module_entries = vec![imp("x", share("1.0.0"))];
    let r = link_modules("merged", false, vec![u0, u1]);
    assert!(matches!(
        r.unwrap_err().error_type,
        LinkErrorType::DependentNameConflict(n) if n == "x"
    ));
}

#[test]
fn linker_test_merge_import_module_entries_with_source_conflict() {
    let mut u0 = empty_unit("hello");
    u0.import_module_entries = vec![imp("x", ModuleDependency::Local("a".to_string()))];
    let mut u1 = empty_unit("hello::world");
    u1.import_module_entries = vec![imp("x", ModuleDependency::Local("b".to_string()))];
    let r = link_modules("merged", false, vec![u0, u1]);
    assert!(matches!(
        r.unwrap_err().error_type,
        LinkErrorType::DependentSourceConflict(n) if n == "x"
    ));
}

#[test]
fn linker_test_merge_import_module_entries_with_version_conflict() {
    let mut u0 = empty_unit("hello");
    u0.import_module_entries = vec![imp("x", share("1.0.0"))];
    let mut u1 = empty_unit("hello::world");
    u1.import_module_entries = vec![imp("x", share("2.0.0"))];
    let r = link_modules("merged", false, vec![u0, u1]);
    assert!(matches!(
        r.unwrap_err().error_type,
        LinkErrorType::DependentVersionConflict(n) if n == "x"
    ));
}

#[test]
fn static_linker_test_merge_import_module_entries_with_name_conflict() {
    let mut u0 = empty_unit("a");
    u0.import_module_entries = vec![imp("dep", share("1.0.0"))];
    let mut u1 = empty_unit("b");
    u1.import_module_entries = vec![imp("dep", ModuleDependency::Runtime)];
    let r = static_link("merged", &version0(), false, vec![u0, u1]);
    assert!(matches!(r.unwrap_err().error_type, LinkErrorType::DependentNameConflict(_)));
}

#[test]
fn static_linker_test_merge_import_module_entries_with_source_conflict() {
    let remote = |url: &str| {
        ModuleDependency::Remote(anc_linker::entry::DependencyRemote {
            url: url.to_string(),
            revision: "main".to_string(),
        })
    };
    let mut u0 = empty_unit("a");
    u0.import_module_entries = vec![imp("dep", remote("https://one"))];
    let mut u1 = empty_unit("b");
    u1.import_module_entries = vec![imp("dep", remote("https://two"))];
    let r = static_link("merged", &version0(), false, vec![u0, u1]);
    assert!(matches!(r.unwrap_err().error_type, LinkErrorType::DependentSourceConflict(_)));
}

#[test]
fn static_linker_test_merge_import_module_entries_with_version_conflict() {
    let mut u0 = empty_unit("a");
    u0.import_module_entries = vec![imp("dep", share("0.4.0"))];
    let mut u1 = empty_unit("b");
    u1.import_module_entries = vec![imp("dep", share("0.5.0"))];
    let r = static_link("merged", &version0(), false, vec![u0, u1]);
    assert!(matches!(r.unwrap_err().error_type, LinkErrorType::DependentVersionConflict(_)));
}

/// An empty bytecode body with no relocations is copied through untouched.
#[test]
fn test_link_copies_empty_bytecode_through() {
    let mut unit = empty_unit("hello");
    unit.type_entries = vec![TypeEntry { params: vec![], results: vec![] }];
    unit.local_variable_list_entries =
        vec![anc_linker::entry::LocalVariableListEntry { local_variable_entries: vec![] }];
    unit.function_entries =
        vec![FunctionEntry { type_index: 0, local_variable_list_index: 0, code: vec![] }];
    unit.export_function_entries = vec![export_fn("hello::main")];
    unit.relocate_list_entries = vec![RelocateListEntry { relocate_entries: vec![] }];
    let merged = static_link("merged", &version0(), false, vec![unit]).unwrap();
    assert_eq!(merged.function_entries.len(), 1);
    assert!(merged.function_entries[0].code.is_empty());
    assert_eq!(merged.name, "merged");
    assert!(matches!(merged.image_type, ImageType::ObjectFile));
}

fn one_function_unit() -> ImageCommonEntry {
    let mut unit = empty_unit("hello");
    unit.type_entries = vec![
        TypeEntry { params: vec![], results: vec![] },
        TypeEntry { params: vec![OperandDataType::I32], results: vec![OperandDataType::I32] },
    ];
    unit.local_variable_list_entries =
        vec![anc_linker::entry::LocalVariableListEntry { local_variable_entries: vec![] }];
    unit.function_entries = vec![FunctionEntry {
        type_index: 1,
        local_variable_list_index: 0,
        code: vec![0x40, 0x01, 0x00, 0x00, 0x01, 0x00, 0x00, 0x00, 0xc0, 0x03],
    }];
    unit.relocate_list_entries = vec![RelocateListEntry {
        relocate_entries: vec![RelocateEntry {
            code_offset: 4,
            relocate_type: RelocateType::TypeIndex,
        }],
    }];
    unit.export_function_entries = vec![export_fn("hello::main")];
    unit.import_module_entries = vec![ImportModuleEntry::self_reference_entry()];
    unit
}

/// Linking one object unit passes its tables and bytecode through unchanged.
#[test]
fn test_link_single_unit_passes_tables_through() {
    let unit = one_function_unit();
    let merged = static_link("hello", &version0(), false, vec![unit.clone()]).unwrap();
    assert_eq!(merged.type_entries, unit.type_entries);
    assert_eq!(merged.local_variable_list_entries, unit.local_variable_list_entries);
    assert_eq!(merged.import_module_entries, unit.import_module_entries);
    assert_eq!(merged.function_entries, unit.function_entries);
    assert_eq!(merged.export_function_entries, unit.export_function_entries);
    assert_eq!(merged.relocate_list_entries, unit.relocate_list_entries);
}

/// Linking a linked module again with itself as the only unit changes not a
/// byte of it.
#[test]
fn test_link_twice_is_identical() {
    let unit = one_function_unit();
    let first = static_link("hello", &version0(), true, vec![unit]).unwrap();
    let second = static_link("hello", &version0(), true, vec![first.clone()]).unwrap();
    assert_eq!(first, second);
}

/// An import whose name a sibling unit exports is rewritten to the internal
/// function: no import remains and the call site carries its public index.
#[test]
fn test_import_collapses_to_internal_function() {
    let mut u0 = empty_unit("hello");
    u0.type_entries = vec![TypeEntry { params: vec![], results: vec![] }];
    u0.local_variable_list_entries =
        vec![anc_linker::entry::LocalVariableListEntry { local_variable_entries: vec![] }];
    u0.import_module_entries = vec![ImportModuleEntry::self_reference_entry()];
    u0.import_function_entries = vec![ImportFunctionEntry {
        full_name: "hello::world::do_this".to_string(),
        import_module_index: 0,
        type_index: 0,
    }];
    // `call` of function public index 0 (the import)
    u0.function_entries = vec![FunctionEntry {
        type_index: 0,
        local_variable_list_index: 0,
        code: vec![0x00, 0x04, 0x00, 0x00, 0x00, 0x00, 0x00, 0x00, 0xc0, 0x03],
    }];
    u0.relocate_list_entries = vec![RelocateListEntry {
        relocate_entries: vec![RelocateEntry {
            code_offset: 4,
            relocate_type: RelocateType::FunctionPublicIndex,
        }],
    }];
    u0.export_function_entries = vec![export_fn("hello::main")];

    let mut u1 = empty_unit("hello::world");
    u1.type_entries = vec![TypeEntry { params: vec![], results: vec![] }];
    u1.local_variable_list_entries =
        vec![anc_linker::entry::LocalVariableListEntry { local_variable_entries: vec![] }];
    u1.import_module_entries = vec![ImportModuleEntry::self_reference_entry()];
    u1.function_entries = vec![FunctionEntry {
        type_index: 0,
        local_variable_list_index: 0,
        code: vec![0xc0, 0x03],
    }];
    u1.relocate_list_entries = vec![RelocateListEntry { relocate_entries: vec![] }];
    u1.export_function_entries = vec![export_fn("hello::world::do_this")];

    let merged = static_link("merged", &version0(), true, vec![u0, u1]).unwrap();
    assert!(merged.import_function_entries.is_empty());
    assert!(matches!(merged.image_type, ImageType::SharedModule));
    // the call site now names public index 1: no imports remain, and
    // `do_this` is the second internal function
    assert_eq!(
        merged.function_entries[0].code,
        vec![0x00, 0x04, 0x00, 0x00, 0x01, 0x00, 0x00, 0x00, 0xc0, 0x03]
    );
}

/// An import that nothing in the link set defines fails the finalized link.
#[test]
fn test_link_with_unresolved_function_import() {
    let mut u0 = empty_unit("hello");
    u0.type_entries = vec![TypeEntry { params: vec![], results: vec![] }];
    u0.import_module_entries = vec![ImportModuleEntry::self_reference_entry()];
    u0.import_function_entries = vec![ImportFunctionEntry {
        full_name: "hello::world::do_that".to_string(),
        import_module_index: 0,
        type_index: 0,
    }];
    let r = static_link("merged", &version0(), true, vec![u0]);
    assert!(matches!(
        r.unwrap_err().error_type,
        LinkErrorType::FunctionNotFound(n) if n == "hello::world::do_that"
    ));
}

/// An unresolved data import fails the finalized link likewise.
#[test]
fn test_link_with_unresolved_data_import() {
    let mut u0 = empty_unit("hello");
    u0.import_module_entries = vec![ImportModuleEntry::self_reference_entry()];
    u0.import_data_entries = vec![ImportDataEntry {
        full_name: "hello::world::d1".to_string(),
        import_module_index: 0,
        data_section_type: DataSectionType::ReadWrite,
        memory_data_type: MemoryDataType::I32,
    }];
    let r = static_link("merged", &version0(), true, vec![u0]);
    assert!(matches!(
        r.unwrap_err().error_type,
        LinkErrorType::DataNotFound(n) if n == "hello::world::d1"
    ));
}

/// A data import of an exported name must agree with the export's section.
#[test]
fn test_import_data_section_mismatch() {
    let mut u0 = empty_unit("hello");
    u0.import_module_entries = vec![ImportModuleEntry::self_reference_entry()];
    u0.import_data_entries = vec![ImportDataEntry {
        full_name: "hello::d0".to_string(),
        import_module_index: 0,
        data_section_type: DataSectionType::ReadWrite,
        memory_data_type: MemoryDataType::I32,
    }];
    let mut u1 = empty_unit("hello::sub");
    u1.import_module_entries = vec![ImportModuleEntry::self_reference_entry()];
    u1.read_only_data_entries = vec![anc_linker::entry::InitedDataEntry {
        memory_data_type: MemoryDataType::I32,
        data: vec![0x11, 0, 0, 0],
        length: 4,
        align: 4,
    }];
    u1.export_data_entries = vec![ExportDataEntry {
        full_name: "hello::d0".to_string(),
        visibility: Visibility::Private,
        section_type: DataSectionType::ReadOnly,
    }];
    let r = static_link("merged", &version0(), false, vec![u0, u1]);
    assert!(matches!(
        r.unwrap_err().error_type,
        LinkErrorType::ImportDataSectionMismatch(n, DataSectionType::ReadWrite) if n == "hello::d0"
    ));
}

/// Two imports of one undefined name must agree on the section.
#[test]
fn test_import_data_section_inconsistant() {
    let imp_data = |section: DataSectionType| ImportDataEntry {
        full_name: "shared::d".to_string(),
        import_module_index: 0,
        data_section_type: section,
        memory_data_type: MemoryDataType::I32,
    };
    let mut u0 = empty_unit("a");
    u0.import_module_entries = vec![imp("shared", ModuleDependency::Runtime)];
    u0.import_data_entries = vec![imp_data(DataSectionType::ReadOnly)];
    let mut u1 = empty_unit("b");
    u1.import_module_entries = vec![imp("shared", ModuleDependency::Runtime)];
    u1.import_data_entries = vec![imp_data(DataSectionType::ReadWrite)];
    let r = static_link("merged", &version0(), false, vec![u0, u1]);
    assert!(matches!(
        r.unwrap_err().error_type,
        LinkErrorType::ImportDataSectionInconsistant(n) if n == "shared::d"
    ));
}

/// Two imports of one undefined name must agree on the memory type.
#[test]
fn test_import_data_type_inconsistant() {
    let imp_data = |mt: MemoryDataType| ImportDataEntry {
        full_name: "shared::d".to_string(),
        import_module_index: 0,
        data_section_type: DataSectionType::ReadWrite,
        memory_data_type: mt,
    };
    let mut u0 = empty_unit("a");
    u0.import_module_entries = vec![imp("shared", ModuleDependency::Runtime)];
    u0.import_data_entries = vec![imp_data(MemoryDataType::I32)];
    let mut u1 = empty_unit("b");
    u1.import_module_entries = vec![imp("shared", ModuleDependency::Runtime)];
    u1.import_data_entries = vec![imp_data(MemoryDataType::I64)];
    let r = static_link("merged", &version0(), false, vec![u0, u1]);
    assert!(matches!(
        r.unwrap_err().error_type,
        LinkErrorType::ImportDataTypeInconsistant(n) if n == "shared::d"
    ));
}

/// The merged export-data table reads `[read-only | read-write | uninit]`,
/// each block in unit order, and the type table holds no duplicates.
#[test]
fn test_link_merges_data_and_types_in_order() {
    let inited = |v: u8| anc_linker::entry::InitedDataEntry {
        memory_data_type: MemoryDataType::I32,
        data: vec![v, 0, 0, 0],
        length: 4,
        align: 4,
    };
    let export_datum = |name: &str, s: DataSectionType| ExportDataEntry {
        full_name: name.to_string(),
        visibility: Visibility::Private,
        section_type: s,
    };
    let t_unit = TypeEntry { params: vec![], results: vec![] };
    let t_i32 = TypeEntry { params: vec![], results: vec![OperandDataType::I32] };

    let mut u0 = empty_unit("hello");
    u0.type_entries = vec![t_unit.clone(), t_i32.clone()];
    u0.read_write_data_entries = vec![inited(0x13)];
    u0.export_data_entries = vec![export_datum("hello::d2", DataSectionType::ReadWrite)];

    let mut u1 = empty_unit("hello::base");
    u1.type_entries = vec![t_i32.clone(), t_unit.clone()];
    u1.read_only_data_entries = vec![inited(0x17)];
    u1.uninit_data_entries = vec![anc_linker::entry::UninitDataEntry {
        memory_data_type: MemoryDataType::I64,
        length: 8,
        align: 8,
    }];
    u1.export_data_entries = vec![
        export_datum("hello::base::d1", DataSectionType::ReadOnly),
        export_datum("hello::base::d5", DataSectionType::Uninit),
    ];

    let merged = static_link("merged", &version0(), false, vec![u0, u1]).unwrap();
    assert_eq!(merged.type_entries, vec![t_unit, t_i32]);
    let names: Vec<&str> =
        merged.export_data_entries.iter().map(|e| e.full_name.as_str()).collect();
    assert_eq!(names, vec!["hello::base::d1", "hello::d2", "hello::base::d5"]);
    assert_eq!(merged.read_only_data_entries, vec![inited(0x17)]);
    assert_eq!(merged.read_write_data_entries, vec![inited(0x13)]);
}

/// A data import of an exported name must agree with the datum's memory type.
#[test]
fn test_import_data_type_mismatch() {
    let mut u0 = empty_unit("hello");
    u0.import_module_entries = vec![ImportModuleEntry::self_reference_entry()];
    u0.import_data_entries = vec![ImportDataEntry {
        full_name: "hello::d0".to_string(),
        import_module_index: 0,
        data_section_type: DataSectionType::ReadWrite,
        memory_data_type: MemoryDataType::I64,
    }];
    let mut u1 = empty_unit("hello::sub");
    u1.import_module_entries = vec![ImportModuleEntry::self_reference_entry()];
    u1.read_write_data_entries = vec![anc_linker::entry::InitedDataEntry {
        memory_data_type: MemoryDataType::I32,
        data: vec![0x11, 0, 0, 0],
        length: 4,
        align: 4,
    }];
    u1.export_data_entries = vec![ExportDataEntry {
        full_name: "hello::d0".to_string(),
        visibility: Visibility::Private,
        section_type: DataSectionType::ReadWrite,
    }];
    let r = static_link("merged", &version0(), false, vec![u0, u1]);
    assert!(matches!(
        r.unwrap_err().error_type,
        LinkErrorType::ImportDataTypeMismatch(n, MemoryDataType::I64) if n == "hello::d0"
    ));
}

/// Two call sites in two different units collapse to the same internal
/// function of a third unit: both slots rewrite to its merged public index.
#[test]
fn test_import_collapses_at_two_call_sites_across_three_units() {
    let call_site = |imported_index: u8| FunctionEntry {
        type_index: 0,
        local_variable_list_index: 0,
        code: vec![0x00, 0x04, 0x00, 0x00, imported_index, 0x00, 0x00, 0x00, 0xc0, 0x03],
    };
    let reloc = RelocateListEntry {
        relocate_entries: vec![RelocateEntry {
            code_offset: 4,
            relocate_type: RelocateType::FunctionPublicIndex,
        }],
    };

    let mut u0 = empty_unit("hello");
    u0.type_entries = vec![TypeEntry { params: vec![], results: vec![] }];
    u0.local_variable_list_entries =
        vec![anc_linker::entry::LocalVariableListEntry { local_variable_entries: vec![] }];
    u0.import_module_entries = vec![ImportModuleEntry::self_reference_entry()];
    u0.import_function_entries = vec![ImportFunctionEntry {
        full_name: "hello::lib::do_this".to_string(),
        import_module_index: 0,
        type_index: 0,
    }];
    u0.function_entries = vec![call_site(0)];
    u0.relocate_list_entries = vec![reloc.clone()];
    u0.export_function_entries = vec![export_fn("hello::main")];

    let mut u1 = empty_unit("hello::aux");
    u1.type_entries = vec![TypeEntry { params: vec![], results: vec![] }];
    u1.local_variable_list_entries =
        vec![anc_linker::entry::LocalVariableListEntry { local_variable_entries: vec![] }];
    u1.import_module_entries = vec![ImportModuleEntry::self_reference_entry()];
    u1.import_function_entries = vec![ImportFunctionEntry {
        full_name: "hello::lib::do_this".to_string(),
        import_module_index: 0,
        type_index: 0,
    }];
    u1.function_entries = vec![call_site(0)];
    u1.relocate_list_entries = vec![reloc.clone()];
    u1.export_function_entries = vec![export_fn("hello::aux::side")];

    let mut u2 = empty_unit("hello::lib");
    u2.type_entries = vec![TypeEntry { params: vec![], results: vec![] }];
    u2.local_variable_list_entries =
        vec![anc_linker::entry::LocalVariableListEntry { local_variable_entries: vec![] }];
    u2.import_module_entries = vec![ImportModuleEntry::self_reference_entry()];
    u2.function_entries = vec![FunctionEntry {
        type_index: 0,
        local_variable_list_index: 0,
        code: vec![0xc0, 0x03],
    }];
    u2.relocate_list_entries = vec![RelocateListEntry { relocate_entries: vec![] }];
    u2.export_function_entries = vec![export_fn("hello::lib::do_this")];

    let merged = static_link("merged", &version0(), true, vec![u0, u1, u2]).unwrap();
    assert!(merged.import_function_entries.is_empty());
    // `do_this` is the third internal function, public index 2; both call
    // sites now name it
    assert_eq!(
        merged.function_entries[0].code,
        vec![0x00, 0x04, 0x00, 0x00, 0x02, 0x00, 0x00, 0x00, 0xc0, 0x03]
    );
    assert_eq!(
        merged.function_entries[1].code,
        vec![0x00, 0x04, 0x00, 0x00, 0x02, 0x00, 0x00, 0x00, 0xc0, 0x03]
    );
}

