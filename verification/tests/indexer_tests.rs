//! The dynamic phase: depth sorting, cross-module indexing, external
//! unification and entry-point discovery.

use anc_linker::entry::{
    DataIndexEntry, DataSectionType, DynamicLinkModuleEntry, EffectiveVersion,
    ExportDataEntry, ExportFunctionEntry, ExternalFunctionEntry, ExternalLibraryDependency,
    ExternalLibraryEntry, FunctionEntry, FunctionIndexEntry, ImageCommonEntry, ImageType,
    ImportDataEntry, ImportFunctionEntry, ImportModuleEntry, InitedDataEntry, MemoryDataType,
    ModuleDependency, ModuleLocation, OperandDataType, TypeEntry, UninitDataEntry, Visibility,
};
use anc_linker::indexer::{
    dynamic_link, find_entry_points, sort_modules, sort_modules_by_dependent_deepth,
};
use anc_linker::LinkErrorType;

fn empty_module(name: &str) -> ImageCommonEntry {
    ImageCommonEntry {
        name: name.to_string(),
        version: EffectiveVersion { major: 0, minor: 0, patch: 0 },
        image_type: ImageType::SharedModule,
        import_module_entries: vec![],
        import_function_entries: vec![],
        import_data_entries: vec![],
        type_entries: vec![],
        local_variable_list_entries: vec![],
        function_entries: vec![],
        read_only_data_entries: vec![],
        read_write_data_entries: vec![],
        uninit_data_entries: vec![],
        export_function_entries: vec![],
        export_data_entries: vec![],
        relocate_list_entries: vec![],
        external_library_entries: vec![],
        external_function_entries: vec![],
    }
}

fn dependency(name: &str) -> ImportModuleEntry {
    ImportModuleEntry {
        name: name.to_string(),
        module_dependency: ModuleDependency::Runtime,
    }
}

fn module_with_deps(name: &str, deps: &[&str]) -> ImageCommonEntry {
    let mut m = empty_module(name);
    m.import_module_entries = deps.iter().map(|d| dependency(d)).collect();
    m
}

fn names(modules: &[ImageCommonEntry]) -> String {
    modules.iter().map(|m| m.name.as_str()).collect::<Vec<_>>().join(",")
}

/// The deep dependency graph sorts by the longest path from the application,
/// stably on ties.
#[test]
fn test_sort_modules_by_deepest_use() {
    let modules = vec![
        module_with_deps("a", &["b", "c", "d", "e"]),
        module_with_deps("b", &["j"]),
        module_with_deps("c", &["g"]),
        module_with_deps("d", &["g", "h"]),
        module_with_deps("e", &["f"]),
        module_with_deps("f", &["d"]),
        module_with_deps("g", &["j"]),
        module_with_deps("h", &["i"]),
        module_with_deps("i", &["j"]),
        module_with_deps("j", &[]),
    ];
    let sorted = sort_modules_by_dependent_deepth(modules).unwrap();
    assert_eq!(names(&sorted), "a,b,c,e,f,d,g,h,i,j");
}

/// A self-only graph sorts to the one-element list; nothing dangles.
#[test]
fn test_sort_single_module() {
    let mut app = empty_module("app");
    app.import_module_entries = vec![ImportModuleEntry::self_reference_entry()];
    let sorted = sort_modules_by_dependent_deepth(vec![app]).unwrap();
    assert_eq!(names(&sorted), "app");
}

/// A module nothing reaches is reported as dangling.
#[test]
fn test_sort_reports_dangling_module() {
    let modules = vec![module_with_deps("app", &[]), empty_module("stray")];
    let r = sort_modules_by_dependent_deepth(modules);
    assert!(matches!(
        r.unwrap_err().error_type,
        LinkErrorType::DanglingModule(n) if n == "stray"
    ));
}

/// The old interface also hands back the dependency list, self-reference
/// first.
#[test]
fn test_sort_modules_lists_dependencies() {
    let modules = vec![module_with_deps("app", &["std"]), module_with_deps("std", &[])];
    let (sorted, deps) = sort_modules(modules).unwrap();
    assert_eq!(names(&sorted), "app,std");
    assert_eq!(deps.len(), 2);
    assert_eq!(deps[0].name, "module");
    assert!(matches!(deps[0].module_dependency, ModuleDependency::Module));
    assert_eq!(deps[1].name, "std");
}

fn ty(params: Vec<OperandDataType>, results: Vec<OperandDataType>) -> TypeEntry {
    TypeEntry { params, results }
}

fn public_fn(name: &str) -> ExportFunctionEntry {
    ExportFunctionEntry { full_name: name.to_string(), visibility: Visibility::Public }
}

fn plain_fn(type_index: usize) -> FunctionEntry {
    FunctionEntry { type_index, local_variable_list_index: 0, code: vec![0xc0, 0x03] }
}

fn dlm(name: &str) -> DynamicLinkModuleEntry {
    DynamicLinkModuleEntry {
        name: name.to_string(),
        module_location: ModuleLocation::Runtime,
    }
}

/// Three modules wired as in the function-index scenario: the application's
/// list resolves imports first, then its internal functions.
fn function_index_fixture() -> Vec<ImageCommonEntry> {
    let t_bin = ty(
        vec![OperandDataType::I32, OperandDataType::I32],
        vec![OperandDataType::I32],
    );
    let t_un = ty(vec![OperandDataType::I32], vec![OperandDataType::I32]);

    let mut app = empty_module("app");
    app.import_module_entries = vec![dependency("math"), dependency("std")];
    app.type_entries = vec![t_bin.clone(), t_un.clone(), ty(vec![], vec![])];
    app.import_function_entries = vec![
        ImportFunctionEntry {
            full_name: "std::add".to_string(),
            import_module_index: 1,
            type_index: 0,
        },
        ImportFunctionEntry {
            full_name: "math::inc".to_string(),
            import_module_index: 0,
            type_index: 1,
        },
        ImportFunctionEntry {
            full_name: "std::sub".to_string(),
            import_module_index: 1,
            type_index: 0,
        },
    ];
    app.function_entries = vec![plain_fn(2), plain_fn(2)];
    app.export_function_entries = vec![public_fn("app::_start"), public_fn("app::test")];

    let mut math = empty_module("math");
    math.import_module_entries = vec![dependency("std")];
    math.type_entries = vec![t_un.clone()];
    math.function_entries = vec![plain_fn(0)];
    math.export_function_entries = vec![public_fn("math::inc")];

    let mut std_m = empty_module("std");
    std_m.type_entries = vec![t_bin.clone()];
    std_m.function_entries = vec![plain_fn(0), plain_fn(0)];
    std_m.export_function_entries = vec![public_fn("std::add"), public_fn("std::sub")];

    vec![app, math, std_m]
}

#[test]
fn test_build_index_functions_and_data() {
    let mut modules = function_index_fixture();

    // give std a public uninit datum and let app import it
    modules[2].uninit_data_entries = vec![UninitDataEntry {
        memory_data_type: MemoryDataType::I32,
        length: 4,
        align: 4,
    }];
    modules[2].export_data_entries = vec![ExportDataEntry {
        full_name: "std::errno".to_string(),
        visibility: Visibility::Public,
        section_type: DataSectionType::Uninit,
    }];
    modules[0].import_data_entries = vec![ImportDataEntry {
        full_name: "std::errno".to_string(),
        import_module_index: 1,
        data_section_type: DataSectionType::Uninit,
        memory_data_type: MemoryDataType::I32,
    }];

    let locations = vec![dlm("std"), dlm("app"), dlm("math")];
    let index = dynamic_link(&modules, &locations).unwrap();

    assert_eq!(
        index.function_index_list_entries[0].index_entries,
        vec![
            FunctionIndexEntry { target_module_index: 2, function_internal_index: 0 },
            FunctionIndexEntry { target_module_index: 1, function_internal_index: 0 },
            FunctionIndexEntry { target_module_index: 2, function_internal_index: 1 },
            FunctionIndexEntry { target_module_index: 0, function_internal_index: 0 },
            FunctionIndexEntry { target_module_index: 0, function_internal_index: 1 },
        ]
    );
    assert_eq!(
        index.data_index_list_entries[0].index_entries,
        vec![DataIndexEntry {
            target_module_index: 2,
            data_internal_index: 0,
            target_data_section_type: DataSectionType::Uninit,
        }]
    );
    assert_eq!(
        index.data_index_list_entries[2].index_entries,
        vec![DataIndexEntry {
            target_module_index: 2,
            data_internal_index: 0,
            target_data_section_type: DataSectionType::Uninit,
        }]
    );
    // the loader locations are reordered to the module order
    let location_names: Vec<&str> =
        index.dynamic_link_module_entries.iter().map(|e| e.name.as_str()).collect();
    assert_eq!(location_names, vec!["app", "math", "std"]);
}

/// Dynamic indexing is deterministic: permuting the non-application modules
/// before the sort changes nothing in the image index.
#[test]
fn test_dynamic_indexing_is_deterministic() {
    let fixture = function_index_fixture();
    let locations = vec![dlm("app"), dlm("math"), dlm("std")];

    let one = {
        let modules = vec![fixture[0].clone(), fixture[1].clone(), fixture[2].clone()];
        let sorted = sort_modules_by_dependent_deepth(modules).unwrap();
        dynamic_link(&sorted, &locations).unwrap()
    };
    let other = {
        let modules = vec![fixture[0].clone(), fixture[2].clone(), fixture[1].clone()];
        let sorted = sort_modules_by_dependent_deepth(modules).unwrap();
        dynamic_link(&sorted, &locations).unwrap()
    };
    assert_eq!(one, other);
}

#[test]
fn test_build_index_function_not_exported() {
    let mut modules = function_index_fixture();
    modules[2].export_function_entries[0].visibility = Visibility::Private;
    let locations = vec![dlm("app"), dlm("math"), dlm("std")];
    let r = dynamic_link(&modules, &locations);
    assert!(matches!(
        r.unwrap_err().error_type,
        LinkErrorType::FunctionNotExported(n) if n == "std::add"
    ));
}

#[test]
fn test_build_index_function_not_found() {
    let mut modules = function_index_fixture();
    modules[2].export_function_entries[0].full_name = "std::plus".to_string();
    let locations = vec![dlm("app"), dlm("math"), dlm("std")];
    let r = dynamic_link(&modules, &locations);
    assert!(matches!(
        r.unwrap_err().error_type,
        LinkErrorType::FunctionNotFound(n) if n == "std::add"
    ));
}

#[test]
fn test_build_index_import_function_type_mismatch() {
    let mut modules = function_index_fixture();
    // the definition of std::add now takes one operand, not two
    modules[2].type_entries[0] = ty(vec![OperandDataType::I32], vec![OperandDataType::I32]);
    let locations = vec![dlm("app"), dlm("math"), dlm("std")];
    let r = dynamic_link(&modules, &locations);
    assert!(matches!(
        r.unwrap_err().error_type,
        LinkErrorType::ImportFunctionTypeMismatch(n) if n == "std::add"
    ));
}

#[test]
fn test_build_index_data_not_exported() {
    let mut modules = function_index_fixture();
    modules[2].uninit_data_entries = vec![UninitDataEntry {
        memory_data_type: MemoryDataType::I32,
        length: 4,
        align: 4,
    }];
    modules[2].export_data_entries = vec![ExportDataEntry {
        full_name: "std::errno".to_string(),
        visibility: Visibility::Private,
        section_type: DataSectionType::Uninit,
    }];
    modules[0].import_data_entries = vec![ImportDataEntry {
        full_name: "std::errno".to_string(),
        import_module_index: 1,
        data_section_type: DataSectionType::Uninit,
        memory_data_type: MemoryDataType::I32,
    }];
    let locations = vec![dlm("app"), dlm("math"), dlm("std")];
    let r = dynamic_link(&modules, &locations);
    assert!(matches!(
        r.unwrap_err().error_type,
        LinkErrorType::DataNotExported(n) if n == "std::errno"
    ));
}

/// External libraries and functions unify across modules by name and library,
/// with the types deduplicated.
#[test]
fn test_build_index_external_functions() {
    let t0 = ty(vec![OperandDataType::I32, OperandDataType::I32], vec![OperandDataType::I32]);
    let t1 = ty(vec![OperandDataType::I32], vec![OperandDataType::I32]);
    let t2 = ty(vec![OperandDataType::I32, OperandDataType::I32], vec![]);
    let t3 = ty(vec![OperandDataType::I32], vec![]);
    let t4 = ty(vec![], vec![OperandDataType::I32]);
    let t5 = ty(vec![], vec![]);
    let syslib = |name: &str| ExternalLibraryEntry {
        name: name.to_string(),
        value: ExternalLibraryDependency::System(name.to_string()),
    };
    let decl = |name: &str, libidx: usize, tyidx: usize| ExternalFunctionEntry {
        name: name.to_string(),
        external_library_index: libidx,
        type_index: tyidx,
    };

    let mut app = empty_module("app");
    app.import_module_entries = vec![dependency("math"), dependency("std")];
    app.type_entries = vec![t0.clone(), t1.clone(), t2.clone(), t3.clone()];
    app.external_library_entries = vec![syslib("foo"), syslib("bar"), syslib("hello")];
    app.external_function_entries = vec![
        decl("x", 2, 0),
        decl("b", 0, 1),
        decl("m", 1, 2),
        decl("y", 2, 3),
    ];

    let mut math = empty_module("math");
    math.import_module_entries = vec![dependency("std")];
    math.type_entries = vec![t2.clone(), t3.clone(), t0.clone(), t4.clone(), t5.clone()];
    math.external_library_entries = vec![syslib("bar"), syslib("foo"), syslib("world")];
    math.external_function_entries = vec![
        decl("m", 0, 0),
        decl("n", 0, 1),
        decl("a", 1, 2),
        decl("p", 2, 3),
        decl("q", 2, 4),
    ];

    let mut std_m = empty_module("std");
    std_m.type_entries = vec![t0.clone(), t1.clone()];
    std_m.external_library_entries = vec![syslib("foo")];
    std_m.external_function_entries = vec![decl("a", 0, 0), decl("b", 0, 1)];

    let modules = vec![app, math, std_m];
    let locations = vec![dlm("app"), dlm("math"), dlm("std")];
    let index = dynamic_link(&modules, &locations).unwrap();

    let lib_names: Vec<&str> =
        index.unified_external_library_entries.iter().map(|e| e.name.as_str()).collect();
    assert_eq!(lib_names, vec!["foo", "bar", "hello", "world"]);
    assert_eq!(
        index.unified_external_type_entries,
        vec![t0, t1, t2, t3, t4, t5]
    );
    assert_eq!(
        index.unified_external_function_entries,
        vec![
            decl("x", 2, 0),
            decl("b", 0, 1),
            decl("m", 1, 2),
            decl("y", 2, 3),
            decl("n", 1, 3),
            decl("a", 0, 0),
            decl("p", 3, 4),
            decl("q", 3, 5),
        ]
    );
    let idx_of = |m: usize| -> Vec<usize> {
        index.external_function_index_entries[m]
            .index_entries
            .iter()
            .map(|e| e.unified_external_function_index)
            .collect()
    };
    assert_eq!(idx_of(0), vec![0, 1, 2, 3]);
    assert_eq!(idx_of(1), vec![2, 4, 5, 6, 7]);
    assert_eq!(idx_of(2), vec![5, 1]);
}

/// The entry-point scan finds the default `_start`, the executable units and
/// the unit tests, each at its function public index.
#[test]
fn test_build_index_entry_points() {
    let mut hello = empty_module("hello");
    let exported = vec![
        "hello::_start",
        "hello::empty",
        "hello::app::foo::_start",
        "hello::app::foo::empty",
        "hello::app::bar::_start",
        "hello::app::bar::empty",
        "hello::tests::foo::test_a",
        "hello::tests::foo::test_b",
        "hello::tests::foo::empty",
        "hello::tests::bar::test_c",
        "hello::tests::bar::test_d",
        "hello::tests::bar::empty",
        "hello::tests::common::baz::test_e",
        "hello::tests::common::baz::test_f",
        "hello::tests::common::baz::empty",
    ];
    hello.export_function_entries = exported.iter().map(|n| public_fn(n)).collect();
    let entry_points = find_entry_points(&hello);
    let found: Vec<(&str, usize)> = entry_points
        .iter()
        .map(|e| (e.unit_name.as_str(), e.function_public_index))
        .collect();
    assert_eq!(
        found,
        vec![
            ("_start", 0),
            ("foo", 2),
            ("bar", 4),
            ("foo::test_a", 6),
            ("foo::test_b", 7),
            ("bar::test_c", 9),
            ("bar::test_d", 10),
            ("common::baz::test_e", 12),
            ("common::baz::test_f", 13),
        ]
    );
}

/// A richer link set: the second module resolves two function imports of its
/// own, and the application's data imports walk the sections read-only,
/// read-only, uninitialized, read-write, read-write.
#[test]
fn test_build_index_cross_module_functions_and_sections() {
    let mut modules = function_index_fixture();

    // math also imports std::add and std::sub
    let t_bin = ty(
        vec![OperandDataType::I32, OperandDataType::I32],
        vec![OperandDataType::I32],
    );
    modules[1].type_entries.push(t_bin.clone());
    modules[1].import_function_entries = vec![
        ImportFunctionEntry {
            full_name: "std::add".to_string(),
            import_module_index: 0,
            type_index: 1,
        },
        ImportFunctionEntry {
            full_name: "std::sub".to_string(),
            import_module_index: 0,
            type_index: 1,
        },
    ];

    // std carries data in all three sections and exports it
    let inited = |mt: MemoryDataType| InitedDataEntry {
        memory_data_type: mt,
        data: vec![0, 0, 0, 0],
        length: 4,
        align: 4,
    };
    modules[2].read_only_data_entries = vec![inited(MemoryDataType::I32), inited(MemoryDataType::I32)];
    modules[2].read_write_data_entries = vec![inited(MemoryDataType::I64), inited(MemoryDataType::I64)];
    modules[2].uninit_data_entries = vec![UninitDataEntry {
        memory_data_type: MemoryDataType::I32,
        length: 4,
        align: 4,
    }];
    let pub_data = |name: &str, sec: DataSectionType| ExportDataEntry {
        full_name: name.to_string(),
        visibility: Visibility::Public,
        section_type: sec,
    };
    modules[2].export_data_entries = vec![
        pub_data("std::ro_a", DataSectionType::ReadOnly),
        pub_data("std::ro_b", DataSectionType::ReadOnly),
        pub_data("std::rw_a", DataSectionType::ReadWrite),
        pub_data("std::rw_b", DataSectionType::ReadWrite),
        pub_data("std::errno", DataSectionType::Uninit),
    ];

    // the application imports all five, sections interleaved
    let imp_data = |name: &str, sec: DataSectionType, mt: MemoryDataType| ImportDataEntry {
        full_name: name.to_string(),
        import_module_index: 1,
        data_section_type: sec,
        memory_data_type: mt,
    };
    modules[0].import_data_entries = vec![
        imp_data("std::ro_a", DataSectionType::ReadOnly, MemoryDataType::I32),
        imp_data("std::ro_b", DataSectionType::ReadOnly, MemoryDataType::I32),
        imp_data("std::errno", DataSectionType::Uninit, MemoryDataType::I32),
        imp_data("std::rw_a", DataSectionType::ReadWrite, MemoryDataType::I64),
        imp_data("std::rw_b", DataSectionType::ReadWrite, MemoryDataType::I64),
    ];

    let locations = vec![dlm("std"), dlm("app"), dlm("math")];
    let index = dynamic_link(&modules, &locations).unwrap();

    // math's list: its two resolved imports, then its internal function
    assert_eq!(
        index.function_index_list_entries[1].index_entries,
        vec![
            FunctionIndexEntry { target_module_index: 2, function_internal_index: 0 },
            FunctionIndexEntry { target_module_index: 2, function_internal_index: 1 },
            FunctionIndexEntry { target_module_index: 1, function_internal_index: 0 },
        ]
    );
    // the application's data imports resolve to the named exports' positions
    // in std's export-data table, each carrying its section
    let de = |idx: usize, sec: DataSectionType| DataIndexEntry {
        target_module_index: 2,
        data_internal_index: idx,
        target_data_section_type: sec,
    };
    assert_eq!(
        index.data_index_list_entries[0].index_entries,
        vec![
            de(0, DataSectionType::ReadOnly),
            de(1, DataSectionType::ReadOnly),
            de(4, DataSectionType::Uninit),
            de(2, DataSectionType::ReadWrite),
            de(3, DataSectionType::ReadWrite),
        ]
    );
}

/// The old interface lists the dependencies of the deep graph in sorted
/// order, the self-reference first.
#[test]
fn test_sort_modules_lists_dependencies_of_deep_graph() {
    let modules = vec![
        module_with_deps("a", &["b", "c", "d", "e"]),
        module_with_deps("b", &["j"]),
        module_with_deps("c", &["g"]),
        module_with_deps("d", &["g", "h"]),
        module_with_deps("e", &["f"]),
        module_with_deps("f", &["d"]),
        module_with_deps("g", &["j"]),
        module_with_deps("h", &["i"]),
        module_with_deps("i", &["j"]),
        module_with_deps("j", &[]),
    ];
    let (sorted, deps) = sort_modules(modules).unwrap();
    assert_eq!(names(&sorted), "a,b,c,e,f,d,g,h,i,j");
    assert_eq!(deps.len(), 10);
    assert_eq!(deps[0].name, "module");
    assert!(matches!(deps[0].module_dependency, ModuleDependency::Module));
    let dep_names: Vec<&str> = deps[1..].iter().map(|d| d.name.as_str()).collect();
    assert_eq!(dep_names, vec!["b", "c", "e", "f", "d", "g", "h", "i", "j"]);
    for d in &deps[1..] {
        assert!(matches!(d.module_dependency, ModuleDependency::Runtime));
    }
}

