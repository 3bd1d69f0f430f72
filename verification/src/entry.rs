//! The entry model: the plain value records that flow through the linker.
//!
//! An object unit and a linked module are both an [`ImageCommonEntry`]; the
//! dynamic phase emits an [`ImageIndexEntry`].  Identity of functions and data
//! is by full name, a `::`-delimited path string.
//!
//! Several records hold `String` or `Vec` fields, so their equality in
//! contracts is stated by the `*_deq` spec functions below ("deep equality"):
//! two records are deeply equal when all their scalar fields agree and all
//! their text and byte fields agree character by character.  The executable
//! `*_matches` functions decide deep equality and the `copy_*` functions
//! produce deeply equal copies.

use vstd::prelude::*;
use vstd::string::StrSliceExecFns;

verus! {

// ---------------------------------------------------------------------------
// scalar enumerations
// ---------------------------------------------------------------------------

/// The data type of one operand of a function type.
#[derive(Debug, Clone, Copy, PartialEq, Eq, Structural)]
pub enum OperandDataType {
    I32,
    I64,
    F32,
    F64,
}

/// The data type of one datum or local variable in memory.
#[derive(Debug, Clone, Copy, PartialEq, Eq, Structural)]
pub enum MemoryDataType {
    I32,
    I64,
    F32,
    F64,
    Bytes,
}

/// The three data sections of a module, in their fixed order.
#[derive(Debug, Clone, Copy, PartialEq, Eq, Structural)]
pub enum DataSectionType {
    ReadOnly,
    ReadWrite,
    Uninit,
}

/// Whether an exported item may be referenced from other modules.
#[derive(Debug, Clone, Copy, PartialEq, Eq, Structural)]
pub enum Visibility {
    Public,
    Private,
}

/// The kind of an image: a single assembled unit, or a fully linked module.
#[derive(Debug, Clone, Copy, PartialEq, Eq, Structural)]
pub enum ImageType {
    ObjectFile,
    SharedModule,
}

/// Which remap table a relocated bytecode slot is an index into.
#[derive(Debug, Clone, Copy, PartialEq, Eq, Structural)]
pub enum RelocateType {
    TypeIndex,
    LocalVariableListIndex,
    FunctionPublicIndex,
    ExternalFunctionIndex,
    DataPublicIndex,
}

// ---------------------------------------------------------------------------
// dependencies
// ---------------------------------------------------------------------------

/// A remote file-based dependency: a repository URL pinned to one revision.
#[derive(Debug, Clone, PartialEq)]
pub struct DependencyRemote {
    pub url: String,
    pub revision: String,
}

/// A named parameter handed to a shared dependency.
#[derive(Debug, Clone, PartialEq)]
pub struct DependencyParameter {
    pub name: String,
    pub value: String,
}

/// The condition under which a shared dependency is brought in.
#[derive(Debug, Clone, PartialEq)]
pub enum DependencyCondition {
    True,
    False,
    IsTrue(String),
}

/// A shared (registry) dependency: a version string plus its condition and
/// parameters.
#[derive(Debug, Clone, PartialEq)]
pub struct DependencyShare {
    pub version: String,
    pub condition: DependencyCondition,
    pub parameters: Vec<DependencyParameter>,
}

/// Where an imported module comes from.  `Module` is the canonical
/// self-reference: every unit uses it to denote "this module".
#[derive(Debug, Clone, PartialEq)]
pub enum ModuleDependency {
    Local(String),
    Remote(DependencyRemote),
    Share(DependencyShare),
    Runtime,
    Module,
}

/// Where an external C-ABI library comes from.
#[derive(Debug, Clone, PartialEq)]
pub enum ExternalLibraryDependency {
    Local(String),
    Remote(DependencyRemote),
    Share(DependencyShare),
    Runtime,
    System(String),
}

/// Where the loader fetches a module of an application image.
#[derive(Debug, Clone, PartialEq)]
pub enum ModuleLocation {
    Embed,
    Local(String),
    Remote(DependencyRemote),
    Runtime,
}

// ---------------------------------------------------------------------------
// table entries
// ---------------------------------------------------------------------------

/// A function type: ordered parameter and result operand types.  Equality is
/// structural on both sequences.
#[derive(Debug, Clone, PartialEq)]
pub struct TypeEntry {
    pub params: Vec<OperandDataType>,
    pub results: Vec<OperandDataType>,
}

/// One local variable: its scalar type plus size and alignment.
#[derive(Debug, Clone, Copy, PartialEq, Eq, Structural)]
pub struct LocalVariableEntry {
    pub memory_data_type: MemoryDataType,
    pub length: u32,
    pub align: u16,
}

/// The ordered local variables of one function or block frame.
#[derive(Debug, Clone, PartialEq)]
pub struct LocalVariableListEntry {
    pub local_variable_entries: Vec<LocalVariableEntry>,
}

/// One function: its type index, its local-variable-list index and its
/// bytecode, opaque to the linker except for the relocated slots.
#[derive(Debug, Clone, PartialEq)]
pub struct FunctionEntry {
    pub type_index: usize,
    pub local_variable_list_index: usize,
    pub code: Vec<u8>,
}

/// One initialized datum: payload bytes plus memory type, size and alignment.
#[derive(Debug, Clone, PartialEq)]
pub struct InitedDataEntry {
    pub memory_data_type: MemoryDataType,
    pub data: Vec<u8>,
    pub length: u32,
    pub align: u16,
}

/// One uninitialized datum: memory type, size and alignment, no payload.
#[derive(Debug, Clone, Copy, PartialEq, Eq, Structural)]
pub struct UninitDataEntry {
    pub memory_data_type: MemoryDataType,
    pub length: u32,
    pub align: u16,
}

/// One imported module: its name and where it comes from.  Two entries are
/// identical exactly when their dependency values are componentwise equal.
#[derive(Debug, Clone, PartialEq)]
pub struct ImportModuleEntry {
    pub name: String,
    pub module_dependency: ModuleDependency,
}

/// One imported function: its full name, the index of the module it is
/// imported from, and its declared type index.
#[derive(Debug, Clone, PartialEq)]
pub struct ImportFunctionEntry {
    pub full_name: String,
    pub import_module_index: usize,
    pub type_index: usize,
}

/// One imported datum: its full name, source module index, declared section
/// and declared memory type.
#[derive(Debug, Clone, PartialEq)]
pub struct ImportDataEntry {
    pub full_name: String,
    pub import_module_index: usize,
    pub data_section_type: DataSectionType,
    pub memory_data_type: MemoryDataType,
}

/// One internal function's name record, parallel to the function table.
#[derive(Debug, Clone, PartialEq)]
pub struct ExportFunctionEntry {
    pub full_name: String,
    pub visibility: Visibility,
}

/// One internal datum's name record, parallel to the stratified data tables.
#[derive(Debug, Clone, PartialEq)]
pub struct ExportDataEntry {
    pub full_name: String,
    pub visibility: Visibility,
    pub section_type: DataSectionType,
}

/// One external library: its name and where it comes from.
#[derive(Debug, Clone, PartialEq)]
pub struct ExternalLibraryEntry {
    pub name: String,
    pub value: ExternalLibraryDependency,
}

/// One external C-ABI function: its name, its library index and its type
/// index.
#[derive(Debug, Clone, PartialEq)]
pub struct ExternalFunctionEntry {
    pub name: String,
    pub external_library_index: usize,
    pub type_index: usize,
}

/// One relocation: the byte offset of a 4-byte little-endian slot inside a
/// function's bytecode, and which remap table its value is an index into.
#[derive(Debug, Clone, Copy, PartialEq, Eq, Structural)]
pub struct RelocateEntry {
    pub code_offset: usize,
    pub relocate_type: RelocateType,
}

/// The relocations of one function, parallel to the function table.
#[derive(Debug, Clone, PartialEq)]
pub struct RelocateListEntry {
    pub relocate_entries: Vec<RelocateEntry>,
}

/// A version of three 16-bit decimal fields.
#[derive(Debug, Clone, Copy, PartialEq, Eq, Structural)]
pub struct EffectiveVersion {
    pub major: u16,
    pub minor: u16,
    pub patch: u16,
}

/// An object unit or a linked module: its identity plus all its tables.
#[derive(Debug, Clone, PartialEq)]
pub struct ImageCommonEntry {
    pub name: String,
    pub version: EffectiveVersion,
    pub image_type: ImageType,
    pub import_module_entries: Vec<ImportModuleEntry>,
    pub import_function_entries: Vec<ImportFunctionEntry>,
    pub import_data_entries: Vec<ImportDataEntry>,
    pub type_entries: Vec<TypeEntry>,
    pub local_variable_list_entries: Vec<LocalVariableListEntry>,
    pub function_entries: Vec<FunctionEntry>,
    pub read_only_data_entries: Vec<InitedDataEntry>,
    pub read_write_data_entries: Vec<InitedDataEntry>,
    pub uninit_data_entries: Vec<UninitDataEntry>,
    pub export_function_entries: Vec<ExportFunctionEntry>,
    pub export_data_entries: Vec<ExportDataEntry>,
    pub relocate_list_entries: Vec<RelocateListEntry>,
    pub external_library_entries: Vec<ExternalLibraryEntry>,
    pub external_function_entries: Vec<ExternalFunctionEntry>,
}

/// One module of an application image: its name and where the loader finds
/// it.
#[derive(Debug, Clone, PartialEq)]
pub struct DynamicLinkModuleEntry {
    pub name: String,
    pub module_location: ModuleLocation,
}

/// Where one function public index of a module resolves to.
#[derive(Debug, Clone, Copy, PartialEq, Eq, Structural)]
pub struct FunctionIndexEntry {
    pub target_module_index: usize,
    pub function_internal_index: usize,
}

/// The resolved function public index space of one module.
#[derive(Debug, Clone, PartialEq)]
pub struct FunctionIndexListEntry {
    pub index_entries: Vec<FunctionIndexEntry>,
}

/// Where one data public index of a module resolves to.
#[derive(Debug, Clone, Copy, PartialEq, Eq, Structural)]
pub struct DataIndexEntry {
    pub target_module_index: usize,
    pub data_internal_index: usize,
    pub target_data_section_type: DataSectionType,
}

/// The resolved data public index space of one module.
#[derive(Debug, Clone, PartialEq)]
pub struct DataIndexListEntry {
    pub index_entries: Vec<DataIndexEntry>,
}

/// One entry point of the application: its unit name and the function public
/// index it starts at.
#[derive(Debug, Clone, PartialEq)]
pub struct EntryPointEntry {
    pub unit_name: String,
    pub function_public_index: usize,
}

/// Where one internal external-function index of a module resolves to in the
/// unified external-function table.
#[derive(Debug, Clone, Copy, PartialEq, Eq, Structural)]
pub struct ExternalFunctionIndexEntry {
    pub unified_external_function_index: usize,
}

/// The external-function index space of one module.
#[derive(Debug, Clone, PartialEq)]
pub struct ExternalFunctionIndexListEntry {
    pub index_entries: Vec<ExternalFunctionIndexEntry>,
}

/// The output of the dynamic phase: everything the loader needs to wire an
/// application together with its dependencies.
#[derive(Debug, Clone, PartialEq)]
pub struct ImageIndexEntry {
    pub function_index_list_entries: Vec<FunctionIndexListEntry>,
    pub entry_point_entries: Vec<EntryPointEntry>,
    pub data_index_list_entries: Vec<DataIndexListEntry>,
    pub unified_external_library_entries: Vec<ExternalLibraryEntry>,
    pub unified_external_type_entries: Vec<TypeEntry>,
    pub unified_external_function_entries: Vec<ExternalFunctionEntry>,
    pub external_function_index_entries: Vec<ExternalFunctionIndexListEntry>,
    pub dynamic_link_module_entries: Vec<DynamicLinkModuleEntry>,
}

// ---------------------------------------------------------------------------
// deep equality
// ---------------------------------------------------------------------------

/// Lifts a relation elementwise to two sequences of equal length.
pub open spec fn seq_all2<T>(a: Seq<T>, b: Seq<T>, f: spec_fn(T, T) -> bool) -> bool {
    &&& a.len() == b.len()
    &&& forall|i: int| 0 <= i < a.len() ==> #[trigger] f(a[i], b[i])
}

pub open spec fn remote_deq(a: DependencyRemote, b: DependencyRemote) -> bool {
    a.url@ == b.url@ && a.revision@ == b.revision@
}

pub open spec fn parameter_deq(a: DependencyParameter, b: DependencyParameter) -> bool {
    a.name@ == b.name@ && a.value@ == b.value@
}

pub open spec fn condition_deq(a: DependencyCondition, b: DependencyCondition) -> bool {
    match (a, b) {
        (DependencyCondition::True, DependencyCondition::True) => true,
        (DependencyCondition::False, DependencyCondition::False) => true,
        (DependencyCondition::IsTrue(x), DependencyCondition::IsTrue(y)) => x@ == y@,
        _ => false,
    }
}

pub open spec fn share_deq(a: DependencyShare, b: DependencyShare) -> bool {
    &&& a.version@ == b.version@
    &&& condition_deq(a.condition, b.condition)
    &&& seq_all2(
        a.parameters@,
        b.parameters@,
        |x: DependencyParameter, y: DependencyParameter| parameter_deq(x, y),
    )
}

pub open spec fn module_dependency_deq(a: ModuleDependency, b: ModuleDependency) -> bool {
    match (a, b) {
        (ModuleDependency::Local(x), ModuleDependency::Local(y)) => x@ == y@,
        (ModuleDependency::Remote(x), ModuleDependency::Remote(y)) => remote_deq(x, y),
        (ModuleDependency::Share(x), ModuleDependency::Share(y)) => share_deq(x, y),
        (ModuleDependency::Runtime, ModuleDependency::Runtime) => true,
        (ModuleDependency::Module, ModuleDependency::Module) => true,
        _ => false,
    }
}

pub open spec fn external_dependency_deq(
    a: ExternalLibraryDependency,
    b: ExternalLibraryDependency,
) -> bool {
    match (a, b) {
        (ExternalLibraryDependency::Local(x), ExternalLibraryDependency::Local(y)) => x@ == y@,
        (ExternalLibraryDependency::Remote(x), ExternalLibraryDependency::Remote(y)) => remote_deq(
            x,
            y,
        ),
        (ExternalLibraryDependency::Share(x), ExternalLibraryDependency::Share(y)) => share_deq(
            x,
            y,
        ),
        (ExternalLibraryDependency::Runtime, ExternalLibraryDependency::Runtime) => true,
        (ExternalLibraryDependency::System(x), ExternalLibraryDependency::System(y)) => x@ == y@,
        _ => false,
    }
}

pub open spec fn module_location_deq(a: ModuleLocation, b: ModuleLocation) -> bool {
    match (a, b) {
        (ModuleLocation::Embed, ModuleLocation::Embed) => true,
        (ModuleLocation::Local(x), ModuleLocation::Local(y)) => x@ == y@,
        (ModuleLocation::Remote(x), ModuleLocation::Remote(y)) => remote_deq(x, y),
        (ModuleLocation::Runtime, ModuleLocation::Runtime) => true,
        _ => false,
    }
}

pub open spec fn type_entry_deq(a: TypeEntry, b: TypeEntry) -> bool {
    a.params@ == b.params@ && a.results@ == b.results@
}

pub open spec fn local_list_deq(a: LocalVariableListEntry, b: LocalVariableListEntry) -> bool {
    a.local_variable_entries@ == b.local_variable_entries@
}

pub open spec fn function_entry_deq(a: FunctionEntry, b: FunctionEntry) -> bool {
    &&& a.type_index == b.type_index
    &&& a.local_variable_list_index == b.local_variable_list_index
    &&& a.code@ == b.code@
}

pub open spec fn inited_data_deq(a: InitedDataEntry, b: InitedDataEntry) -> bool {
    &&& a.memory_data_type == b.memory_data_type
    &&& a.data@ == b.data@
    &&& a.length == b.length
    &&& a.align == b.align
}

pub open spec fn import_module_deq(a: ImportModuleEntry, b: ImportModuleEntry) -> bool {
    a.name@ == b.name@ && module_dependency_deq(a.module_dependency, b.module_dependency)
}

pub open spec fn import_function_deq(a: ImportFunctionEntry, b: ImportFunctionEntry) -> bool {
    &&& a.full_name@ == b.full_name@
    &&& a.import_module_index == b.import_module_index
    &&& a.type_index == b.type_index
}

pub open spec fn import_data_deq(a: ImportDataEntry, b: ImportDataEntry) -> bool {
    &&& a.full_name@ == b.full_name@
    &&& a.import_module_index == b.import_module_index
    &&& a.data_section_type == b.data_section_type
    &&& a.memory_data_type == b.memory_data_type
}

pub open spec fn export_function_deq(a: ExportFunctionEntry, b: ExportFunctionEntry) -> bool {
    a.full_name@ == b.full_name@ && a.visibility == b.visibility
}

pub open spec fn export_data_deq(a: ExportDataEntry, b: ExportDataEntry) -> bool {
    &&& a.full_name@ == b.full_name@
    &&& a.visibility == b.visibility
    &&& a.section_type == b.section_type
}

pub open spec fn external_library_deq(a: ExternalLibraryEntry, b: ExternalLibraryEntry) -> bool {
    a.name@ == b.name@ && external_dependency_deq(a.value, b.value)
}

pub open spec fn external_function_deq(a: ExternalFunctionEntry, b: ExternalFunctionEntry) -> bool {
    &&& a.name@ == b.name@
    &&& a.external_library_index == b.external_library_index
    &&& a.type_index == b.type_index
}

pub open spec fn relocate_list_deq(a: RelocateListEntry, b: RelocateListEntry) -> bool {
    a.relocate_entries@ == b.relocate_entries@
}

pub open spec fn dynamic_link_module_deq(
    a: DynamicLinkModuleEntry,
    b: DynamicLinkModuleEntry,
) -> bool {
    a.name@ == b.name@ && module_location_deq(a.module_location, b.module_location)
}

pub open spec fn entry_point_deq(a: EntryPointEntry, b: EntryPointEntry) -> bool {
    a.unit_name@ == b.unit_name@ && a.function_public_index == b.function_public_index
}

// ---------------------------------------------------------------------------
// the self-reference import-module entry
// ---------------------------------------------------------------------------

/// The reserved name of the self-reference import-module entry.
pub open spec fn self_reference_name() -> Seq<char> {
    "module"@
}

/// Holds of the canonical entry a unit uses to denote "this module".
pub open spec fn is_self_reference(e: ImportModuleEntry) -> bool {
    e.name@ == self_reference_name() && e.module_dependency is Module
}

impl ImportModuleEntry {
    pub fn new(name: String, module_dependency: ModuleDependency) -> (r: Self)
        ensures
            r.name == name,
            r.module_dependency == module_dependency,
    {
        Self { name, module_dependency }
    }

    /// The canonical self-reference entry: the name `module` with the
    /// `Module` dependency.
    pub fn self_reference_entry() -> (r: Self)
        ensures
            is_self_reference(r),
    {
        Self { name: "module".to_owned(), module_dependency: ModuleDependency::Module }
    }
}

/// Decides whether an entry is the canonical self-reference.
pub fn is_self_reference_entry(e: &ImportModuleEntry) -> (r: bool)
    ensures
        r == is_self_reference(*e),
{
    let dep_is_module = matches!(&e.module_dependency, ModuleDependency::Module);
    if !dep_is_module {
        return false;
    }
    proof {
        reveal_strlit("module");
    }
    let s = e.name.as_str();
    if s.unicode_len() != 6 {
        return false;
    }
    let r = s.get_char(0) == 'm' && s.get_char(1) == 'o' && s.get_char(2) == 'd' && s.get_char(3)
        == 'u' && s.get_char(4) == 'l' && s.get_char(5) == 'e';
    proof {
        if r {
            assert(e.name@ =~= "module"@);
        }
    }
    r
}

// ---------------------------------------------------------------------------
// executable equality
// ---------------------------------------------------------------------------

/// Decides view equality of two strings.
pub fn string_matches(a: &String, b: &String) -> (r: bool)
    ensures
        r == (a@ == b@),
{
    a.eq(b)
}

/// Decides equality of two operand-type sequences.
pub fn operand_vec_matches(a: &Vec<OperandDataType>, b: &Vec<OperandDataType>) -> (r: bool)
    ensures
        r == (a@ == b@),
{
    if a.len() != b.len() {
        return false;
    }
    let mut i: usize = 0;
    while i < a.len()
        invariant
            i <= a.len(),
            a.len() == b.len(),
            forall|k: int| 0 <= k < i ==> a@[k] == b@[k],
        decreases a.len() - i,
    {
        if a[i] != b[i] {
            return false;
        }
        i += 1;
    }
    proof {
        assert(a@ =~= b@);
    }
    true
}

/// Decides equality of two local-variable sequences.
pub fn local_variable_vec_matches(
    a: &Vec<LocalVariableEntry>,
    b: &Vec<LocalVariableEntry>,
) -> (r: bool)
    ensures
        r == (a@ == b@),
{
    if a.len() != b.len() {
        return false;
    }
    let mut i: usize = 0;
    while i < a.len()
        invariant
            i <= a.len(),
            a.len() == b.len(),
            forall|k: int| 0 <= k < i ==> a@[k] == b@[k],
        decreases a.len() - i,
    {
        if a[i] != b[i] {
            return false;
        }
        i += 1;
    }
    proof {
        assert(a@ =~= b@);
    }
    true
}

/// Decides deep equality of two function types.
pub fn type_entry_matches(a: &TypeEntry, b: &TypeEntry) -> (r: bool)
    ensures
        r == type_entry_deq(*a, *b),
{
    operand_vec_matches(&a.params, &b.params) && operand_vec_matches(&a.results, &b.results)
}

/// Decides deep equality of two local-variable lists.
pub fn local_list_matches(a: &LocalVariableListEntry, b: &LocalVariableListEntry) -> (r: bool)
    ensures
        r == local_list_deq(*a, *b),
{
    local_variable_vec_matches(&a.local_variable_entries, &b.local_variable_entries)
}

/// Decides deep equality of two remote sources.
pub fn remote_matches(a: &DependencyRemote, b: &DependencyRemote) -> (r: bool)
    ensures
        r == remote_deq(*a, *b),
{
    string_matches(&a.url, &b.url) && string_matches(&a.revision, &b.revision)
}

/// Decides deep equality of two dependency conditions.
pub fn condition_matches(a: &DependencyCondition, b: &DependencyCondition) -> (r: bool)
    ensures
        r == condition_deq(*a, *b),
{
    match (a, b) {
        (DependencyCondition::True, DependencyCondition::True) => true,
        (DependencyCondition::False, DependencyCondition::False) => true,
        (DependencyCondition::IsTrue(x), DependencyCondition::IsTrue(y)) => string_matches(x, y),
        _ => false,
    }
}

/// Decides deep equality of two parameter lists.
pub fn parameters_match(a: &Vec<DependencyParameter>, b: &Vec<DependencyParameter>) -> (r: bool)
    ensures
        r == seq_all2(
            a@,
            b@,
            |x: DependencyParameter, y: DependencyParameter| parameter_deq(x, y),
        ),
{
    let ghost f = |x: DependencyParameter, y: DependencyParameter| parameter_deq(x, y);
    if a.len() != b.len() {
        return false;
    }
    let mut i: usize = 0;
    while i < a.len()
        invariant
            i <= a.len(),
            a.len() == b.len(),
            f == (|x: DependencyParameter, y: DependencyParameter| parameter_deq(x, y)),
            forall|k: int| 0 <= k < i ==> #[trigger] f(a@[k], b@[k]),
        decreases a.len() - i,
    {
        let ok = string_matches(&a[i].name, &b[i].name) && string_matches(&a[i].value, &b[i].value);
        if !ok {
            proof {
                assert(!f(a@[i as int], b@[i as int]));
            }
            return false;
        }
        proof {
            assert(f(a@[i as int], b@[i as int]));
        }
        i += 1;
    }
    true
}

/// Decides deep equality of two shared dependencies.
pub fn share_matches(a: &DependencyShare, b: &DependencyShare) -> (r: bool)
    ensures
        r == share_deq(*a, *b),
{
    string_matches(&a.version, &b.version) && condition_matches(&a.condition, &b.condition)
        && parameters_match(&a.parameters, &b.parameters)
}

/// Decides deep equality of two module dependencies: this is the "identical"
/// test of the import-module merge.
pub fn module_dependency_matches(a: &ModuleDependency, b: &ModuleDependency) -> (r: bool)
    ensures
        r == module_dependency_deq(*a, *b),
{
    match (a, b) {
        (ModuleDependency::Local(x), ModuleDependency::Local(y)) => string_matches(x, y),
        (ModuleDependency::Remote(x), ModuleDependency::Remote(y)) => remote_matches(x, y),
        (ModuleDependency::Share(x), ModuleDependency::Share(y)) => share_matches(x, y),
        (ModuleDependency::Runtime, ModuleDependency::Runtime) => true,
        (ModuleDependency::Module, ModuleDependency::Module) => true,
        _ => false,
    }
}

/// Decides deep equality of two external-library dependencies.
pub fn external_dependency_matches(
    a: &ExternalLibraryDependency,
    b: &ExternalLibraryDependency,
) -> (r: bool)
    ensures
        r == external_dependency_deq(*a, *b),
{
    match (a, b) {
        (ExternalLibraryDependency::Local(x), ExternalLibraryDependency::Local(y)) => string_matches(
            x,
            y,
        ),
        (ExternalLibraryDependency::Remote(x), ExternalLibraryDependency::Remote(y)) => remote_matches(
            x,
            y,
        ),
        (ExternalLibraryDependency::Share(x), ExternalLibraryDependency::Share(y)) => share_matches(
            x,
            y,
        ),
        (ExternalLibraryDependency::Runtime, ExternalLibraryDependency::Runtime) => true,
        (ExternalLibraryDependency::System(x), ExternalLibraryDependency::System(y)) => string_matches(
            x,
            y,
        ),
        _ => false,
    }
}

// ---------------------------------------------------------------------------
// copies
// ---------------------------------------------------------------------------

/// Copies a vector of scalar values.
pub fn copy_scalar_vec<T: Copy>(v: &Vec<T>) -> (r: Vec<T>)
    ensures
        r@ == v@,
{
    let mut r: Vec<T> = Vec::new();
    let mut i: usize = 0;
    while i < v.len()
        invariant
            i <= v.len(),
            r@ == v@.take(i as int),
        decreases v.len() - i,
    {
        r.push(v[i]);
        proof {
            assert(r@ =~= v@.take(i as int + 1));
        }
        i += 1;
    }
    proof {
        assert(v@.take(v@.len() as int) =~= v@);
    }
    r
}

/// Copies a string.
pub fn copy_string(s: &String) -> (r: String)
    ensures
        r@ == s@,
{
    s.clone()
}

pub fn copy_type_entry(e: &TypeEntry) -> (r: TypeEntry)
    ensures
        type_entry_deq(r, *e),
{
    TypeEntry { params: copy_scalar_vec(&e.params), results: copy_scalar_vec(&e.results) }
}

pub fn copy_local_list_entry(e: &LocalVariableListEntry) -> (r: LocalVariableListEntry)
    ensures
        local_list_deq(r, *e),
{
    LocalVariableListEntry { local_variable_entries: copy_scalar_vec(&e.local_variable_entries) }
}

pub fn copy_inited_data_entry(e: &InitedDataEntry) -> (r: InitedDataEntry)
    ensures
        inited_data_deq(r, *e),
{
    InitedDataEntry {
        memory_data_type: e.memory_data_type,
        data: copy_scalar_vec(&e.data),
        length: e.length,
        align: e.align,
    }
}

pub fn copy_remote(d: &DependencyRemote) -> (r: DependencyRemote)
    ensures
        remote_deq(r, *d),
{
    DependencyRemote { url: copy_string(&d.url), revision: copy_string(&d.revision) }
}

pub fn copy_condition(d: &DependencyCondition) -> (r: DependencyCondition)
    ensures
        condition_deq(r, *d),
{
    match d {
        DependencyCondition::True => DependencyCondition::True,
        DependencyCondition::False => DependencyCondition::False,
        DependencyCondition::IsTrue(x) => DependencyCondition::IsTrue(copy_string(x)),
    }
}

pub fn copy_parameters(v: &Vec<DependencyParameter>) -> (r: Vec<DependencyParameter>)
    ensures
        seq_all2(r@, v@, |x: DependencyParameter, y: DependencyParameter| parameter_deq(x, y)),
{
    let ghost f = |x: DependencyParameter, y: DependencyParameter| parameter_deq(x, y);
    let mut r: Vec<DependencyParameter> = Vec::new();
    let mut i: usize = 0;
    while i < v.len()
        invariant
            i <= v.len(),
            r.len() == i,
            f == (|x: DependencyParameter, y: DependencyParameter| parameter_deq(x, y)),
            forall|k: int| 0 <= k < i ==> #[trigger] f(r@[k], v@[k]),
        decreases v.len() - i,
    {
        let p = DependencyParameter {
            name: copy_string(&v[i].name),
            value: copy_string(&v[i].value),
        };
        proof {
            assert(f(p, v@[i as int]));
        }
        r.push(p);
        i += 1;
    }
    r
}

pub fn copy_share(d: &DependencyShare) -> (r: DependencyShare)
    ensures
        share_deq(r, *d),
{
    DependencyShare {
        version: copy_string(&d.version),
        condition: copy_condition(&d.condition),
        parameters: copy_parameters(&d.parameters),
    }
}

pub fn copy_module_dependency(d: &ModuleDependency) -> (r: ModuleDependency)
    ensures
        module_dependency_deq(r, *d),
{
    match d {
        ModuleDependency::Local(x) => ModuleDependency::Local(copy_string(x)),
        ModuleDependency::Remote(x) => ModuleDependency::Remote(copy_remote(x)),
        ModuleDependency::Share(x) => ModuleDependency::Share(copy_share(x)),
        ModuleDependency::Runtime => ModuleDependency::Runtime,
        ModuleDependency::Module => ModuleDependency::Module,
    }
}

pub fn copy_external_dependency(d: &ExternalLibraryDependency) -> (r: ExternalLibraryDependency)
    ensures
        external_dependency_deq(r, *d),
{
    match d {
        ExternalLibraryDependency::Local(x) => ExternalLibraryDependency::Local(copy_string(x)),
        ExternalLibraryDependency::Remote(x) => ExternalLibraryDependency::Remote(copy_remote(x)),
        ExternalLibraryDependency::Share(x) => ExternalLibraryDependency::Share(copy_share(x)),
        ExternalLibraryDependency::Runtime => ExternalLibraryDependency::Runtime,
        ExternalLibraryDependency::System(x) => ExternalLibraryDependency::System(copy_string(x)),
    }
}

pub fn copy_module_location(d: &ModuleLocation) -> (r: ModuleLocation)
    ensures
        module_location_deq(r, *d),
{
    match d {
        ModuleLocation::Embed => ModuleLocation::Embed,
        ModuleLocation::Local(x) => ModuleLocation::Local(copy_string(x)),
        ModuleLocation::Remote(x) => ModuleLocation::Remote(copy_remote(x)),
        ModuleLocation::Runtime => ModuleLocation::Runtime,
    }
}

pub fn copy_import_module_entry(e: &ImportModuleEntry) -> (r: ImportModuleEntry)
    ensures
        import_module_deq(r, *e),
{
    ImportModuleEntry {
        name: copy_string(&e.name),
        module_dependency: copy_module_dependency(&e.module_dependency),
    }
}

pub fn copy_export_data_entry(e: &ExportDataEntry) -> (r: ExportDataEntry)
    ensures
        export_data_deq(r, *e),
{
    ExportDataEntry {
        full_name: copy_string(&e.full_name),
        visibility: e.visibility,
        section_type: e.section_type,
    }
}

pub fn copy_external_library_entry(e: &ExternalLibraryEntry) -> (r: ExternalLibraryEntry)
    ensures
        external_library_deq(r, *e),
{
    ExternalLibraryEntry {
        name: copy_string(&e.name),
        value: copy_external_dependency(&e.value),
    }
}

pub fn copy_external_function_entry(e: &ExternalFunctionEntry) -> (r: ExternalFunctionEntry)
    ensures
        external_function_deq(r, *e),
{
    ExternalFunctionEntry {
        name: copy_string(&e.name),
        external_library_index: e.external_library_index,
        type_index: e.type_index,
    }
}

pub fn copy_relocate_list_entry(e: &RelocateListEntry) -> (r: RelocateListEntry)
    ensures
        relocate_list_deq(r, *e),
{
    RelocateListEntry { relocate_entries: copy_scalar_vec(&e.relocate_entries) }
}

pub fn copy_dynamic_link_module_entry(e: &DynamicLinkModuleEntry) -> (r: DynamicLinkModuleEntry)
    ensures
        dynamic_link_module_deq(r, *e),
{
    DynamicLinkModuleEntry {
        name: copy_string(&e.name),
        module_location: copy_module_location(&e.module_location),
    }
}

} // verus!
