//! Table mergers: deduplicate and merge the parallel tables of several
//! compilation units, returning the merged table plus one remap vector per
//! source unit, and the version comparator that reconciles shared
//! dependencies.

use vstd::prelude::*;

use crate::entry::import_function_deq;
use crate::entry::DependencyShare;
use crate::entry::{
    copy_export_data_entry, copy_external_library_entry, copy_import_module_entry,
    copy_local_list_entry, copy_string, copy_type_entry, export_data_deq, external_dependency_deq,
    external_dependency_matches, external_library_deq, import_module_deq, local_list_deq,
    module_dependency_deq, module_dependency_matches, string_matches, type_entry_deq,
    type_entry_matches, DataSectionType, ExportDataEntry, ExportFunctionEntry,
    ExternalFunctionEntry, ExternalLibraryDependency, ExternalLibraryEntry, ImportDataEntry,
    ImportFunctionEntry, ImportModuleEntry, LocalVariableListEntry, ModuleDependency, TypeEntry,
};
use crate::entry::{
    copy_inited_data_entry, copy_relocate_list_entry, copy_scalar_vec, inited_data_deq,
    local_list_matches, relocate_list_deq, FunctionEntry, InitedDataEntry, RelocateEntry,
    RelocateListEntry, RelocateType, UninitDataEntry,
};
use crate::{LinkErrorType, LinkerError};
use vstd::string::StrSliceExecFns;

verus! {

// ---------------------------------------------------------------------------
// version strings
// ---------------------------------------------------------------------------

/// How two version strings of shared dependencies relate.
#[derive(Debug, Clone, Copy, PartialEq, Eq, Structural)]
pub enum VersionCompareResult {
    Equals,
    GreaterThan,
    LessThan,
    /// The versions cannot coexist: the majors differ, or the majors are zero
    /// and the minors differ.
    Different,
}

pub open spec fn is_digit(c: char) -> bool {
    48 <= c as u32 <= 57
}

pub open spec fn digit_val(c: char) -> int {
    c as u32 - 48
}

/// The value of a decimal digit run, read left to right.
pub open spec fn digits_val(s: Seq<char>) -> int
    decreases s.len(),
{
    if s.len() == 0 {
        0
    } else {
        digits_val(s.drop_last()) * 10 + digit_val(s.last())
    }
}

/// The index of the first `.` of `s`, or `-1` when there is none.
pub open spec fn first_dot(s: Seq<char>) -> int
    decreases s.len(),
{
    if s.len() == 0 {
        -1
    } else if s[0] == '.' {
        0
    } else {
        let r = first_dot(s.subrange(1, s.len() as int));
        if r < 0 {
            -1
        } else {
            r + 1
        }
    }
}

proof fn lemma_first_dot(s: Seq<char>)
    ensures
        first_dot(s) == -1 ==> forall|k: int| 0 <= k < s.len() ==> s[k] != '.',
        first_dot(s) >= 0 ==> {
            &&& first_dot(s) < s.len()
            &&& s[first_dot(s)] == '.'
            &&& forall|k: int| 0 <= k < first_dot(s) ==> s[k] != '.'
        },
    decreases s.len(),
{
    if s.len() == 0 {
    } else if s[0] == '.' {
    } else {
        let t = s.subrange(1, s.len() as int);
        lemma_first_dot(t);
        assert(forall|k: int| 0 <= k < t.len() ==> t[k] == s[k + 1]);
        if first_dot(t) >= 0 {
            assert(first_dot(s) == first_dot(t) + 1);
            assert(s[first_dot(s)] == t[first_dot(t)]);
            assert forall|k: int| 0 <= k < first_dot(s) implies s[k] != '.' by {
                if k >= 1 {
                    assert(t[k - 1] != '.');
                }
            }
        } else {
            assert forall|k: int| 0 <= k < s.len() implies s[k] != '.' by {
                if k >= 1 {
                    assert(t[k - 1] != '.');
                }
            }
        }
    }
}

/// A non-empty run of decimal digits whose value fits a 16-bit field.
pub open spec fn valid_version_field(f: Seq<char>) -> bool {
    &&& f.len() >= 1
    &&& forall|k: int| 0 <= k < f.len() ==> is_digit(#[trigger] f[k])
    &&& digits_val(f) <= 65535
}

/// The three dot-separated fields of a version string.
pub open spec fn version_fields(s: Seq<char>) -> (Seq<char>, Seq<char>, Seq<char>) {
    let i = first_dot(s);
    let rest = s.subrange(i + 1, s.len() as int);
    let j = first_dot(rest);
    (s.subrange(0, i), rest.subrange(0, j), rest.subrange(j + 1, rest.len() as int))
}

/// A version string: three dot-separated decimal fields of 16 bits each.
pub open spec fn valid_version(s: Seq<char>) -> bool {
    let i = first_dot(s);
    &&& i >= 0
    &&& {
        let rest = s.subrange(i + 1, s.len() as int);
        let j = first_dot(rest);
        &&& j >= 0
        &&& valid_version_field(version_fields(s).0)
        &&& valid_version_field(version_fields(s).1)
        &&& valid_version_field(version_fields(s).2)
    }
}

/// What `compare_version` returns: majors must agree, a zero major makes the
/// minor part of the compatibility key, and the remaining fields compare
/// lexicographically.
pub open spec fn spec_compare_version(l: Seq<char>, r: Seq<char>) -> VersionCompareResult {
    let lf = version_fields(l);
    let rf = version_fields(r);
    let lmaj = digits_val(lf.0);
    let lmin = digits_val(lf.1);
    let lpat = digits_val(lf.2);
    let rmaj = digits_val(rf.0);
    let rmin = digits_val(rf.1);
    let rpat = digits_val(rf.2);
    if lmaj != rmaj {
        VersionCompareResult::Different
    } else if lmaj == 0 {
        if lmin != rmin {
            VersionCompareResult::Different
        } else if lpat > rpat {
            VersionCompareResult::GreaterThan
        } else if lpat < rpat {
            VersionCompareResult::LessThan
        } else {
            VersionCompareResult::Equals
        }
    } else {
        if lmin > rmin {
            VersionCompareResult::GreaterThan
        } else if lmin < rmin {
            VersionCompareResult::LessThan
        } else if lpat > rpat {
            VersionCompareResult::GreaterThan
        } else if lpat < rpat {
            VersionCompareResult::LessThan
        } else {
            VersionCompareResult::Equals
        }
    }
}

/// Two version strings may stand for the same dependency: they agree on the
/// compatibility key (the major, and the minor as well when the major is
/// zero).
pub open spec fn versions_compatible(l: Seq<char>, r: Seq<char>) -> bool {
    spec_compare_version(l, r) != VersionCompareResult::Different
}

proof fn lemma_digits_val_take_succ(f: Seq<char>, t: int)
    requires
        0 <= t < f.len(),
    ensures
        digits_val(f.take(t + 1)) == digits_val(f.take(t)) * 10 + digit_val(f[t]),
{
    assert(f.take(t + 1).drop_last() =~= f.take(t));
    assert(f.take(t + 1).last() == f[t]);
}

proof fn lemma_digits_val_take_mono(f: Seq<char>, t: int)
    requires
        0 <= t <= f.len(),
        forall|k: int| 0 <= k < f.len() ==> is_digit(#[trigger] f[k]),
    ensures
        0 <= digits_val(f.take(t)) <= digits_val(f),
    decreases f.len() - t,
{
    if t == f.len() {
        assert(f.take(t) =~= f);
        lemma_digits_val_nonneg(f);
    } else {
        lemma_digits_val_take_succ(f, t);
        lemma_digits_val_take_mono(f, t + 1);
        lemma_digits_val_nonneg(f.take(t));
    }
}

proof fn lemma_digits_val_nonneg(f: Seq<char>)
    requires
        forall|k: int| 0 <= k < f.len() ==> is_digit(#[trigger] f[k]),
    ensures
        digits_val(f) >= 0,
    decreases f.len(),
{
    if f.len() > 0 {
        assert(forall|k: int|
            0 <= k < f.drop_last().len() ==> is_digit(#[trigger] f.drop_last()[k]));
        lemma_digits_val_nonneg(f.drop_last());
    }
}

/// Scans for the first `.` of `s` at or after `from`.  Callers know one is
/// there.
fn find_dot(s: &str, from: usize) -> (r: usize)
    requires
        from <= s@.len(),
        exists|k: int| from <= k < s@.len() && s@[k] == '.',
    ensures
        from <= r < s@.len(),
        s@[r as int] == '.',
        forall|k: int| from <= k < r ==> s@[k] != '.',
{
    let n = s.unicode_len();
    let mut i: usize = from;
    loop
        invariant
            from <= i <= n,
            n == s@.len(),
            exists|k: int| from <= k < s@.len() && s@[k] == '.',
            forall|k: int| from <= k < i ==> s@[k] != '.',
        decreases n - i,
    {
        if i == n {
            // cannot happen: a dot exists beyond every scanned position
            proof {
                let k = choose|k: int| from <= k < s@.len() && s@[k] == '.';
                assert(s@[k] != '.');
            }
            return from;
        }
        if s.get_char(i) == '.' {
            return i;
        }
        i += 1;
    }
}

/// Parses the decimal run `s[from..to)` as one version field.
fn parse_field(s: &str, from: usize, to: usize) -> (r: u16)
    requires
        from <= to <= s@.len(),
        valid_version_field(s@.subrange(from as int, to as int)),
    ensures
        r as int == digits_val(s@.subrange(from as int, to as int)),
{
    let ghost f = s@.subrange(from as int, to as int);
    let mut val: u32 = 0;
    let mut i: usize = from;
    while i < to
        invariant
            from <= i <= to <= s@.len(),
            f == s@.subrange(from as int, to as int),
            valid_version_field(f),
            val as int == digits_val(f.take(i - from)),
            val <= 65535,
        decreases to - i,
    {
        let c = s.get_char(i);
        proof {
            assert(f[i - from] == s@[i as int]);
            lemma_digits_val_take_succ(f, i - from);
            lemma_digits_val_take_mono(f, i - from + 1);
        }
        let d: u32 = (c as u32) - 48;
        val = val * 10 + d;
        i += 1;
    }
    proof {
        assert(f.take(to - from) =~= f);
    }
    val as u16
}

/// Splits a version string into its `(major, minor, patch)` fields.
fn parse_version(s: &str) -> (r: (u16, u16, u16))
    requires
        valid_version(s@),
    ensures
        r.0 as int == digits_val(version_fields(s@).0),
        r.1 as int == digits_val(version_fields(s@).1),
        r.2 as int == digits_val(version_fields(s@).2),
{
    proof {
        lemma_first_dot(s@);
    }
    let n = s.unicode_len();
    let ghost i_spec = first_dot(s@);
    let ghost rest = s@.subrange(i_spec + 1, s@.len() as int);
    proof {
        lemma_first_dot(rest);
        assert(forall|k: int| 0 <= k < rest.len() ==> rest[k] == s@[k + i_spec + 1]);
    }
    let i = find_dot(s, 0);
    proof {
        // both i and i_spec are the first dot
        assert(s@[i_spec] == '.');
        assert(s@[i as int] == '.');
        assert(i == i_spec);
    }
    let ghost j_spec = first_dot(rest);
    let j = find_dot(s, i + 1);
    proof {
        // j - i - 1 and j_spec are both the first dot of the tail
        assert(rest[j_spec] == s@[j_spec + i_spec + 1]);
        assert(rest[j - i - 1] == s@[j as int]);
        if j - i - 1 < j_spec {
            assert(rest[j - i - 1] != '.');
        }
        if j_spec < j - i - 1 {
            assert(s@[j_spec + i_spec + 1] != '.');
        }
        assert(j - i - 1 == j_spec);
        assert(version_fields(s@).0 =~= s@.subrange(0, i as int));
        assert(version_fields(s@).1 =~= rest.subrange(0, j_spec));
        assert(version_fields(s@).1 =~= s@.subrange(i as int + 1, j as int));
        assert(version_fields(s@).2 =~= rest.subrange(j_spec + 1, rest.len() as int));
        assert(version_fields(s@).2 =~= s@.subrange(j as int + 1, s@.len() as int));
    }
    let major = parse_field(s, 0, i);
    let minor = parse_field(s, i + 1, j);
    let patch = parse_field(s, j + 1, n);
    (major, minor, patch)
}

// ---------------------------------------------------------------------------
// type entries
// ---------------------------------------------------------------------------

/// How many type entries the units before `u` hold.
pub open spec fn type_count_before(lists: Seq<Vec<TypeEntry>>, u: int) -> int
    decreases u,
{
    if u <= 0 {
        0
    } else {
        type_count_before(lists, u - 1) + lists[u - 1]@.len()
    }
}

/// No two entries of the table are structurally equal.
pub open spec fn type_table_distinct(s: Seq<TypeEntry>) -> bool {
    forall|i: int, j: int| 0 <= i < j < s.len() ==> !type_entry_deq(#[trigger] s[i], #[trigger] s[j])
}

/// Some entry of some source table is structurally equal to `t`.
pub open spec fn type_from_lists(lists: Seq<Vec<TypeEntry>>, t: TypeEntry) -> bool {
    exists|u: int, i: int|
        0 <= u < lists.len() && 0 <= i < lists[u]@.len() && type_entry_deq(
            t,
            #[trigger] lists[u]@[i],
        )
}

/// Finds the first entry structurally equal to `probe`.
pub(crate) fn find_type(entries: &Vec<TypeEntry>, probe: &TypeEntry) -> (r: Option<usize>)
    ensures
        match r {
            Some(p) => {
                &&& p < entries.len()
                &&& type_entry_deq(entries@[p as int], *probe)
                &&& forall|k: int| 0 <= k < p ==> !type_entry_deq(#[trigger] entries@[k], *probe)
            },
            None => forall|k: int|
                0 <= k < entries@.len() ==> !type_entry_deq(#[trigger] entries@[k], *probe),
        },
{
    let mut i: usize = 0;
    while i < entries.len()
        invariant
            i <= entries.len(),
            forall|k: int| 0 <= k < i ==> !type_entry_deq(#[trigger] entries@[k], *probe),
        decreases entries.len() - i,
    {
        if type_entry_matches(&entries[i], probe) {
            return Some(i);
        }
        i += 1;
    }
    None
}

/// One step of the first-occurrence fold: keep the table if a structurally
/// equal entry already stands, append the entry otherwise.
pub open spec fn type_fold_insert(acc: Seq<TypeEntry>, e: TypeEntry) -> Seq<TypeEntry> {
    if exists|k: int| 0 <= k < acc.len() && type_entry_deq(#[trigger] acc[k], e) {
        acc
    } else {
        acc.push(e)
    }
}

/// The merged type table after unit 0's table as it stands and the first `i`
/// entries of each unit up to `u`, folded in unit-major, declaration-minor
/// order.
pub open spec fn type_fold_upto(lists: Seq<Vec<TypeEntry>>, u: int, i: int) -> Seq<TypeEntry>
    decreases u, i,
    when i >= 0
{
    if u <= 1 && i <= 0 {
        lists[0]@
    } else if i <= 0 {
        type_fold_upto(lists, u - 1, lists[u - 1]@.len() as int)
    } else {
        type_fold_insert(type_fold_upto(lists, u, i - 1), lists[u]@[i - 1])
    }
}

/// The full first-occurrence fold of the unit type tables.
pub open spec fn type_fold(lists: Seq<Vec<TypeEntry>>) -> Seq<TypeEntry> {
    type_fold_upto(lists, lists.len() as int, 0)
}

/// `merged` is, entry for entry, structurally equal to the fold prefix at
/// unit `u`, entry `i`.
pub open spec fn type_table_folded_at(
    merged: Seq<TypeEntry>,
    lists: Seq<Vec<TypeEntry>>,
    u: int,
    i: int,
) -> bool {
    &&& merged.len() == type_fold_upto(lists, u, i).len()
    &&& forall|k: int|
        0 <= k < merged.len() ==> type_entry_deq(#[trigger] merged[k], type_fold_upto(lists, u, i)[k])
}

/// `merged` is, entry for entry, structurally equal to the full fold: the
/// merged table holds the first occurrence of every distinct entry, in input
/// order.
pub open spec fn type_table_folded(merged: Seq<TypeEntry>, lists: Seq<Vec<TypeEntry>>) -> bool {
    &&& merged.len() == type_fold(lists).len()
    &&& forall|k: int|
        0 <= k < merged.len() ==> type_entry_deq(#[trigger] merged[k], type_fold(lists)[k])
}

/// Merges the type tables of several units, the first step of the static
/// link./// Merges the type tables of several units, the first step of the static
/// link.
///
/// Unit 0's table is copied as it stands; every later entry reuses the first
/// structurally equal merged entry or is appended.  The second result maps
/// each unit's type indices to merged indices.
pub fn merge_type_entries(type_entries_list: &Vec<Vec<TypeEntry>>) -> (r: (
    Vec<TypeEntry>,
    Vec<Vec<usize>>,
))
    requires
        type_entries_list.len() >= 1,
    ensures
        ({
            let merged = r.0;
            let remaps = r.1;
            &&& merged@.len() <= type_count_before(type_entries_list@, type_entries_list.len() as int)
            &&& remaps.len() == type_entries_list.len()
            &&& forall|u: int|
                0 <= u < remaps.len() ==> (#[trigger] remaps@[u])@.len()
                    == type_entries_list@[u]@.len()
            // every old index maps to a structurally equal merged entry
            &&& forall|u: int, i: int|
                0 <= u < remaps.len() && 0 <= i < remaps@[u]@.len() ==> {
                    &&& (#[trigger] remaps@[u]@[i]) < merged.len()
                    &&& type_entry_deq(
                        merged@[remaps@[u]@[i] as int],
                        type_entries_list@[u]@[i],
                    )
                }
            // unit 0's table is the prefix of the merged table
            &&& merged@.len() >= type_entries_list@[0]@.len()
            &&& forall|i: int|
                0 <= i < type_entries_list@[0]@.len() ==> type_entry_deq(
                    #[trigger] merged@[i],
                    type_entries_list@[0]@[i],
                )
            // nothing is invented
            &&& forall|k: int|
                0 <= k < merged@.len() ==> type_from_lists(
                    type_entries_list@,
                    #[trigger] merged@[k],
                )
            // a duplicate-free unit 0 gives a duplicate-free merged table
            &&& type_table_distinct(type_entries_list@[0]@) ==> type_table_distinct(merged@)
            // a single unit passes through unchanged
            &&& type_entries_list.len() == 1 ==> merged@.len() == type_entries_list@[0]@.len()
            &&& type_entries_list.len() == 1 ==> forall|i: int|
                0 <= i < remaps@[0]@.len() ==> (#[trigger] remaps@[0]@[i]) == i
            // the merged table is the first-occurrence fold of the inputs
            &&& type_table_folded(merged@, type_entries_list@)
        }),
{
    let ghost lists = type_entries_list@;
    let mut merged: Vec<TypeEntry> = Vec::new();
    let mut remap0: Vec<usize> = Vec::new();
    let mut i: usize = 0;
    // copy the first list
    while i < type_entries_list[0].len()
        invariant
            type_entries_list.len() >= 1,
            lists == type_entries_list@,
            i <= lists[0]@.len(),
            merged.len() == i,
            remap0.len() == i,
            forall|k: int| 0 <= k < i ==> type_entry_deq(#[trigger] merged@[k], lists[0]@[k]),
            forall|k: int| 0 <= k < i ==> (#[trigger] remap0@[k]) == k,
        decreases type_entries_list[0].len() - i,
    {
        merged.push(copy_type_entry(&type_entries_list[0][i]));
        remap0.push(i);
        i += 1;
    }
    let mut remaps: Vec<Vec<usize>> = Vec::new();
    remaps.push(remap0);
    proof {
        assert(type_count_before(lists, 0) == 0);
        assert(type_count_before(lists, 1) == lists[0]@.len());
    }
    // merge the remaining lists
    let mut u: usize = 1;
    while u < type_entries_list.len()
        invariant
            type_entries_list.len() >= 1,
            lists == type_entries_list@,
            1 <= u <= lists.len(),
            remaps.len() == u,
            merged@.len() >= lists[0]@.len(),
            merged@.len() <= type_count_before(lists, u as int),
            forall|k: int|
                0 <= k < lists[0]@.len() ==> type_entry_deq(#[trigger] merged@[k], lists[0]@[k]),
            forall|v: int|
                0 <= v < u ==> (#[trigger] remaps@[v])@.len() == lists[v]@.len(),
            forall|v: int, k: int|
                0 <= v < u && 0 <= k < remaps@[v]@.len() ==> {
                    &&& (#[trigger] remaps@[v]@[k]) < merged.len()
                    &&& type_entry_deq(merged@[remaps@[v]@[k] as int], lists[v]@[k])
                },
            forall|k: int| 0 <= k < merged@.len() ==> type_from_lists(lists, #[trigger] merged@[k]),
            u == 1 ==> merged@.len() == lists[0]@.len(),
            forall|k: int| u == 1 && 0 <= k < remaps@[0]@.len() ==> (#[trigger] remaps@[0]@[k]) == k,
            type_table_distinct(lists[0]@) ==> type_table_distinct(merged@),
            type_table_folded_at(merged@, lists, u as int, 0),
        decreases type_entries_list.len() - u,
    {
        let source = &type_entries_list[u];
        let mut indices: Vec<usize> = Vec::new();
        let mut k: usize = 0;
        while k < source.len()
            invariant
                type_entries_list.len() >= 1,
                lists == type_entries_list@,
                1 <= u < lists.len(),
                source == &type_entries_list[u as int],
                k <= source@.len(),
                remaps.len() == u,
                indices.len() == k,
                merged@.len() >= lists[0]@.len(),
                merged@.len() <= type_count_before(lists, u as int) + k,
                forall|m: int|
                    0 <= m < lists[0]@.len() ==> type_entry_deq(
                        #[trigger] merged@[m],
                        lists[0]@[m],
                    ),
                forall|v: int|
                    0 <= v < u ==> (#[trigger] remaps@[v])@.len() == lists[v]@.len(),
                forall|v: int, m: int|
                    0 <= v < u && 0 <= m < remaps@[v]@.len() ==> {
                        &&& (#[trigger] remaps@[v]@[m]) < merged.len()
                        &&& type_entry_deq(merged@[remaps@[v]@[m] as int], lists[v]@[m])
                    },
                forall|m: int|
                    0 <= m < indices@.len() ==> {
                        &&& (#[trigger] indices@[m]) < merged.len()
                        &&& type_entry_deq(merged@[indices@[m] as int], lists[u as int]@[m])
                    },
                forall|m: int|
                    0 <= m < merged@.len() ==> type_from_lists(lists, #[trigger] merged@[m]),
                type_table_distinct(lists[0]@) ==> type_table_distinct(merged@),
                type_table_folded_at(merged@, lists, u as int, k as int),
            decreases source.len() - k,
        {
            let entry = &source[k];
            let ghost acc = type_fold_upto(lists, u as int, k as int);
            match find_type(&merged, entry) {
                Some(pos) => {
                    proof {
                        assert(type_entry_deq(acc[pos as int], lists[u as int]@[k as int]));
                        assert(type_fold_upto(lists, u as int, k as int + 1) == acc);
                    }
                    indices.push(pos);
                },
                None => {
                    let pos = merged.len();
                    proof {
                        assert forall|m: int| 0 <= m < acc.len() implies !type_entry_deq(
                            #[trigger] acc[m],
                            lists[u as int]@[k as int],
                        ) by {
                            assert(type_entry_deq(merged@[m], acc[m]));
                            assert(!type_entry_deq(merged@[m], lists[u as int]@[k as int]));
                        }
                        assert(type_fold_upto(lists, u as int, k as int + 1) == acc.push(
                            lists[u as int]@[k as int],
                        ));
                    }
                    merged.push(copy_type_entry(entry));
                    proof {
                        assert(type_entry_deq(merged@[pos as int], lists[u as int]@[k as int]));
                        assert(type_from_lists(lists, merged@[pos as int]));
                    }
                    indices.push(pos);
                },
            }
            k += 1;
        }
        proof {
            assert(type_fold_upto(lists, u as int + 1, 0) == type_fold_upto(
                lists,
                u as int,
                lists[u as int]@.len() as int,
            ));
        }
        remaps.push(indices);
        u += 1;
    }
    proof {
        assert(type_table_folded_at(merged@, lists, lists.len() as int, 0));
    }
    (merged, remaps)
}

// ---------------------------------------------------------------------------
// local-variable-list entries
// ---------------------------------------------------------------------------

/// How many local-variable-list entries the units before `u` hold.
pub open spec fn lvl_count_before(lists: Seq<Vec<LocalVariableListEntry>>, u: int) -> int
    decreases u,
{
    if u <= 0 {
        0
    } else {
        lvl_count_before(lists, u - 1) + lists[u - 1]@.len()
    }
}

/// No two entries of the table are structurally equal.
pub open spec fn local_list_table_distinct(s: Seq<LocalVariableListEntry>) -> bool {
    forall|i: int, j: int| 0 <= i < j < s.len() ==> !local_list_deq(#[trigger] s[i], #[trigger] s[j])
}

/// Some entry of some source table is structurally equal to `t`.
pub open spec fn local_list_from_lists(
    lists: Seq<Vec<LocalVariableListEntry>>,
    t: LocalVariableListEntry,
) -> bool {
    exists|u: int, i: int|
        0 <= u < lists.len() && 0 <= i < lists[u]@.len() && local_list_deq(
            t,
            #[trigger] lists[u]@[i],
        )
}

/// Finds the first entry structurally equal to `probe`.
fn find_local_list(
    entries: &Vec<LocalVariableListEntry>,
    probe: &LocalVariableListEntry,
) -> (r: Option<usize>)
    ensures
        match r {
            Some(p) => {
                &&& p < entries.len()
                &&& local_list_deq(entries@[p as int], *probe)
                &&& forall|k: int| 0 <= k < p ==> !local_list_deq(#[trigger] entries@[k], *probe)
            },
            None => forall|k: int|
                0 <= k < entries@.len() ==> !local_list_deq(#[trigger] entries@[k], *probe),
        },
{
    let mut i: usize = 0;
    while i < entries.len()
        invariant
            i <= entries.len(),
            forall|k: int| 0 <= k < i ==> !local_list_deq(#[trigger] entries@[k], *probe),
        decreases entries.len() - i,
    {
        if local_list_matches(&entries[i], probe) {
            return Some(i);
        }
        i += 1;
    }
    None
}

/// One step of the first-occurrence fold over local-variable lists.
pub open spec fn lvl_fold_insert(
    acc: Seq<LocalVariableListEntry>,
    e: LocalVariableListEntry,
) -> Seq<LocalVariableListEntry> {
    if exists|k: int| 0 <= k < acc.len() && local_list_deq(#[trigger] acc[k], e) {
        acc
    } else {
        acc.push(e)
    }
}

/// The merged list table after unit 0's table as it stands and the first `i`
/// entries of each unit up to `u`, folded in unit-major, declaration-minor
/// order.
pub open spec fn lvl_fold_upto(
    lists: Seq<Vec<LocalVariableListEntry>>,
    u: int,
    i: int,
) -> Seq<LocalVariableListEntry>
    decreases u, i,
    when i >= 0
{
    if u <= 1 && i <= 0 {
        lists[0]@
    } else if i <= 0 {
        lvl_fold_upto(lists, u - 1, lists[u - 1]@.len() as int)
    } else {
        lvl_fold_insert(lvl_fold_upto(lists, u, i - 1), lists[u]@[i - 1])
    }
}

/// The full first-occurrence fold of the unit local-variable-list tables.
pub open spec fn lvl_fold(lists: Seq<Vec<LocalVariableListEntry>>) -> Seq<LocalVariableListEntry> {
    lvl_fold_upto(lists, lists.len() as int, 0)
}

/// `merged` is, entry for entry, structurally equal to the fold prefix at
/// unit `u`, entry `i`.
pub open spec fn lvl_table_folded_at(
    merged: Seq<LocalVariableListEntry>,
    lists: Seq<Vec<LocalVariableListEntry>>,
    u: int,
    i: int,
) -> bool {
    &&& merged.len() == lvl_fold_upto(lists, u, i).len()
    &&& forall|k: int|
        0 <= k < merged.len() ==> local_list_deq(#[trigger] merged[k], lvl_fold_upto(lists, u, i)[k])
}

/// `merged` is, entry for entry, structurally equal to the full fold: the
/// merged table holds the first occurrence of every distinct list, in input
/// order.
pub open spec fn lvl_table_folded(
    merged: Seq<LocalVariableListEntry>,
    lists: Seq<Vec<LocalVariableListEntry>>,
) -> bool {
    &&& merged.len() == lvl_fold(lists).len()
    &&& forall|k: int|
        0 <= k < merged.len() ==> local_list_deq(#[trigger] merged[k], lvl_fold(lists)[k])
}

/// Merges the local-variable-list tables of several units, with
/// the same discipline as [`merge_type_entries`].
pub fn merge_local_variable_list_entries(
    local_variable_list_entries_list: &Vec<Vec<LocalVariableListEntry>>,
) -> (r: (Vec<LocalVariableListEntry>, Vec<Vec<usize>>))
    requires
        local_variable_list_entries_list.len() >= 1,
    ensures
        ({
            let merged = r.0;
            let remaps = r.1;
            let lists = local_variable_list_entries_list@;
            &&& merged@.len() <= lvl_count_before(lists, lists.len() as int)
            &&& remaps.len() == lists.len()
            &&& forall|u: int|
                0 <= u < remaps.len() ==> (#[trigger] remaps@[u])@.len() == lists[u]@.len()
            &&& forall|u: int, i: int|
                0 <= u < remaps.len() && 0 <= i < remaps@[u]@.len() ==> {
                    &&& (#[trigger] remaps@[u]@[i]) < merged.len()
                    &&& local_list_deq(merged@[remaps@[u]@[i] as int], lists[u]@[i])
                }
            &&& merged@.len() >= lists[0]@.len()
            &&& forall|i: int|
                0 <= i < lists[0]@.len() ==> local_list_deq(#[trigger] merged@[i], lists[0]@[i])
            &&& forall|k: int|
                0 <= k < merged@.len() ==> local_list_from_lists(lists, #[trigger] merged@[k])
            &&& local_list_table_distinct(lists[0]@) ==> local_list_table_distinct(merged@)
            &&& lists.len() == 1 ==> merged@.len() == lists[0]@.len()
            &&& lists.len() == 1 ==> forall|i: int|
                0 <= i < remaps@[0]@.len() ==> (#[trigger] remaps@[0]@[i]) == i
            // the merged table is the first-occurrence fold of the inputs
            &&& lvl_table_folded(merged@, lists)
        }),
{
    let ghost lists = local_variable_list_entries_list@;
    let mut merged: Vec<LocalVariableListEntry> = Vec::new();
    let mut remap0: Vec<usize> = Vec::new();
    let mut i: usize = 0;
    // copy the first list
    while i < local_variable_list_entries_list[0].len()
        invariant
            local_variable_list_entries_list.len() >= 1,
            lists == local_variable_list_entries_list@,
            i <= lists[0]@.len(),
            merged.len() == i,
            remap0.len() == i,
            forall|k: int| 0 <= k < i ==> local_list_deq(#[trigger] merged@[k], lists[0]@[k]),
            forall|k: int| 0 <= k < i ==> (#[trigger] remap0@[k]) == k,
        decreases local_variable_list_entries_list[0].len() - i,
    {
        merged.push(copy_local_list_entry(&local_variable_list_entries_list[0][i]));
        remap0.push(i);
        i += 1;
    }
    let mut remaps: Vec<Vec<usize>> = Vec::new();
    remaps.push(remap0);
    proof {
        assert(lvl_count_before(lists, 0) == 0);
        assert(lvl_count_before(lists, 1) == lists[0]@.len());
    }
    // merge the remaining lists
    let mut u: usize = 1;
    while u < local_variable_list_entries_list.len()
        invariant
            local_variable_list_entries_list.len() >= 1,
            lists == local_variable_list_entries_list@,
            1 <= u <= lists.len(),
            remaps.len() == u,
            merged@.len() >= lists[0]@.len(),
            merged@.len() <= lvl_count_before(lists, u as int),
            forall|k: int|
                0 <= k < lists[0]@.len() ==> local_list_deq(#[trigger] merged@[k], lists[0]@[k]),
            forall|v: int|
                0 <= v < u ==> (#[trigger] remaps@[v])@.len() == lists[v]@.len(),
            forall|v: int, k: int|
                0 <= v < u && 0 <= k < remaps@[v]@.len() ==> {
                    &&& (#[trigger] remaps@[v]@[k]) < merged.len()
                    &&& local_list_deq(merged@[remaps@[v]@[k] as int], lists[v]@[k])
                },
            forall|k: int|
                0 <= k < merged@.len() ==> local_list_from_lists(lists, #[trigger] merged@[k]),
            u == 1 ==> merged@.len() == lists[0]@.len(),
            forall|k: int| u == 1 && 0 <= k < remaps@[0]@.len() ==> (#[trigger] remaps@[0]@[k]) == k,
            local_list_table_distinct(lists[0]@) ==> local_list_table_distinct(merged@),
            lvl_table_folded_at(merged@, lists, u as int, 0),
        decreases local_variable_list_entries_list.len() - u,
    {
        let source = &local_variable_list_entries_list[u];
        let mut indices: Vec<usize> = Vec::new();
        let mut k: usize = 0;
        while k < source.len()
            invariant
                local_variable_list_entries_list.len() >= 1,
                lists == local_variable_list_entries_list@,
                1 <= u < lists.len(),
                source == &local_variable_list_entries_list[u as int],
                k <= source@.len(),
                remaps.len() == u,
                indices.len() == k,
                merged@.len() >= lists[0]@.len(),
                merged@.len() <= lvl_count_before(lists, u as int) + k,
                forall|m: int|
                    0 <= m < lists[0]@.len() ==> local_list_deq(
                        #[trigger] merged@[m],
                        lists[0]@[m],
                    ),
                forall|v: int|
                    0 <= v < u ==> (#[trigger] remaps@[v])@.len() == lists[v]@.len(),
                forall|v: int, m: int|
                    0 <= v < u && 0 <= m < remaps@[v]@.len() ==> {
                        &&& (#[trigger] remaps@[v]@[m]) < merged.len()
                        &&& local_list_deq(merged@[remaps@[v]@[m] as int], lists[v]@[m])
                    },
                forall|m: int|
                    0 <= m < indices@.len() ==> {
                        &&& (#[trigger] indices@[m]) < merged.len()
                        &&& local_list_deq(merged@[indices@[m] as int], lists[u as int]@[m])
                    },
                forall|m: int|
                    0 <= m < merged@.len() ==> local_list_from_lists(lists, #[trigger] merged@[m]),
                local_list_table_distinct(lists[0]@) ==> local_list_table_distinct(merged@),
                lvl_table_folded_at(merged@, lists, u as int, k as int),
            decreases source.len() - k,
        {
            let entry = &source[k];
            let ghost acc = lvl_fold_upto(lists, u as int, k as int);
            match find_local_list(&merged, entry) {
                Some(pos) => {
                    proof {
                        assert(local_list_deq(acc[pos as int], lists[u as int]@[k as int]));
                        assert(lvl_fold_upto(lists, u as int, k as int + 1) == acc);
                    }
                    indices.push(pos);
                },
                None => {
                    let pos = merged.len();
                    proof {
                        assert forall|m: int| 0 <= m < acc.len() implies !local_list_deq(
                            #[trigger] acc[m],
                            lists[u as int]@[k as int],
                        ) by {
                            assert(local_list_deq(merged@[m], acc[m]));
                            assert(!local_list_deq(merged@[m], lists[u as int]@[k as int]));
                        }
                        assert(lvl_fold_upto(lists, u as int, k as int + 1) == acc.push(
                            lists[u as int]@[k as int],
                        ));
                    }
                    merged.push(copy_local_list_entry(entry));
                    proof {
                        assert(local_list_deq(merged@[pos as int], lists[u as int]@[k as int]));
                        assert(local_list_from_lists(lists, merged@[pos as int]));
                    }
                    indices.push(pos);
                },
            }
            k += 1;
        }
        proof {
            assert(lvl_fold_upto(lists, u as int + 1, 0) == lvl_fold_upto(
                lists,
                u as int,
                lists[u as int]@.len() as int,
            ));
        }
        remaps.push(indices);
        u += 1;
    }
    proof {
        assert(lvl_table_folded_at(merged@, lists, lists.len() as int, 0));
    }
    (merged, remaps)
}

// ---------------------------------------------------------------------------
// import-module entries
// ---------------------------------------------------------------------------

/// No two entries of the table share a name.
pub open spec fn import_module_names_distinct(s: Seq<ImportModuleEntry>) -> bool {
    forall|i: int, j: int|
        0 <= i < j < s.len() ==> (#[trigger] s[i]).name@ != (#[trigger] s[j]).name@
}

/// The version string of a shared dependency; empty for the other variants.
pub open spec fn share_version(d: ModuleDependency) -> Seq<char> {
    match d {
        ModuleDependency::Share(s) => s.version@,
        _ => Seq::empty(),
    }
}

/// Two dependencies of one name can be merged: they are componentwise equal,
/// or both are shared with versions whose compatibility keys agree.
pub open spec fn mdep_pair_ok(a: ModuleDependency, b: ModuleDependency) -> bool {
    ||| module_dependency_deq(a, b)
    ||| (a is Share && b is Share && versions_compatible(share_version(a), share_version(b)))
}

/// Every two same-name entries across all units can be merged.
pub open spec fn import_module_lists_compatible(lists: Seq<Vec<ImportModuleEntry>>) -> bool {
    forall|u: int, i: int, v: int, j: int|
        0 <= u < lists.len() && 0 <= i < lists[u]@.len() && 0 <= v < lists.len() && 0 <= j
            < lists[v]@.len() && (#[trigger] lists[u]@[i]).name@ == (#[trigger] lists[v]@[j]).name@
            ==> mdep_pair_ok(lists[u]@[i].module_dependency, lists[v]@[j].module_dependency)
}

/// Every shared dependency of the lists carries a well-formed version string.
pub open spec fn import_module_versions_valid(lists: Seq<Vec<ImportModuleEntry>>) -> bool {
    forall|u: int, i: int|
        0 <= u < lists.len() && 0 <= i < lists[u]@.len() ==> ((#[trigger] lists[u]@[i]).module_dependency
            is Share ==> valid_version(share_version(lists[u]@[i].module_dependency)))
}

/// Some entry of some source table is componentwise equal to `e`.
pub open spec fn module_from_lists(lists: Seq<Vec<ImportModuleEntry>>, e: ImportModuleEntry) -> bool {
    exists|u: int, i: int|
        0 <= u < lists.len() && 0 <= i < lists[u]@.len() && import_module_deq(
            e,
            #[trigger] lists[u]@[i],
        )
}

/// The error a conflicting same-name pair produces: a source conflict for two
/// file-based dependencies of one kind, a version conflict for two shared
/// dependencies, and a name conflict otherwise.
pub open spec fn mdep_conflict_error(
    e: LinkErrorType,
    n: Seq<char>,
    a: ModuleDependency,
    b: ModuleDependency,
) -> bool {
    if (a is Local && b is Local) || (a is Remote && b is Remote) {
        e matches LinkErrorType::DependentSourceConflict(m) && m@ == n
    } else if a is Share && b is Share {
        e matches LinkErrorType::DependentVersionConflict(m) && m@ == n
    } else {
        e matches LinkErrorType::DependentNameConflict(m) && m@ == n
    }
}

/// Some same-name pair of the lists cannot be merged, and `e` is the error it
/// produces.
pub open spec fn import_module_conflict_witness(
    e: LinkErrorType,
    lists: Seq<Vec<ImportModuleEntry>>,
) -> bool {
    exists|u: int, i: int, v: int, j: int|
        {
            &&& 0 <= u < lists.len() && 0 <= i < lists[u]@.len()
            &&& 0 <= v < lists.len() && 0 <= j < lists[v]@.len()
            &&& (#[trigger] lists[u]@[i]).name@ == (#[trigger] lists[v]@[j]).name@
            &&& !mdep_pair_ok(lists[u]@[i].module_dependency, lists[v]@[j].module_dependency)
            &&& mdep_conflict_error(
                e,
                lists[u]@[i].name@,
                lists[u]@[i].module_dependency,
                lists[v]@[j].module_dependency,
            )
        }
}

/// Finds the first entry named `name`.
pub(crate) fn find_import_module_by_name(entries: &Vec<ImportModuleEntry>, name: &String) -> (r: Option<usize>)
    ensures
        match r {
            Some(p) => {
                &&& p < entries.len()
                &&& entries@[p as int].name@ == name@
                &&& forall|k: int| 0 <= k < p ==> (#[trigger] entries@[k]).name@ != name@
            },
            None => forall|k: int| 0 <= k < entries@.len() ==> (#[trigger] entries@[k]).name@ != name@,
        },
{
    let mut i: usize = 0;
    while i < entries.len()
        invariant
            i <= entries.len(),
            forall|k: int| 0 <= k < i ==> (#[trigger] entries@[k]).name@ != name@,
        decreases entries.len() - i,
    {
        if string_matches(&entries[i].name, name) {
            return Some(i);
        }
        i += 1;
    }
    None
}

proof fn lemma_version_keep_order(x: Seq<char>, o: Seq<char>, n: Seq<char>)
    requires
        spec_compare_version(x, o) == VersionCompareResult::Equals || spec_compare_version(x, o)
            == VersionCompareResult::LessThan,
        spec_compare_version(n, o) == VersionCompareResult::GreaterThan,
    ensures
        spec_compare_version(x, n) == VersionCompareResult::LessThan,
{
}

/// Compares two versions of shared dependencies.
///
/// Majors that differ (or minors that differ under a zero "beta" major) can
/// never coexist and yield `Different`; otherwise the remaining fields decide
/// the order, so that the merge can keep the newest compatible version.
pub fn compare_version(left: &str, right: &str) -> (r: VersionCompareResult)
    requires
        valid_version(left@),
        valid_version(right@),
    ensures
        r == spec_compare_version(left@, right@),
{
    let (lmaj, lmin, lpat) = parse_version(left);
    let (rmaj, rmin, rpat) = parse_version(right);
    if lmaj != rmaj {
        VersionCompareResult::Different
    } else if lmaj == 0 {
        if lmin != rmin {
            VersionCompareResult::Different
        } else if lpat > rpat {
            VersionCompareResult::GreaterThan
        } else if lpat < rpat {
            VersionCompareResult::LessThan
        } else {
            VersionCompareResult::Equals
        }
    } else {
        if lmin > rmin {
            VersionCompareResult::GreaterThan
        } else if lmin < rmin {
            VersionCompareResult::LessThan
        } else if lpat > rpat {
            VersionCompareResult::GreaterThan
        } else if lpat < rpat {
            VersionCompareResult::LessThan
        } else {
            VersionCompareResult::Equals
        }
    }
}

/// `x` is not a newer version than `y` (they compare equal or lower).
pub open spec fn version_not_newer(x: Seq<char>, y: Seq<char>) -> bool {
    ||| spec_compare_version(x, y) == VersionCompareResult::Equals
    ||| spec_compare_version(x, y) == VersionCompareResult::LessThan
}

/// Every shared dependency among the inputs processed so far (all of units
/// `v < u`, and the first `k` entries of unit `u`) is no newer than the
/// merged entry of its name.
pub open spec fn module_version_max_upto(
    merged: Seq<ImportModuleEntry>,
    lists: Seq<Vec<ImportModuleEntry>>,
    u: int,
    k: int,
) -> bool {
    forall|m: int, v: int, t: int|
        #![trigger merged[m], lists[v]@[t]]
        0 <= m < merged.len() && 0 <= v < lists.len() && 0 <= t < lists[v]@.len() && (v < u || (v
            == u && t < k)) && lists[v]@[t].name@ == merged[m].name@
            && lists[v]@[t].module_dependency is Share ==> {
            &&& merged[m].module_dependency is Share
            &&& version_not_newer(
                share_version(lists[v]@[t].module_dependency),
                share_version(merged[m].module_dependency),
            )
        }
}

proof fn lemma_compare_version_refl(v: Seq<char>)
    ensures
        spec_compare_version(v, v) == VersionCompareResult::Equals,
{
}

proof fn lemma_unique_module_name(s: Seq<ImportModuleEntry>, p: int, m: int)
    requires
        import_module_names_distinct(s),
        0 <= p < s.len(),
        0 <= m < s.len(),
        s[p].name@ == s[m].name@,
    ensures
        p == m,
{
    if p < m {
        assert(s[p].name@ != s[m].name@);
    } else if m < p {
        assert(s[m].name@ != s[p].name@);
    }
}

/// One step of the first-occurrence name fold: keep the name list if the
/// name already stands, append it otherwise.
pub open spec fn module_name_fold_insert(acc: Seq<Seq<char>>, n: Seq<char>) -> Seq<Seq<char>> {
    if exists|k: int| 0 <= k < acc.len() && #[trigger] acc[k] == n {
        acc
    } else {
        acc.push(n)
    }
}

/// The merged table's names after unit 0's names as they stand and the first
/// `i` names of each unit up to `u`, folded in unit-major, declaration-minor
/// order.
pub open spec fn module_name_fold_upto(
    lists: Seq<Vec<ImportModuleEntry>>,
    u: int,
    i: int,
) -> Seq<Seq<char>>
    decreases u, i,
    when i >= 0
{
    if u <= 1 && i <= 0 {
        Seq::new(lists[0]@.len(), |k: int| lists[0]@[k].name@)
    } else if i <= 0 {
        module_name_fold_upto(lists, u - 1, lists[u - 1]@.len() as int)
    } else {
        module_name_fold_insert(module_name_fold_upto(lists, u, i - 1), lists[u]@[i - 1].name@)
    }
}

/// `merged` names, position for position, the fold prefix at unit `u`,
/// entry `i`.
pub open spec fn module_names_folded_at(
    merged: Seq<ImportModuleEntry>,
    lists: Seq<Vec<ImportModuleEntry>>,
    u: int,
    i: int,
) -> bool {
    &&& merged.len() == module_name_fold_upto(lists, u, i).len()
    &&& forall|k: int|
        0 <= k < merged.len() ==> (#[trigger] merged[k]).name@ == module_name_fold_upto(
            lists,
            u,
            i,
        )[k]
}

/// The merged table holds one entry per distinct name, in first-occurrence
/// order.
pub open spec fn module_names_folded(
    merged: Seq<ImportModuleEntry>,
    lists: Seq<Vec<ImportModuleEntry>>,
) -> bool {
    module_names_folded_at(merged, lists, lists.len() as int, 0)
}

/// Componentwise equality of module dependencies is symmetric.
proof fn lemma_mdep_deq_sym(a: ModuleDependency, b: ModuleDependency)
    ensures
        module_dependency_deq(a, b) == module_dependency_deq(b, a),
{
    match (a, b) {
        (ModuleDependency::Share(x), ModuleDependency::Share(y)) => {
            lemma_share_deq_sym(x, y);
        },
        _ => {},
    }
}

/// Componentwise equality of module dependencies is transitive.
proof fn lemma_mdep_deq_trans(a: ModuleDependency, b: ModuleDependency, c: ModuleDependency)
    requires
        module_dependency_deq(a, b),
        module_dependency_deq(b, c),
    ensures
        module_dependency_deq(a, c),
{
    match (a, c) {
        (ModuleDependency::Share(x), ModuleDependency::Share(z)) => {
            let y = b->Share_0;
            let f = |p: crate::entry::DependencyParameter, q: crate::entry::DependencyParameter|
                crate::entry::parameter_deq(p, q);
            assert forall|i: int| 0 <= i < x.parameters@.len() implies #[trigger] f(
                x.parameters@[i],
                z.parameters@[i],
            ) by {
                assert(f(x.parameters@[i], y.parameters@[i]));
                assert(f(y.parameters@[i], z.parameters@[i]));
            }
        },
        _ => {},
    }
}

/// Two dependencies that can each be merged with a common representative can
/// be merged with each other.
proof fn lemma_mdep_pair_join(x: ModuleDependency, y: ModuleDependency, r: ModuleDependency)
    requires
        mdep_pair_ok(x, r),
        mdep_pair_ok(y, r),
    ensures
        mdep_pair_ok(x, y),
{
    lemma_mdep_deq_sym(y, r);
    lemma_versions_compatible_equiv(share_version(y), share_version(r), share_version(x));
    lemma_versions_compatible_equiv(share_version(x), share_version(r), share_version(y));
    lemma_versions_compatible_equiv(share_version(r), share_version(y), share_version(x));
    if module_dependency_deq(x, r) && module_dependency_deq(y, r) {
        lemma_mdep_deq_trans(x, r, y);
    }
}

/// Replacing a representative by a newer compatible one keeps every entry
/// that could be merged with it mergeable.
proof fn lemma_mdep_pair_shift(
    x: ModuleDependency,
    old_rep: ModuleDependency,
    new_rep: ModuleDependency,
)
    requires
        mdep_pair_ok(x, old_rep),
        old_rep is Share,
        new_rep is Share,
        versions_compatible(share_version(new_rep), share_version(old_rep)),
    ensures
        mdep_pair_ok(x, new_rep),
{
    lemma_versions_compatible_equiv(
        share_version(new_rep),
        share_version(old_rep),
        share_version(x),
    );
    lemma_versions_compatible_equiv(
        share_version(x),
        share_version(old_rep),
        share_version(new_rep),
    );
}

/// The merged table holds an entry of `e`'s name that `e` can be merged
/// with.
spec fn module_entry_reconciled(merged: Seq<ImportModuleEntry>, e: ImportModuleEntry) -> bool {
    exists|m: int|
        0 <= m < merged.len() && (#[trigger] merged[m]).name@ == e.name@ && mdep_pair_ok(
            e.module_dependency,
            merged[m].module_dependency,
        )
}

/// Every input entry before unit `u`, entry `k` is reconciled with the
/// merged table.
spec fn modules_reconciled_upto(
    merged: Seq<ImportModuleEntry>,
    lists: Seq<Vec<ImportModuleEntry>>,
    u: int,
    k: int,
) -> bool {
    forall|v: int, t: int|
        0 <= v < lists.len() && 0 <= t < lists[v]@.len() && (v < u || (v == u && t < k))
            ==> module_entry_reconciled(merged, #[trigger] lists[v]@[t])
}

/// Appending an entry that is reconciled with itself keeps every earlier
/// input reconciled and covers the new one.
proof fn lemma_mreconciled_after_push(
    merged_before: Seq<ImportModuleEntry>,
    merged: Seq<ImportModuleEntry>,
    lists: Seq<Vec<ImportModuleEntry>>,
    u: int,
    k: int,
)
    requires
        0 <= u < lists.len(),
        0 <= k < lists[u]@.len(),
        modules_reconciled_upto(merged_before, lists, u, k),
        merged.len() == merged_before.len() + 1,
        forall|m: int| 0 <= m < merged_before.len() ==> #[trigger] merged[m] == merged_before[m],
        merged[merged_before.len() as int].name@ == lists[u]@[k].name@,
        mdep_pair_ok(
            lists[u]@[k].module_dependency,
            merged[merged_before.len() as int].module_dependency,
        ),
    ensures
        modules_reconciled_upto(merged, lists, u, k + 1),
{
    assert forall|v: int, t: int|
        0 <= v < lists.len() && 0 <= t < lists[v]@.len() && (v < u || (v == u && t < k
            + 1)) implies module_entry_reconciled(merged, #[trigger] lists[v]@[t]) by {
        if v == u && t == k {
            assert((merged[merged_before.len() as int]).name@ == lists[v]@[t].name@
                && mdep_pair_ok(
                lists[v]@[t].module_dependency,
                merged[merged_before.len() as int].module_dependency,
            ));
        } else {
            assert(module_entry_reconciled(merged_before, lists[v]@[t]));
            let m = choose|m: int|
                0 <= m < merged_before.len() && (#[trigger] merged_before[m]).name@
                    == lists[v]@[t].name@ && mdep_pair_ok(
                    lists[v]@[t].module_dependency,
                    merged_before[m].module_dependency,
                );
            assert((merged[m]).name@ == lists[v]@[t].name@ && mdep_pair_ok(
                lists[v]@[t].module_dependency,
                merged[m].module_dependency,
            ));
        }
    }
}

/// An unchanged table that reconciles the current entry covers one more
/// input.
proof fn lemma_mreconciled_after_reuse(
    merged: Seq<ImportModuleEntry>,
    lists: Seq<Vec<ImportModuleEntry>>,
    u: int,
    k: int,
)
    requires
        0 <= u < lists.len(),
        0 <= k < lists[u]@.len(),
        modules_reconciled_upto(merged, lists, u, k),
        module_entry_reconciled(merged, lists[u]@[k]),
    ensures
        modules_reconciled_upto(merged, lists, u, k + 1),
{
}

/// Replacing the representative at `pos` by a newer compatible shared entry
/// of the same name keeps every earlier input reconciled.
proof fn lemma_mreconciled_after_replace(
    merged_before: Seq<ImportModuleEntry>,
    merged: Seq<ImportModuleEntry>,
    lists: Seq<Vec<ImportModuleEntry>>,
    u: int,
    k: int,
    pos: int,
)
    requires
        0 <= u < lists.len(),
        0 <= k < lists[u]@.len(),
        modules_reconciled_upto(merged_before, lists, u, k),
        merged.len() == merged_before.len(),
        0 <= pos < merged.len(),
        forall|m: int|
            0 <= m < merged.len() && m != pos ==> #[trigger] merged[m] == merged_before[m],
        merged[pos].name@ == merged_before[pos].name@,
        merged[pos].name@ == lists[u]@[k].name@,
        mdep_pair_ok(lists[u]@[k].module_dependency, merged[pos].module_dependency),
        merged_before[pos].module_dependency is Share,
        merged[pos].module_dependency is Share,
        versions_compatible(
            share_version(merged[pos].module_dependency),
            share_version(merged_before[pos].module_dependency),
        ),
    ensures
        modules_reconciled_upto(merged, lists, u, k + 1),
{
    assert forall|v: int, t: int|
        0 <= v < lists.len() && 0 <= t < lists[v]@.len() && (v < u || (v == u && t < k
            + 1)) implies module_entry_reconciled(merged, #[trigger] lists[v]@[t]) by {
        if v == u && t == k {
            assert((merged[pos]).name@ == lists[v]@[t].name@ && mdep_pair_ok(
                lists[v]@[t].module_dependency,
                merged[pos].module_dependency,
            ));
        } else {
            assert(module_entry_reconciled(merged_before, lists[v]@[t]));
            let m = choose|m: int|
                0 <= m < merged_before.len() && (#[trigger] merged_before[m]).name@
                    == lists[v]@[t].name@ && mdep_pair_ok(
                    lists[v]@[t].module_dependency,
                    merged_before[m].module_dependency,
                );
            if m == pos {
                lemma_mdep_pair_shift(
                    lists[v]@[t].module_dependency,
                    merged_before[pos].module_dependency,
                    merged[pos].module_dependency,
                );
                assert((merged[m]).name@ == lists[v]@[t].name@ && mdep_pair_ok(
                    lists[v]@[t].module_dependency,
                    merged[m].module_dependency,
                ));
            } else {
                assert((merged[m]).name@ == lists[v]@[t].name@ && mdep_pair_ok(
                    lists[v]@[t].module_dependency,
                    merged[m].module_dependency,
                ));
            }
        }
    }
}

/// Merges the import-module tables of several units.
///
/// Entries are keyed by name.  Unit 0's table is copied; a later entry whose
/// name is new is appended, one that is componentwise equal to the merged
/// entry of its name is reused, and two shared dependencies with compatible
/// versions are reconciled by keeping the newer one.  Any other same-name
/// pair is a conflict and aborts the merge.
#[verifier::rlimit(100)]
#[verifier::spinoff_prover]
pub fn merge_import_module_entries(
    import_module_entries_list: &Vec<Vec<ImportModuleEntry>>,
) -> (r: Result<(Vec<ImportModuleEntry>, Vec<Vec<usize>>), LinkerError>)
    requires
        import_module_entries_list.len() >= 1,
        import_module_names_distinct(import_module_entries_list@[0]@),
        import_module_versions_valid(import_module_entries_list@),
    ensures
        import_module_lists_compatible(import_module_entries_list@) ==> r is Ok,
        r is Ok ==> import_module_lists_compatible(import_module_entries_list@),
        r matches Err(le) ==> import_module_conflict_witness(
            le.error_type,
            import_module_entries_list@,
        ),
        r matches Ok(p) ==> ({
            let merged = p.0;
            let remaps = p.1;
            let lists = import_module_entries_list@;
            &&& remaps.len() == lists.len()
            &&& forall|u: int|
                0 <= u < remaps.len() ==> (#[trigger] remaps@[u])@.len() == lists[u]@.len()
            // every old index maps to the merged entry of the same name
            &&& forall|u: int, i: int|
                0 <= u < remaps.len() && 0 <= i < remaps@[u]@.len() ==> {
                    &&& (#[trigger] remaps@[u]@[i]) < merged.len()
                    &&& merged@[remaps@[u]@[i] as int].name@ == lists[u]@[i].name@
                }
            // nothing is invented
            &&& forall|k: int|
                0 <= k < merged@.len() ==> module_from_lists(lists, #[trigger] merged@[k])
            // the merged table names each dependency once
            &&& import_module_names_distinct(merged@)
            // the merged entry of a name is at least as new as every shared
            // dependency of that name
            &&& module_version_max_upto(merged@, lists, lists.len() as int, 0)
            // a single unit passes through unchanged
            &&& lists.len() == 1 ==> merged@.len() == lists[0]@.len()
            &&& lists.len() == 1 ==> forall|i: int|
                0 <= i < merged@.len() ==> import_module_deq(#[trigger] merged@[i], lists[0]@[i])
            &&& lists.len() == 1 ==> forall|i: int|
                0 <= i < remaps@[0]@.len() ==> (#[trigger] remaps@[0]@[i]) == i
            // the merged table names are the first-occurrence fold of the
            // input names
            &&& module_names_folded(merged@, lists)
        }),
{
    let ghost lists = import_module_entries_list@;
    let mut merged: Vec<ImportModuleEntry> = Vec::new();
    let mut remap0: Vec<usize> = Vec::new();
    let mut i: usize = 0;
    // copy the first list
    while i < import_module_entries_list[0].len()
        invariant
            import_module_entries_list.len() >= 1,
            lists == import_module_entries_list@,
            i <= lists[0]@.len(),
            merged.len() == i,
            remap0.len() == i,
            forall|k: int| 0 <= k < i ==> import_module_deq(#[trigger] merged@[k], lists[0]@[k]),
            forall|k: int| 0 <= k < i ==> (#[trigger] remap0@[k]) == k,
            import_module_names_distinct(lists[0]@) ==> import_module_names_distinct(merged@),
            import_module_names_distinct(lists[0]@) ==> module_version_max_upto(
                merged@,
                lists,
                0,
                i as int,
            ),
            modules_reconciled_upto(merged@, lists, 0, i as int),
        decreases import_module_entries_list[0].len() - i,
    {
        let ghost merged_at = merged@;
        merged.push(copy_import_module_entry(&import_module_entries_list[0][i]));
        remap0.push(i);
        proof {
            lemma_mdep_deq_sym(
                merged@[i as int].module_dependency,
                lists[0]@[i as int].module_dependency,
            );
            lemma_mreconciled_after_push(merged_at, merged@, lists, 0, i as int);
            if import_module_names_distinct(lists[0]@) {
                assert forall|x: int, y: int| 0 <= x < y < merged@.len() implies merged@[x].name@
                    != merged@[y].name@ by {
                    assert(merged@[x].name@ == lists[0]@[x].name@);
                    assert(merged@[y].name@ == lists[0]@[y].name@);
                }
                assert forall|m: int, v: int, t: int|
                    #![trigger merged@[m], lists[v]@[t]]
                    0 <= m < merged@.len() && 0 <= v < lists.len() && 0 <= t < lists[v]@.len() && (v
                        < 0 || (v == 0 && t < i + 1)) && lists[v]@[t].name@ == merged@[m].name@
                        && lists[v]@[t].module_dependency is Share implies {
                    &&& merged@[m].module_dependency is Share
                    &&& version_not_newer(
                        share_version(lists[v]@[t].module_dependency),
                        share_version(merged@[m].module_dependency),
                    )
                } by {
                    assert(merged@[m].name@ == lists[0]@[m].name@);
                    if m != t {
                        // two distinct unit-0 entries cannot share a name
                        if m < t {
                            assert(lists[0]@[m].name@ != lists[0]@[t].name@);
                        } else {
                            assert(lists[0]@[t].name@ != lists[0]@[m].name@);
                        }
                    } else {
                        assert(import_module_deq(merged@[m], lists[0]@[m]));
                        lemma_compare_version_refl(share_version(lists[v]@[t].module_dependency));
                    }
                }
            }
        }
        i += 1;
    }
    let mut remaps: Vec<Vec<usize>> = Vec::new();
    remaps.push(remap0);
    proof {
        assert(module_names_folded_at(merged@, lists, 1, 0));
        assert(modules_reconciled_upto(merged@, lists, 1, 0));
        if import_module_names_distinct(lists[0]@) {
            assert(module_version_max_upto(merged@, lists, 0, lists[0]@.len() as int));
            assert forall|m: int, v: int, t: int|
                #![trigger merged@[m], lists[v]@[t]]
                0 <= m < merged@.len() && 0 <= v < lists.len() && 0 <= t < lists[v]@.len() && (v < 1
                    || (v == 1 && t < 0)) && lists[v]@[t].name@ == merged@[m].name@
                    && lists[v]@[t].module_dependency is Share implies {
                &&& merged@[m].module_dependency is Share
                &&& version_not_newer(
                    share_version(lists[v]@[t].module_dependency),
                    share_version(merged@[m].module_dependency),
                )
            } by {
                assert(v == 0 && t < lists[0]@.len());
            }
        }
    }
    let mut u: usize = 1;
    while u < import_module_entries_list.len()
        invariant
            import_module_entries_list.len() >= 1,
            lists == import_module_entries_list@,
            import_module_versions_valid(lists),
            1 <= u <= lists.len(),
            remaps.len() == u,
            forall|v: int| 0 <= v < u ==> (#[trigger] remaps@[v])@.len() == lists[v]@.len(),
            forall|v: int, k: int|
                0 <= v < u && 0 <= k < remaps@[v]@.len() ==> {
                    &&& (#[trigger] remaps@[v]@[k]) < merged.len()
                    &&& merged@[remaps@[v]@[k] as int].name@ == lists[v]@[k].name@
                },
            forall|k: int| 0 <= k < merged@.len() ==> module_from_lists(lists, #[trigger] merged@[k]),
            import_module_names_distinct(lists[0]@) ==> import_module_names_distinct(merged@),
            import_module_names_distinct(lists[0]@) ==> module_version_max_upto(
                merged@,
                lists,
                u as int,
                0,
            ),
            u == 1 ==> merged@.len() == lists[0]@.len(),
            forall|k: int|
                u == 1 && 0 <= k < merged@.len() ==> import_module_deq(
                    #[trigger] merged@[k],
                    lists[0]@[k],
                ),
            forall|k: int| u == 1 && 0 <= k < remaps@[0]@.len() ==> (#[trigger] remaps@[0]@[k]) == k,
            module_names_folded_at(merged@, lists, u as int, 0),
            modules_reconciled_upto(merged@, lists, u as int, 0),
        decreases import_module_entries_list.len() - u,
    {
        let source = &import_module_entries_list[u];
        let mut indices: Vec<usize> = Vec::new();
        let mut k: usize = 0;
        while k < source.len()
            invariant
                import_module_entries_list.len() >= 1,
                lists == import_module_entries_list@,
                import_module_versions_valid(lists),
                1 <= u < lists.len(),
                source == &import_module_entries_list[u as int],
                k <= source@.len(),
                remaps.len() == u,
                indices.len() == k,
                forall|v: int| 0 <= v < u ==> (#[trigger] remaps@[v])@.len() == lists[v]@.len(),
                forall|v: int, m: int|
                    0 <= v < u && 0 <= m < remaps@[v]@.len() ==> {
                        &&& (#[trigger] remaps@[v]@[m]) < merged.len()
                        &&& merged@[remaps@[v]@[m] as int].name@ == lists[v]@[m].name@
                    },
                forall|m: int|
                    0 <= m < indices@.len() ==> {
                        &&& (#[trigger] indices@[m]) < merged.len()
                        &&& merged@[indices@[m] as int].name@ == lists[u as int]@[m].name@
                    },
                forall|m: int|
                    0 <= m < merged@.len() ==> module_from_lists(lists, #[trigger] merged@[m]),
                import_module_names_distinct(lists[0]@) ==> import_module_names_distinct(merged@),
                import_module_names_distinct(lists[0]@) ==> module_version_max_upto(
                    merged@,
                    lists,
                    u as int,
                    k as int,
                ),
                module_names_folded_at(merged@, lists, u as int, k as int),
                modules_reconciled_upto(merged@, lists, u as int, k as int),
            decreases source.len() - k,
        {
            let entry_source = &source[k];
            let ghost a = lists[u as int]@[k as int].module_dependency;
            let ghost name_k = lists[u as int]@[k as int].name@;
            let ghost name_acc = module_name_fold_upto(lists, u as int, k as int);
            match find_import_module_by_name(&merged, &entry_source.name) {
                Some(pos) => {
                    proof {
                        assert(name_acc[pos as int] == name_k);
                        assert(module_name_fold_upto(lists, u as int, k as int + 1) == name_acc);
                    }
                    let identical = module_dependency_matches(
                        &entry_source.module_dependency,
                        &merged[pos].module_dependency,
                    );
                    proof {
                        assert(module_from_lists(lists, merged@[pos as int]));
                    }
                    let ghost (wu, wi) = choose|wu: int, wi: int|
                        0 <= wu < lists.len() && 0 <= wi < lists[wu]@.len() && import_module_deq(
                            merged@[pos as int],
                            lists[wu]@[wi],
                        );
                    let ghost b = lists[wu]@[wi].module_dependency;
                    proof {
                        assert(module_dependency_deq(merged@[pos as int].module_dependency, b));
                    }
                    if identical {
                        proof {
                            if import_module_names_distinct(lists[0]@) {
                                assert forall|m: int, v: int, t: int|
                                    #![trigger merged@[m], lists[v]@[t]]
                                    0 <= m < merged@.len() && 0 <= v < lists.len() && 0 <= t
                                        < lists[v]@.len() && (v < u || (v == u && t < k + 1))
                                        && lists[v]@[t].name@ == merged@[m].name@
                                        && lists[v]@[t].module_dependency is Share implies {
                                    &&& merged@[m].module_dependency is Share
                                    &&& version_not_newer(
                                        share_version(lists[v]@[t].module_dependency),
                                        share_version(merged@[m].module_dependency),
                                    )
                                } by {
                                    if v == u && t == k {
                                        lemma_unique_module_name(merged@, pos as int, m);
                                        lemma_compare_version_refl(share_version(a));
                                    }
                                }
                            }
                            assert(mdep_pair_ok(a, merged@[pos as int].module_dependency));
                            assert(module_entry_reconciled(
                                merged@,
                                lists[u as int]@[k as int],
                            ));
                            lemma_mreconciled_after_reuse(merged@, lists, u as int, k as int);
                        }
                        indices.push(pos);
                    } else {
                        match &entry_source.module_dependency {
                            ModuleDependency::Local(_) => {
                                let e = if matches!(&merged[pos].module_dependency, ModuleDependency::Local(_)) {
                                    LinkerError::new(
                                        LinkErrorType::DependentSourceConflict(
                                            copy_string(&merged[pos].name),
                                        ),
                                    )
                                } else {
                                    LinkerError::new(
                                        LinkErrorType::DependentNameConflict(
                                            copy_string(&merged[pos].name),
                                        ),
                                    )
                                };
                                proof {
                                    assert(!module_dependency_deq(a, b));
                                    assert(!mdep_pair_ok(a, b));
                                    assert(import_module_conflict_witness(e.error_type, lists));
                                }
                                return Err(e);
                            },
                            ModuleDependency::Remote(_) => {
                                let e = if matches!(&merged[pos].module_dependency, ModuleDependency::Remote(_)) {
                                    LinkerError::new(
                                        LinkErrorType::DependentSourceConflict(
                                            copy_string(&merged[pos].name),
                                        ),
                                    )
                                } else {
                                    LinkerError::new(
                                        LinkErrorType::DependentNameConflict(
                                            copy_string(&merged[pos].name),
                                        ),
                                    )
                                };
                                proof {
                                    assert(!module_dependency_deq(a, b));
                                    assert(!mdep_pair_ok(a, b));
                                    assert(import_module_conflict_witness(e.error_type, lists));
                                }
                                return Err(e);
                            },
                            ModuleDependency::Share(share_source) => {
                                let cmp_opt: Option<VersionCompareResult> = match &merged[pos].module_dependency {
                                    ModuleDependency::Share(share_merged) => {
                                        proof {
                                            assert(b is Share);
                                            assert(share_version(
                                                merged@[pos as int].module_dependency,
                                            ) == share_version(b));
                                            assert(valid_version(share_version(b)));
                                        }
                                        Some(
                                            compare_version(
                                                share_source.version.as_str(),
                                                share_merged.version.as_str(),
                                            ),
                                        )
                                    },
                                    _ => None,
                                };
                                match cmp_opt {
                                    None => {
                                        let e = LinkerError::new(
                                            LinkErrorType::DependentNameConflict(
                                                copy_string(&merged[pos].name),
                                            ),
                                        );
                                        proof {
                                            assert(!module_dependency_deq(a, b));
                                            assert(!(b is Share));
                                            assert(!mdep_pair_ok(a, b));
                                            assert(import_module_conflict_witness(
                                                e.error_type,
                                                lists,
                                            ));
                                        }
                                        return Err(e);
                                    },
                                    Some(VersionCompareResult::Different) => {
                                        let e = LinkerError::new(
                                            LinkErrorType::DependentVersionConflict(
                                                copy_string(&merged[pos].name),
                                            ),
                                        );
                                        proof {
                                            assert(spec_compare_version(
                                                share_version(a),
                                                share_version(b),
                                            ) == VersionCompareResult::Different);
                                            if module_dependency_deq(a, b) {
                                                lemma_compare_version_refl(share_version(a));
                                            }
                                            assert(!mdep_pair_ok(a, b));
                                            assert(import_module_conflict_witness(
                                                e.error_type,
                                                lists,
                                            ));
                                        }
                                        return Err(e);
                                    },
                                    Some(VersionCompareResult::GreaterThan) => {
                                        // replace: the source entry is newer
                                        let ghost merged_before = merged@;
                                        let replacement = copy_import_module_entry(entry_source);
                                        merged[pos] = replacement;
                                        proof {
                                            assert(merged@[pos as int].name@ == name_k);
                                            assert(merged@[pos as int].name@
                                                == merged_before[pos as int].name@);
                                            assert(forall|m: int|
                                                0 <= m < merged@.len() && m != pos as int
                                                    ==> merged@[m] == merged_before[m]);
                                            assert(import_module_deq(
                                                merged@[pos as int],
                                                lists[u as int]@[k as int],
                                            ));
                                            assert(module_from_lists(lists, merged@[pos as int]));
                                            if import_module_names_distinct(lists[0]@) {
                                                assert forall|x: int, y: int|
                                                    0 <= x < y < merged@.len() implies merged@[x].name@
                                                    != merged@[y].name@ by {
                                                    assert(merged@[x].name@
                                                        == merged_before[x].name@);
                                                    assert(merged@[y].name@
                                                        == merged_before[y].name@);
                                                }
                                                assert forall|m: int, v: int, t: int|
                                                    #![trigger merged@[m], lists[v]@[t]]
                                                    0 <= m < merged@.len() && 0 <= v < lists.len()
                                                        && 0 <= t < lists[v]@.len() && (v < u || (v
                                                        == u && t < k + 1)) && lists[v]@[t].name@
                                                        == merged@[m].name@
                                                        && lists[v]@[t].module_dependency
                                                        is Share implies {
                                                    &&& merged@[m].module_dependency is Share
                                                    &&& version_not_newer(
                                                        share_version(
                                                            lists[v]@[t].module_dependency,
                                                        ),
                                                        share_version(
                                                            merged@[m].module_dependency,
                                                        ),
                                                    )
                                                } by {
                                                    if m == pos as int {
                                                        if v == u && t == k {
                                                            lemma_compare_version_refl(
                                                                share_version(a),
                                                            );
                                                        } else {
                                                            // an earlier same-name version was no
                                                            // newer than the replaced entry
                                                            assert(lists[v]@[t].name@
                                                                == merged_before[m].name@);
                                                            assert(merged_before[m].module_dependency
                                                                is Share);
                                                            assert(version_not_newer(
                                                                share_version(
                                                                    lists[v]@[t].module_dependency,
                                                                ),
                                                                share_version(
                                                                    merged_before[m].module_dependency,
                                                                ),
                                                            ));
                                                            assert(share_version(
                                                                merged_before[pos as int].module_dependency,
                                                            ) == share_version(b));
                                                            lemma_version_keep_order(
                                                                share_version(
                                                                    lists[v]@[t].module_dependency,
                                                                ),
                                                                share_version(
                                                                    merged_before[m].module_dependency,
                                                                ),
                                                                share_version(a),
                                                            );
                                                        }
                                                    } else {
                                                        assert(merged@[m] == merged_before[m]);
                                                        if v == u && t == k {
                                                            lemma_unique_module_name(
                                                                merged@,
                                                                pos as int,
                                                                m,
                                                            );
                                                        } else {
                                                            assert(lists[v]@[t].name@
                                                                == merged_before[m].name@);
                                                        }
                                                    }
                                                }
                                            }
                                            lemma_mdep_deq_sym(
                                                merged@[pos as int].module_dependency,
                                                a,
                                            );
                                            assert(versions_compatible(
                                                share_version(
                                                    merged@[pos as int].module_dependency,
                                                ),
                                                share_version(
                                                    merged_before[pos as int].module_dependency,
                                                ),
                                            ));
                                            lemma_mreconciled_after_replace(
                                                merged_before,
                                                merged@,
                                                lists,
                                                u as int,
                                                k as int,
                                                pos as int,
                                            );
                                        }
                                        indices.push(pos);
                                    },
                                    Some(VersionCompareResult::Equals)
                                    | Some(VersionCompareResult::LessThan) => {
                                        // keep: the merged entry is newer or the same
                                        proof {
                                            if import_module_names_distinct(lists[0]@) {
                                                assert forall|m: int, v: int, t: int|
                                                    #![trigger merged@[m], lists[v]@[t]]
                                                    0 <= m < merged@.len() && 0 <= v < lists.len()
                                                        && 0 <= t < lists[v]@.len() && (v < u || (v
                                                        == u && t < k + 1)) && lists[v]@[t].name@
                                                        == merged@[m].name@
                                                        && lists[v]@[t].module_dependency
                                                        is Share implies {
                                                    &&& merged@[m].module_dependency is Share
                                                    &&& version_not_newer(
                                                        share_version(
                                                            lists[v]@[t].module_dependency,
                                                        ),
                                                        share_version(
                                                            merged@[m].module_dependency,
                                                        ),
                                                    )
                                                } by {
                                                    if v == u && t == k {
                                                        lemma_unique_module_name(
                                                            merged@,
                                                            pos as int,
                                                            m,
                                                        );
                                                        assert(share_version(
                                                            merged@[pos as int].module_dependency,
                                                        ) == share_version(b));
                                                    }
                                                }
                                            }
                                            assert(merged@[pos as int].module_dependency
                                                is Share);
                                            assert(versions_compatible(
                                                share_version(a),
                                                share_version(
                                                    merged@[pos as int].module_dependency,
                                                ),
                                            ));
                                            assert(mdep_pair_ok(
                                                a,
                                                merged@[pos as int].module_dependency,
                                            ));
                                            assert(module_entry_reconciled(
                                                merged@,
                                                lists[u as int]@[k as int],
                                            ));
                                            lemma_mreconciled_after_reuse(
                                                merged@,
                                                lists,
                                                u as int,
                                                k as int,
                                            );
                                        }
                                        indices.push(pos);
                                    },
                                }
                            },
                            ModuleDependency::Runtime => {
                                let e = LinkerError::new(
                                    LinkErrorType::DependentNameConflict(
                                        copy_string(&merged[pos].name),
                                    ),
                                );
                                proof {
                                    assert(!module_dependency_deq(a, b));
                                    assert(!mdep_pair_ok(a, b));
                                    assert(import_module_conflict_witness(e.error_type, lists));
                                }
                                return Err(e);
                            },
                            ModuleDependency::Module => {
                                let e = LinkerError::new(
                                    LinkErrorType::DependentNameConflict(
                                        copy_string(&merged[pos].name),
                                    ),
                                );
                                proof {
                                    assert(!module_dependency_deq(a, b));
                                    assert(!mdep_pair_ok(a, b));
                                    assert(import_module_conflict_witness(e.error_type, lists));
                                }
                                return Err(e);
                            },
                        }
                    }
                },
                None => {
                    let pos = merged.len();
                    let ghost merged_before = merged@;
                    proof {
                        assert forall|m: int| 0 <= m < name_acc.len() implies #[trigger] name_acc[m]
                            != name_k by {
                            assert(merged@[m].name@ == name_acc[m]);
                        }
                        assert(module_name_fold_upto(lists, u as int, k as int + 1)
                            == name_acc.push(name_k));
                    }
                    merged.push(copy_import_module_entry(entry_source));
                    proof {
                        assert(import_module_deq(merged@[pos as int], lists[u as int]@[k as int]));
                        lemma_mdep_deq_sym(merged@[pos as int].module_dependency, a);
                        lemma_mreconciled_after_push(
                            merged_before,
                            merged@,
                            lists,
                            u as int,
                            k as int,
                        );
                        assert(module_from_lists(lists, merged@[pos as int]));
                        if import_module_names_distinct(lists[0]@) {
                            assert forall|x: int, y: int|
                                0 <= x < y < merged@.len() implies merged@[x].name@
                                != merged@[y].name@ by {
                                if y == pos as int {
                                    assert(merged_before[x].name@ != name_k);
                                }
                            }
                            assert forall|m: int, v: int, t: int|
                                #![trigger merged@[m], lists[v]@[t]]
                                0 <= m < merged@.len() && 0 <= v < lists.len() && 0 <= t
                                    < lists[v]@.len() && (v < u || (v == u && t < k + 1))
                                    && lists[v]@[t].name@ == merged@[m].name@
                                    && lists[v]@[t].module_dependency is Share implies {
                                &&& merged@[m].module_dependency is Share
                                &&& version_not_newer(
                                    share_version(lists[v]@[t].module_dependency),
                                    share_version(merged@[m].module_dependency),
                                )
                            } by {
                                if m == pos as int {
                                    if v == u && t == k {
                                        lemma_compare_version_refl(share_version(a));
                                    } else {
                                        // a processed entry of this name would already
                                        // have a merged entry of this name
                                        if v < u {
                                            let idx = remaps@[v]@[t] as int;
                                            assert(merged_before[idx].name@ == lists[v]@[t].name@);
                                            assert(merged_before[idx].name@ != name_k);
                                        } else {
                                            let idx = indices@[t] as int;
                                            assert(merged_before[idx].name@ == lists[v]@[t].name@);
                                            assert(merged_before[idx].name@ != name_k);
                                        }
                                    }
                                } else {
                                    assert(merged@[m] == merged_before[m]);
                                    if v == u && t == k {
                                        assert(merged_before[m].name@ != name_k);
                                    }
                                }
                            }
                        }
                    }
                    indices.push(pos);
                },
            }
            k += 1;
        }
        proof {
            assert(module_name_fold_upto(lists, u as int + 1, 0) == module_name_fold_upto(
                lists,
                u as int,
                lists[u as int]@.len() as int,
            ));
        }
        remaps.push(indices);
        u += 1;
    }
    proof {
        assert(module_names_folded_at(merged@, lists, lists.len() as int, 0));
        // every two same-name inputs join through the one merged entry of
        // their name
        assert forall|u2: int, i2: int, v2: int, j2: int|
            0 <= u2 < lists.len() && 0 <= i2 < lists[u2]@.len() && 0 <= v2 < lists.len() && 0 <= j2
                < lists[v2]@.len() && (#[trigger] lists[u2]@[i2]).name@ == (
            #[trigger] lists[v2]@[j2]).name@ implies mdep_pair_ok(
            lists[u2]@[i2].module_dependency,
            lists[v2]@[j2].module_dependency,
        ) by {
            assert(module_entry_reconciled(merged@, lists[u2]@[i2]));
            assert(module_entry_reconciled(merged@, lists[v2]@[j2]));
            let m1 = choose|m: int|
                0 <= m < merged@.len() && (#[trigger] merged@[m]).name@ == lists[u2]@[i2].name@
                    && mdep_pair_ok(lists[u2]@[i2].module_dependency, merged@[m].module_dependency);
            let m2 = choose|m: int|
                0 <= m < merged@.len() && (#[trigger] merged@[m]).name@ == lists[v2]@[j2].name@
                    && mdep_pair_ok(lists[v2]@[j2].module_dependency, merged@[m].module_dependency);
            if m1 < m2 {
                assert(merged@[m1].name@ != merged@[m2].name@);
            }
            if m2 < m1 {
                assert(merged@[m2].name@ != merged@[m1].name@);
            }
            lemma_mdep_pair_join(
                lists[u2]@[i2].module_dependency,
                lists[v2]@[j2].module_dependency,
                merged@[m1].module_dependency,
            );
        }
        assert(import_module_lists_compatible(lists));
    }
    Ok((merged, remaps))
}

// ---------------------------------------------------------------------------
// external-library entries
// ---------------------------------------------------------------------------

/// No two entries of the table share a name.
pub open spec fn external_library_names_distinct(s: Seq<ExternalLibraryEntry>) -> bool {
    forall|i: int, j: int|
        0 <= i < j < s.len() ==> (#[trigger] s[i]).name@ != (#[trigger] s[j]).name@
}

/// The version string of a shared dependency; empty for the other variants.
pub open spec fn share_version_x(d: ExternalLibraryDependency) -> Seq<char> {
    match d {
        ExternalLibraryDependency::Share(s) => s.version@,
        _ => Seq::empty(),
    }
}

/// Two dependencies of one name can be merged: they are componentwise equal,
/// or both are shared with versions whose compatibility keys agree.
pub open spec fn xdep_pair_ok(a: ExternalLibraryDependency, b: ExternalLibraryDependency) -> bool {
    ||| external_dependency_deq(a, b)
    ||| (a is Share && b is Share && versions_compatible(share_version_x(a), share_version_x(b)))
}

/// Every two same-name entries across all units can be merged.
pub open spec fn external_library_lists_compatible(lists: Seq<Vec<ExternalLibraryEntry>>) -> bool {
    forall|u: int, i: int, v: int, j: int|
        0 <= u < lists.len() && 0 <= i < lists[u]@.len() && 0 <= v < lists.len() && 0 <= j
            < lists[v]@.len() && (#[trigger] lists[u]@[i]).name@ == (#[trigger] lists[v]@[j]).name@
            ==> xdep_pair_ok(lists[u]@[i].value, lists[v]@[j].value)
}

/// Every shared dependency of the lists carries a well-formed version string.
pub open spec fn external_library_versions_valid(lists: Seq<Vec<ExternalLibraryEntry>>) -> bool {
    forall|u: int, i: int|
        0 <= u < lists.len() && 0 <= i < lists[u]@.len() ==> ((#[trigger] lists[u]@[i]).value
            is Share ==> valid_version(share_version_x(lists[u]@[i].value)))
}

/// Some entry of some source table is componentwise equal to `e`.
pub open spec fn library_from_lists(lists: Seq<Vec<ExternalLibraryEntry>>, e: ExternalLibraryEntry) -> bool {
    exists|u: int, i: int|
        0 <= u < lists.len() && 0 <= i < lists[u]@.len() && external_library_deq(
            e,
            #[trigger] lists[u]@[i],
        )
}

/// The error a conflicting same-name pair produces: a source conflict for two
/// file-based dependencies of one kind, a version conflict for two shared
/// dependencies, and a name conflict otherwise.
pub open spec fn xdep_conflict_error(
    e: LinkErrorType,
    n: Seq<char>,
    a: ExternalLibraryDependency,
    b: ExternalLibraryDependency,
) -> bool {
    if (a is Local && b is Local) || (a is Remote && b is Remote) {
        e matches LinkErrorType::DependentSourceConflict(m) && m@ == n
    } else if a is Share && b is Share {
        e matches LinkErrorType::DependentVersionConflict(m) && m@ == n
    } else {
        e matches LinkErrorType::DependentNameConflict(m) && m@ == n
    }
}

/// Some same-name pair of the lists cannot be merged, and `e` is the error it
/// produces.
pub open spec fn external_library_conflict_witness(
    e: LinkErrorType,
    lists: Seq<Vec<ExternalLibraryEntry>>,
) -> bool {
    exists|u: int, i: int, v: int, j: int|
        {
            &&& 0 <= u < lists.len() && 0 <= i < lists[u]@.len()
            &&& 0 <= v < lists.len() && 0 <= j < lists[v]@.len()
            &&& (#[trigger] lists[u]@[i]).name@ == (#[trigger] lists[v]@[j]).name@
            &&& !xdep_pair_ok(lists[u]@[i].value, lists[v]@[j].value)
            &&& xdep_conflict_error(
                e,
                lists[u]@[i].name@,
                lists[u]@[i].value,
                lists[v]@[j].value,
            )
        }
}

/// Finds the first entry named `name`.
fn find_external_library_by_name(entries: &Vec<ExternalLibraryEntry>, name: &String) -> (r: Option<usize>)
    ensures
        match r {
            Some(p) => {
                &&& p < entries.len()
                &&& entries@[p as int].name@ == name@
                &&& forall|k: int| 0 <= k < p ==> (#[trigger] entries@[k]).name@ != name@
            },
            None => forall|k: int| 0 <= k < entries@.len() ==> (#[trigger] entries@[k]).name@ != name@,
        },
{
    let mut i: usize = 0;
    while i < entries.len()
        invariant
            i <= entries.len(),
            forall|k: int| 0 <= k < i ==> (#[trigger] entries@[k]).name@ != name@,
        decreases entries.len() - i,
    {
        if string_matches(&entries[i].name, name) {
            return Some(i);
        }
        i += 1;
    }
    None
}

/// Every shared dependency among the inputs processed so far (all of units
/// `v < u`, and the first `k` entries of unit `u`) is no newer than the
/// merged entry of its name.
pub open spec fn library_version_max_upto(
    merged: Seq<ExternalLibraryEntry>,
    lists: Seq<Vec<ExternalLibraryEntry>>,
    u: int,
    k: int,
) -> bool {
    forall|m: int, v: int, t: int|
        #![trigger merged[m], lists[v]@[t]]
        0 <= m < merged.len() && 0 <= v < lists.len() && 0 <= t < lists[v]@.len() && (v < u || (v
            == u && t < k)) && lists[v]@[t].name@ == merged[m].name@
            && lists[v]@[t].value is Share ==> {
            &&& merged[m].value is Share
            &&& version_not_newer(
                share_version_x(lists[v]@[t].value),
                share_version_x(merged[m].value),
            )
        }
}

proof fn lemma_unique_library_name(s: Seq<ExternalLibraryEntry>, p: int, m: int)
    requires
        external_library_names_distinct(s),
        0 <= p < s.len(),
        0 <= m < s.len(),
        s[p].name@ == s[m].name@,
    ensures
        p == m,
{
    if p < m {
        assert(s[p].name@ != s[m].name@);
    } else if m < p {
        assert(s[m].name@ != s[p].name@);
    }
}


/// Componentwise equality of external-library dependencies is symmetric.
pub proof fn lemma_xdep_deq_sym(a: ExternalLibraryDependency, b: ExternalLibraryDependency)
    ensures
        external_dependency_deq(a, b) == external_dependency_deq(b, a),
{
    match (a, b) {
        (ExternalLibraryDependency::Share(x), ExternalLibraryDependency::Share(y)) => {
            lemma_share_deq_sym(x, y);
        },
        _ => {},
    }
}

proof fn lemma_share_deq_sym(x: DependencyShare, y: DependencyShare)
    ensures
        crate::entry::share_deq(x, y) == crate::entry::share_deq(y, x),
{
    let f = |p: crate::entry::DependencyParameter, q: crate::entry::DependencyParameter|
        crate::entry::parameter_deq(p, q);
    if crate::entry::seq_all2(x.parameters@, y.parameters@, f) {
        assert forall|i: int| 0 <= i < y.parameters@.len() implies #[trigger] f(
            y.parameters@[i],
            x.parameters@[i],
        ) by {
            assert(f(x.parameters@[i], y.parameters@[i]));
        }
    }
    if crate::entry::seq_all2(y.parameters@, x.parameters@, f) {
        assert forall|i: int| 0 <= i < x.parameters@.len() implies #[trigger] f(
            x.parameters@[i],
            y.parameters@[i],
        ) by {
            assert(f(y.parameters@[i], x.parameters@[i]));
        }
    }
}

/// Componentwise equality of external-library dependencies is transitive.
pub proof fn lemma_xdep_deq_trans(
    a: ExternalLibraryDependency,
    b: ExternalLibraryDependency,
    c: ExternalLibraryDependency,
)
    requires
        external_dependency_deq(a, b),
        external_dependency_deq(b, c),
    ensures
        external_dependency_deq(a, c),
{
    match (a, c) {
        (ExternalLibraryDependency::Share(x), ExternalLibraryDependency::Share(z)) => {
            let y = b->Share_0;
            let f = |p: crate::entry::DependencyParameter, q: crate::entry::DependencyParameter|
                crate::entry::parameter_deq(p, q);
            assert forall|i: int| 0 <= i < x.parameters@.len() implies #[trigger] f(
                x.parameters@[i],
                z.parameters@[i],
            ) by {
                assert(f(x.parameters@[i], y.parameters@[i]));
                assert(f(y.parameters@[i], z.parameters@[i]));
            }
        },
        _ => {},
    }
}

/// Whether two same-name dependencies can be merged, and which error a
/// conflict produces, depend only on the dependencies' views: componentwise
/// equal replacements decide alike.
pub proof fn lemma_xdep_pair_congruence(
    a: ExternalLibraryDependency,
    a2: ExternalLibraryDependency,
    b: ExternalLibraryDependency,
    b2: ExternalLibraryDependency,
)
    requires
        external_dependency_deq(a2, a),
        external_dependency_deq(b2, b),
    ensures
        xdep_pair_ok(a, b) == xdep_pair_ok(a2, b2),
        forall|e: LinkErrorType, n: Seq<char>|
            #[trigger] xdep_conflict_error(e, n, a, b) == xdep_conflict_error(e, n, a2, b2),
{
    lemma_xdep_deq_sym(a2, a);
    lemma_xdep_deq_sym(b2, b);
    if external_dependency_deq(a, b) {
        lemma_xdep_deq_trans(a2, a, b);
        lemma_xdep_deq_trans(a2, b, b2);
    }
    if external_dependency_deq(a2, b2) {
        lemma_xdep_deq_trans(a, a2, b2);
        lemma_xdep_deq_trans(a, b2, b);
    }
}

/// The merged table's names after unit 0's names as they stand and the first
/// `i` names of each unit up to `u`, folded in unit-major, declaration-minor
/// order.
pub open spec fn library_name_fold_upto(
    lists: Seq<Vec<ExternalLibraryEntry>>,
    u: int,
    i: int,
) -> Seq<Seq<char>>
    decreases u, i,
    when i >= 0
{
    if u <= 1 && i <= 0 {
        Seq::new(lists[0]@.len(), |k: int| lists[0]@[k].name@)
    } else if i <= 0 {
        library_name_fold_upto(lists, u - 1, lists[u - 1]@.len() as int)
    } else {
        module_name_fold_insert(library_name_fold_upto(lists, u, i - 1), lists[u]@[i - 1].name@)
    }
}

/// `merged` names, position for position, the fold prefix at unit `u`,
/// entry `i`.
pub open spec fn library_names_folded_at(
    merged: Seq<ExternalLibraryEntry>,
    lists: Seq<Vec<ExternalLibraryEntry>>,
    u: int,
    i: int,
) -> bool {
    &&& merged.len() == library_name_fold_upto(lists, u, i).len()
    &&& forall|k: int|
        0 <= k < merged.len() ==> (#[trigger] merged[k]).name@ == library_name_fold_upto(
            lists,
            u,
            i,
        )[k]
}

/// The merged table holds one entry per distinct name, in first-occurrence
/// order.
pub open spec fn library_names_folded(
    merged: Seq<ExternalLibraryEntry>,
    lists: Seq<Vec<ExternalLibraryEntry>>,
) -> bool {
    library_names_folded_at(merged, lists, lists.len() as int, 0)
}

/// Version compatibility is symmetric and transitive: it only compares the
/// fields that pin the compatibility key.
proof fn lemma_versions_compatible_equiv(x: Seq<char>, y: Seq<char>, z: Seq<char>)
    ensures
        versions_compatible(x, y) == versions_compatible(y, x),
        versions_compatible(x, y) && versions_compatible(y, z) ==> versions_compatible(x, z),
{
}

/// Two dependencies that can each be merged with a common representative can
/// be merged with each other.
proof fn lemma_xdep_pair_join(
    x: ExternalLibraryDependency,
    y: ExternalLibraryDependency,
    r: ExternalLibraryDependency,
)
    requires
        xdep_pair_ok(x, r),
        xdep_pair_ok(y, r),
    ensures
        xdep_pair_ok(x, y),
{
    lemma_xdep_deq_sym(y, r);
    lemma_versions_compatible_equiv(share_version_x(y), share_version_x(r), share_version_x(x));
    lemma_versions_compatible_equiv(share_version_x(x), share_version_x(r), share_version_x(y));
    lemma_versions_compatible_equiv(share_version_x(r), share_version_x(y), share_version_x(x));
    if external_dependency_deq(x, r) && external_dependency_deq(y, r) {
        lemma_xdep_deq_trans(x, r, y);
    }
}

/// Replacing a representative by a newer compatible one keeps every entry
/// that could be merged with it mergeable.
proof fn lemma_xdep_pair_shift(
    x: ExternalLibraryDependency,
    old_rep: ExternalLibraryDependency,
    new_rep: ExternalLibraryDependency,
)
    requires
        xdep_pair_ok(x, old_rep),
        old_rep is Share,
        new_rep is Share,
        versions_compatible(share_version_x(new_rep), share_version_x(old_rep)),
    ensures
        xdep_pair_ok(x, new_rep),
{
    lemma_versions_compatible_equiv(
        share_version_x(new_rep),
        share_version_x(old_rep),
        share_version_x(x),
    );
    lemma_versions_compatible_equiv(
        share_version_x(x),
        share_version_x(old_rep),
        share_version_x(new_rep),
    );
}

/// The merged table holds an entry of `e`'s name that `e` can be merged
/// with.
spec fn library_entry_reconciled(
    merged: Seq<ExternalLibraryEntry>,
    e: ExternalLibraryEntry,
) -> bool {
    exists|m: int|
        0 <= m < merged.len() && (#[trigger] merged[m]).name@ == e.name@ && xdep_pair_ok(
            e.value,
            merged[m].value,
        )
}

/// Every input entry before unit `u`, entry `k` is reconciled with the
/// merged table.
spec fn libraries_reconciled_upto(
    merged: Seq<ExternalLibraryEntry>,
    lists: Seq<Vec<ExternalLibraryEntry>>,
    u: int,
    k: int,
) -> bool {
    forall|v: int, t: int|
        0 <= v < lists.len() && 0 <= t < lists[v]@.len() && (v < u || (v == u && t < k))
            ==> library_entry_reconciled(merged, #[trigger] lists[v]@[t])
}

/// Appending an entry that is reconciled with itself keeps every earlier
/// input reconciled and covers the new one.
proof fn lemma_reconciled_after_push(
    merged_before: Seq<ExternalLibraryEntry>,
    merged: Seq<ExternalLibraryEntry>,
    lists: Seq<Vec<ExternalLibraryEntry>>,
    u: int,
    k: int,
)
    requires
        0 <= u < lists.len(),
        0 <= k < lists[u]@.len(),
        libraries_reconciled_upto(merged_before, lists, u, k),
        merged.len() == merged_before.len() + 1,
        forall|m: int| 0 <= m < merged_before.len() ==> #[trigger] merged[m] == merged_before[m],
        merged[merged_before.len() as int].name@ == lists[u]@[k].name@,
        xdep_pair_ok(lists[u]@[k].value, merged[merged_before.len() as int].value),
    ensures
        libraries_reconciled_upto(merged, lists, u, k + 1),
{
    assert forall|v: int, t: int|
        0 <= v < lists.len() && 0 <= t < lists[v]@.len() && (v < u || (v == u && t < k
            + 1)) implies library_entry_reconciled(merged, #[trigger] lists[v]@[t]) by {
        if v == u && t == k {
            assert((merged[merged_before.len() as int]).name@ == lists[v]@[t].name@
                && xdep_pair_ok(lists[v]@[t].value, merged[merged_before.len() as int].value));
        } else {
            assert(library_entry_reconciled(merged_before, lists[v]@[t]));
            let m = choose|m: int|
                0 <= m < merged_before.len() && (#[trigger] merged_before[m]).name@
                    == lists[v]@[t].name@ && xdep_pair_ok(lists[v]@[t].value, merged_before[m].value);
            assert((merged[m]).name@ == lists[v]@[t].name@ && xdep_pair_ok(
                lists[v]@[t].value,
                merged[m].value,
            ));
        }
    }
}

/// An unchanged table that reconciles the current entry covers one more
/// input.
proof fn lemma_reconciled_after_reuse(
    merged: Seq<ExternalLibraryEntry>,
    lists: Seq<Vec<ExternalLibraryEntry>>,
    u: int,
    k: int,
)
    requires
        0 <= u < lists.len(),
        0 <= k < lists[u]@.len(),
        libraries_reconciled_upto(merged, lists, u, k),
        library_entry_reconciled(merged, lists[u]@[k]),
    ensures
        libraries_reconciled_upto(merged, lists, u, k + 1),
{
}

/// Replacing the representative at `pos` by a newer compatible shared entry
/// of the same name keeps every earlier input reconciled.
proof fn lemma_reconciled_after_replace(
    merged_before: Seq<ExternalLibraryEntry>,
    merged: Seq<ExternalLibraryEntry>,
    lists: Seq<Vec<ExternalLibraryEntry>>,
    u: int,
    k: int,
    pos: int,
)
    requires
        0 <= u < lists.len(),
        0 <= k < lists[u]@.len(),
        libraries_reconciled_upto(merged_before, lists, u, k),
        merged.len() == merged_before.len(),
        0 <= pos < merged.len(),
        forall|m: int|
            0 <= m < merged.len() && m != pos ==> #[trigger] merged[m] == merged_before[m],
        merged[pos].name@ == merged_before[pos].name@,
        merged[pos].name@ == lists[u]@[k].name@,
        xdep_pair_ok(lists[u]@[k].value, merged[pos].value),
        merged_before[pos].value is Share,
        merged[pos].value is Share,
        versions_compatible(
            share_version_x(merged[pos].value),
            share_version_x(merged_before[pos].value),
        ),
    ensures
        libraries_reconciled_upto(merged, lists, u, k + 1),
{
    assert forall|v: int, t: int|
        0 <= v < lists.len() && 0 <= t < lists[v]@.len() && (v < u || (v == u && t < k
            + 1)) implies library_entry_reconciled(merged, #[trigger] lists[v]@[t]) by {
        if v == u && t == k {
            assert((merged[pos]).name@ == lists[v]@[t].name@ && xdep_pair_ok(
                lists[v]@[t].value,
                merged[pos].value,
            ));
        } else {
            assert(library_entry_reconciled(merged_before, lists[v]@[t]));
            let m = choose|m: int|
                0 <= m < merged_before.len() && (#[trigger] merged_before[m]).name@
                    == lists[v]@[t].name@ && xdep_pair_ok(lists[v]@[t].value, merged_before[m].value);
            if m == pos {
                lemma_xdep_pair_shift(
                    lists[v]@[t].value,
                    merged_before[pos].value,
                    merged[pos].value,
                );
                assert((merged[m]).name@ == lists[v]@[t].name@ && xdep_pair_ok(
                    lists[v]@[t].value,
                    merged[m].value,
                ));
            } else {
                assert((merged[m]).name@ == lists[v]@[t].name@ && xdep_pair_ok(
                    lists[v]@[t].value,
                    merged[m].value,
                ));
            }
        }
    }
}

/// The library name fold reads only lengths and names, so tables whose
/// entries agree on names fold alike.
pub proof fn lemma_library_name_fold_congr(
    a: Seq<Vec<ExternalLibraryEntry>>,
    b: Seq<Vec<ExternalLibraryEntry>>,
    u: int,
    i: int,
)
    requires
        a.len() == b.len(),
        a.len() >= 1,
        forall|v: int| 0 <= v < a.len() ==> (#[trigger] a[v])@.len() == b[v]@.len(),
        forall|v: int, k: int|
            0 <= v < a.len() && 0 <= k < a[v]@.len() ==> (#[trigger] a[v]@[k]).name@
                == b[v]@[k].name@,
        0 <= u <= a.len(),
        0 <= i,
        u < a.len() ==> i <= a[u]@.len(),
        u == a.len() ==> i == 0,
    ensures
        library_name_fold_upto(a, u, i) == library_name_fold_upto(b, u, i),
    decreases u, i,
{
    if u <= 1 && i <= 0 {
        assert(Seq::new(a[0]@.len(), |k: int| a[0]@[k].name@) =~= Seq::new(
            b[0]@.len(),
            |k: int| b[0]@[k].name@,
        ));
    } else if i <= 0 {
        lemma_library_name_fold_congr(a, b, u - 1, a[u - 1]@.len() as int);
    } else {
        lemma_library_name_fold_congr(a, b, u, i - 1);
    }
}

/// Merges the external-library tables of several units, keyed by name with
/// the same reconciliation discipline as
/// [`merge_import_module_entries`].
///
#[verifier::rlimit(100)]
#[verifier::spinoff_prover]
pub fn merge_external_library_entries(
    external_library_entries_list: &Vec<Vec<ExternalLibraryEntry>>,
) -> (r: Result<(Vec<ExternalLibraryEntry>, Vec<Vec<usize>>), LinkerError>)
    requires
        external_library_entries_list.len() >= 1,
        external_library_names_distinct(external_library_entries_list@[0]@),
        external_library_versions_valid(external_library_entries_list@),
    ensures
        external_library_lists_compatible(external_library_entries_list@) ==> r is Ok,
        r is Ok ==> external_library_lists_compatible(external_library_entries_list@),
        r matches Err(le) ==> external_library_conflict_witness(
            le.error_type,
            external_library_entries_list@,
        ),
        r matches Ok(p) ==> ({
            let merged = p.0;
            let remaps = p.1;
            let lists = external_library_entries_list@;
            &&& remaps.len() == lists.len()
            &&& forall|u: int|
                0 <= u < remaps.len() ==> (#[trigger] remaps@[u])@.len() == lists[u]@.len()
            // every old index maps to the merged entry of the same name
            &&& forall|u: int, i: int|
                0 <= u < remaps.len() && 0 <= i < remaps@[u]@.len() ==> {
                    &&& (#[trigger] remaps@[u]@[i]) < merged.len()
                    &&& merged@[remaps@[u]@[i] as int].name@ == lists[u]@[i].name@
                }
            // nothing is invented
            &&& forall|k: int|
                0 <= k < merged@.len() ==> library_from_lists(lists, #[trigger] merged@[k])
            // the merged table names each library once
            &&& external_library_names_distinct(merged@)
            // the merged entry of a name is at least as new as every shared
            // dependency of that name
            &&& library_version_max_upto(merged@, lists, lists.len() as int, 0)
            // a single unit passes through unchanged
            &&& lists.len() == 1 ==> merged@.len() == lists[0]@.len()
            &&& lists.len() == 1 ==> forall|i: int|
                0 <= i < merged@.len() ==> external_library_deq(#[trigger] merged@[i], lists[0]@[i])
            &&& lists.len() == 1 ==> forall|i: int|
                0 <= i < remaps@[0]@.len() ==> (#[trigger] remaps@[0]@[i]) == i
            // the merged table names are the first-occurrence fold of the
            // input names
            &&& library_names_folded(merged@, lists)
        }),
{
    let ghost lists = external_library_entries_list@;
    let mut merged: Vec<ExternalLibraryEntry> = Vec::new();
    let mut remap0: Vec<usize> = Vec::new();
    let mut i: usize = 0;
    // copy the first list
    while i < external_library_entries_list[0].len()
        invariant
            external_library_entries_list.len() >= 1,
            lists == external_library_entries_list@,
            i <= lists[0]@.len(),
            merged.len() == i,
            remap0.len() == i,
            forall|k: int| 0 <= k < i ==> external_library_deq(#[trigger] merged@[k], lists[0]@[k]),
            forall|k: int| 0 <= k < i ==> (#[trigger] remap0@[k]) == k,
            external_library_names_distinct(lists[0]@) ==> external_library_names_distinct(merged@),
            external_library_names_distinct(lists[0]@) ==> library_version_max_upto(
                merged@,
                lists,
                0,
                i as int,
            ),
            libraries_reconciled_upto(merged@, lists, 0, i as int),
        decreases external_library_entries_list[0].len() - i,
    {
        let ghost merged_at = merged@;
        merged.push(copy_external_library_entry(&external_library_entries_list[0][i]));
        remap0.push(i);
        proof {
            lemma_xdep_deq_sym(merged@[i as int].value, lists[0]@[i as int].value);
            lemma_reconciled_after_push(merged_at, merged@, lists, 0, i as int);
            if external_library_names_distinct(lists[0]@) {
                assert forall|x: int, y: int| 0 <= x < y < merged@.len() implies merged@[x].name@
                    != merged@[y].name@ by {
                    assert(merged@[x].name@ == lists[0]@[x].name@);
                    assert(merged@[y].name@ == lists[0]@[y].name@);
                }
                assert forall|m: int, v: int, t: int|
                    #![trigger merged@[m], lists[v]@[t]]
                    0 <= m < merged@.len() && 0 <= v < lists.len() && 0 <= t < lists[v]@.len() && (v
                        < 0 || (v == 0 && t < i + 1)) && lists[v]@[t].name@ == merged@[m].name@
                        && lists[v]@[t].value is Share implies {
                    &&& merged@[m].value is Share
                    &&& version_not_newer(
                        share_version_x(lists[v]@[t].value),
                        share_version_x(merged@[m].value),
                    )
                } by {
                    assert(merged@[m].name@ == lists[0]@[m].name@);
                    if m != t {
                        // two distinct unit-0 entries cannot share a name
                        if m < t {
                            assert(lists[0]@[m].name@ != lists[0]@[t].name@);
                        } else {
                            assert(lists[0]@[t].name@ != lists[0]@[m].name@);
                        }
                    } else {
                        assert(external_library_deq(merged@[m], lists[0]@[m]));
                        lemma_compare_version_refl(share_version_x(lists[v]@[t].value));
                    }
                }
            }
        }
        i += 1;
    }
    let mut remaps: Vec<Vec<usize>> = Vec::new();
    remaps.push(remap0);
    proof {
        assert(library_names_folded_at(merged@, lists, 1, 0));
        assert(libraries_reconciled_upto(merged@, lists, 1, 0));
        if external_library_names_distinct(lists[0]@) {
            assert(library_version_max_upto(merged@, lists, 0, lists[0]@.len() as int));
            assert forall|m: int, v: int, t: int|
                #![trigger merged@[m], lists[v]@[t]]
                0 <= m < merged@.len() && 0 <= v < lists.len() && 0 <= t < lists[v]@.len() && (v < 1
                    || (v == 1 && t < 0)) && lists[v]@[t].name@ == merged@[m].name@
                    && lists[v]@[t].value is Share implies {
                &&& merged@[m].value is Share
                &&& version_not_newer(
                    share_version_x(lists[v]@[t].value),
                    share_version_x(merged@[m].value),
                )
            } by {
                assert(v == 0 && t < lists[0]@.len());
            }
        }
    }
    let mut u: usize = 1;
    while u < external_library_entries_list.len()
        invariant
            external_library_entries_list.len() >= 1,
            lists == external_library_entries_list@,
            external_library_versions_valid(lists),
            1 <= u <= lists.len(),
            remaps.len() == u,
            forall|v: int| 0 <= v < u ==> (#[trigger] remaps@[v])@.len() == lists[v]@.len(),
            forall|v: int, k: int|
                0 <= v < u && 0 <= k < remaps@[v]@.len() ==> {
                    &&& (#[trigger] remaps@[v]@[k]) < merged.len()
                    &&& merged@[remaps@[v]@[k] as int].name@ == lists[v]@[k].name@
                },
            forall|k: int| 0 <= k < merged@.len() ==> library_from_lists(lists, #[trigger] merged@[k]),
            external_library_names_distinct(lists[0]@) ==> external_library_names_distinct(merged@),
            external_library_names_distinct(lists[0]@) ==> library_version_max_upto(
                merged@,
                lists,
                u as int,
                0,
            ),
            u == 1 ==> merged@.len() == lists[0]@.len(),
            forall|k: int|
                u == 1 && 0 <= k < merged@.len() ==> external_library_deq(
                    #[trigger] merged@[k],
                    lists[0]@[k],
                ),
            forall|k: int| u == 1 && 0 <= k < remaps@[0]@.len() ==> (#[trigger] remaps@[0]@[k]) == k,
            library_names_folded_at(merged@, lists, u as int, 0),
            libraries_reconciled_upto(merged@, lists, u as int, 0),
        decreases external_library_entries_list.len() - u,
    {
        let source = &external_library_entries_list[u];
        let mut indices: Vec<usize> = Vec::new();
        let mut k: usize = 0;
        while k < source.len()
            invariant
                external_library_entries_list.len() >= 1,
                lists == external_library_entries_list@,
                external_library_versions_valid(lists),
                1 <= u < lists.len(),
                source == &external_library_entries_list[u as int],
                k <= source@.len(),
                remaps.len() == u,
                indices.len() == k,
                forall|v: int| 0 <= v < u ==> (#[trigger] remaps@[v])@.len() == lists[v]@.len(),
                forall|v: int, m: int|
                    0 <= v < u && 0 <= m < remaps@[v]@.len() ==> {
                        &&& (#[trigger] remaps@[v]@[m]) < merged.len()
                        &&& merged@[remaps@[v]@[m] as int].name@ == lists[v]@[m].name@
                    },
                forall|m: int|
                    0 <= m < indices@.len() ==> {
                        &&& (#[trigger] indices@[m]) < merged.len()
                        &&& merged@[indices@[m] as int].name@ == lists[u as int]@[m].name@
                    },
                forall|m: int|
                    0 <= m < merged@.len() ==> library_from_lists(lists, #[trigger] merged@[m]),
                external_library_names_distinct(lists[0]@) ==> external_library_names_distinct(merged@),
                external_library_names_distinct(lists[0]@) ==> library_version_max_upto(
                    merged@,
                    lists,
                    u as int,
                    k as int,
                ),
                library_names_folded_at(merged@, lists, u as int, k as int),
                libraries_reconciled_upto(merged@, lists, u as int, k as int),
            decreases source.len() - k,
        {
            let entry_source = &source[k];
            let ghost a = lists[u as int]@[k as int].value;
            let ghost name_k = lists[u as int]@[k as int].name@;
            let ghost name_acc = library_name_fold_upto(lists, u as int, k as int);
            match find_external_library_by_name(&merged, &entry_source.name) {
                Some(pos) => {
                    proof {
                        assert(name_acc[pos as int] == name_k);
                        assert(library_name_fold_upto(lists, u as int, k as int + 1) == name_acc);
                    }
                    let identical = external_dependency_matches(
                        &entry_source.value,
                        &merged[pos].value,
                    );
                    proof {
                        assert(library_from_lists(lists, merged@[pos as int]));
                    }
                    let ghost (wu, wi) = choose|wu: int, wi: int|
                        0 <= wu < lists.len() && 0 <= wi < lists[wu]@.len() && external_library_deq(
                            merged@[pos as int],
                            lists[wu]@[wi],
                        );
                    let ghost b = lists[wu]@[wi].value;
                    proof {
                        assert(external_dependency_deq(merged@[pos as int].value, b));
                    }
                    if identical {
                        proof {
                            if external_library_names_distinct(lists[0]@) {
                                assert forall|m: int, v: int, t: int|
                                    #![trigger merged@[m], lists[v]@[t]]
                                    0 <= m < merged@.len() && 0 <= v < lists.len() && 0 <= t
                                        < lists[v]@.len() && (v < u || (v == u && t < k + 1))
                                        && lists[v]@[t].name@ == merged@[m].name@
                                        && lists[v]@[t].value is Share implies {
                                    &&& merged@[m].value is Share
                                    &&& version_not_newer(
                                        share_version_x(lists[v]@[t].value),
                                        share_version_x(merged@[m].value),
                                    )
                                } by {
                                    if v == u && t == k {
                                        lemma_unique_library_name(merged@, pos as int, m);
                                        lemma_compare_version_refl(share_version_x(a));
                                    }
                                }
                            }
                            assert(xdep_pair_ok(a, merged@[pos as int].value));
                            assert(library_entry_reconciled(
                                merged@,
                                lists[u as int]@[k as int],
                            ));
                            lemma_reconciled_after_reuse(merged@, lists, u as int, k as int);
                        }
                        indices.push(pos);
                    } else {
                        match &entry_source.value {
                            ExternalLibraryDependency::Local(_) => {
                                let e = if matches!(&merged[pos].value, ExternalLibraryDependency::Local(_)) {
                                    LinkerError::new(
                                        LinkErrorType::DependentSourceConflict(
                                            copy_string(&merged[pos].name),
                                        ),
                                    )
                                } else {
                                    LinkerError::new(
                                        LinkErrorType::DependentNameConflict(
                                            copy_string(&merged[pos].name),
                                        ),
                                    )
                                };
                                proof {
                                    assert(!external_dependency_deq(a, b));
                                    assert(!xdep_pair_ok(a, b));
                                    assert(external_library_conflict_witness(e.error_type, lists));
                                }
                                return Err(e);
                            },
                            ExternalLibraryDependency::Remote(_) => {
                                let e = if matches!(&merged[pos].value, ExternalLibraryDependency::Remote(_)) {
                                    LinkerError::new(
                                        LinkErrorType::DependentSourceConflict(
                                            copy_string(&merged[pos].name),
                                        ),
                                    )
                                } else {
                                    LinkerError::new(
                                        LinkErrorType::DependentNameConflict(
                                            copy_string(&merged[pos].name),
                                        ),
                                    )
                                };
                                proof {
                                    assert(!external_dependency_deq(a, b));
                                    assert(!xdep_pair_ok(a, b));
                                    assert(external_library_conflict_witness(e.error_type, lists));
                                }
                                return Err(e);
                            },
                            ExternalLibraryDependency::Share(share_source) => {
                                let cmp_opt: Option<VersionCompareResult> = match &merged[pos].value {
                                    ExternalLibraryDependency::Share(share_merged) => {
                                        proof {
                                            assert(b is Share);
                                            assert(share_version_x(
                                                merged@[pos as int].value,
                                            ) == share_version_x(b));
                                            assert(valid_version(share_version_x(b)));
                                        }
                                        Some(
                                            compare_version(
                                                share_source.version.as_str(),
                                                share_merged.version.as_str(),
                                            ),
                                        )
                                    },
                                    _ => None,
                                };
                                match cmp_opt {
                                    None => {
                                        let e = LinkerError::new(
                                            LinkErrorType::DependentNameConflict(
                                                copy_string(&merged[pos].name),
                                            ),
                                        );
                                        proof {
                                            assert(!external_dependency_deq(a, b));
                                            assert(!(b is Share));
                                            assert(!xdep_pair_ok(a, b));
                                            assert(external_library_conflict_witness(
                                                e.error_type,
                                                lists,
                                            ));
                                        }
                                        return Err(e);
                                    },
                                    Some(VersionCompareResult::Different) => {
                                        let e = LinkerError::new(
                                            LinkErrorType::DependentVersionConflict(
                                                copy_string(&merged[pos].name),
                                            ),
                                        );
                                        proof {
                                            assert(spec_compare_version(
                                                share_version_x(a),
                                                share_version_x(b),
                                            ) == VersionCompareResult::Different);
                                            if external_dependency_deq(a, b) {
                                                lemma_compare_version_refl(share_version_x(a));
                                            }
                                            assert(!xdep_pair_ok(a, b));
                                            assert(external_library_conflict_witness(
                                                e.error_type,
                                                lists,
                                            ));
                                        }
                                        return Err(e);
                                    },
                                    Some(VersionCompareResult::GreaterThan) => {
                                        // replace: the source entry is newer
                                        let ghost merged_before = merged@;
                                        let replacement = copy_external_library_entry(entry_source);
                                        merged[pos] = replacement;
                                        proof {
                                            assert(merged@[pos as int].name@ == name_k);
                                            assert(merged@[pos as int].name@
                                                == merged_before[pos as int].name@);
                                            assert(forall|m: int|
                                                0 <= m < merged@.len() && m != pos as int
                                                    ==> merged@[m] == merged_before[m]);
                                            assert(external_library_deq(
                                                merged@[pos as int],
                                                lists[u as int]@[k as int],
                                            ));
                                            assert(library_from_lists(lists, merged@[pos as int]));
                                            if external_library_names_distinct(lists[0]@) {
                                                assert forall|x: int, y: int|
                                                    0 <= x < y < merged@.len() implies merged@[x].name@
                                                    != merged@[y].name@ by {
                                                    assert(merged@[x].name@
                                                        == merged_before[x].name@);
                                                    assert(merged@[y].name@
                                                        == merged_before[y].name@);
                                                }
                                                assert forall|m: int, v: int, t: int|
                                                    #![trigger merged@[m], lists[v]@[t]]
                                                    0 <= m < merged@.len() && 0 <= v < lists.len()
                                                        && 0 <= t < lists[v]@.len() && (v < u || (v
                                                        == u && t < k + 1)) && lists[v]@[t].name@
                                                        == merged@[m].name@
                                                        && lists[v]@[t].value
                                                        is Share implies {
                                                    &&& merged@[m].value is Share
                                                    &&& version_not_newer(
                                                        share_version_x(
                                                            lists[v]@[t].value,
                                                        ),
                                                        share_version_x(
                                                            merged@[m].value,
                                                        ),
                                                    )
                                                } by {
                                                    if m == pos as int {
                                                        if v == u && t == k {
                                                            lemma_compare_version_refl(
                                                                share_version_x(a),
                                                            );
                                                        } else {
                                                            // an earlier same-name version was no
                                                            // newer than the replaced entry
                                                            assert(lists[v]@[t].name@
                                                                == merged_before[m].name@);
                                                            assert(merged_before[m].value
                                                                is Share);
                                                            assert(version_not_newer(
                                                                share_version_x(
                                                                    lists[v]@[t].value,
                                                                ),
                                                                share_version_x(
                                                                    merged_before[m].value,
                                                                ),
                                                            ));
                                                            assert(share_version_x(
                                                                merged_before[pos as int].value,
                                                            ) == share_version_x(b));
                                                            lemma_version_keep_order(
                                                                share_version_x(
                                                                    lists[v]@[t].value,
                                                                ),
                                                                share_version_x(
                                                                    merged_before[m].value,
                                                                ),
                                                                share_version_x(a),
                                                            );
                                                        }
                                                    } else {
                                                        assert(merged@[m] == merged_before[m]);
                                                        if v == u && t == k {
                                                            lemma_unique_library_name(
                                                                merged@,
                                                                pos as int,
                                                                m,
                                                            );
                                                        } else {
                                                            assert(lists[v]@[t].name@
                                                                == merged_before[m].name@);
                                                        }
                                                    }
                                                }
                                            }
                                            lemma_xdep_deq_sym(merged@[pos as int].value, a);
                                            assert(versions_compatible(
                                                share_version_x(merged@[pos as int].value),
                                                share_version_x(merged_before[pos as int].value),
                                            ));
                                            lemma_reconciled_after_replace(
                                                merged_before,
                                                merged@,
                                                lists,
                                                u as int,
                                                k as int,
                                                pos as int,
                                            );
                                        }
                                        indices.push(pos);
                                    },
                                    Some(VersionCompareResult::Equals)
                                    | Some(VersionCompareResult::LessThan) => {
                                        // keep: the merged entry is newer or the same
                                        proof {
                                            if external_library_names_distinct(lists[0]@) {
                                                assert forall|m: int, v: int, t: int|
                                                    #![trigger merged@[m], lists[v]@[t]]
                                                    0 <= m < merged@.len() && 0 <= v < lists.len()
                                                        && 0 <= t < lists[v]@.len() && (v < u || (v
                                                        == u && t < k + 1)) && lists[v]@[t].name@
                                                        == merged@[m].name@
                                                        && lists[v]@[t].value
                                                        is Share implies {
                                                    &&& merged@[m].value is Share
                                                    &&& version_not_newer(
                                                        share_version_x(
                                                            lists[v]@[t].value,
                                                        ),
                                                        share_version_x(
                                                            merged@[m].value,
                                                        ),
                                                    )
                                                } by {
                                                    if v == u && t == k {
                                                        lemma_unique_library_name(
                                                            merged@,
                                                            pos as int,
                                                            m,
                                                        );
                                                        assert(share_version_x(
                                                            merged@[pos as int].value,
                                                        ) == share_version_x(b));
                                                    }
                                                }
                                            }
                                            assert(merged@[pos as int].value is Share);
                                            assert(versions_compatible(
                                                share_version_x(a),
                                                share_version_x(merged@[pos as int].value),
                                            ));
                                            assert(xdep_pair_ok(
                                                a,
                                                merged@[pos as int].value,
                                            ));
                                            assert(library_entry_reconciled(
                                                merged@,
                                                lists[u as int]@[k as int],
                                            ));
                                            lemma_reconciled_after_reuse(
                                                merged@,
                                                lists,
                                                u as int,
                                                k as int,
                                            );
                                        }
                                        indices.push(pos);
                                    },
                                }
                            },
                            ExternalLibraryDependency::Runtime => {
                                let e = LinkerError::new(
                                    LinkErrorType::DependentNameConflict(
                                        copy_string(&merged[pos].name),
                                    ),
                                );
                                proof {
                                    assert(!external_dependency_deq(a, b));
                                    assert(!xdep_pair_ok(a, b));
                                    assert(external_library_conflict_witness(e.error_type, lists));
                                }
                                return Err(e);
                            },
                            ExternalLibraryDependency::System(_) => {
                                let e = LinkerError::new(
                                    LinkErrorType::DependentNameConflict(
                                        copy_string(&merged[pos].name),
                                    ),
                                );
                                proof {
                                    assert(!external_dependency_deq(a, b));
                                    assert(!xdep_pair_ok(a, b));
                                    assert(external_library_conflict_witness(e.error_type, lists));
                                }
                                return Err(e);
                            },
                        }
                    }
                },
                None => {
                    let pos = merged.len();
                    let ghost merged_before = merged@;
                    proof {
                        assert forall|m: int| 0 <= m < name_acc.len() implies #[trigger] name_acc[m]
                            != name_k by {
                            assert(merged@[m].name@ == name_acc[m]);
                        }
                        assert(library_name_fold_upto(lists, u as int, k as int + 1)
                            == name_acc.push(name_k));
                    }
                    merged.push(copy_external_library_entry(entry_source));
                    proof {
                        assert(external_library_deq(merged@[pos as int], lists[u as int]@[k as int]));
                        assert(library_from_lists(lists, merged@[pos as int]));
                        lemma_xdep_deq_sym(merged@[pos as int].value, a);
                        lemma_reconciled_after_push(
                            merged_before,
                            merged@,
                            lists,
                            u as int,
                            k as int,
                        );
                        if external_library_names_distinct(lists[0]@) {
                            assert forall|x: int, y: int|
                                0 <= x < y < merged@.len() implies merged@[x].name@
                                != merged@[y].name@ by {
                                if y == pos as int {
                                    assert(merged_before[x].name@ != name_k);
                                }
                            }
                            assert forall|m: int, v: int, t: int|
                                #![trigger merged@[m], lists[v]@[t]]
                                0 <= m < merged@.len() && 0 <= v < lists.len() && 0 <= t
                                    < lists[v]@.len() && (v < u || (v == u && t < k + 1))
                                    && lists[v]@[t].name@ == merged@[m].name@
                                    && lists[v]@[t].value is Share implies {
                                &&& merged@[m].value is Share
                                &&& version_not_newer(
                                    share_version_x(lists[v]@[t].value),
                                    share_version_x(merged@[m].value),
                                )
                            } by {
                                if m == pos as int {
                                    if v == u && t == k {
                                        lemma_compare_version_refl(share_version_x(a));
                                    } else {
                                        // a processed entry of this name would already
                                        // have a merged entry of this name
                                        if v < u {
                                            let idx = remaps@[v]@[t] as int;
                                            assert(merged_before[idx].name@ == lists[v]@[t].name@);
                                            assert(merged_before[idx].name@ != name_k);
                                        } else {
                                            let idx = indices@[t] as int;
                                            assert(merged_before[idx].name@ == lists[v]@[t].name@);
                                            assert(merged_before[idx].name@ != name_k);
                                        }
                                    }
                                } else {
                                    assert(merged@[m] == merged_before[m]);
                                    if v == u && t == k {
                                        assert(merged_before[m].name@ != name_k);
                                    }
                                }
                            }
                        }
                    }
                    indices.push(pos);
                },
            }
            k += 1;
        }
        proof {
            assert(library_name_fold_upto(lists, u as int + 1, 0) == library_name_fold_upto(
                lists,
                u as int,
                lists[u as int]@.len() as int,
            ));
        }
        remaps.push(indices);
        u += 1;
    }
    proof {
        assert(library_names_folded_at(merged@, lists, lists.len() as int, 0));
        // every two same-name inputs join through the one merged entry of
        // their name
        assert forall|u2: int, i2: int, v2: int, j2: int|
            0 <= u2 < lists.len() && 0 <= i2 < lists[u2]@.len() && 0 <= v2 < lists.len() && 0 <= j2
                < lists[v2]@.len() && (#[trigger] lists[u2]@[i2]).name@ == (
            #[trigger] lists[v2]@[j2]).name@ implies xdep_pair_ok(
            lists[u2]@[i2].value,
            lists[v2]@[j2].value,
        ) by {
            assert(library_entry_reconciled(merged@, lists[u2]@[i2]));
            assert(library_entry_reconciled(merged@, lists[v2]@[j2]));
            let m1 = choose|m: int|
                0 <= m < merged@.len() && (#[trigger] merged@[m]).name@ == lists[u2]@[i2].name@
                    && xdep_pair_ok(lists[u2]@[i2].value, merged@[m].value);
            let m2 = choose|m: int|
                0 <= m < merged@.len() && (#[trigger] merged@[m]).name@ == lists[v2]@[j2].name@
                    && xdep_pair_ok(lists[v2]@[j2].value, merged@[m].value);
            if m1 < m2 {
                assert(merged@[m1].name@ != merged@[m2].name@);
            }
            if m2 < m1 {
                assert(merged@[m2].name@ != merged@[m1].name@);
            }
            lemma_xdep_pair_join(
                lists[u2]@[i2].value,
                lists[v2]@[j2].value,
                merged@[m1].value,
            );
        }
        assert(external_library_lists_compatible(lists));
    }
    Ok((merged, remaps))
}

/// Some merged entry bears this name.
pub open spec fn merged_has_module_name(merged: Seq<ImportModuleEntry>, name: Seq<char>) -> bool {
    exists|k: int| 0 <= k < merged.len() && (#[trigger] merged[k]).name@ == name
}

/// Merges import-module tables and returns the merged table alone, for
/// callers that do not patch bytecode and need no remap vectors.
pub fn merge_import_modules(
    import_module_list: &Vec<Vec<ImportModuleEntry>>,
) -> (r: Result<Vec<ImportModuleEntry>, LinkerError>)
    requires
        import_module_list.len() >= 1,
        import_module_names_distinct(import_module_list@[0]@),
        import_module_versions_valid(import_module_list@),
    ensures
        import_module_lists_compatible(import_module_list@) ==> r is Ok,
        r is Ok ==> import_module_lists_compatible(import_module_list@),
        r matches Err(le) ==> import_module_conflict_witness(le.error_type, import_module_list@),
        r matches Ok(merged) ==> ({
            let lists = import_module_list@;
            // every input entry's name occurs in the merged table
            &&& forall|u: int, i: int|
                0 <= u < lists.len() && 0 <= i < lists[u]@.len() ==> merged_has_module_name(
                    merged@,
                    (#[trigger] lists[u]@[i]).name@,
                )
            &&& forall|k: int|
                0 <= k < merged@.len() ==> module_from_lists(lists, #[trigger] merged@[k])
            &&& import_module_names_distinct(merged@)
            &&& module_version_max_upto(merged@, lists, lists.len() as int, 0)
            // the merged table names are the first-occurrence fold of the
            // input names
            &&& module_names_folded(merged@, lists)
            &&& lists.len() == 1 ==> merged@.len() == lists[0]@.len()
            &&& lists.len() == 1 ==> forall|i: int|
                0 <= i < merged@.len() ==> import_module_deq(#[trigger] merged@[i], lists[0]@[i])
        }),
{
    match merge_import_module_entries(import_module_list) {
        Ok(p) => {
            proof {
                let (merged, remaps) = p;
                assert forall|u: int, i: int|
                    0 <= u < import_module_list@.len() && 0 <= i
                        < import_module_list@[u]@.len() implies merged_has_module_name(
                    merged@,
                    (#[trigger] import_module_list@[u]@[i]).name@,
                ) by {
                    let k = remaps@[u]@[i] as int;
                    assert(merged@[k].name@ == import_module_list@[u]@[i].name@);
                }
            }
            Ok(p.0)
        },
        Err(e) => Err(e),
    }
}

// ---------------------------------------------------------------------------
// data entries
// ---------------------------------------------------------------------------

/// How many initialized data entries the units before `u` hold.
pub open spec fn inited_count_before(lists: Seq<Vec<InitedDataEntry>>, u: int) -> int
    decreases u,
{
    if u <= 0 {
        0
    } else {
        inited_count_before(lists, u - 1) + lists[u - 1]@.len()
    }
}

/// How many uninitialized data entries the units before `u` hold.
pub open spec fn uninit_count_before(lists: Seq<Vec<UninitDataEntry>>, u: int) -> int
    decreases u,
{
    if u <= 0 {
        0
    } else {
        uninit_count_before(lists, u - 1) + lists[u - 1]@.len()
    }
}

proof fn lemma_inited_count_mono(lists: Seq<Vec<InitedDataEntry>>, u: int, v: int)
    requires
        0 <= u <= v,
    ensures
        inited_count_before(lists, u) <= inited_count_before(lists, v),
    decreases v - u,
{
    if u < v {
        lemma_inited_count_mono(lists, u, v - 1);
    }
}

proof fn lemma_uninit_count_mono(lists: Seq<Vec<UninitDataEntry>>, u: int, v: int)
    requires
        0 <= u <= v,
    ensures
        uninit_count_before(lists, u) <= uninit_count_before(lists, v),
    decreases v - u,
{
    if u < v {
        lemma_uninit_count_mono(lists, u, v - 1);
    }
}

/// Collects one initialized data section across all units: the data entries
/// concatenated in unit order, and the matching window of each unit's
/// export-data table (`window_offsets[u]` entries into it).
#[verifier::rlimit(100)]
#[verifier::spinoff_prover]
fn collect_inited_block(
    export_data_entries_list: &Vec<Vec<ExportDataEntry>>,
    data_entries_list: &Vec<Vec<InitedDataEntry>>,
    window_offsets: &Vec<usize>,
) -> (r: (Vec<ExportDataEntry>, Vec<InitedDataEntry>))
    requires
        data_entries_list.len() == export_data_entries_list.len(),
        window_offsets.len() == export_data_entries_list.len(),
        forall|u: int|
            0 <= u < export_data_entries_list.len() ==> window_offsets@[u] + (
            #[trigger] data_entries_list@[u])@.len() <= export_data_entries_list@[u]@.len(),
    ensures
        ({
            let exps = export_data_entries_list@;
            let ds = data_entries_list@;
            let n = exps.len() as int;
            &&& r.0@.len() == inited_count_before(ds, n)
            &&& r.1@.len() == inited_count_before(ds, n)
            &&& forall|v: int, t: int|
                #![trigger ds[v]@[t]]
                0 <= v < n && 0 <= t < ds[v]@.len() ==> {
                    &&& inited_data_deq(r.1@[inited_count_before(ds, v) + t], ds[v]@[t])
                    &&& export_data_deq(
                        r.0@[inited_count_before(ds, v) + t],
                        exps[v]@[window_offsets@[v] + t],
                    )
                }
        }),
{
    let ghost exps = export_data_entries_list@;
    let ghost ds = data_entries_list@;
    let mut exports: Vec<ExportDataEntry> = Vec::new();
    let mut entries: Vec<InitedDataEntry> = Vec::new();
    let mut u: usize = 0;
    while u < data_entries_list.len()
        invariant
            exps == export_data_entries_list@,
            ds == data_entries_list@,
            ds.len() == exps.len(),
            window_offsets.len() == exps.len(),
            forall|v: int|
                0 <= v < exps.len() ==> window_offsets@[v] + (#[trigger] ds[v])@.len()
                    <= exps[v]@.len(),
            u <= ds.len(),
            entries.len() == inited_count_before(ds, u as int),
            exports.len() == entries.len(),
            forall|v: int| 0 <= v <= u ==> 0 <= #[trigger] inited_count_before(ds, v),
            forall|v: int|
                0 <= v < u ==> (#[trigger] inited_count_before(ds, v)) + ds[v]@.len()
                    <= inited_count_before(ds, u as int),
            forall|v: int, t: int|
                #![trigger ds[v]@[t]]
                0 <= v < u && 0 <= t < ds[v]@.len() ==> {
                    &&& inited_data_deq(entries@[inited_count_before(ds, v) + t], ds[v]@[t])
                    &&& export_data_deq(
                        exports@[inited_count_before(ds, v) + t],
                        exps[v]@[window_offsets@[v] + t],
                    )
                },
        decreases data_entries_list.len() - u,
    {
        let unit_data = &data_entries_list[u];
        let unit_exports = &export_data_entries_list[u];
        let exp_len = unit_exports.len();
        let off = window_offsets[u];
        let mut t: usize = 0;
        while t < unit_data.len()
            invariant
                exps == export_data_entries_list@,
                ds == data_entries_list@,
                ds.len() == exps.len(),
                window_offsets.len() == exps.len(),
                forall|v: int|
                    0 <= v < exps.len() ==> window_offsets@[v] + (#[trigger] ds[v])@.len()
                        <= exps[v]@.len(),
                u < ds.len(),
                unit_data == &data_entries_list[u as int],
                unit_exports == &export_data_entries_list[u as int],
                off == window_offsets@[u as int],
                exp_len == exps[u as int]@.len(),
                t <= unit_data.len(),
                entries.len() == inited_count_before(ds, u as int) + t,
                exports.len() == entries.len(),
                forall|v: int| 0 <= v <= u ==> 0 <= #[trigger] inited_count_before(ds, v),
                forall|v: int|
                    0 <= v < u ==> (#[trigger] inited_count_before(ds, v)) + ds[v]@.len()
                        <= inited_count_before(ds, u as int),
                forall|v: int, s: int|
                    #![trigger ds[v]@[s]]
                    0 <= v < u && 0 <= s < ds[v]@.len() ==> {
                        &&& inited_data_deq(entries@[inited_count_before(ds, v) + s], ds[v]@[s])
                        &&& export_data_deq(
                            exports@[inited_count_before(ds, v) + s],
                            exps[v]@[window_offsets@[v] + s],
                        )
                    },
                forall|s: int|
                    0 <= s < t ==> {
                        &&& inited_data_deq(
                            entries@[inited_count_before(ds, u as int) + s],
                            #[trigger] ds[u as int]@[s],
                        )
                        &&& export_data_deq(
                            exports@[inited_count_before(ds, u as int) + s],
                            exps[u as int]@[window_offsets@[u as int] + s],
                        )
                    },
            decreases unit_data.len() - t,
        {
            proof {
                assert(window_offsets@[u as int] + ds[u as int]@.len() <= exps[u as int]@.len());
                assert(off as int + t < exp_len as int);
            }
            entries.push(copy_inited_data_entry(&unit_data[t]));
            exports.push(copy_export_data_entry(&unit_exports[off + t]));
            t += 1;
        }
        u += 1;
    }
    (exports, entries)
}

/// Collects the uninitialized data section across all units, as
/// [`collect_inited_block`] does for an initialized one.
#[verifier::rlimit(100)]
#[verifier::spinoff_prover]
fn collect_uninit_block(
    export_data_entries_list: &Vec<Vec<ExportDataEntry>>,
    data_entries_list: &Vec<Vec<UninitDataEntry>>,
    window_offsets: &Vec<usize>,
) -> (r: (Vec<ExportDataEntry>, Vec<UninitDataEntry>))
    requires
        data_entries_list.len() == export_data_entries_list.len(),
        window_offsets.len() == export_data_entries_list.len(),
        forall|u: int|
            0 <= u < export_data_entries_list.len() ==> window_offsets@[u] + (
            #[trigger] data_entries_list@[u])@.len() <= export_data_entries_list@[u]@.len(),
    ensures
        ({
            let exps = export_data_entries_list@;
            let ds = data_entries_list@;
            let n = exps.len() as int;
            &&& r.0@.len() == uninit_count_before(ds, n)
            &&& r.1@.len() == uninit_count_before(ds, n)
            &&& forall|v: int, t: int|
                #![trigger ds[v]@[t]]
                0 <= v < n && 0 <= t < ds[v]@.len() ==> {
                    &&& r.1@[uninit_count_before(ds, v) + t] == ds[v]@[t]
                    &&& export_data_deq(
                        r.0@[uninit_count_before(ds, v) + t],
                        exps[v]@[window_offsets@[v] + t],
                    )
                }
        }),
{
    let ghost exps = export_data_entries_list@;
    let ghost ds = data_entries_list@;
    let mut exports: Vec<ExportDataEntry> = Vec::new();
    let mut entries: Vec<UninitDataEntry> = Vec::new();
    let mut u: usize = 0;
    while u < data_entries_list.len()
        invariant
            exps == export_data_entries_list@,
            ds == data_entries_list@,
            ds.len() == exps.len(),
            window_offsets.len() == exps.len(),
            forall|v: int|
                0 <= v < exps.len() ==> window_offsets@[v] + (#[trigger] ds[v])@.len()
                    <= exps[v]@.len(),
            u <= ds.len(),
            entries.len() == uninit_count_before(ds, u as int),
            exports.len() == entries.len(),
            forall|v: int| 0 <= v <= u ==> 0 <= #[trigger] uninit_count_before(ds, v),
            forall|v: int|
                0 <= v < u ==> (#[trigger] uninit_count_before(ds, v)) + ds[v]@.len()
                    <= uninit_count_before(ds, u as int),
            forall|v: int, t: int|
                #![trigger ds[v]@[t]]
                0 <= v < u && 0 <= t < ds[v]@.len() ==> {
                    &&& entries@[uninit_count_before(ds, v) + t] == ds[v]@[t]
                    &&& export_data_deq(
                        exports@[uninit_count_before(ds, v) + t],
                        exps[v]@[window_offsets@[v] + t],
                    )
                },
        decreases data_entries_list.len() - u,
    {
        let unit_data = &data_entries_list[u];
        let unit_exports = &export_data_entries_list[u];
        let exp_len = unit_exports.len();
        let off = window_offsets[u];
        let mut t: usize = 0;
        while t < unit_data.len()
            invariant
                exps == export_data_entries_list@,
                ds == data_entries_list@,
                ds.len() == exps.len(),
                window_offsets.len() == exps.len(),
                forall|v: int|
                    0 <= v < exps.len() ==> window_offsets@[v] + (#[trigger] ds[v])@.len()
                        <= exps[v]@.len(),
                u < ds.len(),
                unit_data == &data_entries_list[u as int],
                unit_exports == &export_data_entries_list[u as int],
                off == window_offsets@[u as int],
                exp_len == exps[u as int]@.len(),
                t <= unit_data.len(),
                entries.len() == uninit_count_before(ds, u as int) + t,
                exports.len() == entries.len(),
                forall|v: int| 0 <= v <= u ==> 0 <= #[trigger] uninit_count_before(ds, v),
                forall|v: int|
                    0 <= v < u ==> (#[trigger] uninit_count_before(ds, v)) + ds[v]@.len()
                        <= uninit_count_before(ds, u as int),
                forall|v: int, s: int|
                    #![trigger ds[v]@[s]]
                    0 <= v < u && 0 <= s < ds[v]@.len() ==> {
                        &&& entries@[uninit_count_before(ds, v) + s] == ds[v]@[s]
                        &&& export_data_deq(
                            exports@[uninit_count_before(ds, v) + s],
                            exps[v]@[window_offsets@[v] + s],
                        )
                    },
                forall|s: int|
                    0 <= s < t ==> {
                        &&& entries@[uninit_count_before(ds, u as int) + s] == #[trigger] ds[u as int]@[s]
                        &&& export_data_deq(
                            exports@[uninit_count_before(ds, u as int) + s],
                            exps[u as int]@[window_offsets@[u as int] + s],
                        )
                    },
            decreases unit_data.len() - t,
        {
            proof {
                assert(window_offsets@[u as int] + ds[u as int]@.len() <= exps[u as int]@.len());
                assert(off as int + t < exp_len as int);
            }
            entries.push(unit_data[t]);
            exports.push(copy_export_data_entry(&unit_exports[off + t]));
            t += 1;
        }
        u += 1;
    }
    (exports, entries)
}

/// Appends copies of `src`'s entries to `dst`.
fn append_export_entries(dst: &mut Vec<ExportDataEntry>, src: &Vec<ExportDataEntry>)
    ensures
        final(dst)@.len() == old(dst)@.len() + src@.len(),
        forall|i: int| 0 <= i < old(dst)@.len() ==> final(dst)@[i] == old(dst)@[i],
        forall|i: int|
            0 <= i < src@.len() ==> export_data_deq(
                final(dst)@[old(dst)@.len() + i],
                #[trigger] src@[i],
            ),
{
    let mut i: usize = 0;
    while i < src.len()
        invariant
            i <= src.len(),
            dst.len() == old(dst)@.len() + i,
            forall|k: int| 0 <= k < old(dst)@.len() ==> dst@[k] == old(dst)@[k],
            forall|k: int|
                0 <= k < i ==> export_data_deq(dst@[old(dst)@.len() + k], #[trigger] src@[k]),
        decreases src.len() - i,
    {
        dst.push(copy_export_data_entry(&src[i]));
        i += 1;
    }
}

/// The per-unit export-window offsets of the three sections: zero for the
/// read-only block, the read-only count for the read-write block, and the
/// sum of both for the uninitialized block.
fn data_window_offsets(
    export_data_entries_list: &Vec<Vec<ExportDataEntry>>,
    read_only_data_entries_list: &Vec<Vec<InitedDataEntry>>,
    read_write_data_entries_list: &Vec<Vec<InitedDataEntry>>,
    uninit_data_entries_list: &Vec<Vec<UninitDataEntry>>,
) -> (r: (Vec<usize>, Vec<usize>, Vec<usize>))
    requires
        read_only_data_entries_list.len() == export_data_entries_list.len(),
        read_write_data_entries_list.len() == export_data_entries_list.len(),
        uninit_data_entries_list.len() == export_data_entries_list.len(),
        forall|u: int|
            0 <= u < export_data_entries_list.len() ==> (#[trigger] export_data_entries_list@[u])@.len()
                == read_only_data_entries_list@[u]@.len() + read_write_data_entries_list@[u]@.len()
                + uninit_data_entries_list@[u]@.len(),
    ensures
        r.0.len() == export_data_entries_list.len(),
        r.1.len() == export_data_entries_list.len(),
        r.2.len() == export_data_entries_list.len(),
        forall|u: int| 0 <= u < r.0.len() ==> (#[trigger] r.0@[u]) == 0,
        forall|u: int|
            0 <= u < r.1.len() ==> (#[trigger] r.1@[u]) as int
                == read_only_data_entries_list@[u]@.len(),
        forall|u: int|
            0 <= u < r.2.len() ==> (#[trigger] r.2@[u]) as int
                == read_only_data_entries_list@[u]@.len()
                + read_write_data_entries_list@[u]@.len(),
{
    let mut zero_offsets: Vec<usize> = Vec::new();
    let mut ro_offsets: Vec<usize> = Vec::new();
    let mut ro_rw_offsets: Vec<usize> = Vec::new();
    let mut u: usize = 0;
    while u < export_data_entries_list.len()
        invariant
            read_only_data_entries_list.len() == export_data_entries_list.len(),
            read_write_data_entries_list.len() == export_data_entries_list.len(),
            uninit_data_entries_list.len() == export_data_entries_list.len(),
            forall|v: int|
                0 <= v < export_data_entries_list.len() ==> (
                #[trigger] export_data_entries_list@[v])@.len()
                    == read_only_data_entries_list@[v]@.len()
                    + read_write_data_entries_list@[v]@.len()
                    + uninit_data_entries_list@[v]@.len(),
            u <= export_data_entries_list.len(),
            zero_offsets.len() == u,
            ro_offsets.len() == u,
            ro_rw_offsets.len() == u,
            forall|v: int| 0 <= v < u ==> (#[trigger] zero_offsets@[v]) == 0,
            forall|v: int|
                0 <= v < u ==> (#[trigger] ro_offsets@[v]) as int
                    == read_only_data_entries_list@[v]@.len(),
            forall|v: int|
                0 <= v < u ==> (#[trigger] ro_rw_offsets@[v]) as int
                    == read_only_data_entries_list@[v]@.len()
                    + read_write_data_entries_list@[v]@.len(),
        decreases export_data_entries_list.len() - u,
    {
        let e_len = export_data_entries_list[u].len();
        let ro_len = read_only_data_entries_list[u].len();
        let rw_len = read_write_data_entries_list[u].len();
        proof {
            assert(ro_len as int + rw_len as int <= e_len as int);
        }
        zero_offsets.push(0);
        ro_offsets.push(ro_len);
        ro_rw_offsets.push(ro_len + rw_len);
        u += 1;
    }
    (zero_offsets, ro_offsets, ro_rw_offsets)
}

/// The merged internal data index that internal datum `t` of unit `u` lands
/// on: the read-only block keeps unit order at the front, the read-write
/// block follows all read-only entries, and the uninitialized block follows
/// both.
pub open spec fn merged_data_index(
    ros: Seq<Vec<InitedDataEntry>>,
    rws: Seq<Vec<InitedDataEntry>>,
    uns: Seq<Vec<UninitDataEntry>>,
    u: int,
    t: int,
) -> int {
    if t < ros[u]@.len() {
        inited_count_before(ros, u) + t
    } else if t < ros[u]@.len() + rws[u]@.len() {
        inited_count_before(ros, ros.len() as int) + inited_count_before(rws, u) + (t
            - ros[u]@.len())
    } else {
        inited_count_before(ros, ros.len() as int) + inited_count_before(rws, rws.len() as int)
            + uninit_count_before(uns, u) + (t - ros[u]@.len() - rws[u]@.len())
    }
}

/// The merged internal index of any internal datum lies below the total
/// internal data count.
pub proof fn lemma_merged_data_index_in_range(
    ros: Seq<Vec<InitedDataEntry>>,
    rws: Seq<Vec<InitedDataEntry>>,
    uns: Seq<Vec<UninitDataEntry>>,
    u: int,
    t: int,
)
    requires
        0 <= u < ros.len(),
        ros.len() == rws.len(),
        ros.len() == uns.len(),
        0 <= t < ros[u]@.len() + rws[u]@.len() + uns[u]@.len(),
    ensures
        0 <= merged_data_index(ros, rws, uns, u, t),
        merged_data_index(ros, rws, uns, u, t) < inited_count_before(ros, ros.len() as int)
            + inited_count_before(rws, rws.len() as int) + uninit_count_before(
            uns,
            uns.len() as int,
        ),
{
    let n = ros.len() as int;
    lemma_inited_count_mono(ros, 0, u);
    lemma_inited_count_mono(ros, u + 1, n);
    lemma_inited_count_mono(rws, 0, u);
    lemma_inited_count_mono(rws, u + 1, n);
    lemma_uninit_count_mono(uns, 0, u);
    lemma_uninit_count_mono(uns, u + 1, n);
    lemma_inited_count_mono(rws, 0, n);
    lemma_uninit_count_mono(uns, 0, n);
    lemma_inited_count_mono(ros, 0, n);
}

/// Builds the per-unit remap from internal data indices (read-only, then
/// read-write, then uninitialized) to merged internal data indices.
fn build_internal_data_remaps(
    export_data_entries_list: &Vec<Vec<ExportDataEntry>>,
    read_only_data_entries_list: &Vec<Vec<InitedDataEntry>>,
    read_write_data_entries_list: &Vec<Vec<InitedDataEntry>>,
    uninit_data_entries_list: &Vec<Vec<UninitDataEntry>>,
    total_ro: usize,
    total_rw: usize,
    total_un: usize,
) -> (r: Vec<Vec<usize>>)
    requires
        read_only_data_entries_list.len() == export_data_entries_list.len(),
        read_write_data_entries_list.len() == export_data_entries_list.len(),
        uninit_data_entries_list.len() == export_data_entries_list.len(),
        forall|u: int|
            0 <= u < export_data_entries_list.len() ==> (#[trigger] export_data_entries_list@[u])@.len()
                == read_only_data_entries_list@[u]@.len() + read_write_data_entries_list@[u]@.len()
                + uninit_data_entries_list@[u]@.len(),
        total_ro as int == inited_count_before(
            read_only_data_entries_list@,
            export_data_entries_list.len() as int,
        ),
        total_rw as int == inited_count_before(
            read_write_data_entries_list@,
            export_data_entries_list.len() as int,
        ),
        total_un as int == uninit_count_before(
            uninit_data_entries_list@,
            export_data_entries_list.len() as int,
        ),
        total_ro as int + total_rw as int + total_un as int <= usize::MAX as int,
    ensures
        ({
            let exps = export_data_entries_list@;
            let ros = read_only_data_entries_list@;
            let rws = read_write_data_entries_list@;
            let uns = uninit_data_entries_list@;
            let n = exps.len() as int;
            &&& r.len() == n
            &&& forall|u: int| 0 <= u < n ==> (#[trigger] r@[u])@.len() == exps[u]@.len()
            &&& forall|u: int, t: int|
                #![trigger r@[u]@[t]]
                0 <= u < n && 0 <= t < exps[u]@.len() ==> r@[u]@[t] as int == merged_data_index(
                    ros,
                    rws,
                    uns,
                    u,
                    t,
                )
        }),
{
    let ghost exps = export_data_entries_list@;
    let ghost ros = read_only_data_entries_list@;
    let ghost rws = read_write_data_entries_list@;
    let ghost uns = uninit_data_entries_list@;
    let ghost n = export_data_entries_list.len() as int;
    let mut remaps: Vec<Vec<usize>> = Vec::new();
    let mut ro_before: usize = 0;
    let mut rw_before: usize = 0;
    let mut un_before: usize = 0;
    let mut u: usize = 0;
    while u < export_data_entries_list.len()
        invariant
            exps == export_data_entries_list@,
            ros == read_only_data_entries_list@,
            rws == read_write_data_entries_list@,
            uns == uninit_data_entries_list@,
            ros.len() == exps.len(),
            rws.len() == exps.len(),
            uns.len() == exps.len(),
            n == exps.len() as int,
            forall|v: int|
                0 <= v < exps.len() ==> (#[trigger] exps[v])@.len() == ros[v]@.len()
                    + rws[v]@.len() + uns[v]@.len(),
            u <= exps.len(),
            total_ro as int == inited_count_before(ros, n),
            total_rw as int == inited_count_before(rws, n),
            total_un as int == uninit_count_before(uns, n),
            total_ro as int + total_rw as int + total_un as int <= usize::MAX as int,
            ro_before as int == inited_count_before(ros, u as int),
            rw_before as int == inited_count_before(rws, u as int),
            un_before as int == uninit_count_before(uns, u as int),
            remaps.len() == u,
            forall|v: int| 0 <= v < u ==> (#[trigger] remaps@[v])@.len() == exps[v]@.len(),
            forall|v: int, t: int|
                #![trigger remaps@[v]@[t]]
                0 <= v < u && 0 <= t < exps[v]@.len() ==> remaps@[v]@[t] as int == {
                    if t < ros[v]@.len() {
                        inited_count_before(ros, v) + t
                    } else if t < ros[v]@.len() + rws[v]@.len() {
                        total_ro + inited_count_before(rws, v) + (t - ros[v]@.len())
                    } else {
                        total_ro + total_rw + uninit_count_before(uns, v) + (t - ros[v]@.len()
                            - rws[v]@.len())
                    }
                },
        decreases export_data_entries_list.len() - u,
    {
        proof {
            lemma_inited_count_mono(ros, u as int + 1, n);
            lemma_inited_count_mono(rws, u as int + 1, n);
            lemma_uninit_count_mono(uns, u as int + 1, n);
        }
        let ro_len = read_only_data_entries_list[u].len();
        let rw_len = read_write_data_entries_list[u].len();
        let un_len = uninit_data_entries_list[u].len();
        let mut indices: Vec<usize> = Vec::new();
        let mut t: usize = 0;
        while t < ro_len
            invariant
                t <= ro_len,
                indices.len() == t,
                ro_before + ro_len <= total_ro,
                forall|s: int| 0 <= s < t ==> (#[trigger] indices@[s]) == ro_before + s,
            decreases ro_len - t,
        {
            indices.push(ro_before + t);
            t += 1;
        }
        let mut t2: usize = 0;
        while t2 < rw_len
            invariant
                t2 <= rw_len,
                indices.len() == ro_len + t2,
                total_ro as int + total_rw as int + total_un as int <= usize::MAX as int,
                ro_before + ro_len <= total_ro,
                rw_before + rw_len <= total_rw,
                forall|s: int| 0 <= s < ro_len ==> (#[trigger] indices@[s]) == ro_before + s,
                forall|s: int|
                    0 <= s < t2 ==> (#[trigger] indices@[ro_len + s]) == total_ro + rw_before + s,
            decreases rw_len - t2,
        {
            indices.push(total_ro + rw_before + t2);
            t2 += 1;
        }
        let mut t3: usize = 0;
        while t3 < un_len
            invariant
                t3 <= un_len,
                indices.len() == ro_len + rw_len + t3,
                total_ro as int + total_rw as int + total_un as int <= usize::MAX as int,
                ro_before + ro_len <= total_ro,
                rw_before + rw_len <= total_rw,
                un_before + un_len <= total_un,
                forall|s: int| 0 <= s < ro_len ==> (#[trigger] indices@[s]) == ro_before + s,
                forall|s: int|
                    0 <= s < rw_len ==> (#[trigger] indices@[ro_len + s]) == total_ro + rw_before
                        + s,
                forall|s: int|
                    0 <= s < t3 ==> (#[trigger] indices@[ro_len + rw_len + s]) == total_ro
                        + total_rw + un_before + s,
            decreases un_len - t3,
        {
            indices.push(total_ro + total_rw + un_before + t3);
            t3 += 1;
        }
        remaps.push(indices);
        proof {
            assert forall|v: int, t: int|
                #![trigger remaps@[v]@[t]]
                0 <= v < u + 1 && 0 <= t < exps[v]@.len() implies remaps@[v]@[t] as int == {
                if t < ros[v]@.len() {
                    inited_count_before(ros, v) + t
                } else if t < ros[v]@.len() + rws[v]@.len() {
                    total_ro + inited_count_before(rws, v) + (t - ros[v]@.len())
                } else {
                    total_ro + total_rw + uninit_count_before(uns, v) + (t - ros[v]@.len()
                        - rws[v]@.len())
                }
            } by {
                if v == u as int {
                    assert(remaps@[v] == remaps@[u as int]);
                    assert(exps[v]@.len() == ros[v]@.len() + rws[v]@.len() + uns[v]@.len());
                    if t < ro_len as int {
                        assert(remaps@[u as int]@[t] == ro_before + t);
                    } else if t < ro_len + rw_len {
                        assert(remaps@[u as int]@[ro_len + (t - ro_len)] == total_ro + rw_before + (
                        t - ro_len));
                    } else {
                        assert(remaps@[u as int]@[ro_len + rw_len + (t - ro_len - rw_len)]
                            == total_ro + total_rw + un_before + (t - ro_len - rw_len));
                    }
                }
            }
        }
        ro_before = ro_before + ro_len;
        rw_before = rw_before + rw_len;
        un_before = un_before + un_len;
        u += 1;
    }
    proof {
        assert forall|v: int, t: int|
            #![trigger remaps@[v]@[t]]
            0 <= v < n && 0 <= t < exps[v]@.len() implies remaps@[v]@[t] as int
            == merged_data_index(ros, rws, uns, v, t) by {
            assert(ros.len() as int == n && rws.len() as int == n);
        }
    }
    remaps
}

/// Merges the data sections and the export-data tables of several units.
///
/// Each of the three sections concatenates the units' tables in input order,
/// and the merged export-data table carries the same entries in the order
/// `[read-only by unit | read-write by unit | uninit by unit]`.  The last
/// result maps each unit's internal data index (which counts read-only, then
/// read-write, then uninit entries) to its merged internal index.
pub fn merge_data_entries(
    export_data_entries_list: &Vec<Vec<ExportDataEntry>>,
    read_only_data_entries_list: &Vec<Vec<InitedDataEntry>>,
    read_write_data_entries_list: &Vec<Vec<InitedDataEntry>>,
    uninit_data_entries_list: &Vec<Vec<UninitDataEntry>>,
) -> (r: (
    Vec<ExportDataEntry>,
    Vec<InitedDataEntry>,
    Vec<InitedDataEntry>,
    Vec<UninitDataEntry>,
    Vec<Vec<usize>>,
))
    requires
        read_only_data_entries_list.len() == export_data_entries_list.len(),
        read_write_data_entries_list.len() == export_data_entries_list.len(),
        uninit_data_entries_list.len() == export_data_entries_list.len(),
        // the export-data table of a unit names its data entries one to one
        forall|u: int|
            0 <= u < export_data_entries_list.len() ==> (#[trigger] export_data_entries_list@[u])@.len()
                == read_only_data_entries_list@[u]@.len() + read_write_data_entries_list@[u]@.len()
                + uninit_data_entries_list@[u]@.len(),
    ensures
        ({
            let exps = export_data_entries_list@;
            let ros = read_only_data_entries_list@;
            let rws = read_write_data_entries_list@;
            let uns = uninit_data_entries_list@;
            let n = exps.len() as int;
            let total_ro = inited_count_before(ros, n);
            let total_rw = inited_count_before(rws, n);
            let total_un = uninit_count_before(uns, n);
            let exp_m = r.0;
            let ro_m = r.1;
            let rw_m = r.2;
            let un_m = r.3;
            let remaps = r.4;
            // the three sections concatenate the units in order
            &&& ro_m@.len() == total_ro
            &&& rw_m@.len() == total_rw
            &&& un_m@.len() == total_un
            &&& forall|u: int, t: int|
                #![trigger ros[u]@[t]]
                0 <= u < n && 0 <= t < ros[u]@.len() ==> inited_data_deq(
                    ro_m@[inited_count_before(ros, u) + t],
                    ros[u]@[t],
                )
            &&& forall|u: int, t: int|
                #![trigger rws[u]@[t]]
                0 <= u < n && 0 <= t < rws[u]@.len() ==> inited_data_deq(
                    rw_m@[inited_count_before(rws, u) + t],
                    rws[u]@[t],
                )
            &&& forall|u: int, t: int|
                #![trigger uns[u]@[t]]
                0 <= u < n && 0 <= t < uns[u]@.len() ==> un_m@[uninit_count_before(uns, u) + t]
                    == uns[u]@[t]
            // the merged export-data table is the three section blocks in
            // order, each concatenating the units in order
            &&& exp_m@.len() == total_ro + total_rw + total_un
            &&& forall|u: int, t: int|
                0 <= u < n && 0 <= t < exps[u]@.len() ==> export_data_deq(
                    exp_m@[merged_data_index(ros, rws, uns, u, t)],
                    #[trigger] exps[u]@[t],
                )
            // the per-unit remap of internal data indices
            &&& remaps.len() == n
            &&& forall|u: int| 0 <= u < n ==> (#[trigger] remaps@[u])@.len() == exps[u]@.len()
            &&& forall|u: int, t: int|
                #![trigger remaps@[u]@[t]]
                0 <= u < n && 0 <= t < exps[u]@.len() ==> remaps@[u]@[t] as int
                    == merged_data_index(ros, rws, uns, u, t)
        }),
{
    let ghost exps = export_data_entries_list@;
    let ghost ros = read_only_data_entries_list@;
    let ghost rws = read_write_data_entries_list@;
    let ghost uns = uninit_data_entries_list@;
    let ghost n = export_data_entries_list.len() as int;

    let (zero_offsets, ro_offsets, ro_rw_offsets) = data_window_offsets(
        export_data_entries_list,
        read_only_data_entries_list,
        read_write_data_entries_list,
        uninit_data_entries_list,
    );
    let (ro_exports, read_only_data_entries) = collect_inited_block(
        export_data_entries_list,
        read_only_data_entries_list,
        &zero_offsets,
    );
    let (rw_exports, read_write_data_entries) = collect_inited_block(
        export_data_entries_list,
        read_write_data_entries_list,
        &ro_offsets,
    );
    let (un_exports, uninit_data_entries) = collect_uninit_block(
        export_data_entries_list,
        uninit_data_entries_list,
        &ro_rw_offsets,
    );
    let total_ro = read_only_data_entries.len();
    let total_rw = read_write_data_entries.len();
    let total_un = uninit_data_entries.len();

    let mut export_data_entries = ro_exports;
    append_export_entries(&mut export_data_entries, &rw_exports);
    append_export_entries(&mut export_data_entries, &un_exports);

    proof {
        assert(export_data_entries.len() as int == total_ro as int + total_rw as int
            + total_un as int);
    }
    let internal_data_remap_indices_list = build_internal_data_remaps(
        export_data_entries_list,
        read_only_data_entries_list,
        read_write_data_entries_list,
        uninit_data_entries_list,
        total_ro,
        total_rw,
        total_un,
    );
    proof {
        // translate the per-block export facts to positions in the
        // concatenated table
        assert forall|u: int, t: int|
            0 <= u < n && 0 <= t < exps[u]@.len() implies export_data_deq(
            export_data_entries@[merged_data_index(ros, rws, uns, u, t)],
            #[trigger] exps[u]@[t],
        ) by {
            lemma_inited_count_mono(ros, 0, u);
            lemma_inited_count_mono(ros, u + 1, n);
            lemma_inited_count_mono(rws, 0, u);
            lemma_inited_count_mono(rws, u + 1, n);
            lemma_uninit_count_mono(uns, 0, u);
            lemma_uninit_count_mono(uns, u + 1, n);
            assert(exps[u]@.len() == ros[u]@.len() + rws[u]@.len() + uns[u]@.len());
            assert(ros.len() as int == n && rws.len() as int == n);
            if t < ros[u]@.len() {
                assert(zero_offsets@[u] == 0);
                assert(inited_data_deq(
                    read_only_data_entries@[inited_count_before(ros, u) + t],
                    ros[u]@[t],
                ));
                assert(export_data_deq(ro_exports@[inited_count_before(ros, u) + t], exps[u]@[t]));
            } else if t < ros[u]@.len() + rws[u]@.len() {
                let k = t - ros[u]@.len();
                assert(ro_offsets@[u] as int == ros[u]@.len());
                assert(inited_data_deq(
                    read_write_data_entries@[inited_count_before(rws, u) + k],
                    rws[u]@[k],
                ));
                assert(export_data_deq(
                    rw_exports@[inited_count_before(rws, u) + k],
                    exps[u]@[ros[u]@.len() + k],
                ));
            } else {
                let k = t - ros[u]@.len() - rws[u]@.len();
                assert(ro_rw_offsets@[u] as int == ros[u]@.len() + rws[u]@.len());
                assert(uninit_data_entries@[uninit_count_before(uns, u) + k] == uns[u]@[k]);
                assert(export_data_deq(
                    un_exports@[uninit_count_before(uns, u) + k],
                    exps[u]@[ros[u]@.len() + rws[u]@.len() + k],
                ));
            }
        }
    }
    (
        export_data_entries,
        read_only_data_entries,
        read_write_data_entries,
        uninit_data_entries,
        internal_data_remap_indices_list,
    )
}

/// Where one import of a unit points after the merge: a slot of the merged
/// import table, or an internal function of the merged module.
#[derive(Debug, Clone, Copy, PartialEq, Eq, Structural)]
pub enum ImportRemapItem {
    Import(usize),
    Internal(usize),
}

// ---------------------------------------------------------------------------
// import-function entries
// ---------------------------------------------------------------------------

/// The index of the first export-function entry named `name`, or `-1`.
pub open spec fn find_export_fn(s: Seq<ExportFunctionEntry>, name: Seq<char>) -> int
    decreases s.len(),
{
    if s.len() == 0 {
        -1
    } else if s[0].full_name@ == name {
        0
    } else {
        let r = find_export_fn(s.subrange(1, s.len() as int), name);
        if r < 0 {
            -1
        } else {
            r + 1
        }
    }
}

pub proof fn lemma_find_export_fn(s: Seq<ExportFunctionEntry>, name: Seq<char>)
    ensures
        find_export_fn(s, name) == -1 ==> forall|k: int|
            0 <= k < s.len() ==> (#[trigger] s[k]).full_name@ != name,
        find_export_fn(s, name) >= 0 ==> {
            &&& find_export_fn(s, name) < s.len()
            &&& s[find_export_fn(s, name)].full_name@ == name
            &&& forall|k: int|
                0 <= k < find_export_fn(s, name) ==> (#[trigger] s[k]).full_name@ != name
        },
    decreases s.len(),
{
    if s.len() == 0 {
    } else if s[0].full_name@ == name {
    } else {
        let t = s.subrange(1, s.len() as int);
        lemma_find_export_fn(t, name);
        assert(forall|k: int| 0 <= k < t.len() ==> t[k] == s[k + 1]);
        if find_export_fn(t, name) >= 0 {
            assert forall|k: int| 0 <= k < find_export_fn(s, name) implies (
            #[trigger] s[k]).full_name@ != name by {
                if k >= 1 {
                    assert(t[k - 1].full_name@ != name);
                }
            }
        } else {
            assert forall|k: int| 0 <= k < s.len() implies (#[trigger] s[k]).full_name@ != name by {
                if k >= 1 {
                    assert(t[k - 1].full_name@ != name);
                }
            }
        }
    }
}

/// Finds the first export-function entry named `name`.
pub(crate) fn find_export_function(entries: &Vec<ExportFunctionEntry>, name: &String) -> (r: Option<usize>)
    ensures
        match r {
            Some(p) => p as int == find_export_fn(entries@, name@),
            None => find_export_fn(entries@, name@) == -1,
        },
{
    proof {
        lemma_find_export_fn(entries@, name@);
    }
    let mut i: usize = 0;
    while i < entries.len()
        invariant
            i <= entries.len(),
            forall|k: int| 0 <= k < i ==> (#[trigger] entries@[k]).full_name@ != name@,
        decreases entries.len() - i,
    {
        if string_matches(&entries[i].full_name, name) {
            proof {
                lemma_find_export_fn(entries@, name@);
                if find_export_fn(entries@, name@) < i as int {
                    assert(entries@[find_export_fn(entries@, name@)].full_name@ != name@);
                }
                if find_export_fn(entries@, name@) > i as int {
                    assert(entries@[i as int].full_name@ != name@);
                }
                if find_export_fn(entries@, name@) == -1 {
                    assert(entries@[i as int].full_name@ != name@);
                }
            }
            return Some(i);
        }
        i += 1;
    }
    proof {
        lemma_find_export_fn(entries@, name@);
        if find_export_fn(entries@, name@) >= 0 {
            assert(entries@[find_export_fn(entries@, name@)].full_name@ == name@);
        }
    }
    None
}

/// Finds the first merged import-function entry named `name`.
fn find_import_function_by_name(
    entries: &Vec<ImportFunctionEntry>,
    name: &String,
) -> (r: Option<usize>)
    ensures
        match r {
            Some(p) => {
                &&& p < entries.len()
                &&& entries@[p as int].full_name@ == name@
            },
            None => forall|k: int|
                0 <= k < entries@.len() ==> (#[trigger] entries@[k]).full_name@ != name@,
        },
{
    let mut i: usize = 0;
    while i < entries.len()
        invariant
            i <= entries.len(),
            forall|k: int| 0 <= k < i ==> (#[trigger] entries@[k]).full_name@ != name@,
        decreases entries.len() - i,
    {
        if string_matches(&entries[i].full_name, name) {
            return Some(i);
        }
        i += 1;
    }
    None
}

/// How many import-function entries the units before `u` hold.
pub open spec fn impfn_count_before(lists: Seq<Vec<ImportFunctionEntry>>, u: int) -> int
    decreases u,
{
    if u <= 0 {
        0
    } else {
        impfn_count_before(lists, u - 1) + lists[u - 1]@.len()
    }
}

/// The recorded remap item of one unit import is consistent: an `Internal`
/// item names the export position of the import's full name, and an `Import`
/// item names a merged import entry of that full name (which no export
/// bears).
pub open spec fn remap_item_ok(
    item: ImportRemapItem,
    e: ImportFunctionEntry,
    exports: Seq<ExportFunctionEntry>,
    merged: Seq<ImportFunctionEntry>,
) -> bool {
    match item {
        ImportRemapItem::Internal(p) => p as int == find_export_fn(exports, e.full_name@),
        ImportRemapItem::Import(p) => {
            &&& find_export_fn(exports, e.full_name@) == -1
            &&& (p as int) < merged.len()
            &&& merged[p as int].full_name@ == e.full_name@
        },
    }
}

proof fn lemma_impfn_count_nonneg(lists: Seq<Vec<ImportFunctionEntry>>, v: int)
    requires
        0 <= v,
    ensures
        0 <= impfn_count_before(lists, v),
    decreases v,
{
    if v > 0 {
        lemma_impfn_count_nonneg(lists, v - 1);
    }
}

/// Some import entry of some unit carries this name, with the entry's module
/// and type indices already translated through the given remaps.
pub open spec fn import_fn_from_lists(
    lists: Seq<Vec<ImportFunctionEntry>>,
    module_remaps: Seq<Vec<usize>>,
    type_remaps: Seq<Vec<usize>>,
    e: ImportFunctionEntry,
) -> bool {
    exists|u: int, i: int|
        {
            &&& 0 <= u < lists.len() && 0 <= i < lists[u]@.len()
            &&& e.full_name@ == (#[trigger] lists[u]@[i]).full_name@
            &&& e.import_module_index == module_remaps[u]@[lists[u]@[i].import_module_index as int]
            &&& e.type_index == type_remaps[u]@[lists[u]@[i].type_index as int]
        }
}

/// A single unit's import table passes through unchanged when its names are
/// unique, none of them exported, and the unit's remaps are the identity.
pub open spec fn impfn_unit_clean(
    list: Seq<ImportFunctionEntry>,
    exports: Seq<ExportFunctionEntry>,
    module_remap: Vec<usize>,
    type_remap: Vec<usize>,
) -> bool {
    &&& forall|i: int, j: int|
        0 <= i < j < list.len() ==> (#[trigger] list[i]).full_name@ != (
        #[trigger] list[j]).full_name@
    &&& forall|i: int|
        0 <= i < list.len() ==> find_export_fn(exports, (#[trigger] list[i]).full_name@) == -1
    &&& forall|i: int|
        0 <= i < list.len() ==> {
            &&& module_remap@[(#[trigger] list[i]).import_module_index as int] as int
                == list[i].import_module_index
            &&& type_remap@[list[i].type_index as int] as int == list[i].type_index
        }
}

/// The merged import-function names after the first `i` imports of each unit
/// up to `u`, in unit-major, declaration-minor order: an import that the
/// merged export table defines is dropped, any other name is kept at its
/// first occurrence.
pub open spec fn impfn_name_fold_upto(
    lists: Seq<Vec<ImportFunctionEntry>>,
    exports: Seq<ExportFunctionEntry>,
    u: int,
    i: int,
) -> Seq<Seq<char>>
    decreases u, i,
    when i >= 0
{
    if u <= 0 && i <= 0 {
        Seq::empty()
    } else if i <= 0 {
        impfn_name_fold_upto(lists, exports, u - 1, lists[u - 1]@.len() as int)
    } else {
        let name = lists[u]@[i - 1].full_name@;
        let prev = impfn_name_fold_upto(lists, exports, u, i - 1);
        if find_export_fn(exports, name) >= 0 {
            prev
        } else {
            module_name_fold_insert(prev, name)
        }
    }
}

/// `merged` names, position for position, the fold prefix at unit `u`,
/// import `i`.
pub open spec fn impfn_names_folded_at(
    merged: Seq<ImportFunctionEntry>,
    lists: Seq<Vec<ImportFunctionEntry>>,
    exports: Seq<ExportFunctionEntry>,
    u: int,
    i: int,
) -> bool {
    &&& merged.len() == impfn_name_fold_upto(lists, exports, u, i).len()
    &&& forall|k: int|
        0 <= k < merged.len() ==> (#[trigger] merged[k]).full_name@ == impfn_name_fold_upto(
            lists,
            exports,
            u,
            i,
        )[k]
}

/// The merged import-function table holds the unresolved import names once
/// each, in first-occurrence order.
pub open spec fn impfn_names_folded(
    merged: Seq<ImportFunctionEntry>,
    lists: Seq<Vec<ImportFunctionEntry>>,
    exports: Seq<ExportFunctionEntry>,
) -> bool {
    impfn_names_folded_at(merged, lists, exports, lists.len() as int, 0)
}

/// Merges the import-function tables of several units and builds each unit's
/// function public index remap.
///
/// An import whose full name is defined in the merged export-function table
/// resolves to that internal function: its public index is the merged import
/// count plus the export position.  Other imports are deduplicated by full
/// name.  Each unit's remap lists its imports first and then its internal
/// functions, whose merged internal indices are given by
/// `internal_function_remap_indices_list`.
#[verifier::rlimit(100)]
#[verifier::spinoff_prover]
pub fn merge_import_function_entries(
    export_function_entries: &Vec<ExportFunctionEntry>,
    internal_function_remap_indices_list: &Vec<Vec<usize>>,
    import_module_remap_indices_list: &Vec<Vec<usize>>,
    type_remap_indices_list: &Vec<Vec<usize>>,
    import_function_entries_list: &Vec<Vec<ImportFunctionEntry>>,
) -> (r: Result<(Vec<ImportFunctionEntry>, Vec<Vec<usize>>), LinkerError>)
    requires
        internal_function_remap_indices_list.len() == import_function_entries_list.len(),
        import_module_remap_indices_list.len() == import_function_entries_list.len(),
        type_remap_indices_list.len() == import_function_entries_list.len(),
        forall|u: int, i: int|
            0 <= u < import_function_entries_list.len() && 0 <= i
                < import_function_entries_list@[u]@.len() ==> {
                &&& (#[trigger] import_function_entries_list@[u]@[i]).import_module_index
                    < import_module_remap_indices_list@[u]@.len()
                &&& import_function_entries_list@[u]@[i].type_index
                    < type_remap_indices_list@[u]@.len()
            },
        export_function_entries@.len() + impfn_count_before(
            import_function_entries_list@,
            import_function_entries_list.len() as int,
        ) <= usize::MAX,
        forall|u: int, j: int|
            0 <= u < internal_function_remap_indices_list.len() && 0 <= j
                < internal_function_remap_indices_list@[u]@.len() ==> (
            #[trigger] internal_function_remap_indices_list@[u]@[j]) + impfn_count_before(
                import_function_entries_list@,
                import_function_entries_list.len() as int,
            ) <= usize::MAX,
    ensures
        r is Ok,
        r matches Ok(p) ==> ({
            let merged = p.0;
            let pubmaps = p.1;
            let lists = import_function_entries_list@;
            let exports = export_function_entries@;
            let module_remaps = import_module_remap_indices_list@;
            let type_remaps = type_remap_indices_list@;
            let internal_remaps = internal_function_remap_indices_list@;
            &&& merged@.len() <= impfn_count_before(lists, lists.len() as int)
            // merged imports bear distinct names, none of them exported
            &&& forall|k: int, l: int|
                0 <= k < l < merged@.len() ==> (#[trigger] merged@[k]).full_name@ != (
                #[trigger] merged@[l]).full_name@
            &&& forall|k: int|
                0 <= k < merged@.len() ==> find_export_fn(
                    exports,
                    (#[trigger] merged@[k]).full_name@,
                ) == -1
            // nothing is invented, and indices are translated
            &&& forall|k: int|
                0 <= k < merged@.len() ==> import_fn_from_lists(
                    lists,
                    module_remaps,
                    type_remaps,
                    #[trigger] merged@[k],
                )
            // the merged table names are the first-occurrence fold of the
            // unresolved import names
            &&& impfn_names_folded(merged@, lists, exports)
            // each unit's public remap: imports first, then internals
            &&& pubmaps.len() == lists.len()
            &&& forall|u: int|
                0 <= u < lists.len() ==> (#[trigger] pubmaps@[u])@.len() == lists[u]@.len()
                    + internal_remaps[u]@.len()
            &&& forall|u: int, i: int|
                0 <= u < lists.len() && 0 <= i < lists[u]@.len() ==> {
                    let e = #[trigger] lists[u]@[i];
                    if find_export_fn(exports, e.full_name@) >= 0 {
                        pubmaps@[u]@[i] as int == merged@.len() + find_export_fn(
                            exports,
                            e.full_name@,
                        )
                    } else {
                        &&& (pubmaps@[u]@[i] as int) < merged@.len()
                        &&& merged@[pubmaps@[u]@[i] as int].full_name@ == e.full_name@
                    }
                }
            &&& forall|u: int, j: int|
                0 <= u < lists.len() && 0 <= j < internal_remaps[u]@.len() ==> pubmaps@[u]@[lists[u]@.len()
                    + j] as int == (#[trigger] internal_remaps[u]@[j]) + merged@.len()
            // a single clean unit's import table passes through unchanged
            &&& (lists.len() == 1 && impfn_unit_clean(
                lists[0]@,
                exports,
                module_remaps[0],
                type_remaps[0],
            )) ==> {
                &&& merged@.len() == lists[0]@.len()
                &&& forall|i: int|
                    0 <= i < merged@.len() ==> import_function_deq(
                        #[trigger] merged@[i],
                        lists[0]@[i],
                    )
            }
        }),
{
    let ghost lists = import_function_entries_list@;
    let ghost exports = export_function_entries@;
    let ghost module_remaps = import_module_remap_indices_list@;
    let ghost type_remaps = type_remap_indices_list@;
    let ghost internal_remaps = internal_function_remap_indices_list@;
    let ghost total = impfn_count_before(lists, lists.len() as int);

    proof {
        assert forall|v: int| 0 <= v <= lists.len() implies 0 <= #[trigger] impfn_count_before(
            lists,
            v,
        ) by {
            lemma_impfn_count_nonneg(lists, v);
        }
    }
    let mut merged: Vec<ImportFunctionEntry> = Vec::new();
    // one entry per unit import: the resolved export position, or the merged
    // import position
    let mut remap_tables: Vec<Vec<ImportRemapItem>> = Vec::new();
    let mut u: usize = 0;
    while u < import_function_entries_list.len()
        invariant
            lists == import_function_entries_list@,
            exports == export_function_entries@,
            module_remaps == import_module_remap_indices_list@,
            type_remaps == type_remap_indices_list@,
            module_remaps.len() == lists.len(),
            type_remaps.len() == lists.len(),
            forall|v: int, i: int|
                0 <= v < lists.len() && 0 <= i < lists[v]@.len() ==> {
                    &&& (#[trigger] lists[v]@[i]).import_module_index < module_remaps[v]@.len()
                    &&& lists[v]@[i].type_index < type_remaps[v]@.len()
                },
            u <= lists.len(),
            total == impfn_count_before(lists, lists.len() as int),
            forall|v: int| 0 <= v <= lists.len() ==> 0 <= #[trigger] impfn_count_before(lists, v),
            merged@.len() <= impfn_count_before(lists, u as int),
            forall|v: int|
                0 <= v < u ==> #[trigger] impfn_count_before(lists, v) <= impfn_count_before(
                    lists,
                    u as int,
                ),
            forall|k: int, l: int|
                0 <= k < l < merged@.len() ==> (#[trigger] merged@[k]).full_name@ != (
                #[trigger] merged@[l]).full_name@,
            forall|k: int|
                0 <= k < merged@.len() ==> find_export_fn(
                    exports,
                    (#[trigger] merged@[k]).full_name@,
                ) == -1,
            forall|k: int|
                0 <= k < merged@.len() ==> import_fn_from_lists(
                    lists,
                    module_remaps,
                    type_remaps,
                    #[trigger] merged@[k],
                ),
            remap_tables.len() == u,
            forall|v: int|
                0 <= v < u ==> (#[trigger] remap_tables@[v])@.len() == lists[v]@.len(),
            forall|v: int, i: int|
                0 <= v < u && 0 <= i < lists[v]@.len() ==> remap_item_ok(
                    remap_tables@[v]@[i],
                    #[trigger] lists[v]@[i],
                    exports,
                    merged@,
                ),
            impfn_names_folded_at(merged@, lists, exports, u as int, 0),
            (lists.len() == 1 && impfn_unit_clean(
                lists[0]@,
                exports,
                module_remaps[0],
                type_remaps[0],
            ) && u >= 1) ==> {
                &&& merged@.len() == lists[0]@.len()
                &&& forall|i: int|
                    0 <= i < merged@.len() ==> import_function_deq(
                        #[trigger] merged@[i],
                        lists[0]@[i],
                    )
            },
        decreases import_function_entries_list.len() - u,
    {
        let source = &import_function_entries_list[u];
        let mut table: Vec<ImportRemapItem> = Vec::new();
        let mut i: usize = 0;
        while i < source.len()
            invariant
                lists == import_function_entries_list@,
                exports == export_function_entries@,
                module_remaps == import_module_remap_indices_list@,
                type_remaps == type_remap_indices_list@,
                module_remaps.len() == lists.len(),
                type_remaps.len() == lists.len(),
                forall|v: int, k: int|
                    0 <= v < lists.len() && 0 <= k < lists[v]@.len() ==> {
                        &&& (#[trigger] lists[v]@[k]).import_module_index < module_remaps[v]@.len()
                        &&& lists[v]@[k].type_index < type_remaps[v]@.len()
                    },
                u < lists.len(),
                source == &import_function_entries_list[u as int],
                i <= source@.len(),
                total == impfn_count_before(lists, lists.len() as int),
                forall|v: int|
                    0 <= v <= lists.len() ==> 0 <= #[trigger] impfn_count_before(lists, v),
                merged@.len() <= impfn_count_before(lists, u as int) + i,
                forall|k: int, l: int|
                    0 <= k < l < merged@.len() ==> (#[trigger] merged@[k]).full_name@ != (
                    #[trigger] merged@[l]).full_name@,
                forall|k: int|
                    0 <= k < merged@.len() ==> find_export_fn(
                        exports,
                        (#[trigger] merged@[k]).full_name@,
                    ) == -1,
                forall|k: int|
                    0 <= k < merged@.len() ==> import_fn_from_lists(
                        lists,
                        module_remaps,
                        type_remaps,
                        #[trigger] merged@[k],
                    ),
                remap_tables.len() == u,
                forall|v: int|
                    0 <= v < u ==> (#[trigger] remap_tables@[v])@.len() == lists[v]@.len(),
                forall|v: int, k: int|
                    0 <= v < u && 0 <= k < lists[v]@.len() ==> remap_item_ok(
                        remap_tables@[v]@[k],
                        #[trigger] lists[v]@[k],
                        exports,
                        merged@,
                    ),
                table.len() == i,
                forall|k: int|
                    0 <= k < i ==> remap_item_ok(
                        table@[k],
                        #[trigger] lists[u as int]@[k],
                        exports,
                        merged@,
                    ),
                impfn_names_folded_at(merged@, lists, exports, u as int, i as int),
                (lists.len() == 1 && impfn_unit_clean(
                    lists[0]@,
                    exports,
                    module_remaps[0],
                    type_remaps[0],
                ) && u == 0) ==> {
                    &&& merged@.len() == i
                    &&& forall|k: int|
                        0 <= k < i ==> import_function_deq(#[trigger] merged@[k], lists[0]@[k])
                },
            decreases source.len() - i,
        {
            let entry_source = &source[i];
            let ghost fold_acc = impfn_name_fold_upto(lists, exports, u as int, i as int);
            let ghost name_i = lists[u as int]@[i as int].full_name@;
            match find_export_function(export_function_entries, &entry_source.full_name) {
                Some(pos_internal) => {
                    proof {
                        assert(find_export_fn(exports, name_i) >= 0);
                        assert(impfn_name_fold_upto(lists, exports, u as int, i as int + 1)
                            == fold_acc);
                    }
                    proof {
                        // a clean unit's imports never name an export
                        if lists.len() == 1 && impfn_unit_clean(
                            lists[0]@,
                            exports,
                            module_remaps[0],
                            type_remaps[0],
                        ) && u == 0 {
                            lemma_find_export_fn(exports, lists[0]@[i as int].full_name@);
                        }
                    }
                    table.push(ImportRemapItem::Internal(pos_internal));
                },
                None => {
                    match find_import_function_by_name(&merged, &entry_source.full_name) {
                        Some(pos_merged) => {
                            proof {
                                // a clean unit's import names are pairwise
                                // distinct, so no earlier one matches
                                if lists.len() == 1 && impfn_unit_clean(
                                    lists[0]@,
                                    exports,
                                    module_remaps[0],
                                    type_remaps[0],
                                ) && u == 0 {
                                    assert(import_function_deq(
                                        merged@[pos_merged as int],
                                        lists[0]@[pos_merged as int],
                                    ));
                                    assert(lists[0]@[pos_merged as int].full_name@
                                        != lists[0]@[i as int].full_name@);
                                }
                            }
                            proof {
                                assert(fold_acc[pos_merged as int] == name_i);
                                assert(impfn_name_fold_upto(lists, exports, u as int, i as int + 1)
                                    == fold_acc);
                            }
                            table.push(ImportRemapItem::Import(pos_merged));
                        },
                        None => {
                            let merged_import_module_index =
                                import_module_remap_indices_list[u][entry_source.import_module_index];
                            let merged_type_index =
                                type_remap_indices_list[u][entry_source.type_index];
                            let pos_new = merged.len();
                            proof {
                                assert forall|k: int| 0 <= k < fold_acc.len() implies (
                                #[trigger] fold_acc[k]) != name_i by {
                                    assert(merged@[k].full_name@ == fold_acc[k]);
                                }
                                assert(impfn_name_fold_upto(lists, exports, u as int, i as int + 1)
                                    == fold_acc.push(name_i));
                            }
                            let entry_merged = ImportFunctionEntry {
                                full_name: copy_string(&entry_source.full_name),
                                import_module_index: merged_import_module_index,
                                type_index: merged_type_index,
                            };
                            merged.push(entry_merged);
                            proof {
                                assert(merged@[pos_new as int].full_name@
                                    == lists[u as int]@[i as int].full_name@);
                                assert(import_fn_from_lists(
                                    lists,
                                    module_remaps,
                                    type_remaps,
                                    merged@[pos_new as int],
                                ));
                            }
                            table.push(ImportRemapItem::Import(pos_new));
                        },
                    }
                },
            }
            i += 1;
        }
        proof {
            assert(impfn_name_fold_upto(lists, exports, u as int + 1, 0) == impfn_name_fold_upto(
                lists,
                exports,
                u as int,
                lists[u as int]@.len() as int,
            ));
        }
        remap_tables.push(table);
        u += 1;
    }
    proof {
        assert(impfn_names_folded_at(merged@, lists, exports, lists.len() as int, 0));
    }

    // build the function public index remaps
    let import_function_count = merged.len();
    let mut pubmaps: Vec<Vec<usize>> = Vec::new();
    let mut u2: usize = 0;
    while u2 < import_function_entries_list.len()
        invariant
            lists == import_function_entries_list@,
            exports == export_function_entries@,
            internal_remaps == internal_function_remap_indices_list@,
            internal_remaps.len() == lists.len(),
            import_function_count == merged.len(),
            merged@.len() <= impfn_count_before(lists, lists.len() as int),
            exports.len() + impfn_count_before(lists, lists.len() as int) <= usize::MAX,
            forall|v: int, j: int|
                0 <= v < internal_remaps.len() && 0 <= j < internal_remaps[v]@.len() ==> (
                #[trigger] internal_remaps[v]@[j]) + impfn_count_before(lists, lists.len() as int)
                    <= usize::MAX,
            remap_tables.len() == lists.len(),
            forall|v: int|
                0 <= v < lists.len() ==> (#[trigger] remap_tables@[v])@.len() == lists[v]@.len(),
            forall|v: int, k: int|
                0 <= v < lists.len() && 0 <= k < lists[v]@.len() ==> remap_item_ok(
                    remap_tables@[v]@[k],
                    #[trigger] lists[v]@[k],
                    exports,
                    merged@,
                ),
            u2 <= lists.len(),
            pubmaps.len() == u2,
            forall|v: int|
                0 <= v < u2 ==> (#[trigger] pubmaps@[v])@.len() == lists[v]@.len()
                    + internal_remaps[v]@.len(),
            forall|v: int, i: int|
                0 <= v < u2 && 0 <= i < lists[v]@.len() ==> {
                    let e = #[trigger] lists[v]@[i];
                    if find_export_fn(exports, e.full_name@) >= 0 {
                        pubmaps@[v]@[i] as int == merged@.len() + find_export_fn(
                            exports,
                            e.full_name@,
                        )
                    } else {
                        &&& (pubmaps@[v]@[i] as int) < merged@.len()
                        &&& merged@[pubmaps@[v]@[i] as int].full_name@ == e.full_name@
                    }
                },
            forall|v: int, j: int|
                0 <= v < u2 && 0 <= j < internal_remaps[v]@.len() ==> pubmaps@[v]@[lists[v]@.len()
                    + j] as int == (#[trigger] internal_remaps[v]@[j]) + merged@.len(),
        decreases import_function_entries_list.len() - u2,
    {
        let table = &remap_tables[u2];
        let internal_indices = &internal_function_remap_indices_list[u2];
        let mut indices: Vec<usize> = Vec::new();
        let mut i: usize = 0;
        while i < table.len()
            invariant
                lists == import_function_entries_list@,
                exports == export_function_entries@,
                u2 < lists.len(),
                table == &remap_tables[u2 as int],
                table@.len() == lists[u2 as int]@.len(),
                import_function_count == merged.len(),
                merged@.len() <= impfn_count_before(lists, lists.len() as int),
                exports.len() + impfn_count_before(lists, lists.len() as int) <= usize::MAX,
                forall|k: int|
                    0 <= k < lists[u2 as int]@.len() ==> remap_item_ok(
                        table@[k],
                        #[trigger] lists[u2 as int]@[k],
                        exports,
                        merged@,
                    ),
                i <= table@.len(),
                indices.len() == i,
                forall|k: int|
                    0 <= k < i ==> {
                        let e = #[trigger] lists[u2 as int]@[k];
                        if find_export_fn(exports, e.full_name@) >= 0 {
                            indices@[k] as int == merged@.len() + find_export_fn(
                                exports,
                                e.full_name@,
                            )
                        } else {
                            &&& (indices@[k] as int) < merged@.len()
                            &&& merged@[indices@[k] as int].full_name@ == e.full_name@
                        }
                    },
            decreases table.len() - i,
        {
            proof {
                lemma_find_export_fn(exports, lists[u2 as int]@[i as int].full_name@);
            }
            match table[i] {
                ImportRemapItem::Import(idx) => {
                    indices.push(idx);
                },
                ImportRemapItem::Internal(idx) => {
                    indices.push(idx + import_function_count);
                },
            }
            i += 1;
        }
        let mut j: usize = 0;
        while j < internal_indices.len()
            invariant
                lists == import_function_entries_list@,
                exports == export_function_entries@,
                internal_remaps == internal_function_remap_indices_list@,
                internal_remaps.len() == lists.len(),
                u2 < lists.len(),
                internal_indices == &internal_function_remap_indices_list[u2 as int],
                import_function_count == merged.len(),
                merged@.len() <= impfn_count_before(lists, lists.len() as int),
                forall|v: int, k: int|
                    0 <= v < internal_remaps.len() && 0 <= k < internal_remaps[v]@.len() ==> (
                    #[trigger] internal_remaps[v]@[k]) + impfn_count_before(
                        lists,
                        lists.len() as int,
                    ) <= usize::MAX,
                j <= internal_indices@.len(),
                indices.len() == lists[u2 as int]@.len() + j,
                forall|k: int|
                    0 <= k < lists[u2 as int]@.len() ==> {
                        let e = #[trigger] lists[u2 as int]@[k];
                        if find_export_fn(exports, e.full_name@) >= 0 {
                            indices@[k] as int == merged@.len() + find_export_fn(
                                exports,
                                e.full_name@,
                            )
                        } else {
                            &&& (indices@[k] as int) < merged@.len()
                            &&& merged@[indices@[k] as int].full_name@ == e.full_name@
                        }
                    },
                forall|k: int|
                    0 <= k < j ==> (#[trigger] indices@[lists[u2 as int]@.len() + k]) as int
                        == internal_remaps[u2 as int]@[k] + merged@.len(),
            decreases internal_indices.len() - j,
        {
            indices.push(internal_indices[j] + import_function_count);
            j += 1;
        }
        pubmaps.push(indices);
        u2 += 1;
    }
    Ok((merged, pubmaps))
}

// ---------------------------------------------------------------------------
// import-data entries
// ---------------------------------------------------------------------------

/// The imports of one section, in declaration order.
pub open spec fn section_imports(s: Seq<ImportDataEntry>, sec: DataSectionType) -> Seq<
    ImportDataEntry,
> {
    s.filter(|e: ImportDataEntry| e.data_section_type == sec)
}

/// The position of import `i` in the section-stratified public order of its
/// unit: read-only imports first, then read-write, then uninitialized, each
/// group in declaration order.
pub open spec fn stratified_position(s: Seq<ImportDataEntry>, i: int) -> int {
    if s[i].data_section_type == DataSectionType::ReadOnly {
        section_imports(s.take(i), DataSectionType::ReadOnly).len() as int
    } else if s[i].data_section_type == DataSectionType::ReadWrite {
        section_imports(s, DataSectionType::ReadOnly).len() as int + section_imports(
            s.take(i),
            DataSectionType::ReadWrite,
        ).len() as int
    } else {
        section_imports(s, DataSectionType::ReadOnly).len() as int + section_imports(
            s,
            DataSectionType::ReadWrite,
        ).len() as int + section_imports(s.take(i), DataSectionType::Uninit).len() as int
    }
}

proof fn lemma_section_take_succ(s: Seq<ImportDataEntry>, sec: DataSectionType, i: int)
    requires
        0 <= i < s.len(),
    ensures
        s[i].data_section_type == sec ==> section_imports(s.take(i + 1), sec) == section_imports(
            s.take(i),
            sec,
        ).push(s[i]),
        s[i].data_section_type != sec ==> section_imports(s.take(i + 1), sec) == section_imports(
            s.take(i),
            sec,
        ),
{
    reveal(Seq::filter);
    assert(s.take(i + 1).drop_last() =~= s.take(i));
    assert(s.take(i + 1).last() == s[i]);
}

proof fn lemma_section_take_index(s: Seq<ImportDataEntry>, sec: DataSectionType, i: int)
    requires
        0 <= i < s.len(),
        s[i].data_section_type == sec,
    ensures
        section_imports(s.take(i), sec).len() < section_imports(s, sec).len(),
        section_imports(s, sec)[section_imports(s.take(i), sec).len() as int] == s[i],
    decreases s.len(),
{
    reveal(Seq::filter);
    if i == s.len() - 1 {
        assert(s.take(i) =~= s.drop_last());
        assert(s.last() == s[i]);
        assert(section_imports(s, sec) == section_imports(s.drop_last(), sec).push(s[i]));
    } else {
        let d = s.drop_last();
        lemma_section_take_index(d, sec, i);
        assert(s.take(i) =~= d.take(i));
        if s.last().data_section_type == sec {
            assert(section_imports(s, sec) == section_imports(d, sec).push(s.last()));
        } else {
            assert(section_imports(s, sec) == section_imports(d, sec));
        }
        assert(d[i] == s[i]);
    }
}

proof fn lemma_section_partition(s: Seq<ImportDataEntry>)
    ensures
        section_imports(s, DataSectionType::ReadOnly).len() + section_imports(
            s,
            DataSectionType::ReadWrite,
        ).len() + section_imports(s, DataSectionType::Uninit).len() == s.len(),
    decreases s.len(),
{
    reveal(Seq::filter);
    if s.len() > 0 {
        lemma_section_partition(s.drop_last());
        let e = s.last();
        if e.data_section_type == DataSectionType::ReadOnly {
            assert(section_imports(s, DataSectionType::ReadOnly) == section_imports(
                s.drop_last(),
                DataSectionType::ReadOnly,
            ).push(e));
        } else if e.data_section_type == DataSectionType::ReadWrite {
            assert(section_imports(s, DataSectionType::ReadWrite) == section_imports(
                s.drop_last(),
                DataSectionType::ReadWrite,
            ).push(e));
        } else {
            assert(section_imports(s, DataSectionType::Uninit) == section_imports(
                s.drop_last(),
                DataSectionType::Uninit,
            ).push(e));
        }
    }
}

/// The index of the first export-data entry named `name`, or `-1`.
pub open spec fn find_export_data(s: Seq<ExportDataEntry>, name: Seq<char>) -> int
    decreases s.len(),
{
    if s.len() == 0 {
        -1
    } else if s[0].full_name@ == name {
        0
    } else {
        let r = find_export_data(s.subrange(1, s.len() as int), name);
        if r < 0 {
            -1
        } else {
            r + 1
        }
    }
}

pub proof fn lemma_find_export_data(s: Seq<ExportDataEntry>, name: Seq<char>)
    ensures
        find_export_data(s, name) == -1 ==> forall|k: int|
            0 <= k < s.len() ==> (#[trigger] s[k]).full_name@ != name,
        find_export_data(s, name) >= 0 ==> {
            &&& find_export_data(s, name) < s.len()
            &&& s[find_export_data(s, name)].full_name@ == name
            &&& forall|k: int|
                0 <= k < find_export_data(s, name) ==> (#[trigger] s[k]).full_name@ != name
        },
    decreases s.len(),
{
    if s.len() == 0 {
    } else if s[0].full_name@ == name {
    } else {
        let t = s.subrange(1, s.len() as int);
        lemma_find_export_data(t, name);
        assert(forall|k: int| 0 <= k < t.len() ==> t[k] == s[k + 1]);
        if find_export_data(t, name) >= 0 {
            assert forall|k: int| 0 <= k < find_export_data(s, name) implies (
            #[trigger] s[k]).full_name@ != name by {
                if k >= 1 {
                    assert(t[k - 1].full_name@ != name);
                }
            }
        } else {
            assert forall|k: int| 0 <= k < s.len() implies (#[trigger] s[k]).full_name@ != name by {
                if k >= 1 {
                    assert(t[k - 1].full_name@ != name);
                }
            }
        }
    }
}

/// Finds the first export-data entry named `name`.
pub(crate) fn find_export_datum(entries: &Vec<ExportDataEntry>, name: &String) -> (r: Option<usize>)
    ensures
        match r {
            Some(p) => p as int == find_export_data(entries@, name@),
            None => find_export_data(entries@, name@) == -1,
        },
{
    proof {
        lemma_find_export_data(entries@, name@);
    }
    let mut i: usize = 0;
    while i < entries.len()
        invariant
            i <= entries.len(),
            forall|k: int| 0 <= k < i ==> (#[trigger] entries@[k]).full_name@ != name@,
        decreases entries.len() - i,
    {
        if string_matches(&entries[i].full_name, name) {
            proof {
                lemma_find_export_data(entries@, name@);
                if find_export_data(entries@, name@) < i as int {
                    assert(entries@[find_export_data(entries@, name@)].full_name@ != name@);
                }
                if find_export_data(entries@, name@) > i as int {
                    assert(entries@[i as int].full_name@ != name@);
                }
                if find_export_data(entries@, name@) == -1 {
                    assert(entries@[i as int].full_name@ != name@);
                }
            }
            return Some(i);
        }
        i += 1;
    }
    proof {
        lemma_find_export_data(entries@, name@);
        if find_export_data(entries@, name@) >= 0 {
            assert(entries@[find_export_data(entries@, name@)].full_name@ == name@);
        }
    }
    None
}

/// Finds the first merged import-data entry named `name`.
fn find_import_data_by_name(entries: &Vec<ImportDataEntry>, name: &String) -> (r: Option<usize>)
    ensures
        match r {
            Some(p) => {
                &&& p < entries.len()
                &&& entries@[p as int].full_name@ == name@
            },
            None => forall|k: int|
                0 <= k < entries@.len() ==> (#[trigger] entries@[k]).full_name@ != name@,
        },
{
    let mut i: usize = 0;
    while i < entries.len()
        invariant
            i <= entries.len(),
            forall|k: int| 0 <= k < i ==> (#[trigger] entries@[k]).full_name@ != name@,
        decreases entries.len() - i,
    {
        if string_matches(&entries[i].full_name, name) {
            return Some(i);
        }
        i += 1;
    }
    None
}

/// The memory type of the internal datum at stratified position `pos`.
pub open spec fn datum_memory_type(
    ro: Seq<InitedDataEntry>,
    rw: Seq<InitedDataEntry>,
    un: Seq<UninitDataEntry>,
    pos: int,
) -> crate::entry::MemoryDataType {
    if pos < ro.len() {
        ro[pos].memory_data_type
    } else if pos < ro.len() + rw.len() {
        rw[pos - ro.len()].memory_data_type
    } else {
        un[pos - ro.len() - rw.len()].memory_data_type
    }
}

/// The recorded remap item of one unit data import is consistent.
pub open spec fn data_remap_item_ok(
    item: ImportRemapItem,
    e: ImportDataEntry,
    exports: Seq<ExportDataEntry>,
    ro: Seq<InitedDataEntry>,
    rw: Seq<InitedDataEntry>,
    un: Seq<UninitDataEntry>,
    merged: Seq<ImportDataEntry>,
) -> bool {
    match item {
        ImportRemapItem::Internal(p) => {
            &&& p as int == find_export_data(exports, e.full_name@)
            &&& (p as int) < exports.len()
            &&& exports[p as int].section_type == e.data_section_type
            &&& datum_memory_type(ro, rw, un, p as int) == e.memory_data_type
        },
        ImportRemapItem::Import(p) => {
            &&& find_export_data(exports, e.full_name@) == -1
            &&& (p as int) < merged.len()
            &&& merged[p as int].full_name@ == e.full_name@
            &&& merged[p as int].data_section_type == e.data_section_type
            &&& merged[p as int].memory_data_type == e.memory_data_type
        },
    }
}

/// Some import entry of some unit carries this name, section and memory type,
/// with its module index already translated.
pub open spec fn import_data_from_lists(
    lists: Seq<Vec<ImportDataEntry>>,
    module_remaps: Seq<Vec<usize>>,
    e: ImportDataEntry,
) -> bool {
    exists|u: int, i: int|
        {
            &&& 0 <= u < lists.len() && 0 <= i < lists[u]@.len()
            &&& e.full_name@ == (#[trigger] lists[u]@[i]).full_name@
            &&& e.import_module_index == module_remaps[u]@[lists[u]@[i].import_module_index as int]
            &&& e.data_section_type == lists[u]@[i].data_section_type
            &&& e.memory_data_type == lists[u]@[i].memory_data_type
        }
}

/// Every data import can be satisfied: an import of an exported name agrees
/// with the export's section, and two imports of one (non-exported) name
/// agree on section and memory type.
pub open spec fn import_data_lists_compatible(
    lists: Seq<Vec<ImportDataEntry>>,
    exports: Seq<ExportDataEntry>,
    ro: Seq<InitedDataEntry>,
    rw: Seq<InitedDataEntry>,
    un: Seq<UninitDataEntry>,
) -> bool {
    &&& forall|u: int, i: int|
        0 <= u < lists.len() && 0 <= i < lists[u]@.len() ==> {
            let e = #[trigger] lists[u]@[i];
            find_export_data(exports, e.full_name@) >= 0 ==> {
                &&& exports[find_export_data(exports, e.full_name@)].section_type
                    == e.data_section_type
                &&& datum_memory_type(ro, rw, un, find_export_data(exports, e.full_name@))
                    == e.memory_data_type
            }
        }
    &&& forall|u: int, i: int, v: int, j: int|
        0 <= u < lists.len() && 0 <= i < lists[u]@.len() && 0 <= v < lists.len() && 0 <= j
            < lists[v]@.len() && (#[trigger] lists[u]@[i]).full_name@ == (
        #[trigger] lists[v]@[j]).full_name@ && find_export_data(
            exports,
            lists[u]@[i].full_name@,
        ) == -1 ==> {
            &&& lists[u]@[i].data_section_type == lists[v]@[j].data_section_type
            &&& lists[u]@[i].memory_data_type == lists[v]@[j].memory_data_type
        }
}

/// Some data import cannot be satisfied, and `e` is the error it produces.
pub open spec fn import_data_conflict_witness(
    e: LinkErrorType,
    lists: Seq<Vec<ImportDataEntry>>,
    exports: Seq<ExportDataEntry>,
    ro: Seq<InitedDataEntry>,
    rw: Seq<InitedDataEntry>,
    un: Seq<UninitDataEntry>,
) -> bool {
    ||| exists|u: int, i: int|
        {
            &&& 0 <= u < lists.len() && 0 <= i < lists[u]@.len()
            &&& find_export_data(exports, (#[trigger] lists[u]@[i]).full_name@) >= 0
            &&& exports[find_export_data(exports, lists[u]@[i].full_name@)].section_type
                != lists[u]@[i].data_section_type
            &&& e matches LinkErrorType::ImportDataSectionMismatch(m, sec) && m@
                == lists[u]@[i].full_name@ && sec == lists[u]@[i].data_section_type
        }
    ||| exists|u: int, i: int|
        {
            &&& 0 <= u < lists.len() && 0 <= i < lists[u]@.len()
            &&& find_export_data(exports, (#[trigger] lists[u]@[i]).full_name@) >= 0
            &&& datum_memory_type(ro, rw, un, find_export_data(exports, lists[u]@[i].full_name@))
                != lists[u]@[i].memory_data_type
            &&& e matches LinkErrorType::ImportDataTypeMismatch(m, mt) && m@
                == lists[u]@[i].full_name@ && mt == lists[u]@[i].memory_data_type
        }
    ||| exists|u: int, i: int, v: int, j: int|
        {
            &&& 0 <= u < lists.len() && 0 <= i < lists[u]@.len()
            &&& 0 <= v < lists.len() && 0 <= j < lists[v]@.len()
            &&& (#[trigger] lists[u]@[i]).full_name@ == (#[trigger] lists[v]@[j]).full_name@
            &&& find_export_data(exports, lists[u]@[i].full_name@) == -1
            &&& lists[u]@[i].data_section_type != lists[v]@[j].data_section_type
            &&& e matches LinkErrorType::ImportDataSectionInconsistant(m) && m@
                == lists[u]@[i].full_name@
        }
    ||| exists|u: int, i: int, v: int, j: int|
        {
            &&& 0 <= u < lists.len() && 0 <= i < lists[u]@.len()
            &&& 0 <= v < lists.len() && 0 <= j < lists[v]@.len()
            &&& (#[trigger] lists[u]@[i]).full_name@ == (#[trigger] lists[v]@[j]).full_name@
            &&& find_export_data(exports, lists[u]@[i].full_name@) == -1
            &&& lists[u]@[i].memory_data_type != lists[v]@[j].memory_data_type
            &&& e matches LinkErrorType::ImportDataTypeInconsistant(m) && m@
                == lists[u]@[i].full_name@
        }
}

/// How many imports of one section the units before `u` hold.
pub open spec fn section_count(
    lists: Seq<Vec<ImportDataEntry>>,
    sec: DataSectionType,
    u: int,
) -> int
    decreases u,
{
    if u <= 0 {
        0
    } else {
        section_count(lists, sec, u - 1) + section_imports(lists[u - 1]@, sec).len()
    }
}

proof fn lemma_section_count_total(lists: Seq<Vec<ImportDataEntry>>, u: int)
    requires
        0 <= u,
    ensures
        section_count(lists, DataSectionType::ReadOnly, u) + section_count(
            lists,
            DataSectionType::ReadWrite,
            u,
        ) + section_count(lists, DataSectionType::Uninit, u) == impdata_count_before(lists, u),
    decreases u,
{
    if u > 0 {
        lemma_section_count_total(lists, u - 1);
        lemma_section_partition(lists[u - 1]@);
    }
}

/// A recorded public-index value resolves its import: to the merged import
/// slot of its name, or past all imports to the export of its name.
pub open spec fn data_slot_value_ok(
    slot: usize,
    e: ImportDataEntry,
    exports: Seq<ExportDataEntry>,
    merged: Seq<ImportDataEntry>,
) -> bool {
    if find_export_data(exports, e.full_name@) >= 0 {
        slot as int == merged.len() + find_export_data(exports, e.full_name@)
    } else {
        &&& (slot as int) < merged.len()
        &&& merged[slot as int].full_name@ == e.full_name@
    }
}

/// A recorded public-index value lies inside the data public index space.
pub proof fn data_slot_bound(
    slot: usize,
    e: ImportDataEntry,
    exports: Seq<ExportDataEntry>,
    merged: Seq<ImportDataEntry>,
)
    requires
        data_slot_value_ok(slot, e, exports, merged),
    ensures
        (slot as int) < merged.len() + exports.len(),
{
    lemma_find_export_data(exports, e.full_name@);
}

/// The `m`-th slot of unit `u`'s data public remap resolves the `m`-th import
/// in the stratified order.
pub open spec fn pubmap_slot_ok(
    slot: usize,
    u: int,
    m: int,
    lists: Seq<Vec<ImportDataEntry>>,
    exports: Seq<ExportDataEntry>,
    merged: Seq<ImportDataEntry>,
) -> bool {
    let s = lists[u]@;
    let fro = section_imports(s, DataSectionType::ReadOnly);
    let frw = section_imports(s, DataSectionType::ReadWrite);
    let fun = section_imports(s, DataSectionType::Uninit);
    if m < fro.len() {
        data_slot_value_ok(slot, fro[m], exports, merged)
    } else if m < fro.len() + frw.len() {
        data_slot_value_ok(slot, frw[m - fro.len()], exports, merged)
    } else {
        data_slot_value_ok(slot, fun[m - fro.len() - frw.len()], exports, merged)
    }
}

/// The full names of a data-import table, position for position.
pub open spec fn data_names(s: Seq<ImportDataEntry>) -> Seq<Seq<char>> {
    Seq::new(s.len(), |k: int| s[k].full_name@)
}

/// The merged data-import names after one section pass over the first `i`
/// imports of each unit up to `u`, starting from `acc0`: an import of
/// another section is skipped, one that the export table defines is dropped,
/// any other name is kept at its first occurrence.
pub open spec fn impdata_name_fold_upto(
    acc0: Seq<Seq<char>>,
    lists: Seq<Vec<ImportDataEntry>>,
    exports: Seq<ExportDataEntry>,
    sec: DataSectionType,
    u: int,
    i: int,
) -> Seq<Seq<char>>
    decreases u, i,
    when i >= 0
{
    if u <= 0 && i <= 0 {
        acc0
    } else if i <= 0 {
        impdata_name_fold_upto(acc0, lists, exports, sec, u - 1, lists[u - 1]@.len() as int)
    } else {
        let e = lists[u]@[i - 1];
        let prev = impdata_name_fold_upto(acc0, lists, exports, sec, u, i - 1);
        if e.data_section_type != sec {
            prev
        } else if find_export_data(exports, e.full_name@) >= 0 {
            prev
        } else {
            module_name_fold_insert(prev, e.full_name@)
        }
    }
}

/// `merged` names, position for position, the section-pass fold prefix at
/// unit `u`, import `i`, starting from the names `before` the pass.
pub open spec fn impdata_pass_folded_at(
    merged: Seq<ImportDataEntry>,
    before: Seq<ImportDataEntry>,
    lists: Seq<Vec<ImportDataEntry>>,
    exports: Seq<ExportDataEntry>,
    sec: DataSectionType,
    u: int,
    i: int,
) -> bool {
    let f = impdata_name_fold_upto(data_names(before), lists, exports, sec, u, i);
    &&& merged.len() == f.len()
    &&& forall|k: int| 0 <= k < merged.len() ==> (#[trigger] merged[k]).full_name@ == f[k]
}

/// One full section pass appends exactly the fold of its section's names.
pub open spec fn impdata_pass_folded(
    merged: Seq<ImportDataEntry>,
    before: Seq<ImportDataEntry>,
    lists: Seq<Vec<ImportDataEntry>>,
    exports: Seq<ExportDataEntry>,
    sec: DataSectionType,
) -> bool {
    impdata_pass_folded_at(merged, before, lists, exports, sec, lists.len() as int, 0)
}

/// The merged data-import table holds, in order, the read-only, read-write
/// and uninitialized section folds: each section's unresolved import names
/// once each, units in order inside a section.
pub open spec fn impdata_names_folded(
    merged: Seq<ImportDataEntry>,
    lists: Seq<Vec<ImportDataEntry>>,
    exports: Seq<ExportDataEntry>,
) -> bool {
    let f_ro = impdata_name_fold_upto(
        Seq::empty(),
        lists,
        exports,
        DataSectionType::ReadOnly,
        lists.len() as int,
        0,
    );
    let f_rw = impdata_name_fold_upto(
        f_ro,
        lists,
        exports,
        DataSectionType::ReadWrite,
        lists.len() as int,
        0,
    );
    let f_un = impdata_name_fold_upto(
        f_rw,
        lists,
        exports,
        DataSectionType::Uninit,
        lists.len() as int,
        0,
    );
    &&& merged.len() == f_un.len()
    &&& forall|k: int| 0 <= k < merged.len() ==> (#[trigger] merged[k]).full_name@ == f_un[k]
}

/// One section pass of the import-data merge: walks every unit's imports of
/// `section` in order, resolving each against the export-data table, then
/// against the merged import table, appending it when it is new.
#[verifier::rlimit(100)]
#[verifier::spinoff_prover]
fn merge_import_data_section(
    merged: &mut Vec<ImportDataEntry>,
    section: DataSectionType,
    export_data_entries: &Vec<ExportDataEntry>,
    read_only_data_entries: &Vec<InitedDataEntry>,
    read_write_data_entries: &Vec<InitedDataEntry>,
    uninit_data_entries: &Vec<UninitDataEntry>,
    import_module_remap_indices_list: &Vec<Vec<usize>>,
    import_data_entries_list: &Vec<Vec<ImportDataEntry>>,
) -> (r: Result<Vec<Vec<ImportRemapItem>>, LinkerError>)
    requires
        export_data_entries@.len() == read_only_data_entries@.len()
            + read_write_data_entries@.len() + uninit_data_entries@.len(),
        import_module_remap_indices_list.len() == import_data_entries_list.len(),
        forall|u: int, i: int|
            0 <= u < import_data_entries_list.len() && 0 <= i
                < import_data_entries_list@[u]@.len() ==> (
            #[trigger] import_data_entries_list@[u]@[i]).import_module_index
                < import_module_remap_indices_list@[u]@.len(),
        forall|k: int, l: int|
            0 <= k < l < old(merged)@.len() ==> (#[trigger] old(merged)@[k]).full_name@ != (
            #[trigger] old(merged)@[l]).full_name@,
        forall|k: int|
            0 <= k < old(merged)@.len() ==> find_export_data(
                export_data_entries@,
                (#[trigger] old(merged)@[k]).full_name@,
            ) == -1,
        forall|k: int|
            0 <= k < old(merged)@.len() ==> import_data_from_lists(
                import_data_entries_list@,
                import_module_remap_indices_list@,
                #[trigger] old(merged)@[k],
            ),
    ensures
        final(merged)@.len() >= old(merged)@.len(),
        r is Ok ==> final(merged)@.len() <= old(merged)@.len() + section_count(
            import_data_entries_list@,
            section,
            import_data_entries_list.len() as int,
        ),
        forall|k: int| 0 <= k < old(merged)@.len() ==> #[trigger] final(merged)@[k] == old(merged)@[k],
        forall|k: int, l: int|
            0 <= k < l < final(merged)@.len() ==> (#[trigger] final(merged)@[k]).full_name@ != (
            #[trigger] final(merged)@[l]).full_name@,
        forall|k: int|
            0 <= k < final(merged)@.len() ==> find_export_data(
                export_data_entries@,
                (#[trigger] final(merged)@[k]).full_name@,
            ) == -1,
        forall|k: int|
            0 <= k < final(merged)@.len() ==> import_data_from_lists(
                import_data_entries_list@,
                import_module_remap_indices_list@,
                #[trigger] final(merged)@[k],
            ),
        import_data_lists_compatible(
            import_data_entries_list@,
            export_data_entries@,
            read_only_data_entries@,
            read_write_data_entries@,
            uninit_data_entries@,
        ) ==> r is Ok,
        r matches Err(le) ==> import_data_conflict_witness(
            le.error_type,
            import_data_entries_list@,
            export_data_entries@,
            read_only_data_entries@,
            read_write_data_entries@,
            uninit_data_entries@,
        ),
        r is Ok ==> impdata_pass_folded(
            final(merged)@,
            old(merged)@,
            import_data_entries_list@,
            export_data_entries@,
            section,
        ),
        r matches Ok(tables) ==> ({
            let lists = import_data_entries_list@;
            let exports = export_data_entries@;
            &&& tables.len() == lists.len()
            &&& forall|u: int|
                0 <= u < lists.len() ==> (#[trigger] tables@[u])@.len() == section_imports(
                    lists[u]@,
                    section,
                ).len()
            &&& forall|u: int, k: int|
                #![trigger tables@[u]@[k]]
                0 <= u < lists.len() && 0 <= k < section_imports(lists[u]@, section).len()
                    ==> data_remap_item_ok(
                    tables@[u]@[k],
                    section_imports(lists[u]@, section)[k],
                    exports,
                    read_only_data_entries@,
                    read_write_data_entries@,
                    uninit_data_entries@,
                    final(merged)@,
                )
        }),
{
    let ghost lists = import_data_entries_list@;
    let ghost exports = export_data_entries@;
    let ghost module_remaps = import_module_remap_indices_list@;
    let ghost merged_at_entry = old(merged)@;
    proof {
        assert(impdata_pass_folded_at(merged@, merged_at_entry, lists, exports, section, 0, 0));
    }
    let mut tables: Vec<Vec<ImportRemapItem>> = Vec::new();
    let mut u: usize = 0;
    while u < import_data_entries_list.len()
        invariant
            lists == import_data_entries_list@,
            exports == export_data_entries@,
            exports.len() == read_only_data_entries@.len() + read_write_data_entries@.len()
                + uninit_data_entries@.len(),
            module_remaps == import_module_remap_indices_list@,
            module_remaps.len() == lists.len(),
            forall|v: int, i: int|
                0 <= v < lists.len() && 0 <= i < lists[v]@.len() ==> (
                #[trigger] lists[v]@[i]).import_module_index < module_remaps[v]@.len(),
            u <= lists.len(),
            merged_at_entry == old(merged)@,
            merged@.len() >= merged_at_entry.len(),
            merged@.len() <= merged_at_entry.len() + section_count(lists, section, u as int),
            forall|k: int|
                0 <= k < merged_at_entry.len() ==> #[trigger] merged@[k] == merged_at_entry[k],
            forall|k: int, l: int|
                0 <= k < l < merged@.len() ==> (#[trigger] merged@[k]).full_name@ != (
                #[trigger] merged@[l]).full_name@,
            forall|k: int|
                0 <= k < merged@.len() ==> find_export_data(
                    exports,
                    (#[trigger] merged@[k]).full_name@,
                ) == -1,
            forall|k: int|
                0 <= k < merged@.len() ==> import_data_from_lists(
                    lists,
                    module_remaps,
                    #[trigger] merged@[k],
                ),
            tables.len() == u,
            forall|v: int|
                0 <= v < u ==> (#[trigger] tables@[v])@.len() == section_imports(
                    lists[v]@,
                    section,
                ).len(),
            forall|v: int, k: int|
                #![trigger tables@[v]@[k]]
                0 <= v < u && 0 <= k < section_imports(lists[v]@, section).len()
                    ==> data_remap_item_ok(
                    tables@[v]@[k],
                    section_imports(lists[v]@, section)[k],
                    exports,
                    read_only_data_entries@,
                    read_write_data_entries@,
                    uninit_data_entries@,
                    merged@,
                ),
            impdata_pass_folded_at(merged@, merged_at_entry, lists, exports, section, u as int, 0),
        decreases import_data_entries_list.len() - u,
    {
        let source = &import_data_entries_list[u];
        let mut table: Vec<ImportRemapItem> = Vec::new();
        let mut i: usize = 0;
        while i < source.len()
            invariant
                lists == import_data_entries_list@,
                exports == export_data_entries@,
                exports.len() == read_only_data_entries@.len() + read_write_data_entries@.len()
                    + uninit_data_entries@.len(),
                module_remaps == import_module_remap_indices_list@,
                module_remaps.len() == lists.len(),
                forall|v: int, k: int|
                    0 <= v < lists.len() && 0 <= k < lists[v]@.len() ==> (
                    #[trigger] lists[v]@[k]).import_module_index < module_remaps[v]@.len(),
                u < lists.len(),
                source == &import_data_entries_list[u as int],
                i <= source@.len(),
                merged_at_entry == old(merged)@,
                merged@.len() >= merged_at_entry.len(),
                merged@.len() <= merged_at_entry.len() + section_count(lists, section, u as int)
                    + table@.len(),
                forall|k: int|
                    0 <= k < merged_at_entry.len() ==> #[trigger] merged@[k] == merged_at_entry[k],
                forall|k: int, l: int|
                    0 <= k < l < merged@.len() ==> (#[trigger] merged@[k]).full_name@ != (
                    #[trigger] merged@[l]).full_name@,
                forall|k: int|
                    0 <= k < merged@.len() ==> find_export_data(
                        exports,
                        (#[trigger] merged@[k]).full_name@,
                    ) == -1,
                forall|k: int|
                    0 <= k < merged@.len() ==> import_data_from_lists(
                        lists,
                        module_remaps,
                        #[trigger] merged@[k],
                    ),
                tables.len() == u,
                forall|v: int|
                    0 <= v < u ==> (#[trigger] tables@[v])@.len() == section_imports(
                        lists[v]@,
                        section,
                    ).len(),
                forall|v: int, k: int|
                    #![trigger tables@[v]@[k]]
                    0 <= v < u && 0 <= k < section_imports(lists[v]@, section).len()
                        ==> data_remap_item_ok(
                        tables@[v]@[k],
                        section_imports(lists[v]@, section)[k],
                        exports,
                        read_only_data_entries@,
                        read_write_data_entries@,
                        uninit_data_entries@,
                        merged@,
                    ),
                table@.len() == section_imports(lists[u as int]@.take(i as int), section).len(),
                forall|k: int|
                    #![trigger table@[k]]
                    0 <= k < table@.len() ==> data_remap_item_ok(
                        table@[k],
                        section_imports(lists[u as int]@.take(i as int), section)[k],
                        exports,
                        read_only_data_entries@,
                        read_write_data_entries@,
                        uninit_data_entries@,
                        merged@,
                    ),
                impdata_pass_folded_at(
                    merged@,
                    merged_at_entry,
                    lists,
                    exports,
                    section,
                    u as int,
                    i as int,
                ),
            decreases source.len() - i,
        {
            let entry_source = &source[i];
            let ghost s_u = lists[u as int]@;
            let ghost facc = impdata_name_fold_upto(
                data_names(merged_at_entry),
                lists,
                exports,
                section,
                u as int,
                i as int,
            );
            proof {
                lemma_section_take_succ(s_u, section, i as int);
            }
            if entry_source.data_section_type == section {
                let ghost e = s_u[i as int];
                match find_export_datum(export_data_entries, &entry_source.full_name) {
                    Some(pos_internal) => {
                        // resolved to an internal datum: sections must agree
                        proof {
                            lemma_find_export_data(exports, e.full_name@);
                        }
                        let matches_section = export_data_entries[pos_internal].section_type
                            == entry_source.data_section_type;
                        if !matches_section {
                            let err = LinkerError::new(
                                LinkErrorType::ImportDataSectionMismatch(
                                    copy_string(&entry_source.full_name),
                                    entry_source.data_section_type,
                                ),
                            );
                            proof {
                                assert(import_data_conflict_witness(
                                    err.error_type,
                                    lists,
                                    exports,
                                    read_only_data_entries@,
                                    read_write_data_entries@,
                                    uninit_data_entries@,
                                ));
                            }
                            return Err(err);
                        }
                        // the import's memory type must agree with the datum
                        let export_total = export_data_entries.len();
                        let ro_len = read_only_data_entries.len();
                        let rw_len = read_write_data_entries.len();
                        proof {
                            assert(ro_len + rw_len <= export_total);
                            assert(pos_internal < export_total);
                        }
                        let resolved_type = if pos_internal < ro_len {
                            read_only_data_entries[pos_internal].memory_data_type
                        } else if pos_internal < ro_len + rw_len {
                            read_write_data_entries[pos_internal - ro_len].memory_data_type
                        } else {
                            uninit_data_entries[pos_internal - ro_len - rw_len].memory_data_type
                        };
                        if !(resolved_type == entry_source.memory_data_type) {
                            let err = LinkerError::new(
                                LinkErrorType::ImportDataTypeMismatch(
                                    copy_string(&entry_source.full_name),
                                    entry_source.memory_data_type,
                                ),
                            );
                            proof {
                                assert(import_data_conflict_witness(
                                    err.error_type,
                                    lists,
                                    exports,
                                    read_only_data_entries@,
                                    read_write_data_entries@,
                                    uninit_data_entries@,
                                ));
                            }
                            return Err(err);
                        }
                        proof {
                            assert(find_export_data(exports, e.full_name@) >= 0);
                            assert(impdata_name_fold_upto(
                                data_names(merged_at_entry),
                                lists,
                                exports,
                                section,
                                u as int,
                                i as int + 1,
                            ) == facc);
                        }
                        table.push(ImportRemapItem::Internal(pos_internal));
                    },
                    None => {
                        match find_import_data_by_name(merged, &entry_source.full_name) {
                            Some(pos_merged) => {
                                // an earlier import of this name: must agree
                                proof {
                                    assert(import_data_from_lists(
                                        lists,
                                        module_remaps,
                                        merged@[pos_merged as int],
                                    ));
                                }
                                let ghost (wu, wi) = choose|wu: int, wi: int|
                                    {
                                        &&& 0 <= wu < lists.len() && 0 <= wi < lists[wu]@.len()
                                        &&& merged@[pos_merged as int].full_name@
                                            == lists[wu]@[wi].full_name@
                                        &&& merged@[pos_merged as int].import_module_index
                                            == module_remaps[wu]@[lists[wu]@[wi].import_module_index as int]
                                        &&& merged@[pos_merged as int].data_section_type
                                            == lists[wu]@[wi].data_section_type
                                        &&& merged@[pos_merged as int].memory_data_type
                                            == lists[wu]@[wi].memory_data_type
                                    };
                                if !(entry_source.data_section_type
                                    == merged[pos_merged].data_section_type) {
                                    let err = LinkerError::new(
                                        LinkErrorType::ImportDataSectionInconsistant(
                                            copy_string(&entry_source.full_name),
                                        ),
                                    );
                                    proof {
                                        assert(import_data_conflict_witness(
                                            err.error_type,
                                            lists,
                                            exports,
                                            read_only_data_entries@,
                                            read_write_data_entries@,
                                            uninit_data_entries@,
                                        ));
                                    }
                                    return Err(err);
                                }
                                if !(entry_source.memory_data_type
                                    == merged[pos_merged].memory_data_type) {
                                    let err = LinkerError::new(
                                        LinkErrorType::ImportDataTypeInconsistant(
                                            copy_string(&entry_source.full_name),
                                        ),
                                    );
                                    proof {
                                        assert(import_data_conflict_witness(
                                            err.error_type,
                                            lists,
                                            exports,
                                            read_only_data_entries@,
                                            read_write_data_entries@,
                                            uninit_data_entries@,
                                        ));
                                    }
                                    return Err(err);
                                }
                                proof {
                                    assert(facc[pos_merged as int] == e.full_name@);
                                    assert(impdata_name_fold_upto(
                                        data_names(merged_at_entry),
                                        lists,
                                        exports,
                                        section,
                                        u as int,
                                        i as int + 1,
                                    ) == facc);
                                }
                                table.push(ImportRemapItem::Import(pos_merged));
                            },
                            None => {
                                let merged_import_module_index =
                                    import_module_remap_indices_list[u][entry_source.import_module_index];
                                let pos_new = merged.len();
                                proof {
                                    assert forall|k: int| 0 <= k < facc.len() implies (
                                    #[trigger] facc[k]) != e.full_name@ by {
                                        assert(merged@[k].full_name@ == facc[k]);
                                    }
                                    assert(impdata_name_fold_upto(
                                        data_names(merged_at_entry),
                                        lists,
                                        exports,
                                        section,
                                        u as int,
                                        i as int + 1,
                                    ) == facc.push(e.full_name@));
                                }
                                let entry_merged = ImportDataEntry {
                                    full_name: copy_string(&entry_source.full_name),
                                    import_module_index: merged_import_module_index,
                                    data_section_type: entry_source.data_section_type,
                                    memory_data_type: entry_source.memory_data_type,
                                };
                                merged.push(entry_merged);
                                proof {
                                    assert(merged@[pos_new as int].full_name@ == e.full_name@);
                                    assert(import_data_from_lists(
                                        lists,
                                        module_remaps,
                                        merged@[pos_new as int],
                                    ));
                                }
                                table.push(ImportRemapItem::Import(pos_new));
                            },
                        }
                    },
                }
            } else {
                proof {
                    assert(impdata_name_fold_upto(
                        data_names(merged_at_entry),
                        lists,
                        exports,
                        section,
                        u as int,
                        i as int + 1,
                    ) == facc);
                }
            }
            i += 1;
        }
        proof {
            assert(lists[u as int]@.take(source@.len() as int) =~= lists[u as int]@);
            assert(impdata_name_fold_upto(
                data_names(merged_at_entry),
                lists,
                exports,
                section,
                u as int + 1,
                0,
            ) == impdata_name_fold_upto(
                data_names(merged_at_entry),
                lists,
                exports,
                section,
                u as int,
                lists[u as int]@.len() as int,
            ));
        }
        tables.push(table);
        u += 1;
    }
    proof {
        assert(impdata_pass_folded_at(
            merged@,
            merged_at_entry,
            lists,
            exports,
            section,
            lists.len() as int,
            0,
        ));
    }
    Ok(tables)
}

/// How many import-data entries the units before `u` hold.
pub open spec fn impdata_count_before(lists: Seq<Vec<ImportDataEntry>>, u: int) -> int
    decreases u,
{
    if u <= 0 {
        0
    } else {
        impdata_count_before(lists, u - 1) + lists[u - 1]@.len()
    }
}

proof fn lemma_impdata_count_nonneg(lists: Seq<Vec<ImportDataEntry>>, v: int)
    requires
        0 <= v,
    ensures
        0 <= impdata_count_before(lists, v),
    decreases v,
{
    if v > 0 {
        lemma_impdata_count_nonneg(lists, v - 1);
    }
}

/// Merges the import-data tables of several units and builds each unit's data
/// public index remap.
///
/// The merge walks the three sections in their fixed order and, within each,
/// the units in order.  An import whose full name is in the merged
/// export-data table resolves to that internal datum, provided the sections
/// agree; other imports are deduplicated by full name and must agree on
/// section and memory type.  Each unit's remap lists its imports in the
/// stratified public order (read-only, read-write, uninitialized) and then
/// its internal data, whose merged internal indices are given by
/// `internal_data_remap_indices_list`.
#[verifier::rlimit(100)]
#[verifier::spinoff_prover]
/// The deduplicated import list holds an entry of `e`'s name that agrees with
/// `e` on section and memory type.
spec fn merged_carries_import(merged: Seq<ImportDataEntry>, e: ImportDataEntry) -> bool {
    exists|p: int|
        0 <= p < merged.len() && (#[trigger] merged[p]).full_name@ == e.full_name@
            && merged[p].data_section_type == e.data_section_type
            && merged[p].memory_data_type == e.memory_data_type
}

/// Two imports carried by one name-distinct list agree with each other.
proof fn lemma_carries_agree(merged: Seq<ImportDataEntry>, e1: ImportDataEntry, e2: ImportDataEntry)
    requires
        forall|k: int, l: int|
            0 <= k < l < merged.len() ==> (#[trigger] merged[k]).full_name@ != (
            #[trigger] merged[l]).full_name@,
        merged_carries_import(merged, e1),
        merged_carries_import(merged, e2),
        e1.full_name@ == e2.full_name@,
    ensures
        e1.data_section_type == e2.data_section_type,
        e1.memory_data_type == e2.memory_data_type,
{
    let p1 = choose|p: int|
        0 <= p < merged.len() && (#[trigger] merged[p]).full_name@ == e1.full_name@
            && merged[p].data_section_type == e1.data_section_type
            && merged[p].memory_data_type == e1.memory_data_type;
    let p2 = choose|p: int|
        0 <= p < merged.len() && (#[trigger] merged[p]).full_name@ == e2.full_name@
            && merged[p].data_section_type == e2.data_section_type
            && merged[p].memory_data_type == e2.memory_data_type;
    if p1 < p2 {
        assert(merged[p1].full_name@ != merged[p2].full_name@);
    }
    if p2 < p1 {
        assert(merged[p2].full_name@ != merged[p1].full_name@);
    }
}

/// What the recorded remap item of one import settles: an export-resolved
/// import agrees with its export's section and memory type, and an unresolved
/// one is carried by the deduplicated list.
proof fn lemma_import_entry_settled(
    lists: Seq<Vec<ImportDataEntry>>,
    exports: Seq<ExportDataEntry>,
    ro: Seq<InitedDataEntry>,
    rw: Seq<InitedDataEntry>,
    un: Seq<UninitDataEntry>,
    t_ro: Seq<Vec<ImportRemapItem>>,
    t_rw: Seq<Vec<ImportRemapItem>>,
    t_un: Seq<Vec<ImportRemapItem>>,
    merged: Seq<ImportDataEntry>,
    u: int,
    i: int,
)
    requires
        t_ro.len() == lists.len(),
        t_rw.len() == lists.len(),
        t_un.len() == lists.len(),
        forall|v: int|
            0 <= v < lists.len() ==> (#[trigger] t_ro[v])@.len() == section_imports(
                lists[v]@,
                DataSectionType::ReadOnly,
            ).len(),
        forall|v: int|
            0 <= v < lists.len() ==> (#[trigger] t_rw[v])@.len() == section_imports(
                lists[v]@,
                DataSectionType::ReadWrite,
            ).len(),
        forall|v: int|
            0 <= v < lists.len() ==> (#[trigger] t_un[v])@.len() == section_imports(
                lists[v]@,
                DataSectionType::Uninit,
            ).len(),
        forall|v: int, k: int|
            #![trigger t_ro[v]@[k]]
            0 <= v < lists.len() && 0 <= k < section_imports(
                lists[v]@,
                DataSectionType::ReadOnly,
            ).len() ==> data_remap_item_ok(
                t_ro[v]@[k],
                section_imports(lists[v]@, DataSectionType::ReadOnly)[k],
                exports,
                ro,
                rw,
                un,
                merged,
            ),
        forall|v: int, k: int|
            #![trigger t_rw[v]@[k]]
            0 <= v < lists.len() && 0 <= k < section_imports(
                lists[v]@,
                DataSectionType::ReadWrite,
            ).len() ==> data_remap_item_ok(
                t_rw[v]@[k],
                section_imports(lists[v]@, DataSectionType::ReadWrite)[k],
                exports,
                ro,
                rw,
                un,
                merged,
            ),
        forall|v: int, k: int|
            #![trigger t_un[v]@[k]]
            0 <= v < lists.len() && 0 <= k < section_imports(
                lists[v]@,
                DataSectionType::Uninit,
            ).len() ==> data_remap_item_ok(
                t_un[v]@[k],
                section_imports(lists[v]@, DataSectionType::Uninit)[k],
                exports,
                ro,
                rw,
                un,
                merged,
            ),
        0 <= u < lists.len(),
        0 <= i < lists[u]@.len(),
    ensures
        ({
            let e = lists[u]@[i];
            let f = find_export_data(exports, e.full_name@);
            if f >= 0 {
                &&& exports[f].section_type == e.data_section_type
                &&& datum_memory_type(ro, rw, un, f) == e.memory_data_type
            } else {
                merged_carries_import(merged, e)
            }
        }),
{
    let s = lists[u]@;
    let e = s[i];
    let sec = e.data_section_type;
    lemma_section_take_index(s, sec, i);
    let kk = section_imports(s.take(i), sec).len() as int;
    assert(section_imports(s, sec)[kk] == e);
    let item = if sec == DataSectionType::ReadOnly {
        t_ro[u]@[kk]
    } else if sec == DataSectionType::ReadWrite {
        t_rw[u]@[kk]
    } else {
        t_un[u]@[kk]
    };
    assert(data_remap_item_ok(item, e, exports, ro, rw, un, merged));
    if item is Import {
        let p = item->Import_0 as int;
        assert(0 <= p < merged.len() && merged[p].full_name@ == e.full_name@
            && merged[p].data_section_type == e.data_section_type && merged[p].memory_data_type
            == e.memory_data_type);
    }
}

pub fn merge_import_data_entries(
    export_data_entries: &Vec<ExportDataEntry>,
    read_only_data_entries: &Vec<InitedDataEntry>,
    read_write_data_entries: &Vec<InitedDataEntry>,
    uninit_data_entries: &Vec<UninitDataEntry>,
    internal_data_remap_indices_list: &Vec<Vec<usize>>,
    import_module_remap_indices_list: &Vec<Vec<usize>>,
    import_data_entries_list: &Vec<Vec<ImportDataEntry>>,
) -> (r: Result<(Vec<ImportDataEntry>, Vec<Vec<usize>>), LinkerError>)
    requires
        export_data_entries@.len() == read_only_data_entries@.len()
            + read_write_data_entries@.len() + uninit_data_entries@.len(),
        internal_data_remap_indices_list.len() == import_data_entries_list.len(),
        import_module_remap_indices_list.len() == import_data_entries_list.len(),
        forall|u: int, i: int|
            0 <= u < import_data_entries_list.len() && 0 <= i
                < import_data_entries_list@[u]@.len() ==> (
            #[trigger] import_data_entries_list@[u]@[i]).import_module_index
                < import_module_remap_indices_list@[u]@.len(),
        export_data_entries@.len() + impdata_count_before(
            import_data_entries_list@,
            import_data_entries_list.len() as int,
        ) <= usize::MAX,
        forall|u: int, j: int|
            0 <= u < internal_data_remap_indices_list.len() && 0 <= j
                < internal_data_remap_indices_list@[u]@.len() ==> (
            #[trigger] internal_data_remap_indices_list@[u]@[j]) + impdata_count_before(
                import_data_entries_list@,
                import_data_entries_list.len() as int,
            ) <= usize::MAX,
    ensures
        import_data_lists_compatible(
            import_data_entries_list@,
            export_data_entries@,
            read_only_data_entries@,
            read_write_data_entries@,
            uninit_data_entries@,
        ) ==> r is Ok,
        r is Ok ==> import_data_lists_compatible(
            import_data_entries_list@,
            export_data_entries@,
            read_only_data_entries@,
            read_write_data_entries@,
            uninit_data_entries@,
        ),
        r matches Err(le) ==> import_data_conflict_witness(
            le.error_type,
            import_data_entries_list@,
            export_data_entries@,
            read_only_data_entries@,
            read_write_data_entries@,
            uninit_data_entries@,
        ),
        r matches Ok(p) ==> ({
            let merged = p.0;
            let pubmaps = p.1;
            let lists = import_data_entries_list@;
            let exports = export_data_entries@;
            let internal_remaps = internal_data_remap_indices_list@;
            &&& merged@.len() <= impdata_count_before(lists, lists.len() as int)
            &&& forall|k: int, l: int|
                0 <= k < l < merged@.len() ==> (#[trigger] merged@[k]).full_name@ != (
                #[trigger] merged@[l]).full_name@
            &&& forall|k: int|
                0 <= k < merged@.len() ==> find_export_data(
                    exports,
                    (#[trigger] merged@[k]).full_name@,
                ) == -1
            &&& forall|k: int|
                0 <= k < merged@.len() ==> import_data_from_lists(
                    lists,
                    import_module_remap_indices_list@,
                    #[trigger] merged@[k],
                )
            // the merged table is the three section folds in order:
            // read-only, then read-write, then uninitialized
            &&& impdata_names_folded(merged@, lists, exports)
            &&& pubmaps.len() == lists.len()
            &&& forall|u: int|
                0 <= u < lists.len() ==> (#[trigger] pubmaps@[u])@.len() == lists[u]@.len()
                    + internal_remaps[u]@.len()
            // every slot of the import block resolves its stratified import
            &&& forall|u: int, m: int|
                #![trigger pubmaps@[u]@[m]]
                0 <= u < lists.len() && 0 <= m < lists[u]@.len() ==> pubmap_slot_ok(
                    pubmaps@[u]@[m],
                    u,
                    m,
                    lists,
                    exports,
                    merged@,
                )
            // each import's slot in the stratified public order
            &&& forall|u: int, i: int|
                0 <= u < lists.len() && 0 <= i < lists[u]@.len() ==> {
                    let e = #[trigger] lists[u]@[i];
                    let sp = stratified_position(lists[u]@, i);
                    &&& 0 <= sp < lists[u]@.len()
                    &&& if find_export_data(exports, e.full_name@) >= 0 {
                        pubmaps@[u]@[sp] as int == merged@.len() + find_export_data(
                            exports,
                            e.full_name@,
                        )
                    } else {
                        &&& (pubmaps@[u]@[sp] as int) < merged@.len()
                        &&& merged@[pubmaps@[u]@[sp] as int].full_name@ == e.full_name@
                    }
                }
            &&& forall|u: int, j: int|
                0 <= u < lists.len() && 0 <= j < internal_remaps[u]@.len()
                    ==> pubmaps@[u]@[lists[u]@.len() + j] as int == (
                #[trigger] internal_remaps[u]@[j]) + merged@.len()
        }),
{
    let ghost lists = import_data_entries_list@;
    let ghost exports = export_data_entries@;
    let ghost internal_remaps = internal_data_remap_indices_list@;
    let ghost total = impdata_count_before(lists, lists.len() as int);

    let mut merged: Vec<ImportDataEntry> = Vec::new();
    let tables_ro = match merge_import_data_section(
        &mut merged,
        DataSectionType::ReadOnly,
        export_data_entries,
        read_only_data_entries,
        read_write_data_entries,
        uninit_data_entries,
        import_module_remap_indices_list,
        import_data_entries_list,
    ) {
        Ok(t) => t,
        Err(e) => {
            return Err(e);
        },
    };
    let ghost merged_ro = merged@;
    let tables_rw = match merge_import_data_section(
        &mut merged,
        DataSectionType::ReadWrite,
        export_data_entries,
        read_only_data_entries,
        read_write_data_entries,
        uninit_data_entries,
        import_module_remap_indices_list,
        import_data_entries_list,
    ) {
        Ok(t) => t,
        Err(e) => {
            return Err(e);
        },
    };
    let ghost merged_rw = merged@;
    let tables_un = match merge_import_data_section(
        &mut merged,
        DataSectionType::Uninit,
        export_data_entries,
        read_only_data_entries,
        read_write_data_entries,
        uninit_data_entries,
        import_module_remap_indices_list,
        import_data_entries_list,
    ) {
        Ok(t) => t,
        Err(e) => {
            return Err(e);
        },
    };
    proof {
        // the three section folds compose to the final table
        assert(data_names(Seq::<ImportDataEntry>::empty()) =~= Seq::<Seq<char>>::empty());
        let f_ro = impdata_name_fold_upto(
            Seq::empty(),
            lists,
            exports,
            DataSectionType::ReadOnly,
            lists.len() as int,
            0,
        );
        assert(data_names(merged_ro) =~= f_ro);
        let f_rw = impdata_name_fold_upto(
            f_ro,
            lists,
            exports,
            DataSectionType::ReadWrite,
            lists.len() as int,
            0,
        );
        assert(data_names(merged_rw) =~= f_rw);
        assert(impdata_names_folded(merged@, lists, exports));
    }
    proof {
        // the earlier tables still describe the grown merged list
        assert forall|u: int, k: int|
            #![trigger tables_ro@[u]@[k]]
            0 <= u < lists.len() && 0 <= k < section_imports(
                lists[u]@,
                DataSectionType::ReadOnly,
            ).len() implies data_remap_item_ok(
            tables_ro@[u]@[k],
            section_imports(lists[u]@, DataSectionType::ReadOnly)[k],
            exports,
            read_only_data_entries@,
            read_write_data_entries@,
            uninit_data_entries@,
            merged@,
        ) by {
            assert(data_remap_item_ok(
                tables_ro@[u]@[k],
                section_imports(lists[u]@, DataSectionType::ReadOnly)[k],
                exports,
                read_only_data_entries@,
                read_write_data_entries@,
                uninit_data_entries@,
                merged_ro,
            ));
        }
        assert forall|u: int, k: int|
            #![trigger tables_rw@[u]@[k]]
            0 <= u < lists.len() && 0 <= k < section_imports(
                lists[u]@,
                DataSectionType::ReadWrite,
            ).len() implies data_remap_item_ok(
            tables_rw@[u]@[k],
            section_imports(lists[u]@, DataSectionType::ReadWrite)[k],
            exports,
            read_only_data_entries@,
            read_write_data_entries@,
            uninit_data_entries@,
            merged@,
        ) by {
            assert(data_remap_item_ok(
                tables_rw@[u]@[k],
                section_imports(lists[u]@, DataSectionType::ReadWrite)[k],
                exports,
                read_only_data_entries@,
                read_write_data_entries@,
                uninit_data_entries@,
                merged_rw,
            ));
        }
    }

    proof {
        // across the three passes, at most every import was appended
        lemma_section_count_total(lists, lists.len() as int);
    }

    // build the data public index remaps
    let import_data_count = merged.len();
    let mut pubmaps: Vec<Vec<usize>> = Vec::new();
    let mut u2: usize = 0;
    while u2 < import_data_entries_list.len()
        invariant
            lists == import_data_entries_list@,
            exports == export_data_entries@,
            internal_remaps == internal_data_remap_indices_list@,
            internal_remaps.len() == lists.len(),
            import_data_count == merged.len(),
            merged@.len() <= impdata_count_before(lists, lists.len() as int),
            exports.len() + impdata_count_before(lists, lists.len() as int) <= usize::MAX,
            forall|v: int, j: int|
                0 <= v < internal_remaps.len() && 0 <= j < internal_remaps[v]@.len() ==> (
                #[trigger] internal_remaps[v]@[j]) + impdata_count_before(
                    lists,
                    lists.len() as int,
                ) <= usize::MAX,
            tables_ro.len() == lists.len(),
            tables_rw.len() == lists.len(),
            tables_un.len() == lists.len(),
            forall|v: int|
                0 <= v < lists.len() ==> (#[trigger] tables_ro@[v])@.len() == section_imports(
                    lists[v]@,
                    DataSectionType::ReadOnly,
                ).len(),
            forall|v: int|
                0 <= v < lists.len() ==> (#[trigger] tables_rw@[v])@.len() == section_imports(
                    lists[v]@,
                    DataSectionType::ReadWrite,
                ).len(),
            forall|v: int|
                0 <= v < lists.len() ==> (#[trigger] tables_un@[v])@.len() == section_imports(
                    lists[v]@,
                    DataSectionType::Uninit,
                ).len(),
            forall|v: int, k: int|
                #![trigger tables_ro@[v]@[k]]
                0 <= v < lists.len() && 0 <= k < section_imports(
                    lists[v]@,
                    DataSectionType::ReadOnly,
                ).len() ==> data_remap_item_ok(
                    tables_ro@[v]@[k],
                    section_imports(lists[v]@, DataSectionType::ReadOnly)[k],
                    exports,
                    read_only_data_entries@,
                    read_write_data_entries@,
                    uninit_data_entries@,
                    merged@,
                ),
            forall|v: int, k: int|
                #![trigger tables_rw@[v]@[k]]
                0 <= v < lists.len() && 0 <= k < section_imports(
                    lists[v]@,
                    DataSectionType::ReadWrite,
                ).len() ==> data_remap_item_ok(
                    tables_rw@[v]@[k],
                    section_imports(lists[v]@, DataSectionType::ReadWrite)[k],
                    exports,
                    read_only_data_entries@,
                    read_write_data_entries@,
                    uninit_data_entries@,
                    merged@,
                ),
            forall|v: int, k: int|
                #![trigger tables_un@[v]@[k]]
                0 <= v < lists.len() && 0 <= k < section_imports(
                    lists[v]@,
                    DataSectionType::Uninit,
                ).len() ==> data_remap_item_ok(
                    tables_un@[v]@[k],
                    section_imports(lists[v]@, DataSectionType::Uninit)[k],
                    exports,
                    read_only_data_entries@,
                    read_write_data_entries@,
                    uninit_data_entries@,
                    merged@,
                ),
            u2 <= lists.len(),
            pubmaps.len() == u2,
            forall|v: int|
                0 <= v < u2 ==> (#[trigger] pubmaps@[v])@.len() == lists[v]@.len()
                    + internal_remaps[v]@.len(),
            forall|v: int, k: int|
                #![trigger pubmaps@[v]@[k]]
                0 <= v < u2 && 0 <= k < lists[v]@.len() ==> pubmap_slot_ok(
                    pubmaps@[v]@[k],
                    v,
                    k,
                    lists,
                    exports,
                    merged@,
                ),
            forall|v: int, j: int|
                0 <= v < u2 && 0 <= j < internal_remaps[v]@.len() ==> pubmaps@[v]@[lists[v]@.len()
                    + j] as int == (#[trigger] internal_remaps[v]@[j]) + merged@.len(),
        decreases import_data_entries_list.len() - u2,
    {
        proof {
            lemma_section_partition(lists[u2 as int]@);
        }
        let t_ro = &tables_ro[u2];
        let t_rw = &tables_rw[u2];
        let t_un = &tables_un[u2];
        let internal_indices = &internal_data_remap_indices_list[u2];
        let mut indices: Vec<usize> = Vec::new();
        let ghost s_u = lists[u2 as int]@;
        let ghost fro = section_imports(s_u, DataSectionType::ReadOnly);
        let ghost frw = section_imports(s_u, DataSectionType::ReadWrite);
        let ghost fun = section_imports(s_u, DataSectionType::Uninit);
        let mut k: usize = 0;
        while k < t_ro.len()
            invariant
                t_ro == &tables_ro[u2 as int],
                u2 < tables_ro.len(),
                lists == import_data_entries_list@,
                exports == export_data_entries@,
                s_u == lists[u2 as int]@,
                fro == section_imports(s_u, DataSectionType::ReadOnly),
                import_data_count == merged.len(),
                merged@.len() <= impdata_count_before(lists, lists.len() as int),
                exports.len() + impdata_count_before(lists, lists.len() as int) <= usize::MAX,
                t_ro@.len() == fro.len(),
                forall|m: int|
                    #![trigger t_ro@[m]]
                    0 <= m < fro.len() ==> data_remap_item_ok(
                        t_ro@[m],
                        fro[m],
                        exports,
                        read_only_data_entries@,
                        read_write_data_entries@,
                        uninit_data_entries@,
                        merged@,
                    ),
                k <= t_ro@.len(),
                indices.len() == k,
                forall|m: int|
                    #![trigger indices@[m]]
                    0 <= m < k ==> data_slot_value_ok(indices@[m], fro[m], exports, merged@),
            decreases t_ro.len() - k,
        {
            match t_ro[k] {
                ImportRemapItem::Import(idx) => {
                    indices.push(idx);
                },
                ImportRemapItem::Internal(idx) => {
                    indices.push(idx + import_data_count);
                },
            }
            k += 1;
        }
        let mut k2: usize = 0;
        while k2 < t_rw.len()
            invariant
                t_rw == &tables_rw[u2 as int],
                u2 < tables_rw.len(),
                lists == import_data_entries_list@,
                exports == export_data_entries@,
                s_u == lists[u2 as int]@,
                fro == section_imports(s_u, DataSectionType::ReadOnly),
                frw == section_imports(s_u, DataSectionType::ReadWrite),
                import_data_count == merged.len(),
                merged@.len() <= impdata_count_before(lists, lists.len() as int),
                exports.len() + impdata_count_before(lists, lists.len() as int) <= usize::MAX,
                t_rw@.len() == frw.len(),
                forall|m: int|
                    #![trigger t_rw@[m]]
                    0 <= m < frw.len() ==> data_remap_item_ok(
                        t_rw@[m],
                        frw[m],
                        exports,
                        read_only_data_entries@,
                        read_write_data_entries@,
                        uninit_data_entries@,
                        merged@,
                    ),
                k2 <= t_rw@.len(),
                indices.len() == fro.len() + k2,
                forall|m: int|
                    #![trigger indices@[m]]
                    0 <= m < fro.len() ==> data_slot_value_ok(indices@[m], fro[m], exports, merged@),
                forall|m: int|
                    0 <= m < k2 ==> data_slot_value_ok(
                        #[trigger] indices@[fro.len() + m],
                        frw[m],
                        exports,
                        merged@,
                    ),
            decreases t_rw.len() - k2,
        {
            match t_rw[k2] {
                ImportRemapItem::Import(idx) => {
                    indices.push(idx);
                },
                ImportRemapItem::Internal(idx) => {
                    indices.push(idx + import_data_count);
                },
            }
            k2 += 1;
        }
        let mut k3: usize = 0;
        while k3 < t_un.len()
            invariant
                t_un == &tables_un[u2 as int],
                u2 < tables_un.len(),
                lists == import_data_entries_list@,
                exports == export_data_entries@,
                s_u == lists[u2 as int]@,
                fro == section_imports(s_u, DataSectionType::ReadOnly),
                frw == section_imports(s_u, DataSectionType::ReadWrite),
                fun == section_imports(s_u, DataSectionType::Uninit),
                import_data_count == merged.len(),
                merged@.len() <= impdata_count_before(lists, lists.len() as int),
                exports.len() + impdata_count_before(lists, lists.len() as int) <= usize::MAX,
                t_un@.len() == fun.len(),
                forall|m: int|
                    #![trigger t_un@[m]]
                    0 <= m < fun.len() ==> data_remap_item_ok(
                        t_un@[m],
                        fun[m],
                        exports,
                        read_only_data_entries@,
                        read_write_data_entries@,
                        uninit_data_entries@,
                        merged@,
                    ),
                k3 <= t_un@.len(),
                indices.len() == fro.len() + frw.len() + k3,
                forall|m: int|
                    #![trigger indices@[m]]
                    0 <= m < fro.len() ==> data_slot_value_ok(indices@[m], fro[m], exports, merged@),
                forall|m: int|
                    0 <= m < frw.len() ==> data_slot_value_ok(
                        #[trigger] indices@[fro.len() + m],
                        frw[m],
                        exports,
                        merged@,
                    ),
                forall|m: int|
                    0 <= m < k3 ==> data_slot_value_ok(
                        #[trigger] indices@[fro.len() + frw.len() + m],
                        fun[m],
                        exports,
                        merged@,
                    ),
            decreases t_un.len() - k3,
        {
            match t_un[k3] {
                ImportRemapItem::Import(idx) => {
                    indices.push(idx);
                },
                ImportRemapItem::Internal(idx) => {
                    indices.push(idx + import_data_count);
                },
            }
            k3 += 1;
        }
        let mut j: usize = 0;
        while j < internal_indices.len()
            invariant
                lists == import_data_entries_list@,
                exports == export_data_entries@,
                internal_remaps == internal_data_remap_indices_list@,
                internal_remaps.len() == lists.len(),
                u2 < lists.len(),
                internal_indices == &internal_data_remap_indices_list[u2 as int],
                s_u == lists[u2 as int]@,
                fro == section_imports(s_u, DataSectionType::ReadOnly),
                frw == section_imports(s_u, DataSectionType::ReadWrite),
                fun == section_imports(s_u, DataSectionType::Uninit),
                fro.len() + frw.len() + fun.len() == s_u.len(),
                import_data_count == merged.len(),
                merged@.len() <= impdata_count_before(lists, lists.len() as int),
                forall|v: int, m: int|
                    0 <= v < internal_remaps.len() && 0 <= m < internal_remaps[v]@.len() ==> (
                    #[trigger] internal_remaps[v]@[m]) + impdata_count_before(
                        lists,
                        lists.len() as int,
                    ) <= usize::MAX,
                j <= internal_indices@.len(),
                indices.len() == s_u.len() + j,
                forall|m: int|
                    #![trigger indices@[m]]
                    0 <= m < fro.len() ==> data_slot_value_ok(indices@[m], fro[m], exports, merged@),
                forall|m: int|
                    0 <= m < frw.len() ==> data_slot_value_ok(
                        #[trigger] indices@[fro.len() + m],
                        frw[m],
                        exports,
                        merged@,
                    ),
                forall|m: int|
                    0 <= m < fun.len() ==> data_slot_value_ok(
                        #[trigger] indices@[fro.len() + frw.len() + m],
                        fun[m],
                        exports,
                        merged@,
                    ),
                forall|m: int|
                    0 <= m < j ==> (#[trigger] indices@[s_u.len() + m]) as int
                        == internal_remaps[u2 as int]@[m] + merged@.len(),
            decreases internal_indices.len() - j,
        {
            indices.push(internal_indices[j] + import_data_count);
            j += 1;
        }
        pubmaps.push(indices);
        proof {
            // the recorded slots satisfy the public-order contract
            assert forall|m: int|
                #![trigger pubmaps@[u2 as int]@[m]]
                0 <= m < s_u.len() implies pubmap_slot_ok(
                pubmaps@[u2 as int]@[m],
                u2 as int,
                m,
                lists,
                exports,
                merged@,
            ) by {
                if m < fro.len() {
                } else if m < fro.len() + frw.len() {
                    assert(data_slot_value_ok(
                        pubmaps@[u2 as int]@[fro.len() + (m - fro.len())],
                        frw[m - fro.len()],
                        exports,
                        merged@,
                    ));
                } else {
                    assert(data_slot_value_ok(
                        pubmaps@[u2 as int]@[fro.len() + frw.len() + (m - fro.len() - frw.len())],
                        fun[m - fro.len() - frw.len()],
                        exports,
                        merged@,
                    ));
                }
            }
        }
        u2 += 1;
    }
    proof {
        // translate the per-slot facts to each import's stratified position
        assert forall|u: int, i: int|
            0 <= u < lists.len() && 0 <= i < lists[u]@.len() implies {
            let e = #[trigger] lists[u]@[i];
            let sp = stratified_position(lists[u]@, i);
            &&& 0 <= sp < lists[u]@.len()
            &&& if find_export_data(exports, e.full_name@) >= 0 {
                pubmaps@[u]@[sp] as int == merged@.len() + find_export_data(exports, e.full_name@)
            } else {
                &&& (pubmaps@[u]@[sp] as int) < merged@.len()
                &&& merged@[pubmaps@[u]@[sp] as int].full_name@ == e.full_name@
            }
        } by {
            let s = lists[u]@;
            let e = s[i];
            lemma_section_partition(s);
            let sec = e.data_section_type;
            lemma_section_take_index(s, sec, i);
            let kk = section_imports(s.take(i), sec).len() as int;
            let sp = stratified_position(s, i);
            if sec == DataSectionType::ReadOnly {
                assert(section_imports(s, sec)[kk] == e);
                assert(pubmap_slot_ok(pubmaps@[u]@[sp], u, sp, lists, exports, merged@));
            } else if sec == DataSectionType::ReadWrite {
                assert(section_imports(s, sec)[kk] == e);
                assert(pubmap_slot_ok(pubmaps@[u]@[sp], u, sp, lists, exports, merged@));
            } else {
                assert(sec == DataSectionType::Uninit);
                assert(section_imports(s, sec)[kk] == e);
                assert(pubmap_slot_ok(pubmaps@[u]@[sp], u, sp, lists, exports, merged@));
            }
        }
    }
    proof {
        // the recorded items exclude every section or memory-type conflict
        assert forall|u: int, i: int|
            0 <= u < lists.len() && 0 <= i < lists[u]@.len() implies {
            let e = #[trigger] lists[u]@[i];
            find_export_data(exports, e.full_name@) >= 0 ==> {
                &&& exports[find_export_data(exports, e.full_name@)].section_type
                    == e.data_section_type
                &&& datum_memory_type(
                    read_only_data_entries@,
                    read_write_data_entries@,
                    uninit_data_entries@,
                    find_export_data(exports, e.full_name@),
                ) == e.memory_data_type
            }
        } by {
            lemma_import_entry_settled(
                lists,
                exports,
                read_only_data_entries@,
                read_write_data_entries@,
                uninit_data_entries@,
                tables_ro@,
                tables_rw@,
                tables_un@,
                merged@,
                u,
                i,
            );
        }
        assert forall|u: int, i: int, v: int, j: int|
            0 <= u < lists.len() && 0 <= i < lists[u]@.len() && 0 <= v < lists.len() && 0 <= j
                < lists[v]@.len() && (#[trigger] lists[u]@[i]).full_name@ == (
            #[trigger] lists[v]@[j]).full_name@ && find_export_data(
                exports,
                lists[u]@[i].full_name@,
            ) == -1 implies {
            &&& lists[u]@[i].data_section_type == lists[v]@[j].data_section_type
            &&& lists[u]@[i].memory_data_type == lists[v]@[j].memory_data_type
        } by {
            lemma_import_entry_settled(
                lists,
                exports,
                read_only_data_entries@,
                read_write_data_entries@,
                uninit_data_entries@,
                tables_ro@,
                tables_rw@,
                tables_un@,
                merged@,
                u,
                i,
            );
            lemma_import_entry_settled(
                lists,
                exports,
                read_only_data_entries@,
                read_write_data_entries@,
                uninit_data_entries@,
                tables_ro@,
                tables_rw@,
                tables_un@,
                merged@,
                v,
                j,
            );
            lemma_carries_agree(merged@, lists[u]@[i], lists[v]@[j]);
        }
        assert(import_data_lists_compatible(
            lists,
            exports,
            read_only_data_entries@,
            read_write_data_entries@,
            uninit_data_entries@,
        ));
    }
    Ok((merged, pubmaps))
}

// ---------------------------------------------------------------------------
// external-function entries
// ---------------------------------------------------------------------------

/// No two entries share both a name and a library index.
pub open spec fn external_functions_distinct(s: Seq<ExternalFunctionEntry>) -> bool {
    forall|k: int, l: int|
        0 <= k < l < s.len() ==> !((#[trigger] s[k]).name@ == (#[trigger] s[l]).name@
            && s[k].external_library_index == s[l].external_library_index)
}

/// Some declaration of some unit matches this unified entry: same name, its
/// library index translated through the library remap, and, for the first
/// occurrence, its type index translated through the type remap.
pub open spec fn external_fn_from_lists(
    lists: Seq<Vec<ExternalFunctionEntry>>,
    lib_remaps: Seq<Vec<usize>>,
    type_remaps: Seq<Vec<usize>>,
    e: ExternalFunctionEntry,
) -> bool {
    exists|u: int, i: int|
        {
            &&& 0 <= u < lists.len() && 0 <= i < lists[u]@.len()
            &&& e.name@ == (#[trigger] lists[u]@[i]).name@
            &&& e.external_library_index == lib_remaps[u]@[lists[u]@[i].external_library_index as int]
            &&& e.type_index == type_remaps[u]@[lists[u]@[i].type_index as int]
        }
}

/// How many external-function entries the units before `u` hold.
pub open spec fn extfn_count_before(lists: Seq<Vec<ExternalFunctionEntry>>, u: int) -> int
    decreases u,
{
    if u <= 0 {
        0
    } else {
        extfn_count_before(lists, u - 1) + lists[u - 1]@.len()
    }
}

/// Finds the first entry with this name and library index.
pub(crate) fn find_external_function(
    entries: &Vec<ExternalFunctionEntry>,
    name: &String,
    external_library_index: usize,
) -> (r: Option<usize>)
    ensures
        match r {
            Some(p) => {
                &&& p < entries.len()
                &&& entries@[p as int].name@ == name@
                &&& entries@[p as int].external_library_index == external_library_index
            },
            None => forall|k: int|
                0 <= k < entries@.len() ==> !((#[trigger] entries@[k]).name@ == name@
                    && entries@[k].external_library_index == external_library_index),
        },
{
    let mut i: usize = 0;
    while i < entries.len()
        invariant
            i <= entries.len(),
            forall|k: int|
                0 <= k < i ==> !((#[trigger] entries@[k]).name@ == name@
                    && entries@[k].external_library_index == external_library_index),
        decreases entries.len() - i,
    {
        if entries[i].external_library_index == external_library_index && string_matches(
            &entries[i].name,
            name,
        ) {
            return Some(i);
        }
        i += 1;
    }
    None
}

/// A recorded index points at the unified entry of this declaration's
/// identity.
pub open spec fn extfn_slot_ok(
    slot: usize,
    e: ExternalFunctionEntry,
    lib_remap: Vec<usize>,
    merged: Seq<ExternalFunctionEntry>,
) -> bool {
    &&& (slot as int) < merged.len()
    &&& merged[slot as int].name@ == e.name@
    &&& merged[slot as int].external_library_index == lib_remap@[e.external_library_index as int]
}

/// One step of the first-occurrence fold by (name, merged library): keep the
/// table if the identity already stands, append the translated declaration
/// otherwise.  The first occurrence fixes the entry's type.
pub open spec fn xfn_fold_insert(
    acc: Seq<(Seq<char>, usize, usize)>,
    name: Seq<char>,
    lib: usize,
    ty: usize,
) -> Seq<(Seq<char>, usize, usize)> {
    if exists|k: int| 0 <= k < acc.len() && (#[trigger] acc[k]).0 == name && acc[k].1 == lib {
        acc
    } else {
        acc.push((name, lib, ty))
    }
}

/// The unified table after the first `i` declarations of each unit up to
/// `u`, as (name, merged library index, merged type index) triples, folded in
/// unit-major, declaration-minor order.
pub open spec fn xfn_fold_upto(
    lists: Seq<Vec<ExternalFunctionEntry>>,
    lib_remaps: Seq<Vec<usize>>,
    type_remaps: Seq<Vec<usize>>,
    u: int,
    i: int,
) -> Seq<(Seq<char>, usize, usize)>
    decreases u, i,
    when i >= 0
{
    if u <= 0 && i <= 0 {
        Seq::empty()
    } else if i <= 0 {
        xfn_fold_upto(lists, lib_remaps, type_remaps, u - 1, lists[u - 1]@.len() as int)
    } else {
        let e = lists[u]@[i - 1];
        xfn_fold_insert(
            xfn_fold_upto(lists, lib_remaps, type_remaps, u, i - 1),
            e.name@,
            lib_remaps[u]@[e.external_library_index as int],
            type_remaps[u]@[e.type_index as int],
        )
    }
}

/// `merged` is, entry for entry, the fold prefix at unit `u`, entry `i`.
pub open spec fn xfn_table_folded_at(
    merged: Seq<ExternalFunctionEntry>,
    lists: Seq<Vec<ExternalFunctionEntry>>,
    lib_remaps: Seq<Vec<usize>>,
    type_remaps: Seq<Vec<usize>>,
    u: int,
    i: int,
) -> bool {
    let f = xfn_fold_upto(lists, lib_remaps, type_remaps, u, i);
    &&& merged.len() == f.len()
    &&& forall|k: int|
        0 <= k < merged.len() ==> {
            &&& (#[trigger] merged[k]).name@ == f[k].0
            &&& merged[k].external_library_index == f[k].1
            &&& merged[k].type_index == f[k].2
        }
}

/// The unified table is exactly the first-occurrence fold of the translated
/// declarations: identities in first-occurrence order, each carrying the
/// first declaring unit's type.
pub open spec fn xfn_table_folded(
    merged: Seq<ExternalFunctionEntry>,
    lists: Seq<Vec<ExternalFunctionEntry>>,
    lib_remaps: Seq<Vec<usize>>,
    type_remaps: Seq<Vec<usize>>,
) -> bool {
    xfn_table_folded_at(merged, lists, lib_remaps, type_remaps, lists.len() as int, 0)
}

/// Merges the external-function tables of several units.
///
/// Two declarations are the same function exactly when they agree on the name
/// and on the merged library; the first occurrence fixes the entry's type.
pub fn merge_external_function_entries(
    external_library_remap_indices_list: &Vec<Vec<usize>>,
    type_remap_indices_list: &Vec<Vec<usize>>,
    external_function_entries_list: &Vec<Vec<ExternalFunctionEntry>>,
) -> (r: (Vec<ExternalFunctionEntry>, Vec<Vec<usize>>))
    requires
        external_library_remap_indices_list.len() == external_function_entries_list.len(),
        type_remap_indices_list.len() == external_function_entries_list.len(),
        forall|u: int, i: int|
            0 <= u < external_function_entries_list.len() && 0 <= i
                < external_function_entries_list@[u]@.len() ==> {
                &&& (#[trigger] external_function_entries_list@[u]@[i]).external_library_index
                    < external_library_remap_indices_list@[u]@.len()
                &&& external_function_entries_list@[u]@[i].type_index
                    < type_remap_indices_list@[u]@.len()
            },
    ensures
        ({
            let merged = r.0;
            let remaps = r.1;
            let lists = external_function_entries_list@;
            let lib_remaps = external_library_remap_indices_list@;
            let type_remaps = type_remap_indices_list@;
            &&& merged@.len() <= extfn_count_before(lists, lists.len() as int)
            // the unified table bears no (name, library) duplicates
            &&& external_functions_distinct(merged@)
            // nothing is invented, and indices are translated
            &&& forall|k: int|
                0 <= k < merged@.len() ==> external_fn_from_lists(
                    lists,
                    lib_remaps,
                    type_remaps,
                    #[trigger] merged@[k],
                )
            // every declaration maps to the unified entry of its identity
            &&& remaps.len() == lists.len()
            &&& forall|u: int|
                0 <= u < lists.len() ==> (#[trigger] remaps@[u])@.len() == lists[u]@.len()
            &&& forall|u: int, i: int|
                0 <= u < lists.len() && 0 <= i < lists[u]@.len() ==> extfn_slot_ok(
                    remaps@[u]@[i],
                    #[trigger] lists[u]@[i],
                    lib_remaps[u],
                    merged@,
                )
            // the unified table is the first-occurrence fold of the
            // translated declarations
            &&& xfn_table_folded(merged@, lists, lib_remaps, type_remaps)
        }),
{
    let ghost lists = external_function_entries_list@;
    let ghost lib_remaps = external_library_remap_indices_list@;
    let ghost type_remaps = type_remap_indices_list@;
    let mut merged: Vec<ExternalFunctionEntry> = Vec::new();
    let mut remaps: Vec<Vec<usize>> = Vec::new();
    let mut u: usize = 0;
    while u < external_function_entries_list.len()
        invariant
            lists == external_function_entries_list@,
            lib_remaps == external_library_remap_indices_list@,
            type_remaps == type_remap_indices_list@,
            lib_remaps.len() == lists.len(),
            type_remaps.len() == lists.len(),
            forall|v: int, i: int|
                0 <= v < lists.len() && 0 <= i < lists[v]@.len() ==> {
                    &&& (#[trigger] lists[v]@[i]).external_library_index < lib_remaps[v]@.len()
                    &&& lists[v]@[i].type_index < type_remaps[v]@.len()
                },
            u <= lists.len(),
            merged@.len() <= extfn_count_before(lists, u as int),
            forall|v: int|
                0 <= v < u ==> #[trigger] extfn_count_before(lists, v) <= extfn_count_before(
                    lists,
                    u as int,
                ),
            external_functions_distinct(merged@),
            forall|k: int|
                0 <= k < merged@.len() ==> external_fn_from_lists(
                    lists,
                    lib_remaps,
                    type_remaps,
                    #[trigger] merged@[k],
                ),
            remaps.len() == u,
            forall|v: int| 0 <= v < u ==> (#[trigger] remaps@[v])@.len() == lists[v]@.len(),
            forall|v: int, i: int|
                0 <= v < u && 0 <= i < lists[v]@.len() ==> extfn_slot_ok(
                    remaps@[v]@[i],
                    #[trigger] lists[v]@[i],
                    lib_remaps[v],
                    merged@,
                ),
            xfn_table_folded_at(merged@, lists, lib_remaps, type_remaps, u as int, 0),
        decreases external_function_entries_list.len() - u,
    {
        let source = &external_function_entries_list[u];
        let mut indices: Vec<usize> = Vec::new();
        let mut i: usize = 0;
        while i < source.len()
            invariant
                lists == external_function_entries_list@,
                lib_remaps == external_library_remap_indices_list@,
                type_remaps == type_remap_indices_list@,
                lib_remaps.len() == lists.len(),
                type_remaps.len() == lists.len(),
                forall|v: int, k: int|
                    0 <= v < lists.len() && 0 <= k < lists[v]@.len() ==> {
                        &&& (#[trigger] lists[v]@[k]).external_library_index < lib_remaps[v]@.len()
                        &&& lists[v]@[k].type_index < type_remaps[v]@.len()
                    },
                u < lists.len(),
                source == &external_function_entries_list[u as int],
                i <= source@.len(),
                merged@.len() <= extfn_count_before(lists, u as int) + i,
                external_functions_distinct(merged@),
                forall|k: int|
                    0 <= k < merged@.len() ==> external_fn_from_lists(
                        lists,
                        lib_remaps,
                        type_remaps,
                        #[trigger] merged@[k],
                    ),
                remaps.len() == u,
                forall|v: int| 0 <= v < u ==> (#[trigger] remaps@[v])@.len() == lists[v]@.len(),
                forall|v: int, k: int|
                    0 <= v < u && 0 <= k < lists[v]@.len() ==> extfn_slot_ok(
                        remaps@[v]@[k],
                        #[trigger] lists[v]@[k],
                        lib_remaps[v],
                        merged@,
                    ),
                indices.len() == i,
                forall|k: int|
                    0 <= k < i ==> extfn_slot_ok(
                        indices@[k],
                        #[trigger] lists[u as int]@[k],
                        lib_remaps[u as int],
                        merged@,
                    ),
                xfn_table_folded_at(merged@, lists, lib_remaps, type_remaps, u as int, i as int),
            decreases source.len() - i,
        {
            let entry_source = &source[i];
            let merged_library_index =
                external_library_remap_indices_list[u][entry_source.external_library_index];
            let ghost acc = xfn_fold_upto(lists, lib_remaps, type_remaps, u as int, i as int);
            let ghost name_i = lists[u as int]@[i as int].name@;
            let ghost lib_i = lib_remaps[u as int]@[lists[u as int]@[i as int].external_library_index as int];
            match find_external_function(&merged, &entry_source.name, merged_library_index) {
                Some(pos) => {
                    proof {
                        assert(acc[pos as int].0 == name_i && acc[pos as int].1 == lib_i);
                        assert(xfn_fold_upto(lists, lib_remaps, type_remaps, u as int, i as int + 1)
                            == acc);
                    }
                    indices.push(pos);
                },
                None => {
                    let merged_type_index = type_remap_indices_list[u][entry_source.type_index];
                    let pos = merged.len();
                    proof {
                        assert forall|k: int| 0 <= k < acc.len() implies !((#[trigger] acc[k]).0
                            == name_i && acc[k].1 == lib_i) by {
                            assert(merged@[k].name@ == acc[k].0);
                            assert(merged@[k].external_library_index == acc[k].1);
                        }
                        assert(xfn_fold_upto(lists, lib_remaps, type_remaps, u as int, i as int + 1)
                            == acc.push(
                            (
                                name_i,
                                lib_i,
                                type_remaps[u as int]@[lists[u as int]@[i as int].type_index as int],
                            ),
                        ));
                    }
                    merged.push(
                        ExternalFunctionEntry {
                            name: copy_string(&entry_source.name),
                            external_library_index: merged_library_index,
                            type_index: merged_type_index,
                        },
                    );
                    proof {
                        assert(merged@[pos as int].name@ == lists[u as int]@[i as int].name@);
                        assert(external_fn_from_lists(
                            lists,
                            lib_remaps,
                            type_remaps,
                            merged@[pos as int],
                        ));
                    }
                    indices.push(pos);
                },
            }
            i += 1;
        }
        proof {
            assert(xfn_fold_upto(lists, lib_remaps, type_remaps, u as int + 1, 0) == xfn_fold_upto(
                lists,
                lib_remaps,
                type_remaps,
                u as int,
                lists[u as int]@.len() as int,
            ));
        }
        remaps.push(indices);
        u += 1;
    }
    proof {
        assert(xfn_table_folded_at(
            merged@,
            lists,
            lib_remaps,
            type_remaps,
            lists.len() as int,
            0,
        ));
    }
    (merged, remaps)
}

// ---------------------------------------------------------------------------
// function entries and relocation
// ---------------------------------------------------------------------------

/// The remap vectors of one source unit: old index to merged index, one
/// vector per category of relocated value.
#[derive(Debug, Clone, PartialEq)]
pub struct RemapTable {
    pub type_remap_indices: Vec<usize>,
    pub data_public_remap_indices: Vec<usize>,
    pub function_public_remap_indices: Vec<usize>,
    pub local_variable_list_remap_indices: Vec<usize>,
    pub external_function_remap_indices: Vec<usize>,
}

/// The little-endian unsigned value of the 4-byte slot at `off`.
pub open spec fn le32(s: Seq<u8>, off: int) -> int {
    s[off] + 256 * (s[off + 1] + 256 * (s[off + 2] + 256 * s[off + 3]))
}

/// Byte `p` lies inside the 4-byte slot of `e`.
pub open spec fn in_slot(e: RelocateEntry, p: int) -> bool {
    e.code_offset <= p < e.code_offset + 4
}

/// Byte `p` lies inside some slot of the relocation list.
pub open spec fn in_any_slot(rl: Seq<RelocateEntry>, p: int) -> bool {
    exists|k: int| 0 <= k < rl.len() && in_slot(#[trigger] rl[k], p)
}

/// The length of the remap vector a relocated value of this kind indexes.
pub open spec fn remap_len(rt: RemapTable, kind: RelocateType) -> int {
    match kind {
        RelocateType::TypeIndex => rt.type_remap_indices@.len() as int,
        RelocateType::LocalVariableListIndex => rt.local_variable_list_remap_indices@.len() as int,
        RelocateType::FunctionPublicIndex => rt.function_public_remap_indices@.len() as int,
        RelocateType::ExternalFunctionIndex => rt.external_function_remap_indices@.len() as int,
        RelocateType::DataPublicIndex => rt.data_public_remap_indices@.len() as int,
    }
}

/// The merged index a relocated value of this kind maps to.
pub open spec fn remap_lookup(rt: RemapTable, kind: RelocateType, v: int) -> int {
    match kind {
        RelocateType::TypeIndex => rt.type_remap_indices@[v] as int,
        RelocateType::LocalVariableListIndex => rt.local_variable_list_remap_indices@[v] as int,
        RelocateType::FunctionPublicIndex => rt.function_public_remap_indices@[v] as int,
        RelocateType::ExternalFunctionIndex => rt.external_function_remap_indices@[v] as int,
        RelocateType::DataPublicIndex => rt.data_public_remap_indices@[v] as int,
    }
}

/// The relocation list fits the code: every slot lies inside it, no two
/// slots overlap, and every slot value indexes its remap vector.
pub open spec fn relocations_fit(code: Seq<u8>, rl: Seq<RelocateEntry>, rt: RemapTable) -> bool {
    &&& forall|k: int|
        0 <= k < rl.len() ==> (#[trigger] rl[k]).code_offset + 4 <= code.len()
    &&& forall|k: int, l: int|
        0 <= k < rl.len() && 0 <= l < rl.len() && k != l ==> ((#[trigger] rl[k]).code_offset + 4
            <= (#[trigger] rl[l]).code_offset || rl[l].code_offset + 4 <= rl[k].code_offset)
    &&& forall|k: int|
        0 <= k < rl.len() ==> le32(code, (#[trigger] rl[k]).code_offset as int) < remap_len(
            rt,
            rl[k].relocate_type,
        )
    // the merged index fits the 4-byte slot
    &&& forall|k: int|
        0 <= k < rl.len() ==> remap_lookup(
            rt,
            (#[trigger] rl[k]).relocate_type,
            le32(code, rl[k].code_offset as int),
        ) < 0x1_0000_0000
}

/// The rewritten code: as long as the original, unchanged outside the slots,
/// and each slot holds the remapped value of what it held before.
pub open spec fn code_relocated(
    oldc: Seq<u8>,
    newc: Seq<u8>,
    rl: Seq<RelocateEntry>,
    rt: RemapTable,
) -> bool {
    &&& newc.len() == oldc.len()
    &&& forall|p: int| 0 <= p < oldc.len() && !in_any_slot(rl, p) ==> #[trigger] newc[p] == oldc[p]
    &&& forall|k: int|
        0 <= k < rl.len() ==> le32(newc, (#[trigger] rl[k]).code_offset as int) == remap_lookup(
            rt,
            rl[k].relocate_type,
            le32(oldc, rl[k].code_offset as int),
        )
}

/// Reads the little-endian 32-bit slot at `off`.
fn read_u32_le(code: &Vec<u8>, off: usize) -> (r: u32)
    requires
        off + 4 <= code@.len(),
    ensures
        r as int == le32(code@, off as int),
{
    let n = code.len();
    let b0 = code[off] as u32;
    let b1 = code[off + 1] as u32;
    let b2 = code[off + 2] as u32;
    let b3 = code[off + 3] as u32;
    b0 + 256 * (b1 + 256 * (b2 + 256 * b3))
}

/// Writes `val` into the little-endian 32-bit slot at `off`.
fn write_u32_le(code: &mut Vec<u8>, off: usize, val: u32)
    requires
        off + 4 <= old(code)@.len(),
    ensures
        final(code)@.len() == old(code)@.len(),
        forall|p: int|
            0 <= p < old(code)@.len() && !(off <= p < off + 4) ==> #[trigger] final(code)@[p]
                == old(code)@[p],
        le32(final(code)@, off as int) == val as int,
{
    let n = code.len();
    let b0 = (val & 0xff) as u8;
    let b1 = ((val >> 8) & 0xff) as u8;
    let b2 = ((val >> 16) & 0xff) as u8;
    let b3 = ((val >> 24) & 0xff) as u8;
    proof {
        assert(b0 as u32 + 256 * (b1 as u32 + 256 * (b2 as u32 + 256 * (b3 as u32))) == val)
            by (bit_vector)
            requires
                b0 == (val & 0xff) as u8,
                b1 == ((val >> 8) & 0xff) as u8,
                b2 == ((val >> 16) & 0xff) as u8,
                b3 == ((val >> 24) & 0xff) as u8,
        ;
    }
    code[off] = b0;
    code[off + 1] = b1;
    code[off + 2] = b2;
    code[off + 3] = b3;
}

/// Rewrites every relocated slot of one function's bytecode through the
/// unit's remap tables.
fn relocate_code(code: &mut Vec<u8>, relocate_entries: &Vec<RelocateEntry>, remap_table: &RemapTable)
    requires
        relocations_fit(old(code)@, relocate_entries@, *remap_table),
    ensures
        code_relocated(old(code)@, final(code)@, relocate_entries@, *remap_table),
{
    let ghost orig = old(code)@;
    let ghost rl = relocate_entries@;
    let ghost rt = *remap_table;
    let mut k: usize = 0;
    while k < relocate_entries.len()
        invariant
            orig == old(code)@,
            rl == relocate_entries@,
            rt == *remap_table,
            relocations_fit(orig, rl, rt),
            k <= rl.len(),
            code@.len() == orig.len(),
            forall|p: int|
                0 <= p < orig.len() && !in_any_slot(rl.take(k as int), p) ==> #[trigger] code@[p]
                    == orig[p],
            forall|m: int|
                0 <= m < k ==> le32(code@, (#[trigger] rl[m]).code_offset as int) == remap_lookup(
                    rt,
                    rl[m].relocate_type,
                    le32(orig, rl[m].code_offset as int),
                ),
        decreases relocate_entries.len() - k,
    {
        let entry = &relocate_entries[k];
        let off = entry.code_offset;
        proof {
            // this slot is untouched so far, so it still holds the original
            assert forall|p: int| off <= p < off + 4 implies code@[p] == orig[p] by {
                if in_any_slot(rl.take(k as int), p) {
                    let m = choose|m: int|
                        0 <= m < rl.take(k as int).len() && in_slot(rl.take(k as int)[m], p);
                    assert(rl[m].code_offset + 4 <= rl[k as int].code_offset || rl[k as int].code_offset
                        + 4 <= rl[m].code_offset);
                }
            }
            assert(le32(code@, off as int) == le32(orig, off as int));
        }
        let value_source = read_u32_le(code, off);
        let idx = value_source as usize;
        let value_relocated: usize = match entry.relocate_type {
            RelocateType::TypeIndex => remap_table.type_remap_indices[idx],
            RelocateType::LocalVariableListIndex => remap_table.local_variable_list_remap_indices[idx],
            RelocateType::FunctionPublicIndex => remap_table.function_public_remap_indices[idx],
            RelocateType::ExternalFunctionIndex => remap_table.external_function_remap_indices[idx],
            RelocateType::DataPublicIndex => remap_table.data_public_remap_indices[idx],
        };
        let ghost code_before = code@;
        proof {
            assert(value_source as int == le32(orig, off as int));
            assert(value_relocated as int == remap_lookup(
                rt,
                rl[k as int].relocate_type,
                le32(orig, off as int),
            ));
        }
        let value_out = value_relocated as u32;
        write_u32_le(code, off, value_out);
        proof {
            assert(value_out as int == remap_lookup(
                rt,
                rl[k as int].relocate_type,
                le32(orig, off as int),
            ));
            assert forall|p: int|
                0 <= p < orig.len() && !in_any_slot(rl.take(k as int + 1), p) implies code@[p]
                == orig[p] by {
                assert(rl.take(k as int + 1)[k as int] == rl[k as int]);
                assert(!in_slot(rl[k as int], p));
                if in_any_slot(rl.take(k as int), p) {
                    let m = choose|m: int|
                        0 <= m < rl.take(k as int).len() && in_slot(rl.take(k as int)[m], p);
                    assert(in_slot(rl[m], p));
                    assert(in_any_slot(rl.take(k as int + 1), p));
                }
            }
            assert forall|m: int| 0 <= m < k + 1 implies le32(
                code@,
                (#[trigger] rl[m]).code_offset as int,
            ) == remap_lookup(rt, rl[m].relocate_type, le32(orig, rl[m].code_offset as int)) by {
                if m < k {
                    // an earlier slot does not overlap this one
                    assert(rl[m].code_offset + 4 <= rl[k as int].code_offset || rl[k as int].code_offset
                        + 4 <= rl[m].code_offset);
                    assert(le32(code@, rl[m].code_offset as int) == le32(
                        code_before,
                        rl[m].code_offset as int,
                    ));
                }
            }
        }
        k += 1;
    }
    proof {
        assert(rl.take(rl.len() as int) =~= rl);
    }
}

/// How many functions the units before `u` hold.
pub open spec fn fn_count_before(lists: Seq<Vec<FunctionEntry>>, u: int) -> int
    decreases u,
{
    if u <= 0 {
        0
    } else {
        fn_count_before(lists, u - 1) + lists[u - 1]@.len()
    }
}

/// Every function of the unit is well formed for its remap table: its type
/// and local-variable-list indices index the remap vectors, and its
/// relocation list fits its bytecode.
pub open spec fn unit_functions_fit(
    fns: Seq<FunctionEntry>,
    rls: Seq<RelocateListEntry>,
    rt: RemapTable,
) -> bool {
    &&& rls.len() == fns.len()
    &&& forall|j: int|
        0 <= j < fns.len() ==> {
            &&& (#[trigger] fns[j]).type_index < rt.type_remap_indices@.len()
            &&& fns[j].local_variable_list_index < rt.local_variable_list_remap_indices@.len()
            &&& relocations_fit(fns[j].code@, rls[j].relocate_entries@, rt)
        }
}

/// One merged function is its source rewritten through the unit's remap
/// tables, with its relocation list carried over.
pub open spec fn merged_function_ok(
    src: FunctionEntry,
    dst: FunctionEntry,
    rl: RelocateListEntry,
    mrl: RelocateListEntry,
    rt: RemapTable,
) -> bool {
    &&& dst.type_index as int == rt.type_remap_indices@[src.type_index as int]
    &&& dst.local_variable_list_index as int
        == rt.local_variable_list_remap_indices@[src.local_variable_list_index as int]
    &&& code_relocated(src.code@, dst.code@, rl.relocate_entries@, rt)
    &&& relocate_list_deq(mrl, rl)
}

/// Flattens the function sections of all units, rewriting each function's
/// type index, local-variable-list index and relocated bytecode slots
/// through its unit's remap tables.  The relocation lists are
/// concatenated unchanged.
#[verifier::rlimit(100)]
#[verifier::spinoff_prover]
pub fn merge_function_entries(
    relocate_list_entries_list: &Vec<Vec<RelocateListEntry>>,
    function_entries_list: &Vec<Vec<FunctionEntry>>,
    remap_table_list: &Vec<RemapTable>,
) -> (r: (Vec<FunctionEntry>, Vec<RelocateListEntry>))
    requires
        relocate_list_entries_list.len() == function_entries_list.len(),
        remap_table_list.len() == function_entries_list.len(),
        forall|u: int|
            0 <= u < function_entries_list.len() ==> unit_functions_fit(
                (#[trigger] function_entries_list@[u])@,
                relocate_list_entries_list@[u]@,
                remap_table_list@[u],
            ),
    ensures
        ({
            let fns = function_entries_list@;
            let rls = relocate_list_entries_list@;
            let rts = remap_table_list@;
            let n = fns.len() as int;
            let merged_fns = r.0;
            let merged_rls = r.1;
            &&& merged_fns@.len() == fn_count_before(fns, n)
            &&& merged_rls@.len() == fn_count_before(fns, n)
            &&& forall|u: int, j: int|
                #![trigger fns[u]@[j]]
                0 <= u < n && 0 <= j < fns[u]@.len() ==> merged_function_ok(
                    fns[u]@[j],
                    merged_fns@[fn_count_before(fns, u) + j],
                    rls[u]@[j],
                    merged_rls@[fn_count_before(fns, u) + j],
                    rts[u],
                )
        }),
{
    let ghost fns = function_entries_list@;
    let ghost rls = relocate_list_entries_list@;
    let ghost rts = remap_table_list@;
    let mut merged_function_entries: Vec<FunctionEntry> = Vec::new();
    let mut merged_relocate_list_entries: Vec<RelocateListEntry> = Vec::new();
    let mut u: usize = 0;
    while u < function_entries_list.len()
        invariant
            fns == function_entries_list@,
            rls == relocate_list_entries_list@,
            rts == remap_table_list@,
            rls.len() == fns.len(),
            rts.len() == fns.len(),
            forall|v: int|
                0 <= v < fns.len() ==> unit_functions_fit(
                    (#[trigger] fns[v])@,
                    rls[v]@,
                    rts[v],
                ),
            u <= fns.len(),
            merged_function_entries.len() == fn_count_before(fns, u as int),
            merged_relocate_list_entries.len() == fn_count_before(fns, u as int),
            forall|v: int| 0 <= v <= u ==> 0 <= #[trigger] fn_count_before(fns, v),
            forall|v: int|
                0 <= v < u ==> (#[trigger] fn_count_before(fns, v)) + fns[v]@.len()
                    <= fn_count_before(fns, u as int),
            forall|v: int, j: int|
                #![trigger fns[v]@[j]]
                0 <= v < u && 0 <= j < fns[v]@.len() ==> merged_function_ok(
                    fns[v]@[j],
                    merged_function_entries@[fn_count_before(fns, v) + j],
                    rls[v]@[j],
                    merged_relocate_list_entries@[fn_count_before(fns, v) + j],
                    rts[v],
                ),
        decreases function_entries_list.len() - u,
    {
        let unit_fns = &function_entries_list[u];
        let unit_rls = &relocate_list_entries_list[u];
        let remap_table = &remap_table_list[u];
        let mut j: usize = 0;
        while j < unit_fns.len()
            invariant
                fns == function_entries_list@,
                rls == relocate_list_entries_list@,
                rts == remap_table_list@,
                rls.len() == fns.len(),
                rts.len() == fns.len(),
                u < fns.len(),
                unit_fns == &function_entries_list[u as int],
                unit_rls == &relocate_list_entries_list[u as int],
                remap_table == &remap_table_list[u as int],
                unit_functions_fit(fns[u as int]@, rls[u as int]@, rts[u as int]),
                j <= unit_fns@.len(),
                merged_function_entries.len() == fn_count_before(fns, u as int) + j,
                merged_relocate_list_entries.len() == fn_count_before(fns, u as int) + j,
                forall|v: int| 0 <= v <= u ==> 0 <= #[trigger] fn_count_before(fns, v),
                forall|v: int|
                    0 <= v < u ==> (#[trigger] fn_count_before(fns, v)) + fns[v]@.len()
                        <= fn_count_before(fns, u as int),
                forall|v: int, m: int|
                    #![trigger fns[v]@[m]]
                    0 <= v < u && 0 <= m < fns[v]@.len() ==> merged_function_ok(
                        fns[v]@[m],
                        merged_function_entries@[fn_count_before(fns, v) + m],
                        rls[v]@[m],
                        merged_relocate_list_entries@[fn_count_before(fns, v) + m],
                        rts[v],
                    ),
                forall|m: int|
                    0 <= m < j ==> merged_function_ok(
                        #[trigger] fns[u as int]@[m],
                        merged_function_entries@[fn_count_before(fns, u as int) + m],
                        rls[u as int]@[m],
                        merged_relocate_list_entries@[fn_count_before(fns, u as int) + m],
                        rts[u as int],
                    ),
            decreases unit_fns.len() - j,
        {
            let function_entry = &unit_fns[j];
            let relocate_list_entry = &unit_rls[j];
            let type_index = remap_table.type_remap_indices[function_entry.type_index];
            let local_variable_list_index =
                remap_table.local_variable_list_remap_indices[function_entry.local_variable_list_index];
            let mut code = copy_scalar_vec(&function_entry.code);
            relocate_code(&mut code, &relocate_list_entry.relocate_entries, remap_table);
            merged_function_entries.push(
                FunctionEntry { type_index, local_variable_list_index, code },
            );
            merged_relocate_list_entries.push(copy_relocate_list_entry(relocate_list_entry));
            j += 1;
        }
        u += 1;
    }
    (merged_function_entries, merged_relocate_list_entries)
}

} // verus!
