//! The installed manifest: an ordered sequence of package records, at most
//! one per name, and the verified operations that read and rewrite it.

use vstd::prelude::*;
use crate::pkg::{Package, PackageView, str_eq};

verus! {

/// Whether some record in `s` carries `name`.
pub open spec fn has_name(s: Seq<PackageView>, name: Seq<char>) -> bool {
    exists|i: int| 0 <= i < s.len() && s[i].name == name
}

/// Index of the first record carrying `name`, or -1 if there is none.
pub open spec fn index_of_name(s: Seq<PackageView>, name: Seq<char>) -> int
    decreases s.len(),
{
    if s.len() == 0 {
        -1
    } else if s[0].name == name {
        0
    } else if index_of_name(s.skip(1), name) == -1 {
        -1
    } else {
        index_of_name(s.skip(1), name) + 1
    }
}

/// The first record in `s` carrying `name`.
pub open spec fn first_with_name(s: Seq<PackageView>, name: Seq<char>) -> PackageView {
    s[index_of_name(s, name)]
}

/// The manifest invariant: at most one record per name.
pub open spec fn names_unique(s: Seq<PackageView>) -> bool {
    forall|i: int, j: int| 0 <= i < j < s.len() ==> s[i].name != s[j].name
}

/// `index_of_name` points at exactly the first record carrying `name`.
pub proof fn lemma_index_of_name(s: Seq<PackageView>, name: Seq<char>)
    ensures
        index_of_name(s, name) == -1 <==> !has_name(s, name),
        has_name(s, name) ==> 0 <= index_of_name(s, name) < s.len(),
        has_name(s, name) ==> s[index_of_name(s, name)].name == name,
        forall|j: int| 0 <= j < index_of_name(s, name) ==> s[j].name != name,
    decreases s.len(),
{
    if s.len() == 0 {
    } else if s[0].name == name {
    } else {
        let t = s.skip(1);
        lemma_index_of_name(t, name);
        assert(forall|j: int| 0 <= j < t.len() ==> t[j] == s[j + 1]);
        if has_name(s, name) {
            let w = choose|i: int| 0 <= i < s.len() && s[i].name == name;
            assert(t[w - 1] == s[w]);
            assert(has_name(t, name));
        }
        if has_name(t, name) {
            let w = choose|i: int| 0 <= i < t.len() && t[i].name == name;
            assert(s[w + 1].name == name);
            assert(has_name(s, name));
        }
        assert forall|j: int| 0 <= j < index_of_name(s, name) implies s[j].name != name by {
            if j > 0 {
                assert(t[j - 1] == s[j]);
            }
        }
    }
}

/// Position of the first record carrying `name`, if any.
pub fn find_index(list: &Vec<Package>, name: &str) -> (r: Option<usize>)
    ensures
        r matches Some(i) ==> i as int == index_of_name(list.deep_view(), name@),
        r is None <==> !has_name(list.deep_view(), name@),
{
    let ghost m = list.deep_view();
    let n = list.len();
    let mut i: usize = 0;
    while i < n
        invariant
            n == list@.len(),
            m == list.deep_view(),
            i <= n,
            forall|j: int| 0 <= j < i ==> m[j].name != name@,
        decreases n - i,
    {
        if str_eq(list[i].name.as_str(), name) {
            proof {
                assert(m[i as int].name == name@);
                lemma_index_of_name(m, name@);
            }
            return Some(i);
        }
        i += 1;
    }
    proof {
        lemma_index_of_name(m, name@);
    }
    None
}

/// A copy of the first record carrying `name`, if there is one.
pub fn find_package(list: &Vec<Package>, name: &str) -> (r: Option<Package>)
    ensures
        r matches Some(p) ==> has_name(list.deep_view(), name@) && p@ == first_with_name(
            list.deep_view(),
            name@,
        ),
        r is None <==> !has_name(list.deep_view(), name@),
{
    match find_index(list, name) {
        Some(i) => {
            proof {
                lemma_index_of_name(list.deep_view(), name@);
            }
            Some(list[i].clone())
        },
        None => None,
    }
}

/// Appends one record, stated over the records' mathematical content.
pub(crate) fn push_pkg(r: &mut Vec<Package>, p: Package)
    ensures
        final(r).deep_view() == old(r).deep_view().push(p@),
{
    let ghost prev_vec = r@;
    let ghost prev_dv = r.deep_view();
    let ghost pv = p@;
    r.push(p);
    proof {
        assert forall|k: int| 0 <= k < r@.len() implies r.deep_view()[k] == prev_dv.push(pv)[k] by {
            if k < prev_vec.len() {
                assert(r@[k] == prev_vec[k]);
                assert(prev_dv[k] == prev_vec[k].deep_view());
            } else {
                assert(r@[k].deep_view() == pv);
            }
        }
        assert(r.deep_view() =~= prev_dv.push(pv));
    }
}

/// Copies of all records, in order.
pub fn clone_packages(list: &Vec<Package>) -> (r: Vec<Package>)
    ensures
        r.deep_view() == list.deep_view(),
{
    let ghost m = list.deep_view();
    let mut r: Vec<Package> = Vec::new();
    let n = list.len();
    let mut i: usize = 0;
    while i < n
        invariant
            n == list@.len(),
            m == list.deep_view(),
            i <= n,
            r.deep_view() =~= m.subrange(0, i as int),
        decreases n - i,
    {
        push_pkg(&mut r, list[i].clone());
        proof {
            assert(m[i as int] == list@[i as int].deep_view());
            assert(r.deep_view() =~= m.subrange(0, i as int + 1));
        }
        i += 1;
    }
    proof {
        assert(r.deep_view() =~= m);
    }
    r
}

/// All records except the one at `idx`, in order.
pub(crate) fn without_index(list: &Vec<Package>, idx: usize) -> (r: Vec<Package>)
    requires
        idx < list@.len(),
    ensures
        r.deep_view() == list.deep_view().remove(idx as int),
{
    let ghost m = list.deep_view();
    let mut r: Vec<Package> = Vec::new();
    let n = list.len();
    let mut i: usize = 0;
    while i < n
        invariant
            n == list@.len(),
            m == list.deep_view(),
            idx < n,
            i <= n,
            i <= idx ==> r.deep_view() =~= m.subrange(0, i as int),
            i > idx ==> r.deep_view() =~= m.subrange(0, idx as int) + m.subrange(
                idx as int + 1,
                i as int,
            ),
        decreases n - i,
    {
        if i != idx {
            push_pkg(&mut r, list[i].clone());
        }
        proof {
            assert(m[i as int] == list@[i as int].deep_view());
            if i + 1 <= idx {
                assert(r.deep_view() =~= m.subrange(0, i as int + 1));
            } else {
                assert(r.deep_view() =~= m.subrange(0, idx as int) + m.subrange(
                    idx as int + 1,
                    i as int + 1,
                ));
            }
        }
        i += 1;
    }
    proof {
        assert(r.deep_view() =~= m.remove(idx as int));
    }
    r
}

/// The manifest after `pkg` is installed: a record already carrying its
/// name is dropped, then `pkg` is appended.  Installing a package that was
/// absent appends exactly one record; the invariant is kept either way.
pub fn install_into_manifest(manifest: &Vec<Package>, pkg: &Package) -> (r: Vec<Package>)
    ensures
        !has_name(manifest.deep_view(), pkg@.name) ==> r.deep_view() == manifest.deep_view().push(
            pkg@,
        ),
        has_name(manifest.deep_view(), pkg@.name) ==> r.deep_view() == manifest.deep_view().remove(
            index_of_name(manifest.deep_view(), pkg@.name),
        ).push(pkg@),
        names_unique(manifest.deep_view()) ==> names_unique(r.deep_view()),
{
    let ghost m = manifest.deep_view();
    let mut r = match find_index(manifest, pkg.name.as_str()) {
        None => clone_packages(manifest),
        Some(idx) => {
            proof {
                lemma_index_of_name(m, pkg@.name);
            }
            without_index(manifest, idx)
        },
    };
    let ghost base = r.deep_view();
    push_pkg(&mut r, pkg.clone());
    proof {
        if names_unique(m) {
            lemma_index_of_name(m, pkg@.name);
            if has_name(m, pkg@.name) {
                let idx = index_of_name(m, pkg@.name);
                assert forall|i: int, j: int|
                    0 <= i < j < r.deep_view().len() implies r.deep_view()[i].name
                    != r.deep_view()[j].name by {
                    let rv = r.deep_view();
                    if j + 1 < rv.len() {
                        assert(rv[i] == if i < idx { m[i] } else { m[i + 1] });
                        assert(rv[j] == if j < idx { m[j] } else { m[j + 1] });
                    } else {
                        assert(rv[j] == pkg@);
                        let oi = if i < idx { i } else { i + 1 };
                        assert(rv[i] == m[oi]);
                        assert(m[oi].name != m[idx].name);
                    }
                }
            } else {
                assert forall|i: int, j: int|
                    0 <= i < j < r.deep_view().len() implies r.deep_view()[i].name
                    != r.deep_view()[j].name by {
                    let rv = r.deep_view();
                    if j + 1 < rv.len() {
                    } else {
                        assert(rv[i] == m[i]);
                        assert(rv[j] == pkg@);
                    }
                }
            }
        }
    }
    r
}

} // verus!
