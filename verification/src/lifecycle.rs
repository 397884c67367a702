//! The state machine behind every command: what a request does to the
//! installed manifest, and which bundle files have to change with it.
//!
//! Per package name the manifest knows two states, absent and installed at
//! some version.  The functions here compute the transition; the caller
//! carries out the downloads and deletions the returned decision names and
//! then persists the returned manifest.

use vstd::prelude::*;
use crate::manifest::{
    clone_packages, find_index, find_package, first_with_name, has_name, index_of_name,
    install_into_manifest, lemma_index_of_name, names_unique, without_index,
};
use crate::pkg::{artifact_name, lemma_artifact_name_injective, upgradable, Package, PackageView};

verus! {

/// What an install request amounts to for one package name.
pub enum InstallDecision {
    /// The catalog does not list the package at all.
    NotInCatalog,
    /// The installed version is not below the catalog's: nothing to do.
    AlreadyCurrent { installed: Package },
    /// Installed, and the catalog carries a strictly newer version.
    Upgrade { installed: Package, candidate: Package },
    /// Not installed yet.
    Fresh { candidate: Package },
}

/// The decision an install request for `name` must reach, given the
/// catalog and the installed manifest.
pub open spec fn decision_matches(
    d: InstallDecision,
    c: Seq<PackageView>,
    m: Seq<PackageView>,
    name: Seq<char>,
) -> bool {
    match d {
        InstallDecision::NotInCatalog => !has_name(c, name),
        InstallDecision::AlreadyCurrent { installed } => {
            &&& has_name(c, name)
            &&& has_name(m, name)
            &&& installed@ == first_with_name(m, name)
            &&& installed@.name == name
            &&& !upgradable(first_with_name(m, name), first_with_name(c, name))
        },
        InstallDecision::Upgrade { installed, candidate } => {
            &&& has_name(c, name)
            &&& has_name(m, name)
            &&& installed@ == first_with_name(m, name)
            &&& candidate@ == first_with_name(c, name)
            &&& installed@.name == name
            &&& candidate@.name == name
            &&& upgradable(installed@, candidate@)
        },
        InstallDecision::Fresh { candidate } => {
            &&& has_name(c, name)
            &&& !has_name(m, name)
            &&& candidate@ == first_with_name(c, name)
            &&& candidate@.name == name
        },
    }
}

/// Decides what installing `name` means right now: absent from the
/// catalog, already current, an upgrade, or a fresh install.
pub fn decide_install(catalog: &Vec<Package>, manifest: &Vec<Package>, name: &str) -> (d:
    InstallDecision)
    ensures
        decision_matches(d, catalog.deep_view(), manifest.deep_view(), name@),
{
    proof {
        lemma_index_of_name(catalog.deep_view(), name@);
        lemma_index_of_name(manifest.deep_view(), name@);
    }
    let cand = match find_package(catalog, name) {
        None => { return InstallDecision::NotInCatalog },
        Some(c) => c,
    };
    match find_package(manifest, name) {
        None => InstallDecision::Fresh { candidate: cand },
        Some(inst) => {
            if inst.upgradable_to(&cand) {
                InstallDecision::Upgrade { installed: inst, candidate: cand }
            } else {
                InstallDecision::AlreadyCurrent { installed: inst }
            }
        },
    }
}

/// Runs an install request against the manifest.  Nothing changes unless
/// the request was confirmed and names a fresh install or an upgrade; a
/// fresh install appends the catalog's record, an upgrade replaces the one
/// record carrying the name.  The manifest invariant is kept.
pub fn install_transition(
    catalog: &Vec<Package>,
    manifest: &Vec<Package>,
    name: &str,
    confirmed: bool,
) -> (res: (InstallDecision, Vec<Package>))
    ensures
        decision_matches(res.0, catalog.deep_view(), manifest.deep_view(), name@),
        ({
            let m = manifest.deep_view();
            match res.0 {
                InstallDecision::NotInCatalog => res.1.deep_view() == m,
                InstallDecision::AlreadyCurrent { .. } => res.1.deep_view() == m,
                InstallDecision::Fresh { candidate } => res.1.deep_view() == (if confirmed {
                    m.push(candidate@)
                } else {
                    m
                }),
                InstallDecision::Upgrade { candidate, .. } => res.1.deep_view() == (if confirmed {
                    m.remove(index_of_name(m, name@)).push(candidate@)
                } else {
                    m
                }),
            }
        }),
        names_unique(manifest.deep_view()) ==> names_unique(res.1.deep_view()),
{
    let d = decide_install(catalog, manifest, name);
    let updated = match &d {
        InstallDecision::Fresh { candidate } => {
            if confirmed {
                install_into_manifest(manifest, candidate)
            } else {
                clone_packages(manifest)
            }
        },
        InstallDecision::Upgrade { candidate, .. } => {
            if confirmed {
                install_into_manifest(manifest, candidate)
            } else {
                clone_packages(manifest)
            }
        },
        _ => clone_packages(manifest),
    };
    (d, updated)
}

/// Runs a remove request against the manifest.  The first result reports
/// the installed record, or nothing when the package is not installed, in
/// which case the manifest comes back unchanged; a confirmed removal drops
/// exactly that record.  The manifest invariant is kept.
pub fn remove_transition(manifest: &Vec<Package>, name: &str, confirmed: bool) -> (res: (
    Option<Package>,
    Vec<Package>,
))
    ensures
        ({
            let m = manifest.deep_view();
            &&& (res.0 is None <==> !has_name(m, name@))
            &&& (res.0 is None ==> res.1.deep_view() == m)
            &&& (res.0 matches Some(p) ==> p@ == first_with_name(m, name@) && res.1.deep_view()
                == (if confirmed {
                m.remove(index_of_name(m, name@))
            } else {
                m
            }))
            &&& (names_unique(m) ==> names_unique(res.1.deep_view()))
        }),
{
    let ghost m = manifest.deep_view();
    match find_index(manifest, name) {
        None => (None, clone_packages(manifest)),
        Some(i) => {
            proof {
                lemma_index_of_name(m, name@);
            }
            let p = manifest[i].clone();
            if confirmed {
                let r = without_index(manifest, i);
                proof {
                    if names_unique(m) {
                        lemma_names_unique_remove(m, i as int);
                    }
                }
                (Some(p), r)
            } else {
                (Some(p), clone_packages(manifest))
            }
        },
    }
}

/// Dropping a record keeps the manifest invariant.
pub proof fn lemma_names_unique_remove(s: Seq<PackageView>, i: int)
    requires
        names_unique(s),
        0 <= i < s.len(),
    ensures
        names_unique(s.remove(i)),
{
    let r = s.remove(i);
    assert forall|a: int, b: int| 0 <= a < b < r.len() implies r[a].name != r[b].name by {
        let sa = if a < i {
            a
        } else {
            a + 1
        };
        let sb = if b < i {
            b
        } else {
            b + 1
        };
        assert(r[a] == s[sa]);
        assert(r[b] == s[sb]);
    }
}

/// When a record is replaced under one name, as a confirmed upgrade
/// through the install command does it, exactly one record carries that
/// name afterwards, it is the incoming record, and when its version
/// changed so did the bundle file name it stands for.
pub proof fn lemma_replace_keeps_one_record(m: Seq<PackageView>, cand: PackageView, name: Seq<char>)
    requires
        names_unique(m),
        has_name(m, name),
        cand.name == name,
    ensures
        ({
            let r = m.remove(index_of_name(m, name)).push(cand);
            &&& forall|j: int| 0 <= j < r.len() && r[j].name == name ==> j == r.len() - 1
            &&& r[r.len() - 1] == cand
            &&& (first_with_name(m, name).version != cand.version ==> artifact_name(
                name,
                first_with_name(m, name).version,
            ) != artifact_name(name, cand.version))
        }),
{
    lemma_index_of_name(m, name);
    let idx = index_of_name(m, name);
    let r = m.remove(idx).push(cand);
    assert forall|j: int| 0 <= j < r.len() && r[j].name == name implies j == r.len() - 1 by {
        if j < r.len() - 1 {
            let sj = if j < idx {
                j
            } else {
                j + 1
            };
            assert(r[j] == m[sj]);
        }
    }
    if first_with_name(m, name).version != cand.version {
        lemma_artifact_name_injective(name, first_with_name(m, name).version, cand.version);
    }
}

/// Whether the catalog carries a strictly newer version of `entry`.
pub open spec fn upgrade_applies(c: Seq<PackageView>, entry: PackageView) -> bool {
    has_name(c, entry.name) && upgradable(entry, first_with_name(c, entry.name))
}

/// What one manifest record becomes during a bulk upgrade: the catalog's
/// newer record when there is one and the user confirmed, itself otherwise.
pub open spec fn upgraded_entry(
    c: Seq<PackageView>,
    entry: PackageView,
    confirmed: bool,
) -> PackageView {
    if upgrade_applies(c, entry) && confirmed {
        first_with_name(c, entry.name)
    } else {
        entry
    }
}

/// The manifest a bulk upgrade produces, record by record.
pub open spec fn upgraded_manifest(
    c: Seq<PackageView>,
    m: Seq<PackageView>,
    k: Seq<bool>,
) -> Seq<PackageView> {
    Seq::new(m.len(), |i: int| upgraded_entry(c, m[i], k[i]))
}

/// The newer catalog record an installed record can move to, if any.
pub fn plan_upgrade_step(catalog: &Vec<Package>, entry: &Package) -> (r: Option<Package>)
    ensures
        r matches Some(p) ==> upgrade_applies(catalog.deep_view(), entry@) && p@ == first_with_name(
            catalog.deep_view(),
            entry@.name,
        ),
        r is None <==> !upgrade_applies(catalog.deep_view(), entry@),
{
    match find_package(catalog, entry.name.as_str()) {
        None => None,
        Some(cand) => {
            if entry.upgradable_to(&cand) {
                Some(cand)
            } else {
                None
            }
        },
    }
}

/// Runs a bulk upgrade: every installed record with a confirmed, strictly
/// newer catalog version is replaced by the catalog's record, every other
/// record passes through unchanged.  `confirms` answers, entry by entry,
/// the per-record confirmation.  Names stay in place, so the manifest
/// invariant is kept.
pub fn upgrade_transition(
    catalog: &Vec<Package>,
    manifest: &Vec<Package>,
    confirms: &Vec<bool>,
) -> (r: Vec<Package>)
    requires
        confirms@.len() == manifest@.len(),
    ensures
        r.deep_view() == upgraded_manifest(catalog.deep_view(), manifest.deep_view(), confirms@),
        forall|i: int|
            0 <= i < manifest@.len() ==> r.deep_view()[i].name == manifest.deep_view()[i].name,
        names_unique(manifest.deep_view()) ==> names_unique(r.deep_view()),
{
    let ghost c = catalog.deep_view();
    let ghost m = manifest.deep_view();
    let mut r: Vec<Package> = Vec::new();
    let n = manifest.len();
    let mut i: usize = 0;
    while i < n
        invariant
            n == manifest@.len(),
            confirms@.len() == n,
            c == catalog.deep_view(),
            m == manifest.deep_view(),
            i <= n,
            r.deep_view().len() == i,
            forall|j: int| 0 <= j < i ==> r.deep_view()[j] == upgraded_entry(c, m[j], confirms@[j]),
        decreases n - i,
    {
        let conf = confirms[i];
        match plan_upgrade_step(catalog, &manifest[i]) {
            Some(p) => {
                if conf {
                    crate::manifest::push_pkg(&mut r, p);
                } else {
                    crate::manifest::push_pkg(&mut r, manifest[i].clone());
                }
            },
            None => {
                crate::manifest::push_pkg(&mut r, manifest[i].clone());
            },
        }
        proof {
            assert(m[i as int] == manifest@[i as int].deep_view());
            assert(r.deep_view()[i as int] == upgraded_entry(c, m[i as int], confirms@[i as int]));
        }
        i += 1;
    }
    proof {
        assert(r.deep_view() =~= upgraded_manifest(c, m, confirms@));
        assert forall|j: int| 0 <= j < n implies r.deep_view()[j].name == m[j].name by {}
        if names_unique(m) {
            assert forall|a: int, b: int|
                0 <= a < b < r.deep_view().len() implies r.deep_view()[a].name
                != r.deep_view()[b].name by {
                assert(r.deep_view()[a].name == m[a].name);
                assert(r.deep_view()[b].name == m[b].name);
            }
        }
    }
    r
}

/// A record can only be upgraded to a record carrying its own name.
pub proof fn lemma_upgradable_only_same_name(a: PackageView, b: PackageView)
    ensures
        upgradable(a, b) ==> a.name == b.name,
{
}

/// A confirmed bulk upgrade of a record with a strictly newer catalog
/// version replaces exactly that record: afterwards exactly one record
/// carries the name, it is the catalog's record, and the bundle file it
/// names differs from the old record's.  Records without a confirmed newer
/// catalog version pass through untouched.
pub proof fn lemma_upgrade_replaces_entry(
    c: Seq<PackageView>,
    m: Seq<PackageView>,
    k: Seq<bool>,
    i: int,
)
    requires
        names_unique(m),
        k.len() == m.len(),
        0 <= i < m.len(),
    ensures
        ({
            let r = upgraded_manifest(c, m, k);
            upgrade_applies(c, m[i]) && k[i] ==> {
                &&& r[i] == first_with_name(c, m[i].name)
                &&& r[i].name == m[i].name
                &&& forall|j: int| 0 <= j < r.len() && r[j].name == m[i].name ==> j == i
                &&& artifact_name(r[i].name, r[i].version) != artifact_name(
                    m[i].name,
                    m[i].version,
                )
            }
        }),
        forall|j: int|
            0 <= j < m.len() && !(upgrade_applies(c, m[j]) && k[j])
                ==> #[trigger] upgraded_manifest(c, m, k)[j] == m[j],
{
    let r = upgraded_manifest(c, m, k);
    if upgrade_applies(c, m[i]) && k[i] {
        assert(r[i] == first_with_name(c, m[i].name));
        assert forall|j: int| 0 <= j < r.len() && r[j].name == m[i].name implies j == i by {
            assert(r[j].name == m[j].name);
        }
        let ov = m[i].version;
        let nv = r[i].version;
        assert(ov != nv);
        lemma_artifact_name_injective(m[i].name, ov, nv);
    }
}

} // verus!
