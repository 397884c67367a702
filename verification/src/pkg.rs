//! Package records and the deterministic naming of their bundle files.

use vstd::prelude::*;

verus! {

/// Directory under the user's home where bundles and the manifest live.
pub const APP_DIR: &'static str = "Applications";

/// Mode bits set on an installed bundle: read and execute for everyone,
/// write for the owner.
pub const PERMISSION: u32 = 0o755;

/// File name of the installed manifest inside the application directory.
pub const MANIFEST_FILE: &'static str = "aip_man_pkg_list.json";

/// One package record, as the catalog lists it and as the installed
/// manifest stores it.
pub struct Package {
    pub name: String,
    pub version: String,
    pub description: String,
    pub url: String,
    pub compressed: Option<bool>,
}

/// The mathematical content of a package record.
pub ghost struct PackageView {
    pub name: Seq<char>,
    pub version: Seq<char>,
    pub description: Seq<char>,
    pub url: Seq<char>,
    pub compressed: Option<bool>,
}

impl View for Package {
    type V = PackageView;

    open spec fn view(&self) -> PackageView {
        PackageView {
            name: self.name@,
            version: self.version@,
            description: self.description@,
            url: self.url@,
            compressed: self.compressed,
        }
    }
}

impl DeepView for Package {
    type V = PackageView;

    open spec fn deep_view(&self) -> PackageView {
        self.view()
    }
}

impl Clone for Package {
    fn clone(&self) -> (r: Package)
        ensures
            r@ == self@,
    {
        Package {
            name: self.name.clone(),
            version: self.version.clone(),
            description: self.description.clone(),
            url: self.url.clone(),
            compressed: self.compressed,
        }
    }
}

/// What `version_compare::compare` reports when the left version string
/// orders strictly below the right one, segment by segment: a function of
/// the two strings alone.
pub uninterp spec fn version_lt(a: Seq<char>, b: Seq<char>) -> bool;

/// Relies on `version_compare::compare`: it orders two version strings
/// segment-wise, deterministically in its two arguments; a string compared
/// with itself is never reported below itself, and an unparsable version
/// string yields an error, which counts as "not below" here.
#[verifier::external_body]
fn version_strictly_less(a: &str, b: &str) -> (r: bool)
    ensures
        r == version_lt(a@, b@),
        a@ == b@ ==> !r,
{
    match version_compare::compare(a, b) {
        Ok(version_compare::Cmp::Lt) => true,
        Ok(version_compare::Cmp::Le) => false,
        Ok(version_compare::Cmp::Eq) => false,
        Ok(version_compare::Cmp::Ne) => false,
        Ok(version_compare::Cmp::Ge) => false,
        Ok(version_compare::Cmp::Gt) => false,
        Err(()) => false,
    }
}

/// A package may be upgraded to another exactly when both records carry the
/// same name and the candidate's version orders strictly above the present
/// one.
pub open spec fn upgradable(a: PackageView, b: PackageView) -> bool {
    &&& a.name == b.name
    &&& a.version != b.version
    &&& version_lt(a.version, b.version)
}

impl Package {
    /// Whether `other` is the same package at a strictly newer version.
    pub fn upgradable_to(&self, other: &Package) -> (r: bool)
        ensures
            r == upgradable(self@, other@),
    {
        str_eq(self.name.as_str(), other.name.as_str())
            && version_strictly_less(self.version.as_str(), other.version.as_str())
    }

    /// The text that listing or installing a package reports about it.
    pub fn print_text(&self) -> (r: String)
        ensures
            r@ == "Package:\n| Name: "@ + self@.name + "\n| Description: "@ + self@.description
                + "\n| Version: "@ + self@.version + "\n| Url: "@ + self@.url,
    {
        let mut s = String::from_str("Package:\n| Name: ");
        s.append(self.name.as_str());
        s.append("\n| Description: ");
        s.append(self.description.as_str());
        s.append("\n| Version: ");
        s.append(self.version.as_str());
        s.append("\n| Url: ");
        s.append(self.url.as_str());
        s
    }

    /// The file name under which this package's bundle is stored, derived
    /// from the record alone so that remove and run can reconstruct it.
    pub fn artifact_file_name(&self) -> (r: String)
        ensures
            r@ == artifact_name(self@.name, self@.version),
    {
        let mut s = self.name.clone();
        s.append("-");
        s.append(self.version.as_str());
        s.append(".AppImage");
        s
    }
}

/// The bundle file name a record stands for: `<name>-<version>.AppImage`.
pub open spec fn artifact_name(name: Seq<char>, version: Seq<char>) -> Seq<char> {
    name + "-"@ + version + ".AppImage"@
}

/// Two records with one name but different versions always name different
/// bundle files.
pub proof fn lemma_artifact_name_injective(name: Seq<char>, v1: Seq<char>, v2: Seq<char>)
    requires
        v1 != v2,
    ensures
        artifact_name(name, v1) != artifact_name(name, v2),
{
    let a1 = artifact_name(name, v1);
    let a2 = artifact_name(name, v2);
    if v1.len() != v2.len() {
        assert(a1.len() != a2.len());
    } else {
        assert(!(v1 =~= v2));
        let k = choose|k: int| 0 <= k < v1.len() && v1[k] != v2[k];
        let p = (name + "-"@).len();
        assert(a1[p + k] == v1[k]);
        assert(a2[p + k] == v2[k]);
        assert(a1 != a2);
    }
}

/// Character-for-character equality of two string slices.
pub fn str_eq(a: &str, b: &str) -> (r: bool)
    ensures
        r == (a@ == b@),
{
    let n = a.unicode_len();
    if n != b.unicode_len() {
        return false;
    }
    let mut i: usize = 0;
    while i < n
        invariant
            n == a@.len(),
            n == b@.len(),
            i <= n,
            forall|j: int| 0 <= j < i ==> a@[j] == b@[j],
        decreases n - i,
    {
        if a.get_char(i) != b.get_char(i) {
            return false;
        }
        i += 1;
    }
    proof {
        assert(a@ =~= b@);
    }
    true
}

/// Whether `s` ends in `suffix`.
pub open spec fn ends_with(s: Seq<char>, suffix: Seq<char>) -> bool {
    s.len() >= suffix.len() && s.subrange(s.len() - suffix.len(), s.len() as int) == suffix
}

/// Character-for-character suffix test on string slices.
pub fn str_ends_with(s: &str, suffix: &str) -> (r: bool)
    ensures
        r == ends_with(s@, suffix@),
{
    let n = s.unicode_len();
    let m = suffix.unicode_len();
    if m > n {
        return false;
    }
    let mut i: usize = 0;
    while i < m
        invariant
            n == s@.len(),
            m == suffix@.len(),
            m <= n,
            i <= m,
            forall|j: int| 0 <= j < i ==> s@[n - m + j] == suffix@[j],
        decreases m - i,
    {
        if s.get_char(n - m + i) != suffix.get_char(i) {
            proof {
                assert(s@.subrange(n - m, n as int)[i as int] == s@[n - m + i]);
            }
            return false;
        }
        i += 1;
    }
    proof {
        assert(s@.subrange(n - m, n as int) =~= suffix@);
    }
    true
}

/// How a downloaded bundle has to be unpacked, read off the source URL.
pub enum ArchiveKind {
    Zip,
    TarGz,
    Plain,
}

/// The container format a bundle URL points at: a `.zip` archive, a
/// gzip-compressed tarball, or a directly runnable file.
pub fn archive_kind(url: &str) -> (r: ArchiveKind)
    ensures
        (r == ArchiveKind::Zip) == ends_with(url@, ".zip"@),
        (r == ArchiveKind::TarGz) == (!ends_with(url@, ".zip"@) && ends_with(url@, ".gz"@)),
        (r == ArchiveKind::Plain) == (!ends_with(url@, ".zip"@) && !ends_with(url@, ".gz"@)),
{
    if str_ends_with(url, ".zip") {
        ArchiveKind::Zip
    } else if str_ends_with(url, ".gz") {
        ArchiveKind::TarGz
    } else {
        ArchiveKind::Plain
    }
}

} // verus!
