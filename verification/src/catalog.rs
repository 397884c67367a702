//! Where the list of available packages is read from.

use vstd::prelude::*;

verus! {

/// Well-known location of the package catalog.
pub const PKG_LIST_URL: &'static str =
    "https://raw.githubusercontent.com/blueOkiris/aip-man-pkg-list/main/pkgs.json";

/// A resolved catalog source: fetched over the network, or read from a
/// file on disk.
pub enum CatalogLocation {
    Remote { url: String },
    LocalFile { path: String },
}

/// Whether `s` starts with `prefix`.
pub open spec fn starts_with(s: Seq<char>, prefix: Seq<char>) -> bool {
    s.len() >= prefix.len() && s.subrange(0, prefix.len() as int) == prefix
}

/// Character-for-character prefix test on string slices.
pub fn str_starts_with(s: &str, prefix: &str) -> (r: bool)
    ensures
        r == starts_with(s@, prefix@),
{
    let n = s.unicode_len();
    let m = prefix.unicode_len();
    if m > n {
        return false;
    }
    let mut i: usize = 0;
    while i < m
        invariant
            n == s@.len(),
            m == prefix@.len(),
            m <= n,
            i <= m,
            forall|j: int| 0 <= j < i ==> s@[j] == prefix@[j],
        decreases m - i,
    {
        if s.get_char(i) != prefix.get_char(i) {
            proof {
                assert(s@.subrange(0, m as int)[i as int] == s@[i as int]);
            }
            return false;
        }
        i += 1;
    }
    proof {
        assert(s@.subrange(0, m as int) =~= prefix@);
    }
    true
}

/// The catalog is fetched from the well-known URL unless an override is
/// given; an override under the local-file scheme names a path on disk,
/// any other override is itself the URL to fetch.
pub fn catalog_location(repo: &Option<String>) -> (r: CatalogLocation)
    ensures
        repo is None ==> (r matches CatalogLocation::Remote { url } && url@ == PKG_LIST_URL@),
        repo matches Some(u) ==> (if starts_with(u@, "file://"@) {
            r matches CatalogLocation::LocalFile { path } && path@ == u@.skip(7)
        } else {
            r matches CatalogLocation::Remote { url } && url@ == u@
        }),
{
    match repo {
        None => CatalogLocation::Remote { url: String::from_str(PKG_LIST_URL) },
        Some(u) => {
            if str_starts_with(u.as_str(), "file://") {
                let n = u.as_str().unicode_len();
                proof {
                    reveal_strlit("file://");
                }
                let path = u.as_str().substring_char(7, n).to_owned();
                proof {
                    assert(path@ =~= u@.skip(7));
                }
                CatalogLocation::LocalFile { path }
            } else {
                CatalogLocation::Remote { url: u.clone() }
            }
        },
    }
}

} // verus!
