//! The paths to watch: checking that they exist, and finding files by extension.

use vstd::prelude::*;
use crate::error::FyrError;

verus! {

/// Calls `std::path::Path::exists`. Claimed: nothing; the answer depends on the
/// disk at the time of the call.
#[verifier::external_body]
pub(crate) fn path_exists(path: &str) -> (found: bool) {
    std::path::Path::new(path).exists()
}

/// `i` is the first index at which `exists` is false.
pub open spec fn first_missing(exists: Seq<bool>, i: int) -> bool {
    &&& 0 <= i < exists.len()
    &&& !exists[i]
    &&& forall|j: int| 0 <= j < i ==> exists[j]
}

/// What the check of `paths` gives, once it is known which of them exist
/// (`exists[i]` for `paths[i]`): the first missing path is reported.
pub open spec fn paths_checked(paths: Seq<String>, exists: Seq<bool>, r: Result<(), FyrError>) -> bool {
    if forall|i: int| 0 <= i < exists.len() ==> exists[i] {
        r is Ok
    } else {
        exists|i: int|
            first_missing(exists, i) && r == Err::<(), FyrError>(FyrError::PathMissing(paths[i]))
    }
}

/// Reports the first of `paths` that does not exist, given which of them exist.
pub fn check_paths(paths: &Vec<String>, exists: &Vec<bool>) -> (r: Result<(), FyrError>)
    requires
        exists.len() == paths.len(),
    ensures
        paths_checked(paths@, exists@, r),
{
    let n = paths.len();
    let mut i: usize = 0;
    while i < n
        invariant
            n == paths.len(),
            n == exists.len(),
            i <= n,
            forall|j: int| 0 <= j < i ==> exists@[j],
        decreases n - i,
    {
        if !exists[i] {
            let r = Err(FyrError::PathMissing(paths[i].clone()));
            assert(first_missing(exists@, i as int));
            return r;
        }
        i = i + 1;
    }
    Ok(())
}

/// `r` is a result that the check of `paths` may give: the first missing
/// path is reported, for some answer to which of them exist.
pub open spec fn path_check_possible(paths: Seq<String>, r: Result<(), FyrError>) -> bool {
    exists|exists: Seq<bool>| exists.len() == paths.len() && paths_checked(paths, exists, r)
}

/// Checks that every path to watch exists; reports the first that does not.
pub fn validate_paths(paths: &Vec<String>) -> (r: Result<(), FyrError>)
    ensures
        path_check_possible(paths@, r),
{
    let mut exists: Vec<bool> = Vec::new();
    let n = paths.len();
    let mut i: usize = 0;
    while i < n
        invariant
            n == paths.len(),
            i <= n,
            exists.len() == i,
        decreases n - i,
    {
        exists.push(path_exists(paths[i].as_str()));
        i = i + 1;
    }
    let r = check_paths(paths, &exists);
    assert(exists@.len() == paths@.len() && paths_checked(paths@, exists@, r));
    r
}

/// The extension that `std::path::Path::extension` gives of `path`: the part
/// of its file name after the last dot, where there is one that is not the
/// name's first character.
pub uninterp spec fn path_extension_of(path: Seq<char>) -> Option<Seq<char>>;

/// Calls `std::path::Path::extension` on `path`. Claimed: the result is what
/// `path_extension_of` names (a part of a `str` is valid UTF-8, so the
/// conversion to text never fails).
#[verifier::external_body]
fn path_extension(path: &str) -> (r: Option<String>)
    ensures
        r.deep_view() == path_extension_of(path@),
{
    std::path::Path::new(path).extension().and_then(|e| e.to_str()).map(|e| e.to_string())
}

/// A path that a walk from `root` gives: it begins with `root`.
pub open spec fn walked_from(root: Seq<char>, path: Seq<char>) -> bool {
    root.is_prefix_of(path)
}

/// Calls `walkdir::WalkDir::new(root)` and collects the path, as displayed,
/// of every entry it yields (the root itself, then everything below it),
/// leaving out entries that it reports as errors. Claimed: each path is
/// `root` joined with names (as walkdir's `DirEntry::path` documents), so it
/// begins with `root`. Which entries there are is not claimed: that depends
/// on the disk.
#[verifier::external_body]
fn walk_tree(root: &str) -> (found: Vec<String>)
    ensures
        forall|i: int| 0 <= i < found@.len() ==> walked_from(root@, #[trigger] found@[i]@),
{
    walkdir::WalkDir::new(root).into_iter().filter_map(|entry| entry.ok()).map(
        |entry| entry.path().display().to_string(),
    ).collect()
}

/// The directories to search: the given ones, or the current one where none is given.
pub open spec fn search_roots_of(dirs: Seq<Seq<char>>) -> Seq<Seq<char>> {
    if dirs.len() == 0 {
        seq!["."@]
    } else {
        dirs
    }
}

/// The directories to search: the given ones, or `.` where none is given.
pub fn search_roots(dirs: &Vec<String>) -> (r: Vec<String>)
    ensures
        r.deep_view() == search_roots_of(dirs.deep_view()),
{
    let mut r: Vec<String> = Vec::new();
    if dirs.len() == 0 {
        r.push(String::from_str("."));
        assert(r.deep_view() =~= seq!["."@]);
        return r;
    }
    let n = dirs.len();
    let mut i: usize = 0;
    while i < n
        invariant
            n == dirs.len(),
            i <= n,
            r@.len() == i,
            r.deep_view() == dirs.deep_view().take(i as int),
        decreases n - i,
    {
        r.push(dirs[i].clone());
        assert(r@[i as int]@ == dirs@[i as int]@);
        assert(r.deep_view() =~= dirs.deep_view().take(i + 1));
        i = i + 1;
    }
    assert(dirs.deep_view().take(n as int) =~= dirs.deep_view());
    r
}

/// `extension` is one of `extensions`.
pub open spec fn extension_listed(extension: Option<Seq<char>>, extensions: Seq<Seq<char>>) -> bool {
    match extension {
        Some(e) => extensions.contains(e),
        None => false,
    }
}

/// A file is kept exactly when it has an extension equal to one of those
/// listed: no extension is never kept, and an extension that merely begins or
/// ends like a listed one is not kept.
pub proof fn law_extension_listed_exactly(extension: Option<Seq<char>>, extensions: Seq<Seq<char>>)
    ensures
        extension is None ==> !extension_listed(extension, extensions),
        extension matches Some(x) ==> (extension_listed(extension, extensions) <==> exists|i: int|
            0 <= i < extensions.len() && extensions[i] =~= x),
        extension matches Some(x) ==> (extension_listed(extension, extensions) ==> exists|i: int|
            0 <= i < extensions.len() && extensions[i].len() == x.len()),
{
    if let Some(x) = extension {
        if extension_listed(extension, extensions) {
            let i = choose|i: int| 0 <= i < extensions.len() && extensions[i] == x;
            assert(extensions[i] =~= x);
        }
        if exists|i: int| 0 <= i < extensions.len() && extensions[i] =~= x {
            let i = choose|i: int| 0 <= i < extensions.len() && extensions[i] =~= x;
            assert(extensions[i] == x);
        }
    }
}

/// Whether a file with this extension is one to watch.
pub fn has_listed_extension(extension: &Option<String>, extensions: &Vec<String>) -> (r: bool)
    ensures
        r == extension_listed(extension.deep_view(), extensions.deep_view()),
{
    match extension {
        None => false,
        Some(e) => {
            let n = extensions.len();
            let mut i: usize = 0;
            while i < n
                invariant
                    n == extensions.len(),
                    i <= n,
                    forall|j: int| 0 <= j < i ==> extensions.deep_view()[j] != e@,
                    extension.deep_view() == Some(e@),
                decreases n - i,
            {
                if extensions[i] == *e {
                    assert(extensions.deep_view()[i as int] == e@);
                    assert(extension.deep_view() == Some(e@));
                    assert(extensions.deep_view().contains(e@));
                    return true;
                }
                i = i + 1;
            }
            assert(!extensions.deep_view().contains(e@));
            false
        },
    }
}

/// The path is one to watch: its extension is one of `extensions`.
pub open spec fn path_kept(path: Seq<char>, extensions: Seq<Seq<char>>) -> bool {
    extension_listed(path_extension_of(path), extensions)
}

/// The paths of `found` whose extension is listed, in order.
pub open spec fn kept_paths(found: Seq<Seq<char>>, extensions: Seq<Seq<char>>) -> Seq<Seq<char>>
    decreases found.len(),
{
    if found.len() == 0 {
        Seq::empty()
    } else {
        let rest = kept_paths(found.drop_last(), extensions);
        if path_kept(found.last(), extensions) {
            rest.push(found.last())
        } else {
            rest
        }
    }
}

/// The kept paths of each listing in turn.
pub open spec fn kept_in_listings(listings: Seq<Seq<Seq<char>>>, extensions: Seq<Seq<char>>) -> Seq<
    Seq<char>,
>
    decreases listings.len(),
{
    if listings.len() == 0 {
        Seq::empty()
    } else {
        kept_in_listings(listings.drop_last(), extensions) + kept_paths(listings.last(), extensions)
    }
}

/// The paths whose extension is one of `extensions`, in order.
pub fn filter_by_extensions(found: &Vec<String>, extensions: &Vec<String>) -> (r: Vec<String>)
    ensures
        r.deep_view() == kept_paths(found.deep_view(), extensions.deep_view()),
{
    let mut r: Vec<String> = Vec::new();
    let n = found.len();
    let mut i: usize = 0;
    while i < n
        invariant
            n == found.len(),
            i <= n,
            r.deep_view() == kept_paths(found.deep_view().take(i as int), extensions.deep_view()),
        decreases n - i,
    {
        let ghost before = found.deep_view().take(i as int);
        let ghost after = found.deep_view().take(i + 1);
        assert(after.drop_last() =~= before);
        assert(after.last() == found@[i as int]@);
        let extension = path_extension(found[i].as_str());
        if has_listed_extension(&extension, extensions) {
            r.push(found[i].clone());
            assert(r.deep_view() =~= kept_paths(before, extensions.deep_view()).push(
                found@[i as int]@,
            ));
        }
        i = i + 1;
    }
    assert(found.deep_view().take(n as int) =~= found.deep_view());
    r
}

/// Listing `i` of `listings` is one that a walk from `roots[i]` may give.
pub open spec fn listings_of(roots: Seq<Seq<char>>, listings: Seq<Seq<Seq<char>>>) -> bool {
    &&& listings.len() == roots.len()
    &&& forall|i: int, j: int|
        0 <= i < listings.len() && 0 <= j < listings[i].len() ==> walked_from(
            roots[i],
            #[trigger] listings[i][j],
        )
}

/// `p` lies under one of `roots`, and its extension is one of `extensions`.
pub open spec fn found_under(roots: Seq<Seq<char>>, extensions: Seq<Seq<char>>, p: Seq<char>) -> bool {
    &&& exists|i: int| 0 <= i < roots.len() && #[trigger] roots[i].is_prefix_of(p)
    &&& path_kept(p, extensions)
}

proof fn lemma_kept_paths_found(
    roots: Seq<Seq<char>>,
    i: int,
    listing: Seq<Seq<char>>,
    extensions: Seq<Seq<char>>,
)
    requires
        0 <= i < roots.len(),
        forall|j: int| 0 <= j < listing.len() ==> walked_from(roots[i], #[trigger] listing[j]),
    ensures
        forall|k: int|
            0 <= k < kept_paths(listing, extensions).len() ==> found_under(
                roots,
                extensions,
                #[trigger] kept_paths(listing, extensions)[k],
            ),
    decreases listing.len(),
{
    if listing.len() > 0 {
        let rest = listing.drop_last();
        assert forall|j: int| 0 <= j < rest.len() implies walked_from(roots[i], #[trigger] rest[j]) by {
            assert(rest[j] == listing[j]);
        }
        lemma_kept_paths_found(roots, i, rest, extensions);
        let last = listing.last();
        assert(walked_from(roots[i], listing[listing.len() - 1]));
        let kept = kept_paths(listing, extensions);
        let before = kept_paths(rest, extensions);
        assert forall|k: int| 0 <= k < kept.len() implies found_under(
            roots,
            extensions,
            #[trigger] kept[k],
        ) by {
            if path_kept(last, extensions) && k == kept.len() - 1 {
                assert(kept == before.push(last));
                assert(kept[k] == last);
                assert(roots[i].is_prefix_of(kept[k]));
            } else {
                assert(kept[k] == before[k]);
                assert(found_under(roots, extensions, before[k]));
            }
        }
    }
}

proof fn lemma_kept_in_listings_found(
    roots: Seq<Seq<char>>,
    listings: Seq<Seq<Seq<char>>>,
    extensions: Seq<Seq<char>>,
)
    requires
        listings.len() <= roots.len(),
        forall|i: int, j: int|
            0 <= i < listings.len() && 0 <= j < listings[i].len() ==> walked_from(
                roots[i],
                #[trigger] listings[i][j],
            ),
    ensures
        forall|k: int|
            0 <= k < kept_in_listings(listings, extensions).len() ==> found_under(
                roots,
                extensions,
                #[trigger] kept_in_listings(listings, extensions)[k],
            ),
    decreases listings.len(),
{
    if listings.len() > 0 {
        let n = listings.len() - 1;
        let front = listings.drop_last();
        assert forall|i: int, j: int| 0 <= i < front.len() && 0 <= j < front[i].len() implies walked_from(
            roots[i],
            #[trigger] front[i][j],
        ) by {
            assert(front[i] == listings[i]);
        }
        lemma_kept_in_listings_found(roots, front, extensions);
        assert forall|j: int| 0 <= j < listings[n].len() implies walked_from(
            roots[n],
            #[trigger] listings[n][j],
        ) by {}
        lemma_kept_paths_found(roots, n, listings[n], extensions);
        let a = kept_in_listings(front, extensions);
        let b = kept_paths(listings[n], extensions);
        assert forall|k: int| 0 <= k < (a + b).len() implies found_under(
            roots,
            extensions,
            #[trigger] (a + b)[k],
        ) by {
            if k < a.len() {
                assert((a + b)[k] == a[k]);
            } else {
                assert((a + b)[k] == b[k - a.len()]);
            }
        }
    }
}

/// Searching several roots is searching each in turn: the walks of `first`
/// then `second` are walks of the joined roots, and what they keep is what
/// the walks of `first` keep followed by what those of `second` keep.
pub proof fn law_roots_searched_in_turn(
    first: Seq<Seq<char>>,
    second: Seq<Seq<char>>,
    first_listings: Seq<Seq<Seq<char>>>,
    second_listings: Seq<Seq<Seq<char>>>,
    extensions: Seq<Seq<char>>,
)
    requires
        listings_of(first, first_listings),
        listings_of(second, second_listings),
    ensures
        listings_of(first + second, first_listings + second_listings),
        kept_in_listings(first_listings + second_listings, extensions) == kept_in_listings(
            first_listings,
            extensions,
        ) + kept_in_listings(second_listings, extensions),
    decreases second_listings.len(),
{
    let all = first_listings + second_listings;
    let roots = first + second;
    assert forall|i: int, j: int| 0 <= i < all.len() && 0 <= j < all[i].len() implies walked_from(
        roots[i],
        #[trigger] all[i][j],
    ) by {
        if i < first_listings.len() {
            assert(all[i] == first_listings[i] && roots[i] == first[i]);
        } else {
            let k = i - first_listings.len();
            assert(all[i] == second_listings[k] && roots[i] == second[k]);
            assert(walked_from(second[k], second_listings[k][j]));
        }
    }
    if second_listings.len() > 0 {
        let front = second_listings.drop_last();
        let front_roots = second.drop_last();
        assert forall|i: int, j: int| 0 <= i < front.len() && 0 <= j < front[i].len() implies walked_from(
            front_roots[i],
            #[trigger] front[i][j],
        ) by {
            assert(front[i] == second_listings[i] && front_roots[i] == second[i]);
        }
        law_roots_searched_in_turn(first, front_roots, first_listings, front, extensions);
        assert(all.drop_last() =~= first_listings + front);
        assert(all.last() == second_listings.last());
        assert(kept_in_listings(all, extensions) == kept_in_listings(first_listings + front, extensions)
            + kept_paths(second_listings.last(), extensions));
        assert(kept_in_listings(second_listings, extensions) == kept_in_listings(front, extensions)
            + kept_paths(second_listings.last(), extensions));
        assert(kept_in_listings(all, extensions) =~= kept_in_listings(first_listings, extensions)
            + kept_in_listings(second_listings, extensions));
    } else {
        assert(all =~= first_listings);
        assert(kept_in_listings(first_listings, extensions) + Seq::<Seq<char>>::empty()
            =~= kept_in_listings(first_listings, extensions));
    }
}

/// The files under `dirs` (or under `.` where none is given) whose extension
/// is one of `extensions`: the kept paths of a walk of each search root in
/// turn, so each lies under a root and has a listed extension.
pub fn find_by_extensions(dirs: &Vec<String>, extensions: &Vec<String>) -> (r: Vec<String>)
    ensures
        exists|listings: Seq<Seq<Seq<char>>>|
            listings_of(search_roots_of(dirs.deep_view()), listings) && r.deep_view()
                == kept_in_listings(listings, extensions.deep_view()),
        forall|k: int|
            0 <= k < r@.len() ==> found_under(
                search_roots_of(dirs.deep_view()),
                extensions.deep_view(),
                #[trigger] r.deep_view()[k],
            ),
{
    let roots = search_roots(dirs);
    let mut r: Vec<String> = Vec::new();
    let ghost mut listings: Seq<Seq<Seq<char>>> = Seq::empty();
    let n = roots.len();
    let mut i: usize = 0;
    while i < n
        invariant
            n == roots.len(),
            roots.deep_view() == search_roots_of(dirs.deep_view()),
            i <= n,
            listings.len() == i,
            forall|a: int, b: int|
                0 <= a < listings.len() && 0 <= b < listings[a].len() ==> walked_from(
                    roots.deep_view()[a],
                    #[trigger] listings[a][b],
                ),
            r.deep_view() == kept_in_listings(listings, extensions.deep_view()),
        decreases n - i,
    {
        let found = walk_tree(roots[i].as_str());
        let mut kept = filter_by_extensions(&found, extensions);
        let ghost before = r.deep_view();
        r.append(&mut kept);
        proof {
            let next = listings.push(found.deep_view());
            assert(next.drop_last() =~= listings);
            assert(roots.deep_view()[i as int] == roots@[i as int]@);
            assert forall|a: int, b: int| 0 <= a < next.len() && 0 <= b < next[a].len() implies walked_from(
                roots.deep_view()[a],
                #[trigger] next[a][b],
            ) by {
                if a < listings.len() {
                    assert(next[a] == listings[a]);
                } else {
                    assert(next[a][b] == found@[b]@);
                }
            }
            assert(r.deep_view() =~= before + kept_paths(found.deep_view(), extensions.deep_view()));
            listings = next;
        }
        i = i + 1;
    }
    proof {
        lemma_kept_in_listings_found(roots.deep_view(), listings, extensions.deep_view());
        assert(listings_of(roots.deep_view(), listings));
    }
    r
}

/// `paths` are what the watch list and the extensions resolve to: where
/// extensions are given, the files with those extensions found by walking
/// each entry of the watch list in turn (`.` where it is empty), each under
/// its entry and with a listed extension; else the watch list itself.
pub open spec fn resolved_from(
    watch: Seq<Seq<char>>,
    extensions: Option<Seq<Seq<char>>>,
    paths: Seq<Seq<char>>,
) -> bool {
    match extensions {
        Some(exts) if exts.len() > 0 => {
            &&& exists|listings: Seq<Seq<Seq<char>>>|
                listings_of(search_roots_of(watch), listings) && paths == kept_in_listings(
                    listings,
                    exts,
                )
            &&& forall|k: int|
                0 <= k < paths.len() ==> found_under(search_roots_of(watch), exts, #[trigger] paths[k])
        },
        _ => paths == watch,
    }
}

/// The paths to watch: where extensions are given, the files found by them
/// under the watch list; else the watch list itself.
pub fn resolve_paths(watch: Vec<String>, extensions: Option<Vec<String>>) -> (r: Vec<String>)
    ensures
        resolved_from(watch.deep_view(), extensions.deep_view(), r.deep_view()),
{
    match extensions {
        Some(exts) => {
            if exts.len() > 0 {
                find_by_extensions(&watch, &exts)
            } else {
                watch
            }
        },
        None => watch,
    }
}

} // verus!
