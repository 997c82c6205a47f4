//! What holds of bundles, pages and names as a whole.
use crate::content::bundle::{
    asked_for, bundle_entry_paths, bundle_paths, bundle_strip_prefix, classify_entry, content_at,
    content_view, contents_of, contents_view, entry_path, entry_paths, files_view, fill_plan,
    filling, is_dots, is_dotted, is_filled, labels, list_upload, listing_of, listing_view,
    plan_bundle, plan_of, shared_root, some_part, step_view, taken, unpack_bundle, unwrapped,
    verdict, walk, write_paths, writes_view, BundleFiles, BundlePlan, EntryHeader, EntryVerdict,
    Listed, Verdict,
};
use crate::content::slug::{
    asset_path_stays_inside, is_asset_char, is_asset_path, is_asset_segment, is_segment,
    is_segment_char, lemma_char_in_piece, lemma_first_piece, valid_asset_path, valid_slug,
};
use crate::text::{lemma_split_free, lemma_split_head, lemma_split_len, replaced, split, texts};
use vstd::prelude::*;

verus! {

/// The first piece of a text that begins with a name and a separator.
proof fn lemma_under(d: Seq<char>, p: Seq<char>)
    requires
        !d.contains('/'),
    ensures
        split(d + "/"@ + p, '/')[0] == d,
        (d + "/"@).is_prefix_of(d + "/"@ + p),
        (d + "/"@ + p).contains('/'),
{
    reveal_strlit("/");
    assert("/"@ =~= seq!['/']);
    lemma_split_head(d, '/', p);
    let whole = d + "/"@ + p;
    assert(whole =~= d + seq!['/'] + p);
    assert(whole[d.len() as int] == '/');
    assert(whole.take((d.len() + 1) as int) =~= d + "/"@);
}

/// `tar -czf - build` works whatever the directory is called: where every path
/// lies below one directory, that directory is the one that is taken off.
pub proof fn any_shared_directory_is_taken_off(
    d: Seq<char>,
    q: Seq<Seq<char>>,
    paths: Vec<String>,
    r: Option<String>,
)
    requires
        !d.contains('/'),
        q.len() > 0,
        texts(paths@) == q.map_values(|p: Seq<char>| d + "/"@ + p),
        call_ensures(bundle_strip_prefix, (&paths,), r),
    ensures
        r matches Some(root) && root@ == d,
{
    lemma_shared(d, q);
}

/// The root of paths below one directory is that directory.
proof fn lemma_shared(d: Seq<char>, q: Seq<Seq<char>>)
    requires
        !d.contains('/'),
        q.len() > 0,
    ensures
        shared_root(q.map_values(|p: Seq<char>| d + "/"@ + p)) == Some(d),
{
    let all = q.map_values(|p: Seq<char>| d + "/"@ + p);
    reveal_strlit("index.html");
    assert forall|i: int| 0 <= i < all.len() implies (d + "/"@).is_prefix_of(#[trigger] all[i])
        && all[i].contains('/') by {
        lemma_under(d, q[i]);
        assert(all[i] == d + "/"@ + q[i]);
    }
    lemma_under(d, q[0]);
    assert(all[0] == d + "/"@ + q[0]);
    assert(!"index.html"@.contains('/'));
    assert(!all.contains("index.html"@));
}

/// Only a directory that every path lies below is taken off.
pub proof fn only_a_shared_directory_is_taken_off(paths: Vec<String>, r: Option<String>, i: int)
    requires
        call_ensures(bundle_strip_prefix, (&paths,), r),
        0 <= i < paths.len(),
    ensures
        r matches Some(root) ==> !root@.contains('/') && (root@ + "/"@).is_prefix_of(
            paths@[i]@,
        ),
{
    let all = texts(paths@);
    lemma_split_free(all[0], '/');
    lemma_split_len(all[0], '/');
    assert(all[i] == paths@[i]@);
}

/// What the writes of a walk are, where it met no error: the paths that were
/// taken, each without the directory around the bundle.
proof fn lemma_walk_writes(l: Seq<Result<Listed, Seq<char>>>, root: Option<Seq<char>>)
    requires
        walk(l, root).error is None,
        forall|p: Seq<char>| #[trigger] unwrapped(p, root).len() == 0 ==> !is_asset_path(p),
    ensures
        taken(l) matches Ok(paths) && write_paths(walk(l, root).writes) == paths.map_values(
            |p: Seq<char>| unwrapped(p, root),
        ),
    decreases l.len(),
{
    let f = |p: Seq<char>| unwrapped(p, root);
    let w = walk(l, root);
    if l.len() == 0 {
        assert(write_paths(w.writes) =~= Seq::<Seq<char>>::empty().map_values(f));
    } else {
        let front = walk(l.drop_last(), root);
        lemma_walk_writes(l.drop_last(), root);
        let before = taken(l.drop_last())->Ok_0;
        if let Ok(e) = l.last() {
            if let Verdict::Take(p) = verdict(e) {
                assert(is_asset_path(p));
                assert(unwrapped(p, root).len() > 0);
                assert(write_paths(w.writes) =~= write_paths(front.writes).push(f(p)));
                assert(before.push(p).map_values(f) =~= before.map_values(f).push(f(p)));
            }
        }
    }
}

/// The path of an asset is not its first directory alone.
proof fn lemma_not_root(p: Seq<char>, root: Seq<char>)
    requires
        is_asset_path(p),
        !root.contains('/'),
    ensures
        unwrapped(p, Some(root)).len() > 0,
{
    reveal_strlit("/");
    if (root + "/"@).is_prefix_of(p) && p.len() == root.len() + 1 {
        assert("/"@ =~= seq!['/']);
        assert(p.subrange(0, p.len() as int) =~= p);
        assert(p =~= root + seq!['/'] + Seq::<char>::empty());
        lemma_split_head(root, '/', Seq::empty());
        assert(split(p, '/')[1] == split(Seq::<char>::empty(), '/')[0]);
        assert(is_asset_segment(split(p, '/')[1]));
    }
}

/// The shared root, where there is one, has no slash.
proof fn lemma_root_free(paths: Seq<Seq<char>>)
    ensures
        shared_root(paths) matches Some(root) ==> !root.contains('/'),
{
    if paths.len() > 0 {
        lemma_split_free(paths[0], '/');
        lemma_split_len(paths[0], '/');
    }
}

/// What a plan writes, where it ends well: the paths that were taken, each
/// without the directory around the bundle.
proof fn lemma_plan_writes(listing: Vec<Result<EntryHeader, String>>, paths: Vec<String>, plan: BundlePlan)
    requires
        call_ensures(entry_paths, (&listing,), Ok(paths)),
        call_ensures(plan_bundle, (&listing,), plan),
        plan.outcome is Ok,
    ensures
        plan.writes.len() == paths.len(),
        forall|i: int|
            0 <= i < paths.len() ==> (#[trigger] plan.writes@[i]).path@ == unwrapped(
                texts(paths@)[i],
                shared_root(texts(paths@)),
            ),
{
    let l = listing_view(listing@);
    let p = texts(paths@);
    let root = shared_root(p);
    let w = walk(l, root);
    assert(bundle_paths(l) == Ok::<Seq<Seq<char>>, Seq<char>>(p));
    lemma_root_free(p);
    assert forall|s: Seq<char>| #[trigger] unwrapped(s, root).len() == 0 implies !is_asset_path(
        s,
    ) by {
        if is_asset_path(s) {
            if let Some(r) = root {
                lemma_not_root(s, r);
            }
        }
    }
    lemma_walk_writes(l, root);
    let all = p.map_values(|s: Seq<char>| unwrapped(s, root));
    assert(w.writes.len() == write_paths(w.writes).len());
    assert(writes_view(plan.writes@).len() == plan.writes@.len());
    assert forall|i: int| 0 <= i < paths.len() implies (#[trigger] plan.writes@[i]).path@
        == unwrapped(p[i], root) by {
        assert(writes_view(plan.writes@)[i] == (
            plan.writes@[i].entry as int,
            plan.writes@[i].path@,
        ));
        assert(write_paths(w.writes)[i] == w.writes[i].1);
        assert(all[i] == unwrapped(p[i], root));
    }
}

/// A bundle packed with the directory around it unpacks as one packed from inside
/// it: whatever the directory is called, it is taken off every path.
pub proof fn a_wrapped_bundle_unpacks_without_its_directory(
    d: Seq<char>,
    q: Seq<Seq<char>>,
    listing: Vec<Result<EntryHeader, String>>,
    paths: Vec<String>,
    plan: BundlePlan,
)
    requires
        !d.contains('/'),
        q.len() > 0,
        texts(paths@) == q.map_values(|p: Seq<char>| d + "/"@ + p),
        call_ensures(entry_paths, (&listing,), Ok(paths)),
        call_ensures(plan_bundle, (&listing,), plan),
        plan.outcome is Ok,
    ensures
        plan.writes.len() == q.len(),
        forall|i: int| 0 <= i < q.len() ==> (#[trigger] plan.writes@[i]).path@ == q[i],
{
    reveal_strlit("/");
    lemma_plan_writes(listing, paths, plan);
    lemma_shared(d, q);
    assert(texts(paths@).len() == paths@.len());
    assert forall|i: int| 0 <= i < q.len() implies (#[trigger] plan.writes@[i]).path@ == q[i] by {
        let p = texts(paths@)[i];
        assert(p == d + "/"@ + q[i]);
        lemma_under(d, q[i]);
        assert(p.skip((d.len() + 1) as int) =~= q[i]);
    }
}

/// A bundle with a file beside its directories is written as it is packed.
pub proof fn a_bundle_with_a_file_at_its_root_is_written_as_it_is(
    listing: Vec<Result<EntryHeader, String>>,
    paths: Vec<String>,
    plan: BundlePlan,
    k: int,
)
    requires
        call_ensures(entry_paths, (&listing,), Ok(paths)),
        call_ensures(plan_bundle, (&listing,), plan),
        plan.outcome is Ok,
        0 <= k < paths.len(),
        !paths@[k]@.contains('/'),
    ensures
        plan.writes.len() == paths.len(),
        forall|i: int|
            0 <= i < paths.len() ==> (#[trigger] plan.writes@[i]).path@ == paths@[i]@,
{
    reveal_strlit("/");
    let p = texts(paths@);
    lemma_plan_writes(listing, paths, plan);
    if let Some(root) = shared_root(p) {
        assert((root + "/"@).is_prefix_of(p[k]));
        assert(p[k][root.len() as int] == (root + "/"@)[root.len() as int]);
        assert(p[k].contains('/'));
    }
    assert forall|i: int| 0 <= i < paths.len() implies (#[trigger] plan.writes@[i]).path@
        == paths@[i]@ by {
        assert(p[i] == paths@[i]@);
    }
}

/// Whether a step of reading an archive is an ordinary file at a path.
pub open spec fn is_file_at(step: Result<EntryHeader, String>, path: Seq<char>) -> bool {
    step matches Ok(e) && !e.is_dir && !e.is_pax_global && !e.is_long_name && e.is_file && e.path@
        == path
}

/// A text without a character is the same with that character replaced.
proof fn lemma_nothing_replaced(s: Seq<char>, c: char, by: Seq<char>)
    requires
        !s.contains(c),
    ensures
        replaced(s, c, by) == s,
    decreases s.len(),
{
    if s.len() > 0 {
        assert(s.contains(s.last()));
        assert forall|x: char| s.drop_last().contains(x) implies s.contains(x) by {
            let i = s.drop_last().index_of(x);
            assert(s[i] == x);
        }
        lemma_nothing_replaced(s.drop_last(), c, by);
        assert(s.drop_last().push(s.last()) =~= s);
    }
}

/// A path without backslashes that does not begin with a dot is read as it is.
proof fn lemma_path_as_it_is(p: Seq<char>)
    requires
        p.len() > 0,
        p[0] != '.',
        !p.contains('\\'),
    ensures
        entry_path(p) == p,
{
    reveal_strlit("./");
    lemma_nothing_replaced(p, '\\', "/"@);
    if "./"@.is_prefix_of(p) {
        assert("./"@[0] == p[0]);
    }
}

/// The characters of an asset's path.
proof fn lemma_asset_chars(p: Seq<char>)
    requires
        is_asset_path(p),
    ensures
        p.len() > 0,
        p[0] != '.',
        p[0] != '/',
        !p.contains('\\'),
{
    asset_path_stays_inside(p);
    lemma_first_piece(p, '/');
    if p.contains('\\') {
        let k = p.index_of('\\');
        let w = lemma_char_in_piece(p, '/', k);
        assert(is_asset_segment(split(p, '/')[w.0]));
        assert(is_asset_char(split(p, '/')[w.0][w.1]));
    }
}

/// An ordinary file with a name that can be served is taken, under that name.
pub proof fn an_ordinary_file_is_taken(e: EntryHeader, r: EntryVerdict)
    requires
        !e.is_dir && !e.is_pax_global && !e.is_long_name && e.is_file,
        is_asset_path(e.path@),
        call_ensures(classify_entry, (&e,), r),
    ensures
        r matches EntryVerdict::Take(p) && p@ == e.path@,
{
    lemma_plain(e@);
}

/// The verdict on an ordinary file with a name that can be served.
proof fn lemma_plain(e: Listed)
    requires
        !e.is_dir && !e.is_pax_global && !e.is_long_name && e.is_file,
        is_asset_path(e.path),
    ensures
        verdict(e) == Verdict::Take(e.path),
{
    let p = e.path;
    reveal_strlit("..");
    reveal_strlit(".");
    lemma_asset_chars(p);
    lemma_path_as_it_is(p);
    asset_path_stays_inside(p);
}

/// Directories and the metadata of archives are passed over without a word.
pub proof fn directories_are_passed_over(e: EntryHeader, r: EntryVerdict)
    requires
        e.is_dir || e.is_pax_global || e.is_long_name,
        call_ensures(classify_entry, (&e,), r),
    ensures
        r is Ignore,
{
}

/// Links and special files are left out and reported, wherever they are.
pub proof fn links_are_left_out(e: EntryHeader, r: EntryVerdict)
    requires
        !e.is_dir && !e.is_pax_global && !e.is_long_name && !e.is_file,
        call_ensures(classify_entry, (&e,), r),
    ensures
        r matches EntryVerdict::Skip(why) && why@ == "symlinks and special files"@,
{
}

/// A file that climbs or starts at the root refuses the bundle; so does every
/// character that cannot be served. A file whose path has a hidden part is left
/// out and reported. None of them is ever taken.
pub proof fn unsafe_paths_are_refused_and_dotfiles_left_out(
    e: EntryHeader,
    r: EntryVerdict,
    k: int,
)
    requires
        !e.is_dir && !e.is_pax_global && !e.is_long_name && e.is_file,
        e.path@.len() > 0,
        e.path@[0] != '.',
        !e.path@.contains('\\'),
        0 <= k < split(e.path@, '/').len(),
        call_ensures(classify_entry, (&e,), r),
    ensures
        e.path@[0] == '/' || split(e.path@, '/')[k] == ".."@ || split(e.path@, '/')[k] == "."@
            ==> r is Reject,
        r is Take ==> split(e.path@, '/')[k].len() > 0 && split(e.path@, '/')[k][0] != '.',
        r is Skip ==> r->Skip_0@ == "dotfiles"@,
        !(r is Reject) && split(e.path@, '/')[k].len() > 0 && split(e.path@, '/')[k][0] == '.'
            ==> r is Skip,
{
    let p = e.path@;
    lemma_path_as_it_is(p);
    let dots = |s: Seq<char>| is_dots(s);
    let dotted = |s: Seq<char>| is_dotted(s);
    let piece = split(p, '/')[k];
    if piece == ".."@ || piece == "."@ {
        assert(dots(piece));
        assert(some_part(p, dots));
    }
    if piece.len() > 0 && piece[0] == '.' {
        assert(dotted(piece));
        assert(some_part(p, dotted));
    }
    if r is Take {
        assert(is_asset_path(p));
        assert(is_asset_segment(piece));
    }
}

/// What the files of an archive claim to hold, all together.
pub open spec fn claimed_sizes(listing: Seq<Result<EntryHeader, String>>) -> int
    decreases listing.len(),
{
    if listing.len() == 0 {
        0
    } else {
        claimed_sizes(listing.drop_last()) + match listing.last() {
            Ok(e) => match e.size {
                Some(n) => n as int,
                None => 0,
            },
            Err(_) => 0,
        }
    }
}

/// Ordinary files are all taken.
proof fn lemma_files_taken(listing: Seq<Result<EntryHeader, String>>, p: Seq<Seq<char>>)
    requires
        listing.len() == p.len(),
        forall|i: int| 0 <= i < p.len() ==> is_file_at(#[trigger] listing[i], p[i]),
        forall|i: int| 0 <= i < p.len() ==> is_asset_path(#[trigger] p[i]),
    ensures
        taken(listing_view(listing)) == Ok::<Seq<Seq<char>>, Seq<char>>(p),
    decreases p.len(),
{
    let l = listing_view(listing);
    if p.len() > 0 {
        let n = p.len() - 1;
        assert(l.drop_last() =~= listing_view(listing.drop_last()));
        assert forall|i: int| 0 <= i < p.drop_last().len() implies is_file_at(
            #[trigger] listing.drop_last()[i],
            p.drop_last()[i],
        ) && is_asset_path(p.drop_last()[i]) by {
            assert(is_file_at(listing[i], p[i]));
            assert(is_asset_path(p[i]));
        }
        lemma_files_taken(listing.drop_last(), p.drop_last());
        assert(is_file_at(listing[n], p[n]));
        assert(l.last() == step_view(listing[n]));
        lemma_plain(listing[n]->Ok_0@);
        assert(p.drop_last().push(p.last()) =~= p);
    } else {
        assert(p =~= Seq::empty());
    }
}

/// Ordinary files that fit are all written.
proof fn lemma_files_walked(
    listing: Seq<Result<EntryHeader, String>>,
    p: Seq<Seq<char>>,
    root: Option<Seq<char>>,
)
    requires
        listing.len() == p.len(),
        forall|i: int| 0 <= i < p.len() ==> is_file_at(#[trigger] listing[i], p[i]),
        forall|i: int| 0 <= i < p.len() ==> is_asset_path(#[trigger] p[i]),
        claimed_sizes(listing) <= 134_217_728,
        root matches Some(r) ==> !r.contains('/'),
    ensures
        walk(listing_view(listing), root).error is None,
        walk(listing_view(listing), root).skipped.len() == 0,
        walk(listing_view(listing), root).total == claimed_sizes(listing),
        claimed_sizes(listing) >= 0,
        walk(listing_view(listing), root).writes == Seq::new(
            p.len(),
            |i: int| (i, unwrapped(p[i], root)),
        ),
    decreases p.len(),
{
    let l = listing_view(listing);
    let writes = Seq::new(p.len(), |i: int| (i, unwrapped(p[i], root)));
    if p.len() > 0 {
        let n = p.len() - 1;
        let front = listing.drop_last();
        assert(l.drop_last() =~= listing_view(front));
        assert forall|i: int| 0 <= i < p.drop_last().len() implies is_file_at(
            #[trigger] front[i],
            p.drop_last()[i],
        ) && is_asset_path(p.drop_last()[i]) by {
            assert(is_file_at(listing[i], p[i]));
            assert(is_asset_path(p[i]));
        }
        lemma_sizes(front);
        lemma_files_walked(front, p.drop_last(), root);
        assert(is_file_at(listing[n], p[n]));
        assert(l.last() == step_view(listing[n]));
        lemma_plain(listing[n]->Ok_0@);
        assert(is_asset_path(p[n]));
        if let Some(r) = root {
            lemma_not_root(p[n], r);
        }
        let before = walk(l.drop_last(), root);
        assert(before.writes.push((n, unwrapped(p[n], root))) =~= writes);
    } else {
        assert(walk(l, root).writes =~= writes);
    }
}

/// Sizes do not add up to less than nothing.
proof fn lemma_sizes(listing: Seq<Result<EntryHeader, String>>)
    ensures
        claimed_sizes(listing) >= 0,
    decreases listing.len(),
{
    if listing.len() > 0 {
        lemma_sizes(listing.drop_last());
    }
}

/// A bundle of ordinary files within the limits is written whole: every file,
/// in order, at the place it was packed at, less the directory around the bundle
/// where there is one; nothing is skipped. Two thousand files and 128 MB are
/// within the limits.
pub proof fn a_bundle_within_the_limits_is_written_whole(
    p: Seq<Seq<char>>,
    root: Option<Seq<char>>,
    listing: Vec<Result<EntryHeader, String>>,
    plan: BundlePlan,
)
    requires
        0 < p.len() <= 2_000,
        listing.len() == p.len(),
        forall|i: int| 0 <= i < p.len() ==> is_file_at(#[trigger] listing@[i], p[i]),
        forall|i: int| 0 <= i < p.len() ==> is_asset_path(#[trigger] p[i]),
        claimed_sizes(listing@) <= 134_217_728,
        match root {
            Some(d) => !d.contains('/') && forall|i: int|
                0 <= i < p.len() ==> (d + "/"@).is_prefix_of(#[trigger] p[i]),
            None => exists|i: int| 0 <= i < p.len() && !(#[trigger] p[i]).contains('/'),
        },
        call_ensures(plan_bundle, (&listing,), plan),
    ensures
        plan.writes.len() == p.len(),
        forall|i: int|
            0 <= i < p.len() ==> (#[trigger] plan.writes@[i]).entry == i && match root {
                Some(d) => p[i] == d + "/"@ + plan.writes@[i].path@,
                None => p[i] == plan.writes@[i].path@,
            },
        plan.outcome matches Ok(u) && u.skipped.len() == 0 && u.files.len() == p.len(),
{
    reveal_strlit("/");
    let l = listing_view(listing@);
    lemma_files_taken(listing@, p);
    match root {
        Some(d) => {
            let q = p.map_values(|s: Seq<char>| s.skip((d.len() + 1) as int));
            assert forall|i: int| 0 <= i < p.len() implies #[trigger] p[i] == d + "/"@ + q[i] by {
                assert((d + "/"@).is_prefix_of(p[i]));
                assert(p[i] =~= d + "/"@ + q[i]);
            }
            lemma_shared(d, q);
            assert(p =~= q.map_values(|s: Seq<char>| d + "/"@ + s));
        },
        None => {
            let k = choose|i: int| 0 <= i < p.len() && !(#[trigger] p[i]).contains('/');
            if let Some(r) = shared_root(p) {
                assert((r + "/"@).is_prefix_of(p[k]));
                assert(p[k][r.len() as int] == (r + "/"@)[r.len() as int]);
            }
        },
    }
    assert(shared_root(p) == root);
    lemma_files_walked(listing@, p, root);
    let w = walk(l, root);
    assert(writes_view(plan.writes@).len() == plan.writes@.len());
    assert forall|i: int| 0 <= i < p.len() implies (#[trigger] plan.writes@[i]).entry == i
        && match root {
        Some(d) => p[i] == d + "/"@ + plan.writes@[i].path@,
        None => p[i] == plan.writes@[i].path@,
    } by {
        assert(writes_view(plan.writes@)[i] == (
            plan.writes@[i].entry as int,
            plan.writes@[i].path@,
        ));
        if let Some(d) = root {
            assert((d + "/"@).is_prefix_of(p[i]));
            assert(p[i] =~= d + "/"@ + p[i].skip((d.len() + 1) as int));
        }
    }
    broadcast use vstd::seq_lib::group_to_multiset_ensures;

    let u = plan.outcome->Ok_0;
    assert(labels_len(u.skipped@));
    assert(texts(u.files@).len() == texts(u.files@).to_multiset().len());
    assert(write_paths(w.writes).len() == write_paths(w.writes).to_multiset().len());
}

/// As many labels as there are fixed strings.
spec fn labels_len(v: Seq<&'static str>) -> bool {
    crate::content::bundle::labels(v).len() == v.len()
}

/// One file more than two thousand, or one byte more than 128 MB, is too much: the
/// bundle is refused.
pub proof fn a_bundle_beyond_the_limits_is_refused(
    p: Seq<Seq<char>>,
    listing: Vec<Result<EntryHeader, String>>,
    plan: BundlePlan,
)
    requires
        listing.len() == p.len(),
        forall|i: int| 0 <= i < p.len() ==> is_file_at(#[trigger] listing@[i], p[i]),
        forall|i: int| 0 <= i < p.len() ==> is_asset_path(#[trigger] p[i]),
        p.len() > 2_000 || claimed_sizes(listing@) > 134_217_728,
        call_ensures(plan_bundle, (&listing,), plan),
    ensures
        plan.outcome is Err,
        p.len() > 2_000 ==> plan.writes.len() == 0,
{
    lemma_files_taken(listing@, p);
    if p.len() <= 2_000 && p.len() > 0 {
        lemma_root_free(p);
        lemma_too_large(listing@, p, shared_root(p));
    }
}

/// Files that claim too much end a walk.
proof fn lemma_too_large(
    listing: Seq<Result<EntryHeader, String>>,
    p: Seq<Seq<char>>,
    root: Option<Seq<char>>,
)
    requires
        listing.len() == p.len(),
        forall|i: int| 0 <= i < p.len() ==> is_file_at(#[trigger] listing[i], p[i]),
        forall|i: int| 0 <= i < p.len() ==> is_asset_path(#[trigger] p[i]),
        claimed_sizes(listing) > 134_217_728,
        root matches Some(r) ==> !r.contains('/'),
    ensures
        walk(listing_view(listing), root).error is Some,
    decreases p.len(),
{
    let l = listing_view(listing);
    if p.len() > 0 {
        let n = p.len() - 1;
        let front = listing.drop_last();
        assert(l.drop_last() =~= listing_view(front));
        assert forall|i: int| 0 <= i < p.drop_last().len() implies is_file_at(
            #[trigger] front[i],
            p.drop_last()[i],
        ) && is_asset_path(p.drop_last()[i]) by {
            assert(is_file_at(listing[i], p[i]));
            assert(is_asset_path(p[i]));
        }
        assert(is_file_at(listing[n], p[n]));
        assert(l.last() == step_view(listing[n]));
        lemma_plain(listing[n]->Ok_0@);
        assert(is_asset_path(p[n]));
        if let Some(r) = root {
            lemma_not_root(p[n], r);
        }
        if claimed_sizes(front) > 134_217_728 {
            lemma_too_large(front, p.drop_last(), root);
        } else {
            lemma_files_walked(front, p.drop_last(), root);
        }
    }
}

/// Where a piece stands in its text.
proof fn lemma_piece_at(s: Seq<char>, c: char, i: int) -> (a: int)
    requires
        0 <= i < split(s, c).len(),
    ensures
        0 <= a <= s.len(),
        a + split(s, c)[i].len() <= s.len(),
        split(s, c)[i] == s.subrange(a, a + split(s, c)[i].len()),
        a == 0 || s[a - 1] == c,
        i == split(s, c).len() - 1 ==> a + split(s, c)[i].len() == s.len(),
        i < split(s, c).len() - 1 ==> a + split(s, c)[i].len() < s.len() && s[a + split(
            s,
            c,
        )[i].len()] == c,
    decreases s.len(),
{
    if s.len() == 0 {
        assert(split(s, c)[0] =~= s.subrange(0, 0));
        0
    } else {
        let front = s.drop_last();
        let before = split(front, c);
        lemma_split_len(front, c);
        let last = before.len() - 1;
        if s.last() == c && i == before.len() {
            assert(split(s, c)[i] =~= s.subrange(s.len() as int, s.len() as int));
            s.len() as int
        } else {
            let a = lemma_piece_at(front, c, i);
            let n = before[i].len();
            assert(front.subrange(a, a + n) =~= s.subrange(a, a + n));
            if s.last() != c && i == last {
                assert(split(s, c)[i] =~= s.subrange(a, a + n + 1));
            } else {
                assert(split(s, c)[i] == before[i]);
            }
            a
        }
    }
}

/// A separator at either end, or two in a row, leaves an empty piece; and what
/// stands behind a separator begins a piece.
proof fn lemma_piece_behind(s: Seq<char>, c: char, k: int) -> (i: int)
    requires
        0 <= k < s.len(),
        s[k] == c,
    ensures
        0 <= i < split(s, c).len(),
        k + 1 == s.len() || s[k + 1] == c ==> split(s, c)[i].len() == 0,
        k + 1 < s.len() && s[k + 1] != c ==> split(s, c)[i].len() > 0 && split(s, c)[i][0] == s[k
            + 1],
        k == 0 ==> split(s, c)[0].len() == 0,
{
    let a = s.take(k);
    let b = s.skip(k + 1);
    assert(s =~= a + seq![c] + b);
    crate::text::lemma_split_both(a, c, b);
    lemma_split_len(a, c);
    lemma_split_len(b, c);
    let i = split(a, c).len() as int;
    assert(split(s, c)[i] == split(b, c)[0]);
    if b.len() > 0 {
        lemma_first_piece(b, c);
    }
    if k == 0 {
        assert(a =~= Seq::<char>::empty());
        assert(split(s, c)[0] == split(a, c)[0]);
    }
    i
}

/// Whether a character is a letter or a digit of ASCII.
pub open spec fn is_plain_char(c: char) -> bool {
    ('a' <= c <= 'z') || ('A' <= c <= 'Z') || ('0' <= c <= '9')
}

/// Whether slashes only stand between other characters.
pub open spec fn slashes_part(s: Seq<char>) -> bool {
    &&& s.len() > 0
    &&& s[0] != '/'
    &&& s.last() != '/'
    &&& forall|k: int| 0 <= k < s.len() - 1 && #[trigger] s[k] == '/' ==> s[k + 1] != '/'
}

/// What a slug is, character by character: letters, digits, hyphens and
/// underscores, with single slashes between them and at neither end.
pub proof fn slugs_by_their_characters(s: &str, r: bool)
    requires
        call_ensures(valid_slug, (s,), r),
    ensures
        r == (slashes_part(s@) && forall|k: int|
            0 <= k < s@.len() ==> is_plain_char(#[trigger] s@[k]) || s@[k] == '-' || s@[k] == '_'
                || s@[k] == '/'),
{
    let t = s@;
    if r {
        if t[0] == '/' {
            let i = lemma_piece_behind(t, '/', 0);
            assert(is_segment(split(t, '/')[0]));
        }
        if t.last() == '/' {
            let i = lemma_piece_behind(t, '/', t.len() - 1);
            assert(is_segment(split(t, '/')[i]));
        }
        assert forall|k: int| 0 <= k < t.len() - 1 && #[trigger] t[k] == '/' implies t[k + 1]
            != '/' by {
            let i = lemma_piece_behind(t, '/', k);
            assert(is_segment(split(t, '/')[i]));
        }
        assert forall|k: int| 0 <= k < t.len() implies is_plain_char(#[trigger] t[k]) || t[k] == '-'
            || t[k] == '_' || t[k] == '/' by {
            if t[k] != '/' {
                let w = lemma_char_in_piece(t, '/', k);
                assert(is_segment(split(t, '/')[w.0]));
                assert(is_segment_char(split(t, '/')[w.0][w.1]));
            }
        }
    }
    if slashes_part(t) && (forall|k: int|
        0 <= k < t.len() ==> is_plain_char(#[trigger] t[k]) || t[k] == '-' || t[k] == '_' || t[k]
            == '/') {
        assert forall|i: int| 0 <= i < split(t, '/').len() implies is_segment(
            #[trigger] split(t, '/')[i],
        ) by {
            let piece = split(t, '/')[i];
            let a = lemma_piece_at(t, '/', i);
            lemma_split_free(t, '/');
            lemma_piece_not_empty(t, a, piece);
            assert forall|j: int| 0 <= j < piece.len() implies is_segment_char(
                #[trigger] piece[j],
            ) by {
                assert(piece[j] == t[a + j]);
                assert(piece.contains(piece[j]));
            }
        }
    }
}

/// Where slashes only stand between other characters, no piece is empty.
proof fn lemma_piece_not_empty(t: Seq<char>, a: int, piece: Seq<char>)
    requires
        slashes_part(t),
        0 <= a,
        a + piece.len() <= t.len(),
        a == 0 || t[a - 1] == '/',
        a + piece.len() == t.len() || t[a + piece.len()] == '/',
    ensures
        piece.len() > 0,
{
    if piece.len() == 0 {
        if a == 0 {
            assert(t[0] != '/');
        } else if a < t.len() {
            assert(t[a - 1] == '/' ==> t[a - 1 + 1] != '/');
        } else {
            assert(t.last() == t[a - 1]);
        }
    }
}

/// What the path of an asset is, character by character: that of a slug with dots
/// besides, but none at the start of a name.
pub proof fn asset_paths_by_their_characters(s: &str, r: bool)
    requires
        call_ensures(valid_asset_path, (s,), r),
    ensures
        r == (slashes_part(s@) && s@[0] != '.' && (forall|k: int|
            0 <= k < s@.len() ==> is_plain_char(#[trigger] s@[k]) || s@[k] == '-' || s@[k] == '_'
                || s@[k] == '.' || s@[k] == '/') && (forall|k: int|
            0 <= k < s@.len() - 1 && #[trigger] s@[k] == '/' ==> s@[k + 1] != '.')),
{
    let t = s@;
    if r {
        if t[0] == '/' {
            let i = lemma_piece_behind(t, '/', 0);
            assert(is_asset_segment(split(t, '/')[0]));
        }
        if t.last() == '/' {
            let i = lemma_piece_behind(t, '/', t.len() - 1);
            assert(is_asset_segment(split(t, '/')[i]));
        }
        lemma_asset_chars(t);
        assert forall|k: int| 0 <= k < t.len() - 1 && #[trigger] t[k] == '/' implies t[k + 1]
            != '/' && t[k + 1] != '.' by {
            let i = lemma_piece_behind(t, '/', k);
            assert(is_asset_segment(split(t, '/')[i]));
        }
        assert forall|k: int| 0 <= k < t.len() implies is_plain_char(#[trigger] t[k]) || t[k] == '-'
            || t[k] == '_' || t[k] == '.' || t[k] == '/' by {
            if t[k] != '/' {
                let w = lemma_char_in_piece(t, '/', k);
                assert(is_asset_segment(split(t, '/')[w.0]));
                assert(is_asset_char(split(t, '/')[w.0][w.1]));
            }
        }
    }
    if slashes_part(t) && t[0] != '.' && (forall|k: int|
        0 <= k < t.len() ==> is_plain_char(#[trigger] t[k]) || t[k] == '-' || t[k] == '_' || t[k]
            == '.' || t[k] == '/') && (forall|k: int|
        0 <= k < t.len() - 1 && #[trigger] t[k] == '/' ==> t[k + 1] != '.') {
        assert forall|i: int| 0 <= i < split(t, '/').len() implies is_asset_segment(
            #[trigger] split(t, '/')[i],
        ) by {
            let piece = split(t, '/')[i];
            let a = lemma_piece_at(t, '/', i);
            lemma_split_free(t, '/');
            lemma_piece_not_empty(t, a, piece);
            assert(piece[0] == t[a]);
            if a > 0 {
                assert(t[a - 1] == '/' ==> t[a - 1 + 1] != '.');
            }
            assert forall|j: int| 0 <= j < piece.len() implies is_asset_char(
                #[trigger] piece[j],
            ) by {
                assert(piece[j] == t[a + j]);
                assert(piece.contains(piece[j]));
            }
        }
    }
}

/// The path of an asset does not end in a slash.
pub proof fn lemma_asset_end(p: Seq<char>)
    requires
        is_asset_path(p),
    ensures
        p.len() > 0,
        p.last() != '/',
{
    if p.last() == '/' {
        let i = lemma_piece_behind(p, '/', p.len() - 1);
        assert(is_asset_segment(split(p, '/')[i]));
    }
}

/// What is planned is written with what the archive holds, file for file and in order;
/// what cannot be read stops it and is reported.
pub proof fn what_is_planned_is_written(
    plan: BundlePlan,
    contents: Vec<Result<Vec<u8>, String>>,
    i: int,
    r: BundleFiles,
)
    requires
        call_ensures(fill_plan, (plan, &contents), r),
        0 <= i < plan.writes.len(),
    ensures
        r.files.len() <= plan.writes.len(),
        i < r.files.len() ==> r.files@[i].0@ == plan.writes@[i].path@ && plan.writes@[i].entry
            < contents.len() && (contents@[plan.writes@[i].entry as int] matches Ok(bytes)
            && bytes@ == r.files@[i].1@),
        r.files.len() == plan.writes.len() ==> r.outcome == plan.outcome,
        r.files.len() < plan.writes.len() ==> r.outcome is Err,
        (forall|k: int|
            0 <= k < plan.writes.len() ==> (#[trigger] plan.writes@[k]).entry < contents.len()
                && contents@[plan.writes@[k].entry as int] is Ok) ==> r.files.len()
            == plan.writes.len(),
{
    let writes = writes_view(plan.writes@);
    let c = contents_view(contents@);
    assert(writes.len() == plan.writes.len());
    assert(files_view(r.files@).len() == r.files.len());
    lemma_filled(writes, c);
    assert(writes[i] == (plan.writes@[i].entry as int, plan.writes@[i].path@));
    if i < r.files.len() {
        let f = files_view(r.files@)[i];
        assert(f == (r.files@[i].0@, r.files@[i].1@));
        assert(f == filling(writes, c).files[i]);
        let e = plan.writes@[i].entry as int;
        assert(content_at(c, e) == Ok::<Seq<u8>, Seq<char>>(f.1));
        assert(c[e] == content_view(contents@[e]));
    }
    if forall|k: int|
        0 <= k < plan.writes.len() ==> (#[trigger] plan.writes@[k]).entry < contents.len()
            && contents@[plan.writes@[k].entry as int] is Ok {
        assert forall|k: int| 0 <= k < writes.len() implies content_at(
            c,
            (#[trigger] writes[k]).0,
        ) is Ok by {
            assert(plan.writes@[k].entry < contents.len());
            assert(c[writes[k].0] == content_view(contents@[writes[k].0]));
        }
        lemma_filled_whole(writes, c);
    }
}

proof fn lemma_filled(
    writes: Seq<(int, Seq<char>)>,
    contents: Seq<Result<Seq<u8>, Seq<char>>>,
)
    ensures
        filling(writes, contents).files.len() <= writes.len(),
        filling(writes, contents).error is None == (filling(writes, contents).files.len()
            == writes.len()),
        forall|i: int|
            0 <= i < filling(writes, contents).files.len() ==> (#[trigger] filling(
                writes,
                contents,
            ).files[i]).0 == writes[i].1 && content_at(contents, writes[i].0) == Ok::<
                Seq<u8>,
                Seq<char>,
            >(filling(writes, contents).files[i].1),
    decreases writes.len(),
{
    if writes.len() > 0 {
        let less = writes.drop_last();
        lemma_filled(less, contents);
        assert(forall|i: int| 0 <= i < less.len() ==> less[i] == writes[i]);
    }
}

proof fn lemma_filled_whole(
    writes: Seq<(int, Seq<char>)>,
    contents: Seq<Result<Seq<u8>, Seq<char>>>,
)
    requires
        forall|k: int| 0 <= k < writes.len() ==> content_at(contents, (#[trigger] writes[k]).0) is Ok,
    ensures
        filling(writes, contents).error is None,
    decreases writes.len(),
{
    if writes.len() > 0 {
        let less = writes.drop_last();
        assert(forall|i: int| 0 <= i < less.len() ==> less[i] == writes[i]);
        assert(content_at(contents, writes[writes.len() - 1].0) is Ok);
        lemma_filled_whole(less, contents);
    }
}

/// The paths of an uploaded bundle are those of its listing.
pub proof fn the_paths_are_those_of_the_listing(
    body: &[u8],
    listing: Vec<Result<EntryHeader, String>>,
    read: Result<Vec<String>, String>,
    r: Result<Vec<String>, String>,
)
    requires
        call_ensures(list_upload, (body,), listing),
        call_ensures(entry_paths, (&listing,), read),
        call_ensures(bundle_entry_paths, (body,), r),
    ensures
        r is Ok == read is Ok,
        r is Ok ==> texts(r->Ok_0@) == texts(read->Ok_0@),
        r is Err ==> r->Err_0@ == read->Err_0@,
{
}

/// An uploaded bundle is unpacked as it is planned from its listing: the same paths, in
/// the same order.
pub proof fn a_bundle_is_unpacked_as_planned(
    body: &[u8],
    listing: Vec<Result<EntryHeader, String>>,
    plan: BundlePlan,
    i: int,
    r: BundleFiles,
)
    requires
        call_ensures(list_upload, (body,), listing),
        call_ensures(plan_bundle, (&listing,), plan),
        call_ensures(unpack_bundle, (body,), r),
    ensures
        r.files.len() <= plan.writes.len(),
        0 <= i < r.files.len() ==> r.files@[i].0@ == plan.writes@[i].path@,
        plan.outcome is Err ==> r.outcome is Err,
        r.files.len() < plan.writes.len() ==> r.outcome is Err,
{
    let l = listing_of(body@);
    let own = choose|own: BundlePlan| #[trigger]
        plan_of(l, own) && is_filled(
            own,
            contents_of(body@, asked_for(writes_view(own.writes@), l.len())),
            r,
        );
    let c = contents_of(body@, asked_for(writes_view(own.writes@), l.len()));
    let writes = writes_view(own.writes@);
    assert(writes == writes_view(plan.writes@));
    assert(writes.len() == plan.writes.len());
    assert(files_view(r.files@).len() == r.files.len());
    lemma_filled(writes, c);
    if 0 <= i < r.files.len() {
        let f = files_view(r.files@)[i];
        assert(f == (r.files@[i].0@, r.files@[i].1@));
        assert(f == filling(writes, c).files[i]);
        assert(writes_view(plan.writes@)[i] == (
            plan.writes@[i].entry as int,
            plan.writes@[i].path@,
        ));
    }
}

/// A verdict on one entry is that on another.
pub open spec fn same_verdict(a: EntryVerdict, b: EntryVerdict) -> bool {
    match (a, b) {
        (EntryVerdict::Take(p), EntryVerdict::Take(q)) => p@ == q@,
        (EntryVerdict::Skip(p), EntryVerdict::Skip(q)) => p@ == q@,
        (EntryVerdict::Reject(p), EntryVerdict::Reject(q)) => p@ == q@,
        (EntryVerdict::Ignore, EntryVerdict::Ignore) => true,
        _ => false,
    }
}

/// A backslash separates the parts of a path like a slash, and a path that begins with
/// the directory it is in means the same as without it.
pub proof fn one_path_in_other_words(
    e: EntryHeader,
    f: EntryHeader,
    g: EntryHeader,
    r: EntryVerdict,
    s: EntryVerdict,
    t: EntryVerdict,
)
    requires
        e.is_dir == f.is_dir && e.is_pax_global == f.is_pax_global && e.is_long_name
            == f.is_long_name && e.is_file == f.is_file,
        e.is_dir == g.is_dir && e.is_pax_global == g.is_pax_global && e.is_long_name
            == g.is_long_name && e.is_file == g.is_file,
        e.path@.len() == f.path@.len(),
        forall|i: int|
            0 <= i < e.path@.len() ==> #[trigger] f.path@[i] == if e.path@[i] == '\\' {
                '/'
            } else {
                e.path@[i]
            },
        g.path@ == "./"@ + f.path@,
        call_ensures(classify_entry, (&e,), r),
        call_ensures(classify_entry, (&f,), s),
        call_ensures(classify_entry, (&g,), t),
    ensures
        same_verdict(r, s),
        same_verdict(s, t),
{
    reveal_strlit("/");
    reveal_strlit("./");
    lemma_replaced_one(e.path@, f.path@);
    lemma_nothing_replaced(f.path@, '\\', "/"@);
    lemma_nothing_replaced(g.path@, '\\', "/"@);
    assert(g.path@.subrange(0, 2) =~= "./"@);
    assert(g.path@.skip(2) =~= f.path@);
    assert(entry_path(g.path@) == entry_path(f.path@));
}

/// A character replaced by one other.
proof fn lemma_replaced_one(s: Seq<char>, t: Seq<char>)
    requires
        s.len() == t.len(),
        forall|i: int|
            0 <= i < s.len() ==> #[trigger] t[i] == if s[i] == '\\' {
                '/'
            } else {
                s[i]
            },
    ensures
        replaced(s, '\\', "/"@) == t,
    decreases s.len(),
{
    reveal_strlit("/");
    if s.len() > 0 {
        lemma_replaced_one(s.drop_last(), t.drop_last());
        assert(t[s.len() - 1] == t.last());
        assert(replaced(s, '\\', "/"@) =~= t);
    } else {
        assert(s =~= t);
    }
}

/// Each reason for leaving something out is reported once, however many files it
/// applies to.
pub proof fn what_is_left_out_is_reported_once(
    listing: Vec<Result<EntryHeader, String>>,
    plan: BundlePlan,
    i: int,
    j: int,
)
    requires
        call_ensures(plan_bundle, (&listing,), plan),
        plan.outcome is Ok,
        0 <= i < j < (plan.outcome->Ok_0).skipped.len(),
    ensures
        (plan.outcome->Ok_0).skipped@[i]@ != (plan.outcome->Ok_0).skipped@[j]@,
{
    let l = listing_view(listing@);
    let root = shared_root(bundle_paths(l)->Ok_0);
    lemma_skipped_once(l, root);
    let u = plan.outcome->Ok_0;
    let all = labels(u.skipped@);
    assert(all.len() == u.skipped.len());
    assert(all[i] == u.skipped@[i]@);
    assert(all[j] == u.skipped@[j]@);
}

proof fn lemma_skipped_once(l: Seq<Result<Listed, Seq<char>>>, root: Option<Seq<char>>)
    ensures
        walk(l, root).skipped.no_duplicates(),
    decreases l.len(),
{
    if l.len() > 0 {
        lemma_skipped_once(l.drop_last(), root);
        let w = walk(l.drop_last(), root);
        assert(walk(l, root).skipped == w.skipped || exists|why: Seq<char>|
            walk(l, root).skipped == w.skipped.push(why) && !w.skipped.contains(why));
    }
}

/// Whatever is left out of a bundle is reported, and nothing else is.
pub proof fn what_is_left_out_is_reported(
    listing: Vec<Result<EntryHeader, String>>,
    plan: BundlePlan,
    k: int,
    e: EntryHeader,
    r: EntryVerdict,
)
    requires
        call_ensures(plan_bundle, (&listing,), plan),
        plan.outcome is Ok,
        0 <= k < listing.len(),
        listing@[k] == Ok::<EntryHeader, String>(e),
        call_ensures(classify_entry, (&e,), r),
    ensures
        r matches EntryVerdict::Skip(why) ==> labels((plan.outcome->Ok_0).skipped@).contains(why@),
        (plan.outcome->Ok_0).skipped.len() > 0 ==> exists|i: int|
            0 <= i < listing.len() && (#[trigger] listing@[i] matches Ok(x) && verdict(x@) is Skip),
{
    let l = listing_view(listing@);
    let root = shared_root(bundle_paths(l)->Ok_0);
    assert(l[k] == step_view(listing@[k]));
    lemma_all_skipped(l, root, k);
    let u = plan.outcome->Ok_0;
    assert(labels(u.skipped@).len() == u.skipped.len());
    if u.skipped.len() > 0 {
        let i = lemma_some_skipped(l, root);
        assert(l[i] == step_view(listing@[i]));
    }
}

proof fn lemma_all_skipped(l: Seq<Result<Listed, Seq<char>>>, root: Option<Seq<char>>, k: int)
    requires
        walk(l, root).error is None,
        0 <= k < l.len(),
    ensures
        l[k] matches Ok(e) ==> (verdict(e) matches Verdict::Skip(why) ==> walk(
            l,
            root,
        ).skipped.contains(why)),
    decreases l.len(),
{
    let w = walk(l.drop_last(), root);
    let all = walk(l, root).skipped;
    if k < l.len() - 1 {
        lemma_all_skipped(l.drop_last(), root, k);
        if let Ok(e) = l[k] {
            if let Verdict::Skip(why) = verdict(e) {
                let i = w.skipped.index_of(why);
                assert(all[i] == why);
            }
        }
    } else if let Ok(e) = l.last() {
        if let Verdict::Skip(why) = verdict(e) {
            if !w.skipped.contains(why) {
                assert(all[w.skipped.len() as int] == why);
            }
        }
    }
}

proof fn lemma_some_skipped(l: Seq<Result<Listed, Seq<char>>>, root: Option<Seq<char>>) -> (i: int)
    requires
        walk(l, root).skipped.len() > 0,
    ensures
        0 <= i < l.len(),
        l[i] matches Ok(e) && verdict(e) is Skip,
    decreases l.len(),
{
    if walk(l.drop_last(), root).skipped.len() > 0 {
        lemma_some_skipped(l.drop_last(), root)
    } else {
        l.len() - 1
    }
}

} // verus!
