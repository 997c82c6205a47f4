//! What is published is what is served: how the ways in and the ways out of a
//! site meet.
use crate::config::Config;
use crate::content::serve::{
    any_hidden, ending, head_of, is_reserved, resolved, rest_of, type_of, way_of, Found, Served,
};
use crate::content::slug::{
    is_asset_path, is_asset_segment, is_segment, is_slug, slug_is_asset_path,
};
use crate::content::store::{beside, inside};
use crate::platform::upload::{
    app_of, is_download, live, slug_of_ticket, step_for, upload_step, written_slug, DownloadStep,
    UploadKind,
};
use crate::reply::elsewhere;
use crate::text::{
    find, joined, lemma_find, lemma_joined_split, lemma_split_both, lemma_split_head,
    lemma_split_len, lemma_split_whole, split, stripped_end,
};
use vstd::prelude::*;

verus! {

/// A path that is safe to serve does not end in a slash.
proof fn lemma_no_slash(s: Seq<char>)
    requires
        is_asset_path(s),
    ensures
        s.len() > 0,
        s.last() != '/',
        stripped_end(s, "/"@) == s,
{
    reveal_strlit("/");
    lemma_split_len(s, '/');
    let parts = split(s, '/');
    assert(is_asset_segment(parts[parts.len() - 1]));
    if s.len() > 0 {
        lemma_split_len(s.drop_last(), '/');
    }
}

/// A path under `/p/` that is safe to serve names the slug that is written in
/// it, with and without a slash behind it.
proof fn lemma_way(slug: Seq<char>)
    requires
        is_asset_path(slug),
    ensures
        way_of("/p/"@ + slug) matches Some(way) && way.slug == slug && way.app == head_of(slug)
            && way.rest == rest_of(slug) && !way.had_slash && way.is_api == is_reserved(
            rest_of(slug),
        ),
        way_of("/p/"@ + slug + "/"@) matches Some(way) && way.slug == slug && way.app == head_of(
            slug,
        ) && way.rest == rest_of(slug) && way.had_slash && way.is_api == is_reserved(rest_of(slug)),
{
    reveal_strlit("/p/");
    reveal_strlit("/");
    lemma_no_slash(slug);
    let bare = "/p/"@ + slug;
    assert(bare.skip(3) =~= slug);
    assert("/p/"@.is_prefix_of(bare)) by {
        assert(bare.subrange(0, 3) =~= "/p/"@);
    }
    assert(!"/"@.is_suffix_of(slug)) by {
        if "/"@.is_suffix_of(slug) {
            assert(slug.subrange(slug.len() - 1, slug.len() as int)[0] == slug.last());
        }
    }
    let slashed = bare + "/"@;
    assert(slashed.skip(3) =~= slug + "/"@);
    assert("/p/"@.is_prefix_of(slashed)) by {
        assert(slashed.subrange(0, 3) =~= "/p/"@);
    }
    let raw = slug + "/"@;
    assert(raw.drop_last() =~= slug);
    assert("/"@[0] == raw.last());
    assert("/"@.contains(raw.last()));
    assert(stripped_end(raw, "/"@) == stripped_end(slug, "/"@));
    assert("/"@.is_suffix_of(raw)) by {
        assert(raw.subrange(raw.len() - 1, raw.len() as int) =~= "/"@);
    }
}

/// A page is served from the file that it is written to: whatever stands in
/// `<slug>.html` answers at `/p/<slug>`, unless a bundle brought a file of the
/// very name, or the name is under an app's reserved prefix.
pub proof fn page_is_served(config: Config, slug: Seq<char>, found: Found)
    requires
        is_slug(slug),
        !is_reserved(rest_of(slug)),
        found.direct,
        !found.asset,
    ensures
        way_of("/p/"@ + slug) matches Some(way) && resolved(config, way, found) == (Served::Page {
            path: beside(config, slug, ".html"@),
        }),
{
    slug_is_asset_path(slug);
    lemma_way(slug);
}

/// The index page of an app answers at the app's root, with a slash behind it;
/// without one the visitor is sent there.
pub proof fn app_index_is_served(config: Config, app: Seq<char>, found: Found)
    requires
        is_slug(app),
        !is_reserved(rest_of(app)),
        found.index,
        !found.asset,
        !found.direct,
    ensures
        way_of("/p/"@ + app + "/"@) matches Some(way) && resolved(config, way, found) == (
        Served::Page { path: beside(config, app + "/index"@, ".html"@) }),
        way_of("/p/"@ + app) matches Some(way) && resolved(config, way, found) == Served::Answer(
            elsewhere(308, "/p/"@ + app + "/"@),
        ),
{
    reveal_strlit("/index");
    reveal_strlit(".html");
    reveal_strlit("/index.html");
    slug_is_asset_path(app);
    lemma_way(app);
    assert(app + "/index"@ + ".html"@ =~= app + "/index.html"@);
}

/// An uploaded page is the one that is served: the file that an upload writes
/// is the one that answers at the page's address.
pub proof fn uploaded_page_is_served(
    config: Config,
    now: u64,
    ticket: Seq<char>,
    sub: Option<Seq<char>>,
    body: Seq<u8>,
    found: Found,
)
    requires
        upload_step(config, now, ticket, sub, UploadKind::Page, body) is Write,
        found.direct,
        !found.asset,
        ({
            let own = slug_of_ticket(config.uploads@, now, ticket)->0;
            !is_reserved(rest_of(written_slug(own, sub)))
        }),
    ensures
        ({
            let own = slug_of_ticket(config.uploads@, now, ticket)->0;
            let step = upload_step(config, now, ticket, sub, UploadKind::Page, body);
            way_of("/p/"@ + written_slug(own, sub)) matches Some(way) && resolved(
                config,
                way,
                found,
            ) == (Served::Page { path: step->path })
        }),
{
    let own = slug_of_ticket(config.uploads@, now, ticket)->0;
    page_is_served(config, written_slug(own, sub), found);
}

/// A file of a bundle is served from where it is unpacked: what a bundle of
/// `slug` holds as `path` answers at `/p/<slug>/<path>`, unless that is under
/// the app's reserved prefix.
pub proof fn bundle_file_is_served(
    config: Config,
    slug: Seq<char>,
    spa: bool,
    body: Seq<u8>,
    path: Seq<char>,
    found: Found,
)
    requires
        step_for(config, slug, UploadKind::Bundle { spa }, body) is Bundle,
        is_asset_path(path),
        !is_reserved(rest_of(slug + "/"@ + path)),
        found.asset,
    ensures
        ({
            let dest = step_for(config, slug, UploadKind::Bundle { spa }, body)->dest;
            way_of("/p/"@ + (slug + "/"@ + path)) matches Some(way) && resolved(config, way, found)
                == (Served::Asset {
                path: inside(dest, path),
                content_type: type_of(ending(slug + "/"@ + path)),
            })
        }),
{
    reveal_strlit("/");
    let whole = slug + "/"@ + path;
    slug_is_asset_path(slug);
    lemma_no_slash(slug);
    assert("/"@ =~= seq!['/']);
    lemma_split_both(slug, '/', path);
    let (front, back) = (split(slug, '/'), split(path, '/'));
    assert forall|i: int| 0 <= i < split(whole, '/').len() implies is_asset_segment(
        #[trigger] split(whole, '/')[i],
    ) by {
        if i < front.len() {
            assert(split(whole, '/')[i] == front[i]);
        } else {
            assert(split(whole, '/')[i] == back[i - front.len()]);
        }
    }
    lemma_split_len(whole, '/');
    lemma_way(whole);
    let dest = inside(config.data_dir@, slug);
    assert(dest.last() == slug.last());
    assert(inside(dest, path) =~= inside(config.data_dir@, whole));
}

/// An uploaded page comes back by the ticket that wrote it, for as long as the
/// ticket works: the file that is written is the first that is looked for.
pub proof fn uploaded_page_comes_back(
    before: Config,
    now: u64,
    ticket: Seq<char>,
    body: Seq<u8>,
    after: Config,
    then: u64,
    r: DownloadStep,
)
    requires
        upload_step(before, now, ticket, None, UploadKind::Page, body) is Write,
        after.uploads@ == live(before.uploads@, now),
        after.data_dir == before.data_dir,
        slug_of_ticket(after.uploads@, then, ticket) is Some,
        is_download(after, then, ticket, false, r),
    ensures
        r matches DownloadStep::Page { direct, .. } && direct@ == upload_step(
            before,
            now,
            ticket,
            None,
            UploadKind::Page,
            body,
        )->path,
{
}

/// A project that was uploaded comes back by the ticket that wrote it, for as
/// long as the ticket works.
pub proof fn uploaded_source_comes_back(
    before: Config,
    now: u64,
    ticket: Seq<char>,
    body: Seq<u8>,
    after: Config,
    then: u64,
    r: DownloadStep,
)
    requires
        upload_step(before, now, ticket, None, UploadKind::Source, body) is Write,
        after.uploads@ == live(before.uploads@, now),
        after.data_dir == before.data_dir,
        slug_of_ticket(after.uploads@, then, ticket) is Some,
        is_download(after, then, ticket, true, r),
    ensures
        r matches DownloadStep::Source { path, .. } && path@ == upload_step(
            before,
            now,
            ticket,
            None,
            UploadKind::Source,
            body,
        )->path,
{
}

/// The first piece of a slug is what stands before its first slash.
proof fn lemma_head(slug: Seq<char>)
    ensures
        app_of(slug) == head_of(slug),
{
    if slug.contains('/') {
        lemma_find(slug, '/');
        let f = find(slug, '/');
        lemma_split_head(slug.take(f), '/', slug.skip(f + 1));
        assert(slug.take(f) + seq!['/'] + slug.skip(f + 1) =~= slug);
    } else {
        lemma_split_whole(slug, '/');
    }
}

/// An upload writes for the app that its address belongs to: what a ticket for
/// a slug stores of an app, its handler or its schema or its source, is stored
/// for the app that answers at that slug.
pub proof fn upload_is_for_the_app_that_answers(slug: Seq<char>)
    requires
        is_slug(slug),
    ensures
        way_of("/p/"@ + slug) matches Some(way) && way.app == app_of(slug) && is_segment(way.app),
{
    slug_is_asset_path(slug);
    lemma_way(slug);
    lemma_head(slug);
    lemma_split_len(slug, '/');
}

/// Hiding an app hides everything below it, and hiding a page hides the page:
/// where either is hidden, the request finds a hidden name on its way.
pub proof fn hiding_reaches_down(
    slug: Seq<char>,
    hides: spec_fn(Seq<char>) -> bool,
    hidden: Seq<bool>,
)
    requires
        hidden.len() == split(slug, '/').len(),
        forall|i: int|
            0 <= i < hidden.len() ==> #[trigger] hidden[i] == hides(
                joined(split(slug, '/').take(i + 1), "/"@),
            ),
        hides(head_of(slug)) || hides(slug),
    ensures
        any_hidden(hidden),
{
    reveal_strlit("/");
    assert("/"@ =~= seq!['/']);
    lemma_split_len(slug, '/');
    lemma_head(slug);
    let parts = split(slug, '/');
    if hides(head_of(slug)) {
        assert(parts.take(1)[0] == parts[0]);
        assert(joined(parts.take(1), "/"@) == head_of(slug));
        assert(hidden[0]);
    } else {
        lemma_joined_split(slug, '/');
        assert(parts.take(parts.len() as int) =~= parts);
        assert(hidden[parts.len() - 1]);
    }
}

} // verus!
