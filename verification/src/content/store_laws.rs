//! What holds of the files beside a page: its gate, its title, its icon, its age,
//! and which pages there are.
use crate::config::Config;
use crate::content::store::{
    collect_slugs, entries_slugs, entry_slugs, file_beside, has_index, hash_of, icon_path, inside,
    meta_path, page_icon, page_path, page_title, page_url, relative_time, slug_hue, title_in,
    title_span, Entry, Icon, PageMeta,
};
use crate::text::{at, digits, find_text, lossy, lowered, texts, trimmed};
use vstd::prelude::*;
use vstd::utf8::{decode_utf8, encode_utf8, is_ascii_chars, is_ascii_chars_encode_utf8, valid_utf8};

verus! {

/// The most particular rule decides: a rule that fits the path, where every other
/// that fits is shorter, says who may pass, wherever in the list it stands. Of rules of
/// one length the last one does, and where none fits, what the app itself asks for
/// counts.
pub proof fn the_longest_rule_decides(meta: PageMeta, path: &str, r: String, k: int)
    requires
        call_ensures(PageMeta::gate_for, (&meta, path), r),
    ensures
        0 <= k < meta.rules.len() && meta.rules@[k].prefix@.is_prefix_of(path@) && (forall|j: int|
            0 <= j < meta.rules.len() && j != k && (#[trigger] meta.rules@[j]).prefix@.is_prefix_of(
                path@,
            ) ==> meta.rules@[j].prefix@.len() < meta.rules@[k].prefix@.len()) ==> r@
            == meta.rules@[k].gate@,
        0 <= k < meta.rules.len() && meta.rules@[k].prefix@.is_prefix_of(path@) && (forall|j: int|
            0 <= j < meta.rules.len() && (#[trigger] meta.rules@[j]).prefix@.is_prefix_of(path@)
                ==> meta.rules@[j].prefix@.len() <= meta.rules@[k].prefix@.len()) && (forall|j: int|
            k < j < meta.rules.len() && (#[trigger] meta.rules@[j]).prefix@.is_prefix_of(path@)
                ==> meta.rules@[j].prefix@.len() < meta.rules@[k].prefix@.len()) ==> r@
            == meta.rules@[k].gate@,
        (forall|j: int|
            0 <= j < meta.rules.len() ==> !(#[trigger] meta.rules@[j]).prefix@.is_prefix_of(path@))
            ==> r@ == meta.gate@,
        meta.rules.len() == 0 ==> r@ == meta.gate@,
{
    if exists|m: int| #[trigger]
        crate::content::store::decides(meta.rules@, path@, m) && r@ == meta.rules@[m].gate@ {
        let m = choose|m: int| #[trigger]
            crate::content::store::decides(meta.rules@, path@, m) && r@ == meta.rules@[m].gate@;
        assert(meta.rules@[m].prefix@.is_prefix_of(path@));
        if 0 <= k < meta.rules.len() && meta.rules@[k].prefix@.is_prefix_of(path@) {
            assert(crate::content::store::applies(meta.rules@[k], path@));
        }
    } else {
        if 0 <= k < meta.rules.len() && meta.rules@[k].prefix@.is_prefix_of(path@) {
            assert(crate::content::store::applies(meta.rules@[k], path@));
        }
    }
}

/// How long ago something was, in the largest unit of which it is one at least:
/// as many whole ones as have passed. What is still to come is just now.
pub proof fn ages_count_whole_units(then: u64, now: u64, n: nat, r: String)
    requires
        call_ensures(relative_time, (then, now), r),
    ensures
        now < then + 60 ==> r@ == "just now"@,
        then + 60 * n <= now < then + 60 * (n + 1) && 0 < n < 60 ==> r@ == digits(n) + "m ago"@,
        then + 3600 * n <= now < then + 3600 * (n + 1) && 0 < n < 24 ==> r@ == digits(n) + "h ago"@,
        then + 86400 * n <= now < then + 86400 * (n + 1) && 0 < n < 30 ==> r@ == digits(n)
            + "d ago"@,
        then + 2592000 * n <= now < then + 2592000 * (n + 1) && 0 < n ==> r@ == digits(n)
            + "mo ago"@,
{
}

/// The title of a page is what stands between its first title tag and the end of
/// that tag, without the space around it; where nothing but space does, there is
/// none.
pub proof fn the_title_is_between_its_tags(
    before: Seq<char>,
    title: Seq<char>,
    after: Seq<char>,
    html: &str,
    r: Option<String>,
)
    requires
        html@ == before + "<title>"@ + title + "</title>"@ + after,
        forall|i: int| 0 <= i < before.len() ==> !#[trigger] at(lowered(html@), "<title"@, i),
        !title.contains('<'),
        call_ensures(title_in, (html,), r),
    ensures
        trimmed(title).len() > 0 ==> (r matches Some(t) && t@ == trimmed(title)),
        trimmed(title).len() == 0 ==> r is None,
{
    reveal_strlit("<title>");
    reveal_strlit("<title");
    reveal_strlit(">");
    reveal_strlit("</title>");
    let tags = lowered(html@);
    let a = before.len() as int;
    let end = a + 6;
    let b = a + 7;
    let c = b + title.len();
    assert(at(tags, "<title"@, a)) by {
        assert(tags.subrange(a, a + 6) =~= "<title"@);
    }
    lemma_first_text(tags, "<title"@, 0, a);
    assert forall|i: int| a <= i < end implies !#[trigger] at(tags, ">"@, i) by {
        assert(tags[i] != '>');
        if at(tags, ">"@, i) {
            assert(tags.subrange(i, i + 1)[0] == ">"@[0]);
        }
    }
    assert(at(tags, ">"@, end)) by {
        assert(tags.subrange(end, end + 1) =~= ">"@);
    }
    lemma_first_text(tags, ">"@, a, end);
    assert forall|i: int| b <= i < c implies !#[trigger] at(tags, "</title>"@, i) by {
        assert(title.contains(title[i - b]));
        assert(html@[i] == title[i - b]);
        assert(tags[i] != '<');
        if at(tags, "</title>"@, i) {
            assert(tags.subrange(i, i + 8)[0] == "</title>"@[0]);
        }
    }
    assert(at(tags, "</title>"@, c)) by {
        assert(tags.subrange(c, c + 8) =~= "</title>"@);
    }
    lemma_first_text(tags, "</title>"@, b, c);
    assert(html@.subrange(b, c) =~= title);
    assert(title_span(html@) == Some((b, c)));
}

/// The first place where a text stands is where it is found.
proof fn lemma_first_text(s: Seq<char>, p: Seq<char>, from: int, n: int)
    requires
        0 <= from <= n,
        n + p.len() <= s.len(),
        at(s, p, n),
        forall|i: int| from <= i < n ==> !#[trigger] at(s, p, i),
    ensures
        find_text(s, p, from) == Some(n),
    decreases n - from,
{
    if from < n {
        assert(!at(s, p, from));
        lemma_first_text(s, p, from + 1, n);
    }
}

/// Where a page has no icon of its own, it has a badge: one or two letters or
/// digits, or a question mark, on a colour that depends on its slug alone. An empty
/// file is no icon.
pub proof fn a_page_without_an_icon_has_a_badge(
    slug: &str,
    file: Option<&[u8]>,
    r: Icon,
    hue: u16,
)
    requires
        file matches Some(bytes) ==> bytes@.len() == 0,
        call_ensures(page_icon, (slug, file), r),
        call_ensures(slug_hue, (slug,), hue),
    ensures
        r matches Icon::Generated(initials, h) && h == hue && hue < 360 && 1 <= initials@.len() <= 2,
{
    reveal_strlit("?");
    reveal_strlit("data:");
    let last = crate::text::split(slug@, '/').last();
    lemma_initials(last, 2);
    if let Some(bytes) = file {
        assert(bytes@ =~= Seq::empty());
        lemma_empty_text(bytes@);
    }
}

/// No more initials than asked for.
proof fn lemma_initials(s: Seq<char>, n: nat)
    ensures
        crate::content::store::initials_of(s, n).len() <= n,
    decreases s.len(),
{
    if s.len() > 0 {
        lemma_initials(s.drop_last(), n);
    }
}

/// No bytes are no text.
proof fn lemma_empty_text(bytes: Seq<u8>)
    requires
        bytes.len() == 0,
    ensures
        trimmed(decode_utf8(bytes)).len() == 0,
{
    reveal_with_fuel(decode_utf8, 2);
    assert(decode_utf8(bytes).len() == 0);
    assert(decode_utf8(bytes) =~= Seq::<char>::empty());
}

/// The icon that a page has is what its file says: a `data:` URI is the image, up
/// to four characters that are no markup stand for themselves, and of anything else
/// the file itself is the image.
pub proof fn an_icon_is_what_its_file_says(
    slug: &str,
    bytes: &[u8],
    r: Icon,
)
    requires
        bytes@.len() > 0,
        call_ensures(page_icon, (slug, Some(bytes)), r),
    ensures
        !valid_utf8(bytes@) ==> (r matches Icon::Src(src) && src@ == "/icon/"@ + slug@),
        valid_utf8(bytes@) ==> {
            let text = trimmed(decode_utf8(bytes@));
            &&& "data:"@.is_prefix_of(text) ==> (r matches Icon::Src(src) && src@ == text)
            &&& text.len() > 4 && !"data:"@.is_prefix_of(text) ==> (r matches Icon::Src(src) && src@
                == "/icon/"@ + slug@)
            &&& 0 < text.len() <= 4 && text[0] != '<' ==> (r matches Icon::Text(t) && t@ == text)
            &&& text.len() > 0 && text[0] == '<' ==> (r matches Icon::Src(src) && src@ == "/icon/"@
                + slug@)
        },
{
    reveal_strlit("data:");
    let text = trimmed(decode_utf8(bytes@));
    if "data:"@.is_prefix_of(text) {
        assert("data:"@[0] == text[0]);
    }
}

/// The URL of a page begins with the base that is configured, if any.
pub proof fn a_page_has_its_url(config: Config, slug: &str, r: String)
    requires
        call_ensures(page_url, (&config, slug), r),
    ensures
        config.base_url matches Some(base) ==> r@ == base@ + "/p/"@ + slug@,
        config.base_url is None ==> r@ == "/p/"@ + slug@,
{
    if config.base_url is None {
        assert(r@ =~= "/p/"@ + slug@);
    }
}

/// A page's own file comes before the index page of an app of the same name; so
/// with icons; and settings are read from where they are, and else written beside
/// the page where there is one and inside the app where there is none.
pub proof fn files_beside_a_page(
    config: Config,
    slug: &str,
    direct: bool,
    inner: bool,
    page: bool,
    p: Option<String>,
    i: Option<String>,
    m: String,
)
    requires
        call_ensures(page_path, (&config, slug, direct, inner), p),
        call_ensures(icon_path, (&config, slug, direct, inner), i),
        call_ensures(meta_path, (&config, slug, direct, inner, page), m),
    ensures
        p is None == (!direct && !inner),
        i is None == (!direct && !inner),
        direct ==> p->0@ == inside(config.data_dir@, slug@ + ".html"@) && i->0@ == inside(
            config.data_dir@,
            slug@ + ".icon"@,
        ) && m@ == inside(config.data_dir@, slug@ + ".meta"@),
        !direct && inner ==> p->0@ == inside(config.data_dir@, slug@ + "/index.html"@) && i->0@
            == inside(config.data_dir@, slug@ + "/index.icon"@) && m@ == inside(
            config.data_dir@,
            slug@ + "/index.meta"@,
        ),
        !direct && !inner && page ==> m@ == inside(config.data_dir@, slug@ + ".meta"@),
        !direct && !inner && !page ==> m@ == inside(config.data_dir@, slug@ + "/index.meta"@),
{
}

/// Every page in a directory is found, under its name; every app once, as its
/// root; and nothing of a directory that is the site's own.
pub proof fn every_page_is_found_once(
    entries: Vec<Entry>,
    prefix: &str,
    r: Vec<String>,
    k: int,
    stem: Seq<char>,
)
    requires
        call_ensures(collect_slugs, (&entries, prefix), r),
        0 <= k < entries.len(),
        prefix@.len() == 0,
    ensures
        stem.len() > 0 && (entries@[k] matches Entry::File { name } && name@ == stem + ".html"@)
            ==> texts(r@).contains(stem),
        (entries@[k] matches Entry::Dir { name, entries: inner } && name@.len() > 0 && name@[0]
            != '.' && has_index(inner@)) ==> texts(r@).contains(entries@[k]->Dir_name@),
        entries.len() == 1 && (entries@[0] matches Entry::Dir { name, .. } && name@.len() > 0
            && name@[0] == '.') ==> r.len() == 0,
        entries.len() == 1 && (entries@[0] matches Entry::Dir { name, entries: inner }
            && name@.len() > 0 && name@[0] != '.' && has_index(inner@)) ==> texts(r@) =~= seq![
            entries@[0]->Dir_name@,
        ],
{
    reveal_strlit(".html");
    let n = entries@.len();
    let found = entry_slugs(entries@[k], prefix@);
    lemma_found(entries, prefix@, n, k);
    if entries.len() == 1 {
        reveal_with_fuel(entries_slugs, 2);
        assert(entries_slugs(entries, prefix@, 0) =~= Seq::<Seq<char>>::empty());
        assert(texts(r@) =~= entry_slugs(entries@[0], prefix@));
        assert(texts(r@).len() == r@.len());
    }
    if let Entry::File { name } = entries@[k] {
        if stem.len() > 0 && name@ == stem + ".html"@ {
            assert(name@.subrange(name@.len() - 5, name@.len() as int) =~= ".html"@);
            assert(name@.take(name@.len() - 5) =~= stem);
            assert(found[0] == stem);
            assert(found.contains(stem));
        }
    }
    if let Entry::Dir { name, entries: inner } = entries@[k] {
        if name@.len() > 0 && name@[0] != '.' && has_index(inner@) {
            assert(found[0] == name@);
            assert(found.contains(name@));
        }
    }
}

/// What is found in one entry is found in the directory.
proof fn lemma_found(entries: Vec<Entry>, prefix: Seq<char>, n: nat, k: int)
    requires
        0 <= k < n <= entries@.len(),
    ensures
        forall|s: Seq<char>| #[trigger]
            entry_slugs(entries@[k], prefix).contains(s) ==> entries_slugs(
                entries,
                prefix,
                n,
            ).contains(s),
    decreases n,
{
    let here = entry_slugs(entries@[n - 1], prefix);
    let before = entries_slugs(entries, prefix, (n - 1) as nat);
    let all = entries_slugs(entries, prefix, n);
    assert(all == before + here);
    if k < n - 1 {
        lemma_found(entries, prefix, (n - 1) as nat, k);
    }
    assert forall|s: Seq<char>| #[trigger] entry_slugs(entries@[k], prefix).contains(s) implies
        all.contains(s) by {
        if k == n - 1 {
            let i = here.index_of(s);
            assert(all[before.len() + i] == s);
        } else {
            let i = before.index_of(s);
            assert(all[i] == s);
        }
    }
}

/// The colour of a badge comes from the bytes of the slug, each mixed into what the ones
/// before it gave.
pub proof fn a_colour_comes_from_each_byte(slug: &str, first: u32, second: u32, r: u16)
    requires
        call_ensures(slug_hue, (slug,), r),
        1 <= slug@.len() <= 2,
        forall|i: int| 0 <= i < slug@.len() ==> '\0' <= #[trigger] slug@[i] <= '\u{7f}',
        first == (2_166_136_261u32 ^ (slug@[0] as u32)) * 16_777_619 % 0x1_0000_0000,
        slug@.len() == 2 ==> second == (first ^ (slug@[1] as u32)) * 16_777_619 % 0x1_0000_0000,
    ensures
        slug@.len() == 1 ==> r == first % 360,
        slug@.len() == 2 ==> r == second % 360,
{
    assert(is_ascii_chars(slug@));
    is_ascii_chars_encode_utf8(slug@);
    let b = encode_utf8(slug@);
    let none = Seq::<u8>::empty();
    reveal_with_fuel(hash_of, 3);
    if slug@.len() == 1 {
        assert(b.drop_last() =~= none);
        assert(b.last() == slug@[0] as u8);
    } else {
        assert(b.drop_last().drop_last() =~= none);
        assert(b.drop_last().last() == slug@[0] as u8);
        assert(b.last() == slug@[1] as u8);
    }
}

/// A file of a page is beside it, by what it ends in; and the title of a page is that of
/// what its first bytes say.
pub proof fn a_file_is_named_by_its_ending(
    config: Config,
    slug: &str,
    ending: &str,
    head: &[u8],
    html: &str,
    title: Option<String>,
    first: Option<String>,
    r: String,
)
    requires
        call_ensures(file_beside, (&config, slug, ending), r),
        html@ == lossy(head@),
        call_ensures(title_in, (html,), title),
        call_ensures(page_title, (head,), first),
    ensures
        r@ == inside(config.data_dir@, slug@ + ending@),
        first is Some == title is Some,
        first matches Some(t) ==> t@ == title->0@,
{
}

} // verus!
