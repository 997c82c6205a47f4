//! Bundles: a built front end uploaded as one gzipped tar archive. Which of its
//! entries are written, where, and what is refused.
use crate::cli::project::{has_ending, is_migration};
use crate::content::archive::{is_past_counting, past_counting};
use crate::content::slug::{is_asset_path, valid_asset_path};
use crate::text::{
    in_order, lemma_split_head, lemma_split_len, replace_char, replaced, same, sort,
    split, split_on, starts_with, strip_prefix, strip_prefixes, texts, to_chars, utf8_text,
    without_prefixes,
};
use std::io::Read;
use vstd::prelude::*;
use vstd::utf8::{decode_utf8, valid_utf8};

verus! {

/// The most a bundle may unpack to: it is a built front end, not an archive
/// dump.
pub const MAX_BUNDLE_UNPACKED: u64 = 134_217_728;

/// The most files a bundle may hold.
pub const MAX_BUNDLE_ENTRIES: usize = 2_000;

/// What an archive says of one of its entries.
pub struct EntryHeader {
    pub is_dir: bool,
    pub is_pax_global: bool,
    pub is_long_name: bool,
    pub is_file: bool,
    pub path: String,
    /// The size that the header states, where it can be read.
    pub size: Option<u64>,
}

/// An entry's header over mathematical values.
pub struct Listed {
    pub is_dir: bool,
    pub is_pax_global: bool,
    pub is_long_name: bool,
    pub is_file: bool,
    pub path: Seq<char>,
    pub size: Option<u64>,
}

impl View for EntryHeader {
    type V = Listed;

    open spec fn view(&self) -> Listed {
        Listed {
            is_dir: self.is_dir,
            is_pax_global: self.is_pax_global,
            is_long_name: self.is_long_name,
            is_file: self.is_file,
            path: self.path@,
            size: self.size,
        }
    }
}

/// One step of reading an archive, over mathematical values.
pub open spec fn step_view(e: Result<EntryHeader, String>) -> Result<Listed, Seq<char>> {
    match e {
        Ok(h) => Ok(h@),
        Err(m) => Err(m@),
    }
}

/// The steps of reading an archive, over mathematical values.
pub open spec fn listing_view(l: Seq<Result<EntryHeader, String>>) -> Seq<
    Result<Listed, Seq<char>>,
> {
    l.map_values(|e: Result<EntryHeader, String>| step_view(e))
}

/// What the entries of a gzipped tar archive are, in order. Reading stops at
/// the first entry that cannot be read, which stands as its error.
pub uninterp spec fn archive_listing(body: Seq<u8>) -> Seq<Result<Listed, Seq<char>>>;

/// `tar::Archive::entries` over `flate2::read::GzDecoder`: the headers of the
/// archive's entries in order, ending with the error that stopped the reading
/// where there was one. A path is `Entry::path_bytes`, with what is not UTF-8
/// replaced; a size is `Header::size`. The list is a function of the bytes. An
/// archive in which `tar` counts past the largest place is left out.
#[verifier::external_body]
fn list_archive(body: &[u8]) -> (r: Vec<Result<EntryHeader, String>>)
    requires
        !is_past_counting(body@),
    ensures
        listing_view(r@) == archive_listing(body@),
{
    let mut archive = tar::Archive::new(flate2::read::GzDecoder::new(body));
    match archive.entries() {
        Ok(entries) => entries.map(|e| e.map_err(|e| e.to_string()).map(|e| EntryHeader {
            is_dir: e.header().entry_type().is_dir(),
            is_pax_global: e.header().entry_type().is_pax_global_extensions(),
            is_long_name: e.header().entry_type().is_gnu_longname(),
            is_file: e.header().entry_type().is_file(),
            path: String::from_utf8_lossy(&e.path_bytes()).into_owned(),
            size: e.header().size().ok(),
        })).collect(),
        Err(e) => vec![Err(e.to_string())],
    }
}

/// The bytes of an entry, or why they could not be read.
pub open spec fn content_view(e: Result<Vec<u8>, String>) -> Result<Seq<u8>, Seq<char>> {
    match e {
        Ok(b) => Ok(b@),
        Err(m) => Err(m@),
    }
}

/// The bytes of entries over mathematical values.
pub open spec fn contents_view(c: Seq<Result<Vec<u8>, String>>) -> Seq<Result<Seq<u8>, Seq<char>>> {
    c.map_values(|e: Result<Vec<u8>, String>| content_view(e))
}

/// What the first entries of a gzipped tar archive hold, of each at most as many
/// bytes as asked for.
pub uninterp spec fn archive_contents(body: Seq<u8>, upto: Seq<u64>) -> Seq<
    Result<Seq<u8>, Seq<char>>,
>;

/// `tar::Archive::entries` over `flate2::read::GzDecoder`, each entry read to its
/// end or to as many bytes as asked for: what the entries hold, in order, or
/// the errors met in their places. A function of the bytes and of what is asked
/// for. That there is one for each entry of the listing is not said. An archive
/// in which `tar` counts past the largest place is left out.
#[verifier::external_body]
fn read_archive(body: &[u8], upto: &Vec<u64>) -> (r: Vec<Result<Vec<u8>, String>>)
    requires
        !is_past_counting(body@),
    ensures
        contents_view(r@) == archive_contents(body@, upto@),
{
    let mut archive = tar::Archive::new(flate2::read::GzDecoder::new(body));
    match archive.entries() {
        Ok(entries) => entries.zip(upto).map(|(e, n)| {
            let mut bytes = Vec::new();
            let read = e.and_then(|e| e.take(*n).read_to_end(&mut bytes));
            read.map(|_| bytes).map_err(|e| e.to_string())
        }).collect(),
        Err(e) => vec![Err(e.to_string())],
    }
}

/// What the entries of an upload are, in order: those of the archive, or one
/// error where its places are past counting.
pub open spec fn listing_of(body: Seq<u8>) -> Seq<Result<Listed, Seq<char>>> {
    if is_past_counting(body) {
        seq![Err("size overflow"@)]
    } else {
        archive_listing(body)
    }
}

/// What the entries of an upload are.
pub fn list_upload(body: &[u8]) -> (r: Vec<Result<EntryHeader, String>>)
    ensures
        listing_view(r@) == listing_of(body@),
{
    if past_counting(body) {
        let mut r: Vec<Result<EntryHeader, String>> = Vec::new();
        r.push(Err("size overflow".to_owned()));
        assert(listing_view(r@) =~= listing_of(body@));
        return r;
    }
    list_archive(body)
}

/// What the entries of an upload hold: nothing where its places are past
/// counting.
pub open spec fn contents_of(body: Seq<u8>, upto: Seq<u64>) -> Seq<Result<Seq<u8>, Seq<char>>> {
    if is_past_counting(body) {
        Seq::empty()
    } else {
        archive_contents(body, upto)
    }
}

/// What the entries of an upload hold.
pub fn read_upload(body: &[u8], upto: &Vec<u64>) -> (r: Vec<Result<Vec<u8>, String>>)
    ensures
        contents_view(r@) == contents_of(body@, upto@),
{
    if past_counting(body) {
        let r: Vec<Result<Vec<u8>, String>> = Vec::new();
        assert(contents_view(r@) =~= contents_of(body@, upto@));
        return r;
    }
    read_archive(body, upto)
}

/// What an entry holds, among what was read.
pub open spec fn content_at(c: Seq<Result<Seq<u8>, Seq<char>>>, i: int) -> Result<
    Seq<u8>,
    Seq<char>,
> {
    if 0 <= i < c.len() {
        c[i]
    } else {
        Err("unexpected end of archive"@)
    }
}

/// What an entry holds, among what was read.
fn content(contents: &Vec<Result<Vec<u8>, String>>, i: usize) -> (r: Result<Vec<u8>, String>)
    ensures
        content_view(r) == content_at(contents_view(contents@), i as int),
{
    if i >= contents.len() {
        return Err("unexpected end of archive".to_owned());
    }
    assert(contents_view(contents@)[i as int] == content_view(contents@[i as int]));
    match &contents[i] {
        Ok(bytes) => Ok(bytes.clone()),
        Err(m) => Err(m.clone()),
    }
}

/// What to do with one archive entry.
pub enum EntryVerdict {
    Take(String),
    /// Directories and archive metadata: every tarball has them and nothing is
    /// lost by not writing them.
    Ignore,
    /// Dotfiles and symlinks: harmless to leave out, but reported so an upload
    /// never silently ships less than it claims.
    Skip(&'static str),
    /// Traversal and absolute paths are attacks, not build-output quirks.
    Reject(String),
}

/// A verdict over mathematical values.
pub enum Verdict {
    Take(Seq<char>),
    Ignore,
    Skip(Seq<char>),
    Reject(Seq<char>),
}

impl View for EntryVerdict {
    type V = Verdict;

    open spec fn view(&self) -> Verdict {
        match self {
            EntryVerdict::Take(p) => Verdict::Take(p@),
            EntryVerdict::Ignore => Verdict::Ignore,
            EntryVerdict::Skip(why) => Verdict::Skip(why@),
            EntryVerdict::Reject(m) => Verdict::Reject(m@),
        }
    }
}

/// Whether a path has a part that satisfies `bad`.
pub open spec fn some_part(p: Seq<char>, bad: spec_fn(Seq<char>) -> bool) -> bool {
    exists|i: int| 0 <= i < split(p, '/').len() && bad(#[trigger] split(p, '/')[i])
}

/// `.` or `..`.
pub open spec fn is_dots(s: Seq<char>) -> bool {
    s == ".."@ || s == "."@
}

/// A name that begins with a dot.
pub open spec fn is_dotted(s: Seq<char>) -> bool {
    s.len() > 0 && s[0] == '.'
}

/// The path of an entry with forward slashes and without leading `./`.
pub open spec fn entry_path(raw: Seq<char>) -> Seq<char> {
    without_prefixes(replaced(raw, '\\', "/"@), "./"@)
}

/// What is done with an entry: directories and metadata are ignored, links and
/// special files and dotfiles are left out and reported, and a path that
/// leads out of the directory or cannot be served refuses the bundle.
pub open spec fn verdict(e: Listed) -> Verdict {
    let p = entry_path(e.path);
    if e.is_dir || e.is_pax_global || e.is_long_name {
        Verdict::Ignore
    } else if !e.is_file {
        Verdict::Skip("symlinks and special files"@)
    } else if p.len() == 0 {
        Verdict::Ignore
    } else if p[0] == '/' || some_part(p, |s: Seq<char>| is_dots(s)) {
        Verdict::Reject("unsafe path in bundle: "@ + p)
    } else if some_part(p, |s: Seq<char>| is_dotted(s)) {
        Verdict::Skip("dotfiles"@)
    } else if !is_asset_path(p) {
        Verdict::Reject(
            "unsupported filename in bundle: "@ + p
                + " (use letters, numbers, '.', '-', '_')"@,
        )
    } else {
        Verdict::Take(p)
    }
}

/// Whether a path has a part that is `.` or `..`.
fn has_dots(p: &str) -> (r: bool)
    ensures
        r == some_part(p@, |s: Seq<char>| is_dots(s)),
{
    let parts = split_on(p, '/');
    let ghost bad = |s: Seq<char>| is_dots(s);
    let mut i: usize = 0;
    while i < parts.len()
        invariant
            i <= parts.len(),
            texts(parts@) == split(p@, '/'),
            bad == (|s: Seq<char>| is_dots(s)),
            forall|j: int| 0 <= j < i ==> !bad(#[trigger] split(p@, '/')[j]),
        decreases parts.len() - i,
    {
        assert(texts(parts@)[i as int] == parts@[i as int]@);
        if same(parts[i].as_str(), "..") || same(parts[i].as_str(), ".") {
            assert(bad(split(p@, '/')[i as int]));
            return true;
        }
        i += 1;
    }
    assert(texts(parts@).len() == parts@.len());
    false
}

/// Whether a path has a part that begins with a dot.
fn has_dotted(p: &str) -> (r: bool)
    ensures
        r == some_part(p@, |s: Seq<char>| is_dotted(s)),
{
    let parts = split_on(p, '/');
    let ghost bad = |s: Seq<char>| is_dotted(s);
    let mut i: usize = 0;
    while i < parts.len()
        invariant
            i <= parts.len(),
            texts(parts@) == split(p@, '/'),
            bad == (|s: Seq<char>| is_dotted(s)),
            forall|j: int| 0 <= j < i ==> !bad(#[trigger] split(p@, '/')[j]),
        decreases parts.len() - i,
    {
        assert(texts(parts@)[i as int] == parts@[i as int]@);
        let v = to_chars(parts[i].as_str());
        if v.len() > 0 && v[0] == '.' {
            assert(bad(split(p@, '/')[i as int]));
            return true;
        }
        i += 1;
    }
    assert(texts(parts@).len() == parts@.len());
    false
}

/// What is done with an entry.
pub fn classify_entry(entry: &EntryHeader) -> (r: EntryVerdict)
    ensures
        r@ == verdict(entry@),
{
    if entry.is_dir || entry.is_pax_global || entry.is_long_name {
        return EntryVerdict::Ignore;
    }
    if !entry.is_file {
        return EntryVerdict::Skip("symlinks and special files");
    }
    let raw = replace_char(entry.path.as_str(), '\\', "/");
    let rel = strip_prefixes(raw.as_str(), "./");
    let v = to_chars(rel.as_str());
    if v.len() == 0 {
        return EntryVerdict::Ignore;
    }
    if v[0] == '/' || has_dots(rel.as_str()) {
        return EntryVerdict::Reject("unsafe path in bundle: ".to_owned().concat(rel.as_str()));
    }
    if has_dotted(rel.as_str()) {
        return EntryVerdict::Skip("dotfiles");
    }
    if !valid_asset_path(rel.as_str()) {
        return EntryVerdict::Reject(
            "unsupported filename in bundle: ".to_owned().concat(rel.as_str()).concat(
                " (use letters, numbers, '.', '-', '_')",
            ),
        );
    }
    EntryVerdict::Take(rel)
}

/// The paths of the entries that are taken, in order, or the first error or
/// refusal.
pub open spec fn taken(l: Seq<Result<Listed, Seq<char>>>) -> Result<Seq<Seq<char>>, Seq<char>>
    decreases l.len(),
{
    if l.len() == 0 {
        Ok(Seq::empty())
    } else {
        match taken(l.drop_last()) {
            Err(m) => Err(m),
            Ok(paths) => match l.last() {
                Err(m) => Err(m),
                Ok(e) => match verdict(e) {
                    Verdict::Take(p) => Ok(paths.push(p)),
                    Verdict::Reject(m) => Err(m),
                    _ => Ok(paths),
                },
            },
        }
    }
}

/// The paths a bundle would write, or why it is refused: a bundle holds at
/// least one file and not too many.
pub open spec fn bundle_paths(l: Seq<Result<Listed, Seq<char>>>) -> Result<
    Seq<Seq<char>>,
    Seq<char>,
> {
    match taken(l) {
        Err(m) => Err(m),
        Ok(paths) => if paths.len() == 0 {
            Err("bundle contains no files"@)
        } else if paths.len() > MAX_BUNDLE_ENTRIES {
            Err("bundle has more than 2000 files"@)
        } else {
            Ok(paths)
        },
    }
}

/// Whether a result on strings is the given one on texts.
pub open spec fn same_outcome(
    r: Result<Vec<String>, String>,
    s: Result<Seq<Seq<char>>, Seq<char>>,
) -> bool {
    match (r, s) {
        (Ok(v), Ok(t)) => texts(v@) == t,
        (Err(m), Err(n)) => m@ == n,
        _ => false,
    }
}

/// The paths that the entries of a listing would be written under.
pub fn entry_paths(listing: &Vec<Result<EntryHeader, String>>) -> (r: Result<Vec<String>, String>)
    ensures
        same_outcome(r, bundle_paths(listing_view(listing@))),
{
    let mut paths: Vec<String> = Vec::new();
    let ghost l = listing_view(listing@);
    let mut i: usize = 0;
    proof {
        assert(texts(paths@) =~= Seq::<Seq<char>>::empty());
    }
    while i < listing.len()
        invariant
            i <= listing.len(),
            l == listing_view(listing@),
            taken(l.take(i as int)) == Ok::<Seq<Seq<char>>, Seq<char>>(texts(paths@)),
        decreases listing.len() - i,
    {
        proof {
            assert(l.take(i + 1).drop_last() =~= l.take(i as int));
            assert(l.take(i + 1).last() == step_view(listing@[i as int]));
        }
        match &listing[i] {
            Err(m) => {
                proof {
                    lemma_taken_stops(l, i + 1);
                }
                return Err(m.clone());
            },
            Ok(e) => match classify_entry(e) {
                EntryVerdict::Take(rel) => {
                    let ghost before = paths@;
                    let ghost p = rel@;
                    paths.push(rel);
                    proof {
                        assert(texts(paths@) =~= texts(before).push(p));
                    }
                },
                EntryVerdict::Ignore => {},
                EntryVerdict::Skip(_) => {},
                EntryVerdict::Reject(m) => {
                    proof {
                        lemma_taken_stops(l, i + 1);
                    }
                    return Err(m);
                },
            },
        }
        i += 1;
    }
    proof {
        assert(l.take(l.len() as int) =~= l);
        assert(texts(paths@).len() == paths@.len());
    }
    if paths.len() == 0 {
        return Err("bundle contains no files".to_owned());
    }
    if paths.len() > MAX_BUNDLE_ENTRIES {
        return Err("bundle has more than 2000 files".to_owned());
    }
    Ok(paths)
}

/// An error among the first entries is the error of the whole listing.
proof fn lemma_taken_stops(l: Seq<Result<Listed, Seq<char>>>, n: int)
    requires
        0 <= n <= l.len(),
        taken(l.take(n)) is Err,
    ensures
        taken(l) == taken(l.take(n)),
    decreases l.len(),
{
    if n < l.len() {
        assert(l.drop_last().take(n) =~= l.take(n));
        lemma_taken_stops(l.drop_last(), n);
    } else {
        assert(l.take(n) =~= l);
    }
}

/// The paths that a bundle would be written under, or why it is refused.
pub fn bundle_entry_paths(body: &[u8]) -> (r: Result<Vec<String>, String>)
    ensures
        same_outcome(r, bundle_paths(listing_of(body@))),
{
    let listing = list_upload(body);
    entry_paths(&listing)
}

/// The single top-level directory that every path lies in, where there is one.
pub open spec fn shared_root(paths: Seq<Seq<char>>) -> Option<Seq<char>> {
    if paths.len() == 0 {
        None
    } else {
        let first = split(paths[0], '/')[0];
        if (forall|i: int|
            0 <= i < paths.len() ==> (first + "/"@).is_prefix_of(#[trigger] paths[i]))
            && !paths.contains("index.html"@) {
            Some(first)
        } else {
            None
        }
    }
}

/// The directory that wraps a whole archive: `tar -czf - dist` wraps
/// everything in `dist/`, while `tar -czf - -C dist .` does not, and both work.
pub fn bundle_strip_prefix(paths: &Vec<String>) -> (r: Option<String>)
    ensures
        match r {
            Some(p) => shared_root(texts(paths@)) == Some(p@),
            None => shared_root(texts(paths@)) is None,
        },
{
    if paths.len() == 0 {
        return None;
    }
    let parts = split_on(paths[0].as_str(), '/');
    let first = parts[0].clone();
    let lead = first.clone().concat("/");
    let ghost all = texts(paths@);
    proof {
        assert(texts(parts@)[0] == parts@[0]@);
        assert(all[0] == paths@[0]@);
    }
    let mut i: usize = 0;
    while i < paths.len()
        invariant
            i <= paths.len(),
            all == texts(paths@),
            all.len() > 0,
            first@ == split(all[0], '/')[0],
            lead@ == first@ + "/"@,
            forall|j: int| 0 <= j < i ==> lead@.is_prefix_of(#[trigger] all[j]),
            forall|j: int| 0 <= j < i ==> #[trigger] all[j] != "index.html"@,
        decreases paths.len() - i,
    {
        assert(all[i as int] == paths@[i as int]@);
        if !starts_with(paths[i].as_str(), lead.as_str()) {
            assert(!lead@.is_prefix_of(all[i as int]));
            return None;
        }
        if same(paths[i].as_str(), "index.html") {
            assert(all.contains("index.html"@));
            return None;
        }
        i += 1;
    }
    Some(first)
}

/// What a bundle left behind.
pub struct Unpacked {
    pub files: Vec<String>,
    pub skipped: Vec<&'static str>,
}

/// One file to write: which entry of the archive, and where.
pub struct Planned {
    pub entry: usize,
    pub path: String,
}

/// What unpacking a bundle does: the files it writes, in order, and what it
/// then reports.
pub struct BundlePlan {
    pub writes: Vec<Planned>,
    pub outcome: Result<Unpacked, String>,
}

/// How far the unpacking of a listing has come.
pub struct Walk {
    pub writes: Seq<(int, Seq<char>)>,
    pub skipped: Seq<Seq<char>>,
    pub total: int,
    pub error: Option<Seq<char>>,
}

/// A path without the directory that wraps the bundle.
pub open spec fn unwrapped(p: Seq<char>, root: Option<Seq<char>>) -> Seq<char> {
    match root {
        Some(r) => if (r + "/"@).is_prefix_of(p) {
            p.skip((r.len() + 1) as int)
        } else {
            p
        },
        None => p,
    }
}

/// The size that an entry counts for.
pub open spec fn counted(e: Listed) -> int {
    match e.size {
        Some(n) => n as int,
        None => 0,
    }
}

/// The unpacking of a listing, entry by entry: it stops at the first error, at
/// the first refusal, and where the sizes add up to too much.
pub open spec fn walk(l: Seq<Result<Listed, Seq<char>>>, root: Option<Seq<char>>) -> Walk
    decreases l.len(),
{
    if l.len() == 0 {
        Walk { writes: Seq::empty(), skipped: Seq::empty(), total: 0, error: None }
    } else {
        let w = walk(l.drop_last(), root);
        if w.error is Some {
            w
        } else {
            match l.last() {
                Err(m) => Walk { error: Some(m), ..w },
                Ok(e) => match verdict(e) {
                    Verdict::Ignore => w,
                    Verdict::Skip(why) => if w.skipped.contains(why) {
                        w
                    } else {
                        Walk { skipped: w.skipped.push(why), ..w }
                    },
                    Verdict::Reject(m) => Walk { error: Some(m), ..w },
                    Verdict::Take(p) => {
                        let rel = unwrapped(p, root);
                        let total = w.total + counted(e);
                        if rel.len() == 0 {
                            w
                        } else if total > MAX_BUNDLE_UNPACKED {
                            Walk { error: Some("bundle exceeds 128 MB unpacked"@), total, ..w }
                        } else {
                            Walk { writes: w.writes.push((l.len() - 1, rel)), total, ..w }
                        }
                    },
                },
            }
        }
    }
}

/// The writes of a plan over mathematical values.
pub open spec fn writes_view(v: Seq<Planned>) -> Seq<(int, Seq<char>)> {
    v.map_values(|p: Planned| (p.entry as int, p.path@))
}

/// The texts of a list of fixed strings.
pub open spec fn labels(v: Seq<&'static str>) -> Seq<Seq<char>> {
    v.map_values(|s: &'static str| s@)
}

/// The paths of a list of writes.
pub open spec fn write_paths(v: Seq<(int, Seq<char>)>) -> Seq<Seq<char>> {
    v.map_values(|w: (int, Seq<char>)| w.1)
}

/// Whether a plan is what unpacking a listing does.
pub open spec fn plan_of(l: Seq<Result<Listed, Seq<char>>>, plan: BundlePlan) -> bool {
    match bundle_paths(l) {
        Err(m) => {
            &&& plan.writes.len() == 0
            &&& plan.outcome matches Err(n)
            &&& n@ == m
        },
        Ok(paths) => {
            let w = walk(l, shared_root(paths));
            &&& writes_view(plan.writes@) == w.writes
            &&& match (plan.outcome, w.error) {
                (Err(n), Some(m)) => n@ == m,
                (Ok(u), None) => {
                    &&& in_order(texts(u.files@))
                    &&& texts(u.files@).to_multiset() == write_paths(w.writes).to_multiset()
                    &&& labels(u.skipped@) == w.skipped
                },
                _ => false,
            }
        },
    }
}

/// An error of the first entries is the error of the whole walk.
proof fn lemma_walk_stops(l: Seq<Result<Listed, Seq<char>>>, root: Option<Seq<char>>, n: int)
    requires
        0 <= n <= l.len(),
        walk(l.take(n), root).error is Some,
    ensures
        walk(l, root) == walk(l.take(n), root),
    decreases l.len(),
{
    if n < l.len() {
        assert(l.drop_last().take(n) =~= l.take(n));
        lemma_walk_stops(l.drop_last(), root, n);
    } else {
        assert(l.take(n) =~= l);
    }
}

/// Whether a reason is among those reported already.
fn reported(skipped: &Vec<&'static str>, why: &'static str) -> (r: bool)
    ensures
        r == labels(skipped@).contains(why@),
{
    let mut i: usize = 0;
    while i < skipped.len()
        invariant
            i <= skipped.len(),
            forall|j: int| 0 <= j < i ==> #[trigger] labels(skipped@)[j] != why@,
        decreases skipped.len() - i,
    {
        if same(skipped[i], why) {
            assert(labels(skipped@)[i as int] == why@);
            return true;
        }
        i += 1;
    }
    false
}

/// Plans the unpacking of a listing.
pub fn plan_bundle(listing: &Vec<Result<EntryHeader, String>>) -> (r: BundlePlan)
    ensures
        plan_of(listing_view(listing@), r),
{
    let ghost l = listing_view(listing@);
    let paths = match entry_paths(listing) {
        Ok(paths) => paths,
        Err(m) => {
            return BundlePlan { writes: Vec::new(), outcome: Err(m) };
        },
    };
    let strip = bundle_strip_prefix(&paths);
    let ghost root = shared_root(texts(paths@));
    let mut writes: Vec<Planned> = Vec::new();
    let mut files: Vec<String> = Vec::new();
    let mut skipped: Vec<&'static str> = Vec::new();
    let mut total: u64 = 0;
    let mut i: usize = 0;
    proof {
        assert(l.take(0) =~= Seq::empty());
    }
    while i < listing.len()
        invariant
            i <= listing.len(),
            l == listing_view(listing@),
            bundle_paths(l) == Ok::<Seq<Seq<char>>, Seq<char>>(texts(paths@)),
            root == shared_root(texts(paths@)),
            match strip {
                Some(p) => root == Some(p@),
                None => root is None,
            },
            total <= MAX_BUNDLE_UNPACKED,
            ({
                let w = walk(l.take(i as int), root);
                &&& w.error is None
                &&& w.total == total
                &&& writes_view(writes@) == w.writes
                &&& texts(files@) == write_paths(w.writes)
                &&& labels(skipped@) == w.skipped
            }),
        decreases listing.len() - i,
    {
        let ghost w = walk(l.take(i as int), root);
        proof {
            assert(l.take(i + 1).drop_last() =~= l.take(i as int));
            assert(l.take(i + 1).last() == step_view(listing@[i as int]));
        }
        let entry = match &listing[i] {
            Ok(entry) => entry,
            Err(m) => {
                proof {
                    lemma_walk_stops(l, root, i + 1);
                }
                return BundlePlan { writes, outcome: Err(m.clone()) };
            },
        };
        match classify_entry(entry) {
            EntryVerdict::Ignore => {},
            EntryVerdict::Skip(why) => {
                if !reported(&skipped, why) {
                    let ghost before = skipped@;
                    skipped.push(why);
                    proof {
                        assert(labels(skipped@) =~= labels(before).push(why@));
                    }
                }
            },
            EntryVerdict::Reject(m) => {
                proof {
                    lemma_walk_stops(l, root, i + 1);
                }
                return BundlePlan { writes, outcome: Err(m) };
            },
            EntryVerdict::Take(p) => {
                let rel: String = match &strip {
                    Some(root) => match strip_prefix(
                        p.as_str(),
                        root.clone().concat("/").as_str(),
                    ) {
                        Some(rest) => {
                            proof {
                                reveal_strlit("/");
                            }
                            rest
                        },
                        None => p,
                    },
                    None => p,
                };
                if !rel.as_str().is_empty() {
                    let size: u64 = match entry.size {
                        Some(n) => n,
                        None => 0,
                    };
                    if size > MAX_BUNDLE_UNPACKED - total {
                        proof {
                            lemma_walk_stops(l, root, i + 1);
                        }
                        return BundlePlan {
                            writes,
                            outcome: Err("bundle exceeds 128 MB unpacked".to_owned()),
                        };
                    }
                    total = total + size;
                    let ghost before = writes@;
                    let ghost names = files@;
                    let ghost path = rel@;
                    files.push(rel.clone());
                    writes.push(Planned { entry: i, path: rel });
                    proof {
                        assert(writes_view(writes@) =~= writes_view(before).push((i as int, path)));
                        assert(texts(files@) =~= texts(names).push(path));
                        assert(write_paths(w.writes.push((i as int, path))) =~= write_paths(
                            w.writes,
                        ).push(path));
                    }
                }
            },
        }
        i += 1;
    }
    proof {
        assert(l.take(l.len() as int) =~= l);
    }
    BundlePlan { writes, outcome: Ok(Unpacked { files: sort(files), skipped }) }
}

/// The files of a bundle, in the order they are written, and what is then
/// reported.
pub struct BundleFiles {
    pub files: Vec<(String, Vec<u8>)>,
    pub outcome: Result<Unpacked, String>,
}

/// How far a plan was filled.
pub struct Filling {
    pub files: Seq<(Seq<char>, Seq<u8>)>,
    pub error: Option<Seq<char>>,
}

/// The files of a list of writes, up to the first that could not be read.
pub open spec fn filling(
    writes: Seq<(int, Seq<char>)>,
    contents: Seq<Result<Seq<u8>, Seq<char>>>,
) -> Filling
    decreases writes.len(),
{
    if writes.len() == 0 {
        Filling { files: Seq::empty(), error: None }
    } else {
        let f = filling(writes.drop_last(), contents);
        if f.error is Some {
            f
        } else {
            match content_at(contents, writes.last().0) {
                Ok(bytes) => Filling { files: f.files.push((writes.last().1, bytes)), error: None },
                Err(m) => Filling { error: Some(m), ..f },
            }
        }
    }
}

/// Files over mathematical values.
pub open spec fn files_view(v: Seq<(String, Vec<u8>)>) -> Seq<(Seq<char>, Seq<u8>)> {
    v.map_values(|f: (String, Vec<u8>)| (f.0@, f.1@))
}

/// Whether files are those of a plan: all of them with what the plan reports,
/// or those before the first that could not be read, with why.
pub open spec fn is_filled(
    plan: BundlePlan,
    contents: Seq<Result<Seq<u8>, Seq<char>>>,
    r: BundleFiles,
) -> bool {
    let f = filling(writes_view(plan.writes@), contents);
    &&& files_view(r.files@) == f.files
    &&& match f.error {
        Some(m) => r.outcome matches Err(n) && n@ == m,
        None => r.outcome == plan.outcome,
    }
}

/// What could not be read of the first writes could not be read of all.
proof fn lemma_filling_stops(
    writes: Seq<(int, Seq<char>)>,
    contents: Seq<Result<Seq<u8>, Seq<char>>>,
    n: int,
)
    requires
        0 <= n <= writes.len(),
        filling(writes.take(n), contents).error is Some,
    ensures
        filling(writes, contents) == filling(writes.take(n), contents),
    decreases writes.len(),
{
    if n < writes.len() {
        assert(writes.drop_last().take(n) =~= writes.take(n));
        lemma_filling_stops(writes.drop_last(), contents, n);
    } else {
        assert(writes.take(n) =~= writes);
    }
}

/// Fills a plan with what the entries of the archive hold.
pub fn fill_plan(plan: BundlePlan, contents: &Vec<Result<Vec<u8>, String>>) -> (r: BundleFiles)
    ensures
        is_filled(plan, contents_view(contents@), r),
{
    let ghost writes = writes_view(plan.writes@);
    let ghost c = contents_view(contents@);
    let mut files: Vec<(String, Vec<u8>)> = Vec::new();
    let mut i: usize = 0;
    proof {
        assert(writes.take(0) =~= Seq::empty());
    }
    while i < plan.writes.len()
        invariant
            i <= plan.writes.len(),
            writes == writes_view(plan.writes@),
            c == contents_view(contents@),
            filling(writes.take(i as int), c).error is None,
            files_view(files@) == filling(writes.take(i as int), c).files,
        decreases plan.writes.len() - i,
    {
        proof {
            assert(writes.take(i + 1).drop_last() =~= writes.take(i as int));
            assert(writes.take(i + 1).last() == writes[i as int]);
        }
        match content(contents, plan.writes[i].entry) {
            Ok(bytes) => {
                let ghost before = files@;
                let ghost file = (plan.writes@[i as int].path@, bytes@);
                files.push((plan.writes[i].path.clone(), bytes));
                assert(files_view(files@) =~= files_view(before).push(file));
            },
            Err(m) => {
                proof {
                    lemma_filling_stops(writes, c, i + 1);
                }
                return BundleFiles { files, outcome: Err(m) };
            },
        }
        i += 1;
    }
    proof {
        assert(writes.take(writes.len() as int) =~= writes);
    }
    BundleFiles { files, outcome: plan.outcome }
}

/// What is asked for of each of the first `n` entries: all of those that are
/// written, nothing of the others.
pub open spec fn asked_for(writes: Seq<(int, Seq<char>)>, n: nat) -> Seq<u64> {
    Seq::new(
        n,
        |i: int|
            if exists|j: int| 0 <= j < writes.len() && #[trigger] writes[j].0 == i {
                u64::MAX
            } else {
                0u64
            },
    )
}

/// What is asked for of each of the first `n` entries.
fn ask_for(writes: &Vec<Planned>, n: usize) -> (r: Vec<u64>)
    ensures
        r@ == asked_for(writes_view(writes@), n as nat),
{
    let ghost w = writes_view(writes@);
    let mut r: Vec<u64> = Vec::new();
    let mut i: usize = 0;
    while i < n
        invariant
            i <= n,
            w == writes_view(writes@),
            r@ == asked_for(w, i as nat),
        decreases n - i,
    {
        let mut taken = false;
        let mut j: usize = 0;
        while j < writes.len()
            invariant
                j <= writes.len(),
                w == writes_view(writes@),
                taken == exists|k: int| 0 <= k < j && #[trigger] w[k].0 == i,
            decreases writes.len() - j,
        {
            assert(w[j as int].0 == writes@[j as int].entry);
            if writes[j].entry == i {
                taken = true;
            }
            j += 1;
        }
        r.push(
            if taken {
                u64::MAX
            } else {
                0
            },
        );
        assert(r@ =~= asked_for(w, (i + 1) as nat));
        i += 1;
    }
    r
}

/// Unpacks an uploaded archive: the files to write, and what to report.
pub fn unpack_bundle(body: &[u8]) -> (r: BundleFiles)
    ensures
        exists|plan: BundlePlan| #[trigger]
            plan_of(listing_of(body@), plan) && is_filled(
                plan,
                contents_of(
                    body@,
                    asked_for(writes_view(plan.writes@), listing_of(body@).len()),
                ),
                r,
            ),
{
    let listing = list_upload(body);
    let plan = plan_bundle(&listing);
    let contents = read_upload(body, &ask_for(&plan.writes, listing.len()));
    assert(listing_view(listing@).len() == listing@.len());
    fill_plan(plan, &contents)
}

/// The name of the file that a path leads to.
pub open spec fn file_name(path: Seq<char>) -> Seq<char> {
    split(path, '/').last()
}

/// Whether an entry is a file of SQL.
pub open spec fn is_sql(e: Listed) -> bool {
    e.is_file && has_ending(file_name(e.path), ".sql"@)
}

/// The files of SQL in an archive, by their names, or the first thing that could
/// not be read.
pub open spec fn sql_files(
    l: Seq<Result<Listed, Seq<char>>>,
    contents: Seq<Result<Seq<u8>, Seq<char>>>,
) -> Result<Seq<(Seq<char>, Seq<char>)>, Seq<char>>
    decreases l.len(),
{
    if l.len() == 0 {
        Ok(Seq::empty())
    } else {
        match sql_files(l.drop_last(), contents) {
            Err(m) => Err(m),
            Ok(found) => match l.last() {
                Err(m) => Err(m),
                Ok(e) => if !is_sql(e) {
                    Ok(found)
                } else {
                    match content_at(contents, l.len() - 1) {
                        Err(m) => Err(m),
                        Ok(bytes) => if valid_utf8(bytes) {
                            Ok(found.push((file_name(e.path), decode_utf8(bytes))))
                        } else {
                            Err(file_name(e.path) + " is not UTF-8"@)
                        },
                    }
                },
            },
        }
    }
}

/// An error in the first entries is the error of them all.
proof fn lemma_sql_stops(
    l: Seq<Result<Listed, Seq<char>>>,
    contents: Seq<Result<Seq<u8>, Seq<char>>>,
    n: int,
)
    requires
        0 <= n <= l.len(),
        sql_files(l.take(n), contents) is Err,
    ensures
        sql_files(l, contents) == sql_files(l.take(n), contents),
    decreases l.len(),
{
    if n < l.len() {
        assert(l.drop_last().take(n) =~= l.take(n));
        lemma_sql_stops(l.drop_last(), contents, n);
    } else {
        assert(l.take(n) =~= l);
    }
}

/// Named texts over mathematical values.
pub open spec fn named_view(v: Seq<(String, String)>) -> Seq<(Seq<char>, Seq<char>)> {
    v.map_values(|f: (String, String)| (f.0@, f.1@))
}

/// Whether named texts, or an error, are what was to be read.
pub open spec fn same_files(
    r: Result<Vec<(String, String)>, String>,
    s: Result<Seq<(Seq<char>, Seq<char>)>, Seq<char>>,
) -> bool {
    match (r, s) {
        (Ok(v), Ok(f)) => named_view(v@) == f,
        (Err(n), Err(m)) => n@ == m,
        _ => false,
    }
}

/// The name of the file that a path leads to.
fn name_of(path: &str) -> (r: String)
    ensures
        r@ == file_name(path@),
{
    let parts = split_on(path, '/');
    proof {
        lemma_split_len(path@, '/');
        assert(texts(parts@).last() == parts@[parts@.len() - 1]@);
    }
    parts[parts.len() - 1].clone()
}

/// Picks the files of SQL out of what an archive holds.
pub fn sql_in(
    listing: &Vec<Result<EntryHeader, String>>,
    contents: &Vec<Result<Vec<u8>, String>>,
) -> (r: Result<Vec<(String, String)>, String>)
    ensures
        same_files(r, sql_files(listing_view(listing@), contents_view(contents@))),
{
    let ghost l = listing_view(listing@);
    let ghost c = contents_view(contents@);
    let mut found: Vec<(String, String)> = Vec::new();
    let mut i: usize = 0;
    proof {
        assert(l.take(0) =~= Seq::empty());
        assert(named_view(found@) =~= Seq::empty());
    }
    while i < listing.len()
        invariant
            i <= listing.len(),
            l == listing_view(listing@),
            c == contents_view(contents@),
            sql_files(l.take(i as int), c) == Ok::<Seq<(Seq<char>, Seq<char>)>, Seq<char>>(
                named_view(found@),
            ),
        decreases listing.len() - i,
    {
        proof {
            assert(l.take(i + 1).drop_last() =~= l.take(i as int));
            assert(l.take(i + 1).last() == step_view(listing@[i as int]));
        }
        let entry = match &listing[i] {
            Ok(entry) => entry,
            Err(m) => {
                proof {
                    lemma_sql_stops(l, c, i + 1);
                }
                return Err(m.clone());
            },
        };
        let name = name_of(entry.path.as_str());
        if entry.is_file && is_migration(name.as_str()) {
            let bytes = match content(contents, i) {
                Ok(bytes) => bytes,
                Err(m) => {
                    proof {
                        lemma_sql_stops(l, c, i + 1);
                    }
                    return Err(m);
                },
            };
            match utf8_text(bytes.as_slice()) {
                Some(text) => {
                    let ghost before = found@;
                    let ghost file = (name@, text@);
                    found.push((name, text));
                    assert(named_view(found@) =~= named_view(before).push(file));
                },
                None => {
                    proof {
                        lemma_sql_stops(l, c, i + 1);
                    }
                    return Err(name.concat(" is not UTF-8"));
                },
            }
        }
        i += 1;
    }
    proof {
        assert(l.take(l.len() as int) =~= l);
    }
    Ok(found)
}

/// What is asked for of each entry: all of a file of SQL, nothing of another.
pub open spec fn sql_asked_for(l: Seq<Result<Listed, Seq<char>>>) -> Seq<u64> {
    l.map_values(
        |e: Result<Listed, Seq<char>>|
            match e {
                Ok(e) => if is_sql(e) {
                    u64::MAX
                } else {
                    0u64
                },
                Err(_) => 0u64,
            },
    )
}

/// What is asked for of each entry.
fn ask_for_sql(listing: &Vec<Result<EntryHeader, String>>) -> (r: Vec<u64>)
    ensures
        r@ == sql_asked_for(listing_view(listing@)),
{
    let mut r: Vec<u64> = Vec::new();
    let mut i: usize = 0;
    while i < listing.len()
        invariant
            i <= listing.len(),
            r@ == sql_asked_for(listing_view(listing@)).take(i as int),
        decreases listing.len() - i,
    {
        let wanted = match &listing[i] {
            Ok(entry) => entry.is_file && is_migration(name_of(entry.path.as_str()).as_str()),
            Err(_) => false,
        };
        r.push(
            if wanted {
                u64::MAX
            } else {
                0
            },
        );
        assert(r@ =~= sql_asked_for(listing_view(listing@)).take(i + 1));
        i += 1;
    }
    assert(r@ =~= sql_asked_for(listing_view(listing@)));
    r
}

/// The files of SQL in an uploaded archive, in the order they come in.
pub fn read_sql_files(body: &[u8]) -> (r: Result<Vec<(String, String)>, String>)
    ensures
        same_files(
            r,
            sql_files(
                listing_of(body@),
                contents_of(body@, sql_asked_for(listing_of(body@))),
            ),
        ),
{
    let listing = list_upload(body);
    let contents = read_upload(body, &ask_for_sql(&listing));
    sql_in(&listing, &contents)
}

/// A path of an asset without its first directory is still the path of an
/// asset.
proof fn lemma_unwrapped(p: Seq<char>, root: Seq<char>)
    requires
        is_asset_path(p),
        !root.contains('/'),
        (root + "/"@).is_prefix_of(p),
    ensures
        is_asset_path(p.skip((root.len() + 1) as int)),
{
    reveal_strlit("/");
    let rest = p.skip((root.len() + 1) as int);
    let lead = root + "/"@;
    assert(lead =~= root + seq!['/']);
    assert(p =~= root + seq!['/'] + rest) by {
        assert(p.subrange(0, lead.len() as int) == lead);
        assert forall|i: int| 0 <= i < p.len() implies p[i] == (root + seq!['/'] + rest)[i] by {
            if i < lead.len() {
                assert(p.subrange(0, lead.len() as int)[i] == lead[i]);
            }
        }
    }
    lemma_split_head(root, '/', rest);
    let parts = split(rest, '/');
    assert forall|i: int|
        0 <= i < parts.len() implies crate::content::slug::is_asset_segment(
        #[trigger] parts[i],
    ) by {
        assert(split(p, '/')[i + 1] == parts[i]);
    }
    lemma_split_len(rest, '/');
    if rest.len() == 0 {
        assert(rest =~= Seq::empty());
        assert(parts[0] =~= Seq::<char>::empty());
    }
}

/// The walk writes paths of assets only.
proof fn lemma_walk_paths(l: Seq<Result<Listed, Seq<char>>>, root: Option<Seq<char>>)
    requires
        root matches Some(r) ==> !r.contains('/'),
    ensures
        forall|i: int|
            0 <= i < walk(l, root).writes.len() ==> {
                let w = #[trigger] walk(l, root).writes[i];
                is_asset_path(w.1) && 0 <= w.0 < l.len()
            },
    decreases l.len(),
{
    if l.len() > 0 {
        lemma_walk_paths(l.drop_last(), root);
        match l.last() {
            Ok(e) => match verdict(e) {
                Verdict::Take(p) => {
                    if let Some(r) = root {
                        if (r + "/"@).is_prefix_of(p) {
                            lemma_unwrapped(p, r);
                        }
                    }
                },
                _ => {},
            },
            Err(_) => {},
        }
    }
}

/// No bundle writes outside the directory it is unpacked into: every path that
/// a plan writes is the path of an asset, for any archive whatever.
pub proof fn bundle_stays_inside(l: Seq<Result<Listed, Seq<char>>>, plan: BundlePlan)
    requires
        plan_of(l, plan),
    ensures
        forall|i: int|
            0 <= i < plan.writes.len() ==> is_asset_path((#[trigger] plan.writes@[i]).path@)
                && plan.writes@[i].entry < l.len(),
{
    if let Ok(paths) = bundle_paths(l) {
        let root = shared_root(paths);
        crate::text::lemma_split_free(paths[0], '/');
        lemma_split_len(paths[0], '/');
        lemma_walk_paths(l, root);
        let w = walk(l, root);
        assert forall|i: int| 0 <= i < plan.writes.len() implies is_asset_path(
            (#[trigger] plan.writes@[i]).path@,
        ) && plan.writes@[i].entry < l.len() by {
            assert(writes_view(plan.writes@)[i] == w.writes[i]);
        }
    }
}

/// Only files that a plan writes are among those that it is filled to.
proof fn lemma_filling_paths(
    writes: Seq<(int, Seq<char>)>,
    contents: Seq<Result<Seq<u8>, Seq<char>>>,
    k: int,
)
    requires
        0 <= k < filling(writes, contents).files.len(),
    ensures
        k < writes.len(),
        filling(writes, contents).files[k].0 == writes[k].1,
        content_at(contents, writes[k].0) == Ok::<Seq<u8>, Seq<char>>(
            filling(writes, contents).files[k].1,
        ),
        filling(writes, contents).files.len() <= writes.len(),
        filling(writes, contents).error is None ==> filling(writes, contents).files.len()
            == writes.len(),
    decreases writes.len(),
{
    lemma_filling_len(writes, contents);
    if writes.len() > 0 {
        let f = filling(writes.drop_last(), contents);
        lemma_filling_len(writes.drop_last(), contents);
        if k < f.files.len() {
            lemma_filling_paths(writes.drop_last(), contents, k);
        }
    }
}

/// A plan is filled from its front.
proof fn lemma_filling_len(
    writes: Seq<(int, Seq<char>)>,
    contents: Seq<Result<Seq<u8>, Seq<char>>>,
)
    ensures
        filling(writes, contents).files.len() <= writes.len(),
        filling(writes, contents).error is None ==> filling(writes, contents).files.len()
            == writes.len(),
    decreases writes.len(),
{
    if writes.len() > 0 {
        lemma_filling_len(writes.drop_last(), contents);
    }
}

/// What is written of a bundle is what its archive holds, under paths that stay
/// inside: every file is one that the plan takes, at the place that the plan
/// gives it, with all that its entry holds.
pub proof fn files_are_what_the_archive_holds(
    l: Seq<Result<Listed, Seq<char>>>,
    plan: BundlePlan,
    contents: Seq<Result<Seq<u8>, Seq<char>>>,
    r: BundleFiles,
    k: int,
)
    requires
        plan_of(l, plan),
        is_filled(plan, contents, r),
        0 <= k < r.files.len(),
    ensures
        is_asset_path(r.files@[k].0@),
        k < plan.writes.len(),
        r.files@[k].0@ == plan.writes@[k].path@,
        content_at(contents, plan.writes@[k].entry as int) == Ok::<Seq<u8>, Seq<char>>(
            r.files@[k].1@,
        ),
{
    bundle_stays_inside(l, plan);
    let writes = writes_view(plan.writes@);
    assert(files_view(r.files@)[k] == (r.files@[k].0@, r.files@[k].1@));
    lemma_filling_paths(writes, contents, k);
    assert(writes[k] == (plan.writes@[k].entry as int, plan.writes@[k].path@));
}

/// One entry that leads out of the directory refuses the whole bundle, and
/// nothing of it is written.
pub proof fn traversal_refuses_the_bundle(
    l: Seq<Result<Listed, Seq<char>>>,
    k: int,
    plan: BundlePlan,
)
    requires
        plan_of(l, plan),
        0 <= k < l.len(),
        l[k] matches Ok(e) && verdict(e) is Reject,
    ensures
        plan.writes.len() == 0,
        plan.outcome is Err,
{
    lemma_reject(l, k);
}

proof fn lemma_reject(l: Seq<Result<Listed, Seq<char>>>, k: int)
    requires
        0 <= k < l.len(),
        l[k] matches Ok(e) && verdict(e) is Reject,
    ensures
        taken(l) is Err,
    decreases l.len(),
{
    if k < l.len() - 1 {
        assert(l.drop_last()[k] == l[k]);
        lemma_reject(l.drop_last(), k);
    }
}

/// An archive without a file to take is refused.
pub proof fn empty_bundle_is_refused(l: Seq<Result<Listed, Seq<char>>>, plan: BundlePlan)
    requires
        plan_of(l, plan),
        forall|k: int|
            0 <= k < l.len() ==> ((#[trigger] l[k]) matches Ok(e) ==> !(verdict(e) is Take)),
    ensures
        plan.outcome is Err,
        plan.writes.len() == 0,
{
    lemma_nothing_taken(l);
}

proof fn lemma_nothing_taken(l: Seq<Result<Listed, Seq<char>>>)
    requires
        forall|k: int|
            0 <= k < l.len() ==> ((#[trigger] l[k]) matches Ok(e) ==> !(verdict(e) is Take)),
    ensures
        taken(l) matches Ok(paths) ==> paths.len() == 0,
    decreases l.len(),
{
    if l.len() > 0 {
        assert forall|k: int| 0 <= k < l.drop_last().len() implies ((
        #[trigger] l.drop_last()[k]) matches Ok(e) ==> !(verdict(e) is Take)) by {
            assert(l.drop_last()[k] == l[k]);
        }
        lemma_nothing_taken(l.drop_last());
        assert(l.last() == l[l.len() - 1]);
    }
}

} // verus!
