//! Where pages live: the files beside a slug, what they say about it, and what
//! the index shows.
use crate::config::Config;
use crate::content::slug::{alnum, is_alnum};
use crate::text::{
    decimal, digits, find_chars, find_text, lemma_find_text, lossy, lossy_text, lower, lowered,
    piece, split, split_on, starts_with, strip_suffix, texts, to_chars, trim, trimmed, utf8_text,
};
use vstd::prelude::*;
use vstd::utf8::{decode_utf8, encode_utf8, valid_utf8};

verus! {

/// Enough of a page to find its title without reading it whole.
pub const TITLE_SCAN_BYTES: u64 = 8192;

/// The URL of a page.
pub open spec fn page_url_of(config: Config, slug: Seq<char>) -> Seq<char> {
    config.page_base() + "/p/"@ + slug
}

/// The URL of a page.
pub fn page_url(config: &Config, slug: &str) -> (r: String)
    ensures
        r@ == page_url_of(*config, slug@),
{
    let base: String = match &config.base_url {
        Some(base) => base.clone(),
        None => String::new(),
    };
    base.concat("/p/").concat(slug)
}

/// A path inside a directory.
pub open spec fn inside(dir: Seq<char>, rel: Seq<char>) -> Seq<char> {
    if dir.len() == 0 || dir.last() == '/' {
        dir + rel
    } else {
        dir + "/"@ + rel
    }
}

/// A path inside a directory.
pub fn join_path(dir: &str, rel: &str) -> (r: String)
    ensures
        r@ == inside(dir@, rel@),
{
    let v = to_chars(dir);
    if v.len() == 0 || v[v.len() - 1] == '/' {
        dir.to_owned().concat(rel)
    } else {
        dir.to_owned().concat("/").concat(rel)
    }
}

/// The file `<slug><ending>` of an instance.
pub open spec fn beside(config: Config, slug: Seq<char>, ending: Seq<char>) -> Seq<char> {
    inside(config.data_dir@, slug + ending)
}

/// The file `<slug><ending>` of an instance.
pub fn file_beside(config: &Config, slug: &str, ending: &str) -> (r: String)
    ensures
        r@ == beside(*config, slug@, ending@),
{
    let rel = slug.to_owned().concat(ending);
    join_path(config.data_dir.as_str(), rel.as_str())
}

/// The file that backs a page, where either exists: the page itself, or, for an
/// app root, that app's index page.
pub fn page_path(config: &Config, slug: &str, direct: bool, index: bool) -> (r: Option<String>)
    ensures
        match r {
            Some(p) => if direct {
                p@ == beside(*config, slug@, ".html"@)
            } else {
                index && p@ == beside(*config, slug@, "/index.html"@)
            },
            None => !direct && !index,
        },
{
    if direct {
        Some(file_beside(config, slug, ".html"))
    } else if index {
        Some(file_beside(config, slug, "/index.html"))
    } else {
        None
    }
}

/// The file of a page's icon, where either spelling exists: icons live next to
/// their page, and an app root accepts either.
pub fn icon_path(config: &Config, slug: &str, direct: bool, index: bool) -> (r: Option<String>)
    ensures
        match r {
            Some(p) => if direct {
                p@ == beside(*config, slug@, ".icon"@)
            } else {
                index && p@ == beside(*config, slug@, "/index.icon"@)
            },
            None => !direct && !index,
        },
{
    if direct {
        Some(file_beside(config, slug, ".icon"))
    } else if index {
        Some(file_beside(config, slug, "/index.icon"))
    } else {
        None
    }
}

/// Where a page's sidecar is: beside the page, or inside the app for an app
/// root. Where nothing is written yet, it goes wherever the page itself lives.
pub fn meta_path(config: &Config, slug: &str, direct: bool, inner: bool, page: bool) -> (r: String)
    ensures
        r@ == if direct || (!inner && page) {
            beside(*config, slug@, ".meta"@)
        } else {
            beside(*config, slug@, "/index.meta"@)
        },
{
    if direct {
        return file_beside(config, slug, ".meta");
    }
    if inner {
        return file_beside(config, slug, "/index.meta");
    }
    if page {
        file_beside(config, slug, ".meta")
    } else {
        file_beside(config, slug, "/index.meta")
    }
}

/// A gate on the paths below a prefix.
pub struct PathRule {
    pub prefix: String,
    pub gate: String,
}

/// What is kept of a page beside it. Nothing kept means a normal, visible page.
pub struct PageMeta {
    /// Shown on the site index.
    pub listed: bool,
    /// Soft delete: the URL 404s, but the file is untouched and unhiding
    /// brings it straight back.
    pub hidden: bool,
    /// Client-routed bundle: unknown paths under the app fall back to its
    /// index.html instead of 404ing.
    pub spa: bool,
    /// Who may arrive: `public`, `authenticated` or `granted`.
    pub gate: String,
    /// Gates on parts of the app.
    pub rules: Vec<PathRule>,
    /// The hosts that the app's handler may call.
    pub allow_http: Vec<String>,
}

impl Default for PageMeta {
    fn default() -> (r: Self)
        ensures
            r.listed,
            !r.hidden,
            !r.spa,
            r.gate@ == "public"@,
            r.rules.len() == 0,
            r.allow_http.len() == 0,
    {
        PageMeta {
            listed: true,
            hidden: false,
            spa: false,
            gate: "public".to_owned(),
            rules: Vec::new(),
            allow_http: Vec::new(),
        }
    }
}

/// Whether a rule applies to a path: its prefix stands at the front.
pub open spec fn applies(rule: PathRule, path: Seq<char>) -> bool {
    rule.prefix@.is_prefix_of(path)
}

/// Whether the `k`-th rule is the one that decides on a path: it applies, and
/// no rule that applies is longer, or as long and later.
pub open spec fn decides(rules: Seq<PathRule>, path: Seq<char>, k: int) -> bool {
    &&& 0 <= k < rules.len()
    &&& applies(rules[k], path)
    &&& forall|j: int|
        0 <= j < rules.len() && applies(#[trigger] rules[j], path) ==> rules[j].prefix@.len()
            <= rules[k].prefix@.len() && (j > k ==> rules[j].prefix@.len()
            < rules[k].prefix@.len())
}

/// Whether `gate` is what a path asks for: what the longest rule says that
/// applies, or what the whole app asks for where none does.
pub open spec fn is_gate_for(meta: PageMeta, path: Seq<char>, gate: Seq<char>) -> bool {
    ||| exists|k: int| #[trigger]
        decides(meta.rules@, path, k) && gate == meta.rules@[k].gate@
    ||| (forall|j: int| 0 <= j < meta.rules.len() ==> !applies(#[trigger] meta.rules@[j], path))
        && gate == meta.gate@
}

/// What a path asks for.
pub open spec fn gate_of(meta: PageMeta, path: Seq<char>) -> Seq<char> {
    choose|gate: Seq<char>| is_gate_for(meta, path, gate)
}

impl PageMeta {
    /// What a path of the app asks for.
    pub fn gate_for(&self, path: &str) -> (r: String)
        ensures
            is_gate_for(*self, path@, r@),
            r@ == gate_of(*self, path@),
    {
        let mut best: Option<usize> = None;
        let mut longest: usize = 0;
        let mut i: usize = 0;
        while i < self.rules.len()
            invariant
                i <= self.rules.len(),
                match best {
                    Some(k) => {
                        &&& k < i
                        &&& applies(self.rules@[k as int], path@)
                        &&& longest == self.rules@[k as int].prefix@.len()
                        &&& forall|j: int|
                            0 <= j < i && applies(#[trigger] self.rules@[j], path@)
                                ==> self.rules@[j].prefix@.len() <= longest && (j > k
                                ==> self.rules@[j].prefix@.len() < longest)
                    },
                    None => forall|j: int|
                        0 <= j < i ==> !applies(#[trigger] self.rules@[j], path@),
                },
            decreases self.rules.len() - i,
        {
            let rule = &self.rules[i];
            if starts_with(path, rule.prefix.as_str()) {
                let n: usize = to_chars(rule.prefix.as_str()).len();
                if best.is_none() || n >= longest {
                    best = Some(i);
                    longest = n;
                }
            }
            i += 1;
        }
        let gate: String = match best {
            Some(k) => {
                assert(decides(self.rules@, path@, k as int));
                self.rules[k].gate.clone()
            },
            None => self.gate.clone(),
        };
        proof {
            assert(is_gate_for(*self, path@, gate@));
            gate_is_unique(*self, path@, gate@, gate_of(*self, path@));
        }
        gate
    }
}

/// What a path asks for is one text only.
pub proof fn gate_is_unique(meta: PageMeta, path: Seq<char>, a: Seq<char>, b: Seq<char>)
    requires
        is_gate_for(meta, path, a),
        is_gate_for(meta, path, b),
    ensures
        a == b,
{
    if exists|k: int| #[trigger] decides(meta.rules@, path, k) && a == meta.rules@[k].gate@ {
        let k = choose|k: int| #[trigger]
            decides(meta.rules@, path, k) && a == meta.rules@[k].gate@;
        assert(applies(meta.rules@[k], path));
        let m = choose|m: int| #[trigger]
            decides(meta.rules@, path, m) && b == meta.rules@[m].gate@;
        assert(decides(meta.rules@, path, m));
        assert(applies(meta.rules@[m], path));
        assert(k == m);
    } else {
        assert(a == meta.gate@);
        if exists|m: int| #[trigger] decides(meta.rules@, path, m) && b == meta.rules@[m].gate@ {
            let m = choose|m: int| #[trigger]
                decides(meta.rules@, path, m) && b == meta.rules@[m].gate@;
            assert(applies(meta.rules@[m], path));
        }
    }
}

/// How long ago something changed, coarsely.
pub open spec fn age(secs: nat) -> Seq<char> {
    if secs < 60 {
        "just now"@
    } else if secs < 3_600 {
        digits(secs / 60) + "m ago"@
    } else if secs < 86_400 {
        digits(secs / 3_600) + "h ago"@
    } else if secs < 2_592_000 {
        digits(secs / 86_400) + "d ago"@
    } else {
        digits(secs / 2_592_000) + "mo ago"@
    }
}

/// How long ago something changed, coarsely, for the index: exact times are
/// not worth their room there. A time that is still to come is just now.
pub fn relative_time(then: u64, now: u64) -> (r: String)
    ensures
        r@ == age(if then <= now {
            (now - then) as nat
        } else {
            0
        }),
{
    let secs: u64 = if then <= now {
        now - then
    } else {
        0
    };
    if secs < 60 {
        "just now".to_owned()
    } else if secs < 3_600 {
        decimal(secs / 60).concat("m ago")
    } else if secs < 86_400 {
        decimal(secs / 3_600).concat("h ago")
    } else if secs < 2_592_000 {
        decimal(secs / 86_400).concat("d ago")
    } else {
        decimal(secs / 2_592_000).concat("mo ago")
    }
}

/// Where the title of a page stands: after the first `<title ...>` and before
/// the `</title>` that follows, whatever the case of their letters.
pub open spec fn title_span(html: Seq<char>) -> Option<(int, int)> {
    let tags = lowered(html);
    match find_text(tags, "<title"@, 0) {
        None => None,
        Some(open) => match find_text(tags, ">"@, open) {
            None => None,
            Some(end) => match find_text(tags, "</title>"@, end + 1) {
                None => None,
                Some(close) => Some((end + 1, close)),
            },
        },
    }
}

/// The title of a page: the text found, trimmed, unless that is empty. It is
/// handed on raw; the page that shows it escapes it.
pub open spec fn title_of(html: Seq<char>) -> Option<Seq<char>> {
    match title_span(html) {
        None => None,
        Some((start, end)) => {
            let text = trimmed(html.subrange(start, end));
            if text.len() == 0 {
                None
            } else {
                Some(text)
            }
        },
    }
}

/// Whether an optional string is the given optional text.
pub open spec fn opt_text(r: Option<String>, s: Option<Seq<char>>) -> bool {
    match (r, s) {
        (Some(a), Some(b)) => a@ == b,
        (None, None) => true,
        _ => false,
    }
}

/// Where the title of a page stands.
fn find_title(html: &str) -> (r: Option<(usize, usize)>)
    ensures
        match r {
            Some((a, b)) => title_span(html@) == Some((a as int, b as int)) && a <= b <= html@.len(),
            None => title_span(html@) is None,
        },
{
    proof {
        reveal_strlit(">");
    }
    let tags = to_chars(lower(html).as_str());
    let open: usize = match find_chars(&tags, &to_chars("<title"), 0) {
        Some(k) => k,
        None => {
            return None;
        },
    };
    let end: usize = match find_chars(&tags, &to_chars(">"), open) {
        Some(k) => k,
        None => {
            return None;
        },
    };
    match find_chars(&tags, &to_chars("</title>"), end + 1) {
        Some(close) => Some((end + 1, close)),
        None => None,
    }
}

/// The title of a page.
pub fn title_in(html: &str) -> (r: Option<String>)
    ensures
        opt_text(r, title_of(html@)),
{
    let (start, end) = match find_title(html) {
        Some(span) => span,
        None => {
            return None;
        },
    };
    let title = trim(piece(&to_chars(html), start, end).as_str());
    if title.as_str().is_empty() {
        None
    } else {
        Some(title)
    }
}

/// The title of a page from its first bytes.
pub fn page_title(head: &[u8]) -> (r: Option<String>)
    ensures
        opt_text(r, title_of(lossy(head@))),
{
    title_in(lossy_text(head).as_str())
}

/// A page's title is text of the page itself: it stands in it, letter for
/// letter, between the first `<title` and a `</title>` behind it.
pub proof fn title_is_the_pages_own(html: Seq<char>)
    requires
        title_of(html) is Some,
    ensures
        title_span(html) matches Some((start, end)) && 0 <= start <= end && end + 8 <= html.len()
            && lowered(html).subrange(end, end + 8) == "</title>"@ && title_of(html) == Some(
            trimmed(html.subrange(start, end)),
        ),
{
    reveal_strlit(">");
    reveal_strlit("</title>");
    let tags = lowered(html);
    lemma_find_text(tags, "<title"@, 0);
    let open = find_text(tags, "<title"@, 0)->0;
    lemma_find_text(tags, ">"@, open);
    let end = find_text(tags, ">"@, open)->0;
    lemma_find_text(tags, "</title>"@, end + 1);
}

/// What is drawn for a page.
pub enum Icon {
    /// An emoji or other short scrap of text, drawn inline.
    Text(String),
    /// Anything with an image URL: an uploaded file, or a data: URI.
    Src(String),
    /// Fallback: initials on a slug-derived colour.
    Generated(String, u16),
}

/// An icon over mathematical values.
pub enum Drawn {
    Text(Seq<char>),
    Src(Seq<char>),
    Generated(Seq<char>, u16),
}

impl View for Icon {
    type V = Drawn;

    open spec fn view(&self) -> Drawn {
        match self {
            Icon::Text(s) => Drawn::Text(s@),
            Icon::Src(s) => Drawn::Src(s@),
            Icon::Generated(s, hue) => Drawn::Generated(s@, *hue),
        }
    }
}

/// One step of the hash behind a hue.
pub open spec fn hash_step(hash: u32, byte: u8) -> u32 {
    ((hash ^ (byte as u32)) * 16_777_619 % 0x1_0000_0000) as u32
}

/// The hash behind a hue.
pub open spec fn hash_of(bytes: Seq<u8>) -> u32
    decreases bytes.len(),
{
    if bytes.len() == 0 {
        2_166_136_261
    } else {
        hash_step(hash_of(bytes.drop_last()), bytes.last())
    }
}

/// The hue of a slug.
pub open spec fn hue_of(slug: Seq<char>) -> u16 {
    (hash_of(encode_utf8(slug)) % 360) as u16
}

/// A stable hue, so a page keeps the same generated colour forever.
pub fn slug_hue(slug: &str) -> (r: u16)
    ensures
        r == hue_of(slug@),
        r < 360,
{
    let bytes = slug.as_bytes();
    let mut hash: u32 = 2_166_136_261;
    let mut i: usize = 0;
    while i < bytes.len()
        invariant
            i <= bytes.len(),
            hash == hash_of(bytes@.take(i as int)),
        decreases bytes.len() - i,
    {
        proof {
            assert(bytes@.take(i + 1).drop_last() =~= bytes@.take(i as int));
        }
        let mixed: u32 = hash ^ (bytes[i] as u32);
        hash = mixed.wrapping_mul(16_777_619);
        i += 1;
    }
    proof {
        assert(bytes@.take(bytes@.len() as int) =~= bytes@);
    }
    (hash % 360) as u16
}

/// A letter of ASCII in upper case; any other character as it is.
pub open spec fn upper_char(c: char) -> char {
    if 'a' <= c && c <= 'z' {
        (c as u8 - 32) as char
    } else {
        c
    }
}

/// The first `n` letters and digits of a text, in upper case.
pub open spec fn initials_of(s: Seq<char>, n: nat) -> Seq<char>
    decreases s.len(),
{
    if s.len() == 0 {
        Seq::empty()
    } else {
        let before = initials_of(s.drop_last(), n);
        if before.len() < n && is_alnum(s.last()) {
            before.push(upper_char(s.last()))
        } else {
            before
        }
    }
}

/// The icon that a slug has where none was given: its last segment's initials.
pub open spec fn generated(slug: Seq<char>) -> Drawn {
    let initials = initials_of(split(slug, '/').last(), 2);
    Drawn::Generated(
        if initials.len() == 0 {
            "?"@
        } else {
            initials
        },
        hue_of(slug),
    )
}

/// What is drawn for a page, from what its icon file holds: a `data:` URI is an
/// image, a short text that is no markup stands for itself, anything else is
/// served as an image.
pub open spec fn icon_of(slug: Seq<char>, file: Option<Seq<u8>>) -> Drawn {
    match file {
        Some(bytes) => {
            let text = trimmed(decode_utf8(bytes));
            if valid_utf8(bytes) && "data:"@.is_prefix_of(text) {
                Drawn::Src(text)
            } else if valid_utf8(bytes) && 0 < text.len() <= 4 && text[0] != '<' {
                Drawn::Text(text)
            } else if bytes.len() > 0 {
                Drawn::Src("/icon/"@ + slug)
            } else {
                generated(slug)
            }
        },
        None => generated(slug),
    }
}

/// The initials of a text.
fn initials(s: &str) -> (r: String)
    ensures
        r@ == initials_of(s@, 2),
{
    let v = to_chars(s);
    let mut r = String::new();
    let mut n: usize = 0;
    let mut i: usize = 0;
    while i < v.len()
        invariant
            i <= v.len(),
            v@ == s@,
            n == r@.len(),
            n <= 2,
            r@ == initials_of(v@.take(i as int), 2),
        decreases v.len() - i,
    {
        proof {
            assert(v@.take(i + 1).drop_last() =~= v@.take(i as int));
        }
        let c = v[i];
        if n < 2 && alnum(c) {
            let up: char = if 'a' <= c && c <= 'z' {
                (c as u8 - 32) as char
            } else {
                c
            };
            r.push(up);
            n += 1;
        }
        i += 1;
    }
    proof {
        assert(v@.take(v@.len() as int) =~= v@);
    }
    r
}

/// Whether optional bytes are the given ones.
pub open spec fn opt_bytes(file: Option<&[u8]>) -> Option<Seq<u8>> {
    match file {
        Some(bytes) => Some(bytes@),
        None => None,
    }
}

/// What is drawn for a page, from what its icon file holds.
pub fn page_icon(slug: &str, file: Option<&[u8]>) -> (r: Icon)
    ensures
        r@ == icon_of(slug@, opt_bytes(file)),
{
    if let Some(bytes) = file {
        if let Some(text) = utf8_text(bytes) {
            let text = trim(text.as_str());
            if starts_with(text.as_str(), "data:") {
                return Icon::Src(text);
            }
            let v = to_chars(text.as_str());
            if v.len() > 0 && v[0] != '<' && v.len() <= 4 {
                return Icon::Text(text);
            }
        }
        if bytes.len() > 0 {
            return Icon::Src("/icon/".to_owned().concat(slug));
        }
    }
    let parts = split_on(slug, '/');
    let last: usize = parts.len() - 1;
    proof {
        assert(texts(parts@)[last as int] == parts@[last as int]@);
    }
    let found = initials(parts[last].as_str());
    let shown: String = if found.as_str().is_empty() {
        "?".to_owned()
    } else {
        found
    };
    Icon::Generated(shown, slug_hue(slug))
}

/// What lies in a directory of pages.
pub enum Entry {
    File { name: String },
    Dir { name: String, entries: Vec<Entry> },
}

/// The name of an entry under the directories above it.
pub open spec fn below(prefix: Seq<char>, name: Seq<char>) -> Seq<char> {
    if prefix.len() == 0 {
        name
    } else {
        prefix + "/"@ + name
    }
}

/// Whether a directory has an index page.
pub open spec fn has_index(entries: Seq<Entry>) -> bool {
    exists|i: int|
        #![trigger entries[i]]
        0 <= i < entries.len() && (entries[i] matches Entry::File { name } && name@
            == "index.html"@)
}

/// Whether a directory is the site's own: no listing walks one whose name
/// begins with a dot.
pub open spec fn is_private(name: Seq<char>) -> bool {
    name.len() > 0 && name[0] == '.'
}

/// Whether a file is a page: it ends in `.html`, with something before.
pub open spec fn is_page_name(name: Seq<char>) -> bool {
    ".html"@.is_suffix_of(name) && name.len() > ".html"@.len()
}

/// The pages below one entry.
pub open spec fn entry_slugs(entry: Entry, prefix: Seq<char>) -> Seq<Seq<char>>
    decreases entry, 0nat,
{
    match entry {
        Entry::File { name } => if is_page_name(name@) {
            seq![below(prefix, name@.take(name@.len() - ".html"@.len()))]
        } else {
            Seq::empty()
        },
        Entry::Dir { name, entries } => if is_private(name@) {
            Seq::empty()
        } else {
            dir_slugs(entries, below(prefix, name@))
        },
    }
}

/// The pages below the first `n` entries of a directory.
pub open spec fn entries_slugs(entries: Vec<Entry>, prefix: Seq<char>, n: nat) -> Seq<Seq<char>>
    decreases entries, n,
{
    if n == 0 || n > entries@.len() {
        Seq::empty()
    } else {
        entries_slugs(entries, prefix, (n - 1) as nat) + entry_slugs(entries@[n - 1], prefix)
    }
}

/// The pages below a directory. A directory with an index page is an app, of
/// which only the root is listed: its inner pages belong to the app's own
/// navigation.
pub open spec fn dir_slugs(entries: Vec<Entry>, prefix: Seq<char>) -> Seq<Seq<char>>
    decreases entries, entries@.len() + 1,
{
    if prefix.len() > 0 && has_index(entries@) {
        seq![prefix]
    } else {
        entries_slugs(entries, prefix, entries@.len())
    }
}

/// The name of an entry under the directories above it.
fn name_below(prefix: &str, name: &str) -> (r: String)
    ensures
        r@ == below(prefix@, name@),
{
    if prefix.is_empty() {
        name.to_owned()
    } else {
        prefix.to_owned().concat("/").concat(name)
    }
}

/// Whether a directory has an index page.
fn holds_index(entries: &Vec<Entry>) -> (r: bool)
    ensures
        r == has_index(entries@),
{
    let mut i: usize = 0;
    while i < entries.len()
        invariant
            i <= entries.len(),
            forall|j: int|
                #![trigger entries@[j]]
                0 <= j < i ==> !(entries@[j] matches Entry::File { name } && name@
                    == "index.html"@),
        decreases entries.len() - i,
    {
        if let Entry::File { name } = &entries[i] {
            if crate::text::same(name.as_str(), "index.html") {
                assert(entries@[i as int] matches Entry::File { name } && name@ == "index.html"@);
                return true;
            }
        }
        i += 1;
    }
    false
}

/// The pages below a directory, in the order in which they were found.
pub fn collect_slugs(entries: &Vec<Entry>, prefix: &str) -> (r: Vec<String>)
    ensures
        texts(r@) == dir_slugs(*entries, prefix@),
    decreases entries,
{
    if !prefix.is_empty() && holds_index(entries) {
        let mut r: Vec<String> = Vec::new();
        r.push(prefix.to_owned());
        assert(texts(r@) =~= seq![prefix@]);
        return r;
    }
    let mut out: Vec<String> = Vec::new();
    let mut i: usize = 0;
    proof {
        assert(texts(out@) =~= Seq::<Seq<char>>::empty());
        assert(!(prefix@.len() > 0 && has_index(entries@)));
    }
    while i < entries.len()
        invariant
            i <= entries.len(),
            !(prefix@.len() > 0 && has_index(entries@)),
            texts(out@) == entries_slugs(*entries, prefix@, i as nat),
        decreases entries.len() - i,
    {
        let ghost before = out@;
        match &entries[i] {
            Entry::File { name } => {
                proof {
                    reveal_strlit(".html");
                }
                let mut page = false;
                if let Some(stem) = strip_suffix(name.as_str(), ".html") {
                    if !stem.as_str().is_empty() {
                        let slug = name_below(prefix, stem.as_str());
                        let ghost text = slug@;
                        out.push(slug);
                        page = true;
                        assert(texts(out@) =~= texts(before) + seq![text]);
                    }
                }
                if !page {
                    assert(texts(out@) =~= texts(before) + Seq::<Seq<char>>::empty());
                }
            },
            Entry::Dir { name, entries: inner } => {
                let v = to_chars(name.as_str());
                if v.len() > 0 && v[0] == '.' {
                    assert(texts(out@) =~= texts(before) + Seq::<Seq<char>>::empty());
                } else {
                    let child = name_below(prefix, name.as_str());
                    assert(decreases_to!(*entries => entries@[i as int]));
                    let mut found = collect_slugs(inner, child.as_str());
                    let ghost more = found@;
                    out.append(&mut found);
                    assert(texts(out@) =~= texts(before) + texts(more));
                }
            },
        }
        proof {
            assert(entries_slugs(*entries, prefix@, (i + 1) as nat) == entries_slugs(
                *entries,
                prefix@,
                i as nat,
            ) + entry_slugs(entries@[i as int], prefix@));
        }
        i += 1;
    }
    out
}

} // verus!
