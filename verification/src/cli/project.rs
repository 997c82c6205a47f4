//! What is known of a project before it is published: its slug, what is served
//! of it, and where its handler is.
use crate::content::store::{inside, join_path};
use crate::platform::client_oauth::text_of;
use crate::text::{
    contains_str, holds, lines, lines_of, starts_with, strip_both, strip_prefix, strip_start,
    strip_suffix, stripped, stripped_start, texts, trim, trimmed, same, words, words_of,
};
use vstd::prelude::*;

verus! {

/// What a line of a manifest says of a key, if it is about it. Two keys are not
/// worth a parser here; the server reads the file in earnest.
pub open spec fn said_of(line: Seq<char>, key: Seq<char>) -> Option<Seq<char>> {
    if key.is_prefix_of(line) {
        Some(trimmed(stripped_start(line.skip(key.len() as int), " ="@)))
    } else {
        None
    }
}

/// What a line of a manifest says of a key.
fn line_says(line: &str, key: &str) -> (r: Option<String>)
    ensures
        text_of(r) == said_of(line@, key@),
{
    match strip_prefix(line, key) {
        Some(rest) => Some(trim(strip_start(rest.as_str(), " =").as_str())),
        None => None,
    }
}

/// The slug that a line of a manifest gives, if it gives one.
pub open spec fn slug_line(line: Seq<char>) -> Option<Seq<char>> {
    match said_of(line, "slug"@) {
        Some(value) => Some(stripped(value, "\""@)),
        None => None,
    }
}

/// The slug that the last of some lines to give one gives.
pub open spec fn last_slug(lines: Seq<Seq<char>>) -> Option<Seq<char>>
    decreases lines.len(),
{
    if lines.len() == 0 {
        None
    } else {
        match slug_line(lines.last()) {
            Some(slug) => Some(slug),
            None => last_slug(lines.drop_last()),
        }
    }
}

/// The slug that the first of some lines to give one gives.
pub open spec fn first_slug(lines: Seq<Seq<char>>) -> Option<Seq<char>>
    decreases lines.len(),
{
    if lines.len() == 0 {
        None
    } else {
        match first_slug(lines.drop_last()) {
            Some(slug) => Some(slug),
            None => slug_line(lines.last()),
        }
    }
}

/// Whether the last of some lines on it says that the app routes on the client.
pub open spec fn last_spa(lines: Seq<Seq<char>>) -> bool
    decreases lines.len(),
{
    if lines.len() == 0 {
        false
    } else {
        match said_of(lines.last(), "spa"@) {
            Some(value) => value == "true"@,
            None => last_spa(lines.drop_last()),
        }
    }
}

/// The slug and the routing that a manifest gives.
pub fn read_manifest(text: &str) -> (r: (Option<String>, bool))
    ensures
        text_of(r.0) == last_slug(lines_of(text@)),
        r.1 == last_spa(lines_of(text@)),
{
    let all = lines(text);
    let ghost ls = lines_of(text@);
    let mut slug: Option<String> = None;
    let mut spa = false;
    let mut i: usize = 0;
    while i < all.len()
        invariant
            i <= all.len(),
            texts(all@) == ls,
            text_of(slug) == last_slug(ls.take(i as int)),
            spa == last_spa(ls.take(i as int)),
        decreases all.len() - i,
    {
        proof {
            assert(ls.take(i + 1).drop_last() =~= ls.take(i as int));
            assert(ls.take(i + 1).last() == texts(all@)[i as int]);
        }
        if let Some(value) = line_says(all[i].as_str(), "slug") {
            slug = Some(strip_both(value.as_str(), "\""));
        }
        if let Some(value) = line_says(all[i].as_str(), "spa") {
            spa = same(value.as_str(), "true");
        }
        i += 1;
    }
    proof {
        assert(texts(all@).len() == all@.len());
        assert(ls.take(ls.len() as int) =~= ls);
    }
    (slug, spa)
}

/// The slug recorded in a manifest, if there is one.
pub fn read_slug(text: &str) -> (r: Option<String>)
    ensures
        text_of(r) == first_slug(lines_of(text@)),
{
    let all = lines(text);
    let ghost ls = lines_of(text@);
    let mut i: usize = 0;
    while i < all.len()
        invariant
            i <= all.len(),
            texts(all@) == ls,
            ls == lines_of(text@),
            first_slug(ls.take(i as int)) is None,
        decreases all.len() - i,
    {
        proof {
            assert(ls.take(i + 1).drop_last() =~= ls.take(i as int));
            assert(ls.take(i + 1).last() == texts(all@)[i as int]);
        }
        if let Some(value) = line_says(all[i].as_str(), "slug") {
            let slug = strip_both(value.as_str(), "\"");
            proof {
                lemma_first_stays(ls, i + 1);
            }
            return Some(slug);
        }
        i += 1;
    }
    proof {
        assert(texts(all@).len() == all@.len());
        assert(ls.take(ls.len() as int) =~= ls);
    }
    None
}

/// A slug that is found among the first lines is the first of all.
proof fn lemma_first_stays(lines: Seq<Seq<char>>, n: int)
    requires
        0 <= n <= lines.len(),
        first_slug(lines.take(n)) is Some,
    ensures
        first_slug(lines) == first_slug(lines.take(n)),
    decreases lines.len(),
{
    if n < lines.len() {
        assert(lines.drop_last().take(n) =~= lines.take(n));
        lemma_first_stays(lines.drop_last(), n);
    } else {
        assert(lines.take(n) =~= lines);
    }
}

/// The slug that a project is published under: the one asked for, the one its
/// manifest gives, or the name of its directory.
pub open spec fn slug_among(
    asked: Option<String>,
    given: Option<String>,
    directory: Option<String>,
) -> Option<Seq<char>> {
    match asked {
        Some(slug) => Some(slug@),
        None => match given {
            Some(slug) => Some(slug@),
            None => text_of(directory),
        },
    }
}

/// The slug that a project is published under, if there is any.
pub fn choose_slug(asked: Option<String>, given: Option<String>, directory: Option<String>) -> (r:
    Result<String, String>)
    ensures
        match r {
            Ok(slug) => slug_among(asked, given, directory) == Some(slug@),
            Err(m) => slug_among(asked, given, directory) is None && m@
                == "could not work out a slug; pass --slug"@,
        },
{
    if let Some(slug) = asked {
        return Ok(slug);
    }
    if let Some(slug) = given {
        return Ok(slug);
    }
    match directory {
        Some(slug) => Ok(slug),
        None => Err("could not work out a slug; pass --slug".to_owned()),
    }
}

/// Which of the places that are looked at hold an `index.html`.
pub struct WebRoots {
    pub dist: bool,
    pub build: bool,
    pub public: bool,
    pub here: bool,
}

/// What gets tarred up and served: a build output where there is one, since that
/// is what a front-end toolchain emits.
pub fn web_root(dir: &str, found: &WebRoots) -> (r: Result<String, String>)
    ensures
        match r {
            Ok(path) => served_from(dir@, *found) == Some(path@),
            Err(m) => served_from(dir@, *found) is None && m@ == "no index.html in "@ + dir@
                + ", dist/, build/ or public/ — build first, or pass a directory"@,
        },
{
    if found.dist {
        Ok(join_path(dir, "dist"))
    } else if found.build {
        Ok(join_path(dir, "build"))
    } else if found.public {
        Ok(join_path(dir, "public"))
    } else if found.here {
        Ok(dir.to_owned())
    } else {
        Err(
            "no index.html in ".to_owned().concat(dir).concat(
                ", dist/, build/ or public/ — build first, or pass a directory",
            ),
        )
    }
}

/// A project to publish.
#[derive(Debug, PartialEq)]
pub struct Project {
    pub slug: String,
    pub spa: bool,
    /// What gets tarred up and served.
    pub web_root: String,
}

/// What was found of a project: the text of its manifest, the name of its
/// directory, and where there are pages.
pub struct Found {
    pub manifest: Option<String>,
    pub directory: Option<String>,
    pub roots: WebRoots,
}

/// The slug that a manifest gives, where there is one.
pub open spec fn manifest_slug(manifest: Option<String>) -> Option<Seq<char>> {
    match manifest {
        Some(text) => last_slug(lines_of(text@)),
        None => None,
    }
}

/// The slug that a project is published under.
pub open spec fn project_slug(asked: Option<String>, found: Found) -> Option<Seq<char>> {
    match asked {
        Some(slug) => Some(slug@),
        None => match manifest_slug(found.manifest) {
            Some(slug) => Some(slug),
            None => text_of(found.directory),
        },
    }
}

/// What gets tarred up and served, where there are pages at all.
pub open spec fn served_from(dir: Seq<char>, roots: WebRoots) -> Option<Seq<char>> {
    if roots.dist {
        Some(inside(dir, "dist"@))
    } else if roots.build {
        Some(inside(dir, "build"@))
    } else if roots.public {
        Some(inside(dir, "public"@))
    } else if roots.here {
        Some(dir)
    } else {
        None
    }
}

/// Works out what is published of a directory, by what was asked for and what
/// was found there.
pub fn read_project(dir: &str, asked: Option<String>, spa_flag: bool, found: Found) -> (r: Result<
    Project,
    String,
>)
    ensures
        match r {
            Ok(project) => {
                &&& project_slug(asked, found) == Some(project.slug@)
                &&& served_from(dir@, found.roots) == Some(project.web_root@)
                &&& project.spa == (spa_flag || (found.manifest matches Some(text) && last_spa(
                    lines_of(text@),
                )))
            },
            Err(m) => if project_slug(asked, found) is None {
                m@ == "could not work out a slug; pass --slug"@
            } else {
                served_from(dir@, found.roots) is None && m@ == "no index.html in "@ + dir@
                    + ", dist/, build/ or public/ — build first, or pass a directory"@
            },
        },
{
    let Found { manifest, directory, roots } = found;
    let (given, spa): (Option<String>, bool) = match &manifest {
        Some(text) => read_manifest(text.as_str()),
        None => (None, false),
    };
    let slug: String = match choose_slug(asked, given, directory) {
        Ok(slug) => slug,
        Err(m) => {
            return Err(m);
        },
    };
    match web_root(dir, &roots) {
        Ok(web_root) => Ok(Project { slug, spa: spa || spa_flag, web_root }),
        Err(m) => Err(m),
    }
}

/// What to do about the handler of a project.
#[derive(Debug, PartialEq)]
pub enum HandlerStep {
    /// It has none.
    Nothing,
    /// It is built already.
    Use(String),
    /// It is to be built from this manifest.
    Build(String),
}

/// What to do about the handler of a project, by what is there.
pub fn handler_step(dir: &str, prebuilt: bool, manifest: bool) -> (r: HandlerStep)
    ensures
        match r {
            HandlerStep::Use(path) => prebuilt && path@ == inside(dir@, "handler.wasm"@),
            HandlerStep::Build(path) => !prebuilt && manifest && path@ == inside(
                dir@,
                "handler/Cargo.toml"@,
            ),
            HandlerStep::Nothing => !prebuilt && !manifest,
        },
{
    if prebuilt {
        HandlerStep::Use(join_path(dir, "handler.wasm"))
    } else if manifest {
        HandlerStep::Build(join_path(dir, "handler/Cargo.toml"))
    } else {
        HandlerStep::Nothing
    }
}

/// Whether a file has an ending: a name, a dot and it.
pub open spec fn has_ending(file: Seq<char>, ending: Seq<char>) -> bool {
    ending.is_suffix_of(file) && file.len() > ending.len()
}

/// Whether a file has an ending.
fn ends_in(file: &str, ending: &str) -> (r: bool)
    ensures
        r == has_ending(file@, ending@),
{
    match strip_suffix(file, ending) {
        Some(name) => !name.as_str().is_empty(),
        None => false,
    }
}

/// Whether none of the first `n` files is a component.
pub open spec fn no_component(files: Seq<String>, n: int) -> bool {
    forall|j: int| 0 <= j < n ==> !has_ending((#[trigger] files[j])@, ".wasm"@)
}

/// Whether a file is the first component among some.
pub open spec fn is_first_component(files: Seq<String>, file: Seq<char>) -> bool {
    exists|i: int|
        0 <= i < files.len() && (#[trigger] files[i])@ == file && has_ending(file, ".wasm"@)
            && no_component(files, i)
}

/// The component that a build produced: the first file that is one.
pub fn built_handler(files: &Vec<String>) -> (r: Result<String, String>)
    ensures
        match r {
            Ok(file) => is_first_component(files@, file@),
            Err(m) => no_component(files@, files@.len() as int) && m@
                == "handler built but produced no .wasm"@,
        },
{
    let mut i: usize = 0;
    while i < files.len()
        invariant
            i <= files.len(),
            no_component(files@, i as int),
        decreases files.len() - i,
    {
        if ends_in(files[i].as_str(), ".wasm") {
            assert(files@[i as int]@ == files@[i as int]@);
            return Ok(files[i].clone());
        }
        i += 1;
    }
    Err("handler built but produced no .wasm".to_owned())
}

/// Whether a file is a migration.
pub fn is_migration(file: &str) -> (r: bool)
    ensures
        r == has_ending(file@, ".sql"@),
{
    ends_in(file, ".sql")
}

/// Whether something in a project's directory is kept with the app: everything
/// except what a package manager or compiler can restore.
///
/// Build output is kept deliberately: for a project with no build step the dist
/// directory *is* the source, and dropping it would send back an archive with
/// the app missing from it.
pub fn is_kept(name: &str) -> (r: bool)
    ensures
        r == (name@ != "node_modules"@ && name@ != "target"@ && name@ != ".git"@),
{
    !same(name, "node_modules") && !same(name, "target") && !same(name, ".git")
}

/// Whether a word is an upload URL.
pub open spec fn is_upload_url(word: Seq<char>) -> bool {
    holds(word, "/upload/"@) && "http"@.is_prefix_of(word)
}

/// The first upload URL among words, without quotes around it.
pub open spec fn first_upload_url(words: Seq<Seq<char>>) -> Option<Seq<char>>
    decreases words.len(),
{
    if words.len() == 0 {
        None
    } else {
        match first_upload_url(words.drop_last()) {
            Some(url) => Some(url),
            None => {
                let word = stripped(words.last(), "'\""@);
                if is_upload_url(word) {
                    Some(word)
                } else {
                    None
                }
            },
        }
    }
}

/// An upload URL that is found among the first words is the first of all.
proof fn lemma_url_stays(words: Seq<Seq<char>>, n: int)
    requires
        0 <= n <= words.len(),
        first_upload_url(words.take(n)) is Some,
    ensures
        first_upload_url(words) == first_upload_url(words.take(n)),
    decreases words.len(),
{
    if n < words.len() {
        assert(words.drop_last().take(n) =~= words.take(n));
        lemma_url_stays(words.drop_last(), n);
    } else {
        assert(words.take(n) =~= words);
    }
}

/// The upload URL in the server's prose.
pub fn find_upload_url(text: &str) -> (r: Option<String>)
    ensures
        text_of(r) == first_upload_url(words_of(text@)),
{
    let all = words(text);
    let ghost ws = words_of(text@);
    let mut i: usize = 0;
    while i < all.len()
        invariant
            i <= all.len(),
            texts(all@) == ws,
            ws == words_of(text@),
            first_upload_url(ws.take(i as int)) is None,
        decreases all.len() - i,
    {
        proof {
            assert(ws.take(i + 1).drop_last() =~= ws.take(i as int));
            assert(ws.take(i + 1).last() == texts(all@)[i as int]);
        }
        let word = strip_both(all[i].as_str(), "'\"");
        if contains_str(word.as_str(), "/upload/") && starts_with(word.as_str(), "http") {
            proof {
                lemma_url_stays(ws, i + 1);
            }
            return Some(word);
        }
        i += 1;
    }
    proof {
        assert(texts(all@).len() == all@.len());
        assert(ws.take(ws.len() as int) =~= ws);
    }
    None
}

/// The upload URL in the server's reply, or what is said where there is none.
pub fn upload_url_in(reply: &str) -> (r: Result<String, String>)
    ensures
        match r {
            Ok(url) => first_upload_url(words_of(reply@)) == Some(url@),
            Err(m) => first_upload_url(words_of(reply@)) is None && m@
                == "could not find an upload URL in the server's reply"@,
        },
{
    match find_upload_url(reply) {
        Some(url) => Ok(url),
        None => Err("could not find an upload URL in the server's reply".to_owned()),
    }
}

} // verus!
