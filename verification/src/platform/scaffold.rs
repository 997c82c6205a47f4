//! What an agent needs to build a handler, over plain HTTP.
//!
//! Without this the contract is only in the repository, so an agent with a
//! shell and an upload URL still cannot build anything — it has to guess the
//! world's shape from rejection messages. Both routes are public: the WIT
//! describes an interface, and the scaffold is a template. Neither says
//! anything about what is published here.
use crate::config::Config;
use crate::content::slug::{is_segment, is_segment_char, is_slug, lemma_char_in_piece, valid_slug};
use crate::crypto::bytes_view;
use crate::reply::{plain, typed, with_header, Reply};
use crate::text::{pairs, replace_char, replace_text, replaced, split, substituted};
use flate2::write::GzEncoder;
use flate2::Compression;
use std::io::Write;
use vstd::prelude::*;

verus! {

/// A tar archive in the making.
#[verifier::external_body]
pub struct Archive {
    builder: tar::Builder<Vec<u8>>,
}

/// The files that an archive in the making holds, in order.
pub uninterp spec fn files_in(archive: Archive) -> Seq<(Seq<char>, u32, Seq<char>)>;

/// `tar::Builder::new`: an archive without files.
#[verifier::external_body]
fn start_archive() -> (r: Archive)
    ensures
        files_in(r).len() == 0,
{
    Archive { builder: tar::Builder::new(Vec::new()) }
}

/// Whether a path means the same on every machine: no drive and no backslash is
/// in it.
pub open spec fn is_portable(path: Seq<char>) -> bool {
    !path.contains('\\') && !path.contains(':')
}

/// Whether a path is one that a file of an archive may have.
pub uninterp spec fn tar_takes(path: Seq<char>) -> bool;

/// `tar::Builder::append_data` under a GNU header with the text's size and the
/// given mode, into memory: whether it succeeds is a function of the path, and
/// where it does, the archive holds one more file. Of an archive that it failed
/// on nothing is said.
#[verifier::external_body]
fn add_file(archive: &mut Archive, path: &str, mode: u32, text: &str) -> (r: bool)
    requires
        is_portable(path@),
    ensures
        r == tar_takes(path@),
        r ==> files_in(*final(archive)) == files_in(*old(archive)).push((path@, mode, text@)),
{
    let mut header = tar::Header::new_gnu();
    header.set_size(text.len() as u64);
    header.set_mode(mode);
    header.set_cksum();
    archive.builder.append_data(&mut header, path, text.as_bytes()).is_ok()
}

/// The bytes of an archive of files, if it can be finished.
pub uninterp spec fn tar_bytes(files: Seq<(Seq<char>, u32, Seq<char>)>) -> Option<Seq<u8>>;

/// `tar::Builder::into_inner`: the bytes of the archive, a function of the files
/// it holds.
#[verifier::external_body]
fn finish_archive(archive: Archive) -> (r: Option<Vec<u8>>)
    ensures
        bytes_view(r) == tar_bytes(files_in(archive)),
{
    archive.builder.into_inner().ok()
}

/// Bytes compressed, if they can be.
pub uninterp spec fn gzipped(bytes: Seq<u8>) -> Option<Seq<u8>>;

/// `flate2::write::GzEncoder` at the default level: the bytes compressed, a
/// function of them.
#[verifier::external_body]
fn gzip(bytes: &Vec<u8>) -> (r: Option<Vec<u8>>)
    ensures
        bytes_view(r) == gzipped(bytes@),
{
    let mut encoder = GzEncoder::new(Vec::new(), Compression::default());
    encoder.write_all(bytes).ok()?;
    encoder.finish().ok()
}

/// How the platform works, for an agent that would otherwise go looking in
/// somebody's app notes for it. This is the copy that stays current; notes
/// describe one app and go stale the moment the platform changes.
pub fn guide(text: &str) -> (r: Reply)
    ensures
        r@ == with_header(
            typed(200, "text/markdown; charset=utf-8"@, text@),
            "cache-control"@,
            "public, max-age=300"@,
        ),
{
    Reply::typed(200, "text/markdown; charset=utf-8", text.to_owned()).with(
        "cache-control",
        "public, max-age=300",
    )
}

/// The contract a handler compiles against, so `curl` is enough to start.
pub fn wit(text: &str) -> (r: Reply)
    ensures
        r@ == with_header(plain(200, text@), "cache-control"@, "public, max-age=300"@),
{
    Reply::says(200, text).with("cache-control", "public, max-age=300")
}

/// What a scaffold is asked for with.
pub struct ScaffoldQuery {
    /// Names the crate and, more usefully, is the slug the finished app will be
    /// served under.
    pub app: Option<String>,
}

/// The files that every scaffold starts from.
pub struct Templates {
    pub cargo: String,
    pub lib: String,
    pub migration: String,
    pub wit: String,
}

/// The name of the crate of an app's handler.
pub open spec fn crate_of(app: Seq<char>) -> Seq<char> {
    replaced(app + "_handler"@, '-', "_"@)
}

/// What the scaffold of an app says of itself.
#[verifier::opaque]
pub open spec fn readme_of(app: Seq<char>, base: Seq<char>) -> Seq<char> {
    let crate_name = crate_of(app);
    "# "@
        + app
        + " handler\n\nBuild:\n\n    rustup target add wasm32-wasip2\n    cargo build --release --target wasm32-wasip2\n\nUpload, using an upload URL from create_upload. Schema first, so the handler\nis never live without its tables:\n\n    tar -czf - -C migrations . | curl -f -T - '<upload-url>?migrations'\n    curl -f -T target/wasm32-wasip2/release/"@
        + crate_name
        + ".wasm '<upload-url>?handler'\n\nAdd migrations/002_*.sql for the next schema change rather than editing 001:\neach file runs once, so an edited one never reaches a database that already\nran it.\n\nIt then answers every request under "@
        + base
        + "/p/"@
        + app
        + "/api/, and any route with no\nfile behind it.\n\nThe handler sees the path relative to this app, with /api still on it, and\ngets exactly two capabilities: its own SQLite database and the identity of\nwhoever is signed in. No filesystem, no network, no environment.\n"@
}

/// What the scaffold of an app says of itself.
fn readme(app: &str, base: &str) -> (r: String)
    ensures
        r@ == readme_of(app@, base@),
{
    let crate_name = replace_char(app.to_owned().concat("_handler").as_str(), '-', "_");
    let crate_name = crate_name.as_str();
    proof {
        reveal(readme_of);
    }
    "# ".to_owned()
        .concat(app)
        .concat(" handler\n\nBuild:\n\n    rustup target add wasm32-wasip2\n    cargo build --release --target wasm32-wasip2\n\nUpload, using an upload URL from create_upload. Schema first, so the handler\nis never live without its tables:\n\n    tar -czf - -C migrations . | curl -f -T - '<upload-url>?migrations'\n    curl -f -T target/wasm32-wasip2/release/")
        .concat(crate_name)
        .concat(".wasm '<upload-url>?handler'\n\nAdd migrations/002_*.sql for the next schema change rather than editing 001:\neach file runs once, so an edited one never reaches a database that already\nran it.\n\nIt then answers every request under ")
        .concat(base)
        .concat("/p/")
        .concat(app)
        .concat("/api/, and any route with no\nfile behind it.\n\nThe handler sees the path relative to this app, with /api still on it, and\ngets exactly two capabilities: its own SQLite database and the identity of\nwhoever is signed in. No filesystem, no network, no environment.\n")
}

/// The files of the scaffold of an app, below its directory.
pub open spec fn scaffold_files(templates: Templates, app: Seq<char>, base: Seq<char>) -> Seq<
    (Seq<char>, Seq<char>),
> {
    seq![
        ("Cargo.toml"@, substituted(templates.cargo@, "NAME"@, app)),
        ("src/lib.rs"@, templates.lib@),
        ("migrations/001_initial.sql"@, templates.migration@),
        ("wit/toolsite.wit"@, templates.wit@),
        ("README.md"@, readme_of(app, base)),
    ]
}

/// Files as they stand in the archive of a scaffold: in one directory, readable
/// by all and writable by their owner.
pub open spec fn in_directory(app: Seq<char>, files: Seq<(Seq<char>, Seq<char>)>) -> Seq<
    (Seq<char>, u32, Seq<char>),
> {
    files.map_values(
        |f: (Seq<char>, Seq<char>)| (app + "-handler/"@ + f.0, 0o644u32, f.1),
    )
}

/// The archive of a scaffold, compressed, where it can be made.
pub open spec fn packed(files: Seq<(Seq<char>, u32, Seq<char>)>) -> Option<Seq<u8>> {
    if exists|i: int| 0 <= i < files.len() && !tar_takes((#[trigger] files[i]).0) {
        None
    } else {
        match tar_bytes(files) {
            Some(bytes) => gzipped(bytes),
            None => None,
        }
    }
}

/// A complete crate: the WIT vendored, Cargo.toml with the right crate type, and
/// a handler that already reads and writes its own database.
pub fn handler_files(templates: &Templates, app: &str, base: &str) -> (r: Vec<(String, String)>)
    ensures
        pairs(r@) == scaffold_files(*templates, app@, base@),
        forall|i: int| 0 <= i < r.len() ==> is_portable((#[trigger] r@[i]).0@),
{
    let mut files: Vec<(String, String)> = Vec::new();
    proof {
        reveal_strlit("NAME");
        reveal_strlit("Cargo.toml");
        reveal_strlit("src/lib.rs");
        reveal_strlit("migrations/001_initial.sql");
        reveal_strlit("wit/toolsite.wit");
        reveal_strlit("README.md");
    }
    files.push(("Cargo.toml".to_owned(), replace_text(templates.cargo.as_str(), "NAME", app)));
    files.push(("src/lib.rs".to_owned(), templates.lib.clone()));
    files.push(("migrations/001_initial.sql".to_owned(), templates.migration.clone()));
    files.push(("wit/toolsite.wit".to_owned(), templates.wit.clone()));
    files.push(("README.md".to_owned(), readme(app, base)));
    assert(pairs(files@) =~= scaffold_files(*templates, app@, base@));
    files
}

/// What is in an app's directory has a portable path.
proof fn lemma_portable(app: Seq<char>, name: Seq<char>)
    requires
        is_slug(app),
        is_portable(name),
    ensures
        is_portable(app + "-handler/"@ + name),
{
    reveal_strlit("-handler/");
    let path = app + "-handler/"@ + name;
    assert forall|k: int| 0 <= k < path.len() implies path[k] != '\\' && path[k] != ':' by {
        if k < app.len() {
            if app[k] != '/' {
                let w = lemma_char_in_piece(app, '/', k);
                assert(is_segment(split(app, '/')[w.0]));
                assert(is_segment_char(split(app, '/')[w.0][w.1]));
            }
        } else if k >= app.len() + 9 {
            assert(path[k] == name[k - app.len() - 9]);
            assert(name.contains(name[k - app.len() - 9]));
        }
    }
}

/// Packs the files of an app's scaffold into a compressed archive.
pub fn pack(app: &str, files: &Vec<(String, String)>) -> (r: Option<Vec<u8>>)
    requires
        is_slug(app@),
        forall|i: int| 0 <= i < files.len() ==> is_portable((#[trigger] files@[i]).0@),
    ensures
        bytes_view(r) == packed(in_directory(app@, pairs(files@))),
{
    let ghost all = in_directory(app@, pairs(files@));
    let mut archive = start_archive();
    let mut i: usize = 0;
    while i < files.len()
        invariant
            i <= files.len(),
            is_slug(app@),
            forall|j: int| 0 <= j < files.len() ==> is_portable((#[trigger] files@[j]).0@),
            all == in_directory(app@, pairs(files@)),
            files_in(archive) == all.take(i as int),
            forall|j: int| 0 <= j < i ==> tar_takes((#[trigger] all[j]).0),
        decreases files.len() - i,
    {
        let path = app.to_owned().concat("-handler/").concat(files[i].0.as_str());
        assert(all[i as int] == (path@, 0o644u32, files@[i as int].1@)) by {
            assert(pairs(files@)[i as int] == (
                files@[i as int].0@,
                files@[i as int].1@,
            ));
        }
        proof {
            lemma_portable(app@, files@[i as int].0@);
        }
        if !add_file(&mut archive, path.as_str(), 0o644, files[i].1.as_str()) {
            assert(!tar_takes(all[i as int].0));
            return None;
        }
        assert(all.take(i + 1) =~= all.take(i as int).push(all[i as int]));
        i += 1;
    }
    assert(all.take(all.len() as int) =~= all);
    match finish_archive(archive) {
        Some(bytes) => gzip(&bytes),
        None => None,
    }
}

/// A file to hand out.
pub struct Download {
    pub content_type: String,
    pub disposition: String,
    pub body: Vec<u8>,
}

/// The app that a scaffold is for.
pub open spec fn scaffold_app(query: ScaffoldQuery) -> Seq<char> {
    match query.app {
        Some(app) => app@,
        None => "myapp"@,
    }
}

/// Answers a request for a scaffold by what came of packing it.
pub fn scaffold_answer(app: &str, packed_files: Option<Vec<u8>>) -> (r: Result<Download, Reply>)
    ensures
        match packed_files {
            Some(bytes) => {
                &&& r matches Ok(download)
                &&& download.content_type@ == "application/gzip"@
                &&& download.disposition@ == "attachment; filename=\""@ + app@
                    + "-handler.tar.gz\""@
                &&& download.body == bytes
            },
            None => r matches Err(reply) && reply@ == plain(500, "could not build the scaffold\n"@),
        },
{
    match packed_files {
        Some(body) => Ok(
            Download {
                content_type: "application/gzip".to_owned(),
                disposition: "attachment; filename=\"".to_owned().concat(app).concat(
                    "-handler.tar.gz\"",
                ),
                body,
            },
        ),
        None => Err(Reply::says(500, "could not build the scaffold\n")),
    }
}

/// Whether a request for the scaffold of an app was answered as it is to be.
pub open spec fn is_scaffold(
    r: Result<Download, Reply>,
    app: Seq<char>,
    templates: Templates,
    base: Seq<char>,
) -> bool {
    if !is_slug(app) {
        r matches Err(reply) && reply@ == plain(400, "app must be letters, numbers, '-' or '_'\n"@)
    } else {
        match packed(in_directory(app, scaffold_files(templates, app, base))) {
            Some(bytes) => {
                &&& r matches Ok(download)
                &&& download.content_type@ == "application/gzip"@
                &&& download.disposition@ == "attachment; filename=\""@ + app
                    + "-handler.tar.gz\""@
                &&& download.body@ == bytes
            },
            None => r matches Err(reply) && reply@ == plain(500, "could not build the scaffold\n"@),
        }
    }
}

/// Answers a request for a scaffold.
pub fn handler_scaffold(config: &Config, query: &ScaffoldQuery, templates: &Templates) -> (r:
    Result<Download, Reply>)
    ensures
        is_scaffold(r, scaffold_app(*query), *templates, config.public_base()),
{
    let app: &str = match &query.app {
        Some(app) => app.as_str(),
        None => "myapp",
    };
    if !valid_slug(app) {
        return Err(Reply::says(400, "app must be letters, numbers, '-' or '_'\n"));
    }
    let base: &str = match &config.base_url {
        Some(base) => base.as_str(),
        None => config.local_base.as_str(),
    };
    let files = handler_files(templates, app, base);
    scaffold_answer(app, pack(app, &files))
}

/// Answers a request for the scaffold of an app that is named in the path:
/// `/scaffold/<app>` reads better in a tool description than a query string, so
/// both spellings work.
pub fn handler_scaffold_named(config: &Config, app: String, templates: &Templates) -> (r: Result<
    Download,
    Reply,
>)
    ensures
        is_scaffold(r, app@, *templates, config.public_base()),
{
    let query = ScaffoldQuery { app: Some(app) };
    handler_scaffold(config, &query, templates)
}

} // verus!
