//! Starting a project: everything written for the one thing that is easy to get
//! wrong, which is that apps are served from `/p/<slug>/`, never the domain root.
use crate::cli::react::react_files;
use crate::platform::scaffold::Templates;
use crate::text::{pairs, replace_text, substituted, texts};
use vstd::prelude::*;

verus! {

/// The schema that a project with a handler starts with.
pub const FIRST_MIGRATION: &'static str = "-- Numbered, applied in order, each exactly once. Add a file for\n             -- the next change rather than editing this one: databases that\n             -- already ran it will never run it again.\n\n             create table visits (\n    at integer not null\n);\n";

/// The part of a manifest on work that an app does on its own.
pub const JOBS_HINT: &'static str = "\n# Work this app does on its own. Six cron fields, seconds first.\n# [[job]]\n# name = \"refresh\"\n# schedule = \"0 */5 * * * *\"\n# path = \"/api/refresh\"\n";

/// What a page with a handler shows.
pub const WITH_HANDLER: &'static str = "\n<p id=\"out\">loading…</p>\n<script type=\"module\">\n  // Same-origin: the app is mounted at /p/<slug>/, so a relative URL is right.\n  const res = await fetch('api/hello');\n  document.getElementById('out').textContent = await res.text();\n</script>";

/// What a page without one shows.
pub const WITHOUT_HANDLER: &'static str = "\n<p>Edit dist/index.html and run <code>toolsite deploy</code>.</p>";

/// What the app needs, in one file that travels with the source.
pub open spec fn manifest_of(name: Seq<char>, spa: bool, handler: bool) -> Seq<char> {
    let spa = if spa {
        "true"@
    } else {
        "false"@
    };
    let jobs = if handler {
        JOBS_HINT@
    } else {
        ""@
    };
    "slug = \""@
        + name
        + "\"\nspa = "@
        + spa
        + "\n\n# public, authenticated, or granted.\ngate = \"public\"\n\n# Guard part of the app. Longest matching prefix wins.\n# [[route]]\n# path = \"/admin\"\n# gate = \"granted\"\n"@
        + jobs
}

/// What the app needs, in one file that travels with the source. `deploy`
/// applies it, so this is the thing to edit rather than remembering commands.
pub fn manifest(name: &str, spa: bool, handler: bool) -> (r: String)
    ensures
        r@ == manifest_of(name@, spa, handler),
{
    let spa: &str = if spa {
        "true"
    } else {
        "false"
    };
    let jobs: &str = if handler {
        JOBS_HINT
    } else {
        ""
    };
    "slug = \"".to_owned()
        .concat(name)
        .concat("\"\nspa = ")
        .concat(spa)
        .concat("\n\n# public, authenticated, or granted.\ngate = \"public\"\n\n# Guard part of the app. Longest matching prefix wins.\n# [[route]]\n# path = \"/admin\"\n# gate = \"granted\"\n")
        .concat(jobs)
}

/// The page that a project starts with.
pub open spec fn first_page(name: Seq<char>, handler: bool) -> Seq<char> {
    let demo = if handler {
        WITH_HANDLER@
    } else {
        WITHOUT_HANDLER@
    };
    "<!doctype html>\n<html lang=\"en\">\n<head>\n<meta charset=\"utf-8\">\n<meta name=\"viewport\" content=\"width=device-width, initial-scale=1\">\n<title>"@
        + name
        + "</title>\n<style>\n  body { font: 16px/1.6 system-ui, sans-serif; max-width: 34rem;\n         margin: 4rem auto; padding: 0 1rem; color-scheme: light dark; }\n</style>\n</head>\n<body>\n<h1>"@
        + name
        + "</h1>"@
        + demo
        + "\n</body>\n</html>\n"@
}

/// The page that a project starts with.
pub fn index_html(name: &str, handler: bool) -> (r: String)
    ensures
        r@ == first_page(name@, handler),
{
    let demo: &str = if handler {
        WITH_HANDLER
    } else {
        WITHOUT_HANDLER
    };
    "<!doctype html>\n<html lang=\"en\">\n<head>\n<meta charset=\"utf-8\">\n<meta name=\"viewport\" content=\"width=device-width, initial-scale=1\">\n<title>".to_owned()
        .concat(name)
        .concat("</title>\n<style>\n  body { font: 16px/1.6 system-ui, sans-serif; max-width: 34rem;\n         margin: 4rem auto; padding: 0 1rem; color-scheme: light dark; }\n</style>\n</head>\n<body>\n<h1>")
        .concat(name)
        .concat("</h1>")
        .concat(demo)
        .concat("\n</body>\n</html>\n")
}

/// The notes that a project starts with.
pub open spec fn notes_of(name: Seq<char>) -> Seq<char> {
    "# "@
        + name
        + "\n\nWritten for whoever works on this next — a published app is a rendered\npage, and its source does not come back out of it.\n\n## Schema\n\nSee migrations/. Add a numbered file for each change.\n\n## Decisions\n\n## Unfinished\n"@
}

/// The notes that a project starts with.
fn notes(name: &str) -> (r: String)
    ensures
        r@ == notes_of(name@),
{
    "# ".to_owned()
        .concat(name)
        .concat("\n\nWritten for whoever works on this next — a published app is a rendered\npage, and its source does not come back out of it.\n\n## Schema\n\nSee migrations/. Add a numbered file for each change.\n\n## Decisions\n\n## Unfinished\n")
}

/// The files of a handler, below the project's directory. The contract is
/// vendored so that it compiles without the server's sources.
pub open spec fn handler_files(name: Seq<char>, templates: Templates) -> Seq<
    (Seq<char>, Seq<char>),
> {
    seq![
        ("handler/wit/toolsite.wit"@, templates.wit@),
        ("handler/Cargo.toml"@, substituted(templates.cargo@, "NAME"@, name)),
        ("handler/src/lib.rs"@, templates.lib@),
        ("migrations/001_initial.sql"@, FIRST_MIGRATION@),
    ]
}

/// The files of a new project, below its directory. A React app routes on the
/// client, so it wants unknown paths to serve its index whether or not anybody
/// remembered to ask for it.
pub open spec fn project_files(
    name: Seq<char>,
    spa: bool,
    handler: bool,
    react: bool,
    templates: Templates,
) -> Seq<(Seq<char>, Seq<char>)> {
    seq![("toolsite.toml"@, manifest_of(name, spa || react, handler))] + if react {
        react_files(name)
    } else {
        seq![("dist/index.html"@, first_page(name, handler))]
    } + seq![("NOTES.md"@, notes_of(name))] + if handler {
        handler_files(name, templates)
    } else {
        Seq::<(Seq<char>, Seq<char>)>::empty()
    }
}

/// What is printed of a new project.
pub open spec fn project_lines(name: Seq<char>, handler: bool, react: bool) -> Seq<Seq<char>> {
    let none = Seq::<Seq<char>>::empty();
    seq!["created "@ + name + "/"@] + if react {
        seq![
            "  src/App.tsx          the app; Tailwind classes work already"@,
            "  vite.config.ts       base is /p/"@ + name + "/, which is the part that breaks"@,
        ]
    } else {
        seq!["  dist/index.html      the page, ready to deploy as-is"@]
    } + if handler {
        seq![
            "  handler/             server-side code, gets its own database"@,
            "  migrations/          the app's schema, applied on deploy"@,
        ]
    } else {
        none
    } + seq![
        "  toolsite.toml        gate, routes and jobs"@,
        "  NOTES.md             what the next session needs to know"@,
        ""@,
        "Next: cd "@ + name + " && toolsite deploy"@,
    ] + if react {
        seq!["       (deploy runs npm install and npm run build for you)"@]
    } else {
        none
    }
}

/// A new project: its files, below its directory, and what is printed.
pub struct NewProject {
    pub files: Vec<(String, String)>,
    pub lines: Vec<String>,
}

/// Adds the files of one list to another.
fn add_all(files: &mut Vec<(String, String)>, more: Vec<(String, String)>)
    ensures
        pairs(final(files)@) == pairs(old(files)@) + pairs(more@),
{
    let ghost added = pairs(more@);
    let mut rest = more;
    files.append(&mut rest);
    assert(pairs(files@) =~= pairs(old(files)@) + added);
}

/// Starts a project, unless something of its name is there.
pub fn init(
    name: &str,
    taken: bool,
    spa: bool,
    handler: bool,
    react: bool,
    templates: &Templates,
) -> (r: Result<NewProject, String>)
    ensures
        match r {
            Ok(project) => !taken && pairs(project.files@) == project_files(
                name@,
                spa,
                handler,
                react,
                *templates,
            ) && texts(project.lines@) == project_lines(name@, handler, react),
            Err(m) => taken && m@ == name@ + " already exists"@,
        },
{
    if taken {
        return Err(name.to_owned().concat(" already exists"));
    }
    Ok(
        NewProject {
            files: new_files(name, spa, handler, react, templates),
            lines: new_lines(name, handler, react),
        },
    )
}

/// The files of a new project.
fn new_files(name: &str, spa: bool, handler: bool, react: bool, templates: &Templates) -> (r: Vec<
    (String, String),
>)
    ensures
        pairs(r@) == project_files(name@, spa, handler, react, *templates),
{
    let mut files: Vec<(String, String)> = Vec::new();
    files.push(("toolsite.toml".to_owned(), manifest(name, spa || react, handler)));
    let ghost first = seq![("toolsite.toml"@, manifest_of(name@, spa || react, handler))];
    assert(pairs(files@) =~= first);
    let pages: Vec<(String, String)> = if react {
        crate::cli::react::write(name)
    } else {
        let mut pages: Vec<(String, String)> = Vec::new();
        pages.push(("dist/index.html".to_owned(), index_html(name, handler)));
        assert(pairs(pages@) =~= seq![("dist/index.html"@, first_page(name@, handler))]);
        pages
    };
    add_all(&mut files, pages);
    let ghost second = pairs(files@);
    files.push(("NOTES.md".to_owned(), notes(name)));
    let ghost third = second + seq![("NOTES.md"@, notes_of(name@))];
    assert(pairs(files@) =~= third);
    if handler {
        let mut server: Vec<(String, String)> = Vec::new();
        proof {
            reveal_strlit("NAME");
        }
        server.push(("handler/wit/toolsite.wit".to_owned(), templates.wit.clone()));
        server.push(
            (
                "handler/Cargo.toml".to_owned(),
                replace_text(templates.cargo.as_str(), "NAME", name),
            ),
        );
        server.push(("handler/src/lib.rs".to_owned(), templates.lib.clone()));
        server.push(("migrations/001_initial.sql".to_owned(), FIRST_MIGRATION.to_owned()));
        assert(pairs(server@) =~= handler_files(name@, *templates));
        add_all(&mut files, server);
    } else {
        assert(third =~= third + Seq::<(Seq<char>, Seq<char>)>::empty());
    }
    files
}

/// What is printed of a new project.
fn new_lines(name: &str, handler: bool, react: bool) -> (r: Vec<String>)
    ensures
        texts(r@) == project_lines(name@, handler, react),
{
    let ghost none = Seq::<Seq<char>>::empty();
    let mut lines: Vec<String> = Vec::new();
    lines.push("created ".to_owned().concat(name).concat("/"));
    if react {
        lines.push("  src/App.tsx          the app; Tailwind classes work already".to_owned());
        lines.push(
            "  vite.config.ts       base is /p/".to_owned().concat(name).concat(
                "/, which is the part that breaks",
            ),
        );
    } else {
        lines.push("  dist/index.html      the page, ready to deploy as-is".to_owned());
    }
    if handler {
        lines.push("  handler/             server-side code, gets its own database".to_owned());
        lines.push("  migrations/          the app's schema, applied on deploy".to_owned());
    }
    lines.push("  toolsite.toml        gate, routes and jobs".to_owned());
    lines.push("  NOTES.md             what the next session needs to know".to_owned());
    lines.push("".to_owned());
    // deploy installs and builds; saying otherwise makes this look dearer than
    // hand-writing a page, which is how that decision gets made wrong.
    lines.push("Next: cd ".to_owned().concat(name).concat(" && toolsite deploy"));
    if react {
        lines.push("       (deploy runs npm install and npm run build for you)".to_owned());
    }
    assert(texts(lines@) =~= project_lines(name@, handler, react));
    lines
}

} // verus!
