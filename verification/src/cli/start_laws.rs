//! What holds of a new project, of what is printed and of what is said of an upload.
use crate::cli::deploy::{not_packed, uploaded, Outcome, Upload};
use crate::cli::init::{init, manifest, JOBS_HINT, NewProject, WITH_HANDLER, WITHOUT_HANDLER};
use crate::cli::print::{page_row, PageLine};
use crate::cli::react::{app_tsx, index_html, package_json, vite_config};
use crate::cli::wire::call_body;
use crate::encode::json_string;
use crate::platform::scaffold::Templates;
use crate::text::{pairs, replace_text, texts, trim};
use vstd::prelude::*;

verus! {

/// What is said of an upload that was refused: what was uploaded, the status and what the
/// server said. Of one that could not be packed the reason is given.
pub proof fn why_an_upload_failed_is_said(
    u: Upload,
    status: &str,
    body: &str,
    tight: String,
    r: Outcome,
    unpacked: Outcome,
    kept: Outcome,
)
    requires
        call_ensures(uploaded, (u, false, status, body), r),
        call_ensures(uploaded, (u, true, status, body), kept),
        call_ensures(not_packed, (u, body), unpacked),
        call_ensures(trim, (body,), tight),
    ensures
        u == Upload::Migrations ==> (r matches Outcome::Fails(said) && said@
            == "migrations were rejected ("@ + status@ + "): "@ + tight@),
        u == Upload::Manifest ==> (r matches Outcome::Fails(said) && said@
            == "toolsite.toml was rejected ("@ + status@ + "): "@ + tight@),
        u == Upload::Bundle ==> (r matches Outcome::Fails(said) && said@ == "upload failed ("@
            + status@ + "): "@ + body@),
        u == Upload::Handler ==> (r matches Outcome::Fails(said) && said@
            == "handler upload failed ("@ + status@ + "): "@ + body@),
        u == Upload::Source ==> (r matches Outcome::Warns(said) && said@
            == "warning: could not store the project alongside the app"@),
        u == Upload::Source ==> (kept matches Outcome::Says(said) && said@
            == "kept the project with it; `toolsite fetch` brings it back\n"@),
        u == Upload::Source ==> (unpacked matches Outcome::Warns(said) && said@
            == "warning: could not package the project: "@ + body@),
        u == Upload::Migrations ==> (unpacked matches Outcome::Fails(said) && said@
            == "could not package migrations: "@ + body@),
        u == Upload::Manifest || u == Upload::Bundle || u == Upload::Handler ==> (
        unpacked matches Outcome::Fails(said) && said@ == body@),
{
}

/// Pages are lined up: the slug is in the first 28 columns, the age in the ten from the
/// 30th on, and the title begins at the 41st, where the slug and the age are no longer.
pub proof fn pages_are_lined_up(page: PageLine, i: int, r: String)
    requires
        call_ensures(page_row, (&page,), r),
        page.slug is Some && page.slug->0@.len() <= 28,
        page.modified is Some && page.modified->0@.len() <= 10,
        page.title is Some,
    ensures
        r@.len() >= 40 + page.title->0@.len(),
        0 <= i < 29 ==> r@[i] == if i < page.slug->0@.len() {
            page.slug->0@[i]
        } else {
            ' '
        },
        29 <= i < 40 ==> r@[i] == if i - 29 < page.modified->0@.len() {
            page.modified->0@[i - 29]
        } else {
            ' '
        },
        40 <= i < 40 + page.title->0@.len() ==> r@[i] == page.title->0@[i - 40],
{
    reveal_strlit(" ");
}

/// A project that has code of its own has the contract, the manifest of the crate under
/// its own name, the code and a first migration, behind everything else.
pub proof fn a_handler_comes_with_a_project(
    name: &str,
    spa: bool,
    react: bool,
    templates: Templates,
    cargo: &str,
    named: String,
    p: NewProject,
    n: int,
)
    requires
        call_ensures(
            init,
            (name, false, spa, true, react, &templates),
            Ok::<NewProject, String>(p),
        ),
        cargo@ == templates.cargo@,
        call_ensures(replace_text, (cargo, "NAME", name), named),
        n == p.files.len(),
    ensures
        n > 4,
        p.files@[n - 4].0@ == "handler/wit/toolsite.wit"@ && p.files@[n - 4].1@ == templates.wit@,
        p.files@[n - 3].0@ == "handler/Cargo.toml"@ && p.files@[n - 3].1@ == named@,
        p.files@[n - 2].0@ == "handler/src/lib.rs"@ && p.files@[n - 2].1@ == templates.lib@,
        p.files@[n - 1].0@ == "migrations/001_initial.sql"@,
        p.files@[n - 5].0@ == "NOTES.md"@,
{
    let all = pairs(p.files@);
    assert(all.len() == p.files.len());
    assert(all[n - 5] == (p.files@[n - 5].0@, p.files@[n - 5].1@));
    assert(all[n - 4] == (p.files@[n - 4].0@, p.files@[n - 4].1@));
    assert(all[n - 3] == (p.files@[n - 3].0@, p.files@[n - 3].1@));
    assert(all[n - 2] == (p.files@[n - 2].0@, p.files@[n - 2].1@));
    assert(all[n - 1] == (p.files@[n - 1].0@, p.files@[n - 1].1@));
}

/// A project that is built has the files to build it with behind its manifest, each with
/// what is written for the name of the project.
pub proof fn a_built_project_has_its_sources(
    name: &str,
    spa: bool,
    handler: bool,
    templates: Templates,
    written: Vec<(String, String)>,
    package: String,
    vite: String,
    page: String,
    app: String,
    p: NewProject,
    i: int,
)
    requires
        call_ensures(
            init,
            (name, false, spa, handler, true, &templates),
            Ok::<NewProject, String>(p),
        ),
        call_ensures(crate::cli::react::write, (name,), written),
        call_ensures(package_json, (name,), package),
        call_ensures(vite_config, (name,), vite),
        call_ensures(index_html, (name,), page),
        call_ensures(app_tsx, (name,), app),
    ensures
        written.len() == 8,
        written@[0].0@ == "package.json"@ && written@[0].1@ == package@,
        written@[1].0@ == "vite.config.ts"@ && written@[1].1@ == vite@,
        written@[3].0@ == "index.html"@ && written@[3].1@ == page@,
        written@[4].0@ == "src/main.tsx"@,
        written@[5].0@ == "src/App.tsx"@ && written@[5].1@ == app@,
        p.files.len() > 9,
        0 <= i < 8 ==> p.files@[i + 1].0@ == written@[i].0@ && p.files@[i + 1].1@
            == written@[i].1@,
        p.files@[9].0@ == "NOTES.md"@,
{
    let all = pairs(p.files@);
    let own = pairs(written@);
    assert(all.len() == p.files.len());
    assert(own.len() == written.len());
    assert(own[0] == (written@[0].0@, written@[0].1@));
    assert(own[1] == (written@[1].0@, written@[1].1@));
    assert(own[3] == (written@[3].0@, written@[3].1@));
    assert(own[4] == (written@[4].0@, written@[4].1@));
    assert(own[5] == (written@[5].0@, written@[5].1@));
    assert(all[9] == (p.files@[9].0@, p.files@[9].1@));
    if 0 <= i < 8 {
        assert(own[i] == (written@[i].0@, written@[i].1@));
        assert(all[i + 1] == (p.files@[i + 1].0@, p.files@[i + 1].1@));
        assert(all[i + 1] == own[i]);
    }
}

/// A call carries the name of its tool and its arguments as they are.
pub proof fn a_call_names_its_tool(tool: &str, arguments: &str, r: String)
    requires
        call_ensures(call_body, (tool, arguments), r),
    ensures
        (arguments@ + ",\"name\":"@ + json_string(tool@) + "}}"@).is_suffix_of(r@),
{
    let tail = arguments@ + ",\"name\":"@ + json_string(tool@) + "}}"@;
    let whole = r@;
    assert(whole.subrange(whole.len() - tail.len(), whole.len() as int) =~= tail);
}

/// The manifest of a new project begins with its name and how it is routed; with a
/// handler it goes on with how to set up jobs, and else is the same without.
pub proof fn a_new_manifest_says_what_it_is(
    name: &str,
    spa: bool,
    without: String,
    with: String,
)
    requires
        call_ensures(manifest, (name, spa, false), without),
        call_ensures(manifest, (name, spa, true), with),
    ensures
        spa ==> ("slug = \""@ + name@ + "\"\nspa = "@ + "true"@).is_prefix_of(without@),
        !spa ==> ("slug = \""@ + name@ + "\"\nspa = "@ + "false"@).is_prefix_of(without@),
        with@ == without@ + JOBS_HINT@,
{
    reveal_strlit("");
    let word = if spa {
        "true"@
    } else {
        "false"@
    };
    let head = "slug = \""@ + name@ + "\"\nspa = "@ + word;
    assert(without@.subrange(0, head.len() as int) =~= head);
    assert(with@ =~= without@ + JOBS_HINT@);
}

/// Whoever starts a project is told first what was made, and what to do next; and a page
/// of a project with a handler calls it.
pub proof fn what_comes_next_is_said(
    name: &str,
    spa: bool,
    handler: bool,
    templates: Templates,
    p: NewProject,
)
    requires
        call_ensures(
            init,
            (name, false, spa, handler, false, &templates),
            Ok::<NewProject, String>(p),
        ),
    ensures
        p.lines.len() > 2,
        p.lines@[0]@ == "created "@ + name@ + "/"@,
        p.lines@[p.lines.len() - 1]@ == "Next: cd "@ + name@ + " && toolsite deploy"@,
        p.files.len() > 1,
        handler ==> (WITH_HANDLER@ + "\n</body>\n</html>\n"@).is_suffix_of(p.files@[1].1@),
        !handler ==> (WITHOUT_HANDLER@ + "\n</body>\n</html>\n"@).is_suffix_of(p.files@[1].1@),
{
    let said = texts(p.lines@);
    let n = p.lines.len() - 1;
    assert(said.len() == p.lines.len());
    assert(said[0] == p.lines@[0]@);
    assert(said[n] == p.lines@[n]@);
    let all = pairs(p.files@);
    assert(all.len() == p.files.len());
    assert(all[1] == (p.files@[1].0@, p.files@[1].1@));
    let page = p.files@[1].1@;
    let tail = if handler {
        WITH_HANDLER@
    } else {
        WITHOUT_HANDLER@
    } + "\n</body>\n</html>\n"@;
    assert(page.subrange(page.len() - tail.len(), page.len() as int) =~= tail);
}

} // verus!
