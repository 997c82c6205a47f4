//! Publishing a project: what is uploaded, in which order, and what is made of
//! the server's answers.
use crate::text::{contains_str, holds, strip_end, stripped_end, texts, trim, trimmed};
use vstd::prelude::*;

verus! {

/// Something to upload.
#[derive(Clone, Copy, Debug, PartialEq, Eq, Structural)]
pub enum Upload {
    Migrations,
    Manifest,
    Bundle,
    Handler,
    Source,
}

/// What a project consists of, besides its pages.
pub struct Parts {
    pub migrations: bool,
    pub manifest: bool,
    pub handler: bool,
    pub keep_source: bool,
}

/// Whether something is uploaded.
pub open spec fn is_uploaded(parts: Parts, upload: Upload) -> bool {
    match upload {
        Upload::Migrations => parts.migrations,
        Upload::Manifest => parts.manifest,
        Upload::Bundle => true,
        Upload::Handler => parts.handler,
        Upload::Source => parts.keep_source,
    }
}

/// Where something stands in the order of uploads. Migrations and the manifest
/// come first, so an app is never briefly live without its tables or its gate: a
/// handler that goes live before its tables exist fails on the first request,
/// and that request may be a scheduled job nobody sees.
pub open spec fn turn(upload: Upload) -> int {
    match upload {
        Upload::Migrations => 0,
        Upload::Manifest => 1,
        Upload::Bundle => 2,
        Upload::Handler => 3,
        Upload::Source => 4,
    }
}

/// Whether a list is what is uploaded of a project, each once and in order.
pub open spec fn is_upload_list(list: Seq<Upload>, parts: Parts) -> bool {
    &&& forall|i: int, j: int|
        0 <= i < j < list.len() ==> turn(#[trigger] list[i]) < turn(#[trigger] list[j])
    &&& forall|u: Upload| #[trigger] list.contains(u) == is_uploaded(parts, u)
}

/// What is uploaded of a project, in order.
pub fn uploads(parts: &Parts) -> (r: Vec<Upload>)
    ensures
        is_upload_list(r@, *parts),
{
    let mut r: Vec<Upload> = Vec::new();
    if parts.migrations {
        r.push(Upload::Migrations);
    }
    let ghost a = r@;
    if parts.manifest {
        r.push(Upload::Manifest);
    }
    let ghost b = r@;
    r.push(Upload::Bundle);
    let ghost c = r@;
    if parts.handler {
        r.push(Upload::Handler);
    }
    let ghost d = r@;
    if parts.keep_source {
        r.push(Upload::Source);
    }
    proof {
        assert forall|u: Upload| #[trigger] r@.contains(u) == is_uploaded(*parts, u) by {
            if parts.migrations {
                assert(r@[0] == Upload::Migrations);
            }
            if parts.manifest {
                assert(r@[a.len() as int] == Upload::Manifest);
            }
            assert(r@[b.len() as int] == Upload::Bundle);
            if parts.handler {
                assert(r@[c.len() as int] == Upload::Handler);
            }
            if parts.keep_source {
                assert(r@[d.len() as int] == Upload::Source);
            }
        }
    }
    r
}

/// What is put behind the upload URL.
pub open spec fn query_of(upload: Upload, spa: bool) -> Seq<char> {
    match upload {
        Upload::Migrations => "?migrations"@,
        Upload::Manifest => "?manifest"@,
        Upload::Bundle => if spa {
            "?bundle&spa"@
        } else {
            "?bundle"@
        },
        Upload::Handler => "?handler"@,
        Upload::Source => "?source"@,
    }
}

/// Where something is uploaded to.
pub fn target(upload_url: &str, upload: Upload, spa: bool) -> (r: String)
    ensures
        r@ == upload_url@ + query_of(upload, spa),
{
    upload_url.to_owned().concat(
        match upload {
            Upload::Migrations => "?migrations",
            Upload::Manifest => "?manifest",
            Upload::Bundle => if spa {
                "?bundle&spa"
            } else {
                "?bundle"
            },
            Upload::Handler => "?handler",
            Upload::Source => "?source",
        },
    )
}

/// What comes of an upload.
#[derive(Debug, PartialEq)]
pub enum Outcome {
    /// Going on, with this to print.
    Says(String),
    /// Going on, with this to warn of.
    Warns(String),
    /// Stopping here.
    Fails(String),
}

/// What comes of an upload, over texts.
pub enum Came {
    Says(Seq<char>),
    Warns(Seq<char>),
    Fails(Seq<char>),
}

impl View for Outcome {
    type V = Came;

    open spec fn view(&self) -> Came {
        match self {
            Outcome::Says(s) => Came::Says(s@),
            Outcome::Warns(s) => Came::Warns(s@),
            Outcome::Fails(s) => Came::Fails(s@),
        }
    }
}

/// What comes of an upload, by the server's answer. Only the project itself may
/// fail to be kept without the deploy failing.
pub open spec fn came_of(upload: Upload, ok: bool, status: Seq<char>, body: Seq<char>) -> Came {
    if ok {
        if upload == Upload::Source {
            Came::Says("kept the project with it; `toolsite fetch` brings it back\n"@)
        } else {
            Came::Says(body)
        }
    } else {
        match upload {
            Upload::Migrations => Came::Fails(
                "migrations were rejected ("@ + status + "): "@ + trimmed(body),
            ),
            Upload::Manifest => Came::Fails(
                "toolsite.toml was rejected ("@ + status + "): "@ + trimmed(body),
            ),
            Upload::Bundle => Came::Fails("upload failed ("@ + status + "): "@ + body),
            Upload::Handler => Came::Fails("handler upload failed ("@ + status + "): "@ + body),
            Upload::Source => Came::Warns(
                "warning: could not store the project alongside the app"@,
            ),
        }
    }
}

/// What comes of an upload, by the server's answer.
pub fn uploaded(upload: Upload, ok: bool, status: &str, body: &str) -> (r: Outcome)
    ensures
        r@ == came_of(upload, ok, status@, body@),
{
    if ok {
        return match upload {
            Upload::Source => Outcome::Says(
                "kept the project with it; `toolsite fetch` brings it back\n".to_owned(),
            ),
            _ => Outcome::Says(body.to_owned()),
        };
    }
    match upload {
        Upload::Migrations => Outcome::Fails(
            "migrations were rejected (".to_owned().concat(status).concat("): ").concat(
                trim(body).as_str(),
            ),
        ),
        Upload::Manifest => Outcome::Fails(
            "toolsite.toml was rejected (".to_owned().concat(status).concat("): ").concat(
                trim(body).as_str(),
            ),
        ),
        Upload::Bundle => Outcome::Fails(
            "upload failed (".to_owned().concat(status).concat("): ").concat(body),
        ),
        Upload::Handler => Outcome::Fails(
            "handler upload failed (".to_owned().concat(status).concat("): ").concat(body),
        ),
        Upload::Source => Outcome::Warns(
            "warning: could not store the project alongside the app".to_owned(),
        ),
    }
}

/// What comes of an archive that could not be made: the project itself may be
/// left out, the schema may not.
pub open spec fn came_unpacked(upload: Upload, why: Seq<char>) -> Came {
    match upload {
        Upload::Source => Came::Warns("warning: could not package the project: "@ + why),
        Upload::Migrations => Came::Fails("could not package migrations: "@ + why),
        _ => Came::Fails(why),
    }
}

/// What comes of an archive that could not be made.
pub fn not_packed(upload: Upload, why: &str) -> (r: Outcome)
    ensures
        r@ == came_unpacked(upload, why@),
{
    match upload {
        Upload::Source => Outcome::Warns(
            "warning: could not package the project: ".to_owned().concat(why),
        ),
        Upload::Migrations => Outcome::Fails(
            "could not package migrations: ".to_owned().concat(why),
        ),
        _ => Outcome::Fails(why.to_owned()),
    }
}

/// A deploy on its way: what has gone up, and what is still to go. It ends
/// when nothing is left, or at the first thing that fails.
pub struct Deploy {
    pub upload_url: String,
    pub spa: bool,
    pub done: Vec<Upload>,
    pub left: Vec<Upload>,
    pub failed: bool,
}

/// What the server said.
pub struct Said {
    pub ok: bool,
    pub status: String,
    pub body: String,
}

/// What there is to do with something that was packed.
pub enum Packed {
    /// Put it to the URL.
    Put { url: String, body: Vec<u8> },
    /// Nothing: there is nothing in it.
    Skipped,
    /// Nothing: this came of it.
    Came(Outcome),
}

impl Deploy {
    /// Whether the deploy is one of a project: what has gone up and what is
    /// still to go is what there is to upload of it, in order.
    pub open spec fn is_of(self, parts: Parts) -> bool {
        is_upload_list(self.done@ + self.left@, parts)
    }

    /// Whether there is something to upload.
    pub open spec fn goes_on(self) -> bool {
        !self.failed && self.left.len() > 0
    }

    /// Whether a deploy has gone on to what comes after the first thing that
    /// was left.
    pub open spec fn has_moved_on(self, before: Deploy) -> bool {
        &&& self.upload_url == before.upload_url
        &&& self.spa == before.spa
        &&& self.failed == before.failed
        &&& self.done@ == before.done@.push(before.left@[0])
        &&& self.left@ == before.left@.skip(1)
    }

    /// What becomes of a deploy by what came of an upload: it ends where that
    /// failed, and goes on otherwise.
    pub open spec fn has_taken(self, before: Deploy, came: Came) -> bool {
        if came is Fails {
            &&& self.failed
            &&& self.upload_url == before.upload_url
            &&& self.spa == before.spa
            &&& self.done@ == before.done@
            &&& self.left@ == before.left@
        } else {
            self.has_moved_on(before)
        }
    }

    /// Begins a deploy.
    pub fn begin(upload_url: String, spa: bool, parts: &Parts) -> (r: Deploy)
        ensures
            r.is_of(*parts),
            r.done.len() == 0,
            !r.failed,
            r.upload_url == upload_url,
            r.spa == spa,
    {
        let left = uploads(parts);
        let done: Vec<Upload> = Vec::new();
        assert(done@ + left@ =~= left@);
        Deploy { upload_url, spa, done, left, failed: false }
    }

    /// What to pack next, if there is anything.
    pub fn next(&self) -> (r: Option<Upload>)
        ensures
            r == if self.goes_on() {
                Some(self.left@[0])
            } else {
                None
            },
    {
        if self.failed || self.left.len() == 0 {
            None
        } else {
            Some(self.left[0])
        }
    }

    /// Goes on to what comes next.
    fn move_on(&mut self)
        requires
            old(self).left.len() > 0,
        ensures
            final(self).has_moved_on(*old(self)),
    {
        let upload = self.left.remove(0);
        self.done.push(upload);
        assert(self.left@ =~= old(self).left@.skip(1));
    }

    /// Takes what came of an upload.
    fn take(&mut self, outcome: &Outcome)
        requires
            old(self).left.len() > 0,
        ensures
            final(self).has_taken(*old(self), outcome@),
    {
        match outcome {
            Outcome::Fails(_) => {
                self.failed = true;
            },
            _ => {
                self.move_on();
            },
        }
    }

    /// Takes what was packed, or why nothing was. An app without a schema has
    /// nothing to send for it.
    pub fn packed(&mut self, body: Result<Vec<u8>, String>) -> (r: Packed)
        requires
            old(self).goes_on(),
        ensures
            ({
                let upload = old(self).left@[0];
                match body {
                    Ok(bytes) => if upload == Upload::Migrations && bytes.len() == 0 {
                        r is Skipped && final(self).has_moved_on(*old(self))
                    } else {
                        &&& r matches Packed::Put { url, body: sent }
                        &&& url@ == old(self).upload_url@ + query_of(upload, old(self).spa)
                        &&& sent == bytes
                        &&& *final(self) == *old(self)
                    },
                    Err(why) => {
                        &&& r matches Packed::Came(outcome)
                        &&& outcome@ == came_unpacked(upload, why@)
                        &&& final(self).has_taken(*old(self), outcome@)
                    },
                }
            }),
    {
        let upload = self.left[0];
        match body {
            Ok(bytes) => {
                if upload == Upload::Migrations && bytes.len() == 0 {
                    self.move_on();
                    Packed::Skipped
                } else {
                    Packed::Put { url: target(self.upload_url.as_str(), upload, self.spa), body: bytes }
                }
            },
            Err(why) => {
                let outcome = not_packed(upload, why.as_str());
                self.take(&outcome);
                Packed::Came(outcome)
            },
        }
    }

    /// Takes the server's answer to what was put, or why there is none.
    pub fn answered(&mut self, answer: Result<Said, String>) -> (r: Outcome)
        requires
            old(self).goes_on(),
        ensures
            r@ == match answer {
                Ok(said) => came_of(old(self).left@[0], said.ok, said.status@, said.body@),
                Err(why) => Came::Fails(why@),
            },
            final(self).has_taken(*old(self), r@),
    {
        let outcome = match answer {
            Ok(said) => uploaded(self.left[0], said.ok, said.status.as_str(), said.body.as_str()),
            Err(why) => Outcome::Fails(why),
        };
        self.take(&outcome);
        outcome
    }
}

/// The URL of a published project.
pub open spec fn live_url(base_url: Seq<char>, slug: Seq<char>) -> Seq<char> {
    stripped_end(base_url, "/"@) + "/p/"@ + slug + "/"@
}

/// The URL of a published project.
pub fn page_to_check(base_url: &str, slug: &str) -> (r: String)
    ensures
        r@ == live_url(base_url@, slug@),
{
    strip_end(base_url, "/").concat("/p/").concat(slug).concat("/")
}

/// Whether a page makes the base-path mistake: absolute /assets/... URLs that
/// resolve above the app and 404, leaving a page that loads blank.
pub open spec fn reaches_for_the_root(html: Seq<char>) -> bool {
    holds(html, "src=\"/assets/"@) || holds(html, "href=\"/assets/"@)
}

/// The warning for a page that makes the base-path mistake.
pub open spec fn base_warning(slug: Seq<char>) -> Seq<Seq<char>> {
    seq![
        ""@,
        "warning: index.html references /assets/… from the domain root."@,
        "         This app is served from /p/"@ + slug + "/ so those will 404 and"@,
        "         the page will render blank. Set your build's base path:"@,
        "           vite.config: base: '/p/"@ + slug + "/'"@,
    ]
}

/// What is said of a page that was published and looked at. A deploy that
/// reports success without checking is how a blank page ships.
pub fn verify(page: &str, slug: &str, ok: bool, status: &str, html: &str) -> (r: Result<
    Vec<String>,
    String,
>)
    ensures
        match r {
            Ok(warnings) => ok && texts(warnings@) == if reaches_for_the_root(html@) {
                base_warning(slug@)
            } else {
                Seq::<Seq<char>>::empty()
            },
            Err(m) => !ok && m@ == "published, but "@ + page@ + " answered "@ + status@,
        },
{
    if !ok {
        return Err(
            "published, but ".to_owned().concat(page).concat(" answered ").concat(status),
        );
    }
    let mut warnings: Vec<String> = Vec::new();
    if contains_str(html, "src=\"/assets/") || contains_str(html, "href=\"/assets/") {
        warnings.push("".to_owned());
        warnings.push("warning: index.html references /assets/… from the domain root.".to_owned());
        warnings.push(
            "         This app is served from /p/".to_owned().concat(slug).concat(
                "/ so those will 404 and",
            ),
        );
        warnings.push(
            "         the page will render blank. Set your build's base path:".to_owned(),
        );
        warnings.push("           vite.config: base: '/p/".to_owned().concat(slug).concat("/'"));
        assert(texts(warnings@) =~= base_warning(slug@));
    } else {
        assert(texts(warnings@) =~= Seq::<Seq<char>>::empty());
    }
    Ok(warnings)
}

/// An app is never briefly live without its tables or its gate: whatever is
/// uploaded of a project, its migrations and its manifest are uploaded before
/// its pages and its handler.
pub proof fn tables_and_gate_come_first(list: Seq<Upload>, parts: Parts, i: int, j: int)
    requires
        is_upload_list(list, parts),
        0 <= i < list.len(),
        0 <= j < list.len(),
        list[i] == Upload::Migrations || list[i] == Upload::Manifest,
        list[j] == Upload::Bundle || list[j] == Upload::Handler,
    ensures
        i < j,
{
    if j < i {
        assert(turn(list[j]) < turn(list[i]));
    }
}

/// However far a deploy has come, it is still one of its project.
pub proof fn a_deploy_keeps_its_list(before: Deploy, after: Deploy, parts: Parts, came: Came)
    requires
        before.is_of(parts),
        before.goes_on(),
        after.has_taken(before, came),
    ensures
        after.is_of(parts),
{
    if !(came is Fails) {
        assert(after.done@ + after.left@ =~= before.done@ + before.left@);
    }
}

/// When a deploy comes to the pages or the handler, the schema and the
/// manifest of the project have gone up before, as far as there is anything in
/// them.
pub proof fn nothing_goes_live_unprepared(deploy: Deploy, parts: Parts, first: Upload)
    requires
        deploy.is_of(parts),
        deploy.goes_on(),
        deploy.left@[0] == Upload::Bundle || deploy.left@[0] == Upload::Handler,
        first == Upload::Migrations || first == Upload::Manifest,
        is_uploaded(parts, first),
    ensures
        deploy.done@.contains(first),
{
    let list = deploy.done@ + deploy.left@;
    assert(list.contains(first));
    let i = choose|i: int| 0 <= i < list.len() && list[i] == first;
    let n = deploy.done.len() as int;
    assert(list[n] == deploy.left@[0]);
    tables_and_gate_come_first(list, parts, i, n);
    assert(deploy.done@[i] == first);
}

/// A failure ends a deploy: what failed has not gone up, and nothing goes up
/// after it.
pub proof fn a_failure_ends_the_deploy(before: Deploy, after: Deploy, came: Came)
    requires
        before.goes_on(),
        came is Fails,
        after.has_taken(before, came),
    ensures
        !after.goes_on(),
        after.done@ == before.done@,
{
}

} // verus!
