//! Taking something down for good, without destroying it.
//!
//! Nothing else here deletes: hiding a page keeps it, replacing a bundle
//! keeps the database, a manifest that drops a job keeps the schema. But junk
//! accumulates — a probe published as a page, an app nobody wants — and with
//! no way to remove it, hiding is the only answer and it hides the good copy
//! along with the bad.
//!
//! So removal moves everything belonging to a slug into `.trash/`, which no
//! URL can reach and no listing walks. It disappears from the site and is
//! still on disk if it turns out to have mattered.
use crate::config::Config;
use crate::content::slug::{is_slug, valid_slug};
use crate::content::store::{beside, file_beside, inside, join_path};
use crate::text::{decimal, digits, replace_char, replaced, same, texts};
use vstd::prelude::*;

verus! {

/// How many kinds of file can belong to one slug, beyond its own directory.
pub const SIDECARS: usize = 8;

/// The `i`-th kind of file that can belong to a slug.
pub open spec fn sidecar(i: int) -> Seq<char> {
    if i == 0 {
        "html"@
    } else if i == 1 {
        "meta"@
    } else if i == 2 {
        "icon"@
    } else if i == 3 {
        "notes"@
    } else if i == 4 {
        "source"@
    } else if i == 5 {
        "secrets"@
    } else if i == 6 {
        "jobs"@
    } else {
        "migrations"@
    }
}

/// The `i`-th kind of file that can belong to a slug.
pub fn sidecar_name(i: usize) -> (r: &'static str)
    ensures
        r@ == sidecar(i as int),
{
    if i == 0 {
        "html"
    } else if i == 1 {
        "meta"
    } else if i == 2 {
        "icon"
    } else if i == 3 {
        "notes"
    } else if i == 4 {
        "source"
    } else if i == 5 {
        "secrets"
    } else if i == 6 {
        "jobs"
    } else {
        "migrations"
    }
}

/// The name that what belonged to a slug goes by: timestamped, so removing the
/// same slug twice does not overwrite the first removal, which would be
/// destroying data by another route. Segments are joined by a dash, so slugs that
/// differ can share a name: a removal then goes by one that is free.
pub open spec fn epitaph(slug: Seq<char>, at: u64) -> Seq<char> {
    digits(at as nat) + "-"@ + replaced(slug, '/', "-"@)
}

/// The `n`-th name that a removal may go by, where those before it are taken.
pub open spec fn nth_name(name: Seq<char>, n: nat) -> Seq<char> {
    if n == 0 {
        name
    } else {
        name + "~"@ + digits(n)
    }
}

/// Whether the `n`-th name is the first that is not taken.
pub open spec fn is_first_free(taken: Seq<Seq<char>>, name: Seq<char>, n: nat) -> bool {
    &&& !taken.contains(nth_name(name, n))
    &&& forall|m: nat| m < n ==> taken.contains(#[trigger] nth_name(name, m))
}

/// The first name that is not taken.
pub open spec fn free_name(taken: Seq<Seq<char>>, name: Seq<char>) -> Seq<char> {
    nth_name(name, choose|n: nat| is_first_free(taken, name, n))
}

/// The directory in which everything that was removed is kept.
pub open spec fn trash(config: Config) -> Seq<char> {
    inside(config.data_dir@, ".trash"@)
}

/// Where what belonged to a slug goes, where nothing else stands there.
pub open spec fn grave(config: Config, slug: Seq<char>, at: u64) -> Seq<char> {
    inside(trash(config), epitaph(slug, at))
}

/// Where what belonged to a slug goes, given the names that stand in the trash
/// already.
pub open spec fn resting_place(
    config: Config,
    slug: Seq<char>,
    at: u64,
    taken: Seq<Seq<char>>,
) -> Seq<char> {
    inside(trash(config), free_name(taken, epitaph(slug, at)))
}

/// Names of different numbers differ.
proof fn lemma_nth_names(name: Seq<char>, m: nat, n: nat)
    requires
        m != n,
    ensures
        nth_name(name, m) != nth_name(name, n),
{
    reveal_strlit("~");
    lemma_digits_len(m);
    lemma_digits_len(n);
    let front = name + "~"@;
    if nth_name(name, m) == nth_name(name, n) {
        if m == 0 {
            assert(nth_name(name, n).len() > name.len());
        } else if n == 0 {
            assert(nth_name(name, m).len() > name.len());
        } else {
            assert((front + digits(m)).skip(front.len() as int) =~= digits(m));
            assert((front + digits(n)).skip(front.len() as int) =~= digits(n));
            lemma_digits(m, n);
        }
    }
}

/// Only one name is the first that is not taken.
proof fn lemma_free_name(taken: Seq<Seq<char>>, name: Seq<char>, n: nat)
    requires
        is_first_free(taken, name, n),
    ensures
        free_name(taken, name) == nth_name(name, n),
{
    let k = choose|k: nat| is_first_free(taken, name, k);
    assert(is_first_free(taken, name, k));
    if k < n {
        assert(taken.contains(nth_name(name, k)));
    } else if n < k {
        assert(taken.contains(nth_name(name, n)));
    }
}

/// Whether a name is one of some.
fn is_among(names: &Vec<String>, name: &str) -> (r: bool)
    ensures
        r == texts(names@).contains(name@),
{
    let mut i: usize = 0;
    while i < names.len()
        invariant
            i <= names.len(),
            forall|j: int| 0 <= j < i ==> #[trigger] texts(names@)[j] != name@,
        decreases names.len() - i,
    {
        if same(names[i].as_str(), name) {
            assert(texts(names@)[i as int] == name@);
            return true;
        }
        i += 1;
    }
    false
}

/// Names without one of them.
fn without(names: &Vec<String>, name: &str) -> (r: Vec<String>)
    ensures
        texts(names@).contains(name@) ==> r.len() < names.len(),
        forall|x: Seq<char>| #[trigger]
            texts(r@).contains(x) == (texts(names@).contains(x) && x != name@),
{
    let ghost all = texts(names@);
    let mut r: Vec<String> = Vec::new();
    let mut i: usize = 0;
    while i < names.len()
        invariant
            i <= names.len(),
            all == texts(names@),
            r.len() <= i,
            all.take(i as int).contains(name@) ==> r.len() < i,
            forall|x: Seq<char>| #[trigger]
                texts(r@).contains(x) == (all.take(i as int).contains(x) && x != name@),
        decreases names.len() - i,
    {
        let ghost before = r@;
        let ghost seen = all.take(i as int);
        let ghost next = all[i as int];
        let other = !same(names[i].as_str(), name);
        if other {
            r.push(names[i].clone());
            assert(texts(r@) =~= texts(before).push(next));
        }
        proof {
            assert(all.take(i + 1) =~= seen.push(next));
            assert forall|x: Seq<char>| #[trigger] texts(r@).contains(x) == (all.take(
                i + 1,
            ).contains(x) && x != name@) by {
                lemma_push_contains(seen, next, x);
                lemma_push_contains(texts(before), next, x);
                assert(texts(before).contains(x) == (seen.contains(x) && x != name@));
            }
            lemma_push_contains(seen, next, name@);
        }
        i += 1;
    }
    proof {
        assert(all.take(all.len() as int) =~= all);
    }
    r
}

/// What a list holds with one more at its end.
proof fn lemma_push_contains(s: Seq<Seq<char>>, next: Seq<char>, x: Seq<char>)
    ensures
        s.push(next).contains(x) == (s.contains(x) || x == next),
{
    if s.contains(x) {
        let i = choose|i: int| 0 <= i < s.len() && s[i] == x;
        assert(s.push(next)[i] == x);
    }
    if x == next {
        assert(s.push(next)[s.len() as int] == x);
    }
}

/// Whether a text is one of the first `n` names that a removal may go by.
pub open spec fn is_before(name: Seq<char>, n: nat, x: Seq<char>) -> bool {
    exists|m: nat| m < n && x == #[trigger] nth_name(name, m)
}

/// The first name that is not taken.
fn pick_name(taken: &Vec<String>, name: String) -> (r: String)
    ensures
        r@ == free_name(texts(taken@), name@),
        !texts(taken@).contains(r@),
{
    let ghost all = texts(taken@);
    if !is_among(taken, name.as_str()) {
        proof {
            assert(nth_name(name@, 0) == name@);
            lemma_free_name(all, name@, 0);
        }
        return name;
    }
    let mut left = without(taken, name.as_str());
    let mut n: u64 = 1;
    let mut free = name.clone().concat("~").concat(decimal(1).as_str());
    proof {
        assert(nth_name(name@, 0) == name@);
    }
    while is_among(&left, free.as_str())
        invariant
            n >= 1,
            all == texts(taken@),
            free@ == nth_name(name@, n as nat),
            forall|m: nat| m < n ==> all.contains(#[trigger] nth_name(name@, m)),
            forall|x: Seq<char>|
                !is_before(name@, n as nat, x) ==> #[trigger] texts(left@).contains(x)
                    == all.contains(x),
            left.len() + n <= taken.len(),
        decreases left.len(),
    {
        let ghost before = left@;
        proof {
            lemma_not_before(name@, n as nat);
        }
        left = without(&left, free.as_str());
        proof {
            assert forall|x: Seq<char>| !is_before(name@, (n + 1) as nat, x) implies
                #[trigger] texts(left@).contains(x) == all.contains(x) by {
                if is_before(name@, n as nat, x) {
                    let m = choose|m: nat| m < n && x == #[trigger] nth_name(name@, m);
                    assert(m < n + 1 && x == nth_name(name@, m));
                }
                if x == free@ {
                    assert(x == nth_name(name@, n as nat));
                }
                assert(texts(before).contains(x) == all.contains(x));
            }
        }
        n += 1;
        free = name.clone().concat("~").concat(decimal(n).as_str());
    }
    proof {
        lemma_not_before(name@, n as nat);
        lemma_free_name(all, name@, n as nat);
    }
    free
}

/// A name is none of those before it.
proof fn lemma_not_before(name: Seq<char>, n: nat)
    ensures
        !is_before(name, n, nth_name(name, n)),
{
    if is_before(name, n, nth_name(name, n)) {
        let m = choose|m: nat| m < n && nth_name(name, n) == #[trigger] nth_name(name, m);
        lemma_nth_names(name, m, n);
    }
}

/// Where what belonged to a slug goes, given the names that stand in the trash
/// already.
pub fn trash_dir(config: &Config, slug: &str, at: u64, taken: &Vec<String>) -> (r: String)
    ensures
        r@ == resting_place(*config, slug@, at, texts(taken@)),
{
    let name = decimal(at).concat("-").concat(replace_char(slug, '/', "-").as_str());
    let dir = join_path(config.data_dir.as_str(), ".trash");
    join_path(dir.as_str(), pick_name(taken, name).as_str())
}

/// One file or directory to move.
pub struct Move {
    pub from: String,
    pub to: String,
    /// What is reported as moved.
    pub label: String,
}

/// A move over mathematical values.
pub struct Moved {
    pub from: Seq<char>,
    pub to: Seq<char>,
    pub label: Seq<char>,
}

impl View for Move {
    type V = Moved;

    open spec fn view(&self) -> Moved {
        Moved { from: self.from@, to: self.to@, label: self.label@ }
    }
}

/// Moves over mathematical values.
pub open spec fn moves_view(v: Seq<Move>) -> Seq<Moved> {
    v.map_values(|m: Move| m@)
}

/// The move of a sidecar to a place in the trash.
pub open spec fn sidecar_move(config: Config, slug: Seq<char>, place: Seq<char>, i: int) -> Moved {
    Moved {
        from: beside(config, slug, "."@ + sidecar(i)),
        to: inside(place, "slug."@ + sidecar(i)),
        label: slug + "."@ + sidecar(i),
    }
}

/// The moves of the first `n` sidecars that there are.
pub open spec fn sidecar_moves(
    config: Config,
    slug: Seq<char>,
    place: Seq<char>,
    there: Seq<bool>,
    n: int,
) -> Seq<Moved>
    decreases n,
{
    if n <= 0 {
        Seq::empty()
    } else {
        let before = sidecar_moves(config, slug, place, there, n - 1);
        if there[n - 1] {
            before.push(sidecar_move(config, slug, place, n - 1))
        } else {
            before
        }
    }
}

/// Everything that is moved for a slug: its directory, then its sidecars.
pub open spec fn all_moves(
    config: Config,
    slug: Seq<char>,
    place: Seq<char>,
    dir: bool,
    there: Seq<bool>,
) -> Seq<Moved> {
    let first = if dir {
        seq![
            Moved {
                from: inside(config.data_dir@, slug),
                to: inside(place, "app"@),
                label: slug + "/"@,
            },
        ]
    } else {
        Seq::empty()
    };
    first + sidecar_moves(config, slug, place, there, SIDECARS as int)
}

/// Why a slug is none.
pub open spec fn invalid_slug(slug: Seq<char>) -> Seq<char> {
    "invalid slug '"@ + slug + "'"@
}

/// A sidecar that there is is moved.
proof fn lemma_moves_there(
    config: Config,
    slug: Seq<char>,
    place: Seq<char>,
    there: Seq<bool>,
    n: int,
    i: int,
)
    requires
        0 <= i < n,
        there[i],
    ensures
        sidecar_moves(config, slug, place, there, n).len() > 0,
    decreases n,
{
    if i < n - 1 {
        lemma_moves_there(config, slug, place, there, n - 1, i);
    }
}

/// Whether no kind of sidecar is there.
pub open spec fn none_there(there: Seq<bool>) -> bool {
    forall|i: int| 0 <= i < SIDECARS ==> !#[trigger] there[i]
}

/// Plans the removal of everything that belongs to a slug, given what there
/// is: its directory, and each kind of sidecar. `taken` are the names that stand
/// in the trash already.
pub fn remove(
    config: &Config,
    slug: &str,
    at: u64,
    dir: bool,
    there: &Vec<bool>,
    taken: &Vec<String>,
) -> (r: Result<Vec<Move>, String>)
    requires
        there.len() == SIDECARS,
    ensures
        match r {
            Ok(moves) => is_slug(slug@) && moves.len() > 0 && moves_view(moves@) == all_moves(
                *config,
                slug@,
                resting_place(*config, slug@, at, texts(taken@)),
                dir,
                there@,
            ),
            Err(m) => if !is_slug(slug@) {
                m@ == invalid_slug(slug@)
            } else {
                !dir && none_there(there@) && m@ == "nothing published at '"@ + slug@ + "'"@
            },
        },
{
    if !valid_slug(slug) {
        return Err("invalid slug '".to_owned().concat(slug).concat("'"));
    }
    let destination = trash_dir(config, slug, at, taken);
    let ghost place = destination@;
    let mut moves: Vec<Move> = Vec::new();
    if dir {
        moves.push(
            Move {
                from: join_path(config.data_dir.as_str(), slug),
                to: join_path(destination.as_str(), "app"),
                label: slug.to_owned().concat("/"),
            },
        );
    }
    let ghost first = moves_view(moves@);
    proof {
        assert(all_moves(*config, slug@, place, dir, there@) =~= first + sidecar_moves(
            *config,
            slug@,
            place,
            there@,
            SIDECARS as int,
        ));
    }
    let mut i: usize = 0;
    proof {
        assert(moves_view(moves@) =~= first + sidecar_moves(*config, slug@, place, there@, 0));
    }
    while i < SIDECARS
        invariant
            i <= SIDECARS,
            there.len() == SIDECARS,
            destination@ == place,
            moves_view(moves@) == first + sidecar_moves(*config, slug@, place, there@, i as int),
        decreases SIDECARS - i,
    {
        if there[i] {
            let kind = sidecar_name(i);
            let ghost before = moves@;
            let ending = ".".to_owned().concat(kind);
            let name = "slug.".to_owned().concat(kind);
            let m = Move {
                from: file_beside(config, slug, ending.as_str()),
                to: join_path(destination.as_str(), name.as_str()),
                label: slug.to_owned().concat(".").concat(kind),
            };
            let ghost moved = m@;
            moves.push(m);
            proof {
                assert(moved == sidecar_move(*config, slug@, place, i as int));
                assert(moves_view(moves@) =~= moves_view(before).push(moved));
                assert(moves_view(moves@) =~= first + sidecar_moves(
                    *config,
                    slug@,
                    place,
                    there@,
                    i + 1,
                ));
            }
        }
        i += 1;
    }
    proof {
        assert(moves_view(moves@).len() == moves@.len());
    }
    if moves.len() == 0 {
        proof {
            assert(first.len() == 0 ==> !dir);
            assert forall|i: int| 0 <= i < SIDECARS implies !#[trigger] there@[i] by {
                if there@[i] {
                    lemma_moves_there(*config, slug@, place, there@, SIDECARS as int, i);
                }
            }
        }
        return Err("nothing published at '".to_owned().concat(slug).concat("'"));
    }
    Ok(moves)
}

/// Plans the removal of the single page at a slug, leaving an app of the same
/// name. This is the shape of the mess an accidental page upload makes.
pub fn remove_page_only(
    config: &Config,
    slug: &str,
    at: u64,
    page: bool,
    taken: &Vec<String>,
) -> (r: Result<Move, String>)
    ensures
        match r {
            Ok(m) => is_slug(slug@) && page && m@ == (Moved {
                from: beside(*config, slug@, ".html"@),
                to: inside(resting_place(*config, slug@, at, texts(taken@)), "slug.html"@),
                label: slug@ + ".html"@,
            }),
            Err(m) => if !is_slug(slug@) {
                m@ == invalid_slug(slug@)
            } else {
                !page && m@ == "no single page at '"@ + slug@ + "'"@
            },
        },
{
    if !valid_slug(slug) {
        return Err("invalid slug '".to_owned().concat(slug).concat("'"));
    }
    if !page {
        return Err("no single page at '".to_owned().concat(slug).concat("'"));
    }
    let destination = trash_dir(config, slug, at, taken);
    Ok(
        Move {
            from: file_beside(config, slug, ".html"),
            to: join_path(destination.as_str(), "slug.html"),
            label: slug.to_owned().concat(".html"),
        },
    )
}

/// Numbers written alike are the same number.
proof fn lemma_digits(a: nat, b: nat)
    requires
        digits(a) == digits(b),
    ensures
        a == b,
{
    crate::text_laws::lemma_digits(a);
    crate::text_laws::lemma_digits(b);
}

/// A number has at least one digit.
proof fn lemma_digits_len(n: nat)
    ensures
        digits(n).len() >= 1,
    decreases n,
{
    if n >= 10 {
        lemma_digits_len(n / 10);
    }
}

/// Two names in one directory are two paths.
proof fn lemma_inside(dir: Seq<char>, x: Seq<char>, y: Seq<char>)
    requires
        x != y,
    ensures
        inside(dir, x) != inside(dir, y),
{
    if inside(dir, x) == inside(dir, y) {
        let p = if dir.len() == 0 || dir.last() == '/' {
            dir
        } else {
            dir + "/"@
        };
        assert(p + x =~= inside(dir, x));
        assert(p + y =~= inside(dir, y));
        assert(x =~= (p + x).skip(p.len() as int));
        assert(y =~= (p + y).skip(p.len() as int));
    }
}

/// Some name is always free: only so many can be taken.
proof fn lemma_some_name_is_free(
    taken: Seq<Seq<char>>,
    left: Seq<Seq<char>>,
    name: Seq<char>,
    n: nat,
) -> (k: nat)
    requires
        forall|m: nat| m < n ==> taken.contains(#[trigger] nth_name(name, m)),
        forall|x: Seq<char>|
            !is_before(name, n, x) ==> #[trigger] left.contains(x) == taken.contains(x),
    ensures
        is_first_free(taken, name, k),
    decreases left.len(),
{
    let next = nth_name(name, n);
    lemma_not_before(name, n);
    if taken.contains(next) {
        assert(left.contains(next));
        let i = choose|i: int| 0 <= i < left.len() && left[i] == next;
        let rest = left.remove(i);
        assert forall|x: Seq<char>| !is_before(name, n + 1, x) implies #[trigger] rest.contains(x)
            == taken.contains(x) by {
            if is_before(name, n, x) {
                let m = choose|m: nat| m < n && x == #[trigger] nth_name(name, m);
                assert(m < n + 1 && x == nth_name(name, m));
            }
            assert(x != next);
            assert(left.contains(x) == taken.contains(x));
            if left.contains(x) {
                let j = choose|j: int| 0 <= j < left.len() && left[j] == x;
                if j < i {
                    assert(rest[j] == x);
                } else {
                    assert(rest[j - 1] == x);
                }
            }
            if rest.contains(x) {
                let j = choose|j: int| 0 <= j < rest.len() && rest[j] == x;
                if j < i {
                    assert(left[j] == x);
                } else {
                    assert(left[j + 1] == x);
                }
            }
        }
        lemma_some_name_is_free(taken, rest, name, n + 1)
    } else {
        n
    }
}

/// A removal destroys nothing that was removed before, not even of the same
/// slug in the same second: it goes by a name that nothing in the trash has. Where
/// its own name is free, that is the one.
pub proof fn removal_goes_to_a_free_place(taken: Seq<Seq<char>>, slug: Seq<char>, at: u64)
    ensures
        !taken.contains(free_name(taken, epitaph(slug, at))),
        !taken.contains(epitaph(slug, at)) ==> free_name(taken, epitaph(slug, at)) == epitaph(
            slug,
            at,
        ),
{
    let name = epitaph(slug, at);
    let n = lemma_some_name_is_free(taken, taken, name, 0);
    lemma_free_name(taken, name, n);
    if n > 0 {
        assert(taken.contains(nth_name(name, 0)));
    }
}

/// A removal goes where no earlier one has gone, whatever the slugs and the
/// times: it is enough that the name of the earlier one is among those that are
/// taken.
pub proof fn removals_do_not_collide(
    config: Config,
    slug: Seq<char>,
    at: u64,
    taken: Seq<Seq<char>>,
    slug2: Seq<char>,
    at2: u64,
    taken2: Seq<Seq<char>>,
)
    requires
        taken2.contains(free_name(taken, epitaph(slug, at))),
    ensures
        resting_place(config, slug, at, taken) != resting_place(config, slug2, at2, taken2),
{
    removal_goes_to_a_free_place(taken2, slug2, at2);
    lemma_inside(
        trash(config),
        free_name(taken, epitaph(slug, at)),
        free_name(taken2, epitaph(slug2, at2)),
    );
}

/// Removing the same slug at two times gives two names, whatever is taken.
pub proof fn times_tell_removals_apart(config: Config, slug: Seq<char>, at: u64, at2: u64)
    requires
        at != at2,
    ensures
        grave(config, slug, at) != grave(config, slug, at2),
{
    let rest = "-"@ + replaced(slug, '/', "-"@);
    let x = epitaph(slug, at);
    let y = epitaph(slug, at2);
    if x == y {
        assert(x =~= digits(at as nat) + rest);
        assert(y =~= digits(at2 as nat) + rest);
        assert(digits(at as nat) =~= x.take(x.len() - rest.len()));
        assert(digits(at2 as nat) =~= y.take(y.len() - rest.len()));
        lemma_digits(at as nat, at2 as nat);
    }
    lemma_inside(trash(config), x, y);
}

} // verus!
