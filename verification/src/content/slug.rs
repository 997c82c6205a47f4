//! Names: which ones a page, an app or an asset may have, how one is drawn at
//! random, and how a text is made safe inside a page.
use crate::text::{split, split_on, texts, to_chars};
use rand::RngExt;
use vstd::prelude::*;

verus! {

/// How many characters a random name draws from.
pub const ALPHABET: usize = 36;

/// The `i`-th character of the alphabet of random names: the letters, then the
/// digits.
pub open spec fn letter(i: int) -> char {
    if i < 26 {
        ('a' as u8 + i) as char
    } else {
        ('0' as u8 + (i - 26)) as char
    }
}

/// `rand::rng().random_range(0..n)` draws an index below `n`. Which one is left
/// to chance.
#[verifier::external_body]
fn draw(n: usize) -> (r: usize)
    requires
        0 < n,
    ensures
        r < n,
{
    rand::rng().random_range(0..n)
}

/// The name spelled by a list of drawn indices.
pub fn spell(drawn: &Vec<usize>) -> (r: String)
    requires
        forall|i: int| 0 <= i < drawn.len() ==> drawn@[i] < ALPHABET,
    ensures
        r@ == drawn@.map_values(|i: usize| letter(i as int)),
{
    let mut r = String::new();
    let mut k: usize = 0;
    while k < drawn.len()
        invariant
            k <= drawn.len(),
            forall|i: int| 0 <= i < drawn.len() ==> drawn@[i] < ALPHABET,
            r@ == drawn@.take(k as int).map_values(|i: usize| letter(i as int)),
        decreases drawn.len() - k,
    {
        let i: usize = drawn[k];
        let c: char = if i < 26 {
            (97u8 + i as u8) as char
        } else {
            (48u8 + (i - 26) as u8) as char
        };
        r.push(c);
        proof {
            assert(c == letter(i as int));
            assert(drawn@.take(k + 1).map_values(|i: usize| letter(i as int)) =~= drawn@.take(
                k as int,
            ).map_values(|i: usize| letter(i as int)).push(c));
        }
        k += 1;
    }
    proof {
        assert(drawn@.take(drawn@.len() as int) =~= drawn@);
    }
    r
}

/// Whether a text is made of the alphabet of random names.
pub open spec fn is_token(s: Seq<char>) -> bool {
    forall|i: int| 0 <= i < s.len() ==> ('a' <= #[trigger] s[i] <= 'z' || '0' <= s[i] <= '9')
}

/// Whether a text is a name that could be drawn: as many characters of the
/// alphabet.
pub open spec fn is_drawn(s: Seq<char>, len: int) -> bool {
    s.len() == len && is_token(s)
}

/// A random name of `len` characters.
pub fn random_token(len: usize) -> (r: String)
    ensures
        is_drawn(r@, len as int),
{
    let mut drawn: Vec<usize> = Vec::new();
    let mut k: usize = 0;
    while k < len
        invariant
            k <= len,
            drawn.len() == k,
            forall|i: int| 0 <= i < drawn.len() ==> drawn@[i] < ALPHABET,
        decreases len - k,
    {
        drawn.push(draw(ALPHABET));
        k += 1;
    }
    spell(&drawn)
}

/// A random name for a page that was given none.
pub fn random_slug() -> (r: String)
    ensures
        is_drawn(r@, 8),
        is_slug(r@),
{
    let r = random_token(8);
    proof {
        token_is_slug(r@);
    }
    r
}

/// A letter or digit of ASCII.
pub open spec fn is_alnum(c: char) -> bool {
    ('a' <= c <= 'z') || ('A' <= c <= 'Z') || ('0' <= c <= '9')
}

/// A letter or digit of ASCII.
pub fn alnum(c: char) -> (r: bool)
    ensures
        r == is_alnum(c),
{
    ('a' <= c && c <= 'z') || ('A' <= c && c <= 'Z') || ('0' <= c && c <= '9')
}

/// A character that may stand in a segment of a slug.
pub open spec fn is_segment_char(c: char) -> bool {
    is_alnum(c) || c == '-' || c == '_'
}

/// One part of a slug: letters, digits, hyphens and underscores.
pub open spec fn is_segment(s: Seq<char>) -> bool {
    s.len() > 0 && forall|i: int| 0 <= i < s.len() ==> is_segment_char(#[trigger] s[i])
}

/// A slug: segments with slashes between them.
pub open spec fn is_slug(s: Seq<char>) -> bool {
    s.len() > 0 && forall|i: int|
        0 <= i < split(s, '/').len() ==> is_segment(#[trigger] split(s, '/')[i])
}

/// A character that may stand in the path of an asset.
pub open spec fn is_asset_char(c: char) -> bool {
    is_alnum(c) || c == '-' || c == '_' || c == '.'
}

/// One part of an asset's path: dots are allowed, but not as its first
/// character.
pub open spec fn is_asset_segment(s: Seq<char>) -> bool {
    s.len() > 0 && s[0] != '.' && forall|i: int|
        0 <= i < s.len() ==> is_asset_char(#[trigger] s[i])
}

/// The path of an asset: parts with slashes between them.
pub open spec fn is_asset_path(s: Seq<char>) -> bool {
    s.len() > 0 && forall|i: int|
        0 <= i < split(s, '/').len() ==> is_asset_segment(#[trigger] split(s, '/')[i])
}

/// Whether a text is one segment of a slug.
pub fn valid_segment(s: &str) -> (r: bool)
    ensures
        r == is_segment(s@),
{
    let v = to_chars(s);
    let mut i: usize = 0;
    while i < v.len()
        invariant
            i <= v.len(),
            v@ == s@,
            forall|j: int| 0 <= j < i ==> is_segment_char(#[trigger] v@[j]),
        decreases v.len() - i,
    {
        if !(alnum(v[i]) || v[i] == '-' || v[i] == '_') {
            assert(!is_segment_char(s@[i as int]));
            return false;
        }
        i += 1;
    }
    v.len() > 0
}

/// Whether a text is a slug.
pub fn valid_slug(s: &str) -> (r: bool)
    ensures
        r == is_slug(s@),
{
    let parts = split_on(s, '/');
    let mut i: usize = 0;
    while i < parts.len()
        invariant
            i <= parts.len(),
            texts(parts@) == split(s@, '/'),
            forall|j: int| 0 <= j < i ==> is_segment(#[trigger] split(s@, '/')[j]),
        decreases parts.len() - i,
    {
        assert(texts(parts@)[i as int] == parts@[i as int]@);
        if !valid_segment(parts[i].as_str()) {
            assert(!is_segment(split(s@, '/')[i as int]));
            return false;
        }
        i += 1;
    }
    assert(texts(parts@).len() == parts@.len());
    !s.is_empty()
}

/// Whether a text is one part of an asset's path.
pub fn valid_asset_segment(s: &str) -> (r: bool)
    ensures
        r == is_asset_segment(s@),
{
    let v = to_chars(s);
    if v.len() == 0 || v[0] == '.' {
        return false;
    }
    let mut i: usize = 0;
    while i < v.len()
        invariant
            i <= v.len(),
            v@ == s@,
            forall|j: int| 0 <= j < i ==> is_asset_char(#[trigger] v@[j]),
        decreases v.len() - i,
    {
        if !(alnum(v[i]) || v[i] == '-' || v[i] == '_' || v[i] == '.') {
            assert(!is_asset_char(s@[i as int]));
            return false;
        }
        i += 1;
    }
    true
}

/// Whether a text is the path of an asset.
pub fn valid_asset_path(s: &str) -> (r: bool)
    ensures
        r == is_asset_path(s@),
{
    let parts = split_on(s, '/');
    let mut i: usize = 0;
    while i < parts.len()
        invariant
            i <= parts.len(),
            texts(parts@) == split(s@, '/'),
            forall|j: int| 0 <= j < i ==> is_asset_segment(#[trigger] split(s@, '/')[j]),
        decreases parts.len() - i,
    {
        assert(texts(parts@)[i as int] == parts@[i as int]@);
        if !valid_asset_segment(parts[i].as_str()) {
            assert(!is_asset_segment(split(s@, '/')[i as int]));
            return false;
        }
        i += 1;
    }
    assert(texts(parts@).len() == parts@.len());
    !s.is_empty()
}

/// What stands in a page for one character of a text.
pub open spec fn escaped_char(c: char) -> Seq<char> {
    if c == '&' {
        "&amp;"@
    } else if c == '<' {
        "&lt;"@
    } else if c == '>' {
        "&gt;"@
    } else if c == '"' {
        "&quot;"@
    } else {
        seq![c]
    }
}

/// A text as it stands in a page: the four characters that mean something in
/// markup are spelled out.
pub open spec fn escaped(s: Seq<char>) -> Seq<char>
    decreases s.len(),
{
    if s.len() == 0 {
        Seq::empty()
    } else {
        escaped(s.drop_last()) + escaped_char(s.last())
    }
}

/// A text as it stands in a page.
pub fn escape_html(s: &str) -> (r: String)
    ensures
        r@ == escaped(s@),
{
    let v = to_chars(s);
    let mut r = String::new();
    let mut i: usize = 0;
    while i < v.len()
        invariant
            i <= v.len(),
            v@ == s@,
            r@ == escaped(v@.take(i as int)),
        decreases v.len() - i,
    {
        proof {
            assert(v@.take(i + 1).drop_last() =~= v@.take(i as int));
        }
        let ghost before = r@;
        if v[i] == '&' {
            r.append("&amp;");
        } else if v[i] == '<' {
            r.append("&lt;");
        } else if v[i] == '>' {
            r.append("&gt;");
        } else if v[i] == '"' {
            r.append("&quot;");
        } else {
            r.push(v[i]);
            assert(r@ =~= before + seq![v@[i as int]]);
        }
        i += 1;
    }
    proof {
        assert(v@.take(v@.len() as int) =~= v@);
    }
    r
}

/// An escaped text holds no character that could open or close a tag or end an
/// attribute.
pub proof fn escaped_is_inert(s: Seq<char>)
    ensures
        !escaped(s).contains('<'),
        !escaped(s).contains('>'),
        !escaped(s).contains('"'),
    decreases s.len(),
{
    if s.len() > 0 {
        escaped_is_inert(s.drop_last());
        reveal_strlit("&amp;");
        reveal_strlit("&lt;");
        reveal_strlit("&gt;");
        reveal_strlit("&quot;");
        let before = escaped(s.drop_last());
        let last = escaped_char(s.last());
        assert forall|i: int| 0 <= i < escaped(s).len() implies escaped(s)[i] != '<' && escaped(
            s,
        )[i] != '>' && escaped(s)[i] != '"' by {
            if i < before.len() {
                assert(before.contains(before[i]));
            } else {
                assert(escaped(s)[i] == last[i - before.len()]);
            }
        }
    }
}

/// A text without any of the four characters is left as it is.
pub proof fn escape_keeps_plain_text(s: Seq<char>)
    requires
        !s.contains('&'),
        !s.contains('<'),
        !s.contains('>'),
        !s.contains('"'),
    ensures
        escaped(s) == s,
    decreases s.len(),
{
    if s.len() > 0 {
        assert(s.contains(s.last()));
        assert forall|c: char| s.drop_last().contains(c) implies s.contains(c) by {
            let i = s.drop_last().index_of(c);
            assert(s[i] == c);
        }
        escape_keeps_plain_text(s.drop_last());
        assert(escaped(s) =~= s);
    } else {
        assert(escaped(s) =~= s);
    }
}

/// A random name is a slug of one segment.
pub proof fn token_is_slug(s: Seq<char>)
    requires
        s.len() > 0,
        is_token(s),
    ensures
        is_segment(s),
        is_slug(s),
{
    assert(!s.contains('/'));
    crate::text::lemma_split_whole(s, '/');
    assert(is_segment(s)) by {
        assert forall|i: int| 0 <= i < s.len() implies is_segment_char(#[trigger] s[i]) by {}
    }
}

/// A slug of one segment is a segment.
pub proof fn segment_is_slug(s: Seq<char>)
    requires
        is_segment(s),
    ensures
        is_slug(s),
        split(s, '/') == seq![s],
{
    assert forall|i: int| 0 <= i < s.len() implies s[i] != '/' by {
        assert(is_segment_char(s[i]));
    }
    assert(!s.contains('/'));
    crate::text::lemma_split_whole(s, '/');
}

/// Every character of a text is a separator or stands in one of its pieces.
pub proof fn lemma_char_in_piece(s: Seq<char>, c: char, k: int) -> (w: (int, int))
    requires
        0 <= k < s.len(),
        s[k] != c,
    ensures
        0 <= w.0 < split(s, c).len(),
        0 <= w.1 < split(s, c)[w.0].len(),
        split(s, c)[w.0][w.1] == s[k],
    decreases s.len(),
{
    crate::text::lemma_split_len(s.drop_last(), c);
    let before = split(s.drop_last(), c);
    if k == s.len() - 1 {
        (before.len() - 1, before.last().len() as int)
    } else {
        let w = lemma_char_in_piece(s.drop_last(), c, k);
        assert(s.drop_last()[k] == s[k]);
        if s.last() == c {
            assert(split(s, c)[w.0] == before[w.0]);
        } else if w.0 < before.len() - 1 {
            assert(split(s, c)[w.0] == before[w.0]);
        } else {
            assert(split(s, c)[w.0] == before.last().push(s.last()));
        }
        w
    }
}

/// The first piece begins as the text does.
pub proof fn lemma_first_piece(s: Seq<char>, c: char)
    requires
        s.len() > 0,
    ensures
        split(s, c).len() > 0,
        s[0] == c ==> split(s, c)[0].len() == 0,
        s[0] != c ==> split(s, c)[0].len() > 0 && split(s, c)[0][0] == s[0],
    decreases s.len(),
{
    crate::text::lemma_split_len(s.drop_last(), c);
    let before = split(s.drop_last(), c);
    if s.len() > 1 {
        lemma_first_piece(s.drop_last(), c);
        assert(s.drop_last()[0] == s[0]);
        if s.last() == c {
            assert(split(s, c)[0] == before[0]);
        } else if before.len() > 1 {
            assert(split(s, c)[0] == before[0]);
        } else {
            assert(before[0] == before.last());
            assert(split(s, c)[0] == before[0].push(s.last()));
            if s[0] == c {
                lemma_count(s.drop_last(), c);
            }
        }
    } else {
        assert(s.drop_last() =~= Seq::empty());
        assert(before =~= seq![Seq::<char>::empty()]);
    }
}

/// A text that holds the separator has more than one piece.
pub proof fn lemma_count(s: Seq<char>, c: char)
    requires
        s.contains(c),
    ensures
        split(s, c).len() > 1,
    decreases s.len(),
{
    crate::text::lemma_split_len(s.drop_last(), c);
    if s.last() != c {
        let k = s.index_of(c);
        assert(s.drop_last()[k] == c);
        lemma_count(s.drop_last(), c);
    }
}

/// A slug names nothing outside the directory it is looked up in: it has no
/// dot anywhere, and it is not absolute.
pub proof fn slug_stays_inside(s: Seq<char>)
    requires
        is_slug(s),
    ensures
        !s.contains('.'),
        s[0] != '/',
        forall|i: int|
            0 <= i < split(s, '/').len() ==> (#[trigger] split(s, '/')[i]) != ".."@ && split(
                s,
                '/',
            )[i] != "."@ && split(s, '/')[i].len() > 0,
{
    reveal_strlit("..");
    reveal_strlit(".");
    assert forall|k: int| 0 <= k < s.len() implies s[k] != '.' by {
        if s[k] == '.' {
            let w = lemma_char_in_piece(s, '/', k);
            assert(is_segment(split(s, '/')[w.0]));
            assert(is_segment_char(split(s, '/')[w.0][w.1]));
        }
    }
    lemma_first_piece(s, '/');
    assert(is_segment(split(s, '/')[0]));
    assert forall|i: int| 0 <= i < split(s, '/').len() implies (#[trigger] split(s, '/')[i])
        != ".."@ && split(s, '/')[i] != "."@ && split(s, '/')[i].len() > 0 by {
        assert(is_segment(split(s, '/')[i]));
        assert(is_segment_char(split(s, '/')[i][0]));
    }
}

/// The path of an asset is not absolute, has no empty part, and no part of it
/// begins with a dot: neither `..` nor a dotfile can be named.
pub proof fn asset_path_stays_inside(s: Seq<char>)
    requires
        is_asset_path(s),
    ensures
        s[0] != '/',
        forall|i: int|
            0 <= i < split(s, '/').len() ==> (#[trigger] split(s, '/')[i]).len() > 0 && split(
                s,
                '/',
            )[i][0] != '.' && split(s, '/')[i] != ".."@,
{
    reveal_strlit("..");
    lemma_first_piece(s, '/');
    assert(is_asset_segment(split(s, '/')[0]));
    assert forall|i: int| 0 <= i < split(s, '/').len() implies (#[trigger] split(s, '/')[i]).len()
        > 0 && split(s, '/')[i][0] != '.' && split(s, '/')[i] != ".."@ by {
        assert(is_asset_segment(split(s, '/')[i]));
    }
}

/// Every slug is also the path of an asset.
pub proof fn slug_is_asset_path(s: Seq<char>)
    requires
        is_slug(s),
    ensures
        is_asset_path(s),
{
    assert forall|i: int| 0 <= i < split(s, '/').len() implies is_asset_segment(
        #[trigger] split(s, '/')[i],
    ) by {
        let seg = split(s, '/')[i];
        assert(is_segment(seg));
        assert(is_segment_char(seg[0]));
        assert forall|j: int| 0 <= j < seg.len() implies is_asset_char(#[trigger] seg[j]) by {
            assert(is_segment_char(seg[j]));
        }
    }
}

} // verus!
