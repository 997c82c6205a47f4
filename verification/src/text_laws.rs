//! What holds of the functions on texts: each law is about what a function is
//! handed and what it gives back.
use crate::text::{
    at, contains_str, decimal, digits, find, holds, join, joined, le, lemma_find,
    lemma_joined_split, lemma_split_both, lemma_split_free, lemma_split_head, lemma_split_len,
    lemma_split_whole, lines, lines_of, lower, lowered, not_after, replace_char, replace_text,
    replaced, same_ignoring_case, sort, space, split, split_on, split_once, strip_both,
    strip_prefix, strip_prefixes, strip_suffix, strip_suffixes, stripped_end, stripped_start,
    substituted, texts, to_lower, trim, trimmed, trimmed_end, trimmed_start, without_prefixes,
    without_return, without_suffixes, words, words_of,
};
use vstd::prelude::*;

verus! {

/// Whether every character of a text is a space, a tab or a line's end.
pub open spec fn is_blank(s: Seq<char>) -> bool {
    forall|i: int|
        0 <= i < s.len() ==> #[trigger] s[i] == ' ' || s[i] == '\t' || s[i] == '\n' || s[i] == '\r'
}

/// Whether a text has no white space at its ends: none of ASCII's printed
/// characters is white space.
pub open spec fn is_tight(s: Seq<char>) -> bool {
    s.len() > 0 && '!' <= s[0] && s[0] <= '~' && '!' <= s.last() && s.last() <= '~'
}

/// Spaces, tabs and the ends of lines are white space, and no printed character of
/// ASCII is.
pub proof fn what_white_space_is(c: char, r: bool)
    requires
        call_ensures(space, (c,), r),
    ensures
        c == ' ' || c == '\t' || c == '\n' || c == '\r' ==> r,
        '!' <= c && c <= '~' ==> !r,
{
}

/// Blanks in front are left out.
proof fn lemma_blank_front(front: Seq<char>, s: Seq<char>)
    requires
        is_blank(front),
    ensures
        trimmed_start(front + s) == trimmed_start(s),
    decreases front.len(),
{
    if front.len() == 0 {
        assert(front + s =~= s);
    } else {
        assert(forall|i: int| 0 <= i < front.skip(1).len() ==> front.skip(1)[i] == front[i + 1]);
        assert((front + s).skip(1) =~= front.skip(1) + s);
        lemma_blank_front(front.skip(1), s);
    }
}

/// Blanks at the end are left out.
proof fn lemma_blank_end(s: Seq<char>, end: Seq<char>)
    requires
        is_blank(end),
    ensures
        trimmed_end(s + end) == trimmed_end(s),
    decreases end.len(),
{
    if end.len() == 0 {
        assert(s + end =~= s);
    } else {
        assert(forall|i: int| 0 <= i < end.drop_last().len() ==> end.drop_last()[i] == end[i]);
        assert((s + end).drop_last() =~= s + end.drop_last());
        assert((s + end).last() == end[end.len() - 1]);
        lemma_blank_end(s, end.drop_last());
    }
}

/// What is left of a text between blanks is the text.
pub proof fn lemma_trimmed(front: Seq<char>, inner: Seq<char>, end: Seq<char>)
    requires
        is_blank(front),
        is_blank(end),
        is_tight(inner),
    ensures
        trimmed(front + inner + end) == inner,
        trimmed(inner) == inner,
{
    assert(front + inner + end =~= front + (inner + end));
    lemma_blank_front(front, inner + end);
    assert(trimmed_start(inner + end) == inner + end);
    lemma_blank_end(inner, end);
    assert(trimmed_end(inner) == inner);
}

/// Trimming a text takes off the blanks around it, and nothing else; of blanks alone
/// it leaves nothing.
pub proof fn trimming_takes_off_blanks(
    front: Seq<char>,
    inner: Seq<char>,
    end: Seq<char>,
    s: &str,
    r: String,
)
    requires
        is_blank(front),
        is_blank(end),
        s@ == front + inner + end,
        call_ensures(trim, (s,), r),
    ensures
        is_tight(inner) ==> r@ == inner,
        inner.len() == 0 ==> r@.len() == 0,
{
    assert(s@ =~= front + (inner + end));
    lemma_blank_front(front, inner + end);
    if is_tight(inner) {
        assert(trimmed_start(inner + end) == inner + end);
        lemma_blank_end(inner, end);
        assert(trimmed_end(inner) == inner);
    }
    if inner.len() == 0 {
        assert(inner + end =~= end + inner);
        lemma_blank_front(end, inner);
        assert(trimmed_start(inner) == inner);
        assert(trimmed_end(inner) == inner);
    }
}

/// Stripping a text of a character takes every one at its ends off, and nothing
/// else.
pub proof fn stripping_takes_off_its_character(
    inner: Seq<char>,
    set: &str,
    c: char,
    front: nat,
    end: nat,
    s: &str,
    r: String,
)
    requires
        set@ == seq![c],
        s@ == Seq::new(front, |i: int| c) + inner + Seq::new(end, |i: int| c),
        inner.len() > 0,
        inner[0] != c,
        inner.last() != c,
        call_ensures(strip_both, (s, set), r),
    ensures
        r@ == inner,
{
    let tail = inner + Seq::new(end, |i: int| c);
    assert(s@ =~= Seq::new(front, |i: int| c) + tail);
    lemma_strip_front(c, front, tail);
    lemma_strip_end(c, inner, end);
}

proof fn lemma_strip_front(c: char, n: nat, s: Seq<char>)
    requires
        s.len() > 0,
        s[0] != c,
    ensures
        stripped_start(Seq::new(n, |i: int| c) + s, seq![c]) == s,
    decreases n,
{
    let whole = Seq::new(n, |i: int| c) + s;
    if n == 0 {
        assert(whole =~= s);
        assert(!seq![c].contains(s[0]));
    } else {
        let less = Seq::new((n - 1) as nat, |i: int| c);
        assert(whole.skip(1) =~= less + s);
        assert(seq![c][0] == whole[0]);
        lemma_strip_front(c, (n - 1) as nat, s);
    }
}

proof fn lemma_strip_end(c: char, s: Seq<char>, n: nat)
    requires
        s.len() > 0,
        s.last() != c,
    ensures
        stripped_end(s + Seq::new(n, |i: int| c), seq![c]) == s,
    decreases n,
{
    let whole = s + Seq::new(n, |i: int| c);
    if n == 0 {
        assert(whole =~= s);
        assert(!seq![c].contains(s.last()));
    } else {
        let less = Seq::new((n - 1) as nat, |i: int| c);
        assert(whole.drop_last() =~= s + less);
        assert(whole.last() == c);
        assert(seq![c][0] == whole.last());
        lemma_strip_end(c, s, (n - 1) as nat);
    }
}

/// A prefix or a suffix is taken off where it stands, once, or as often as it
/// stands.
pub proof fn what_stands_at_an_end_is_taken_off(
    rest: Seq<char>,
    p: &str,
    front: &str,
    back: &str,
    once: Option<String>,
    ended: Option<String>,
    all: String,
    all_ended: String,
)
    requires
        front@ == p@ + rest,
        back@ == rest + p@,
        call_ensures(strip_prefix, (front, p), once),
        call_ensures(strip_suffix, (back, p), ended),
        call_ensures(strip_prefixes, (front, p), all),
        call_ensures(strip_suffixes, (back, p), all_ended),
    ensures
        once matches Some(t) && t@ == rest,
        ended matches Some(t) && t@ == rest,
        !p@.is_prefix_of(rest) ==> all@ == rest,
        !p@.is_suffix_of(rest) ==> all_ended@ == rest,
{
    assert(front@.subrange(0, p@.len() as int) =~= p@);
    assert(front@.skip(p@.len() as int) =~= rest);
    assert(back@.subrange(rest.len() as int, back@.len() as int) =~= p@);
    assert(back@.take(rest.len() as int) =~= rest);
    if p@.len() == 0 {
        assert(p@.is_prefix_of(rest)) by {
            assert(rest.subrange(0, 0) =~= p@);
        }
        assert(p@.is_suffix_of(rest)) by {
            assert(rest.subrange(rest.len() as int, rest.len() as int) =~= p@);
        }
    }
    assert(without_prefixes(rest, p@) == rest || p@.is_prefix_of(rest));
    assert(without_suffixes(rest, p@) == rest || p@.is_suffix_of(rest));
}

/// Where neither end has it, nothing is taken off.
pub proof fn what_does_not_stand_at_an_end_stays(
    s: &str,
    p: &str,
    once: Option<String>,
    ended: Option<String>,
    all: String,
    all_ended: String,
)
    requires
        call_ensures(strip_prefix, (s, p), once),
        call_ensures(strip_suffix, (s, p), ended),
        call_ensures(strip_prefixes, (s, p), all),
        call_ensures(strip_suffixes, (s, p), all_ended),
    ensures
        !p@.is_prefix_of(s@) ==> once is None && all@ == s@,
        !p@.is_suffix_of(s@) ==> ended is None && all_ended@ == s@,
{
}

/// A text stands in another where that one is something, the text, and something
/// else.
pub proof fn what_stands_in_a_text_is_found(
    before: Seq<char>,
    after: Seq<char>,
    s: &str,
    p: &str,
    r: bool,
)
    requires
        call_ensures(contains_str, (s, p), r),
    ensures
        s@ == before + p@ + after ==> r,
        r ==> exists|a: Seq<char>, b: Seq<char>| s@ == #[trigger] (a + p@ + b),
        p@.len() > s@.len() ==> !r,
{
    if s@ == before + p@ + after {
        let i = before.len() as int;
        assert(s@.subrange(i, i + p@.len()) =~= p@);
        assert(at(s@, p@, i));
    }
    if r {
        let i = choose|i: int| at(s@, p@, i);
        let a = s@.take(i);
        let b = s@.skip(i + p@.len());
        assert(s@ =~= a + p@ + b) by {
            assert forall|k: int| 0 <= k < s@.len() implies s@[k] == (a + p@ + b)[k] by {
                if i <= k < i + p@.len() {
                    assert(s@.subrange(i, i + p@.len())[k - i] == s@[k]);
                }
            }
        }
    }
}

/// A text is divided at its first separator.
pub proof fn a_text_is_divided_once(
    before: Seq<char>,
    c: char,
    after: Seq<char>,
    s: &str,
    r: Option<(String, String)>,
)
    requires
        call_ensures(split_once, (s, c), r),
    ensures
        s@ == before + seq![c] + after && !before.contains(c) ==> (r matches Some((a, b)) && a@
            == before && b@ == after),
        !s@.contains(c) ==> r is None,
{
    if s@ == before + seq![c] + after && !before.contains(c) {
        let n = before.len() as int;
        assert(s@[n] == c);
        lemma_find(s@, c);
        let k = find(s@, c);
        if k < n {
            assert(before[k] == c);
        } else if n < k {
            assert(s@.take(k)[n] == c);
        }
        assert(s@.take(n) =~= before);
        assert(s@.skip(n + 1) =~= after);
    }
}

/// The pieces of a text have no separator in them, are one more than there are
/// separators, and give the text back where they are joined.
pub proof fn pieces_give_the_text_back(
    s: &str,
    c: char,
    pieces: Vec<String>,
    sep: &str,
    again: String,
)
    requires
        call_ensures(split_on, (s, c), pieces),
        sep@ == seq![c],
        call_ensures(join, (&pieces, sep), again),
    ensures
        again@ == s@,
        pieces.len() >= 1,
        pieces.len() == 1 + count(s@, c),
        forall|i: int| 0 <= i < pieces.len() ==> !(#[trigger] pieces@[i])@.contains(c),
{
    lemma_joined_split(s@, c);
    lemma_split_free(s@, c);
    lemma_split_len(s@, c);
    lemma_count(s@, c);
    assert(texts(pieces@).len() == pieces.len());
    assert forall|i: int| 0 <= i < pieces.len() implies !(#[trigger] pieces@[i])@.contains(c) by {
        assert(texts(pieces@)[i] == pieces@[i]@);
        assert(!split(s@, c)[i].contains(c));
    }
}

/// How often a character stands in a text.
pub open spec fn count(s: Seq<char>, c: char) -> nat
    decreases s.len(),
{
    if s.len() == 0 {
        0
    } else {
        count(s.drop_last(), c) + if s.last() == c {
            1nat
        } else {
            0
        }
    }
}

proof fn lemma_count(s: Seq<char>, c: char)
    ensures
        split(s, c).len() == 1 + count(s, c),
    decreases s.len(),
{
    if s.len() > 0 {
        lemma_count(s.drop_last(), c);
        lemma_split_len(s.drop_last(), c);
    }
}

/// Joining puts the separator between two texts and nowhere else.
pub proof fn texts_are_joined_with_what_is_between(
    front: Vec<String>,
    whole: Vec<String>,
    sep: &str,
    last: Seq<char>,
    shorter: String,
    r: String,
)
    requires
        whole.len() == front.len() + 1,
        forall|i: int| 0 <= i < front.len() ==> (#[trigger] whole@[i])@ == front@[i]@,
        whole@[front.len() as int]@ == last,
        call_ensures(join, (&front, sep), shorter),
        call_ensures(join, (&whole, sep), r),
    ensures
        front.len() == 0 ==> shorter@.len() == 0 && r@ == last,
        front.len() > 0 ==> r@ == shorter@ + sep@ + last,
{
    assert(texts(whole@).drop_last() =~= texts(front@));
    assert(texts(whole@).last() == last);
}

/// A text of lines has them in order, each without its end; a last line end does not
/// begin another line.
pub proof fn lines_stand_between_their_ends(
    first: Seq<char>,
    rest: &str,
    s: &str,
    below: Vec<String>,
    r: Vec<String>,
)
    requires
        !first.contains('\n'),
        first.len() > 0 ==> first.last() != '\r',
        s@ == first + seq!['\n'] + rest@ || s@ == first + seq!['\r', '\n'] + rest@,
        call_ensures(lines, (rest,), below),
        call_ensures(lines, (s,), r),
    ensures
        texts(r@) == seq![first] + texts(below@),
{
    let line = if s@ == first + seq!['\n'] + rest@ {
        first
    } else {
        first.push('\r')
    };
    assert(s@ =~= line + seq!['\n'] + rest@);
    assert(!line.contains('\n')) by {
        if line.contains('\n') {
            let k = line.index_of('\n');
            if k < first.len() {
                assert(first[k] == '\n');
            }
        }
    }
    lemma_split_head(line, '\n', rest@);
    lemma_split_len(rest@, '\n');
    let pieces = split(rest@, '\n');
    let all = seq![line] + pieces;
    assert(all.last() == pieces.last());
    assert(all.drop_last() =~= seq![line] + pieces.drop_last());
    assert(without_return(line) =~= first);
    assert(lines_of(s@) =~= seq![first] + lines_of(rest@));
}

/// A text without a line's end is one line, and an empty text is none.
pub proof fn a_text_without_an_end_is_one_line(s: &str, r: Vec<String>)
    requires
        !s@.contains('\n'),
        call_ensures(lines, (s,), r),
    ensures
        s@.len() > 0 ==> texts(r@) == seq![s@],
        s@.len() == 0 ==> r.len() == 0,
{
    lemma_split_whole(s@, '\n');
    let pieces = split(s@, '\n');
    assert(pieces.drop_last() =~= Seq::empty());
    if s@.len() > 0 {
        assert(lines_of(s@) =~= seq![s@]);
    } else {
        assert(texts(r@).len() == 0);
    }
}

/// Words have no blanks in them, and a word behind a blank is one word more.
pub proof fn words_stand_between_blanks(
    front: &str,
    blank: char,
    word: Seq<char>,
    s: &str,
    before: Vec<String>,
    r: Vec<String>,
)
    requires
        blank == ' ' || blank == '\t' || blank == '\n',
        word.len() > 0,
        forall|i: int| 0 <= i < word.len() ==> '!' <= #[trigger] word[i] && word[i] <= '~',
        s@ == front@ + seq![blank] + word,
        call_ensures(words, (front,), before),
        call_ensures(words, (s,), r),
    ensures
        texts(r@) == texts(before@).push(word),
{
    lemma_word(front@ + seq![blank], word);
    assert((front@ + seq![blank]).drop_last() =~= front@);
}

/// A word behind a blank is one word more.
pub proof fn lemma_word(front: Seq<char>, word: Seq<char>)
    requires
        front.len() > 0,
        front.last() == ' ' || front.last() == '\t' || front.last() == '\n',
        word.len() > 0,
        forall|i: int| 0 <= i < word.len() ==> '!' <= #[trigger] word[i] && word[i] <= '~',
    ensures
        words_of(front + word) == words_of(front).push(word),
    decreases word.len(),
{
    let s = front + word;
    let less = word.drop_last();
    assert(s.drop_last() =~= front + less);
    assert(s.last() == word[word.len() - 1]);
    if word.len() == 1 {
        assert(front + less =~= front);
        assert(s[s.len() - 2] == front.last());
        assert(word =~= seq![word[0]]);
    } else {
        assert(forall|i: int| 0 <= i < less.len() ==> less[i] == word[i]);
        lemma_word(front, less);
        assert(s[s.len() - 2] == word[word.len() - 2]);
        let before = words_of(front).push(less);
        assert(before.drop_last() =~= words_of(front));
        assert(less.push(word.last()) =~= word);
    }
}

/// A character is replaced wherever it stands, and no other is.
pub proof fn a_character_is_replaced_everywhere(
    before: &str,
    c: char,
    after: &str,
    by: &str,
    s: &str,
    first: String,
    last: String,
    r: String,
)
    requires
        s@ == before@ + seq![c] + after@,
        call_ensures(replace_char, (before, c, by), first),
        call_ensures(replace_char, (after, c, by), last),
        call_ensures(replace_char, (s, c, by), r),
    ensures
        r@ == first@ + by@ + last@,
        !before@.contains(c) ==> first@ == before@,
{
    lemma_replaced(before@, c, after@, by@);
    if !before@.contains(c) {
        lemma_not_replaced(before@, c, by@);
    }
}

proof fn lemma_replaced(a: Seq<char>, c: char, b: Seq<char>, by: Seq<char>)
    ensures
        replaced(a + seq![c] + b, c, by) == replaced(a, c, by) + by + replaced(b, c, by),
    decreases b.len(),
{
    let s = a + seq![c] + b;
    if b.len() == 0 {
        assert(s.drop_last() =~= a);
        assert(b =~= Seq::empty());
        assert(replaced(s, c, by) =~= replaced(a, c, by) + by + replaced(b, c, by));
    } else {
        assert(s.drop_last() =~= a + seq![c] + b.drop_last());
        lemma_replaced(a, c, b.drop_last(), by);
        assert(replaced(s, c, by) =~= replaced(a, c, by) + by + replaced(b, c, by));
    }
}

proof fn lemma_not_replaced(s: Seq<char>, c: char, by: Seq<char>)
    requires
        !s.contains(c),
    ensures
        replaced(s, c, by) == s,
    decreases s.len(),
{
    if s.len() > 0 {
        assert(forall|i: int| 0 <= i < s.drop_last().len() ==> s.drop_last()[i] == s[i]);
        assert(s.contains(s[s.len() - 1]));
        assert(!s.drop_last().contains(c)) by {
            if s.drop_last().contains(c) {
                let k = s.drop_last().index_of(c);
                assert(s[k] == c);
            }
        }
        lemma_not_replaced(s.drop_last(), c, by);
        assert(s =~= s.drop_last().push(s.last()));
    }
}

/// What is put in place of a text stands where it first stood; where it does not
/// stand nothing changes.
pub proof fn a_text_is_replaced_where_it_stands(
    before: Seq<char>,
    p: &str,
    after: &str,
    by: &str,
    s: &str,
    last: String,
    r: String,
)
    requires
        p@.len() > 0,
        call_ensures(replace_text, (s, p, by), r),
        call_ensures(replace_text, (after, p, by), last),
    ensures
        !holds(s@, p@) ==> r@ == s@,
        s@ == before + p@ + after@ && (forall|i: int| 0 <= i < before.len() ==> !at(s@, p@, i))
            ==> r@ == before + by@ + last@,
{
    if !holds(s@, p@) {
        assert forall|i: int| 0 <= i < s@.len() implies !at(s@, p@, i) by {}
        assert(s@.skip(s@.len() as int) =~= Seq::empty());
        assert(s@ =~= s@ + Seq::<char>::empty());
        lemma_substituted(s@, s@.len() as int, p@, by@);
        assert(s@.take(s@.len() as int) =~= s@);
        assert(substituted(Seq::<char>::empty(), p@, by@) =~= Seq::empty());
    }
    if s@ == before + p@ + after@ && (forall|i: int| 0 <= i < before.len() ==> !at(s@, p@, i)) {
        let n = before.len() as int;
        lemma_substituted(s@, n, p@, by@);
        assert(s@.take(n) =~= before);
        assert(s@.skip(n) =~= p@ + after@);
        let tail = p@ + after@;
        assert(tail.subrange(0, p@.len() as int) =~= p@);
        assert(tail.skip(p@.len() as int) =~= after@);
        assert(r@ =~= before + by@ + last@);
    }
}

proof fn lemma_substituted(s: Seq<char>, n: int, p: Seq<char>, by: Seq<char>)
    requires
        0 <= n <= s.len(),
        p.len() > 0,
        forall|i: int| 0 <= i < n ==> !at(s, p, i),
    ensures
        substituted(s, p, by) == s.take(n) + substituted(s.skip(n), p, by),
    decreases n,
{
    if n == 0 {
        assert(s.skip(0) =~= s);
        assert(s.take(0) + substituted(s, p, by) =~= substituted(s, p, by));
    } else {
        let t = s.skip(1);
        assert(!at(s, p, 0));
        assert(!p.is_prefix_of(s)) by {
            if p.is_prefix_of(s) {
                assert(s.subrange(0, p.len() as int) =~= p);
            }
        }
        assert forall|i: int| 0 <= i < n - 1 implies !at(t, p, i) by {
            if at(t, p, i) {
                assert(t.subrange(i, i + p.len()) =~= s.subrange(i + 1, i + 1 + p.len()));
                assert(at(s, p, i + 1));
            }
        }
        lemma_substituted(t, n - 1, p, by);
        assert(t.skip(n - 1) =~= s.skip(n));
        assert(seq![s[0]] + t.take(n - 1) =~= s.take(n));
        assert(substituted(s, p, by) =~= s.take(n) + substituted(s.skip(n), p, by));
    }
}

/// Capital letters of ASCII become small ones, and everything else stays.
pub proof fn capitals_become_small(c: char, r: char)
    requires
        call_ensures(to_lower, (c,), r),
    ensures
        'A' <= c && c <= 'Z' ==> 'a' <= r && r <= 'z' && r as u32 == c as u32 + 32,
        !('A' <= c && c <= 'Z') ==> r == c,
{
}

/// A text in small letters is as long, and has each character's small letter.
pub proof fn each_letter_becomes_small(s: &str, i: int, c: char, r: String)
    requires
        call_ensures(lower, (s,), r),
        0 <= i < s@.len(),
        call_ensures(to_lower, (s@[i],), c),
    ensures
        r@.len() == s@.len(),
        r@[i] == c,
{
}

/// Texts that differ only in the case of letters are the same without it; texts of
/// another length never are.
pub proof fn case_is_all_that_is_ignored(a: &str, b: &str, x: String, y: String, r: bool)
    requires
        call_ensures(lower, (a,), x),
        call_ensures(lower, (b,), y),
        call_ensures(same_ignoring_case, (a, b), r),
    ensures
        r == (x@ == y@),
        a@ == b@ ==> r,
        a@.len() != b@.len() ==> !r,
{
    assert(lowered(a@).len() == a@.len());
    assert(lowered(b@).len() == b@.len());
}

/// The number that decimal digits stand for.
pub open spec fn number(s: Seq<char>) -> int
    decreases s.len(),
{
    if s.len() == 0 {
        0
    } else {
        number(s.drop_last()) * 10 + (s.last() as u32 - '0' as u32)
    }
}

/// The digits of a number are decimal digits, stand for the number, and do not begin
/// with a zero that says nothing.
pub proof fn digits_stand_for_their_number(n: u64, r: String)
    requires
        call_ensures(decimal, (n,), r),
    ensures
        number(r@) == n,
        r@.len() >= 1,
        forall|i: int| 0 <= i < r@.len() ==> '0' <= #[trigger] r@[i] && r@[i] <= '9',
        r@.len() > 1 ==> r@[0] != '0',
{
    lemma_digits(n as nat);
}

pub proof fn lemma_digits(n: nat)
    ensures
        number(digits(n)) == n,
        digits(n).len() >= 1,
        forall|i: int| 0 <= i < digits(n).len() ==> '0' <= #[trigger] digits(n)[i] && digits(n)[i] <= '9',
        n > 0 ==> digits(n)[0] != '0',
        n < 10 ==> digits(n).len() == 1,
    decreases n,
{
    if n < 10 {
        reveal_with_fuel(number, 2);
        assert(digits(n).drop_last() =~= Seq::empty());
    } else {
        lemma_digits(n / 10);
        assert(digits(n).drop_last() =~= digits(n / 10));
    }
}

/// Texts are ordered by the first character that differs; where none does, the
/// shorter comes first.
pub proof fn the_first_difference_decides(
    common: Seq<char>,
    x: char,
    y: char,
    a: &str,
    b: &str,
    resta: Seq<char>,
    restb: Seq<char>,
    r: bool,
)
    requires
        call_ensures(not_after, (a, b), r),
    ensures
        a@ == common + seq![x] + resta && b@ == common + seq![y] + restb && x < y ==> r,
        a@ == common + seq![x] + resta && b@ == common + seq![y] + restb && x > y ==> !r,
        a@ == common && b@ == common + restb ==> r,
        a@ == common + seq![x] + resta && b@ == common ==> !r,
{
    if a@ == common + seq![x] + resta && b@ == common + seq![y] + restb {
        assert(a@ =~= common + (seq![x] + resta));
        assert(b@ =~= common + (seq![y] + restb));
        lemma_common(common, seq![x] + resta, seq![y] + restb);
    }
    if a@ == common && b@ == common + restb {
        assert(a@ =~= common + Seq::<char>::empty());
        lemma_common(common, Seq::empty(), restb);
    }
    if a@ == common + seq![x] + resta && b@ == common {
        assert(a@ =~= common + (seq![x] + resta));
        assert(b@ =~= common + Seq::<char>::empty());
        lemma_common(common, seq![x] + resta, Seq::empty());
    }
}

proof fn lemma_common(p: Seq<char>, a: Seq<char>, b: Seq<char>)
    ensures
        le(p + a, p + b) == le(a, b),
    decreases p.len(),
{
    if p.len() == 0 {
        assert(p + a =~= a);
        assert(p + b =~= b);
    } else {
        assert((p + a).skip(1) =~= p.skip(1) + a);
        assert((p + b).skip(1) =~= p.skip(1) + b);
        lemma_common(p.skip(1), a, b);
    }
}

/// Sorting keeps every text as often as it stood, and puts none before a text that
/// comes before it.
pub proof fn sorting_keeps_what_is_sorted(
    v: Vec<String>,
    r: Vec<String>,
    i: int,
    j: int,
    a: &str,
    b: &str,
    ok: bool,
)
    requires
        call_ensures(sort, (v,), r),
        0 <= i < j < r.len(),
        a@ == r@[i]@,
        b@ == r@[j]@,
        call_ensures(not_after, (a, b), ok),
    ensures
        ok,
        r.len() == v.len(),
        forall|t: Seq<char>| #[trigger]
            texts(r@).to_multiset().count(t) == texts(v@).to_multiset().count(t),
{
    assert(texts(r@)[i] == a@ && texts(r@)[j] == b@);
}

/// Pieces of two texts with the separator between them are the pieces of both.
pub proof fn pieces_of_two_texts(
    a: &str,
    c: char,
    b: &str,
    s: &str,
    first: Vec<String>,
    last: Vec<String>,
    r: Vec<String>,
)
    requires
        s@ == a@ + seq![c] + b@,
        call_ensures(split_on, (a, c), first),
        call_ensures(split_on, (b, c), last),
        call_ensures(split_on, (s, c), r),
    ensures
        texts(r@) == texts(first@) + texts(last@),
        !a@.contains(c) ==> texts(first@) == seq![a@],
{
    lemma_split_both(a@, c, b@);
    if !a@.contains(c) {
        lemma_split_whole(a@, c);
    }
}

} // verus!
