//! Gzipped tar archives, before they are unpacked: whether the places in one
//! can be counted at all.
//!
//! The reader of archives adds up the sizes that headers claim. For a sparse
//! file that further blocks describe it does so without looking whether the sum
//! still fits, so an archive that claims enough is one that it must not be given.
//! What follows walks from header to header as the reader does, by the size that
//! each claims, and looks at that one sum.
use crate::text::{bytes_at, to_chars, trim, trimmed, utf8_text};
use flate2::read::GzDecoder;
use std::io::Read;
use vstd::prelude::*;
use vstd::utf8::{decode_utf8, valid_utf8};

verus! {

/// `flate2::read::GzDecoder`: what decompresses, byte by byte.
#[verifier::external_type_specification]
#[verifier::external_body]
#[verifier::reject_recursive_types(R)]
pub struct ExGzDecoder<R>(flate2::read::GzDecoder<R>);

/// The bytes that gzipped bytes decompress to, read in blocks of 512, up to the
/// first block that cannot be had.
pub uninterp spec fn gunzipped(body: Seq<u8>) -> Seq<u8>;

/// The bytes that a decoder has still to give.
pub uninterp spec fn unread(decoder: GzDecoder<&[u8]>) -> Seq<u8>;

/// `GzDecoder::new`: a decoder that has all of the bytes still to give, which
/// are a function of those that it was made of.
#[verifier::external_body]
fn start(body: &[u8]) -> (r: GzDecoder<&[u8]>)
    ensures
        unread(r) == gunzipped(body@),
{
    GzDecoder::new(body)
}

/// `GzDecoder` as `std::io::Read`, read by `read_exact`: the next 512 bytes, or
/// nothing where fewer can be had. Where nothing was given, nothing is said of the
/// decoder.
#[verifier::external_body]
fn read_block(decoder: &mut GzDecoder<&[u8]>) -> (r: Option<Vec<u8>>)
    ensures
        r is Some == (unread(*old(decoder)).len() >= 512),
        r matches Some(block) ==> block@ == unread(*old(decoder)).take(512) && unread(
            *final(decoder),
        ) == unread(*old(decoder)).skip(512),
{
    let mut block = vec![0u8; 512];
    decoder.read_exact(&mut block).ok().map(|_| block)
}

/// The value of a digit, which `0` is the first of.
pub open spec fn digit(c: char) -> int {
    (c as u32) - 48
}

/// Whether a text is made of digits below a base.
pub open spec fn all_digits(s: Seq<char>, base: nat) -> bool {
    forall|i: int| 0 <= i < s.len() ==> 0 <= digit(#[trigger] s[i]) < base
}

/// The number that digits stand for.
pub open spec fn value(s: Seq<char>, base: nat) -> nat
    decreases s.len(),
{
    if s.len() == 0 {
        0
    } else {
        value(s.drop_last(), base) * base + digit(s.last()) as nat
    }
}

/// The digits of a text, without a sign before them.
pub open spec fn unsigned(s: Seq<char>) -> Seq<char> {
    if s.len() > 0 && s[0] == '+' {
        s.skip(1)
    } else {
        s
    }
}

/// The number that a text stands for in a base, if it stands for one that fits.
pub open spec fn number(s: Seq<char>, base: nat) -> Option<u64> {
    let digits = unsigned(s);
    if digits.len() > 0 && all_digits(digits, base) && value(digits, base) <= u64::MAX {
        Some(value(digits, base) as u64)
    } else {
        None
    }
}

/// The number of the first digits is no greater than that of them all.
proof fn lemma_value_grows(s: Seq<char>, base: nat, n: int)
    requires
        0 <= n <= s.len(),
        base >= 1,
        all_digits(s, base),
    ensures
        value(s.take(n), base) <= value(s, base),
    decreases s.len(),
{
    if n < s.len() {
        let front = s.drop_last();
        assert(front.take(n) =~= s.take(n));
        lemma_value_grows(front, base, n);
        assert(value(front, base) <= value(front, base) * base) by (nonlinear_arith)
            requires
                base >= 1,
        ;
    } else {
        assert(s.take(n) =~= s);
    }
}

/// The number that a text stands for in a base, if it stands for one that fits.
fn read_number(text: &str, base: u64) -> (r: Option<u64>)
    requires
        1 <= base <= 10,
    ensures
        r == number(text@, base as nat),
{
    let v = to_chars(text);
    let from: usize = if v.len() > 0 && v[0] == '+' {
        1
    } else {
        0
    };
    let ghost digits = unsigned(text@);
    assert(digits =~= v@.skip(from as int));
    if v.len() == from {
        return None;
    }
    let mut sum: u64 = 0;
    let mut i: usize = from;
    assert(digits.take(0) =~= Seq::empty());
    while i < v.len()
        invariant
            1 <= base <= 10,
            from <= i <= v.len(),
            digits == v@.skip(from as int),
            all_digits(digits.take(i - from), base as nat),
            sum == value(digits.take(i - from), base as nat),
            digits == unsigned(text@),
        decreases v.len() - i,
    {
        let c = v[i];
        let code: u32 = c as u32;
        let ghost k = i - from;
        let ghost front = digits.take(k);
        assert(digits.take(k + 1) =~= front.push(c));
        assert(front.push(c).drop_last() =~= front);
        if code < 48 || (code - 48) as u64 >= base {
            assert(digits[k] == c);
            assert(!(0 <= digit(digits[k]) < base));
            return None;
        }
        let next: u64 = (code - 48) as u64;
        proof {
            assert(all_digits(digits.take(k + 1), base as nat));
            if all_digits(digits, base as nat) {
                lemma_value_grows(digits, base as nat, k + 1);
            }
        }
        sum = match sum.checked_mul(base) {
            Some(scaled) => match scaled.checked_add(next) {
                Some(sum) => sum,
                None => {
                    return None;
                },
            },
            None => {
                return None;
            },
        };
        i += 1;
    }
    assert(digits.take(digits.len() as int) =~= digits);
    Some(sum)
}

/// The number that bytes stand for as text in a base.
pub open spec fn number_in(bytes: Seq<u8>, base: nat) -> Option<u64> {
    if valid_utf8(bytes) {
        number(decode_utf8(bytes), base)
    } else {
        None
    }
}

/// Where a byte first stands at or after a place, or the length.
pub open spec fn find_byte(s: Seq<u8>, b: u8, i: int) -> int
    decreases s.len() - i,
{
    if i >= s.len() {
        s.len() as int
    } else if s[i] == b {
        i
    } else {
        find_byte(s, b, i + 1)
    }
}

/// Where a byte first stands at or after a place, or the length.
fn find(v: &Vec<u8>, b: u8, from: usize) -> (r: usize)
    requires
        from <= v.len(),
    ensures
        r == find_byte(v@, b, from as int),
        from <= r <= v.len(),
        r < v.len() ==> v@[r as int] == b,
{
    let mut i: usize = from;
    while i < v.len() && v[i] != b
        invariant
            from <= i <= v.len(),
            find_byte(v@, b, i as int) == find_byte(v@, b, from as int),
        decreases v.len() - i,
    {
        i += 1;
    }
    i
}

/// Some of the bytes.
fn part(v: &Vec<u8>, from: usize, to: usize) -> (r: Vec<u8>)
    requires
        from <= to <= v.len(),
    ensures
        r@ == v@.subrange(from as int, to as int),
{
    let mut r: Vec<u8> = Vec::new();
    let mut i: usize = from;
    while i < to
        invariant
            from <= i <= to <= v.len(),
            r@ == v@.subrange(from as int, i as int),
        decreases to - i,
    {
        r.push(v[i]);
        assert(r@ =~= v@.subrange(from as int, i + 1));
        i += 1;
    }
    r
}

/// The size that a header claims, if it can be read: binary where the high bit
/// of the field is set, else in octal digits up to the first zero byte.
pub open spec fn claimed(h: Seq<u8>) -> Option<u64> {
    let field = h.subrange(124, 136);
    if field[0] >= 128 {
        Some(
            (field[4] * 0x100_0000_0000_0000 + field[5] * 0x1_0000_0000_0000 + field[6]
                * 0x100_0000_0000 + field[7] * 0x1_0000_0000 + field[8] * 0x100_0000 + field[9]
                * 0x1_0000 + field[10] * 0x100 + field[11]) as u64,
        )
    } else {
        let text = field.take(find_byte(field, 0, 0));
        if valid_utf8(text) {
            number(trimmed(decode_utf8(text)), 8)
        } else {
            None
        }
    }
}

/// The size that a header claims.
fn read_size(h: &Vec<u8>) -> (r: Option<u64>)
    requires
        h.len() == 512,
    ensures
        r == claimed(h@),
{
    let field = part(h, 124, 136);
    if field[0] >= 128 {
        let high: u64 = field[4] as u64 * 0x100_0000_0000_0000 + field[5] as u64
            * 0x1_0000_0000_0000 + field[6] as u64 * 0x100_0000_0000 + field[7] as u64
            * 0x1_0000_0000;
        let low: u64 = field[8] as u64 * 0x100_0000 + field[9] as u64 * 0x1_0000 + field[10] as u64
            * 0x100 + field[11] as u64;
        return Some(high + low);
    }
    let end = find(&field, 0, 0);
    let text = part(&field, 0, end);
    assert(text@ =~= field@.take(end as int));
    match utf8_text(text.as_slice()) {
        Some(text) => read_number(trim(text.as_str()).as_str(), 8),
        None => None,
    }
}

/// The name and the value of a record of an extension: its length, a space, the
/// name, `=` and the value.
pub open spec fn record(line: Seq<u8>) -> Option<(Seq<u8>, Seq<u8>)> {
    let space = find_byte(line, 32, 0);
    let equals = find_byte(line, 61, space + 1);
    if space < line.len() && number_in(line.take(space), 10) == Some((line.len() + 1) as u64)
        && line.len() < u64::MAX && equals < line.len() {
        Some((line.subrange(space + 1, equals), line.skip(equals + 1)))
    } else {
        None
    }
}

/// The bytes `size`.
pub open spec fn size_key() -> Seq<u8> {
    seq![115u8, 105u8, 122u8, 101u8]
}

/// The size that an extension sets, from a place in it on: that of its first
/// record of that name, unless a broken record or an empty line stands before.
pub open spec fn size_set(data: Seq<u8>, from: int) -> Option<u64>
    decreases data.len() - from,
{
    let end = find_byte(data, 10, from);
    if from < 0 || from >= data.len() || end <= from {
        None
    } else {
        match record(data.subrange(from, end)) {
            None => None,
            Some((name, value)) => if name == size_key() {
                number_in(value, 10)
            } else if end < data.len() {
                size_set(data, end + 1)
            } else {
                None
            },
        }
    }
}

/// The number that bytes stand for as text in a base.
fn read_number_in(bytes: &Vec<u8>, base: u64) -> (r: Option<u64>)
    requires
        1 <= base <= 10,
    ensures
        r == number_in(bytes@, base as nat),
{
    match utf8_text(bytes.as_slice()) {
        Some(text) => read_number(text.as_str(), base),
        None => None,
    }
}

/// The size that an extension sets.
fn read_size_set(data: &Vec<u8>) -> (r: Option<u64>)
    ensures
        r == size_set(data@, 0),
{
    let mut from: usize = 0;
    while from < data.len()
        invariant
            from <= data.len(),
            size_set(data@, from as int) == size_set(data@, 0),
        decreases data.len() - from,
    {
        let end = find(data, 10, from);
        if end == from {
            return None;
        }
        let line = part(data, from, end);
        let space = find(&line, 32, 0);
        if space == line.len() {
            return None;
        }
        let length = part(&line, 0, space);
        assert(length@ =~= line@.take(space as int));
        let told: u64 = match read_number_in(&length, 10) {
            Some(told) => told,
            None => {
                return None;
            },
        };
        if told == 0 || told - 1 != line.len() as u64 {
            return None;
        }
        let equals = find(&line, 61, space + 1);
        if equals == line.len() {
            return None;
        }
        let name = part(&line, space + 1, equals);
        if name.len() == 4 && name[0] == 115 && name[1] == 105 && name[2] == 122 && name[3] == 101 {
            assert(name@ =~= size_key());
            let value = part(&line, equals + 1, line.len());
            assert(value@ =~= line@.skip(equals + 1));
            return read_number_in(&value, 10);
        }
        assert(name@ != size_key());
        if end == data.len() {
            return None;
        }
        from = end + 1;
    }
    None
}

/// Whether a block is a header of GNU's tar.
pub open spec fn is_gnu(h: Seq<u8>) -> bool {
    h.subrange(257, 265) == seq![117u8, 115u8, 116u8, 97u8, 114u8, 32u8, 32u8, 0u8]
}

/// Whether a block is a header of the standard's tar.
pub open spec fn is_ustar(h: Seq<u8>) -> bool {
    h.subrange(257, 265) == seq![117u8, 115u8, 116u8, 97u8, 114u8, 0u8, 48u8, 48u8]
}

/// Whether a kind of entry only says something of another: a long name, a long
/// link, an extension of one entry or of all.
pub open spec fn is_about_another(kind: u8) -> bool {
    kind == 76 || kind == 75 || kind == 120 || kind == 103
}

/// The size of an entry: the one that its header claims, unless an extension
/// sets another.
pub open spec fn size_of(h: Seq<u8>, own: u64, extension: Option<Seq<u8>>) -> u64 {
    match extension {
        Some(data) => if is_about_another(h[156]) {
            own
        } else {
            match size_set(data, 0) {
                Some(size) => size,
                None => own,
            }
        },
        None => own,
    }
}

/// How the blocks that describe a sparse file end.
pub enum Described {
    /// They cannot be read.
    Broken,
    /// The place behind the file is past counting.
    Past,
    /// What follows the file is at this place.
    Upto(int),
}

/// How the blocks that describe a sparse file end, from a place on, where what
/// follows the file is at `next` before they are counted.
pub open spec fn described(b: Seq<u8>, at: int, next: int) -> Described
    decreases b.len() - at,
{
    if at < 0 || at + 512 > b.len() {
        Described::Broken
    } else if next + 512 > u64::MAX {
        Described::Past
    } else if b[at + 504] == 1 {
        described(b, at + 512, next + 512)
    } else {
        Described::Upto(next + 512)
    }
}

/// Whether the places in an archive are past counting, from the header at a
/// place on. `extension`, `name` and `link` are what was said before of the entry
/// to come. Where a header cannot be read, or says what another has said, the
/// reader stops by itself, and nothing behind it counts. Checksums and the chunks
/// of sparse files are not looked at: where those are wrong the reader stops with
/// an error before the place that is found here.
pub open spec fn overflows(
    b: Seq<u8>,
    at: int,
    extension: Option<Seq<u8>>,
    name: bool,
    link: bool,
) -> bool
    decreases b.len() - at,
{
    let h = b.subrange(at, at + 512);
    let kind = h[156];
    let known = is_gnu(h) || is_ustar(h);
    if at < 0 || at + 512 > b.len() {
        false
    } else if at + 512 > u64::MAX {
        true
    } else if h == Seq::new(512, |i: int| 0u8) {
        false
    } else {
        match claimed(h) {
            None => false,
            Some(own) => {
                let size = size_of(h, own, extension);
                let start = at + 512;
                let next = start + (size + 511) / 512 * 512;
                if size + 511 > u64::MAX || next > u64::MAX {
                    false
                } else if known && kind == 76 {
                    !name && next + 512 <= b.len() && overflows(b, next, extension, true, link)
                } else if known && kind == 75 {
                    !link && next + 512 <= b.len() && overflows(b, next, extension, name, true)
                } else if known && kind == 120 {
                    extension is None && next + 512 <= b.len() && overflows(
                        b,
                        next,
                        Some(b.subrange(start, start + size)),
                        name,
                        link,
                    )
                } else if kind == 83 && !is_gnu(h) {
                    false
                } else if kind == 83 && h[482] == 1 {
                    match described(b, start, next) {
                        Described::Broken => false,
                        Described::Past => true,
                        Described::Upto(end) => at < end && end + 512 <= b.len() && overflows(
                            b,
                            end,
                            None,
                            false,
                            false,
                        ),
                    }
                } else {
                    next + 512 <= b.len() && overflows(b, next, None, false, false)
                }
            },
        }
    }
}

/// Whether the places in a gzipped archive are past counting.
pub open spec fn is_past_counting(body: Seq<u8>) -> bool {
    overflows(gunzipped(body), 0, None, false, false)
}

/// Whether a block holds zeros only.
fn is_blank(h: &Vec<u8>) -> (r: bool)
    requires
        h.len() == 512,
    ensures
        r == (h@ == Seq::new(512, |i: int| 0u8)),
{
    let ghost zeros = Seq::new(512, |i: int| 0u8);
    let mut i: usize = 0;
    while i < h.len()
        invariant
            h.len() == 512,
            zeros == Seq::new(512, |i: int| 0u8),
            forall|j: int| 0 <= j < i ==> h@[j] == 0,
        decreases h.len() - i,
    {
        if h[i] != 0 {
            assert(h@[i as int] != zeros[i as int]);
            return false;
        }
        i += 1;
    }
    assert(h@ =~= zeros);
    true
}

/// Whether a block is a header of GNU's tar, and whether it is one of the
/// standard's.
fn header_kind(h: &Vec<u8>) -> (r: (bool, bool))
    requires
        h.len() == 512,
    ensures
        r.0 == is_gnu(h@),
        r.1 == is_ustar(h@),
{
    let magic = part(h, 257, 265);
    let gnu = [117u8, 115u8, 116u8, 97u8, 114u8, 32u8, 32u8, 0u8];
    let ustar = [117u8, 115u8, 116u8, 97u8, 114u8, 0u8, 48u8, 48u8];
    proof {
        assert(gnu@ =~= seq![117u8, 115u8, 116u8, 97u8, 114u8, 32u8, 32u8, 0u8]);
        assert(ustar@ =~= seq![117u8, 115u8, 116u8, 97u8, 114u8, 0u8, 48u8, 48u8]);
        assert(magic@.subrange(0, 8) =~= magic@);
    }
    (bytes_at(magic.as_slice(), &gnu, 0), bytes_at(magic.as_slice(), &ustar, 0))
}

/// An optional list of bytes.
pub open spec fn bytes_of(v: Option<Vec<u8>>) -> Option<Seq<u8>> {
    match v {
        Some(v) => Some(v@),
        None => None,
    }
}

/// How the blocks that describe a sparse file end, and how far they were read.
fn read_described(
    decoder: &mut GzDecoder<&[u8]>,
    at: u64,
    next: u64,
    Ghost(b): Ghost<Seq<u8>>,
) -> (r: Option<Option<(u64, u64)>>)
    requires
        at <= b.len(),
        at <= next,
        unread(*old(decoder)) == b.skip(at as int),
    ensures
        match r {
            None => described(b, at as int, next as int) is Broken,
            Some(None) => described(b, at as int, next as int) is Past,
            Some(Some((read, end))) => {
                &&& described(b, at as int, next as int) == Described::Upto(end as int)
                &&& at < read <= b.len()
                &&& end - read == next - at
                &&& unread(*final(decoder)) == b.skip(read as int)
            },
        },
{
    let mut read: u64 = at;
    let mut end: u64 = next;
    loop
        invariant
            at <= read <= b.len(),
            end - read == next - at,
            at <= next,
            unread(*decoder) == b.skip(read as int),
            described(b, read as int, end as int) == described(b, at as int, next as int),
        decreases b.len() - read,
    {
        let block = match read_block(decoder) {
            Some(block) => block,
            None => {
                return None;
            },
        };
        if end > u64::MAX - 512 {
            return Some(None);
        }
        assert(block@[504] == b[read + 504]);
        assert(b.skip(read as int).skip(512) =~= b.skip(read + 512));
        read = read + 512;
        end = end + 512;
        if block[504] != 1 {
            return Some(Some((read, end)));
        }
    }
}

/// Goes past bytes, block by block, or says that there are fewer.
fn pass(decoder: &mut GzDecoder<&[u8]>, bytes: u64, Ghost(b): Ghost<Seq<u8>>) -> (r: bool)
    requires
        bytes % 512 == 0,
        unread(*old(decoder)) == b,
    ensures
        r == (bytes <= b.len()),
        r ==> unread(*final(decoder)) == b.skip(bytes as int),
{
    let mut past: u64 = 0;
    assert(b.skip(0) =~= b);
    while past < bytes
        invariant
            past <= bytes,
            past <= b.len(),
            past % 512 == 0,
            bytes % 512 == 0,
            unread(*decoder) == b.skip(past as int),
        decreases bytes - past,
    {
        assert(past + 512 <= bytes);
        if read_block(decoder).is_none() {
            return false;
        }
        assert(b.skip(past as int).skip(512) =~= b.skip(past + 512));
        past = past + 512;
    }
    true
}

/// What an entry holds, of which all that stands in its blocks is read.
fn read_data(
    decoder: &mut GzDecoder<&[u8]>,
    size: u64,
    whole: u64,
    Ghost(b): Ghost<Seq<u8>>,
) -> (r: Option<Vec<u8>>)
    requires
        size <= whole,
        whole % 512 == 0,
        unread(*old(decoder)) == b,
    ensures
        r is Some == (whole <= b.len()),
        r matches Some(data) ==> data@ == b.take(size as int) && unread(*final(decoder))
            == b.skip(whole as int),
{
    let mut data: Vec<u8> = Vec::new();
    let mut past: u64 = 0;
    assert(b.skip(0) =~= b);
    assert(data@ =~= b.take(0));
    while past < whole
        invariant
            past <= whole,
            past <= b.len(),
            size <= whole,
            past % 512 == 0,
            whole % 512 == 0,
            data@ == b.take(if past < size { past as int } else { size as int }),
            unread(*decoder) == b.skip(past as int),
        decreases whole - past,
    {
        assert(past + 512 <= whole);
        let block = match read_block(decoder) {
            Some(block) => block,
            None => {
                return None;
            },
        };
        let mut i: usize = 0;
        while i < 512 && past + (i as u64) < size
            invariant
                i <= 512,
                block@ == b.skip(past as int).take(512),
                past + 512 <= b.len(),
                past + 512 <= u64::MAX,
                size <= b.len() || size > past,
                data@ == b.take(if past + i < size { past + i } else { size as int }),
            decreases 512 - i,
        {
            data.push(block[i]);
            assert(data@ =~= b.take(past + i + 1));
            i += 1;
        }
        assert(b.skip(past as int).skip(512) =~= b.skip(past + 512));
        past = past + 512;
    }
    Some(data)
}

/// Whether the places in a gzipped archive are past counting.
pub fn past_counting(body: &[u8]) -> (r: bool)
    ensures
        r == is_past_counting(body@),
{
    let ghost b = gunzipped(body@);
    let mut decoder = start(body);
    let mut at: u64 = 0;
    let mut extension: Option<Vec<u8>> = None;
    let mut name = false;
    let mut link = false;
    assert(b.skip(0) =~= b);
    loop
        invariant
            at <= b.len(),
            unread(decoder) == b.skip(at as int),
            overflows(b, at as int, bytes_of(extension), name, link) == is_past_counting(body@),
            b == gunzipped(body@),
        decreases b.len() - at,
    {
        let ghost was = at as int;
        let h = match read_block(&mut decoder) {
            Some(h) => h,
            None => {
                return false;
            },
        };
        if at > u64::MAX - 512 {
            return true;
        }
        let start: u64 = at + 512;
        proof {
            assert(h@ =~= b.subrange(was, was + 512));
            assert(b.skip(was).skip(512) =~= b.skip(start as int));
        }
        if is_blank(&h) {
            return false;
        }
        let own: u64 = match read_size(&h) {
            Some(own) => own,
            None => {
                return false;
            },
        };
        let kind: u8 = h[156];
        let (gnu, ustar) = header_kind(&h);
        let about = kind == 76 || kind == 75 || kind == 120 || kind == 103;
        let size: u64 = match &extension {
            Some(data) => if about {
                own
            } else {
                match read_size_set(data) {
                    Some(size) => size,
                    None => own,
                }
            },
            None => own,
        };
        assert(size == size_of(h@, own, bytes_of(extension)));
        if size > u64::MAX - 511 {
            return false;
        }
        let whole: u64 = (size + 511) / 512 * 512;
        if start > u64::MAX - whole {
            return false;
        }
        let next: u64 = start + whole;
        if (gnu || ustar) && kind == 120 {
            if extension.is_some() {
                return false;
            }
            match read_data(&mut decoder, size, whole, Ghost(b.skip(start as int))) {
                Some(data) => {
                    assert(data@ =~= b.subrange(start as int, start + size));
                    extension = Some(data);
                },
                None => {
                    return false;
                },
            }
            assert(b.skip(start as int).skip(whole as int) =~= b.skip(next as int));
            at = next;
        } else {
            let mut read: u64 = start;
            let mut end: u64 = next;
            if (gnu || ustar) && kind == 76 {
                if name {
                    return false;
                }
                name = true;
            } else if (gnu || ustar) && kind == 75 {
                if link {
                    return false;
                }
                link = true;
            } else {
                if kind == 83 && !gnu {
                    return false;
                }
                if kind == 83 && h[482] == 1 {
                    match read_described(&mut decoder, start, next, Ghost(b)) {
                        None => {
                            return false;
                        },
                        Some(None) => {
                            return true;
                        },
                        Some(Some((upto, behind))) => {
                            read = upto;
                            end = behind;
                        },
                    }
                }
                extension = None;
                name = false;
                link = false;
            }
            if !pass(&mut decoder, end - read, Ghost(b.skip(read as int))) {
                return false;
            }
            assert(b.skip(read as int).skip(end - read) =~= b.skip(end as int));
            at = end;
        }
    }
}

/// Whether a whole block starts at a place.
pub open spec fn is_block(b: Seq<u8>, at: int) -> bool {
    0 <= at && at % 512 == 0 && at + 512 <= b.len()
}

/// Only sparse files put the places in an archive past counting: one in which no
/// block could be the header of such a file is read as it is, whatever sizes its
/// headers claim and whatever was said before of the entry to come.
pub proof fn archives_without_sparse_files_are_read(
    b: Seq<u8>,
    at: int,
    extension: Option<Seq<u8>>,
    name: bool,
    link: bool,
)
    requires
        b.len() <= u64::MAX,
        at % 512 == 0,
        forall|k: int| #[trigger] is_block(b, k) ==> b[k + 156] != 83,
    ensures
        !overflows(b, at, extension, name, link),
    decreases b.len() - at,
{
    if is_block(b, at) {
        let h = b.subrange(at, at + 512);
        assert(h[156] != 83);
        if let Some(own) = claimed(h) {
            let size = size_of(h, own, extension);
            let next = at + 512 + (size + 511) / 512 * 512;
            if next + 512 <= b.len() {
                let data = b.subrange(at + 512, at + 512 + size);
                archives_without_sparse_files_are_read(b, next, extension, true, link);
                archives_without_sparse_files_are_read(b, next, extension, name, true);
                archives_without_sparse_files_are_read(b, next, Some(data), name, link);
                archives_without_sparse_files_are_read(b, next, None, false, false);
            }
        }
    }
}

} // verus!
