//! Text: comparison, trimming, searching and replacing, and reading the
//! output of processes as text.

use vstd::prelude::*;
use vstd::std_specs::iter::IteratorSpec;
use vstd::string::{StrSliceExecFns, StringExecFns};
use vstd::utf8::*;

verus! {

/// Whether `a` and `b` hold the same characters.
pub fn same_text(a: &str, b: &str) -> (same: bool)
    ensures
        same == (a@ == b@),
{
    let x = a.as_bytes();
    let y = b.as_bytes();
    proof {
        encode_utf8_decode_utf8(a@);
        encode_utf8_decode_utf8(b@);
    }
    if x.len() != y.len() {
        return false;
    }
    let mut i: usize = 0;
    while i < x.len()
        invariant
            i <= x.len(),
            x.len() == y.len(),
            x@ == encode_utf8(a@),
            y@ == encode_utf8(b@),
            forall|j: int| 0 <= j < i ==> x@[j] == y@[j],
        decreases x.len() - i,
    {
        if x[i] != y[i] {
            return false;
        }
        i += 1;
    }
    assert(x@ =~= y@);
    true
}

/// The characters of `s`, in their order.
pub fn chars_of(s: &str) -> (chars: Vec<char>)
    ensures
        chars@ == s@,
{
    let mut chars: Vec<char> = Vec::new();
    for c in it: s.chars()
        invariant
            it.seq() == s@,
            chars@ == it.seq().take(it.index() as int),
    {
        chars.push(c);
        assert(chars@ =~= it.seq().take(it.index() + 1));
    }
    assert(chars@ =~= s@);
    chars
}

/// White space, as Unicode has it.
pub open spec fn is_space(c: char) -> bool {
    let n = c as u32;
    ||| 0x9 <= n <= 0xd
    ||| n == 0x20
    ||| n == 0x85
    ||| n == 0xa0
    ||| n == 0x1680
    ||| 0x2000 <= n <= 0x200a
    ||| n == 0x2028
    ||| n == 0x2029
    ||| n == 0x202f
    ||| n == 0x205f
    ||| n == 0x3000
}

/// Whether `c` is white space.
pub fn is_white_space(c: char) -> (space: bool)
    ensures
        space == is_space(c),
{
    let n: u32 = c as u32;
    (0x9 <= n && n <= 0xd) || n == 0x20 || n == 0x85 || n == 0xa0 || n == 0x1680 || (0x2000 <= n
        && n <= 0x200a) || n == 0x2028 || n == 0x2029 || n == 0x202f || n == 0x205f || n == 0x3000
}

/// `text` without the white space at its start.
pub open spec fn trimmed_start(text: Seq<char>) -> Seq<char>
    decreases text.len(),
{
    if text.len() > 0 && is_space(text[0]) {
        trimmed_start(text.drop_first())
    } else {
        text
    }
}

/// `text` without the white space at its end.
pub open spec fn trimmed_end(text: Seq<char>) -> Seq<char>
    decreases text.len(),
{
    if text.len() > 0 && is_space(text.last()) {
        trimmed_end(text.drop_last())
    } else {
        text
    }
}

/// `text` without the white space at its two ends.
pub open spec fn trimmed(text: Seq<char>) -> Seq<char> {
    trimmed_end(trimmed_start(text))
}

/// The text that follows its leading white space is the text without it.
proof fn lemma_trimmed_start(text: Seq<char>, k: int)
    requires
        0 <= k <= text.len(),
        forall|j: int| 0 <= j < k ==> is_space(#[trigger] text[j]),
        k == text.len() || !is_space(text[k]),
    ensures
        trimmed_start(text) == text.skip(k),
    decreases k,
{
    if k == 0 {
        assert(text.skip(0) =~= text);
    } else {
        assert(is_space(text[0]));
        let rest = text.drop_first();
        assert forall|j: int| 0 <= j < k - 1 implies is_space(#[trigger] rest[j]) by {
            assert(rest[j] == text[j + 1]);
        }
        lemma_trimmed_start(rest, k - 1);
        assert(rest.skip(k - 1) =~= text.skip(k));
    }
}

/// The text that goes before its trailing white space is the text without it.
proof fn lemma_trimmed_end(text: Seq<char>, k: int)
    requires
        0 <= k <= text.len(),
        forall|j: int| k <= j < text.len() ==> is_space(#[trigger] text[j]),
        k == 0 || !is_space(text[k - 1]),
    ensures
        trimmed_end(text) == text.take(k),
    decreases text.len() - k,
{
    if k == text.len() {
        assert(text.take(k) =~= text);
    } else {
        assert(is_space(text[text.len() - 1]));
        let rest = text.drop_last();
        assert forall|j: int| k <= j < rest.len() implies is_space(#[trigger] rest[j]) by {
            assert(rest[j] == text[j]);
        }
        lemma_trimmed_end(rest, k);
        assert(rest.take(k) =~= text.take(k));
    }
}

/// `text` without the white space at its two ends.
pub fn trim(text: &str) -> (rest: &str)
    ensures
        rest@ == trimmed(text@),
{
    let chars = chars_of(text);
    let mut start: usize = 0;
    while start < chars.len() && is_white_space(chars[start])
        invariant
            start <= chars.len(),
            forall|j: int| 0 <= j < start ==> is_space(#[trigger] chars@[j]),
        decreases chars.len() - start,
    {
        start += 1;
    }
    let mut end: usize = chars.len();
    while end > start && is_white_space(chars[end - 1])
        invariant
            start <= end <= chars.len(),
            forall|j: int| end <= j < chars.len() ==> is_space(#[trigger] chars@[j]),
        decreases end,
    {
        end -= 1;
    }
    proof {
        lemma_trimmed_start(text@, start as int);
        let body = text@.skip(start as int);
        assert forall|j: int| end - start <= j < body.len() implies is_space(#[trigger] body[j]) by {
            assert(body[j] == chars@[j + start]);
        }
        if end > start {
            assert(body[end - start - 1] == chars@[end - 1]);
        }
        lemma_trimmed_end(body, end - start);
        assert(body.take(end - start) =~= text@.subrange(start as int, end as int));
    }
    text.substring_char(start, end)
}

/// Whether `part` occurs in `text`.
pub open spec fn occurs_in(text: Seq<char>, part: Seq<char>) -> bool {
    exists|i: int| 0 <= i <= text.len() - part.len() && #[trigger] text.subrange(i, i + part.len()) == part
}

/// Whether `part` stands in `text` at the place `at`.
fn stands_at(text: &Vec<char>, part: &Vec<char>, at: usize) -> (stands: bool)
    requires
        at + part.len() <= text.len(),
    ensures
        stands == (text@.subrange(at as int, at + part.len()) == part@),
{
    let mut j: usize = 0;
    while j < part.len()
        invariant
            j <= part.len(),
            at + part.len() <= text.len(),
            forall|k: int| 0 <= k < j ==> text@[at + k] == part@[k],
        decreases part.len() - j,
    {
        if text[at + j] != part[j] {
            assert(text@.subrange(at as int, at + part.len())[j as int] != part@[j as int]);
            return false;
        }
        j += 1;
    }
    assert(text@.subrange(at as int, at + part.len()) =~= part@);
    true
}

/// Whether `part` occurs in `text`.
pub fn contains(text: &str, part: &str) -> (held: bool)
    ensures
        held == occurs_in(text@, part@),
{
    let whole = chars_of(text);
    let sought = chars_of(part);
    if sought.len() > whole.len() {
        return false;
    }
    let last: usize = whole.len() - sought.len();
    let mut i: usize = 0;
    while i < last
        invariant
            i <= last,
            last == whole.len() - sought.len(),
            sought.len() <= whole.len(),
            whole@ == text@,
            sought@ == part@,
            forall|k: int| 0 <= k < i ==> #[trigger] whole@.subrange(k, k + sought.len()) != sought@,
        decreases last - i,
    {
        if stands_at(&whole, &sought, i) {
            return true;
        }
        i += 1;
    }
    stands_at(&whole, &sought, last)
}

/// `text` with `to` before each of its characters and after the last.
pub open spec fn interleaved(text: Seq<char>, to: Seq<char>) -> Seq<char>
    decreases text.len(),
{
    if text.len() == 0 {
        to
    } else {
        to + text.take(1) + interleaved(text.skip(1), to)
    }
}

/// `text` with `to` in place of each occurrence of `from`, the occurrences
/// taken from the left, none of them reaching into another.
pub open spec fn substituted(text: Seq<char>, from: Seq<char>, to: Seq<char>) -> Seq<char>
    decreases text.len(),
{
    if from.len() == 0 || text.len() < from.len() {
        text
    } else if text.take(from.len() as int) == from {
        to + substituted(text.skip(from.len() as int), from, to)
    } else {
        text.take(1) + substituted(text.skip(1), from, to)
    }
}

/// `text` with `to` in place of each occurrence of `from`. The empty text
/// occurs before each character and after the last.
pub open spec fn replaced(text: Seq<char>, from: Seq<char>, to: Seq<char>) -> Seq<char> {
    if from.len() == 0 {
        interleaved(text, to)
    } else {
        substituted(text, from, to)
    }
}

/// `text` with `to` before each of its characters and after the last.
fn interleave(text: &str, to: &str) -> (changed: String)
    ensures
        changed@ == interleaved(text@, to@),
{
    let count = text.unicode_len();
    let mut changed = String::new();
    let mut i: usize = 0;
    assert(text@.skip(0) =~= text@);
    while i < count
        invariant
            i <= count,
            count == text@.len(),
            changed@ + interleaved(text@.skip(i as int), to@) == interleaved(text@, to@),
        decreases count - i,
    {
        let ghost rest = text@.skip(i as int);
        let ghost earlier = changed@;
        changed.append(to);
        changed.append(text.substring_char(i, i + 1));
        proof {
            assert(rest.take(1) =~= text@.subrange(i as int, i + 1));
            assert(rest.skip(1) =~= text@.skip(i + 1));
            assert(changed@ + interleaved(text@.skip(i + 1), to@) =~= earlier + interleaved(rest, to@));
        }
        i += 1;
    }
    changed.append(to);
    changed
}

/// `text` with `to` in place of each occurrence of `from`.
pub fn replace(text: &str, from: &str, to: &str) -> (changed: String)
    ensures
        changed@ == replaced(text@, from@, to@),
{
    let sought = chars_of(from);
    if sought.len() == 0 {
        return interleave(text, to);
    }
    let whole = chars_of(text);
    let mut changed = String::new();
    let mut kept: usize = 0;
    let mut i: usize = 0;
    assert(whole@.skip(0) =~= whole@);
    assert(whole@.subrange(0, 0) =~= Seq::<char>::empty());
    while sought.len() <= whole.len() - i
        invariant
            kept <= i <= whole.len(),
            whole@ == text@,
            sought@ == from@,
            sought.len() > 0,
            changed@ + whole@.subrange(kept as int, i as int) + substituted(
                whole@.skip(i as int),
                from@,
                to@,
            ) == substituted(whole@, from@, to@),
        decreases whole.len() - i,
    {
        let ghost earlier = changed@;
        let ghost rest = whole@.skip(i as int);
        assert(rest.take(sought.len() as int) =~= whole@.subrange(i as int, i + sought.len()));
        if stands_at(&whole, &sought, i) {
            changed.append(text.substring_char(kept, i));
            changed.append(to);
            proof {
                assert(rest.skip(sought.len() as int) =~= whole@.skip(i + sought.len()));
                assert(whole@.subrange(i + sought.len(), i + sought.len()) =~= Seq::<char>::empty());
                assert(changed@ + whole@.subrange(i + sought.len(), i + sought.len()) + substituted(
                    whole@.skip(i + sought.len()),
                    from@,
                    to@,
                ) =~= earlier + whole@.subrange(kept as int, i as int) + substituted(rest, from@, to@));
            }
            i += sought.len();
            kept = i;
        } else {
            proof {
                assert(rest.take(1) =~= whole@.subrange(i as int, i + 1));
                assert(rest.skip(1) =~= whole@.skip(i + 1));
                assert(whole@.subrange(kept as int, i as int) + rest.take(1) =~= whole@.subrange(
                    kept as int,
                    i + 1,
                ));
                assert(changed@ + whole@.subrange(kept as int, i + 1) + substituted(
                    whole@.skip(i + 1),
                    from@,
                    to@,
                ) =~= earlier + whole@.subrange(kept as int, i as int) + substituted(rest, from@, to@));
            }
            i += 1;
        }
    }
    proof {
        let rest = whole@.skip(i as int);
        assert(substituted(rest, from@, to@) == rest);
        assert(whole@.subrange(kept as int, i as int) + rest =~= whole@.subrange(
            kept as int,
            whole@.len() as int,
        ));
        assert(changed@ + whole@.subrange(kept as int, whole@.len() as int) =~= changed@
            + whole@.subrange(kept as int, i as int) + rest);
    }
    changed.append(text.substring_char(kept, whole.len()));
    changed
}

/// What `String::from_utf8_lossy` reads from `bytes`: their text, with the
/// replacement character where they are not UTF-8.
pub uninterp spec fn lossy_text(bytes: Seq<u8>) -> Seq<char>;

/// `String::from_utf8_lossy`, as an owned text. The result is named, not
/// described: it is `lossy_text` of the argument.
#[verifier::external_body]
pub(crate) fn lossy(bytes: &[u8]) -> (text: String)
    ensures
        text@ == lossy_text(bytes@),
{
    String::from_utf8_lossy(bytes).into_owned()
}

/// `std::str::from_utf8`, its error dropped: the text that `bytes` encode,
/// exactly where they are valid UTF-8.
#[verifier::external_body]
pub(crate) fn utf8(bytes: &[u8]) -> (text: Option<&str>)
    ensures
        text is Some <==> valid_utf8(bytes@),
        text matches Some(read) ==> read@ == decode_utf8(bytes@),
{
    std::str::from_utf8(bytes).ok()
}

} // verus!
