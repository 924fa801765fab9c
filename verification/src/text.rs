//! Working with text: white space, and what stands at either end of a text.

use vstd::prelude::*;
use vstd::string::*;

verus! {

/// Whether `c` is white space, as Unicode defines it.
pub open spec fn white_space(c: char) -> bool {
    let code = c as u32;
    ||| 0x09 <= code <= 0x0D
    ||| code == 0x20
    ||| code == 0x85
    ||| code == 0xA0
    ||| code == 0x1680
    ||| 0x2000 <= code <= 0x200A
    ||| code == 0x2028
    ||| code == 0x2029
    ||| code == 0x202F
    ||| code == 0x205F
    ||| code == 0x3000
}

/// The text without the white space at its beginning.
pub open spec fn trim_start(text: Seq<char>) -> Seq<char>
    decreases text.len(),
{
    if text.len() > 0 && white_space(text.first()) {
        trim_start(text.drop_first())
    } else {
        text
    }
}

/// The text without the white space at its end.
pub open spec fn trim_end(text: Seq<char>) -> Seq<char>
    decreases text.len(),
{
    if text.len() > 0 && white_space(text.last()) {
        trim_end(text.drop_last())
    } else {
        text
    }
}

/// The text without the white space at its beginning and at its end.
pub open spec fn trim(text: Seq<char>) -> Seq<char> {
    trim_end(trim_start(text))
}

/// Whether `text` begins with `mark`.
pub open spec fn begins_with(text: Seq<char>, mark: Seq<char>) -> bool {
    mark.len() <= text.len() && text.subrange(0, mark.len() as int) == mark
}

/// Whether `text` ends with `mark`.
pub open spec fn ends_with(text: Seq<char>, mark: Seq<char>) -> bool {
    mark.len() <= text.len() && text.subrange(text.len() - mark.len(), text.len() as int) == mark
}

/// The text without `mark` at its beginning, however often `mark` stands
/// there.
pub open spec fn strip_leading(text: Seq<char>, mark: Seq<char>) -> Seq<char>
    decreases text.len(),
{
    if mark.len() > 0 && begins_with(text, mark) {
        strip_leading(text.subrange(mark.len() as int, text.len() as int), mark)
    } else {
        text
    }
}

/// The text without `mark` at its end, however often `mark` stands there.
pub open spec fn strip_trailing(text: Seq<char>, mark: Seq<char>) -> Seq<char>
    decreases text.len(),
{
    if mark.len() > 0 && ends_with(text, mark) {
        strip_trailing(text.subrange(0, text.len() - mark.len()), mark)
    } else {
        text
    }
}

/// Whether `c` is white space.
pub fn is_white_space(c: char) -> (r: bool)
    ensures
        r == white_space(c),
{
    let code: u32 = c as u32;
    (0x09 <= code && code <= 0x0D) || code == 0x20 || code == 0x85 || code == 0xA0 || code
        == 0x1680 || (0x2000 <= code && code <= 0x200A) || code == 0x2028 || code == 0x2029
        || code == 0x202F || code == 0x205F || code == 0x3000
}

/// The characters of a text, one by one.
pub fn chars_of(text: &str) -> (chars: Vec<char>)
    ensures
        chars@ == text@,
{
    let mut chars: Vec<char> = Vec::new();
    for c in it: text.chars()
        invariant
            it.seq() == text@,
            chars@ == it.seq().take(it.index()),
    {
        chars.push(c);
    }
    chars
}

/// Whether `mark` stands in `chars` from place `at` on.
pub fn stands_at(chars: &Vec<char>, at: usize, mark: &Vec<char>) -> (r: bool)
    ensures
        r == (at + mark.len() <= chars.len() && chars@.subrange(
            at as int,
            at + mark.len(),
        ) == mark@),
{
    if at > chars.len() || mark.len() > chars.len() - at {
        return false;
    }
    let mut i: usize = 0;
    while i < mark.len()
        invariant
            i <= mark.len(),
            at + mark.len() <= chars.len(),
            forall|j: int| 0 <= j < i ==> chars@[at + j] == mark@[j],
        decreases mark.len() - i,
    {
        if chars[at + i] != mark[i] {
            assert(chars@.subrange(at as int, at + mark.len())[i as int] != mark@[i as int]);
            return false;
        }
        i += 1;
    }
    assert(chars@.subrange(at as int, at + mark.len()) =~= mark@);
    true
}

/// The place where `trim_start` begins what it keeps of a window of `chars`.
pub fn skip_white_space(chars: &Vec<char>, from: usize, to: usize) -> (start: usize)
    requires
        from <= to <= chars.len(),
    ensures
        from <= start <= to,
        trim_start(chars@.subrange(from as int, to as int)) == chars@.subrange(
            start as int,
            to as int,
        ),
{
    let mut start: usize = from;
    while start < to && is_white_space(chars[start])
        invariant
            from <= start <= to <= chars.len(),
            trim_start(chars@.subrange(from as int, to as int)) == trim_start(
                chars@.subrange(start as int, to as int),
            ),
        decreases to - start,
    {
        assert(chars@.subrange(start as int, to as int).drop_first() =~= chars@.subrange(
            start + 1,
            to as int,
        ));
        start += 1;
    }
    start
}

/// The place where `trim_end` ends what it keeps of a window of `chars`.
pub fn drop_white_space(chars: &Vec<char>, from: usize, to: usize) -> (end: usize)
    requires
        from <= to <= chars.len(),
    ensures
        from <= end <= to,
        trim_end(chars@.subrange(from as int, to as int)) == chars@.subrange(
            from as int,
            end as int,
        ),
{
    let mut end: usize = to;
    while from < end && is_white_space(chars[end - 1])
        invariant
            from <= end <= to <= chars.len(),
            trim_end(chars@.subrange(from as int, to as int)) == trim_end(
                chars@.subrange(from as int, end as int),
            ),
        decreases end - from,
    {
        assert(chars@.subrange(from as int, end as int).drop_last() =~= chars@.subrange(
            from as int,
            end - 1,
        ));
        end -= 1;
    }
    end
}

/// The place where `strip_leading` begins what it keeps of a window of
/// `chars`.
pub fn skip_marks(chars: &Vec<char>, from: usize, to: usize, mark: &Vec<char>) -> (start: usize)
    requires
        from <= to <= chars.len(),
    ensures
        from <= start <= to,
        strip_leading(chars@.subrange(from as int, to as int), mark@) == chars@.subrange(
            start as int,
            to as int,
        ),
{
    let mut start: usize = from;
    if mark.len() == 0 {
        return start;
    }
    while mark.len() <= to - start && stands_at(chars, start, mark)
        invariant
            mark.len() > 0,
            from <= start <= to <= chars.len(),
            strip_leading(chars@.subrange(from as int, to as int), mark@) == strip_leading(
                chars@.subrange(start as int, to as int),
                mark@,
            ),
        decreases to - start,
    {
        proof {
            let window = chars@.subrange(start as int, to as int);
            assert(window.subrange(0, mark@.len() as int) =~= chars@.subrange(
                start as int,
                start + mark.len(),
            ));
            assert(window.subrange(mark@.len() as int, window.len() as int) =~= chars@.subrange(
                start + mark.len(),
                to as int,
            ));
        }
        start += mark.len();
    }
    proof {
        let window = chars@.subrange(start as int, to as int);
        if mark.len() <= to - start {
            assert(window.subrange(0, mark@.len() as int) =~= chars@.subrange(
                start as int,
                start + mark.len(),
            ));
        }
    }
    start
}

/// The place where `strip_trailing` ends what it keeps of a window of
/// `chars`.
pub fn drop_marks(chars: &Vec<char>, from: usize, to: usize, mark: &Vec<char>) -> (end: usize)
    requires
        from <= to <= chars.len(),
    ensures
        from <= end <= to,
        strip_trailing(chars@.subrange(from as int, to as int), mark@) == chars@.subrange(
            from as int,
            end as int,
        ),
{
    let mut end: usize = to;
    if mark.len() == 0 {
        return end;
    }
    while mark.len() <= end - from && stands_at(chars, end - mark.len(), mark)
        invariant
            mark.len() > 0,
            from <= end <= to <= chars.len(),
            strip_trailing(chars@.subrange(from as int, to as int), mark@) == strip_trailing(
                chars@.subrange(from as int, end as int),
                mark@,
            ),
        decreases end - from,
    {
        proof {
            let window = chars@.subrange(from as int, end as int);
            assert(window.subrange(window.len() - mark@.len(), window.len() as int)
                =~= chars@.subrange(end - mark.len(), end as int));
            assert(window.subrange(0, window.len() - mark@.len()) =~= chars@.subrange(
                from as int,
                end - mark.len(),
            ));
        }
        end -= mark.len();
    }
    proof {
        let window = chars@.subrange(from as int, end as int);
        if mark.len() <= end - from {
            assert(window.subrange(window.len() - mark@.len(), window.len() as int)
                =~= chars@.subrange(end - mark.len(), end as int));
        }
    }
    end
}

/// Whether two texts are the same.
pub fn same_text(a: &str, b: &str) -> (r: bool)
    ensures
        r == (a@ == b@),
{
    let left = chars_of(a);
    let right = chars_of(b);
    if left.len() != right.len() {
        return false;
    }
    let same = stands_at(&left, 0, &right);
    proof {
        assert(left@.subrange(0, left@.len() as int) =~= left@);
    }
    same
}

/// Trimming leaves no white space at either end.
pub proof fn lemma_trim_is_trimmed(text: Seq<char>)
    ensures
        trim(text).len() > 0 ==> !white_space(trim(text).first()) && !white_space(
            trim(text).last(),
        ),
        trim(text).len() <= text.len(),
    decreases text.len(),
{
    lemma_trim_start_properties(text);
    lemma_trim_end_properties(trim_start(text));
}

/// What `trim_start` keeps is the end of the text, and does not begin with
/// white space.
pub proof fn lemma_trim_start_properties(text: Seq<char>)
    ensures
        trim_start(text).len() <= text.len(),
        trim_start(text) == text.subrange(
            text.len() - trim_start(text).len(),
            text.len() as int,
        ),
        trim_start(text).len() > 0 ==> !white_space(trim_start(text).first()),
    decreases text.len(),
{
    if text.len() > 0 && white_space(text.first()) {
        let rest = text.drop_first();
        lemma_trim_start_properties(rest);
        assert(rest.subrange(rest.len() - trim_start(rest).len(), rest.len() as int)
            =~= text.subrange(text.len() - trim_start(text).len(), text.len() as int));
    } else {
        assert(text =~= text.subrange(0, text.len() as int));
    }
}

/// What `trim_end` keeps is the beginning of the text, and does not end
/// with white space.
pub proof fn lemma_trim_end_properties(text: Seq<char>)
    ensures
        trim_end(text).len() <= text.len(),
        trim_end(text) == text.subrange(0, trim_end(text).len() as int),
        trim_end(text).len() > 0 ==> !white_space(trim_end(text).last()),
        trim_end(text).len() > 0 ==> trim_end(text).first() == text.first(),
    decreases text.len(),
{
    if text.len() > 0 && white_space(text.last()) {
        let rest = text.drop_last();
        lemma_trim_end_properties(rest);
        assert(rest.subrange(0, trim_end(rest).len() as int) =~= text.subrange(
            0,
            trim_end(text).len() as int,
        ));
    } else {
        assert(text =~= text.subrange(0, text.len() as int));
    }
}

} // verus!
