use vstd::prelude::*;
use vstd::utf8::{
    decode_utf8, encode_utf8, encode_utf8_decode_utf8, encode_utf8_valid_utf8, is_char_boundary, valid_utf8,
};

verus! {

/// Whether a character is whitespace: one of the 25 that Unicode gives the
/// property White_Space. They are the controls from tab to carriage return,
/// the space, the next-line control, the no-break space, the Ogham space
/// mark, the spaces from en quad to hair space, the line and paragraph
/// separators, the narrow no-break space, the medium mathematical space and
/// the ideographic space.
pub open spec fn is_whitespace(c: char) -> bool {
    ||| 0x0009 <= c as u32 <= 0x000D
    ||| c as u32 == 0x0020
    ||| c as u32 == 0x0085
    ||| c as u32 == 0x00A0
    ||| c as u32 == 0x1680
    ||| 0x2000 <= c as u32 <= 0x200A
    ||| c as u32 == 0x2028
    ||| c as u32 == 0x2029
    ||| c as u32 == 0x202F
    ||| c as u32 == 0x205F
    ||| c as u32 == 0x3000
}

/// What `str::to_lowercase` makes of a text.
pub uninterp spec fn lowercase(text: Seq<char>) -> Seq<char>;

/// Calls `char::is_whitespace`, which tests whether a character has the
/// Unicode property White_Space. Believed of it: the characters with that
/// property are the 25 that `is_whitespace` lists.
#[verifier::external_body]
pub(crate) fn char_is_whitespace(c: char) -> (r: bool)
    ensures
        r == is_whitespace(c),
{
    c.is_whitespace()
}

/// Calls `str::to_lowercase`. Believed of it: the result depends on the text
/// alone.
#[verifier::external_body]
pub(crate) fn to_lowercase(text: &str) -> (lowered: String)
    ensures
        lowered@ == lowercase(text@),
{
    text.to_lowercase()
}

/// The characters of `text`, in order.
pub fn chars_of(text: &str) -> (chars: Vec<char>)
    ensures
        chars@ == text@,
{
    let mut chars: Vec<char> = Vec::new();
    for c in it: text.chars()
        invariant
            chars@ == it.seq().take(it.index() as int),
            it.seq() == text@,
    {
        chars.push(c);
    }
    chars
}

/// `s` without the whitespace it begins with.
pub open spec fn trim_start(s: Seq<char>) -> Seq<char>
    decreases s.len(),
{
    if s.len() > 0 && is_whitespace(s.first()) {
        trim_start(s.drop_first())
    } else {
        s
    }
}

/// `s` without the whitespace it ends with.
pub open spec fn trim_end(s: Seq<char>) -> Seq<char>
    decreases s.len(),
{
    if s.len() > 0 && is_whitespace(s.last()) {
        trim_end(s.drop_last())
    } else {
        s
    }
}

/// `s` without the whitespace at either end.
pub open spec fn trimmed(s: Seq<char>) -> Seq<char> {
    trim_end(trim_start(s))
}

/// Where the trimmed text lies in `s`, given for each character whether it
/// is blank: from the first character that is not, up to and with the last.
/// Where every character is blank, the bounds meet at the end.
pub open spec fn is_trim_bounds(blank: Seq<bool>, from: int, to: int) -> bool {
    &&& 0 <= from <= to <= blank.len()
    &&& forall|j: int| 0 <= j < from ==> blank[j]
    &&& forall|j: int| to <= j < blank.len() ==> blank[j]
    &&& from < to ==> !blank[from] && !blank[to - 1]
    &&& from == to ==> from == blank.len()
}

/// Finds where the trimmed text lies, given for each character whether it
/// is blank.
pub fn trim_bounds(blank: &Vec<bool>) -> (bounds: (usize, usize))
    ensures
        is_trim_bounds(blank@, bounds.0 as int, bounds.1 as int),
{
    let n = blank.len();
    let mut from: usize = 0;
    while from < n && blank[from]
        invariant
            from <= n == blank@.len(),
            forall|j: int| 0 <= j < from ==> blank@[j],
        decreases n - from,
    {
        from += 1;
    }
    let mut to: usize = n;
    while to > from && blank[to - 1]
        invariant
            from <= to <= n == blank@.len(),
            forall|j: int| 0 <= j < from ==> blank@[j],
            from < n ==> !blank@[from as int],
            forall|j: int| to <= j < n ==> blank@[j],
        decreases to,
    {
        to -= 1;
    }
    (from, to)
}

/// For each character whether it is whitespace.
pub open spec fn whitespace_marks(s: Seq<char>) -> Seq<bool> {
    s.map_values(|c: char| is_whitespace(c))
}

/// Trimming keeps what lies within the bounds.
pub proof fn lemma_trimmed_lies_within_bounds(s: Seq<char>, from: int, to: int)
    requires
        is_trim_bounds(whitespace_marks(s), from, to),
    ensures
        trimmed(s) == s.subrange(from, to),
{
    let blank = whitespace_marks(s);
    let tail = s.subrange(from, s.len() as int);
    assert forall|j: int| 0 <= j < from implies is_whitespace(s[j]) by {
        assert(blank[j]);
    }
    assert forall|j: int| to - from <= j < tail.len() implies is_whitespace(tail[j]) by {
        assert(blank[j + from]);
    }
    lemma_trim_start(s, from);
    lemma_trim_end(tail, to - from);
}

proof fn lemma_trim_start(s: Seq<char>, from: int)
    requires
        0 <= from <= s.len(),
        forall|j: int| 0 <= j < from ==> is_whitespace(s[j]),
        from < s.len() ==> !is_whitespace(s[from]),
    ensures
        trim_start(s) == s.subrange(from, s.len() as int),
    decreases s.len(),
{
    if from > 0 {
        lemma_trim_start(s.drop_first(), from - 1);
    }
}

proof fn lemma_trim_end(s: Seq<char>, to: int)
    requires
        0 <= to <= s.len(),
        forall|j: int| to <= j < s.len() ==> is_whitespace(s[j]),
        to > 0 ==> !is_whitespace(s[to - 1]),
    ensures
        trim_end(s) == s.subrange(0, to),
    decreases s.len(),
{
    if to < s.len() {
        lemma_trim_end(s.drop_last(), to);
    }
}

/// The part of `text` between the whitespace at its ends.
pub fn trim(text: &str) -> (inner: &str)
    ensures
        inner@ == trimmed(text@),
{
    let chars = chars_of(text);
    let mut blank: Vec<bool> = Vec::new();
    let mut i: usize = 0;
    while i < chars.len()
        invariant
            i <= chars@.len(),
            blank@ == whitespace_marks(chars@.take(i as int)),
        decreases chars@.len() - i,
    {
        blank.push(char_is_whitespace(chars[i]));
        i += 1;
    }
    assert(chars@.take(chars@.len() as int) == chars@);
    let (from, to) = trim_bounds(&blank);
    proof {
        lemma_trimmed_lies_within_bounds(text@, from as int, to as int);
    }
    text.substring_char(from, to)
}

/// The stretches of `s` that lie between occurrences of `sep`: one more than
/// `sep` occurs, each free of it, an empty one wherever two occurrences meet
/// or one stands at an end.
pub open spec fn split_on(s: Seq<char>, sep: char) -> Seq<Seq<char>>
    decreases s.len(),
{
    if s.len() == 0 {
        seq![Seq::empty()]
    } else {
        let before = split_on(s.drop_last(), sep);
        if s.last() == sep {
            before.push(Seq::empty())
        } else {
            before.drop_last().push(before.last().push(s.last()))
        }
    }
}

/// `parts` written one after the other with `sep` between neighbours.
pub open spec fn joined(parts: Seq<Seq<char>>, sep: Seq<char>) -> Seq<char>
    decreases parts.len(),
{
    if parts.len() == 0 {
        Seq::empty()
    } else if parts.len() == 1 {
        parts[0]
    } else {
        joined(parts.drop_last(), sep) + sep + parts.last()
    }
}

/// Each piece of `s` between occurrences of `sep`, without the whitespace at
/// its ends.
pub open spec fn split_trimmed(s: Seq<char>, sep: char) -> Seq<Seq<char>> {
    split_on(s, sep).map_values(|piece: Seq<char>| trimmed(piece))
}

/// Cuts `text` at every `sep` and trims each piece.
pub fn split_and_trim(text: &str, sep: char) -> (pieces: Vec<String>)
    ensures
        pieces.deep_view() == split_trimmed(text@, sep),
{
    let chars = chars_of(text);
    let n = chars.len();
    let mut pieces: Vec<String> = Vec::new();
    let mut start: usize = 0;
    let mut i: usize = 0;
    while i < n
        invariant
            start <= i <= n == chars@.len(),
            chars@ == text@,
            split_on(chars@.take(i as int), sep).len() >= 1,
            split_on(chars@.take(i as int), sep).last() == chars@.subrange(start as int, i as int),
            pieces.deep_view() == split_on(chars@.take(i as int), sep).drop_last().map_values(
                |piece: Seq<char>| trimmed(piece),
            ),
        decreases n - i,
    {
        let ghost before = split_on(chars@.take(i as int), sep);
        assert(chars@.take(i + 1).drop_last() == chars@.take(i as int));
        if chars[i] == sep {
            let piece = trim(text.substring_char(start, i));
            let ghost old_pieces = pieces.deep_view();
            pieces.push(piece.to_owned());
            assert(pieces.deep_view() == old_pieces.push(trimmed(before.last())));
            start = i + 1;
        }
        i += 1;
    }
    let ghost all = split_on(chars@, sep);
    assert(chars@.take(n as int) == chars@);
    let piece = trim(text.substring_char(start, n));
    let ghost old_pieces = pieces.deep_view();
    pieces.push(piece.to_owned());
    assert(pieces.deep_view() == old_pieces.push(trimmed(all.last())));
    pieces
}

/// A character's number, with the letters `A` to `Z` counted as `a` to `z`.
pub open spec fn ascii_folded(c: char) -> int {
    if 'A' <= c <= 'Z' {
        c as int + 32
    } else {
        c as int
    }
}

/// The two texts are the same but for the case of the letters `a` to `z`.
pub open spec fn same_ignoring_ascii_case(a: Seq<char>, b: Seq<char>) -> bool {
    a.len() == b.len() && forall|i: int| 0 <= i < a.len() ==> ascii_folded(a[i]) == ascii_folded(b[i])
}

fn fold_ascii(c: char) -> (n: u32)
    ensures
        n == ascii_folded(c),
{
    if 'A' <= c && c <= 'Z' {
        c as u32 + 32
    } else {
        c as u32
    }
}

/// Whether `a` and `b` differ at most in the case of ASCII letters.
pub fn eq_ignore_ascii_case(a: &str, b: &str) -> (same: bool)
    ensures
        same == same_ignoring_ascii_case(a@, b@),
{
    let left = chars_of(a);
    let right = chars_of(b);
    if left.len() != right.len() {
        return false;
    }
    let mut i: usize = 0;
    while i < left.len()
        invariant
            i <= left@.len() == right@.len(),
            left@ == a@,
            right@ == b@,
            forall|j: int| 0 <= j < i ==> ascii_folded(left@[j]) == ascii_folded(right@[j]),
        decreases left@.len() - i,
    {
        if fold_ascii(left[i]) != fold_ascii(right[i]) {
            return false;
        }
        i += 1;
    }
    true
}

/// Whether `a` and `b` hold the same characters.
pub fn same_text(a: &str, b: &str) -> (same: bool)
    ensures
        same == (a@ == b@),
{
    let left = chars_of(a);
    let right = chars_of(b);
    if left.len() != right.len() {
        return false;
    }
    let mut i: usize = 0;
    while i < left.len()
        invariant
            i <= left@.len() == right@.len(),
            left@ == a@,
            right@ == b@,
            forall|j: int| 0 <= j < i ==> left@[j] == right@[j],
        decreases left@.len() - i,
    {
        if left[i] != right[i] {
            return false;
        }
        i += 1;
    }
    assert(left@ =~= right@);
    true
}

/// The texts of `parts`, one after the other, with `sep` between neighbours.
pub fn join(parts: &Vec<String>, sep: &str) -> (text: String)
    ensures
        text@ == joined(parts.deep_view(), sep@),
{
    let mut text = String::new();
    let mut i: usize = 0;
    while i < parts.len()
        invariant
            i <= parts@.len(),
            text@ == joined(parts.deep_view().take(i as int), sep@),
        decreases parts@.len() - i,
    {
        assert(parts.deep_view().take(i + 1).drop_last() == parts.deep_view().take(i as int));
        if i > 0 {
            text.append(sep);
        }
        text.append(parts[i].as_str());
        i += 1;
    }
    assert(parts.deep_view().take(parts@.len() as int) == parts.deep_view());
    text
}

/// How many bytes of a description a table shows in full.
pub const DESCRIPTION_LIMIT: usize = 40;

/// How many bytes at most are kept of a description that is longer.
pub const DESCRIPTION_KEPT: usize = 37;

/// `at` is the last place at or before `limit` where a character of
/// `bytes` ends.
pub open spec fn is_last_boundary(bytes: Seq<u8>, limit: int, at: int) -> bool {
    &&& 0 <= at <= limit
    &&& is_char_boundary(bytes, at)
    &&& forall|j: int| at < j <= limit ==> !is_char_boundary(bytes, j)
}

/// The last place at or before `limit` where a character of `bytes` ends.
pub open spec fn cut_point(bytes: Seq<u8>, limit: int) -> int
    decreases limit,
{
    if limit <= 0 {
        0
    } else if is_char_boundary(bytes, limit) {
        limit
    } else {
        cut_point(bytes, limit - 1)
    }
}

/// The cut point is the last boundary at or before the limit, and the only
/// place that is.
pub proof fn lemma_cut_point(bytes: Seq<u8>, limit: int, at: int)
    requires
        valid_utf8(bytes),
        0 <= limit,
    ensures
        is_last_boundary(bytes, limit, cut_point(bytes, limit)),
        is_last_boundary(bytes, limit, at) ==> at == cut_point(bytes, limit),
    decreases limit,
{
    if limit > 0 && !is_char_boundary(bytes, limit) {
        lemma_cut_point(bytes, limit - 1, at);
    }
}

/// A description as a table shows it: whole if its UTF-8 form has at most
/// `DESCRIPTION_LIMIT` bytes. Else its first `DESCRIPTION_KEPT` bytes,
/// less those of a character that does not end within them, followed by
/// three dots.
pub open spec fn shortened(description: Seq<char>) -> Seq<char> {
    let bytes = encode_utf8(description);
    if bytes.len() > DESCRIPTION_LIMIT {
        decode_utf8(bytes.subrange(0, cut_point(bytes, DESCRIPTION_KEPT as int))) + "..."@
    } else {
        description
    }
}

/// The description as a table shows it. No character is cut in two.
pub fn shorten(description: &str) -> (text: String)
    ensures
        text@ == shortened(description@),
        encode_utf8(description@).len() <= DESCRIPTION_LIMIT ==> text@ == description@,
        encode_utf8(description@).len() > DESCRIPTION_LIMIT ==> exists|at: int|
            is_last_boundary(encode_utf8(description@), DESCRIPTION_KEPT as int, at) && text@
                == decode_utf8(encode_utf8(description@).subrange(0, at)) + "..."@,
{
    if description.as_bytes().len() > DESCRIPTION_LIMIT {
        let ghost bytes = encode_utf8(description@);
        let mut at: usize = DESCRIPTION_KEPT;
        proof {
            encode_utf8_valid_utf8(description@);
        }
        while at > 0 && !description.is_char_boundary(at)
            invariant
                at <= DESCRIPTION_KEPT,
                bytes == encode_utf8(description@),
                cut_point(bytes, DESCRIPTION_KEPT as int) == cut_point(bytes, at as int),
            decreases at,
        {
            at -= 1;
        }
        let (head, _) = description.split_at(at);
        let mut text = head.to_owned();
        text.append("...");
        proof {
            encode_utf8_decode_utf8(head@);
            lemma_cut_point(bytes, DESCRIPTION_KEPT as int, at as int);
        }
        text
    } else {
        description.to_owned()
    }
}

} // verus!
