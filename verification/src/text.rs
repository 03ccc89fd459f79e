//! Text: decimal numbers, lines, words, and the few `std` functions that the
//! rest of the library takes on trust.
use vstd::prelude::*;

verus! {

broadcast use vstd::string::group_string_axioms;

/// The texts of a sequence of strings.
pub open spec fn texts(strings: Seq<String>) -> Seq<Seq<char>> {
    Seq::new(strings.len(), |i: int| strings[i]@)
}

// ---------------------------------------------------------------------------
// Functions of `std` taken on trust.

/// `String::push`: appends one character to the text.
pub assume_specification[ String::push ](text: &mut String, ch: char)
    ensures
        final(text)@ == old(text)@.push(ch),
;

/// What `String::from_utf8_lossy` makes of `bytes`.
pub uninterp spec fn utf8_lossy_text(bytes: Seq<u8>) -> Seq<char>;

/// `String::from_utf8_lossy`: the text is a function of the bytes alone, and
/// well-formed UTF-8 is decoded unchanged. Where the replacement characters
/// fall in ill-formed input is not spelled out.
#[verifier::external_body]
pub(crate) fn utf8_lossy(bytes: &[u8]) -> (text: String)
    ensures
        text@ == utf8_lossy_text(bytes@),
        vstd::utf8::valid_utf8(bytes@) ==> text@ == vstd::utf8::decode_utf8(bytes@),
{
    String::from_utf8_lossy(bytes).into_owned()
}

/// What `str::to_lowercase` makes of `text`.
pub uninterp spec fn lowercase_text(text: Seq<char>) -> Seq<char>;

/// The lowercase form of an ASCII character.
pub open spec fn ascii_lowercase(c: char) -> char {
    if 'A' <= c && c <= 'Z' {
        (c as u32 + 32) as char
    } else {
        c
    }
}

/// `str::to_lowercase`: the result is a function of the text alone, and ASCII
/// text is mapped character by character. Other characters follow the Unicode
/// tables of `std`, which are not spelled out.
#[verifier::external_body]
pub(crate) fn lowercase(text: &str) -> (lowered: String)
    ensures
        lowered@ == lowercase_text(text@),
        vstd::utf8::is_ascii_chars(text@) ==> lowered@ == text@.map_values(|c: char| ascii_lowercase(c)),
{
    text.to_lowercase()
}

// ---------------------------------------------------------------------------
// Decimal numbers.

/// The character of a decimal digit.
pub open spec fn digit(d: int) -> char {
    (48 + d) as char
}

/// A natural number in decimal, without leading zeros.
pub open spec fn decimal(n: nat) -> Seq<char>
    decreases n,
{
    if n < 10 {
        seq![digit(n as int)]
    } else {
        decimal(n / 10).push(digit((n % 10) as int))
    }
}

/// An integer in decimal, with a minus sign where it is negative.
pub open spec fn signed_decimal(n: int) -> Seq<char> {
    if n < 0 {
        seq!['-'] + decimal((-n) as nat)
    } else {
        decimal(n as nat)
    }
}

fn push_decimal(out: &mut String, n: u64)
    ensures
        final(out)@ == old(out)@ + decimal(n as nat),
    decreases n,
{
    let last: u8 = 48 + (n % 10) as u8;
    if n < 10 {
        out.push(last as char);
        assert(out@ =~= old(out)@ + decimal(n as nat));
    } else {
        push_decimal(out, n / 10);
        out.push(last as char);
        assert(out@ =~= old(out)@ + decimal(n as nat));
    }
}

/// The decimal text of an unsigned number.
pub fn unsigned_text(n: u64) -> (text: String)
    ensures
        text@ == decimal(n as nat),
{
    let mut text = String::new();
    push_decimal(&mut text, n);
    assert(text@ =~= decimal(n as nat));
    text
}

/// The decimal text of a signed number.
pub fn signed_text(n: i64) -> (text: String)
    ensures
        text@ == signed_decimal(n as int),
{
    let mut text = String::new();
    if n < 0 {
        let magnitude: u64 = (-(n + 1)) as u64 + 1;
        text.push('-');
        push_decimal(&mut text, magnitude);
        assert(text@ =~= signed_decimal(n as int));
    } else {
        push_decimal(&mut text, n as u64);
        assert(text@ =~= signed_decimal(n as int));
    }
    text
}

// ---------------------------------------------------------------------------
// Comparison and trimming.

/// Whether two texts are equal.
pub fn same_text(a: &str, b: &str) -> (same: bool)
    ensures
        same == (a@ == b@),
{
    let x = a.as_bytes();
    let y = b.as_bytes();
    proof {
        vstd::utf8::encode_utf8_decode_utf8(a@);
        vstd::utf8::encode_utf8_decode_utf8(b@);
    }
    if x.len() != y.len() {
        return false;
    }
    let mut i: usize = 0;
    while i < x.len()
        invariant
            i <= x@.len(),
            x@.len() == y@.len(),
            x@ == vstd::utf8::encode_utf8(a@),
            y@ == vstd::utf8::encode_utf8(b@),
            forall|j: int| 0 <= j < i ==> x@[j] == y@[j],
        decreases x@.len() - i,
    {
        if x[i] != y[i] {
            return false;
        }
        i += 1;
    }
    assert(x@ =~= y@);
    true
}

/// `text` without the slashes that it begins with.
pub open spec fn without_leading_slashes(text: Seq<char>) -> Seq<char>
    decreases text.len(),
{
    if text.len() > 0 && text[0] == '/' {
        without_leading_slashes(text.drop_first())
    } else {
        text
    }
}

/// Removes every slash at the beginning of `text`.
pub fn trim_leading_slashes(text: &str) -> (trimmed: String)
    ensures
        trimmed@ == without_leading_slashes(text@),
{
    let mut trimmed = String::new();
    let mut leading: bool = true;
    assert(text@.skip(0) =~= text@);
    for c in it: text.chars()
        invariant
            it.seq() == text@,
            leading ==> trimmed@ == Seq::<char>::empty() && without_leading_slashes(text@)
                == without_leading_slashes(text@.skip(it.index() as int)),
            !leading ==> without_leading_slashes(text@) == trimmed@ + text@.skip(it.index() as int),
    {
        let ghost rest = text@.skip(it.index() as int);
        assert(rest[0] == c);
        assert(rest.drop_first() =~= text@.skip(it.index() as int + 1));
        let ghost before = trimmed@;
        if !leading || c != '/' {
            leading = false;
            trimmed.push(c);
            assert(before + rest =~= trimmed@ + rest.drop_first());
            assert(rest =~= seq![c] + rest.drop_first());
        }
    }
    assert(text@.skip(text@.len() as int) =~= Seq::<char>::empty());
    assert(trimmed@ + Seq::<char>::empty() =~= trimmed@);
    trimmed
}

// ---------------------------------------------------------------------------
// Lines.

/// The stretches of `text` between its line feeds, the empty ones included.
pub open spec fn segments(text: Seq<char>) -> Seq<Seq<char>>
    decreases text.len(),
{
    if text.len() == 0 {
        seq![Seq::<char>::empty()]
    } else {
        let before = segments(text.drop_last());
        if text.last() == '\n' {
            before.push(Seq::<char>::empty())
        } else {
            before.drop_last().push(before.last().push(text.last()))
        }
    }
}

/// A terminated line without the carriage return that precedes its line feed.
pub open spec fn without_carriage_return(line: Seq<char>) -> Seq<char> {
    if line.len() > 0 && line.last() == '\r' {
        line.drop_last()
    } else {
        line
    }
}

/// The lines of which the line feed has been seen.
pub open spec fn terminated_lines(text: Seq<char>) -> Seq<Seq<char>> {
    segments(text).drop_last().map_values(|line: Seq<char>| without_carriage_return(line))
}

/// The lines of `text`: each ends in a line feed, or a carriage return and a
/// line feed, which do not belong to it. What follows the last line feed is a
/// line too, unless it is empty.
pub open spec fn text_lines(text: Seq<char>) -> Seq<Seq<char>> {
    let rest = segments(text).last();
    if rest.len() == 0 {
        terminated_lines(text)
    } else {
        terminated_lines(text).push(rest)
    }
}

/// There is always a last segment.
pub proof fn lemma_segments_not_empty(text: Seq<char>)
    ensures
        segments(text).len() > 0,
    decreases text.len(),
{
    if text.len() > 0 {
        lemma_segments_not_empty(text.drop_last());
    }
}

/// The lines of `text`, in order.
pub fn lines(text: &str) -> (found: Vec<String>)
    ensures
        texts(found@) == text_lines(text@),
{
    let mut found: Vec<String> = Vec::new();
    let mut current = String::new();
    // Whether a carriage return has been read that is not in `current` yet.
    let mut pending: bool = false;
    assert(texts(found@) =~= terminated_lines(text@.take(0)));
    for c in it: text.chars()
        invariant
            it.seq() == text@,
            texts(found@) == terminated_lines(text@.take(it.index() as int)),
            segments(text@.take(it.index() as int)).last() == if pending {
                current@.push('\r')
            } else {
                current@
            },
            !pending && current@.len() > 0 ==> current@.last() != '\r',
    {
        let ghost read = text@.take(it.index() as int);
        let ghost next = text@.take(it.index() as int + 1);
        let ghost old_found = found@;
        let ghost old_current = current@;
        proof {
            assert(next.drop_last() =~= read);
            assert(next.last() == c);
            lemma_segments_not_empty(read);
        }
        if c == '\n' {
            found.push(current);
            current = String::new();
            pending = false;
            proof {
                assert(segments(next).drop_last() =~= segments(read));
                assert(without_carriage_return(segments(read).last()) =~= old_current);
                assert(texts(found@) =~= texts(old_found).push(old_current));
                assert(terminated_lines(next) =~= terminated_lines(read).push(old_current));
            }
        } else {
            if pending {
                current.push('\r');
            }
            if c == '\r' {
                pending = true;
            } else {
                pending = false;
                current.push(c);
            }
            proof {
                assert(segments(next).drop_last() =~= segments(read).drop_last());
                assert(segments(next).last() == segments(read).last().push(c));
            }
        }
    }
    assert(text@.take(text@.len() as int) =~= text@);
    if pending {
        current.push('\r');
    }
    if current.as_str().is_empty() {
        found
    } else {
        let ghost old_found = found@;
        found.push(current);
        assert(texts(found@) =~= texts(old_found).push(current@));
        found
    }
}

/// The texts in `parts`, with a line feed between each two.
pub open spec fn joined(parts: Seq<Seq<char>>) -> Seq<char>
    decreases parts.len(),
{
    if parts.len() == 0 {
        Seq::empty()
    } else if parts.len() == 1 {
        parts[0]
    } else {
        joined(parts.drop_last()).push('\n') + parts.last()
    }
}

/// Joins `parts` with a line feed between each two.
pub fn join_lines(parts: &Vec<String>) -> (whole: String)
    ensures
        whole@ == joined(texts(parts@)),
{
    let mut whole = String::new();
    let ghost all = texts(parts@);
    assert(all.take(0) =~= Seq::<Seq<char>>::empty());
    for i in 0..parts.len()
        invariant
            all == texts(parts@),
            whole@ == joined(all.take(i as int)),
    {
        proof {
            assert(all.take(i + 1).drop_last() =~= all.take(i as int));
            assert(all.take(i + 1).last() == parts@[i as int]@);
        }
        if i > 0 {
            whole.push('\n');
        }
        whole.append(parts[i].as_str());
        assert(i == 0 ==> whole@ =~= parts@[0]@);
    }
    assert(all.take(all.len() as int) =~= all);
    whole
}

// ---------------------------------------------------------------------------
// Words.

/// The characters with the Unicode property `White_Space`.
pub open spec fn white_space(c: char) -> bool {
    ||| '\u{9}' <= c && c <= '\u{d}'
    ||| c == ' '
    ||| c == '\u{85}'
    ||| c == '\u{a0}'
    ||| c == '\u{1680}'
    ||| '\u{2000}' <= c && c <= '\u{200a}'
    ||| c == '\u{2028}'
    ||| c == '\u{2029}'
    ||| c == '\u{202f}'
    ||| c == '\u{205f}'
    ||| c == '\u{3000}'
}

/// Whether `c` is white space.
pub fn is_white_space(c: char) -> (white: bool)
    ensures
        white == white_space(c),
{
    ('\u{9}' <= c && c <= '\u{d}') || c == ' ' || c == '\u{85}' || c == '\u{a0}' || c == '\u{1680}' || (
    '\u{2000}' <= c && c <= '\u{200a}') || c == '\u{2028}' || c == '\u{2029}' || c == '\u{202f}' || c
        == '\u{205f}' || c == '\u{3000}'
}

/// The longest stretches of `text` that hold no white space.
pub open spec fn text_words(text: Seq<char>) -> Seq<Seq<char>>
    decreases text.len(),
{
    if text.len() == 0 {
        Seq::empty()
    } else {
        let before = text_words(text.drop_last());
        if white_space(text.last()) {
            before
        } else if text.len() == 1 || white_space(text[text.len() - 2]) {
            before.push(seq![text.last()])
        } else {
            before.drop_last().push(before.last().push(text.last()))
        }
    }
}

/// The words of `text`, in order.
pub fn words(text: &str) -> (found: Vec<String>)
    ensures
        texts(found@) == text_words(text@),
{
    let mut found: Vec<String> = Vec::new();
    let mut current = String::new();
    assert(texts(found@) =~= text_words(text@.take(0)));
    for c in it: text.chars()
        invariant
            it.seq() == text@,
            (current@.len() > 0) == (it.index() > 0 && !white_space(text@[it.index() - 1])),
            text_words(text@.take(it.index() as int)) == if current@.len() > 0 {
                texts(found@).push(current@)
            } else {
                texts(found@)
            },
    {
        let ghost read = text@.take(it.index() as int);
        let ghost next = text@.take(it.index() as int + 1);
        let ghost old_found = found@;
        let ghost old_current = current@;
        proof {
            assert(next.drop_last() =~= read);
            assert(next.last() == c);
        }
        if is_white_space(c) {
            if !current.as_str().is_empty() {
                found.push(current);
                current = String::new();
                assert(texts(found@) =~= texts(old_found).push(old_current));
            }
        } else {
            current.push(c);
            proof {
                if old_current.len() == 0 {
                    assert(current@ =~= seq![c]);
                    assert(next.len() == 1 || next[next.len() - 2] == text@[it.index() - 1]);
                } else {
                    assert(next[next.len() - 2] == text@[it.index() - 1]);
                    assert(text_words(read).drop_last() =~= texts(old_found));
                }
            }
        }
    }
    assert(text@.take(text@.len() as int) =~= text@);
    if !current.as_str().is_empty() {
        let ghost old_found = found@;
        found.push(current);
        assert(texts(found@) =~= texts(old_found).push(current@));
    }
    found
}

// ---------------------------------------------------------------------------
// Laws.

/// The number that a text of decimal digits stands for.
pub open spec fn decimal_value(text: Seq<char>) -> int
    decreases text.len(),
{
    if text.len() == 0 {
        0
    } else {
        10 * decimal_value(text.drop_last()) + (text.last() as int - 48)
    }
}

/// The decimal text of a number reads as that number.
pub proof fn law_decimal_reads_back(n: nat)
    ensures
        decimal_value(decimal(n)) == n,
    decreases n,
{
    if n < 10 {
        let text = decimal(n);
        assert(text.drop_last() =~= Seq::<char>::empty());
        assert(decimal_value(text.drop_last()) == 0);
        assert(text.last() as int == 48 + n);
    } else {
        law_decimal_reads_back(n / 10);
        assert(decimal(n).drop_last() =~= decimal(n / 10));
        assert(decimal(n).last() as int == 48 + n % 10);
    }
}

/// A name has no leading slash once its slashes are removed, and nothing else
/// is removed from it.
pub proof fn law_only_leading_slashes_removed(text: Seq<char>)
    ensures
        ({
            let kept = without_leading_slashes(text);
            let removed = text.len() - kept.len();
            &&& kept.len() > 0 ==> kept[0] != '/'
            &&& removed >= 0
            &&& kept == text.skip(removed)
            &&& forall|i: int| 0 <= i < removed ==> text[i] == '/'
        }),
    decreases text.len(),
{
    if text.len() > 0 && text[0] == '/' {
        let rest = text.drop_first();
        law_only_leading_slashes_removed(rest);
        let removed = text.len() - without_leading_slashes(text).len();
        assert(rest.skip(removed - 1) =~= text.skip(removed));
        assert forall|i: int| 0 <= i < removed implies text[i] == '/' by {
            if i > 0 {
                assert(rest[i - 1] == text[i]);
            }
        }
    } else {
        assert(text.skip(0) =~= text);
    }
}

/// The encoding of two texts in a row is that of the one and then the other.
pub proof fn lemma_encode_concat(a: Seq<char>, b: Seq<char>)
    ensures
        vstd::utf8::encode_utf8(a + b) == vstd::utf8::encode_utf8(a) + vstd::utf8::encode_utf8(b),
    decreases a.len(),
{
    if a.len() == 0 {
        assert(a + b =~= b);
        assert(vstd::utf8::encode_utf8(a) + vstd::utf8::encode_utf8(b) =~= vstd::utf8::encode_utf8(b));
    } else {
        lemma_encode_concat(a.drop_first(), b);
        assert((a + b).drop_first() =~= a.drop_first() + b);
        assert(vstd::utf8::encode_utf8(a + b) =~= vstd::utf8::encode_utf8(a)
            + vstd::utf8::encode_utf8(b));
    }
}

/// The number of line feeds in a text.
pub open spec fn line_feeds(text: Seq<char>) -> nat {
    text.filter(|c: char| c == '\n').len()
}

/// A text has one line for each line feed, and one more where something
/// follows the last of them.
pub proof fn law_line_count(text: Seq<char>)
    ensures
        text_lines(text).len() == line_feeds(text) + if text.len() > 0 && text.last() != '\n' {
            1int
        } else {
            0
        },
{
    lemma_segments_not_empty(text);
    lemma_segment_count(text);
}

proof fn lemma_segment_count(text: Seq<char>)
    ensures
        segments(text).len() == line_feeds(text) + 1,
        (segments(text).last().len() == 0) == (text.len() == 0 || text.last() == '\n'),
    decreases text.len(),
{
    reveal(Seq::filter);
    if text.len() > 0 {
        lemma_segment_count(text.drop_last());
    }
}

/// Whether a text is a single line.
pub open spec fn single_line(text: Seq<char>) -> bool {
    !text.contains('\n')
}

proof fn lemma_segments_append(text: Seq<char>, tail: Seq<char>)
    requires
        single_line(tail),
    ensures
        segments(text + tail) == segments(text).drop_last().push(segments(text).last() + tail),
    decreases tail.len(),
{
    lemma_segments_not_empty(text);
    if tail.len() == 0 {
        assert(text + tail =~= text);
        assert(segments(text).last() + tail =~= segments(text).last());
        assert(segments(text).drop_last().push(segments(text).last()) =~= segments(text));
    } else {
        let shorter = tail.drop_last();
        assert forall|i: int| 0 <= i < shorter.len() implies shorter[i] != '\n' by {
            assert(tail[i] == shorter[i]);
            assert(tail.contains(tail[i]));
        }
        lemma_segments_append(text, shorter);
        assert((text + tail).drop_last() =~= text + shorter);
        assert(tail[tail.len() - 1] == tail.last());
        assert(tail.contains(tail.last()));
        assert((segments(text).last() + shorter).push(tail.last()) =~= segments(text).last()
            + tail);
        assert(segments(text + shorter).drop_last() =~= segments(text).drop_last());
    }
}

/// Joining single lines and splitting the whole at its line feeds gives the
/// lines back.
pub proof fn law_joined_lines_split_back(parts: Seq<Seq<char>>)
    requires
        parts.len() > 0,
        forall|i: int| 0 <= i < parts.len() ==> single_line(#[trigger] parts[i]),
    ensures
        segments(joined(parts)) == parts,
    decreases parts.len(),
{
    let none = Seq::<char>::empty();
    if parts.len() == 1 {
        lemma_segments_append(none, parts[0]);
        assert(none + parts[0] =~= parts[0]);
        assert(segments(none).drop_last() =~= Seq::<Seq<char>>::empty());
        assert(segments(none).last() + parts[0] =~= parts[0]);
        assert(segments(joined(parts)) =~= parts);
    } else {
        let before = parts.drop_last();
        assert forall|i: int| 0 <= i < before.len() implies single_line(#[trigger] before[i]) by {
            assert(before[i] == parts[i]);
        }
        law_joined_lines_split_back(before);
        let ended = joined(before).push('\n');
        assert(ended.drop_last() =~= joined(before));
        assert(segments(ended) =~= before.push(none));
        assert(single_line(parts[parts.len() - 1]));
        lemma_segments_append(ended, parts.last());
        assert(none + parts.last() =~= parts.last());
        assert(segments(joined(parts)) =~= parts);
    }
}

/// White space separates words: what stands before it and what stands after it
/// have their words to themselves.
pub proof fn law_words_around_white_space(before: Seq<char>, space: char, after: Seq<char>)
    requires
        white_space(space),
    ensures
        text_words(before.push(space) + after) == text_words(before) + text_words(after),
    decreases after.len(),
{
    let whole = before.push(space) + after;
    if after.len() == 0 {
        assert(whole =~= before.push(space));
        assert(whole.drop_last() =~= before);
        assert(text_words(before) + text_words(after) =~= text_words(before));
    } else {
        let shorter = after.drop_last();
        law_words_around_white_space(before, space, shorter);
        assert(whole.drop_last() =~= before.push(space) + shorter);
        assert(whole.last() == after.last());
        if white_space(after.last()) {
        } else if after.len() == 1 {
            assert(whole[whole.len() - 2] == space);
            assert(text_words(shorter) =~= Seq::<Seq<char>>::empty());
            assert(text_words(whole) =~= text_words(before) + text_words(after));
        } else {
            assert(whole[whole.len() - 2] == after[after.len() - 2]);
            if white_space(after[after.len() - 2]) {
                assert(text_words(whole) =~= text_words(before) + text_words(after));
            } else {
                lemma_open_word(shorter);
                assert((text_words(before) + text_words(shorter)).last() == text_words(
                    shorter,
                ).last());
                assert(text_words(whole) =~= text_words(before) + text_words(after));
            }
        }
    }
}

proof fn lemma_open_word(text: Seq<char>)
    requires
        text.len() > 0,
        !white_space(text.last()),
    ensures
        text_words(text).len() > 0,
{
}

/// A text without white space is a single word.
pub proof fn law_single_word(text: Seq<char>)
    requires
        text.len() > 0,
        forall|i: int| 0 <= i < text.len() ==> !white_space(#[trigger] text[i]),
    ensures
        text_words(text) == seq![text],
    decreases text.len(),
{
    let shorter = text.drop_last();
    if text.len() == 1 {
        assert(text_words(shorter) =~= Seq::<Seq<char>>::empty());
        assert(seq![text.last()] =~= text);
        assert(text_words(text) =~= seq![text]);
    } else {
        assert forall|i: int| 0 <= i < shorter.len() implies !white_space(#[trigger] shorter[i]) by {
            assert(shorter[i] == text[i]);
        }
        law_single_word(shorter);
        assert(!white_space(text[text.len() - 2]));
        assert(!white_space(text[text.len() - 1]));
        assert(shorter.push(text.last()) =~= text);
        assert(text_words(text) =~= seq![text]);
    }
}

/// The decimal text of a number holds digits alone, and begins with a zero only
/// where the number is zero.
pub proof fn law_decimal_without_leading_zeros(n: nat)
    ensures
        decimal(n).len() > 0,
        forall|i: int| 0 <= i < decimal(n).len() ==> '0' <= #[trigger] decimal(n)[i] <= '9',
        decimal(n)[0] == '0' ==> n == 0 && decimal(n).len() == 1,
    decreases n,
{
    if n >= 10 {
        let before = decimal(n / 10);
        law_decimal_without_leading_zeros(n / 10);
        assert(decimal(n) == before.push(digit((n % 10) as int)));
        assert(decimal(n)[0] == before[0]);
        assert forall|i: int| 0 <= i < decimal(n).len() implies '0' <= #[trigger] decimal(n)[i]
            <= '9' by {
            if i < before.len() {
                assert(decimal(n)[i] == before[i]);
            }
        }
    }
}

/// The decimal text of an integer reads as that integer: a minus sign stands
/// before the digits of a negative one and before no other.
pub proof fn law_signed_decimal_reads_back(n: int)
    ensures
        n >= 0 ==> signed_decimal(n) == decimal(n as nat) && decimal_value(signed_decimal(n)) == n,
        n < 0 ==> {
            let text = signed_decimal(n);
            &&& text.len() > 1
            &&& text[0] == '-'
            &&& text.skip(1) == decimal((-n) as nat)
            &&& decimal_value(text.skip(1)) == -n
        },
{
    if n < 0 {
        law_decimal_reads_back((-n) as nat);
        law_decimal_without_leading_zeros((-n) as nat);
        assert(signed_decimal(n).skip(1) =~= decimal((-n) as nat));
    } else {
        law_decimal_reads_back(n as nat);
    }
}

/// Joined lines are the lines in order, with a line feed after each but the
/// last.
pub proof fn law_joined_lines_in_order(parts: Seq<Seq<char>>)
    ensures
        parts.len() == 0 ==> joined(parts) == Seq::<char>::empty(),
        parts.len() > 0 ==> joined(parts).push('\n') == parts.map_values(
            |part: Seq<char>| part.push('\n'),
        ).flatten(),
    decreases parts.len(),
{
    if parts.len() > 0 {
        let end = |part: Seq<char>| part.push('\n');
        let before = parts.drop_last();
        law_joined_lines_in_order(before);
        let ended = before.map_values(end);
        ended.lemma_flatten_push(parts.last().push('\n'));
        assert(parts.map_values(end) =~= ended.push(parts.last().push('\n')));
        if parts.len() == 1 {
            assert(ended =~= Seq::<Seq<char>>::empty());
            assert(ended.flatten() =~= Seq::<char>::empty());
            assert(joined(parts).push('\n') =~= ended.flatten() + parts.last().push('\n'));
        } else {
            assert(joined(parts).push('\n') =~= ended.flatten() + parts.last().push('\n'));
        }
    }
}

/// The segments of a text hold no line feed, and with a line feed after each
/// they are the text with a line feed after it.
pub proof fn law_segments_make_up_text(text: Seq<char>)
    ensures
        forall|i: int| 0 <= i < segments(text).len() ==> !(#[trigger] segments(text)[i]).contains(
            '\n',
        ),
        segments(text).map_values(|part: Seq<char>| part.push('\n')).flatten() == text.push('\n'),
    decreases text.len(),
{
    let end = |part: Seq<char>| part.push('\n');
    let none = Seq::<char>::empty();
    let all = segments(text);
    if text.len() == 0 {
        assert(all.map_values(end) =~= seq![none.push('\n')]);
        seq![none.push('\n')].lemma_flatten_one_element();
        assert(none.push('\n') =~= text.push('\n'));
    } else {
        let shorter = text.drop_last();
        let before = segments(shorter);
        let c = text.last();
        law_segments_make_up_text(shorter);
        lemma_segments_not_empty(shorter);
        assert(shorter.push(c) =~= text);
        if c == '\n' {
            before.map_values(end).lemma_flatten_push(none.push('\n'));
            assert(all.map_values(end) =~= before.map_values(end).push(none.push('\n')));
            assert(all.map_values(end).flatten() =~= text.push('\n'));
            assert forall|i: int| 0 <= i < all.len() implies !(#[trigger] all[i]).contains('\n') by {
                if i < before.len() {
                    assert(all[i] == before[i]);
                }
            }
        } else {
            let init = before.drop_last().map_values(end);
            let last = before.last();
            init.lemma_flatten_push(last.push('\n'));
            assert(before.map_values(end) =~= init.push(last.push('\n')));
            assert(init.flatten() + last =~= shorter) by {
                let whole = init.flatten() + last.push('\n');
                assert(whole.drop_last() =~= init.flatten() + last);
                assert(shorter.push('\n').drop_last() =~= shorter);
            }
            init.lemma_flatten_push(last.push(c).push('\n'));
            assert(all.map_values(end) =~= init.push(last.push(c).push('\n')));
            assert(init.flatten() + last.push(c).push('\n') =~= (init.flatten() + last).push(
                c,
            ).push('\n'));
            assert forall|i: int| 0 <= i < all.len() implies !(#[trigger] all[i]).contains('\n') by {
                if i < before.len() - 1 {
                    assert(all[i] == before[i]);
                } else {
                    assert(all[i] == last.push(c));
                    assert(!before[before.len() - 1].contains('\n'));
                    assert forall|j: int| 0 <= j < all[i].len() implies all[i][j] != '\n' by {
                        if j < last.len() {
                            assert(last.contains(last[j]));
                        }
                    }
                }
            }
        }
    }
}

proof fn lemma_segments_after_line(line: Seq<char>, rest: Seq<char>)
    requires
        single_line(line),
    ensures
        segments(line.push('\n') + rest) == seq![line] + segments(rest),
    decreases rest.len(),
{
    let none = Seq::<char>::empty();
    let whole = line.push('\n') + rest;
    if rest.len() == 0 {
        assert(whole =~= line.push('\n'));
        assert(whole.drop_last() =~= line);
        lemma_segments_append(none, line);
        assert(none + line =~= line);
        assert(segments(none).drop_last() =~= Seq::<Seq<char>>::empty());
        assert(segments(none).last() + line =~= line);
        assert(segments(line) =~= seq![line]);
        assert(segments(whole) =~= seq![line] + segments(rest));
    } else {
        let shorter = rest.drop_last();
        lemma_segments_after_line(line, shorter);
        lemma_segments_not_empty(shorter);
        assert(whole.drop_last() =~= line.push('\n') + shorter);
        assert((seq![line] + segments(shorter)).last() == segments(shorter).last());
        assert((seq![line] + segments(shorter)).drop_last() =~= seq![line] + segments(
            shorter,
        ).drop_last());
        assert(segments(whole) =~= seq![line] + segments(rest));
    }
}

proof fn lemma_lines_after_line(line: Seq<char>, rest: Seq<char>)
    requires
        single_line(line),
    ensures
        text_lines(line.push('\n') + rest) == seq![without_carriage_return(line)] + text_lines(
            rest,
        ),
{
    let whole = line.push('\n') + rest;
    lemma_segments_after_line(line, rest);
    lemma_segments_not_empty(rest);
    assert(segments(whole).last() == segments(rest).last());
    assert(segments(whole).drop_last() =~= seq![line] + segments(rest).drop_last());
    assert(terminated_lines(whole) =~= seq![without_carriage_return(line)] + terminated_lines(
        rest,
    ));
    assert(text_lines(whole) =~= seq![without_carriage_return(line)] + text_lines(rest));
}

/// A line that ends in a line feed, or in a carriage return and a line feed, is
/// the first line, without its end; the lines of what follows come after it.
pub proof fn law_first_line_and_rest(line: Seq<char>, rest: Seq<char>)
    requires
        !line.contains('\n'),
    ensures
        line.len() == 0 || line.last() != '\r' ==> text_lines(line.push('\n') + rest) == seq![line]
            + text_lines(rest),
        text_lines(line.push('\r').push('\n') + rest) == seq![line] + text_lines(rest),
{
    lemma_lines_after_line(line, rest);
    let returned = line.push('\r');
    assert forall|i: int| 0 <= i < returned.len() implies returned[i] != '\n' by {
        if i < line.len() {
            assert(line.contains(line[i]));
        }
    }
    lemma_lines_after_line(returned, rest);
    assert(returned.drop_last() =~= line);
}

/// What ends in no line feed is a line as it stands, unless it is empty.
pub proof fn law_unterminated_line(line: Seq<char>)
    requires
        !line.contains('\n'),
    ensures
        line.len() == 0 ==> text_lines(line) == Seq::<Seq<char>>::empty(),
        line.len() > 0 ==> text_lines(line) == seq![line],
{
    let none = Seq::<char>::empty();
    lemma_segments_append(none, line);
    assert(none + line =~= line);
    assert(segments(none).drop_last() =~= Seq::<Seq<char>>::empty());
    assert(segments(none).last() + line =~= line);
    assert(terminated_lines(line) =~= Seq::<Seq<char>>::empty());
    assert(line.len() > 0 ==> text_lines(line) =~= seq![line]);
}

/// An empty text has no words.
pub proof fn law_no_words_in_empty_text(text: Seq<char>)
    ensures
        text.len() == 0 ==> text_words(text) == Seq::<Seq<char>>::empty(),
{
}

/// White space is the five controls from the tab to the carriage return, the
/// space, and the characters beyond ASCII that Unicode counts as such.
pub proof fn law_white_space_characters(c: char)
    ensures
        white_space(c) <==> set![
            0x9u32,
            0xau32,
            0xbu32,
            0xcu32,
            0xdu32,
            0x20u32,
            0x85u32,
            0xa0u32,
            0x1680u32,
            0x2000u32,
            0x2001u32,
            0x2002u32,
            0x2003u32,
            0x2004u32,
            0x2005u32,
            0x2006u32,
            0x2007u32,
            0x2008u32,
            0x2009u32,
            0x200au32,
            0x2028u32,
            0x2029u32,
            0x202fu32,
            0x205fu32,
            0x3000u32,
        ].contains(c as u32),
{
}

/// The texts of strings are theirs one by one.
pub proof fn law_texts_one_by_one(strings: Seq<String>)
    ensures
        texts(strings).len() == strings.len(),
        forall|i: int| 0 <= i < strings.len() ==> #[trigger] texts(strings)[i] == strings[i]@,
{
}

/// The text of an unsigned number reads as that number and has no leading zeros.
pub proof fn law_unsigned_text(n: u64, text: String)
    requires
        call_ensures(unsigned_text, (n,), text),
    ensures
        decimal_value(text@) == n,
        text@.len() > 0,
        forall|i: int| 0 <= i < text@.len() ==> '0' <= #[trigger] text@[i] <= '9',
        text@[0] == '0' ==> n == 0 && text@.len() == 1,
{
    law_decimal_reads_back(n as nat);
    law_decimal_without_leading_zeros(n as nat);
}

/// The text of a signed number reads as that number, with a minus sign before
/// the digits of a negative one.
pub proof fn law_signed_text(n: i64, text: String)
    requires
        call_ensures(signed_text, (n,), text),
    ensures
        n >= 0 ==> text@ == decimal(n as nat) && decimal_value(text@) == n,
        n < 0 ==> text@.len() > 1 && text@[0] == '-' && text@.skip(1) == decimal((-n) as nat)
            && decimal_value(text@.skip(1)) == -n,
{
    law_signed_decimal_reads_back(n as int);
}

/// Two texts are the same where their characters are.
pub proof fn law_same_text(a: &str, b: &str, same: bool)
    requires
        call_ensures(same_text, (a, b), same),
    ensures
        same <==> a@ == b@,
{
}

/// Trimming removes the slashes that a text begins with and nothing else.
pub proof fn law_slashes_trimmed(text: &str, trimmed: String)
    requires
        call_ensures(trim_leading_slashes, (text,), trimmed),
    ensures
        ({
            let removed = text@.len() - trimmed@.len();
            &&& removed >= 0
            &&& trimmed@ == text@.skip(removed)
            &&& forall|i: int| 0 <= i < removed ==> text@[i] == '/'
            &&& trimmed@.len() > 0 ==> trimmed@[0] != '/'
        }),
{
    law_only_leading_slashes_removed(text@);
}

/// The lines that are found are as many as the line feeds, and one more where
/// something follows the last of them; none holds a line feed.
pub proof fn law_lines_found(text: &str, found: Vec<String>)
    requires
        call_ensures(lines, (text,), found),
    ensures
        found@.len() == text@.filter(|c: char| c == '\n').len() + if text@.len() > 0 && text@.last()
            != '\n' {
            1int
        } else {
            0
        },
        forall|i: int| 0 <= i < found@.len() ==> !(#[trigger] found@[i])@.contains('\n'),
{
    law_line_count(text@);
    law_texts_one_by_one(found@);
    law_segments_make_up_text(text@);
    lemma_segments_not_empty(text@);
    let all = segments(text@);
    assert forall|i: int| 0 <= i < found@.len() implies !(#[trigger] found@[i])@.contains('\n') by {
        let line = text_lines(text@)[i];
        assert(texts(found@)[i] == line);
        assert(!all[i].contains('\n'));
        assert forall|j: int| 0 <= j < line.len() implies line[j] != '\n' by {
            assert(line[j] == all[i][j]);
            assert(all[i].contains(all[i][j]));
        }
    }
}

/// Lines are joined in order, with a line feed after each but the last.
pub proof fn law_lines_joined(parts: &Vec<String>, whole: String)
    requires
        call_ensures(join_lines, (parts,), whole),
    ensures
        parts@.len() == 0 ==> whole@ == Seq::<char>::empty(),
        parts@.len() > 0 ==> whole@.push('\n') == texts(parts@).map_values(
            |part: Seq<char>| part.push('\n'),
        ).flatten(),
{
    law_joined_lines_in_order(texts(parts@));
}

proof fn lemma_words_without_white_space(text: Seq<char>)
    ensures
        forall|i: int, j: int|
            0 <= i < text_words(text).len() && 0 <= j < text_words(text)[i].len()
                ==> !white_space(#[trigger] text_words(text)[i][j]),
        forall|i: int| 0 <= i < text_words(text).len() ==> (#[trigger] text_words(text)[i]).len() > 0,
    decreases text.len(),
{
    if text.len() > 0 {
        let before = text_words(text.drop_last());
        lemma_words_without_white_space(text.drop_last());
        if !white_space(text.last()) && text.len() > 1 && !white_space(text[text.len() - 2]) {
            lemma_open_word(text.drop_last());
            assert(before[before.len() - 1] == before.last());
            let found = text_words(text);
            assert forall|i: int, j: int|
                0 <= i < found.len() && 0 <= j < found[i].len() implies !white_space(
                #[trigger] found[i][j],
            ) by {
                if i < before.len() - 1 {
                    assert(found[i] == before[i]);
                } else if j < before.last().len() {
                    assert(found[i][j] == before[before.len() - 1][j]);
                }
            }
        }
    }
}

/// The words that are found hold no white space, none is empty, and a text that
/// is one word is found as it stands.
pub proof fn law_words_found(text: &str, found: Vec<String>)
    requires
        call_ensures(words, (text,), found),
    ensures
        forall|i: int, j: int|
            0 <= i < found@.len() && 0 <= j < found@[i]@.len() ==> !white_space(
                #[trigger] found@[i]@[j],
            ),
        forall|i: int| 0 <= i < found@.len() ==> (#[trigger] found@[i])@.len() > 0,
        text@.len() > 0 && (forall|i: int| 0 <= i < text@.len() ==> !white_space(#[trigger] text@[i]))
            ==> found@.len() == 1 && found@[0]@ == text@,
{
    lemma_words_without_white_space(text@);
    law_texts_one_by_one(found@);
    assert forall|i: int, j: int| 0 <= i < found@.len() && 0 <= j < found@[i]@.len() implies
        !white_space(#[trigger] found@[i]@[j]) by {
        assert(text_words(text@)[i] == found@[i]@);
        assert(!white_space(text_words(text@)[i][j]));
    }
    assert forall|i: int| 0 <= i < found@.len() implies (#[trigger] found@[i])@.len() > 0 by {
        assert(text_words(text@)[i] == found@[i]@);
    }
    if text@.len() > 0 && (forall|i: int|
        0 <= i < text@.len() ==> !white_space(#[trigger] text@[i])) {
        law_single_word(text@);
        assert(texts(found@)[0] == found@[0]@);
    }
}

/// Whether a character is white space is told by the table of such characters.
pub proof fn law_white_space_told(c: char, white: bool)
    requires
        call_ensures(is_white_space, (c,), white),
    ensures
        white == white_space(c),
        c as u32 <= 0x7f ==> (white <==> 0x9 <= c as u32 <= 0xd || c == ' '),
{
}

} // verus!
