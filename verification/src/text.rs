//! Text as sequences of characters.
use vstd::prelude::*;

verus! {

/// `String::push` appends one character.
pub assume_specification[ String::push ](s: &mut String, c: char)
    ensures
        final(s)@ == old(s)@.push(c),
;

/// Whether `char::is_whitespace` holds: the character has Unicode's White_Space
/// property.
pub uninterp spec fn is_whitespace(c: char) -> bool;

/// `char::is_whitespace` is a function of the character. Of the ASCII
/// characters it holds for the space and for U+0009 to U+000D.
pub assume_specification[ char::is_whitespace ](c: char) -> (result: bool)
    ensures
        result == is_whitespace(c),
        (c as u32) < 128 ==> result == (c == ' ' || 9 <= c as u32 <= 13),
;

/// The views of a sequence of strings.
pub open spec fn views(texts: Seq<String>) -> Seq<Seq<char>> {
    Seq::new(texts.len(), |i: int| texts[i]@)
}

/// The decimal digit of a number below ten.
pub open spec fn digit(n: nat) -> char {
    (48 + n) as u8 as char
}

/// A number in decimal, without leading zeros.
pub open spec fn decimal(n: nat) -> Seq<char>
    decreases n,
{
    if n < 10 {
        seq![digit(n)]
    } else {
        decimal(n / 10).push(digit(n % 10))
    }
}

/// What an optional text stands for.
pub open spec fn optional_view(text: Option<&str>) -> Option<Seq<char>> {
    match text {
        Some(text) => Some(text@),
        None => None,
    }
}

/// Whether `text` starts with `prefix`.
pub open spec fn has_prefix(text: Seq<char>, prefix: Seq<char>) -> bool {
    text.len() >= prefix.len() && text.subrange(0, prefix.len() as int) == prefix
}

/// `text` up to the first `end`, or all of it where `end` does not occur.
pub open spec fn until(text: Seq<char>, end: char) -> Seq<char>
    decreases text.len(),
{
    if text.len() == 0 || text[0] == end {
        Seq::empty()
    } else {
        seq![text[0]] + until(text.drop_first(), end)
    }
}

/// A text without `end` reaches up to the `end` that follows it, and what follows an
/// `end` makes no difference.
pub proof fn lemma_until(text: Seq<char>, end: char, rest: Seq<char>)
    ensures
        !text.contains(end) ==> until(text, end) == text,
        until(text + seq![end] + rest, end) == until(text, end),
    decreases text.len(),
{
    let whole = text + seq![end] + rest;
    if text.len() == 0 {
        assert(whole[0] == end);
    } else if text[0] != end {
        assert forall|c: char| text.drop_first().contains(c) implies text.contains(c) by {
            let i = text.drop_first().index_of(c);
            assert(text[i + 1] == c);
        }
        lemma_until(text.drop_first(), end, rest);
        assert(whole.drop_first() == text.drop_first() + seq![end] + rest);
        assert(seq![text[0]] + text.drop_first() == text);
    } else {
        assert(text.contains(text[0]));
    }
}

/// What stands before the first `end` is the start of a text, and holds no `end`.
pub proof fn until_is_prefix(text: Seq<char>, end: char)
    ensures
        until(text, end).len() <= text.len(),
        until(text, end) == text.take(until(text, end).len() as int),
        !until(text, end).contains(end),
        until(text, end).len() < text.len() ==> text[until(text, end).len() as int] == end,
    decreases text.len(),
{
    let head = until(text, end);
    if text.len() > 0 && text[0] != end {
        let rest = text.drop_first();
        until_is_prefix(rest, end);
        assert(head == text.take(head.len() as int));
        assert forall|i: int| 0 <= i < head.len() implies #[trigger] head[i] != end by {
            if i > 0 {
                assert(head[i] == until(rest, end)[i - 1]);
                assert(until(rest, end).contains(head[i]));
            }
        }
    }
}

/// The pieces one after another, with `separator` between each two.
pub open spec fn joined(pieces: Seq<Seq<char>>, separator: Seq<char>) -> Seq<char>
    decreases pieces.len(),
{
    if pieces.len() == 0 {
        Seq::empty()
    } else if pieces.len() == 1 {
        pieces[0]
    } else {
        joined(pieces.drop_last(), separator) + separator + pieces.last()
    }
}

/// `text` without the whitespace at its start and at its end.
pub open spec fn trimmed(text: Seq<char>) -> Seq<char>
    decreases text.len(),
{
    if text.len() == 0 {
        text
    } else if is_whitespace(text[0]) {
        trimmed(text.drop_first())
    } else if is_whitespace(text.last()) {
        trimmed(text.drop_last())
    } else {
        text
    }
}

/// Whether `left` stands before `right` in the order of strings: by the code
/// points of the first place where the two differ, a text before its
/// continuations.
pub open spec fn precedes(left: Seq<char>, right: Seq<char>) -> bool
    decreases left.len(),
{
    if right.len() == 0 {
        false
    } else if left.len() == 0 {
        true
    } else if left[0] == right[0] {
        precedes(left.drop_first(), right.drop_first())
    } else {
        left[0] < right[0]
    }
}

/// No text stands before itself, and of two different texts exactly one stands
/// before the other.
pub proof fn precedes_is_total(left: Seq<char>, right: Seq<char>)
    ensures
        left == right ==> !precedes(left, right),
        left != right ==> precedes(left, right) != precedes(right, left),
    decreases left.len(),
{
    if left.len() > 0 && right.len() > 0 && left[0] == right[0] {
        precedes_is_total(left.drop_first(), right.drop_first());
        if left.drop_first() == right.drop_first() {
            assert(left == seq![left[0]] + left.drop_first());
            assert(right == seq![right[0]] + right.drop_first());
        }
    } else if left.len() == 0 && right.len() == 0 {
        assert(left == right);
    }
}

/// The order of texts is transitive.
pub proof fn precedes_is_transitive(left: Seq<char>, middle: Seq<char>, right: Seq<char>)
    requires
        precedes(left, middle),
        precedes(middle, right),
    ensures
        precedes(left, right),
    decreases left.len(),
{
    if left.len() > 0 && left[0] == middle[0] && middle[0] == right[0] {
        precedes_is_transitive(left.drop_first(), middle.drop_first(), right.drop_first());
    }
}

/// How two texts are ordered.
#[derive(Debug, Clone, Copy, PartialEq, Eq, Structural)]
pub enum Order {
    Before,
    Same,
    After,
}

/// How `left` and `right` are ordered.
pub fn order(left: &str, right: &str) -> (result: Order)
    ensures
        match result {
            Order::Before => precedes(left@, right@),
            Order::Same => left@ == right@,
            Order::After => precedes(right@, left@),
        },
{
    let a = characters(left);
    let b = characters(right);
    let mut i: usize = 0;
    assert(a@.skip(0) == a@);
    assert(b@.skip(0) == b@);
    while i < a.len() && i < b.len() && a[i] == b[i]
        invariant
            a@ == left@,
            b@ == right@,
            i <= a.len(),
            i <= b.len(),
            forall|k: int| 0 <= k < i ==> a[k] == b[k],
            precedes(left@, right@) == precedes(left@.skip(i as int), right@.skip(i as int)),
            precedes(right@, left@) == precedes(right@.skip(i as int), left@.skip(i as int)),
        decreases a.len() - i,
    {
        assert(left@.skip(i as int).drop_first() == left@.skip(i + 1));
        assert(right@.skip(i as int).drop_first() == right@.skip(i + 1));
        i += 1;
    }
    if i == a.len() && i == b.len() {
        assert(left@ == right@);
        Order::Same
    } else if i == a.len() || (i < b.len() && a[i] < b[i]) {
        Order::Before
    } else {
        Order::After
    }
}

/// The characters of `text`.
pub fn characters(text: &str) -> (result: Vec<char>)
    ensures
        result@ == text@,
{
    let mut result: Vec<char> = Vec::new();
    for c in iter: text.chars()
        invariant
            result@ == iter.seq().take(iter.index() as int),
            iter.seq() == text@,
    {
        result.push(c);
    }
    assert(text@.take(text@.len() as int) == text@);
    result
}

/// The string made of `characters` from `start` up to `end`.
pub fn string_from(characters: &Vec<char>, start: usize, end: usize) -> (result: String)
    requires
        start <= end <= characters.len(),
    ensures
        result@ == characters@.subrange(start as int, end as int),
{
    let mut result = String::new();
    for i in start..end
        invariant
            start <= end <= characters.len(),
            result@ == characters@.subrange(start as int, i as int),
    {
        result.push(characters[i]);
        assert(characters@.subrange(start as int, i + 1) == characters@.subrange(
            start as int,
            i as int,
        ).push(characters@[i as int]));
    }
    result
}

/// A number in decimal.
pub fn decimal_text(n: u128) -> (result: String)
    ensures
        result@ == decimal(n as nat),
    decreases n,
{
    if n < 10 {
        let mut result = String::new();
        result.push((48 + n as u8) as char);
        assert(result@ == seq![digit(n as nat)]);
        result
    } else {
        let mut result = decimal_text(n / 10);
        result.push((48 + (n % 10) as u8) as char);
        result
    }
}

/// Whether two texts hold the same characters.
pub fn equal(left: &str, right: &str) -> (result: bool)
    ensures
        result == (left@ == right@),
{
    left.to_owned() == right.to_owned()
}

/// Whether `text` starts with `prefix`.
pub fn starts_with(text: &str, prefix: &str) -> (result: bool)
    ensures
        result == has_prefix(text@, prefix@),
{
    let whole = characters(text);
    let start = characters(prefix);
    if whole.len() < start.len() {
        return false;
    }
    for i in 0..start.len()
        invariant
            whole@ == text@,
            start@ == prefix@,
            start.len() <= whole.len(),
            forall|k: int| 0 <= k < i ==> whole[k] == start[k],
    {
        if whole[i] != start[i] {
            assert(text@.subrange(0, prefix@.len() as int)[i as int] != prefix@[i as int]);
            return false;
        }
    }
    assert(text@.subrange(0, prefix@.len() as int) == prefix@);
    true
}

/// The position of the first `wanted` in `text`, if there is one.
pub fn find(text: &Vec<char>, wanted: char) -> (result: Option<usize>)
    ensures
        match result {
            Some(at) => at < text.len() && text[at as int] == wanted && !text@.take(
                at as int,
            ).contains(wanted),
            None => !text@.contains(wanted),
        },
{
    for i in 0..text.len()
        invariant
            forall|k: int| 0 <= k < i ==> text[k] != wanted,
    {
        if text[i] == wanted {
            return Some(i);
        }
    }
    None
}

/// `text` up to the first `end`, or all of it where `end` does not occur.
pub fn prefix_until(text: &str, end: char) -> (result: String)
    ensures
        result@ == until(text@, end),
{
    let whole = characters(text);
    let stop = match find(&whole, end) {
        Some(at) => at,
        None => whole.len(),
    };
    proof {
        let head = text@.take(stop as int);
        if stop < text@.len() {
            lemma_until(head, end, text@.skip(stop + 1));
            assert(head + seq![end] + text@.skip(stop + 1) == text@);
        } else {
            assert(head == text@);
            lemma_until(head, end, Seq::empty());
        }
    }
    string_from(&whole, 0, stop)
}

/// The pieces one after another, with `separator` between each two.
pub fn join(pieces: &Vec<String>, separator: &str) -> (result: String)
    ensures
        result@ == joined(views(pieces@), separator@),
{
    let mut result = String::new();
    let ghost all = views(pieces@);
    for i in 0..pieces.len()
        invariant
            all == views(pieces@),
            result@ == joined(all.take(i as int), separator@),
    {
        if i > 0 {
            result.append(separator);
        }
        result.append(pieces[i].as_str());
        assert(all.take(i + 1).drop_last() == all.take(i as int));
    }
    assert(all.take(pieces.len() as int) == all);
    result
}

/// A copy of a list of strings.
pub fn copy_all(texts: &Vec<String>) -> (result: Vec<String>)
    ensures
        result@ == texts@,
{
    let mut result: Vec<String> = Vec::new();
    append_all(&mut result, texts);
    assert(result@ == texts@);
    result
}

/// Copy the strings of `more` behind those of `texts`.
pub fn append_all(texts: &mut Vec<String>, more: &Vec<String>)
    ensures
        final(texts)@ == old(texts)@ + more@,
{
    for i in 0..more.len()
        invariant
            texts@ == old(texts)@ + more@.take(i as int),
    {
        texts.push(more[i].clone());
        assert(more@.take(i + 1) == more@.take(i as int).push(more@[i as int]));
    }
    assert(more@.take(more@.len() as int) == more@);
}

/// What `String::from_utf8_lossy` makes of bytes.
pub uninterp spec fn decoded(bytes: Seq<u8>) -> Seq<char>;

/// `String::from_utf8_lossy`: a function of the bytes, which gives back the text
/// that valid UTF-8 encodes.
#[verifier::external_body]
pub(crate) fn decode_lossy(bytes: &[u8]) -> (result: String)
    ensures
        result@ == decoded(bytes@),
        vstd::utf8::valid_utf8(bytes@) ==> result@ == vstd::utf8::decode_utf8(bytes@),
{
    String::from_utf8_lossy(bytes).into_owned()
}

/// The first position where `text` holds no whitespace, or its length.
fn skip_whitespace(text: &Vec<char>) -> (start: usize)
    ensures
        start <= text.len(),
        start < text.len() ==> !is_whitespace(text[start as int]),
        trimmed(text@) == trimmed(text@.skip(start as int)),
{
    let mut start: usize = 0;
    assert(text@.skip(0) == text@);
    while start < text.len() && text[start].is_whitespace()
        invariant
            start <= text.len(),
            trimmed(text@) == trimmed(text@.skip(start as int)),
        decreases text.len() - start,
    {
        assert(text@.skip(start as int).drop_first() == text@.skip(start + 1));
        start += 1;
    }
    start
}

/// `text` without the whitespace at its start and at its end.
pub fn trim(text: &str) -> (result: String)
    ensures
        result@ == trimmed(text@),
{
    let text = characters(text);
    let start = skip_whitespace(&text);
    let mut end: usize = text.len();
    assert(text@.skip(start as int) == text@.subrange(start as int, end as int));
    while end > start && text[end - 1].is_whitespace()
        invariant
            start <= end <= text.len(),
            start < end ==> !is_whitespace(text[start as int]),
            trimmed(text@) == trimmed(text@.subrange(start as int, end as int)),
        decreases end - start,
    {
        assert(text@.subrange(start as int, end as int).drop_last() == text@.subrange(
            start as int,
            end - 1,
        ));
        end -= 1;
    }
    string_from(&text, start, end)
}

/// The views of strings stand in the order of the strings, one for each.
pub proof fn views_keep_order(texts: Seq<String>)
    ensures
        views(texts).len() == texts.len(),
        forall|i: int| 0 <= i < texts.len() ==> #[trigger] views(texts)[i] == texts[i]@,
{
}

/// A text that is there stands for its characters.
pub proof fn optional_text_is_kept(text: &str)
    ensures
        optional_view(Some(text)) == Some(text@),
        optional_view(None) is None,
{
}

/// A text starts with another exactly where it is that other with something behind
/// it.
pub proof fn prefix_has_a_rest(text: Seq<char>, prefix: Seq<char>, rest: Seq<char>)
    ensures
        has_prefix(prefix + rest, prefix),
        has_prefix(text, prefix) ==> text == prefix + text.skip(prefix.len() as int),
{
    assert((prefix + rest).subrange(0, prefix.len() as int) == prefix);
    if has_prefix(text, prefix) {
        assert(text.subrange(0, prefix.len() as int) + text.skip(prefix.len() as int) == text);
    }
}

/// One piece is joined as it is, and between two lists of pieces there is one
/// separator.
pub proof fn joined_lists_join(left: Seq<Seq<char>>, right: Seq<Seq<char>>, separator: Seq<char>)
    ensures
        joined(Seq::empty(), separator) == Seq::<char>::empty(),
        left.len() == 1 ==> joined(left, separator) == left[0],
        left.len() > 0 && right.len() > 0 ==> joined(left + right, separator) == joined(
            left,
            separator,
        ) + separator + joined(right, separator),
    decreases right.len(),
{
    if left.len() > 0 && right.len() > 0 {
        let whole = left + right;
        if right.len() == 1 {
            assert(whole.drop_last() == left);
            assert(whole.last() == right[0]);
        } else {
            let shorter = right.drop_last();
            joined_lists_join(left, shorter, separator);
            assert(whole.drop_last() == left + shorter);
            assert(joined(whole, separator) == joined(left + shorter, separator) + separator
                + right.last());
            assert(joined(whole, separator) == joined(left, separator) + separator + joined(
                right,
                separator,
            ));
        }
    }
}

/// Whitespace around a text that neither starts nor ends with whitespace is all that
/// is taken away.
pub proof fn trimming_takes_the_whitespace_around(
    before: Seq<char>,
    core: Seq<char>,
    after: Seq<char>,
)
    requires
        forall|i: int| 0 <= i < before.len() ==> is_whitespace(#[trigger] before[i]),
        forall|i: int| 0 <= i < after.len() ==> is_whitespace(#[trigger] after[i]),
        core.len() > 0 ==> !is_whitespace(core[0]) && !is_whitespace(core.last()),
    ensures
        trimmed(before + core + after) == core,
    decreases before.len() + after.len(),
{
    let whole = before + core + after;
    if before.len() > 0 {
        assert(is_whitespace(before[0]));
        assert(whole.drop_first() == before.drop_first() + core + after);
        trimming_takes_the_whitespace_around(before.drop_first(), core, after);
    } else if after.len() > 0 {
        if core.len() == 0 {
            assert(is_whitespace(after[0]));
            assert(whole == after);
            assert(whole.drop_first() == before + core + after.drop_first());
            trimming_takes_the_whitespace_around(before, core, after.drop_first());
        } else {
            assert(is_whitespace(after[after.len() - 1]));
            assert(whole[0] == core[0]);
            assert(whole.drop_last() == before + core + after.drop_last());
            trimming_takes_the_whitespace_around(before, core, after.drop_last());
        }
    } else {
        assert(whole == core);
    }
}

/// Two texts are ordered by the first characters in which they differ, and a text
/// stands before every longer one that starts with it.
pub proof fn precedes_by_first_difference(
    head: Seq<char>,
    left: char,
    left_rest: Seq<char>,
    right: char,
    right_rest: Seq<char>,
)
    ensures
        left < right ==> precedes(head + seq![left] + left_rest, head + seq![right] + right_rest),
        precedes(head, head + seq![right] + right_rest),
        !precedes(head + seq![right] + right_rest, head),
    decreases head.len(),
{
    let a = head + seq![left] + left_rest;
    let b = head + seq![right] + right_rest;
    if head.len() == 0 {
        assert(a[0] == left && b[0] == right);
    } else {
        let rest = head.drop_first();
        precedes_by_first_difference(rest, left, left_rest, right, right_rest);
        assert(a.drop_first() == rest + seq![left] + left_rest);
        assert(b.drop_first() == rest + seq![right] + right_rest);
        assert(a[0] == head[0] && b[0] == head[0]);
    }
}

} // verus!
