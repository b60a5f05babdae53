//! Versions and their order.
use vstd::prelude::*;

use crate::text;
use crate::text::Order;

verus! {

/// Whether a text is a number in decimal: digits, and at least one.
pub open spec fn is_number(text: Seq<char>) -> bool {
    &&& text.len() > 0
    &&& forall|i: int| 0 <= i < text.len() ==> '0' <= #[trigger] text[i] <= '9'
}

/// The number that digits write down in decimal.
pub open spec fn number(digits: Seq<char>) -> nat
    decreases digits.len(),
{
    if digits.len() == 0 {
        0
    } else {
        number(digits.drop_last()) * 10 + (digits.last() as nat - 48) as nat
    }
}

/// The numbers of a version, which stand in decimal with a dot between each two.
/// Other texts are not ordered as versions.
pub open spec fn numbers(text: Seq<char>) -> Option<Seq<nat>>
    decreases text.len(),
{
    let first = text::until(text, '.');
    if !is_number(first) {
        None
    } else if first.len() >= text.len() {
        Some(seq![number(first)])
    } else {
        match numbers(text.skip(first.len() as int + 1)) {
            Some(rest) => Some(seq![number(first)] + rest),
            None => None,
        }
    }
}

/// The number at a position. A number that is not written counts as zero.
pub open spec fn number_at(numbers: Seq<nat>, i: int) -> nat {
    if 0 <= i < numbers.len() {
        numbers[i]
    } else {
        0
    }
}

/// Whether `left` is greater than `right` at a position, and the two are alike before
/// it.
pub open spec fn is_greater_from(left: Seq<nat>, right: Seq<nat>, i: int) -> bool {
    &&& 0 <= i
    &&& number_at(left, i) > number_at(right, i)
    &&& forall|j: int| 0 <= j < i ==> #[trigger] number_at(left, j) == number_at(right, j)
}

/// Whether the version with the numbers `left` is later than the one with the numbers
/// `right`: by the first position at which the two differ.
pub open spec fn later(left: Seq<nat>, right: Seq<nat>) -> bool {
    exists|i: int| #[trigger] is_greater_from(left, right, i)
}

/// The version of a release: three numbers.
#[derive(Debug, Clone, Copy, PartialEq, Eq, Structural)]
pub struct Release {
    pub major: u64,
    pub minor: u64,
    pub patch: u64,
}

impl Release {
    /// The text of a release version: its numbers in decimal, with dots between
    /// them.
    pub open spec fn text(self) -> Seq<char> {
        text::decimal(self.major as nat) + seq!['.'] + text::decimal(self.minor as nat) + seq!['.']
            + text::decimal(self.patch as nat)
    }

    /// The numbers of a release version.
    pub open spec fn numbers(self) -> Seq<nat> {
        seq![self.major as nat, self.minor as nat, self.patch as nat]
    }

    /// Whether a text is the text of this release, as a whole or without the zeros at
    /// its end.
    pub open spec fn is_named_by(self, text: Seq<char>) -> bool {
        ||| text == self.text()
        ||| text + ".0"@ == self.text()
        ||| text + ".0.0"@ == self.text()
    }

    /// Whether this release is later than another.
    pub fn is_later_than(&self, other: &Release) -> (result: bool)
        ensures
            result == later(self.numbers(), other.numbers()),
    {
        let ghost left = self.numbers();
        let ghost right = other.numbers();
        let result = self.major > other.major || (self.major == other.major && (self.minor
            > other.minor || (self.minor == other.minor && self.patch > other.patch)));
        proof {
            assert(number_at(left, 0) == self.major && number_at(right, 0) == other.major);
            assert(number_at(left, 1) == self.minor && number_at(right, 1) == other.minor);
            assert(number_at(left, 2) == self.patch && number_at(right, 2) == other.patch);
            if result {
                let i: int = if self.major > other.major {
                    0
                } else if self.minor > other.minor {
                    1
                } else {
                    2
                };
                assert(is_greater_from(left, right, i));
            }
        }
        result
    }
}

/// `semver::Version::parse` on a text without pre-release or build part, which is
/// one without `-` and `+`: the text is accepted where it is the text of three
/// numbers of 64 bits, and the version holds these numbers.
#[verifier::external_body]
fn parse_release(text: &str) -> (result: Option<Release>)
    requires
        !text@.contains('-'),
        !text@.contains('+'),
    ensures
        match result {
            Some(release) => text@ == release.text(),
            None => forall|release: Release| text@ != #[trigger] release.text(),
        },
{
    match semver::Version::parse(text) {
        Ok(version) => {
            Some(Release { major: version.major, minor: version.minor, patch: version.patch })
        },
        Err(_) => None,
    }
}

proof fn decimal_is_a_number(n: nat)
    ensures
        is_number(text::decimal(n)),
        number(text::decimal(n)) == n,
    decreases n,
{
    let whole = text::decimal(n);
    if n < 10 {
        assert(number(whole.drop_last()) == 0);
    } else {
        decimal_is_a_number(n / 10);
        assert(whole.drop_last() == text::decimal(n / 10));
        assert forall|i: int| 0 <= i < whole.len() implies '0' <= #[trigger] whole[i] <= '9' by {
            if i < whole.len() - 1 {
                assert(whole[i] == text::decimal(n / 10)[i]);
            }
        }
    }
}

/// A number in front adds itself to the numbers of what follows the dot.
proof fn numbers_from_first(first: Seq<char>, rest: Seq<char>)
    requires
        is_number(first),
    ensures
        numbers(first) == Some(seq![number(first)]),
        numbers(first + seq!['.'] + rest) == match numbers(rest) {
            Some(rest) => Some(seq![number(first)] + rest),
            None => None,
        },
{
    let whole = first + seq!['.'] + rest;
    text::lemma_until(first, '.', rest);
    assert(whole.skip(first.len() as int + 1) == rest);
}

/// The numbers of a release version are those of its text.
pub proof fn release_numbers(release: Release)
    ensures
        numbers(release.text()) == Some(release.numbers()),
{
    let major = text::decimal(release.major as nat);
    let minor = text::decimal(release.minor as nat);
    let patch = text::decimal(release.patch as nat);
    decimal_is_a_number(release.major as nat);
    decimal_is_a_number(release.minor as nat);
    decimal_is_a_number(release.patch as nat);
    let rest = minor + seq!['.'] + patch;
    assert(release.text() == major + seq!['.'] + rest);
    numbers_from_first(patch, Seq::empty());
    numbers_from_first(minor, patch);
    numbers_from_first(major, rest);
    assert(numbers(release.text())->0 == release.numbers());
}

/// A zero that is written at the end of a version adds a zero to its numbers.
pub proof fn zero_behind(text: Seq<char>)
    ensures
        numbers(text + ".0"@) == match numbers(text) {
            Some(numbers) => Some(numbers.push(0)),
            None => None,
        },
    decreases text.len(),
{
    reveal_strlit(".0");
    let longer = text + ".0"@;
    let first = text::until(text, '.');
    text::until_is_prefix(text, '.');
    if first.len() == text.len() {
        let zero = seq!['0'];
        assert(text == first);
        assert(longer == first + seq!['.'] + zero);
        assert(zero == text::decimal(0));
        decimal_is_a_number(0);
        text::lemma_until(first, '.', zero);
        if is_number(first) {
            numbers_from_first(zero, Seq::empty());
            numbers_from_first(first, zero);
            assert(numbers(longer)->0 == seq![number(first)].push(0));
        }
    } else {
        let rest = text.skip(first.len() as int + 1);
        assert(text == first + seq!['.'] + rest);
        assert(longer == first + seq!['.'] + (rest + ".0"@));
        text::lemma_until(first, '.', rest + ".0"@);
        zero_behind(rest);
        if is_number(first) {
            numbers_from_first(first, rest);
            numbers_from_first(first, rest + ".0"@);
            if numbers(rest) is Some {
                assert(numbers(longer)->0 == (seq![number(first)] + numbers(rest)->0).push(0));
            }
        }
    }
}

/// A version holds digits and dots.
pub proof fn versions_hold_digits_and_dots(text: Seq<char>, i: int)
    requires
        numbers(text) is Some,
        0 <= i < text.len(),
    ensures
        '0' <= text[i] <= '9' || text[i] == '.',
    decreases text.len(),
{
    let first = text::until(text, '.');
    text::until_is_prefix(text, '.');
    if i < first.len() {
        assert(text[i] == first[i]);
    } else if i > first.len() {
        let rest = text.skip(first.len() as int + 1);
        assert(text[i] == rest[i - first.len() - 1]);
        versions_hold_digits_and_dots(rest, i - first.len() - 1);
    }
}

/// The numbers of a release are those of every version that names it, but for zeros
/// at the end.
proof fn named_numbers(release: Release, text: Seq<char>)
    requires
        release.is_named_by(text),
    ensures
        numbers(text) is Some,
        text == release.text() <==> numbers(text)->0.len() == 3,
        text + ".0"@ == release.text() <==> numbers(text)->0.len() == 2,
        text + ".0.0"@ == release.text() <==> numbers(text)->0.len() == 1,
        forall|i: int| #[trigger] number_at(numbers(text)->0, i) == number_at(release.numbers(), i),
{
    release_numbers(release);
    two_zeros(text);
    zero_behind(text);
    zero_behind(text + ".0"@);
    let found = numbers(text)->0;
    if text + ".0"@ == release.text() {
        assert(found.push(0) == release.numbers());
        assert(release.numbers()[0] == found.push(0)[0] && release.numbers()[1] == found.push(0)[1]
            && release.numbers()[2] == found.push(0)[2]);
    }
    if text + ".0.0"@ == release.text() {
        let longer = found.push(0).push(0);
        assert(longer == release.numbers());
        assert(release.numbers()[0] == longer[0] && release.numbers()[1] == longer[1]
            && release.numbers()[2] == longer[2]);
    }
}

proof fn two_zeros(text: Seq<char>)
    ensures
        text + ".0"@ + ".0"@ == text + ".0.0"@,
{
    reveal_strlit(".0");
    reveal_strlit(".0.0");
}

/// A version names at most one release.
pub proof fn named_release_is_unique(text: Seq<char>, left: Release, right: Release)
    requires
        left.is_named_by(text),
        right.is_named_by(text),
    ensures
        left == right,
{
    named_numbers(left, text);
    named_numbers(right, text);
    let found = numbers(text)->0;
    assert(number_at(found, 0) == left.numbers()[0] && number_at(found, 0) == right.numbers()[0]);
    assert(number_at(found, 1) == left.numbers()[1] && number_at(found, 1) == right.numbers()[1]);
    assert(number_at(found, 2) == left.numbers()[2] && number_at(found, 2) == right.numbers()[2]);
}

/// What a list of parts writes down.
spec fn part_numbers(parts: Seq<Vec<char>>) -> Seq<nat> {
    Seq::new(parts.len(), |i: int| number(parts[i]@))
}

/// The characters from `start` up to the next dot.
fn part_at(characters: &Vec<char>, start: usize) -> (part: Vec<char>)
    requires
        start <= characters.len(),
    ensures
        part@ == text::until(characters@.skip(start as int), '.'),
        start + part.len() <= characters.len(),
{
    let ghost from = characters@.skip(start as int);
    let mut part: Vec<char> = Vec::new();
    while start + part.len() < characters.len() && characters[start + part.len()] != '.'
        invariant
            start + part.len() <= characters.len(),
            from == characters@.skip(start as int),
            part@ == from.take(part.len() as int),
            !part@.contains('.'),
        decreases characters.len() - start - part.len(),
    {
        let c = characters[start + part.len()];
        let ghost before = part@;
        part.push(c);
        assert(part@ == from.take(part.len() as int));
        assert forall|k: int| 0 <= k < part.len() implies #[trigger] part@[k] != '.' by {
            if k < before.len() {
                assert(before.contains(part@[k]));
            }
        }
    }
    proof {
        let rest = from.skip(part.len() + 1);
        text::lemma_until(part@, '.', rest);
        if part.len() < from.len() {
            assert(from == part@ + seq!['.'] + rest);
        } else {
            assert(from == part@);
        }
    }
    part
}

fn is_number_text(text: &Vec<char>) -> (result: bool)
    ensures
        result == is_number(text@),
{
    for i in 0..text.len()
        invariant
            forall|k: int| 0 <= k < i ==> '0' <= #[trigger] text@[k] <= '9',
    {
        let c = text[i];
        if c < '0' || c > '9' {
            assert(!('0' <= text@[i as int] <= '9'));
            return false;
        }
    }
    text.len() > 0
}

/// The parts of a version: its numbers in decimal.
fn parts_from(version: &str) -> (result: Option<Vec<Vec<char>>>)
    ensures
        match result {
            Some(parts) => numbers(version@) == Some(part_numbers(parts@)) && forall|i: int|
                0 <= i < parts.len() ==> is_number(#[trigger] parts@[i]@),
            None => numbers(version@) is None,
        },
{
    let characters = text::characters(version);
    let mut parts: Vec<Vec<char>> = Vec::new();
    let mut start: usize = 0;
    proof {
        assert(characters@.skip(0) == characters@);
        assert(part_numbers(parts@) == Seq::<nat>::empty());
        if numbers(version@) is Some {
            assert(Seq::<nat>::empty() + numbers(version@)->0 == numbers(version@)->0);
        }
    }
    loop
        invariant
            characters@ == version@,
            start <= characters.len(),
            forall|i: int| 0 <= i < parts.len() ==> is_number(#[trigger] parts@[i]@),
            numbers(version@) == match numbers(characters@.skip(start as int)) {
                Some(rest) => Some(part_numbers(parts@) + rest),
                None => None,
            },
        decreases characters.len() - start,
    {
        let ghost from = characters@.skip(start as int);
        let ghost before = part_numbers(parts@);
        let part = part_at(&characters, start);
        if !is_number_text(&part) {
            return None;
        }
        let end = start + part.len();
        let ghost first = number(part@);
        parts.push(part);
        assert(part_numbers(parts@) == before.push(first));
        if end == characters.len() {
            assert(before + seq![first] == before.push(first));
            return Some(parts);
        }
        start = end + 1;
        proof {
            let rest = characters@.skip(start as int);
            assert(from.skip(part@.len() as int + 1) == rest);
            if numbers(rest) is Some {
                assert(before + (seq![first] + numbers(rest)->0) == before.push(first) + numbers(
                    rest,
                )->0);
            }
        }
    }
}

/// The release that a version of one, two or three numbers names, where its numbers
/// are written without leading zeros and have 64 bits.
pub fn release_from(version: &str) -> (result: Option<Release>)
    ensures
        match result {
            Some(release) => release.is_named_by(version@),
            None => forall|release: Release| !(#[trigger] release.is_named_by(version@)),
        },
{
    let parts = match parts_from(version) {
        Some(parts) => parts,
        None => {
            assert forall|release: Release| !(#[trigger] release.is_named_by(version@)) by {
                if release.is_named_by(version@) {
                    named_numbers(release, version@);
                }
            }
            return None;
        },
    };
    assert forall|release: Release| #[trigger] release.is_named_by(version@) implies (version@
        == release.text() <==> parts.len() == 3) && (version@ + ".0"@ == release.text()
        <==> parts.len() == 2) && (version@ + ".0.0"@ == release.text() <==> parts.len() == 1) by {
        named_numbers(release, version@);
    }
    let mut whole = version.to_owned();
    if parts.len() == 1 {
        whole.append(".0.0");
    } else if parts.len() == 2 {
        whole.append(".0");
    } else if parts.len() != 3 {
        return None;
    }
    proof {
        zero_behind(version@);
        zero_behind(version@ + ".0"@);
        two_zeros(version@);
        assert forall|i: int| 0 <= i < whole@.len() implies #[trigger] whole@[i] != '-' && whole@[i]
            != '+' by {
            versions_hold_digits_and_dots(whole@, i);
        }
    }
    parse_release(whole.as_str())
}

proof fn leading_zero_counts_nothing(digits: Seq<char>)
    requires
        digits.len() > 0,
        digits[0] == '0',
    ensures
        number(digits) == number(digits.drop_first()),
    decreases digits.len(),
{
    if digits.len() > 1 {
        leading_zero_counts_nothing(digits.drop_last());
        assert(digits.drop_last().drop_first() == digits.drop_first().drop_last());
    } else {
        assert(number(digits.drop_last()) == 0);
    }
}

proof fn more_digits_are_greater(left: Seq<char>, right: Seq<char>)
    requires
        is_number(left),
        left[0] != '0',
        forall|i: int| 0 <= i < right.len() ==> '0' <= #[trigger] right[i] <= '9',
        left.len() > right.len(),
    ensures
        number(left) > number(right),
    decreases left.len(),
{
    if left.len() > 1 {
        let shorter = if right.len() > 0 {
            right.drop_last()
        } else {
            right
        };
        more_digits_are_greater(left.drop_last(), shorter);
    }
}

proof fn greater_digit_is_greater(left: Seq<char>, right: Seq<char>, i: int)
    requires
        forall|k: int| 0 <= k < left.len() ==> '0' <= #[trigger] left[k] <= '9',
        forall|k: int| 0 <= k < right.len() ==> '0' <= #[trigger] right[k] <= '9',
        left.len() == right.len(),
        0 <= i < left.len(),
        left[i] > right[i],
        forall|k: int| 0 <= k < i ==> left[k] == right[k],
    ensures
        number(left) > number(right),
    decreases left.len(),
{
    if i == left.len() - 1 {
        assert(left.drop_last() == right.drop_last());
    } else {
        greater_digit_is_greater(left.drop_last(), right.drop_last(), i);
    }
}

/// The position of the first digit that is not zero.
fn first_significant(digits: &Vec<char>) -> (start: usize)
    ensures
        start <= digits.len(),
        start < digits.len() ==> digits[start as int] != '0',
        number(digits@) == number(digits@.skip(start as int)),
{
    let mut start: usize = 0;
    assert(digits@.skip(0) == digits@);
    while start < digits.len() && digits[start] == '0'
        invariant
            start <= digits.len(),
            number(digits@) == number(digits@.skip(start as int)),
        decreases digits.len() - start,
    {
        proof {
            leading_zero_counts_nothing(digits@.skip(start as int));
        }
        assert(digits@.skip(start as int).drop_first() == digits@.skip(start + 1));
        start += 1;
    }
    start
}

/// How two numbers in decimal are ordered.
fn number_order(left: &Vec<char>, right: &Vec<char>) -> (result: Order)
    requires
        forall|i: int| 0 <= i < left.len() ==> '0' <= #[trigger] left@[i] <= '9',
        forall|i: int| 0 <= i < right.len() ==> '0' <= #[trigger] right@[i] <= '9',
    ensures
        match result {
            Order::Before => number(left@) < number(right@),
            Order::Same => number(left@) == number(right@),
            Order::After => number(left@) > number(right@),
        },
{
    let left_start = first_significant(left);
    let right_start = first_significant(right);
    let left_len = left.len() - left_start;
    let right_len = right.len() - right_start;
    let ghost a = left@.skip(left_start as int);
    let ghost b = right@.skip(right_start as int);
    if left_len < right_len {
        proof {
            more_digits_are_greater(b, a);
        }
        return Order::Before;
    }
    if left_len > right_len {
        proof {
            more_digits_are_greater(a, b);
        }
        return Order::After;
    }
    for i in 0..left_len
        invariant
            left_start + left_len == left.len(),
            right_start + left_len == right.len(),
            a == left@.skip(left_start as int),
            b == right@.skip(right_start as int),
            number(left@) == number(a),
            number(right@) == number(b),
            forall|k: int| 0 <= k < a.len() ==> '0' <= #[trigger] a[k] <= '9',
            forall|k: int| 0 <= k < b.len() ==> '0' <= #[trigger] b[k] <= '9',
            forall|k: int| 0 <= k < i ==> a[k] == b[k],
    {
        let x = left[left_start + i];
        let y = right[right_start + i];
        assert(x == a[i as int] && y == b[i as int]);
        if x < y {
            proof {
                greater_digit_is_greater(b, a, i as int);
            }
            return Order::Before;
        }
        if x > y {
            proof {
                greater_digit_is_greater(a, b, i as int);
            }
            return Order::After;
        }
    }
    assert(a == b);
    Order::Same
}

/// The part at a position. A part that is not written holds no digit.
fn part_or_empty(parts: &Vec<Vec<char>>, i: usize) -> (part: Vec<char>)
    requires
        forall|k: int| 0 <= k < parts.len() ==> is_number(#[trigger] parts@[k]@),
    ensures
        number(part@) == number_at(part_numbers(parts@), i as int),
        forall|k: int| 0 <= k < part.len() ==> '0' <= #[trigger] part@[k] <= '9',
{
    if i < parts.len() {
        let part = parts[i].clone();
        assert(part@ == parts@[i as int]@);
        assert(is_number(parts@[i as int]@));
        part
    } else {
        Vec::new()
    }
}

/// Whether one list of parts is later than another.
fn parts_are_later(left: &Vec<Vec<char>>, right: &Vec<Vec<char>>) -> (result: bool)
    requires
        forall|k: int| 0 <= k < left.len() ==> is_number(#[trigger] left@[k]@),
        forall|k: int| 0 <= k < right.len() ==> is_number(#[trigger] right@[k]@),
    ensures
        result == later(part_numbers(left@), part_numbers(right@)),
{
    let ghost a = part_numbers(left@);
    let ghost b = part_numbers(right@);
    let count = if left.len() > right.len() {
        left.len()
    } else {
        right.len()
    };
    for i in 0..count
        invariant
            a == part_numbers(left@),
            b == part_numbers(right@),
            forall|k: int| 0 <= k < left.len() ==> is_number(#[trigger] left@[k]@),
            forall|k: int| 0 <= k < right.len() ==> is_number(#[trigger] right@[k]@),
            forall|k: int| 0 <= k < i ==> #[trigger] number_at(a, k) == number_at(b, k),
    {
        match number_order(&part_or_empty(left, i), &part_or_empty(right, i)) {
            Order::After => {
                assert(is_greater_from(a, b, i as int));
                return true;
            },
            Order::Before => {
                assert forall|k: int| !(#[trigger] is_greater_from(a, b, k)) by {
                    if k > i {
                        assert(number_at(a, i as int) != number_at(b, i as int));
                    }
                }
                return false;
            },
            Order::Same => {},
        }
    }
    false
}

/// A version that was read.
struct Version {
    /// The digits of its numbers.
    parts: Vec<Vec<char>>,
    /// The release that it names. Two releases are compared without their digits.
    release: Option<Release>,
}

impl Version {
    spec fn numbers(self) -> Seq<nat> {
        part_numbers(self.parts@)
    }

    spec fn well_formed(self) -> bool {
        &&& forall|k: int| 0 <= k < self.parts.len() ==> is_number(#[trigger] self.parts@[k]@)
        &&& self.release matches Some(release) ==> forall|i: int| #[trigger]
            number_at(self.numbers(), i) == number_at(release.numbers(), i)
    }

    fn read(text: &str) -> (result: Option<Version>)
        ensures
            match result {
                Some(version) => version.well_formed() && numbers(text@) == Some(version.numbers()),
                None => numbers(text@) is None,
            },
    {
        match parts_from(text) {
            Some(parts) => {
                let release = release_from(text);
                proof {
                    if let Some(release) = release {
                        named_numbers(release, text@);
                    }
                }
                Some(Version { parts, release })
            },
            None => None,
        }
    }

    fn is_later_than(&self, other: &Version) -> (result: bool)
        requires
            self.well_formed(),
            other.well_formed(),
        ensures
            result == later(self.numbers(), other.numbers()),
    {
        match (&self.release, &other.release) {
            (Some(left), Some(right)) => {
                proof {
                    same_numbers_same_order(
                        self.numbers(),
                        left.numbers(),
                        other.numbers(),
                        right.numbers(),
                    );
                }
                left.is_later_than(right)
            },
            _ => parts_are_later(&self.parts, &other.parts),
        }
    }
}

proof fn same_numbers_same_order(
    left: Seq<nat>,
    same_left: Seq<nat>,
    right: Seq<nat>,
    same_right: Seq<nat>,
)
    requires
        forall|i: int| #[trigger] number_at(left, i) == number_at(same_left, i),
        forall|i: int| #[trigger] number_at(right, i) == number_at(same_right, i),
    ensures
        later(left, right) == later(same_left, same_right),
{
    assert forall|i: int|
        #![trigger is_greater_from(left, right, i)]
        #![trigger is_greater_from(same_left, same_right, i)]
        is_greater_from(left, right, i) == is_greater_from(same_left, same_right, i) by {
        assert(forall|j: int| number_at(left, j) == #[trigger] number_at(same_left, j));
    }
}

/// A zero at the end of a version makes it neither later nor earlier.
pub proof fn zeros_at_the_end_count_nothing(numbers: Seq<nat>)
    ensures
        !later(numbers, numbers.push(0)),
        !later(numbers.push(0), numbers),
{
    assert forall|i: int| number_at(numbers, i) == number_at(numbers.push(0), i) by {}
}

/// Of two versions at most one is later than the other.
pub proof fn later_is_asymmetric(left: Seq<nat>, right: Seq<nat>)
    ensures
        !(later(left, right) && later(right, left)),
{
    if later(left, right) && later(right, left) {
        let i = choose|i: int| #[trigger] is_greater_from(left, right, i);
        let k = choose|k: int| #[trigger] is_greater_from(right, left, k);
        if i < k {
            assert(number_at(right, i) == number_at(left, i));
        } else if k < i {
            assert(number_at(left, k) == number_at(right, k));
        }
    }
}

proof fn later_from(left: Seq<nat>, middle: Seq<nat>, right: Seq<nat>, i: int, from: int)
    requires
        is_greater_from(left, right, i),
        0 <= from <= i,
        forall|j: int| 0 <= j < from ==> #[trigger] number_at(left, j) == number_at(middle, j),
    ensures
        later(left, middle) || later(middle, right),
    decreases i - from,
{
    if number_at(left, from) > number_at(middle, from) {
        assert(is_greater_from(left, middle, from));
    } else if number_at(middle, from) > number_at(right, from) {
        assert forall|j: int| 0 <= j < from implies #[trigger] number_at(middle, j) == number_at(
            right,
            j,
        ) by {
            assert(number_at(left, j) == number_at(middle, j));
        }
        assert(is_greater_from(middle, right, from));
    } else {
        later_from(left, middle, right, i, from + 1);
    }
}

/// Where a version is later than another, any third one is later than the other or
/// earlier than the one.
pub proof fn later_separates(left: Seq<nat>, middle: Seq<nat>, right: Seq<nat>)
    requires
        later(left, right),
    ensures
        later(left, middle) || later(middle, right),
{
    let i = choose|i: int| #[trigger] is_greater_from(left, right, i);
    later_from(left, middle, right, i, 0);
}

/// The order of versions is transitive.
pub proof fn later_is_transitive(left: Seq<nat>, middle: Seq<nat>, right: Seq<nat>)
    requires
        later(left, middle),
        later(middle, right),
    ensures
        later(left, right),
{
    later_separates(left, right, middle);
    later_is_asymmetric(middle, right);
}

/// Whether the version at a position in a list is later than each one behind it.
pub open spec fn is_later_than_rest(named: Seq<Seq<char>>, i: int) -> bool {
    forall|k: int|
        i < k < named.len() && numbers(#[trigger] named[k]) is Some ==> later(
            numbers(named[i])->0,
            numbers(named[k])->0,
        )
}

/// Whether `latest` is the latest version that a list names: a version, and none that
/// is named is later. Of versions with the same numbers it is the one named last.
pub open spec fn is_latest(latest: Seq<char>, named: Seq<Seq<char>>) -> bool {
    &&& named.contains(latest)
    &&& numbers(latest) is Some
    &&& forall|version: Seq<char>| #[trigger]
        named.contains(version) && numbers(version) is Some ==> !later(
            numbers(version)->0,
            numbers(latest)->0,
        )
    &&& exists|i: int|
        0 <= i < named.len() && named[i] == latest && #[trigger] is_later_than_rest(named, i)
}

/// Whether a list names no version.
pub open spec fn names_no_version(named: Seq<Seq<char>>) -> bool {
    forall|version: Seq<char>| #[trigger] named.contains(version) ==> numbers(version) is None
}

/// A list names at most one latest version.
pub proof fn latest_is_unique(left: Seq<char>, right: Seq<char>, named: Seq<Seq<char>>)
    requires
        is_latest(left, named),
        is_latest(right, named),
    ensures
        left == right,
{
    let i = choose|i: int|
        0 <= i < named.len() && named[i] == left && #[trigger] is_later_than_rest(named, i);
    let k = choose|k: int|
        0 <= k < named.len() && named[k] == right && #[trigger] is_later_than_rest(named, k);
    if i < k {
        assert(later(numbers(named[i])->0, numbers(named[k])->0));
    } else if k < i {
        assert(later(numbers(named[k])->0, numbers(named[i])->0));
    }
}

/// A list that names a version names a latest one.
pub proof fn some_version_is_latest(named: Seq<Seq<char>>)
    requires
        !names_no_version(named),
    ensures
        exists|latest: Seq<char>| is_latest(latest, named),
    decreases named.len(),
{
    let before = named.drop_last();
    let last = named.last();
    assert(named == before.push(last));
    if names_no_version(before) {
        pushed(before, last);
        no_version_before(before, last);
        assert(is_latest(last, named));
    } else {
        some_version_is_latest(before);
        let latest = choose|latest: Seq<char>| is_latest(latest, before);
        pushed(before, last);
        if numbers(last) is Some && !later(numbers(latest)->0, numbers(last)->0) {
            last_is_latest(before, latest, last);
            assert(is_latest(last, named));
        } else {
            latest_stays(before, latest, last);
            assert(is_latest(latest, named));
        }
    }
}

proof fn pushed(before: Seq<Seq<char>>, last: Seq<char>)
    ensures
        forall|version: Seq<char>| #[trigger]
            before.push(last).contains(version) <==> before.contains(version) || version == last,
{
    let after = before.push(last);
    assert(after[before.len() as int] == last);
    assert forall|version: Seq<char>| #[trigger] after.contains(version) <==> before.contains(
        version,
    ) || version == last by {
        if before.contains(version) {
            assert(after[before.index_of(version)] == version);
        }
        if after.contains(version) && version != last {
            assert(before[after.index_of(version)] == version);
        }
    }
}

proof fn no_version_before(before: Seq<Seq<char>>, last: Seq<char>)
    requires
        names_no_version(before),
    ensures
        numbers(last) is Some ==> is_latest(last, before.push(last)),
        numbers(last) is None ==> names_no_version(before.push(last)),
{
    pushed(before, last);
    let after = before.push(last);
    if numbers(last) is Some {
        later_is_asymmetric(numbers(last)->0, numbers(last)->0);
    }
    assert(after[before.len() as int] == last);
    assert(is_later_than_rest(after, before.len() as int));
}

proof fn last_is_latest(before: Seq<Seq<char>>, latest: Seq<char>, last: Seq<char>)
    requires
        is_latest(latest, before),
        numbers(last) is Some,
        !later(numbers(latest)->0, numbers(last)->0),
    ensures
        is_latest(last, before.push(last)),
{
    pushed(before, last);
    let after = before.push(last);
    assert forall|version: Seq<char>| #[trigger] after.contains(version) && numbers(
        version,
    ) is Some implies !later(numbers(version)->0, numbers(last)->0) by {
        if later(numbers(version)->0, numbers(last)->0) {
            later_separates(numbers(version)->0, numbers(latest)->0, numbers(last)->0);
            later_is_asymmetric(numbers(version)->0, numbers(last)->0);
            assert(before.contains(version));
        }
    }
    assert(after[before.len() as int] == last);
    assert(is_later_than_rest(after, before.len() as int));
}

proof fn latest_stays(before: Seq<Seq<char>>, latest: Seq<char>, last: Seq<char>)
    requires
        is_latest(latest, before),
        numbers(last) is Some ==> later(numbers(latest)->0, numbers(last)->0),
    ensures
        is_latest(latest, before.push(last)),
{
    pushed(before, last);
    let after = before.push(last);
    if numbers(last) is Some {
        later_is_asymmetric(numbers(latest)->0, numbers(last)->0);
    }
    let i = choose|i: int|
        0 <= i < before.len() && before[i] == latest && #[trigger] is_later_than_rest(before, i);
    assert(after[i] == latest);
    assert forall|k: int| i < k < after.len() && numbers(#[trigger] after[k]) is Some implies later(
        numbers(after[i])->0,
        numbers(after[k])->0,
    ) by {
        if k < before.len() {
            assert(after[k] == before[k]);
        }
    }
    assert(is_later_than_rest(after, i));
}

/// The latest version that a list names.
pub fn latest_version(named: &Vec<String>) -> (result: Option<String>)
    ensures
        match result {
            Some(latest) => is_latest(latest@, text::views(named@)),
            None => names_no_version(text::views(named@)),
        },
{
    let ghost all = text::views(named@);
    let mut latest: Option<(usize, Version)> = None;
    for i in 0..named.len()
        invariant
            all == text::views(named@),
            match latest {
                Some((at, version)) => at < i && version.well_formed() && numbers(all[at as int])
                    == Some(version.numbers()) && is_latest(all[at as int], all.take(i as int)),
                None => names_no_version(all.take(i as int)),
            },
    {
        let ghost before = all.take(i as int);
        let ghost last = all[i as int];
        assert(all.take(i + 1) == before.push(last));
        assert(last == named@[i as int]@);
        match Version::read(named[i].as_str()) {
            Some(version) => {
                let stays = match &latest {
                    Some((_, latest)) => latest.is_later_than(&version),
                    None => false,
                };
                proof {
                    match latest {
                        Some((at, _)) => if stays {
                            latest_stays(before, all[at as int], last);
                        } else {
                            last_is_latest(before, all[at as int], last);
                        },
                        None => no_version_before(before, last),
                    }
                }
                if !stays {
                    latest = Some((i, version));
                }
            },
            None => {
                proof {
                    match latest {
                        Some((at, _)) => latest_stays(before, all[at as int], last),
                        None => no_version_before(before, last),
                    }
                }
            },
        }
    }
    assert(all.take(all.len() as int) == all);
    match latest {
        Some((at, _)) => Some(named[at].clone()),
        None => None,
    }
}

/// Each digit writes its own number, and digits behind a number shift it by their
/// count.
pub proof fn numbers_are_decimal(left: Seq<char>, right: Seq<char>)
    ensures
        number(left + right) == number(left) * vstd::arithmetic::power::pow(
            10,
            right.len(),
        ) + number(right),
        forall|i: int| 0 <= i < 10 ==> number(seq![#[trigger] "0123456789"@[i]]) == i,
        forall|i: int| 0 <= i < 10 ==> is_number(seq![#[trigger] "0123456789"@[i]]),
    decreases right.len(),
{
    reveal_strlit("0123456789");
    assert forall|i: int| 0 <= i < 10 implies number(seq![#[trigger] "0123456789"@[i]]) == i by {
        let digit = seq!["0123456789"@[i]];
        assert(digit.drop_last().len() == 0);
        assert(number(digit.drop_last()) == 0);
    }
    if right.len() == 0 {
        assert(left + right == left);
        vstd::arithmetic::power::lemma_pow0(10);
    } else {
        let shorter = right.drop_last();
        numbers_are_decimal(left, shorter);
        assert((left + right).drop_last() == left + shorter);
        assert((left + right).last() == right.last());
        let power = vstd::arithmetic::power::pow(10, shorter.len());
        reveal(vstd::arithmetic::power::pow);
        assert(vstd::arithmetic::power::pow(10, right.len()) == 10 * power);
        assert((number(left) * power) * 10 == number(left) * (10 * power)) by (nonlinear_arith);
    }
}

/// Which texts write numbers: those that hold at least one character and nothing but
/// the ten digits.
pub proof fn digits_write_numbers(text: Seq<char>)
    ensures
        is_number(text) <==> text.len() > 0 && forall|i: int|
            0 <= i < text.len() ==> "0123456789"@.contains(#[trigger] text[i]),
{
    reveal_strlit("0123456789");
    let digits = "0123456789"@;
    if is_number(text) {
        assert forall|i: int| 0 <= i < text.len() implies digits.contains(
            #[trigger] text[i],
        ) by {
            assert(digits[text[i] as int - 48] == text[i]);
        }
    }
    if text.len() > 0 && forall|i: int| 0 <= i < text.len() ==> digits.contains(#[trigger] text[i]) {
        assert forall|i: int| 0 <= i < text.len() implies '0' <= #[trigger] text[i] <= '9' by {
            let k = digits.index_of(text[i]);
            assert(digits[k] == text[i]);
        }
    }
}

/// A number is written in decimal without leading zeros, and reads back as itself.
pub proof fn decimals_read_back(n: nat)
    ensures
        is_number(text::decimal(n)),
        number(text::decimal(n)) == n,
        text::decimal(n)[0] == '0' ==> text::decimal(n).len() == 1,
    decreases n,
{
    decimal_is_a_number(n);
    if n >= 10 {
        decimals_read_back(n / 10);
        assert(text::decimal(n)[0] == text::decimal(n / 10)[0]);
        if text::decimal(n / 10)[0] == '0' {
            let shorter = text::decimal(n / 10);
            assert(shorter == seq!['0']);
            assert(number(shorter.drop_last()) == 0);
            assert(number(shorter) == 0);
        }
    }
}

/// Numbers in decimal with a dot between each two are a version with these numbers.
pub proof fn dotted_numbers_are_versions(parts: Seq<Seq<char>>)
    requires
        parts.len() > 0,
        forall|i: int| 0 <= i < parts.len() ==> is_number(#[trigger] parts[i]),
    ensures
        numbers(text::joined(parts, "."@)) == Some(
            Seq::new(parts.len(), |i: int| number(parts[i])),
        ),
    decreases parts.len(),
{
    reveal_strlit(".");
    let found = Seq::new(parts.len(), |i: int| number(parts[i]));
    assert(is_number(parts[0]));
    if parts.len() == 1 {
        numbers_from_first(parts[0], Seq::empty());
        assert(found == seq![number(parts[0])]);
    } else {
        let rest = parts.skip(1);
        assert(seq![parts[0]] + rest == parts);
        text::joined_lists_join(seq![parts[0]], rest, "."@);
        assert("."@ == seq!['.']);
        dotted_numbers_are_versions(rest);
        numbers_from_first(parts[0], text::joined(rest, "."@));
        let rest_found = Seq::new(rest.len(), |i: int| number(rest[i]));
        assert(found == seq![number(parts[0])] + rest_found);
    }
}

/// Whether a text is made of parts with a dot between each two, each a number.
pub open spec fn is_dotted(text: Seq<char>, parts: Seq<Seq<char>>) -> bool {
    &&& parts.len() > 0
    &&& text == text::joined(parts, "."@)
    &&& forall|i: int| 0 <= i < parts.len() ==> is_number(#[trigger] parts[i])
}

/// Every version is made of numbers in decimal with a dot between each two.
pub proof fn versions_are_dotted_numbers(text: Seq<char>)
    requires
        numbers(text) is Some,
    ensures
        exists|parts: Seq<Seq<char>>| #[trigger] is_dotted(text, parts),
    decreases text.len(),
{
    reveal_strlit(".");
    let first = text::until(text, '.');
    text::until_is_prefix(text, '.');
    if first.len() >= text.len() {
        assert(first == text);
        assert(text::joined(seq![text], "."@) == text);
        assert(is_dotted(text, seq![text]));
    } else {
        let rest = text.skip(first.len() as int + 1);
        versions_are_dotted_numbers(rest);
        let parts = choose|parts: Seq<Seq<char>>| #[trigger] is_dotted(rest, parts);
        let whole = seq![first] + parts;
        text::joined_lists_join(seq![first], parts, "."@);
        assert("."@ == seq!['.']);
        assert(text == first + seq!['.'] + rest);
        assert forall|i: int| 0 <= i < whole.len() implies is_number(#[trigger] whole[i]) by {
            if i > 0 {
                assert(whole[i] == parts[i - 1]);
            }
        }
        assert(is_dotted(text, whole));
    }
}

/// Two versions are ordered by the first numbers in which they differ, whatever
/// follows.
pub proof fn first_difference_decides(
    head: Seq<nat>,
    greater: nat,
    greater_rest: Seq<nat>,
    smaller: nat,
    smaller_rest: Seq<nat>,
)
    requires
        greater > smaller,
    ensures
        later(head + seq![greater] + greater_rest, head + seq![smaller] + smaller_rest),
        !later(head + seq![smaller] + smaller_rest, head + seq![greater] + greater_rest),
{
    let left = head + seq![greater] + greater_rest;
    let right = head + seq![smaller] + smaller_rest;
    assert forall|j: int| 0 <= j < head.len() implies #[trigger] number_at(left, j) == number_at(
        right,
        j,
    ) by {
        assert(left[j] == head[j] && right[j] == head[j]);
    }
    assert(is_greater_from(left, right, head.len() as int));
    later_is_asymmetric(left, right);
}

/// Zeros that are written at the end of a version change its place among no other
/// versions.
pub proof fn zeros_at_the_end_keep_the_order(left: Seq<nat>, right: Seq<nat>)
    ensures
        later(left.push(0), right) == later(left, right),
        later(left, right.push(0)) == later(left, right),
        !later(left, left),
{
    assert forall|i: int| #[trigger] number_at(left.push(0), i) == number_at(left, i) by {}
    assert forall|i: int| #[trigger] number_at(right.push(0), i) == number_at(right, i) by {}
    same_numbers_same_order(left.push(0), left, right, right);
    same_numbers_same_order(left, left, right.push(0), right);
    later_is_asymmetric(left, left);
}

/// Of two releases the one with the greater major number is later, then the one with
/// the greater minor number, then the one with the greater patch number.
pub proof fn releases_are_ordered_number_by_number(
    major: nat,
    minor: nat,
    patch: nat,
    other_major: nat,
    other_minor: nat,
    other_patch: nat,
)
    ensures
        later(seq![major, minor, patch], seq![other_major, other_minor, other_patch]) <==> major
            > other_major || (major == other_major && minor > other_minor) || (major == other_major
            && minor == other_minor && patch > other_patch),
{
    let left = seq![major, minor, patch];
    let right = seq![other_major, other_minor, other_patch];
    let none = Seq::<nat>::empty();
    assert(left == none + seq![major] + seq![minor, patch]);
    assert(right == none + seq![other_major] + seq![other_minor, other_patch]);
    if major > other_major {
        first_difference_decides(
            none,
            major,
            seq![minor, patch],
            other_major,
            seq![other_minor, other_patch],
        );
    } else if major < other_major {
        first_difference_decides(
            none,
            other_major,
            seq![other_minor, other_patch],
            major,
            seq![minor, patch],
        );
    } else {
        let head = seq![major];
        assert(left == head + seq![minor] + seq![patch]);
        assert(right == head + seq![other_minor] + seq![other_patch]);
        if minor > other_minor {
            first_difference_decides(head, minor, seq![patch], other_minor, seq![other_patch]);
        } else if minor < other_minor {
            first_difference_decides(head, other_minor, seq![other_patch], minor, seq![patch]);
        } else {
            let head = seq![major, minor];
            assert(left == head + seq![patch] + none);
            assert(right == head + seq![other_patch] + none);
            if patch > other_patch {
                first_difference_decides(head, patch, none, other_patch, none);
            } else if patch < other_patch {
                first_difference_decides(head, other_patch, none, patch, none);
            } else {
                zeros_at_the_end_keep_the_order(left, right);
            }
        }
    }
}

/// A release stands for its three numbers, and its text is these numbers in decimal
/// with dots between them.
pub proof fn releases_stand_for_their_numbers(release: Release)
    ensures
        release.numbers() == seq![
            release.major as nat,
            release.minor as nat,
            release.patch as nat,
        ],
        release.text() == text::joined(
            seq![
                text::decimal(release.major as nat),
                text::decimal(release.minor as nat),
                text::decimal(release.patch as nat),
            ],
            "."@,
        ),
{
    reveal_strlit(".");
    let major = text::decimal(release.major as nat);
    let minor = text::decimal(release.minor as nat);
    let patch = text::decimal(release.patch as nat);
    text::joined_lists_join(seq![minor], seq![patch], "."@);
    assert(seq![minor] + seq![patch] == seq![minor, patch]);
    text::joined_lists_join(seq![patch], seq![minor], "."@);
    text::joined_lists_join(seq![major], seq![minor, patch], "."@);
    assert(seq![major] + seq![minor, patch] == seq![major, minor, patch]);
    assert("."@ == seq!['.']);
    assert(release.text() == major + "."@ + (minor + "."@ + patch));
}

/// A release is named by its numbers in decimal with dots between them, and by these
/// without a zero at the end, where what is left has a number.
pub proof fn releases_are_named_by_their_numbers(major: u64, minor: u64, patch: u64)
    ensures
        (Release { major, minor, patch }).is_named_by(
            text::decimal(major as nat) + "."@ + text::decimal(minor as nat) + "."@
                + text::decimal(patch as nat),
        ),
        (Release { major, minor, patch: 0 }).is_named_by(
            text::decimal(major as nat) + "."@ + text::decimal(minor as nat),
        ),
        (Release { major, minor: 0, patch: 0 }).is_named_by(text::decimal(major as nat)),
{
    reveal_strlit(".");
    reveal_strlit(".0");
    reveal_strlit(".0.0");
    let a = text::decimal(major as nat);
    let b = text::decimal(minor as nat);
    let zero = text::decimal(0);
    assert(zero == seq!['0']);
    assert(a + "."@ + b + "."@ + text::decimal(patch as nat) == (Release {
        major,
        minor,
        patch,
    }).text());
    assert(a + "."@ + b + ".0"@ == (Release { major, minor, patch: 0 }).text());
    assert(a + ".0.0"@ == (Release { major, minor: 0, patch: 0 }).text());
}

/// The latest version that a list names is one of the texts in the list, it has
/// numbers, and no version in the list is later.
pub proof fn nothing_named_is_later(latest: Seq<char>, named: Seq<Seq<char>>, k: int)
    requires
        is_latest(latest, named),
        0 <= k < named.len(),
    ensures
        exists|i: int| 0 <= i < named.len() && #[trigger] named[i] == latest,
        numbers(latest) is Some,
        numbers(named[k]) is Some ==> !later(numbers(named[k])->0, numbers(latest)->0),
{
    assert(named.contains(named[k]));
}

/// The latest version of a list is the one than which none before it is later, and
/// which is later than each one behind it.
pub proof fn greatest_and_last_is_latest(named: Seq<Seq<char>>, i: int, latest: Seq<char>)
    requires
        0 <= i < named.len(),
        numbers(named[i]) is Some,
        forall|k: int|
            0 <= k < i && numbers(#[trigger] named[k]) is Some ==> !later(
                numbers(named[k])->0,
                numbers(named[i])->0,
            ),
        forall|k: int|
            i < k < named.len() && numbers(#[trigger] named[k]) is Some ==> later(
                numbers(named[i])->0,
                numbers(named[k])->0,
            ),
    ensures
        is_latest(latest, named) <==> latest == named[i],
        !names_no_version(named),
{
    assert(named.contains(named[i]));
    assert forall|version: Seq<char>| #[trigger] named.contains(version) && numbers(
        version,
    ) is Some implies !later(numbers(version)->0, numbers(named[i])->0) by {
        let k = named.index_of(version);
        assert(named[k] == version);
        later_is_asymmetric(numbers(version)->0, numbers(named[i])->0);
    }
    assert(is_later_than_rest(named, i));
    assert(is_latest(named[i], named));
    if is_latest(latest, named) {
        latest_is_unique(latest, named[i], named);
    }
}

/// A text that names a release is a version of at most three numbers, neither later
/// nor earlier than the release, and the text of the release starts with it.
pub proof fn named_releases_have_the_numbers(release: Release, text: Seq<char>)
    requires
        release.is_named_by(text),
    ensures
        numbers(text) is Some,
        numbers(text)->0.len() <= 3,
        !later(numbers(text)->0, release.numbers()),
        !later(release.numbers(), numbers(text)->0),
        text::has_prefix(release.text(), text),
{
    text::prefix_has_a_rest(release.text(), text, Seq::empty());
    text::prefix_has_a_rest(release.text(), text, ".0"@);
    text::prefix_has_a_rest(release.text(), text, ".0.0"@);
    assert(text + Seq::empty() == text);
    named_numbers(release, text);
    let found = numbers(text)->0;
    same_numbers_same_order(found, release.numbers(), release.numbers(), release.numbers());
    same_numbers_same_order(release.numbers(), release.numbers(), found, release.numbers());
    later_is_asymmetric(release.numbers(), release.numbers());
}

/// Where the latest version is a release, every release that is named has no greater
/// number at the first place where the two differ.
pub proof fn latest_release_is_greatest(latest: Release, other: Release, named: Seq<Seq<char>>)
    requires
        is_latest(latest.text(), named),
        named.contains(other.text()),
    ensures
        other.major <= latest.major,
        other.major == latest.major ==> other.minor <= latest.minor,
        other.major == latest.major && other.minor == latest.minor ==> other.patch <= latest.patch,
{
    release_numbers(latest);
    release_numbers(other);
    releases_are_ordered_number_by_number(
        other.major as nat,
        other.minor as nat,
        other.patch as nat,
        latest.major as nat,
        latest.minor as nat,
        latest.patch as nat,
    );
}

/// A list names no version exactly where none of its texts is made of numbers in
/// decimal with a dot between each two.
pub proof fn lists_without_dotted_numbers_name_no_version(named: Seq<Seq<char>>)
    ensures
        names_no_version(named) <==> forall|k: int, parts: Seq<Seq<char>>|
            0 <= k < named.len() ==> !(#[trigger] is_dotted(named[k], parts)),
{
    if names_no_version(named) {
        assert forall|k: int, parts: Seq<Seq<char>>| 0 <= k < named.len() implies !(
        #[trigger] is_dotted(named[k], parts)) by {
            if is_dotted(named[k], parts) {
                dotted_numbers_are_versions(parts);
                assert(named.contains(named[k]));
            }
        }
    }
    if forall|k: int, parts: Seq<Seq<char>>|
        0 <= k < named.len() ==> !(#[trigger] is_dotted(named[k], parts)) {
        assert forall|version: Seq<char>| #[trigger] named.contains(version) implies numbers(
            version,
        ) is None by {
            let k = named.index_of(version);
            if numbers(version) is Some {
                versions_are_dotted_numbers(version);
                let parts = choose|parts: Seq<Seq<char>>| #[trigger] is_dotted(version, parts);
                assert(is_dotted(named[k], parts));
            }
        }
    }
}

} // verus!
