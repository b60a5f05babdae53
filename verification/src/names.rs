//! Canonical package names.
use vstd::prelude::*;

use crate::text;

verus! {

/// The characters that separate the words of a package name.
pub open spec fn is_separator(c: char) -> bool {
    c == '-' || c == '_' || c == '.'
}

/// An ASCII letter in lower case; other characters as they are.
pub open spec fn lower(c: char) -> char {
    if 'A' <= c <= 'Z' {
        ((c as u8) + 32) as char
    } else {
        c
    }
}

/// Whether a name is empty or ends with no separator.
pub open spec fn ends_in_word(name: Seq<char>) -> bool {
    name.len() > 0 ==> !is_separator(name.last())
}

/// A name with each run of separators as one `-`, and its ASCII letters in lower
/// case.
pub open spec fn canonical(name: Seq<char>) -> Seq<char>
    decreases name.len(),
{
    if name.len() == 0 {
        Seq::empty()
    } else {
        let start = canonical(name.drop_last());
        if !is_separator(name.last()) {
            start.push(lower(name.last()))
        } else if ends_in_word(name.drop_last()) {
            start.push('-')
        } else {
            start
        }
    }
}

fn to_lower(c: char) -> (result: char)
    ensures
        result == lower(c),
{
    if 'A' <= c && c <= 'Z' {
        ((c as u8) + 32) as char
    } else {
        c
    }
}

/// The canonical form of a package name.
pub fn canonical_package_name(name: &str) -> (result: String)
    ensures
        result@ == canonical(name@),
{
    let characters = text::characters(name);
    let mut canonical_name = String::new();
    let mut last_was_separator = false;
    for i in 0..characters.len()
        invariant
            characters@ == name@,
            canonical_name@ == canonical(name@.take(i as int)),
            last_was_separator == !ends_in_word(name@.take(i as int)),
    {
        let character = characters[i];
        assert(name@.take(i + 1).drop_last() == name@.take(i as int));
        if character == '-' || character == '_' || character == '.' {
            if !last_was_separator {
                canonical_name.push('-');
                last_was_separator = true;
            }
        } else {
            canonical_name.push(to_lower(character));
            last_was_separator = false;
        }
    }
    assert(name@.take(name@.len() as int) == name@);
    canonical_name
}

/// Whether a name is written in canonical form: no upper case ASCII letter, no
/// separator but `-`, and no two of these side by side.
pub open spec fn is_canonical(name: Seq<char>) -> bool {
    &&& forall|i: int|
        0 <= i < name.len() ==> !('A' <= #[trigger] name[i] <= 'Z') && name[i] != '_' && name[i]
            != '.'
    &&& forall|i: int|
        0 < i < name.len() && #[trigger] name[i] == '-' ==> name[i - 1] != '-'
}

/// The canonical form of a name is canonical, and it ends in a word where the name
/// does.
pub proof fn canonical_form(name: Seq<char>)
    ensures
        is_canonical(canonical(name)),
        ends_in_word(canonical(name)) == ends_in_word(name),
    decreases name.len(),
{
    if name.len() > 0 {
        canonical_form(name.drop_last());
    }
}

/// A canonical name is its own canonical form.
pub proof fn canonical_fixed_point(name: Seq<char>)
    requires
        is_canonical(name),
    ensures
        canonical(name) == name,
    decreases name.len(),
{
    if name.len() > 0 {
        let start = name.drop_last();
        assert forall|i: int| 0 < i < start.len() && #[trigger] start[i] == '-' implies start[i - 1]
            != '-' by {
            assert(name[i] == '-');
        }
        canonical_fixed_point(start);
        assert(name[name.len() - 1] == name.last());
        assert(start.push(name.last()) == name);
    }
}

/// Taking the canonical form twice is the same as taking it once.
pub proof fn canonical_idempotent(name: Seq<char>)
    ensures
        canonical(canonical(name)) == canonical(name),
{
    canonical_form(name);
    canonical_fixed_point(canonical(name));
}

/// Whether a text is a run of one or more separators.
pub open spec fn is_separator_run(run: Seq<char>) -> bool {
    run.len() > 0 && forall|i: int| 0 <= i < run.len() ==> is_separator(#[trigger] run[i])
}

proof fn canonical_run(head: Seq<char>, run: Seq<char>)
    requires
        is_separator_run(run),
    ensures
        canonical(head + run) == (if ends_in_word(head) {
            canonical(head).push('-')
        } else {
            canonical(head)
        }),
    decreases run.len(),
{
    let shorter = run.drop_last();
    assert((head + run).drop_last() == head + shorter);
    if shorter.len() == 0 {
        assert(head + shorter == head);
    } else {
        canonical_run(head, shorter);
        assert((head + shorter).last() == shorter.last());
    }
}

/// Which separators stand between two parts of a name, and how many, makes no
/// difference to its canonical form.
pub proof fn canonical_ignores_separators(
    head: Seq<char>,
    run: Seq<char>,
    other: Seq<char>,
    tail: Seq<char>,
)
    requires
        is_separator_run(run),
        is_separator_run(other),
    ensures
        canonical(head + run + tail) == canonical(head + other + tail),
    decreases tail.len(),
{
    let left = head + run + tail;
    let right = head + other + tail;
    if tail.len() == 0 {
        assert(left == head + run);
        assert(right == head + other);
        canonical_run(head, run);
        canonical_run(head, other);
    } else {
        let shorter = tail.drop_last();
        canonical_ignores_separators(head, run, other, shorter);
        assert(left.drop_last() == head + run + shorter);
        assert(right.drop_last() == head + other + shorter);
        if shorter.len() == 0 {
            assert((head + run + shorter).last() == run.last());
            assert((head + other + shorter).last() == other.last());
        }
    }
}

/// The case of ASCII letters makes no difference to the canonical form of a name.
pub proof fn canonical_ignores_case(name: Seq<char>)
    ensures
        canonical(name.map_values(|c: char| lower(c))) == canonical(name),
    decreases name.len(),
{
    if name.len() > 0 {
        let lowered = name.map_values(|c: char| lower(c));
        canonical_ignores_case(name.drop_last());
        assert(lowered.drop_last() == name.drop_last().map_values(|c: char| lower(c)));
    }
}

/// A letter in upper case counts as the same letter in lower case, wherever it stands.
pub proof fn upper_case_letters_are_lowered(head: Seq<char>, i: int, tail: Seq<char>)
    requires
        0 <= i < 26,
    ensures
        canonical(head + seq!["ABCDEFGHIJKLMNOPQRSTUVWXYZ"@[i]] + tail) == canonical(
            head + seq!["abcdefghijklmnopqrstuvwxyz"@[i]] + tail,
        ),
        canonical(seq!["ABCDEFGHIJKLMNOPQRSTUVWXYZ"@[i]])
            == seq!["abcdefghijklmnopqrstuvwxyz"@[i]],
    decreases tail.len(),
{
    reveal_strlit("ABCDEFGHIJKLMNOPQRSTUVWXYZ");
    reveal_strlit("abcdefghijklmnopqrstuvwxyz");
    let upper = "ABCDEFGHIJKLMNOPQRSTUVWXYZ"@[i];
    let small = "abcdefghijklmnopqrstuvwxyz"@[i];
    assert(lower(upper) == small && lower(small) == small);
    let left = head + seq![upper] + tail;
    let right = head + seq![small] + tail;
    if tail.len() == 0 {
        assert(left.drop_last() == head && right.drop_last() == head);
        assert(left.last() == upper && right.last() == small);
    } else {
        let shorter = tail.drop_last();
        upper_case_letters_are_lowered(head, i, shorter);
        assert(left.drop_last() == head + seq![upper] + shorter);
        assert(right.drop_last() == head + seq![small] + shorter);
        assert((head + seq![upper] + shorter).last() == if shorter.len() == 0 {
            upper
        } else {
            shorter.last()
        });
        assert((head + seq![small] + shorter).last() == if shorter.len() == 0 {
            small
        } else {
            shorter.last()
        });
    }
    assert(seq![upper].drop_last().len() == 0);
    assert(canonical(seq![upper].drop_last()) == Seq::<char>::empty());
    assert(canonical(seq![upper]) == seq![small]);
}

/// Hyphens, underscores and dots count as one hyphen, alone or side by side, wherever
/// they stand.
pub proof fn separators_count_as_one_hyphen(head: Seq<char>, tail: Seq<char>)
    ensures
        canonical(head + "_"@ + tail) == canonical(head + "-"@ + tail),
        canonical(head + "."@ + tail) == canonical(head + "-"@ + tail),
        canonical(head + "--"@ + tail) == canonical(head + "-"@ + tail),
        canonical("-"@) == "-"@,
{
    reveal_strlit("-");
    reveal_strlit("_");
    reveal_strlit(".");
    reveal_strlit("--");
    canonical_ignores_separators(head, "_"@, "-"@, tail);
    canonical_ignores_separators(head, "."@, "-"@, tail);
    canonical_ignores_separators(head, "--"@, "-"@, tail);
    canonical_fixed_point("-"@);
}

} // verus!
