//! Listing the characters of a text that fall outside a set: the check for
//! ASCII and the check for the accepted characters.

use vstd::prelude::*;
use crate::positions::{lemma_positions, lemma_positions_none, lemma_positions_step, positions};
use crate::text::contains;
use crate::validation::{outcome, Defect, ValidationError};

verus! {

/// The ASCII characters.
pub open spec fn ascii() -> Set<char> {
    Set::new(|c: char| c <= '\u{7f}')
}

/// Every character of `text` is in `accepted`.
pub open spec fn all_accepted(text: Seq<char>, accepted: Set<char>) -> bool {
    forall|i: int| 0 <= i < text.len() ==> accepted.contains(#[trigger] text[i])
}

/// Position `i` of `text` holds a character outside `accepted` that occurs
/// nowhere before `i`.
pub open spec fn offends_first_at(text: Seq<char>, i: int, accepted: Set<char>) -> bool {
    &&& 0 <= i < text.len()
    &&& !accepted.contains(text[i])
    &&& forall|j: int| 0 <= j < i ==> text[j] != text[i]
}

/// The characters outside `accepted` among the first `limit` of `text`, each
/// listed once, at the place of its first occurrence.
pub open spec fn offending_before(text: Seq<char>, limit: nat, accepted: Set<char>) -> Seq<char> {
    positions(limit, |i: int| offends_first_at(text, i, accepted)).map_values(|i: int| text[i])
}

/// The characters of `text` outside `accepted`, each listed once, in the order
/// in which they first occur: the character at every position that holds an
/// offending character for the first time, by ascending position.
pub open spec fn offending(text: Seq<char>, accepted: Set<char>) -> Seq<char> {
    offending_before(text, text.len(), accepted)
}

/// The position at which `c` first occurs in `text`; the length of `text`
/// where it does not occur.
pub open spec fn first_index(text: Seq<char>, c: char) -> int
    decreases text.len(),
{
    if text.len() == 0 || text[0] == c {
        0
    } else {
        1 + first_index(text.skip(1), c)
    }
}

/// What the ASCII check finds in `text`.
pub open spec fn ascii_defect(text: Seq<char>) -> Option<Defect> {
    if all_accepted(text, ascii()) {
        None
    } else {
        Some(Defect::NotASCII(offending(text, ascii())))
    }
}

/// What the character-set check finds in `text`.
pub open spec fn charset_defect(text: Seq<char>, accepted: Seq<char>) -> Option<Defect> {
    if all_accepted(text, accepted.to_set()) {
        None
    } else {
        Some(Defect::InvalidChars(offending(text, accepted.to_set())))
    }
}

/// `first_index` is the least position that holds `c`.
pub proof fn lemma_first_index(text: Seq<char>, c: char)
    ensures
        0 <= first_index(text, c) <= text.len(),
        forall|j: int| 0 <= j < first_index(text, c) ==> text[j] != c,
        text.contains(c) <==> first_index(text, c) < text.len(),
        first_index(text, c) < text.len() ==> text[first_index(text, c)] == c,
    decreases text.len(),
{
    if text.len() == 0 || text[0] == c {
    } else {
        let rest = text.skip(1);
        lemma_first_index(rest, c);
        assert forall|j: int| 0 <= j < first_index(text, c) implies text[j] != c by {
            if j > 0 {
                assert(rest[j - 1] == text[j]);
            }
        }
        if text.contains(c) {
            let k = choose|k: int| 0 <= k < text.len() && text[k] == c;
            assert(rest[k - 1] == c);
        }
        if first_index(text, c) < text.len() {
            assert(rest[first_index(rest, c)] == text[first_index(text, c)]);
        }
    }
}

/// A position that holds `c` with no `c` before it is the first index of `c`.
pub proof fn lemma_first_index_is(text: Seq<char>, c: char, i: int)
    requires
        0 <= i < text.len(),
        text[i] == c,
        forall|j: int| 0 <= j < i ==> text[j] != c,
    ensures
        first_index(text, c) == i,
{
    lemma_first_index(text, c);
}

/// Looking one character further lists that character where it offends for the
/// first time, and changes nothing elsewhere.
proof fn lemma_offending_step(text: Seq<char>, limit: nat, accepted: Set<char>)
    ensures
        offending_before(text, limit + 1, accepted) == if offends_first_at(
            text,
            limit as int,
            accepted,
        ) {
            offending_before(text, limit, accepted).push(text[limit as int])
        } else {
            offending_before(text, limit, accepted)
        },
{
    let keep = |i: int| offends_first_at(text, i, accepted);
    lemma_positions_step(limit, keep);
    if offends_first_at(text, limit as int, accepted) {
        assert(positions(limit, keep).push(limit as int).map_values(|i: int| text[i])
            =~= offending_before(text, limit, accepted).push(text[limit as int]));
    }
}

/// Among the first `limit` characters, the listed ones are those outside
/// `accepted`.
proof fn lemma_offending_before(text: Seq<char>, limit: nat, accepted: Set<char>)
    requires
        limit <= text.len(),
    ensures
        forall|c: char| #[trigger]
            offending_before(text, limit, accepted).contains(c) <==> !accepted.contains(c)
                && text.take(limit as int).contains(c),
{
    let keep = |i: int| offends_first_at(text, i, accepted);
    let places = positions(limit, keep);
    let found = offending_before(text, limit, accepted);
    let front = text.take(limit as int);
    lemma_positions(limit, keep);
    assert forall|c: char| #[trigger] found.contains(c) <==> !accepted.contains(c)
        && front.contains(c) by {
        if found.contains(c) {
            let k = choose|k: int| 0 <= k < found.len() && found[k] == c;
            assert(keep(places[k]));
            assert(front[places[k]] == c);
        }
        if !accepted.contains(c) && front.contains(c) {
            lemma_first_index(front, c);
            let first = first_index(front, c);
            assert(text[first] == front[first]);
            assert forall|j: int| 0 <= j < first implies text[j] != text[first] by {
                assert(front[j] == text[j]);
            }
            assert(keep(first));
            assert(places.contains(first));
            let k = choose|k: int| 0 <= k < places.len() && places[k] == first;
            assert(found[k] == c);
        }
    }
}

/// What `offending` lists: exactly the characters of `text` outside `accepted`,
/// none of them twice, ordered by where each first occurs in `text`.
pub proof fn lemma_offending(text: Seq<char>, accepted: Set<char>)
    ensures
        offending(text, accepted).no_duplicates(),
        forall|c: char| #[trigger]
            offending(text, accepted).contains(c) <==> text.contains(c) && !accepted.contains(c),
        forall|i: int, j: int|
            0 <= i < j < offending(text, accepted).len() ==> first_index(
                text,
                #[trigger] offending(text, accepted)[i],
            ) < first_index(text, #[trigger] offending(text, accepted)[j]),
{
    let keep = |i: int| offends_first_at(text, i, accepted);
    let places = positions(text.len(), keep);
    let found = offending(text, accepted);
    lemma_positions(text.len(), keep);
    lemma_offending_before(text, text.len(), accepted);
    assert(text.take(text.len() as int) =~= text);
    assert forall|i: int| 0 <= i < found.len() implies first_index(text, #[trigger] found[i])
        == places[i] by {
        assert(keep(places[i]));
        lemma_first_index_is(text, found[i], places[i]);
    }
    assert forall|i: int, j: int| 0 <= i < j < found.len() implies first_index(
        text,
        #[trigger] found[i],
    ) < first_index(text, #[trigger] found[j]) by {
        assert(places[i] < places[j]);
    }
    assert forall|i: int, j: int| 0 <= i < found.len() && 0 <= j < found.len() && i
        != j implies found[i] != found[j] by {
        if i < j {
            assert(first_index(text, found[i]) < first_index(text, found[j]));
        } else {
            assert(first_index(text, found[j]) < first_index(text, found[i]));
        }
    }
}

/// Nothing offends exactly when every character is accepted.
pub proof fn lemma_offending_empty(text: Seq<char>, accepted: Set<char>)
    ensures
        offending(text, accepted).len() == 0 <==> all_accepted(text, accepted),
{
    let found = offending(text, accepted);
    lemma_offending(text, accepted);
    if found.len() > 0 {
        assert(found.contains(found[0]));
        let m = choose|m: int| 0 <= m < text.len() && text[m] == found[0];
        assert(!accepted.contains(text[m]));
    }
    if !all_accepted(text, accepted) {
        let m = choose|m: int| 0 <= m < text.len() && !accepted.contains(text[m]);
        assert(text.contains(text[m]));
        assert(found.contains(text[m]));
    }
}

/// Lists the character `c` of `text` at position `at` unless it is accepted or
/// was listed before.
fn note(
    found: &mut Vec<char>,
    c: char,
    is_accepted: bool,
    Ghost(text): Ghost<Seq<char>>,
    Ghost(at): Ghost<nat>,
    Ghost(accepted): Ghost<Set<char>>,
)
    requires
        at < text.len(),
        c == text[at as int],
        is_accepted == accepted.contains(c),
        old(found)@ == offending_before(text, at, accepted),
    ensures
        final(found)@ == offending_before(text, (at + 1) as nat, accepted),
{
    proof {
        lemma_offending_step(text, at, accepted);
        lemma_offending_before(text, at, accepted);
        let front = text.take(at as int);
        if front.contains(c) {
            let j = choose|j: int| 0 <= j < front.len() && front[j] == c;
            assert(text[j] == text[at as int]);
        }
        if !offends_first_at(text, at as int, accepted) && !accepted.contains(c) {
            let j = choose|j: int| 0 <= j < at && text[j] == text[at as int];
            assert(front[j] == c);
        }
    }
    if !is_accepted && !contains(found, c) {
        found.push(c);
    }
}

/// The ASCII check: a text passes when all of its characters are ASCII, and is
/// otherwise rejected with the characters that are not, each listed once in
/// order of first occurrence.
pub fn check_ascii(input: &str) -> (result: Result<(), ValidationError>)
    ensures
        outcome(result) == ascii_defect(input@),
{
    let mut found: Vec<char> = Vec::new();
    proof {
        lemma_positions_none(|i: int| offends_first_at(input@, i, ascii()));
        assert(found@ =~= offending_before(input@, 0, ascii()));
    }
    for c in it: input.chars()
        invariant
            it.seq() == input@,
            found@ == offending_before(input@, it.index() as nat, ascii()),
    {
        let is_ascii = c <= '\u{7f}';
        note(&mut found, c, is_ascii, Ghost(input@), Ghost(it.index() as nat), Ghost(ascii()));
    }
    proof {
        lemma_offending_empty(input@, ascii());
    }
    if found.len() == 0 {
        Ok(())
    } else {
        Err(ValidationError::NotASCII(found))
    }
}

/// The character-set check: a text passes when all of its characters are among
/// `accepted`, and is otherwise rejected with the characters that are not, each
/// listed once in order of first occurrence.
pub fn check_characters(
    input: &str,
    accepted: &Vec<char>,
) -> (result: Result<(), ValidationError>)
    ensures
        outcome(result) == charset_defect(input@, accepted@),
{
    let mut found: Vec<char> = Vec::new();
    proof {
        lemma_positions_none(|i: int| offends_first_at(input@, i, accepted@.to_set()));
        assert(found@ =~= offending_before(input@, 0, accepted@.to_set()));
    }
    for c in it: input.chars()
        invariant
            it.seq() == input@,
            found@ == offending_before(input@, it.index() as nat, accepted@.to_set()),
    {
        let is_accepted = contains(accepted, c);
        note(
            &mut found,
            c,
            is_accepted,
            Ghost(input@),
            Ghost(it.index() as nat),
            Ghost(accepted@.to_set()),
        );
    }
    proof {
        lemma_offending_empty(input@, accepted@.to_set());
    }
    if found.len() == 0 {
        Ok(())
    } else {
        Err(ValidationError::InvalidChars(found))
    }
}

} // verus!
