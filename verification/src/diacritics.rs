//! Finding the accent markers that stand where none may: immediately behind a
//! consonant.

use vstd::prelude::*;
use crate::positions::{lemma_positions, lemma_positions_none, lemma_positions_step, positions};
use crate::text::contains;
use crate::validation::{outcome, Defect, ValidationError};

verus! {

/// At position `i` of `text` a consonant stands immediately before a marker.
pub open spec fn misplaced_at(
    text: Seq<char>,
    i: int,
    consonants: Seq<char>,
    markers: Seq<char>,
) -> bool {
    0 <= i && i + 1 < text.len() && consonants.contains(text[i]) && markers.contains(text[i + 1])
}

/// The consonant-and-marker pairs of `text` that start below `limit`.
pub open spec fn misplaced_before(
    text: Seq<char>,
    limit: nat,
    consonants: Seq<char>,
    markers: Seq<char>,
) -> Seq<Seq<char>> {
    positions(limit, |i: int| misplaced_at(text, i, consonants, markers)).map_values(
        |i: int| text.subrange(i, i + 2),
    )
}

/// Every consonant-and-marker pair of `text`: the two characters at each
/// position at which a consonant stands immediately before a marker, by
/// ascending position. Equal pairs at different positions are all listed.
pub open spec fn misplaced_pairs(
    text: Seq<char>,
    consonants: Seq<char>,
    markers: Seq<char>,
) -> Seq<Seq<char>> {
    misplaced_before(text, text.len(), consonants, markers)
}

/// What the marker-placement check finds in `text`.
pub open spec fn order_defect(
    text: Seq<char>,
    consonants: Seq<char>,
    markers: Seq<char>,
) -> Option<Defect> {
    if misplaced_pairs(text, consonants, markers).len() == 0 {
        None
    } else {
        Some(Defect::InvalidDiacriticOrder(misplaced_pairs(text, consonants, markers)))
    }
}

/// Looking one position further lists the pair that starts there where a
/// consonant meets a marker, and changes nothing elsewhere.
proof fn lemma_misplaced_step(
    text: Seq<char>,
    limit: nat,
    consonants: Seq<char>,
    markers: Seq<char>,
)
    ensures
        misplaced_before(text, limit + 1, consonants, markers) == if misplaced_at(
            text,
            limit as int,
            consonants,
            markers,
        ) {
            misplaced_before(text, limit, consonants, markers).push(
                text.subrange(limit as int, limit as int + 2),
            )
        } else {
            misplaced_before(text, limit, consonants, markers)
        },
{
    let keep = |i: int| misplaced_at(text, i, consonants, markers);
    lemma_positions_step(limit, keep);
    if misplaced_at(text, limit as int, consonants, markers) {
        assert(positions(limit, keep).push(limit as int).map_values(
            |i: int| text.subrange(i, i + 2),
        ) =~= misplaced_before(text, limit, consonants, markers).push(
            text.subrange(limit as int, limit as int + 2),
        ));
    }
}

/// The pairs of a text are found where a consonant meets a marker, and only
/// there: the list is empty exactly when no position is misplaced.
pub proof fn lemma_misplaced_pairs_empty(
    text: Seq<char>,
    consonants: Seq<char>,
    markers: Seq<char>,
)
    ensures
        misplaced_pairs(text, consonants, markers).len() == 0 <==> forall|i: int|
            !misplaced_at(text, i, consonants, markers),
{
    let keep = |i: int| misplaced_at(text, i, consonants, markers);
    let places = positions(text.len(), keep);
    lemma_positions(text.len(), keep);
    assert(misplaced_pairs(text, consonants, markers).len() == places.len());
    if places.len() > 0 {
        assert(keep(places[0]));
    }
    if exists|i: int| misplaced_at(text, i, consonants, markers) {
        let i = choose|i: int| misplaced_at(text, i, consonants, markers);
        assert(places.contains(i));
    }
}

/// Every listed pair is two characters long, a consonant and then a marker, and
/// there are as many pairs as positions at which the two meet.
pub proof fn lemma_misplaced_pairs(text: Seq<char>, consonants: Seq<char>, markers: Seq<char>)
    ensures
        misplaced_pairs(text, consonants, markers).len() == positions(
            text.len(),
            |i: int| misplaced_at(text, i, consonants, markers),
        ).len(),
        forall|k: int|
            0 <= k < misplaced_pairs(text, consonants, markers).len() ==> {
                let pair = #[trigger] misplaced_pairs(text, consonants, markers)[k];
                &&& pair.len() == 2
                &&& consonants.contains(pair[0])
                &&& markers.contains(pair[1])
            },
{
    let keep = |i: int| misplaced_at(text, i, consonants, markers);
    let places = positions(text.len(), keep);
    lemma_positions(text.len(), keep);
    assert forall|k: int| 0 <= k < misplaced_pairs(text, consonants, markers).len() implies {
        let pair = #[trigger] misplaced_pairs(text, consonants, markers)[k];
        &&& pair.len() == 2
        &&& consonants.contains(pair[0])
        &&& markers.contains(pair[1])
    } by {
        assert(keep(places[k]));
    }
}

/// The marker-placement check: a text passes when no consonant stands
/// immediately before a marker, and is otherwise rejected with every such pair,
/// from left to right.
pub fn check_diacritics(
    input: &str,
    consonants: &Vec<char>,
    markers: &Vec<char>,
) -> (result: Result<(), ValidationError>)
    ensures
        outcome(result) == order_defect(input@, consonants@, markers@),
{
    let mut found: Vec<String> = Vec::new();
    let mut before: Option<char> = None;
    proof {
        lemma_positions_none(|i: int| misplaced_at(input@, i, consonants@, markers@));
        assert(found.deep_view() =~= misplaced_before(input@, 0, consonants@, markers@));
    }
    for c in it: input.chars()
        invariant
            it.seq() == input@,
            before == if it.index() == 0 {
                None
            } else {
                Some(input@[it.index() - 1])
            },
            found.deep_view() == misplaced_before(
                input@,
                if it.index() == 0 {
                    0
                } else {
                    (it.index() - 1) as nat
                },
                consonants@,
                markers@,
            ),
    {
        if let Some(b) = before {
            proof {
                lemma_misplaced_step(input@, (it.index() - 1) as nat, consonants@, markers@);
            }
            if contains(consonants, b) && contains(markers, c) {
                let mut pair = String::new();
                pair.push(b);
                pair.push(c);
                let ghost listed = found.deep_view();
                found.push(pair);
                assert(pair@ =~= input@.subrange(it.index() - 1, it.index() + 1));
                assert(found.deep_view() =~= listed.push(pair@));
            }
        }
        before = Some(c);
    }
    proof {
        if input@.len() > 0 {
            lemma_misplaced_step(input@, (input@.len() - 1) as nat, consonants@, markers@);
        }
    }
    if found.len() == 0 {
        Ok(())
    } else {
        Err(ValidationError::InvalidDiacriticOrder(found))
    }
}

} // verus!
