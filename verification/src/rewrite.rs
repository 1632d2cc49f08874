//! Ordered literal substitution: a table of rules, applied one after another,
//! each over the whole text.

use vstd::prelude::*;
use crate::text::to_chars;

verus! {

/// One substitution: every occurrence of `pattern` becomes `replacement`.
pub struct Rule {
    pub pattern: Vec<char>,
    pub replacement: Vec<char>,
}

/// What a [`Rule`] stands for.
pub ghost struct RuleModel {
    pub pattern: Seq<char>,
    pub replacement: Seq<char>,
}

impl View for Rule {
    type V = RuleModel;

    open spec fn view(&self) -> RuleModel {
        RuleModel { pattern: self.pattern@, replacement: self.replacement@ }
    }
}

/// `text` with every occurrence of `pattern` replaced, scanning left to right:
/// where the pattern starts at the current position, the replacement is emitted
/// and the scan resumes behind the occurrence, so occurrences never overlap;
/// elsewhere the character is kept.
pub open spec fn replace_all(
    text: Seq<char>,
    pattern: Seq<char>,
    replacement: Seq<char>,
) -> Seq<char>
    recommends
        pattern.len() > 0,
    decreases text.len(),
{
    if text.len() == 0 {
        text
    } else if 0 < pattern.len() && pattern.is_prefix_of(text) {
        replacement + replace_all(text.skip(pattern.len() as int), pattern, replacement)
    } else {
        seq![text[0]] + replace_all(text.skip(1), pattern, replacement)
    }
}

/// `text` after each of `rules` in turn, every rule working on what the one
/// before it produced.
pub open spec fn apply_rules(text: Seq<char>, rules: Seq<RuleModel>) -> Seq<char>
    decreases rules.len(),
{
    if rules.len() == 0 {
        text
    } else {
        let rule = rules.last();
        replace_all(apply_rules(text, rules.drop_last()), rule.pattern, rule.replacement)
    }
}

/// A table is usable when no pattern is empty.
pub open spec fn well_formed(rules: Seq<RuleModel>) -> bool {
    forall|i: int| 0 <= i < rules.len() ==> (#[trigger] rules[i]).pattern.len() > 0
}

/// The models of the rules of a table, in order.
pub open spec fn table_model(rules: Seq<Rule>) -> Seq<RuleModel> {
    rules.map_values(|rule: Rule| rule@)
}

impl Rule {
    /// The rule that turns `pattern` into `replacement`.
    pub fn new(pattern: &str, replacement: &str) -> (rule: Rule)
        ensures
            rule@ == (RuleModel { pattern: pattern@, replacement: replacement@ }),
    {
        Rule { pattern: to_chars(pattern), replacement: to_chars(replacement) }
    }
}

/// Whether `pattern` stands in `text` at position `at`, which must not lie
/// beyond the end of `text`.
pub fn matches_at(text: &Vec<char>, at: usize, pattern: &Vec<char>) -> (found: bool)
    requires
        at <= text.len(),
    ensures
        found == pattern@.is_prefix_of(text@.skip(at as int)),
{
    if pattern.len() > text.len() - at {
        return false;
    }
    let mut k: usize = 0;
    while k < pattern.len()
        invariant
            at <= text.len(),
            pattern.len() <= text.len() - at,
            k <= pattern.len(),
            forall|j: int| 0 <= j < k ==> pattern@[j] == text@[at + j],
        decreases pattern.len() - k,
    {
        if pattern[k] != text[at + k] {
            assert(pattern@[k as int] != text@.skip(at as int).subrange(
                0,
                pattern@.len() as int,
            )[k as int]);
            return false;
        }
        k += 1;
    }
    assert(pattern@ =~= text@.skip(at as int).subrange(0, pattern@.len() as int));
    true
}

/// One step of the scan at position `at`: a pattern found there is consumed
/// whole and replaced; any other character is kept.
proof fn lemma_replace_step(text: Seq<char>, at: int, pattern: Seq<char>, replacement: Seq<char>)
    requires
        0 <= at < text.len(),
        pattern.len() > 0,
    ensures
        pattern.is_prefix_of(text.skip(at)) ==> replace_all(text.skip(at), pattern, replacement)
            == replacement + replace_all(
            text.skip(at + pattern.len()),
            pattern,
            replacement,
        ),
        !pattern.is_prefix_of(text.skip(at)) ==> replace_all(text.skip(at), pattern, replacement)
            == seq![text[at]] + replace_all(text.skip(at + 1), pattern, replacement),
{
    let rest = text.skip(at);
    if pattern.is_prefix_of(rest) {
        assert(rest.skip(pattern.len() as int) =~= text.skip(at + pattern.len()));
    } else {
        assert(rest.skip(1) =~= text.skip(at + 1));
    }
}

/// A text in which the pattern occurs nowhere is left as it is.
pub proof fn lemma_replace_absent(text: Seq<char>, pattern: Seq<char>, replacement: Seq<char>)
    requires
        forall|k: int| 0 <= k < text.len() ==> !pattern.is_prefix_of(#[trigger] text.skip(k)),
    ensures
        replace_all(text, pattern, replacement) == text,
    decreases text.len(),
{
    if text.len() > 0 {
        let rest = text.skip(1);
        assert(text.skip(0) =~= text);
        assert forall|k: int| 0 <= k < rest.len() implies !pattern.is_prefix_of(
            #[trigger] rest.skip(k),
        ) by {
            assert(rest.skip(k) =~= text.skip(k + 1));
        }
        lemma_replace_absent(rest, pattern, replacement);
        assert(seq![text[0]] + rest =~= text);
    }
}

/// Replaces every occurrence of `pattern` in `text` by `replacement`, as
/// `str::replace` does. The pattern must not be empty.
pub fn replace(text: &Vec<char>, pattern: &Vec<char>, replacement: &Vec<char>) -> (out: Vec<char>)
    requires
        pattern@.len() > 0,
    ensures
        out@ == replace_all(text@, pattern@, replacement@),
{
    let mut out: Vec<char> = Vec::new();
    let mut i: usize = 0;
    assert(text@.skip(0) =~= text@);
    while i < text.len()
        invariant
            i <= text.len(),
            pattern@.len() > 0,
            replace_all(text@, pattern@, replacement@) == out@ + replace_all(
                text@.skip(i as int),
                pattern@,
                replacement@,
            ),
        decreases text.len() - i,
    {
        proof {
            lemma_replace_step(text@, i as int, pattern@, replacement@);
        }
        if matches_at(text, i, pattern) {
            let ghost before = out@;
            let mut k: usize = 0;
            while k < replacement.len()
                invariant
                    k <= replacement.len(),
                    out@ == before + replacement@.take(k as int),
                decreases replacement.len() - k,
            {
                out.push(replacement[k]);
                k += 1;
            }
            assert(replacement@.take(replacement@.len() as int) =~= replacement@);
            assert(before + (replacement@ + replace_all(
                text@.skip(i + pattern@.len()),
                pattern@,
                replacement@,
            )) =~= out@ + replace_all(text@.skip(i + pattern@.len()), pattern@, replacement@));
            i += pattern.len();
        } else {
            let ghost before = out@;
            out.push(text[i]);
            assert(before + (seq![text@[i as int]] + replace_all(
                text@.skip(i + 1),
                pattern@,
                replacement@,
            )) =~= out@ + replace_all(text@.skip(i + 1), pattern@, replacement@));
            i += 1;
        }
    }
    assert(out@ + Seq::<char>::empty() =~= out@);
    out
}

/// Applies `rules` in order, each to the whole of what the previous one left.
/// No rule may have an empty pattern.
pub fn rewrite(text: Vec<char>, rules: &Vec<Rule>) -> (out: Vec<char>)
    requires
        well_formed(table_model(rules@)),
    ensures
        out@ == apply_rules(text@, table_model(rules@)),
{
    let ghost table = table_model(rules@);
    let ghost origin = text@;
    let mut out = text;
    let mut i: usize = 0;
    assert(table.take(0) =~= Seq::<RuleModel>::empty());
    while i < rules.len()
        invariant
            i <= rules.len(),
            table == table_model(rules@),
            well_formed(table),
            out@ == apply_rules(origin, table.take(i as int)),
        decreases rules.len() - i,
    {
        let rule = &rules[i];
        assert(table[i as int] == rule@);
        assert(table.take(i + 1).drop_last() =~= table.take(i as int));
        out = replace(&out, &rule.pattern, &rule.replacement);
        i += 1;
    }
    assert(table.take(rules@.len() as int) =~= table);
    out
}

} // verus!
