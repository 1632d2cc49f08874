//! Conversion of texts in the classical notation.

use vstd::prelude::*;
use crate::normalize::nfkc;
pub use crate::normalize::normalize_unicode;
use crate::rewrite::{apply_rules, rewrite, table_model, well_formed, Rule, RuleModel};
use crate::text::{from_chars, to_chars};

verus! {

/// The substitutions of the classical notation, in the order in which they are
/// applied. A longer pattern stands before the shorter ones it contains.
pub open spec fn rules() -> Seq<RuleModel> {
    seq![
        RuleModel { pattern: "/"@, replacement: "\u{0301}"@ },
        RuleModel { pattern: "\\"@, replacement: "\u{0300}"@ },
        RuleModel { pattern: "A"@, replacement: "a\u{0304}"@ },
        RuleModel { pattern: "I"@, replacement: "i\u{0304}"@ },
        RuleModel { pattern: "U"@, replacement: "u\u{0304}"@ },
        RuleModel { pattern: "lRR"@, replacement: "\u{1e37}\u{0304}"@ },
        RuleModel { pattern: "lR"@, replacement: "\u{1e37}"@ },
        RuleModel { pattern: "RR"@, replacement: "\u{1e5b}\u{0304}"@ },
        RuleModel { pattern: "R"@, replacement: "\u{1e5b}"@ },
        RuleModel { pattern: "M"@, replacement: "\u{1e43}"@ },
        RuleModel { pattern: "H"@, replacement: "\u{1e25}"@ },
        RuleModel { pattern: "G"@, replacement: "\u{1e45}"@ },
        RuleModel { pattern: "J"@, replacement: "\u{00f1}"@ },
        RuleModel { pattern: "T"@, replacement: "\u{1e6d}"@ },
        RuleModel { pattern: "D"@, replacement: "\u{1e0d}"@ },
        RuleModel { pattern: "N"@, replacement: "\u{1e47}"@ },
        RuleModel { pattern: "z"@, replacement: "\u{015b}"@ },
        RuleModel { pattern: "S"@, replacement: "\u{1e63}"@ },
        RuleModel { pattern: "||"@, replacement: "\u{0965}"@ },
        RuleModel { pattern: "|"@, replacement: "\u{0964}"@ },
    ]
}

/// What `convert` makes of `text`: the substitutions, then Form KC.
pub open spec fn converted(text: Seq<char>) -> Seq<char> {
    nfkc(apply_rules(text, rules()))
}

/// No pattern of the table is empty.
pub proof fn lemma_rules_well_formed()
    ensures
        well_formed(rules()),
{
    reveal_strlit("/");
    reveal_strlit("\\");
    reveal_strlit("A");
    reveal_strlit("I");
    reveal_strlit("U");
    reveal_strlit("lRR");
    reveal_strlit("lR");
    reveal_strlit("RR");
    reveal_strlit("R");
    reveal_strlit("M");
    reveal_strlit("H");
    reveal_strlit("G");
    reveal_strlit("J");
    reveal_strlit("T");
    reveal_strlit("D");
    reveal_strlit("N");
    reveal_strlit("z");
    reveal_strlit("S");
    reveal_strlit("||");
    reveal_strlit("|");
}

/// The substitutions of the classical notation, in order.
pub fn table() -> (out: Vec<Rule>)
    ensures
        table_model(out@) == rules(),
        well_formed(table_model(out@)),
{
    let out = vec![
        Rule::new("/", "\u{0301}"),
        Rule::new("\\", "\u{0300}"),
        Rule::new("A", "a\u{0304}"),
        Rule::new("I", "i\u{0304}"),
        Rule::new("U", "u\u{0304}"),
        Rule::new("lRR", "\u{1e37}\u{0304}"),
        Rule::new("lR", "\u{1e37}"),
        Rule::new("RR", "\u{1e5b}\u{0304}"),
        Rule::new("R", "\u{1e5b}"),
        Rule::new("M", "\u{1e43}"),
        Rule::new("H", "\u{1e25}"),
        Rule::new("G", "\u{1e45}"),
        Rule::new("J", "\u{00f1}"),
        Rule::new("T", "\u{1e6d}"),
        Rule::new("D", "\u{1e0d}"),
        Rule::new("N", "\u{1e47}"),
        Rule::new("z", "\u{015b}"),
        Rule::new("S", "\u{1e63}"),
        Rule::new("||", "\u{0965}"),
        Rule::new("|", "\u{0964}"),
    ];
    proof {
        assert(table_model(out@) =~= rules());
        lemma_rules_well_formed();
    }
    out
}

/// Rewrites the notation of `input` into letters and combining marks, rule by
/// rule in the order of the table, each rule over the whole text.
pub fn ascii_to_unicode(input: &str) -> (out: String)
    ensures
        out@ == apply_rules(input@, rules()),
{
    let text = to_chars(input);
    let rules = table();
    let rewritten = rewrite(text, &rules);
    from_chars(&rewritten)
}

/// Converts `input` from the classical notation to composed Unicode: the
/// substitutions of the table, then normalization to Form KC. Defined on every
/// text; only a valid one gives a meaningful result.
pub fn convert(input: &str) -> (out: String)
    ensures
        out@ == converted(input@),
{
    let rewritten = ascii_to_unicode(input);
    normalize_unicode(rewritten.as_str())
}

/// Conversion is a function of the text: two runs on the same input return the
/// same characters, and so the same bytes.
pub proof fn lemma_convert_deterministic(input: &str, first: String, second: String)
    requires
        call_ensures(convert, (input,), first),
        call_ensures(convert, (input,), second),
    ensures
        first@ == second@,
{
}

} // verus!
