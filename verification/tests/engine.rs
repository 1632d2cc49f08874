use harvard_kyoto::normalize::normalize_unicode;
use harvard_kyoto::rewrite::{matches_at, replace, rewrite, Rule};
use harvard_kyoto::text::{contains, from_chars, to_chars};
use unicode_normalization::UnicodeNormalization;

fn replaced(text: &str, pattern: &str, replacement: &str) -> String {
    from_chars(&replace(&to_chars(text), &to_chars(pattern), &to_chars(replacement)))
}

#[test]
fn chars_round_trip() {
    for text in ["", "a", "agni", "\u{0101}\u{1e37} x", "a\u{0304}\n"] {
        let chars = to_chars(text);
        assert_eq!(chars, text.chars().collect::<Vec<char>>());
        assert_eq!(from_chars(&chars), text);
    }
}

#[test]
fn contains_finds_members_only() {
    let list = to_chars("abc/");
    assert!(contains(&list, 'a'));
    assert!(contains(&list, '/'));
    assert!(!contains(&list, 'd'));
    assert!(!contains(&Vec::new(), 'a'));
}

#[test]
fn matches_at_positions() {
    let text = to_chars("alRRa");
    let pattern = to_chars("RR");
    assert!(!matches_at(&text, 0, &pattern));
    assert!(!matches_at(&text, 1, &pattern));
    assert!(matches_at(&text, 2, &pattern));
    assert!(!matches_at(&text, 3, &pattern));
    assert!(!matches_at(&text, 4, &pattern));
    assert!(!matches_at(&text, 5, &pattern));
}

#[test]
fn replace_every_occurrence() {
    assert_eq!(replaced("aRbRc", "R", "xy"), "axybxyc");
    assert_eq!(replaced("RRR", "RR", "x"), "xR");
    assert_eq!(replaced("aaaa", "aa", "b"), "bb");
    assert_eq!(replaced("aaa", "aa", "b"), "ba");
    assert_eq!(replaced("abc", "abcd", "x"), "abc");
    assert_eq!(replaced("", "a", "x"), "");
    assert_eq!(replaced("abc", "b", ""), "ac");
    assert_eq!(replaced("abab", "ab", "ab"), "abab");
}

#[test]
fn replace_agrees_with_std() {
    let texts = ["", "a", "aaaaa", "abababa", "lRRlRlRRR", "||| ||", "xyzzy", "a\u{0304}a\u{0304}"];
    let patterns = ["a", "aa", "aba", "R", "RR", "lRR", "|", "||", "zz", "\u{0304}"];
    let replacements = ["", "x", "aa", "\u{1e5b}\u{0304}"];
    for text in texts {
        for pattern in patterns {
            for replacement in replacements {
                assert_eq!(
                    replaced(text, pattern, replacement),
                    text.replace(pattern, replacement),
                    "{:?} {:?} {:?}",
                    text,
                    pattern,
                    replacement
                );
            }
        }
    }
}

#[test]
fn rewrite_applies_rules_in_order() {
    let forward = vec![Rule::new("a", "b"), Rule::new("b", "c")];
    assert_eq!(from_chars(&rewrite(to_chars("aab"), &forward)), "ccc");
    let backward = vec![Rule::new("b", "c"), Rule::new("a", "b")];
    assert_eq!(from_chars(&rewrite(to_chars("aab"), &backward)), "bbc");
    assert_eq!(from_chars(&rewrite(to_chars("aab"), &Vec::new())), "aab");
}

#[test]
fn rewrite_shorter_pattern_first_hides_the_longer() {
    let long_first = vec![Rule::new("RR", "x"), Rule::new("R", "y")];
    assert_eq!(from_chars(&rewrite(to_chars("RR"), &long_first)), "x");
    let short_first = vec![Rule::new("R", "y"), Rule::new("RR", "x")];
    assert_eq!(from_chars(&rewrite(to_chars("RR"), &short_first)), "yy");
}

#[test]
fn normalize_composes() {
    assert_eq!(normalize_unicode("a\u{0304}"), "\u{0101}");
    assert_eq!(normalize_unicode("a\u{0301}"), "\u{00e1}");
    assert_eq!(normalize_unicode("\u{1e5b}\u{0304}"), "\u{1e5d}");
    assert_eq!(normalize_unicode("\u{ff21}"), "A");
    assert_eq!(normalize_unicode("asti"), "asti");
    assert_eq!(normalize_unicode(""), "");
}

#[test]
fn normalize_agrees_with_the_normalizer() {
    for text in ["a\u{0304}\u{0301}", "r\u{0325}\u{0304}", "m\u{0310}", "\u{fb01}", "\u{0965}"] {
        assert_eq!(normalize_unicode(text), text.nfkc().collect::<String>());
    }
}

fn occurs_in(needle: &[char], hay: &[char]) -> bool {
    !needle.is_empty() && hay.windows(needle.len()).any(|window| window == needle)
}

fn shadowed(rules: &[Rule]) -> Vec<(String, String)> {
    let mut pairs = Vec::new();
    for (later, rule) in rules.iter().enumerate() {
        for earlier in &rules[..later] {
            if occurs_in(&earlier.pattern, &rule.pattern) {
                pairs.push((from_chars(&earlier.pattern), from_chars(&rule.pattern)));
            }
        }
    }
    pairs
}

#[test]
fn no_rule_is_shadowed_by_an_earlier_one() {
    assert_eq!(shadowed(&harvard_kyoto::iasthk::converter::table()), Vec::new());
    assert_eq!(shadowed(&harvard_kyoto::vedichk::converter::table()), Vec::new());
    let wrong = vec![Rule::new("R", "y"), Rule::new("RR", "x")];
    assert_eq!(shadowed(&wrong), vec![("R".to_string(), "RR".to_string())]);
}

#[test]
fn every_short_text_is_replaced_as_std_replaces() {
    let letters = ['a', 'b', '|'];
    let mut texts = vec![String::new()];
    let mut last = vec![String::new()];
    for _ in 0..6 {
        let mut next = Vec::new();
        for text in &last {
            for letter in letters {
                let mut longer = text.clone();
                longer.push(letter);
                next.push(longer);
            }
        }
        texts.extend(next.iter().cloned());
        last = next;
    }
    for text in &texts {
        for pattern in ["a", "ab", "aa", "aba", "||", "|", "bab"] {
            assert_eq!(
                replaced(text, pattern, "\u{0965}x"),
                text.replace(pattern, "\u{0965}x"),
                "{:?} {:?}",
                text,
                pattern
            );
        }
    }
}
