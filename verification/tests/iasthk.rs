use harvard_kyoto::iasthk::converter::{ascii_to_unicode, convert, normalize_unicode, table};
use harvard_kyoto::iasthk::validator::{
    check_ascii, diacritics_ordered, standard_characteres, tables, validate, ValidationError,
};
use harvard_kyoto::text::from_chars;

/// The substitutions written as a chain of `str::replace`, pattern by pattern.
fn chained_classical(input: &str) -> String {
    input
        .replace('/', "\u{0301}")
        .replace('\\', "\u{0300}")
        .replace('A', "a\u{0304}")
        .replace('I', "i\u{0304}")
        .replace('U', "u\u{0304}")
        .replace("lRR", "\u{1e37}\u{0304}")
        .replace("lR", "\u{1e37}")
        .replace("RR", "\u{1e5b}\u{0304}")
        .replace('R', "\u{1e5b}")
        .replace('M', "\u{1e43}")
        .replace('H', "\u{1e25}")
        .replace('G', "\u{1e45}")
        .replace('J', "\u{00f1}")
        .replace('T', "\u{1e6d}")
        .replace('D', "\u{1e0d}")
        .replace('N', "\u{1e47}")
        .replace('z', "\u{015b}")
        .replace('S', "\u{1e63}")
        .replace("||", "\u{0965}")
        .replace('|', "\u{0964}")
}

#[test]
fn test_convert() {
    let string = String::from("A");
    let result = convert(&string);
    assert_eq!(result, normalize_unicode(&"ā".to_string()));
    let string = String::from("asti nRpo");
    let result = convert(&string);
    assert_eq!(result, "asti nṛpo".to_string());
    let string = String::from("RR");
    let result = convert(&string);
    assert_eq!(result, normalize_unicode(&"ṝ".to_string()));
}

#[test]
fn unicode_normalized() {
    let input = String::from("a/sti");
    let output = normalize_unicode("ásti");
    let result = convert(&input);
    assert_eq!(result, output);
}

#[test]
fn validation() {
    assert!(validate("agnimiLepurohitaM").is_ok());
    assert!(validate("ab=").is_err());
    assert!(validate("af=").is_err());
}

#[test]
fn iast_convert_composes_letters() {
    assert_eq!(convert("A"), "\u{0101}");
    assert_eq!(convert("a/sti"), "\u{00e1}sti");
    assert_eq!(convert("RR"), "\u{1e5d}");
    assert_eq!(convert("lRR"), "\u{1e39}");
    assert_eq!(convert("kRSNa"), "k\u{1e5b}\u{1e63}\u{1e47}a");
}

#[test]
fn iast_substitution_keeps_marks_apart() {
    assert_eq!(ascii_to_unicode("A"), "a\u{0304}");
    assert_eq!(ascii_to_unicode("a/sti"), "a\u{0301}sti");
    assert_eq!(ascii_to_unicode("a\\"), "a\u{0300}");
}

#[test]
fn iast_longer_patterns_win() {
    assert_eq!(ascii_to_unicode("lRR"), "\u{1e37}\u{0304}");
    assert_eq!(ascii_to_unicode("lR"), "\u{1e37}");
    assert_eq!(ascii_to_unicode("RR"), "\u{1e5b}\u{0304}");
    assert_eq!(ascii_to_unicode("R"), "\u{1e5b}");
    assert_eq!(ascii_to_unicode("RRR"), "\u{1e5b}\u{0304}\u{1e5b}");
    assert_eq!(ascii_to_unicode("||"), "\u{0965}");
    assert_eq!(ascii_to_unicode("|"), "\u{0964}");
    assert_eq!(ascii_to_unicode("|||"), "\u{0965}\u{0964}");
}

#[test]
fn iast_every_rule_alone() {
    let rules = table();
    assert_eq!(rules.len(), 20);
    for rule in rules.iter() {
        let pattern = from_chars(&rule.pattern);
        let replacement = from_chars(&rule.replacement);
        assert_eq!(ascii_to_unicode(&pattern), replacement, "pattern {:?}", pattern);
        assert_eq!(convert(&pattern), normalize_unicode(&replacement));
    }
}

#[test]
fn iast_single_letters() {
    let expected = [
        ("M", "\u{1e43}"),
        ("H", "\u{1e25}"),
        ("G", "\u{1e45}"),
        ("J", "\u{00f1}"),
        ("T", "\u{1e6d}"),
        ("D", "\u{1e0d}"),
        ("N", "\u{1e47}"),
        ("z", "\u{015b}"),
        ("S", "\u{1e63}"),
        ("I", "\u{012b}"),
        ("U", "\u{016b}"),
    ];
    for (input, output) in expected {
        assert_eq!(convert(input), output);
    }
}

#[test]
fn iast_agrees_with_chained_replace() {
    let samples = [
        "",
        "a",
        "agnimILe purohitaM yajJasya devamRtvijam",
        "lRRlRRRRlR|||| |",
        "RlRRRlRRR",
        "zaGkara kRSNa saMskRta duHkha",
        "a/ b\\ c= //\\\\",
        "l R R lR R",
        "\u{1e37} already composed \u{0101}",
        "ABCDEFGHIJKLMNOPQRSTUVWXYZ",
        "x\ny\tz",
    ];
    for sample in samples {
        assert_eq!(ascii_to_unicode(sample), chained_classical(sample), "sample {:?}", sample);
    }
}

#[test]
fn iast_leaves_plain_text_alone() {
    assert_eq!(convert("asti"), "asti");
    assert_eq!(convert(""), "");
    assert_eq!(convert("deva-datta 'pi"), "deva-datta 'pi");
}

#[test]
fn iast_l_is_not_a_rule() {
    assert_eq!(ascii_to_unicode("L"), "L");
    assert_eq!(convert("ILe"), "\u{012b}Le");
}

#[test]
fn iast_convert_twice_gives_the_same() {
    let input = "agnimILe purohitaM||";
    assert_eq!(convert(input), convert(input));
    assert_eq!(convert(input).as_bytes(), convert(input).as_bytes());
}

#[test]
fn iast_second_pass_is_another_conversion() {
    let once = convert("\u{ff21}");
    assert_eq!(once, "A");
    let twice = convert(&once);
    assert_eq!(twice, "\u{0101}");
    assert_ne!(once, twice);
}

#[test]
fn iast_tables() {
    let tables = tables();
    assert_eq!(from_chars(&tables.consonants), "bcdghjklmprstvzGHJLMS");
    assert_eq!(from_chars(&tables.markers), "/\\=");
    assert_eq!(tables.accepted.len(), 39);
    for c in ['a', 'z', 'A', 'U', 'L', '/', '\\', '\n', '-', '|', ' ', '\''] {
        assert!(tables.accepted.contains(&c));
    }
    for c in ['f', 'q', 'w', 'x', 'y', 'T', 'D', '=', '\t', '.'] {
        assert!(!tables.accepted.contains(&c));
    }
}

#[test]
fn iast_valid_texts() {
    assert_eq!(validate(""), Ok(()));
    assert_eq!(validate("agnimiLepurohitaM"), Ok(()));
    assert_eq!(validate("a/gni\\ I/Le"), Ok(()));
    assert_eq!(validate("deva-datta 'pi\nasti ||"), Ok(()));
}

#[test]
fn iast_rejects_marker_after_consonant() {
    assert_eq!(
        validate("ab="),
        Err(ValidationError::InvalidDiacriticOrder(vec!["b=".to_string()]))
    );
    assert_eq!(
        diacritics_ordered("ab="),
        Err(ValidationError::InvalidDiacriticOrder(vec!["b=".to_string()]))
    );
}

#[test]
fn iast_rejects_unknown_characters() {
    assert_eq!(validate("af="), Err(ValidationError::InvalidChars(vec!['f', '='])));
    assert_eq!(diacritics_ordered("af="), Ok(()));
    assert_eq!(
        standard_characteres("af="),
        Err(ValidationError::InvalidChars(vec!['f', '=']))
    );
}

#[test]
fn iast_rejects_non_ascii_first() {
    assert_eq!(validate("b=f\u{e9}"), Err(ValidationError::NotASCII(vec!['\u{e9}'])));
    assert_eq!(check_ascii("b=f\u{e9}"), Err(ValidationError::NotASCII(vec!['\u{e9}'])));
    assert_eq!(check_ascii("b=f"), Ok(()));
}

#[test]
fn iast_marker_order_comes_before_character_set() {
    assert_eq!(
        validate("fb/"),
        Err(ValidationError::InvalidDiacriticOrder(vec!["b/".to_string()]))
    );
}
