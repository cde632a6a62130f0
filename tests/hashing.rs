use hashmatch::hash::{hash_arm, hash_str, literal_text, MalformedLiteral};

#[test]
fn parse_str() {
    let input = "\"wadwa\"";
    let value = literal_text(input).unwrap();
    assert_eq!("wadwa", &value);
}

#[test]
fn demo() {
    let arm = |lit: &str| hash_arm(lit).unwrap();
    let h = hash_str("ABC");
    let res = if h == arm("\"ABC\"") {
        1
    } else if h == arm("\"AAA\"") || h == arm("\"BBB\"") {
        2
    } else {
        3
    };
    assert_eq!(res, 1);
}

#[test]
fn hash_is_repeatable_within_a_run() {
    assert_eq!(hash_str("vukddz"), hash_str("vukddz"));
    assert_eq!(hash_str(&String::from("qwhkdyjog")), hash_str("qwhkdyjog"));
}

#[test]
fn hash_matches_constants_from_an_earlier_build() {
    assert_eq!(hash_str("xrxeclxu"), 10609036174714360756);
    assert_eq!(hash_str("vukddz"), 16318186236859975462);
    assert_eq!(hash_str("qwhkdyjog"), 15192521078157042894);
    assert_eq!(hash_str("dpesutax"), 7132384987385148670);
    assert_eq!(hash_str("tqgzzfcblp"), 8589146856602784662);
}

#[test]
fn hash_separates_different_strings() {
    assert_ne!(hash_str("a"), hash_str("b"));
    assert_ne!(hash_str(""), hash_str("a"));
}

#[test]
fn hash_arm_is_hash_of_literal_value() {
    assert_eq!(hash_arm("\"xrxeclxu\""), Ok(hash_str("xrxeclxu")));
    assert_eq!(hash_arm("\"a\\nb\""), Ok(hash_str("a\nb")));
    assert_ne!(hash_arm("\"abc\"").unwrap(), hash_str("\"abc\""));
}

#[test]
fn hash_arm_rejects_non_literals() {
    assert_eq!(hash_arm("abc"), Err(MalformedLiteral));
    assert_eq!(hash_arm("42"), Err(MalformedLiteral));
    assert_eq!(hash_arm(""), Err(MalformedLiteral));
    assert_eq!(literal_text("\"unterminated"), Err(MalformedLiteral));
}

#[test]
fn literal_text_unescapes() {
    assert_eq!(literal_text("\"tab\\there\"").unwrap(), "tab\there");
    assert_eq!(literal_text("r\"raw\\n\"").unwrap(), "raw\\n");
}
