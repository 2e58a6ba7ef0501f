use cantabile::text::{
    chars_of, has_marker_at, is_whitespace, normalize, same_text, split, text_of, trim, SEPARATOR,
    SLASH,
};

fn chars(s: &str) -> Vec<char> {
    s.chars().collect()
}

fn string(v: &[char]) -> String {
    v.iter().collect()
}

const SAMPLES: [&str; 16] = [
    "",
    " ",
    "Bach",
    "  Bach  ",
    "\tJohn Doe\n",
    "Bach; John Doe",
    "Bach/Beethoven feat. John Doe",
    "a;;b",
    ";",
    "feat.",
    "feat.feat.",
    "ffeat.",
    "feat",
    "x/feat.;y/",
    "\u{a0}Dvořák\u{3000}",
    "Frédéric Chopin feat.Antonín Dvořák",
];

#[test]
fn blanks_are_those_of_the_standard_library() {
    let mut c: u32 = 0;
    while c <= 0x10FFFF {
        if let Some(ch) = char::from_u32(c) {
            assert_eq!(is_whitespace(ch), ch.is_whitespace(), "code point {c:#x}");
        }
        c += 1;
    }
}

#[test]
fn separators_are_as_documented() {
    assert_eq!(SEPARATOR, ';');
    assert_eq!(SLASH, '/');
}

#[test]
fn chars_and_text_are_inverse() {
    for s in SAMPLES {
        let v = chars_of(s);
        assert_eq!(v, chars(s));
        assert_eq!(text_of(&v), s);
    }
    assert_eq!(text_of(&vec!['a', 'é', 'ř']), "aéř");
}

#[test]
fn same_text_compares_exactly() {
    assert!(same_text("Bach", &chars("Bach")));
    assert!(same_text("", &chars("")));
    assert!(same_text("Dvořák", &chars("Dvořák")));
    assert!(!same_text("Bach", &chars("bach")));
    assert!(!same_text("Bach", &chars("Bac")));
    assert!(!same_text("Bac", &chars("Bach")));
    assert!(!same_text("Bach", &chars("")));
    assert!(!same_text("", &chars("Bach")));
}

#[test]
fn trim_agrees_with_the_standard_library() {
    for s in SAMPLES {
        assert_eq!(string(&trim(&chars(s))), s.trim(), "trimming {s:?}");
    }
    assert_eq!(string(&trim(&chars("  a b  "))), "a b");
    assert_eq!(string(&trim(&chars(" \t\n "))), "");
    assert_eq!(string(&trim(&chars("\u{2003}x\u{205f}"))), "x");
}

#[test]
fn marker_is_found_where_it_stands() {
    let v = chars("a feat. b");
    assert!(has_marker_at(&v, 2));
    assert!(!has_marker_at(&v, 1));
    assert!(!has_marker_at(&v, 3));
    assert!(!has_marker_at(&v, 8));
    assert!(!has_marker_at(&v, 100));
    assert!(!has_marker_at(&chars("feat"), 0));
    assert!(has_marker_at(&chars("feat."), 0));
    assert!(!has_marker_at(&chars("Feat."), 0));
}

#[test]
fn normalize_agrees_with_two_replacements() {
    for s in SAMPLES {
        let want = s.replace("/", ";").replace("feat.", ";");
        assert_eq!(string(&normalize(&chars(s))), want, "normalising {s:?}");
    }
    assert_eq!(string(&normalize(&chars("Bach/Beethoven feat. John Doe"))), "Bach;Beethoven ; John Doe");
}

#[test]
fn split_agrees_with_the_standard_library() {
    for s in SAMPLES {
        let got: Vec<String> = split(&chars(s)).iter().map(|p| string(p)).collect();
        let want: Vec<String> = s.split(';').map(|p| p.to_owned()).collect();
        assert_eq!(got, want, "splitting {s:?}");
    }
    let got = split(&chars("a;;b;"));
    assert_eq!(got, vec![chars("a"), chars(""), chars("b"), chars("")]);
    assert_eq!(split(&chars("")), vec![chars("")]);
}
