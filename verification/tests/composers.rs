use cantabile::composers::{Composer, FAMOUS_COMPOSERS};
use cantabile::flac::{parse_album_artist, Artists};

fn composer(short: &str, full: &str) -> Composer {
    Composer { short_name: short.to_owned(), full_name: full.to_owned() }
}

fn bach() -> Composer {
    composer("Bach", "Johann Sebastian Bach")
}

fn beethoven() -> Composer {
    composer("Beethoven", "Ludwig van Beethoven")
}

#[test]
fn registry_has_its_entries_in_order() {
    assert_eq!(FAMOUS_COMPOSERS.len(), 23);
    assert_eq!(FAMOUS_COMPOSERS[0], ("Bach", "Johann Sebastian Bach"));
    assert_eq!(FAMOUS_COMPOSERS[13], ("Clara Schumann", "Clara Schumann"));
    assert_eq!(FAMOUS_COMPOSERS[14], ("Schumann", "Robert Schumann"));
    assert_eq!(FAMOUS_COMPOSERS[22], ("Vivaldi", "Antonio Vivaldi"));
}

#[test]
fn lookup_finds_short_and_full_names() {
    for (short, full) in FAMOUS_COMPOSERS {
        let want = Some(composer(short, full));
        assert_eq!(Composer::from_famous(short), want);
        assert_eq!(Composer::from_famous(full), want);
    }
}

#[test]
fn lookup_trims_the_candidate() {
    assert_eq!(Composer::from_famous("  Bach\t"), Some(bach()));
    assert_eq!(Composer::from_famous("\nLudwig van Beethoven "), Some(beethoven()));
}

#[test]
fn lookup_is_exact_and_case_sensitive() {
    assert_eq!(Composer::from_famous("bach"), None);
    assert_eq!(Composer::from_famous("BACH"), None);
    assert_eq!(Composer::from_famous("Bac"), None);
    assert_eq!(Composer::from_famous("Bachs"), None);
    assert_eq!(Composer::from_famous("J. S. Bach"), None);
    assert_eq!(Composer::from_famous("Johann  Sebastian Bach"), None);
    assert_eq!(Composer::from_famous("Strauss"), None);
    assert_eq!(Composer::from_famous(""), None);
    assert_eq!(Composer::from_famous("   "), None);
    assert_eq!(Composer::from_famous("John Doe"), None);
}

#[test]
fn lookup_tells_the_schumanns_and_the_strausses_apart() {
    assert_eq!(Composer::from_famous("Schumann"), Some(composer("Schumann", "Robert Schumann")));
    assert_eq!(
        Composer::from_famous("Clara Schumann"),
        Some(composer("Clara Schumann", "Clara Schumann"))
    );
    assert_eq!(Composer::from_famous("Strauss I"), Some(composer("Strauss I", "Johann Strauss I")));
    assert_eq!(
        Composer::from_famous("Johann Strauss II"),
        Some(composer("Strauss II", "Johann Strauss II"))
    );
    assert_eq!(Composer::from_famous("R. Strauss"), Some(composer("R. Strauss", "Richard Strauss")));
}

#[test]
fn composers_are_equal_by_both_names() {
    assert_eq!(bach(), bach().clone());
    assert_ne!(bach(), composer("Bach", "J. S. Bach"));
    assert_ne!(bach(), composer("J. S. Bach", "Johann Sebastian Bach"));
    assert_ne!(bach(), beethoven());
}

#[test]
fn every_registry_entry_classifies_to_itself_alone() {
    for (short, full) in FAMOUS_COMPOSERS {
        let by_short = Artists::parse_strings(&[short]);
        let by_full = Artists::parse_strings(&[full]);
        let mut want = Artists::new();
        want.add_composer(composer(short, full));
        assert_eq!(by_short, by_full);
        assert_eq!(by_short, want);
        assert!(!by_short.has_other(short));
        assert!(!by_full.has_other(full));
    }
}

#[test]
fn composer_and_performer_are_told_apart() {
    let got = Artists::parse_strings(&["Bach; John Doe"]);
    let mut want = Artists::new();
    want.add_composer(bach());
    want.add_other("John Doe");
    assert_eq!(got, want);
    assert!(got.has_composer(&bach()));
    assert!(!got.has_composer(&beethoven()));
    assert!(got.has_other("John Doe"));
    assert!(!got.has_other(" John Doe"));
    assert!(!got.has_other("Bach"));
}

#[test]
fn alternate_separators_are_normalised() {
    let got = Artists::parse_strings(&["Bach/Beethoven feat. John Doe"]);
    let mut want = Artists::new();
    want.add_composer(bach());
    want.add_composer(beethoven());
    want.add_other("John Doe");
    assert_eq!(got, want);
    assert!(!got.has_other("Beethoven feat. John Doe"));
}

#[test]
fn token_order_does_not_matter() {
    assert_eq!(Artists::parse_strings(&["A; B"]), Artists::parse_strings(&["B; A"]));
    assert_eq!(
        Artists::parse_strings(&["Bach; John Doe"]),
        Artists::parse_strings(&["John Doe; Bach"])
    );
    assert_ne!(Artists::parse_strings(&["A; B"]), Artists::parse_strings(&["A; C"]));
}

#[test]
fn input_order_and_repetition_do_not_matter() {
    let one = Artists::parse_strings(&["A; B", "B; C"]);
    let other = Artists::parse_strings(&["B; C", "A; B"]);
    assert_eq!(one, other);
    assert_eq!(one, Artists::parse_strings(&["A", "B", "C"]));
    assert_eq!(one, Artists::parse_strings(&["A;B;C;A;B;C"]));
    assert_eq!(one, Artists::parse_strings(&["A; B", "B; C", "A; B", "B; C"]));
    assert!(one.has_other("A") && one.has_other("B") && one.has_other("C"));
}

#[test]
fn empty_pieces_count_for_nothing() {
    assert_eq!(Artists::parse_strings(&[]), Artists::new());
    assert_eq!(Artists::parse_strings(&[""]), Artists::new());
    assert_eq!(Artists::parse_strings(&[" ; ;/ feat. "]), Artists::new());
    let got = Artists::parse_strings(&[";Bach;;"]);
    let mut want = Artists::new();
    want.add_composer(bach());
    assert_eq!(got, want);
    assert!(!got.has_other(""));
}

#[test]
fn names_are_trimmed_before_they_are_compared() {
    let got = Artists::parse_strings(&["  Johann Sebastian Bach  /John Doe ;John Doe"]);
    let mut want = Artists::new();
    want.add_composer(bach());
    want.add_other("John Doe");
    assert_eq!(got, want);
}

#[test]
fn artist_sets_are_equal_as_sets() {
    let mut a = Artists::new();
    a.add_other("x");
    a.add_composer(bach());
    a.add_other("y");
    a.add_other("x");
    let mut b = Artists::default();
    b.add_other("y");
    b.add_composer(bach());
    b.add_composer(bach());
    b.add_other("x");
    assert_eq!(a, b);
    assert!(a.within(&b) && b.within(&a));
    b.add_other("z");
    assert_ne!(a, b);
    assert!(a.within(&b));
    assert!(!b.within(&a));
    assert_eq!(b.clone(), b);
    assert_ne!(Artists::new(), a);
}

#[test]
fn add_string_looks_the_name_up() {
    let mut a = Artists::new();
    a.add_string(" Bach ");
    a.add_string("Ludwig van Beethoven");
    a.add_string(" John Doe ");
    assert!(a.has_composer(&bach()));
    assert!(a.has_composer(&beethoven()));
    assert!(a.has_other(" John Doe "));
    assert!(!a.has_other("John Doe"));
    assert!(!a.has_other(" Bach "));
    let mut b = Artists::new();
    b.add_composer(beethoven());
    b.add_other(" John Doe ");
    b.add_composer(bach());
    assert_eq!(a, b);
}

#[test]
fn add_other_does_not_look_the_name_up() {
    let mut a = Artists::new();
    a.add_other("Bach");
    assert!(a.has_other("Bach"));
    assert!(!a.has_composer(&bach()));
}

#[test]
fn album_artists_are_listed_in_order() {
    let (composers, others) = parse_album_artist("John Doe; Bach;x; Ludwig van Beethoven ;Bach;;x");
    assert_eq!(composers, vec![bach(), beethoven(), bach()]);
    assert_eq!(others, vec!["John Doe".to_owned(), "x".to_owned(), "".to_owned(), "x".to_owned()]);
    let (composers, others) = parse_album_artist("Bach/Beethoven; Jane ");
    assert_eq!(composers, Vec::<Composer>::new());
    assert_eq!(others, vec!["Bach/Beethoven".to_owned(), " Jane ".to_owned()]);
    let (composers, others) = parse_album_artist("");
    assert_eq!(composers, Vec::<Composer>::new());
    assert_eq!(others, vec!["".to_owned()]);
}

#[test]
fn artists_are_listed_once_each() {
    let got = Artists::parse_strings(&["John Doe; Bach; John Doe", "Johann Sebastian Bach/Jane Roe"]);
    assert_eq!(got.composers(), &vec![bach()]);
    assert_eq!(got.others(), &vec!["John Doe".to_owned(), "Jane Roe".to_owned()]);
    assert!(Artists::new().composers().is_empty());
    assert!(Artists::new().others().is_empty());
}
