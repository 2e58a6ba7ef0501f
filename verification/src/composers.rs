//! The registry of well-known composers and its exact-match lookup.

use crate::text::{
    chars_of, clean_from, is_space, lemma_clean_from, lemma_plain, plain, same_text, trim, trimmed,
};
use vstd::prelude::*;
use vstd::std_specs::cmp::PartialEqSpecImpl;

verus! {

/// The registry: pairs of short name and full name, in lookup order.
pub const FAMOUS_COMPOSERS: [(&'static str, &'static str); 23] = [
    ("Bach", "Johann Sebastian Bach"),
    ("Beethoven", "Ludwig van Beethoven"),
    ("Bizet", "Georges Bizet"),
    ("Borodin", "Alexander Borodin"),
    ("Chopin", "Frédéric Chopin"),
    ("Dvořák", "Antonín Dvořák"),
    ("Elgar", "Edward Elgar"),
    ("Grieg", "Edvard Grieg"),
    ("Mendelssohn", "Felix Mendelssohn"),
    ("Mozart", "Wolfgang Amadeus Mozart"),
    ("Rachmaninoff", "Sergei Rachmaninoff"),
    ("Rossini", "Gioachino Rossini"),
    ("Schubert", "Franz Schubert"),
    ("Clara Schumann", "Clara Schumann"),
    ("Schumann", "Robert Schumann"),
    ("Shchedrin", "Rodrigo Shchedrin"),
    ("Shostakovich", "Dmitri Shostakovich"),
    ("Strauss I", "Johann Strauss I"),
    ("Strauss II", "Johann Strauss II"),
    ("R. Strauss", "Richard Strauss"),
    ("Sullivan", "Arthur Sullivan"),
    ("Tchaikovsky", "Pyotr Ilyich Tchaikovsky"),
    ("Vivaldi", "Antonio Vivaldi"),
];

/// A composer of the registry.
#[derive(Debug, Eq, Hash)]
pub struct Composer {
    pub short_name: String,
    pub full_name: String,
}

/// What a `Composer` stands for: its two names as character sequences.
pub struct ComposerView {
    pub short_name: Seq<char>,
    pub full_name: Seq<char>,
}

impl View for Composer {
    type V = ComposerView;

    open spec fn view(&self) -> ComposerView {
        ComposerView { short_name: self.short_name@, full_name: self.full_name@ }
    }
}

impl Clone for Composer {
    fn clone(&self) -> (r: Self)
        ensures
            r@ == self@,
    {
        Composer { short_name: self.short_name.clone(), full_name: self.full_name.clone() }
    }
}

impl PartialEq for Composer {
    /// Two composers are equal when both names are.
    fn eq(&self, other: &Self) -> (r: bool) {
        self.short_name == other.short_name && self.full_name == other.full_name
    }
}

impl PartialEqSpecImpl for Composer {
    open spec fn obeys_eq_spec() -> bool {
        true
    }

    open spec fn eq_spec(&self, other: &Self) -> bool {
        self.short_name@ == other.short_name@ && self.full_name@ == other.full_name@
    }
}

/// The number of entries in the registry.
pub open spec fn registry_len() -> int {
    23
}

/// The `i`-th entry of the registry.
pub open spec fn entry(i: int) -> ComposerView {
    ComposerView { short_name: FAMOUS_COMPOSERS[i].0@, full_name: FAMOUS_COMPOSERS[i].1@ }
}

/// Whether `name` is exactly the short or the full name of the `i`-th entry.
pub open spec fn names_entry(name: Seq<char>, i: int) -> bool {
    name == entry(i).short_name || name == entry(i).full_name
}

/// The first entry from position `i` on that `name` names, if any.
pub open spec fn lookup_from(name: Seq<char>, i: int) -> Option<ComposerView>
    decreases registry_len() - i,
{
    if i < 0 || i >= registry_len() {
        None
    } else if names_entry(name, i) {
        Some(entry(i))
    } else {
        lookup_from(name, i + 1)
    }
}

/// The composer that `candidate` names once its blanks at both ends are
/// removed: the first entry of the registry whose short or full name is
/// exactly the trimmed candidate.
pub open spec fn lookup(candidate: Seq<char>) -> Option<ComposerView> {
    lookup_from(trimmed(candidate), 0)
}

/// The views inside an optional composer.
pub open spec fn composer_view(c: Option<Composer>) -> Option<ComposerView> {
    match c {
        Some(c) => Some(c@),
        None => None,
    }
}

/// Whether `a` and `b` differ in their length, their first character or
/// their last character but one; two such strings are not equal.
pub open spec fn apart(a: Seq<char>, b: Seq<char>) -> bool {
    a.len() != b.len() || (a.len() >= 2 && (a[0] != b[0] || a[a.len() - 2] != b[b.len() - 2]))
}

/// Whether `name` is apart from both names of each entry before the `j`-th.
pub open spec fn unused_before(name: Seq<char>, j: int) -> bool
    decreases j,
{
    if j <= 0 || j > registry_len() {
        true
    } else {
        &&& apart(name, entry(j - 1).short_name)
        &&& apart(name, entry(j - 1).full_name)
        &&& unused_before(name, j - 1)
    }
}

/// Whether `name` can stand in the registry as a name of the `i`-th entry:
/// it is plain, and no earlier entry has it.
pub open spec fn sound_name(name: Seq<char>, i: int) -> bool {
    &&& name.len() > 0
    &&& !is_space(name[0])
    &&& !is_space(name.last())
    &&& clean_from(name, 0)
    &&& unused_before(name, i)
}

/// Whether both names of each entry from the `i`-th on are sound.
pub open spec fn sound_from(i: int) -> bool
    decreases registry_len() - i,
{
    if i < 0 || i >= registry_len() {
        true
    } else {
        &&& sound_name(entry(i).short_name, i)
        &&& sound_name(entry(i).full_name, i)
        &&& sound_from(i + 1)
    }
}

/// The registry is sound: every name in it is plain, and no name of an
/// entry is a name of an earlier one.
pub proof fn lemma_registry_sound()
    ensures
        sound_from(0),
{
    reveal_strlit("Bach");
    reveal_strlit("Johann Sebastian Bach");
    reveal_strlit("Beethoven");
    reveal_strlit("Ludwig van Beethoven");
    reveal_strlit("Bizet");
    reveal_strlit("Georges Bizet");
    reveal_strlit("Borodin");
    reveal_strlit("Alexander Borodin");
    reveal_strlit("Chopin");
    reveal_strlit("Frédéric Chopin");
    reveal_strlit("Dvořák");
    reveal_strlit("Antonín Dvořák");
    reveal_strlit("Elgar");
    reveal_strlit("Edward Elgar");
    reveal_strlit("Grieg");
    reveal_strlit("Edvard Grieg");
    reveal_strlit("Mendelssohn");
    reveal_strlit("Felix Mendelssohn");
    reveal_strlit("Mozart");
    reveal_strlit("Wolfgang Amadeus Mozart");
    reveal_strlit("Rachmaninoff");
    reveal_strlit("Sergei Rachmaninoff");
    reveal_strlit("Rossini");
    reveal_strlit("Gioachino Rossini");
    reveal_strlit("Schubert");
    reveal_strlit("Franz Schubert");
    reveal_strlit("Clara Schumann");
    reveal_strlit("Schumann");
    reveal_strlit("Robert Schumann");
    reveal_strlit("Shchedrin");
    reveal_strlit("Rodrigo Shchedrin");
    reveal_strlit("Shostakovich");
    reveal_strlit("Dmitri Shostakovich");
    reveal_strlit("Strauss I");
    reveal_strlit("Johann Strauss I");
    reveal_strlit("Strauss II");
    reveal_strlit("Johann Strauss II");
    reveal_strlit("R. Strauss");
    reveal_strlit("Richard Strauss");
    reveal_strlit("Sullivan");
    reveal_strlit("Arthur Sullivan");
    reveal_strlit("Tchaikovsky");
    reveal_strlit("Pyotr Ilyich Tchaikovsky");
    reveal_strlit("Vivaldi");
    reveal_strlit("Antonio Vivaldi");
    reveal_with_fuel(sound_from, 24);
    reveal_with_fuel(unused_before, 24);
    reveal_with_fuel(clean_from, 26);
}

/// Soundness from `i` on holds of each later entry.
pub proof fn lemma_sound_at(i: int, k: int)
    requires
        0 <= i <= k < registry_len(),
        sound_from(i),
    ensures
        sound_name(entry(k).short_name, k),
        sound_name(entry(k).full_name, k),
    decreases k - i,
{
    if i < k {
        lemma_sound_at(i + 1, k);
    }
}

/// A name that is apart from the names of all entries before the `j`-th
/// names none of them.
pub proof fn lemma_unused_before(name: Seq<char>, j: int)
    requires
        0 <= j <= registry_len(),
        unused_before(name, j),
    ensures
        forall|m: int| 0 <= m < j ==> !#[trigger] names_entry(name, m),
    decreases j,
{
    if j > 0 {
        lemma_unused_before(name, j - 1);
    }
}

/// Where no entry from `i` up to `k` has `name` and the `k`-th has it, the
/// search from `i` finds the `k`-th.
pub proof fn lemma_lookup_finds(name: Seq<char>, i: int, k: int)
    requires
        0 <= i <= k < registry_len(),
        forall|m: int| i <= m < k ==> !#[trigger] names_entry(name, m),
        names_entry(name, k),
    ensures
        lookup_from(name, i) == Some(entry(k)),
    decreases k - i,
{
    if i < k {
        lemma_lookup_finds(name, i + 1, k);
    }
}

/// Each name of the registry is plain, and looking it up gives its own
/// entry.
pub proof fn lemma_registry_entry(i: int)
    requires
        0 <= i < registry_len(),
    ensures
        plain(entry(i).short_name),
        plain(entry(i).full_name),
        lookup(entry(i).short_name) == Some(entry(i)),
        lookup(entry(i).full_name) == Some(entry(i)),
{
    let short = entry(i).short_name;
    let full = entry(i).full_name;
    lemma_registry_sound();
    lemma_sound_at(0, i);
    lemma_clean_from(short, 0);
    lemma_clean_from(full, 0);
    lemma_plain(short);
    lemma_plain(full);
    lemma_unused_before(short, i);
    lemma_unused_before(full, i);
    lemma_lookup_finds(short, 0, i);
    lemma_lookup_finds(full, 0, i);
}

impl Composer {
    /// Looks `s` up in the registry: trims it, then returns the first entry
    /// whose short or full name is exactly the trimmed text.
    #[must_use]
    pub fn from_famous(s: &str) -> (r: Option<Composer>)
        ensures
            composer_view(r) == lookup(s@),
    {
        let name = trim(&chars_of(s));
        let mut i: usize = 0;
        while i < 23
            invariant
                i <= 23,
                name@ == trimmed(s@),
                lookup_from(name@, i as int) == lookup(s@),
            decreases 23 - i,
        {
            let (short, full) = FAMOUS_COMPOSERS[i];
            if same_text(short, &name) || same_text(full, &name) {
                return Some(Composer { short_name: short.to_owned(), full_name: full.to_owned() });
            }
            i += 1;
        }
        None
    }
}

} // verus!
