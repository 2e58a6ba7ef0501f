//! What holds of classification and of track building whatever the input.

use crate::classify::{
    all_names, classified, lemma_all_names_concat, lemma_all_names_single, lemma_of_names_empty,
    lemma_of_names_insert, lemma_piece_names_concat, names_in, ArtistsView,
};
use crate::composers::{entry, lemma_registry_entry, lookup_from, names_entry, registry_len};
use crate::flac::{Error, TagFields};
use crate::text::{
    lemma_normalized_joined, lemma_pieces_joined, lemma_plain, normalized, pieces, plain, trimmed,
    SEPARATOR,
};
use vstd::prelude::*;

verus! {

/// A search of the registry from position `i` on gives the first entry at
/// or after `i` that the name names, and nothing where no entry does.
pub proof fn law_lookup_gives_first_match(name: Seq<char>, i: int)
    requires
        0 <= i <= registry_len(),
    ensures
        match lookup_from(name, i) {
            Some(c) => exists|k: int|
                i <= k < registry_len() && c == entry(k) && #[trigger] names_entry(name, k)
                    && forall|j: int| i <= j < k ==> !#[trigger] names_entry(name, j),
            None => forall|j: int| i <= j < registry_len() ==> !#[trigger] names_entry(name, j),
        },
    decreases registry_len() - i,
{
    if i < registry_len() && !names_entry(name, i) {
        law_lookup_gives_first_match(name, i + 1);
        if lookup_from(name, i) is Some {
            let k = choose|k: int|
                i + 1 <= k < registry_len() && lookup_from(name, i + 1) == Some(entry(k))
                    && #[trigger] names_entry(name, k) && forall|j: int|
                    i + 1 <= j < k ==> !#[trigger] names_entry(name, j);
            assert(names_entry(name, k));
        }
    } else if i < registry_len() {
        assert(names_entry(name, i));
    }
}

/// A plain name holds itself as its only name.
pub proof fn law_plain_name_alone(name: Seq<char>)
    requires
        plain(name),
    ensures
        names_in(name) == set![name],
{
    lemma_plain(name);
    let ps = pieces(normalized(name));
    assert(ps[0] == name);
    assert forall|t: Seq<char>| names_in(name).contains(t) == (t == name) by {
        if names_in(name).contains(t) {
            let j = choose|j: int| 0 <= j < ps.len() && t == trimmed(#[trigger] ps[j]);
            assert(ps[j] == name);
        }
    }
    assert(names_in(name) =~= set![name]);
}

/// Classifying the short name of a registry entry, or its full name, gives
/// the artist set that holds this entry's composer and nothing else.
pub proof fn law_registry_names_classify_alike(i: int)
    requires
        0 <= i < registry_len(),
    ensures
        classified(seq![entry(i).short_name]) == classified(seq![entry(i).full_name]),
        classified(seq![entry(i).short_name]) == ArtistsView::empty().with_composer(entry(i)),
{
    lemma_registry_entry(i);
    let short = entry(i).short_name;
    let full = entry(i).full_name;
    lemma_of_names_empty();
    law_plain_name_alone(short);
    lemma_all_names_single(short);
    lemma_of_names_insert(Set::empty(), short);
    assert(Set::<Seq<char>>::empty().insert(short) =~= set![short]);
    law_plain_name_alone(full);
    lemma_all_names_single(full);
    lemma_of_names_insert(Set::empty(), full);
    assert(Set::<Seq<char>>::empty().insert(full) =~= set![full]);
}

/// Two raw strings joined by the canonical separator hold the names of the
/// one and those of the other.
pub proof fn law_joined_names(a: Seq<char>, b: Seq<char>)
    ensures
        names_in(a + seq![SEPARATOR] + b) == names_in(a).union(names_in(b)),
{
    lemma_normalized_joined(a, b);
    lemma_pieces_joined(normalized(a), normalized(b));
    lemma_piece_names_concat(pieces(normalized(a)), pieces(normalized(b)));
}

/// The order of two names in one raw string does not matter: `a;b` and
/// `b;a` classify to the same artist set.
pub proof fn law_token_order_is_irrelevant(a: Seq<char>, b: Seq<char>)
    ensures
        classified(seq![a + seq![SEPARATOR] + b]) == classified(seq![b + seq![SEPARATOR] + a]),
{
    law_joined_names(a, b);
    law_joined_names(b, a);
    lemma_all_names_single(a + seq![SEPARATOR] + b);
    lemma_all_names_single(b + seq![SEPARATOR] + a);
    assert(names_in(a).union(names_in(b)) =~= names_in(b).union(names_in(a)));
}

/// The order of the raw strings does not matter.
pub proof fn law_input_order_is_irrelevant(xs: Seq<Seq<char>>, ys: Seq<Seq<char>>)
    ensures
        classified(xs + ys) == classified(ys + xs),
{
    lemma_all_names_concat(xs, ys);
    lemma_all_names_concat(ys, xs);
    assert(all_names(xs).union(all_names(ys)) =~= all_names(ys).union(all_names(xs)));
}

/// Submitting raw strings a second time changes nothing.
pub proof fn law_repetition_is_irrelevant(xs: Seq<Seq<char>>)
    ensures
        classified(xs + xs) == classified(xs),
{
    lemma_all_names_concat(xs, xs);
    assert(all_names(xs).union(all_names(xs)) =~= all_names(xs));
}

/// Several names in one raw string classify as the same names given one by
/// one.
pub proof fn law_joined_is_separate(a: Seq<char>, b: Seq<char>)
    ensures
        classified(seq![a + seq![SEPARATOR] + b]) == classified(seq![a, b]),
{
    law_joined_names(a, b);
    lemma_all_names_single(a + seq![SEPARATOR] + b);
    lemma_all_names_single(a);
    lemma_all_names_single(b);
    assert(seq![a, b] =~= seq![a] + seq![b]);
    lemma_all_names_concat(seq![a], seq![b]);
}

/// Fields without a title are rejected for the missing title, whatever
/// else they hold.
pub proof fn law_missing_title_comes_first(tags: TagFields)
    requires
        tags.title is None,
    ensures
        tags.rejection() == Some(Error::MissingTitle),
{
}

/// A year is accepted exactly when it lies in `0..=65535`: among fields
/// that have a title, a performer and an album performer, those with a
/// year outside that range are rejected for this year, and no others are
/// rejected for a year.
pub proof fn law_year_range(tags: TagFields)
    requires
        tags.title is Some,
        tags.artist is Some,
        tags.album_artist is Some,
    ensures
        tags.year is Some && !(0 <= tags.year->0 <= 65535) ==> tags.rejection() == Some(
            Error::InvalidYear(tags.year->0),
        ),
        tags.year is None || 0 <= tags.year->0 <= 65535 ==> !(tags.rejection() matches Some(
            Error::InvalidYear(_),
        )),
{
}

} // verus!
