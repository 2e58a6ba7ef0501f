//! What classification means: the names that a raw artist string holds, and
//! the composers and other performers among a set of names.

use crate::composers::{lookup, ComposerView};
use crate::text::{normalized, pieces, trimmed};
use vstd::prelude::*;

verus! {

/// What an artist set stands for: a set of composers and a set of names of
/// other performers.
pub struct ArtistsView {
    pub composers: Set<ComposerView>,
    pub others: Set<Seq<char>>,
}

impl ArtistsView {
    /// The artist set without any artist.
    pub open spec fn empty() -> ArtistsView {
        ArtistsView { composers: Set::empty(), others: Set::empty() }
    }

    /// This artist set and the composer `c`.
    pub open spec fn with_composer(self, c: ComposerView) -> ArtistsView {
        ArtistsView { composers: self.composers.insert(c), others: self.others }
    }

    /// This artist set and the other performer `name`.
    pub open spec fn with_other(self, name: Seq<char>) -> ArtistsView {
        ArtistsView { composers: self.composers, others: self.others.insert(name) }
    }

    /// This artist set and the artist `name`: the composer that the registry
    /// has for it, or else `name` as another performer.
    pub open spec fn with_name(self, name: Seq<char>) -> ArtistsView {
        match lookup(name) {
            Some(c) => self.with_composer(c),
            None => self.with_other(name),
        }
    }

    /// The artists of this set and of `other`.
    pub open spec fn union(self, other: ArtistsView) -> ArtistsView {
        ArtistsView {
            composers: self.composers.union(other.composers),
            others: self.others.union(other.others),
        }
    }
}

/// The names among `ps`: each piece trimmed, the empty ones left out.
pub open spec fn piece_names(ps: Seq<Seq<char>>) -> Set<Seq<char>> {
    Set::new(
        |t: Seq<char>|
            t.len() > 0 && exists|j: int| 0 <= j < ps.len() && t == trimmed(#[trigger] ps[j]),
    )
}

/// The names that the raw artist string `raw` holds: it is normalised, split
/// at the canonical separator, and each piece is trimmed; empty pieces count
/// for nothing.
pub open spec fn names_in(raw: Seq<char>) -> Set<Seq<char>> {
    piece_names(pieces(normalized(raw)))
}

/// The names that any of `raws` holds.
pub open spec fn all_names(raws: Seq<Seq<char>>) -> Set<Seq<char>> {
    Set::new(
        |t: Seq<char>| exists|i: int| 0 <= i < raws.len() && names_in(#[trigger] raws[i]).contains(t),
    )
}

/// The artists that `names` name: the composers that the registry has for
/// any of them, and the names for which it has none.
pub open spec fn of_names(names: Set<Seq<char>>) -> ArtistsView {
    ArtistsView {
        composers: Set::new(
            |c: ComposerView| exists|t: Seq<char>| #[trigger] names.contains(t) && lookup(t) == Some(c),
        ),
        others: Set::new(|t: Seq<char>| names.contains(t) && lookup(t) is None),
    }
}

/// The artist set that the raw artist strings `raws` classify to.
pub open spec fn classified(raws: Seq<Seq<char>>) -> ArtistsView {
    of_names(all_names(raws))
}

/// No names name no artists.
pub proof fn lemma_of_names_empty()
    ensures
        of_names(Set::empty()) == ArtistsView::empty(),
{
    let a = of_names(Set::empty());
    assert(a.composers =~= Set::empty());
    assert(a.others =~= Set::empty());
}

/// One more name adds the artist that it names.
pub proof fn lemma_of_names_insert(names: Set<Seq<char>>, t: Seq<char>)
    ensures
        of_names(names.insert(t)) == of_names(names).with_name(t),
{
    let more = names.insert(t);
    let a = of_names(more);
    let b = of_names(names).with_name(t);
    assert(more.contains(t));
    assert forall|c: ComposerView| a.composers.contains(c) == b.composers.contains(c) by {
        if a.composers.contains(c) {
            let u = choose|u: Seq<char>| #[trigger] more.contains(u) && lookup(u) == Some(c);
            if u != t {
                assert(names.contains(u));
            }
        }
        if b.composers.contains(c) {
            if lookup(t) == Some(c) {
                assert(more.contains(t));
            } else {
                let u = choose|u: Seq<char>| #[trigger] names.contains(u) && lookup(u) == Some(c);
                assert(more.contains(u));
            }
        }
    }
    assert(a.composers =~= b.composers);
    assert(a.others =~= b.others);
}

/// The names of two sets name the artists of the one and of the other.
pub proof fn lemma_of_names_union(x: Set<Seq<char>>, y: Set<Seq<char>>)
    ensures
        of_names(x.union(y)) == of_names(x).union(of_names(y)),
{
    let xy = x.union(y);
    let a = of_names(xy);
    let b = of_names(x).union(of_names(y));
    assert forall|c: ComposerView| a.composers.contains(c) == b.composers.contains(c) by {
        if a.composers.contains(c) {
            let u = choose|u: Seq<char>| #[trigger] xy.contains(u) && lookup(u) == Some(c);
            if x.contains(u) {
                assert(of_names(x).composers.contains(c));
            } else {
                assert(y.contains(u));
                assert(of_names(y).composers.contains(c));
            }
        }
        if of_names(x).composers.contains(c) {
            let u = choose|u: Seq<char>| #[trigger] x.contains(u) && lookup(u) == Some(c);
            assert(xy.contains(u));
        }
        if of_names(y).composers.contains(c) {
            let u = choose|u: Seq<char>| #[trigger] y.contains(u) && lookup(u) == Some(c);
            assert(xy.contains(u));
        }
    }
    assert(a.composers =~= b.composers);
    assert(a.others =~= b.others);
}

/// One more piece adds its trimmed text to the names, unless that is empty.
pub proof fn lemma_piece_names_push(ps: Seq<Seq<char>>, p: Seq<char>)
    ensures
        piece_names(ps.push(p)) == if trimmed(p).len() > 0 {
            piece_names(ps).insert(trimmed(p))
        } else {
            piece_names(ps)
        },
{
    let more = ps.push(p);
    let a = piece_names(more);
    let b = if trimmed(p).len() > 0 {
        piece_names(ps).insert(trimmed(p))
    } else {
        piece_names(ps)
    };
    assert(more[ps.len() as int] == p);
    assert forall|t: Seq<char>| a.contains(t) == b.contains(t) by {
        if a.contains(t) {
            let j = choose|j: int| 0 <= j < more.len() && t == trimmed(#[trigger] more[j]);
            if j < ps.len() {
                assert(more[j] == ps[j]);
            }
        }
        if piece_names(ps).contains(t) {
            let j = choose|j: int| 0 <= j < ps.len() && t == trimmed(#[trigger] ps[j]);
            assert(more[j] == ps[j]);
        }
    }
    assert(a =~= b);
}

/// The pieces of two sequences hold the names of the one and of the other.
pub proof fn lemma_piece_names_concat(ps: Seq<Seq<char>>, qs: Seq<Seq<char>>)
    ensures
        piece_names(ps + qs) == piece_names(ps).union(piece_names(qs)),
{
    let pq = ps + qs;
    let a = piece_names(pq);
    let b = piece_names(ps).union(piece_names(qs));
    assert forall|t: Seq<char>| a.contains(t) == b.contains(t) by {
        if a.contains(t) {
            let j = choose|j: int| 0 <= j < pq.len() && t == trimmed(#[trigger] pq[j]);
            if j < ps.len() {
                assert(pq[j] == ps[j]);
            } else {
                assert(pq[j] == qs[j - ps.len()]);
            }
        }
        if piece_names(ps).contains(t) {
            let j = choose|j: int| 0 <= j < ps.len() && t == trimmed(#[trigger] ps[j]);
            assert(pq[j] == ps[j]);
        }
        if piece_names(qs).contains(t) {
            let j = choose|j: int| 0 <= j < qs.len() && t == trimmed(#[trigger] qs[j]);
            assert(pq[j + ps.len()] == qs[j]);
        }
    }
    assert(a =~= b);
}

/// The names of two sequences of raw strings are those of the one and of the
/// other.
pub proof fn lemma_all_names_concat(xs: Seq<Seq<char>>, ys: Seq<Seq<char>>)
    ensures
        all_names(xs + ys) == all_names(xs).union(all_names(ys)),
{
    let xy = xs + ys;
    let a = all_names(xy);
    let b = all_names(xs).union(all_names(ys));
    assert forall|t: Seq<char>| a.contains(t) == b.contains(t) by {
        if a.contains(t) {
            let i = choose|i: int| 0 <= i < xy.len() && names_in(#[trigger] xy[i]).contains(t);
            if i < xs.len() {
                assert(xy[i] == xs[i]);
            } else {
                assert(xy[i] == ys[i - xs.len()]);
            }
        }
        if all_names(xs).contains(t) {
            let i = choose|i: int| 0 <= i < xs.len() && names_in(#[trigger] xs[i]).contains(t);
            assert(xy[i] == xs[i]);
        }
        if all_names(ys).contains(t) {
            let i = choose|i: int| 0 <= i < ys.len() && names_in(#[trigger] ys[i]).contains(t);
            assert(xy[i + xs.len()] == ys[i]);
        }
    }
    assert(a =~= b);
}

/// The names of one raw string alone.
pub proof fn lemma_all_names_single(raw: Seq<char>)
    ensures
        all_names(seq![raw]) == names_in(raw),
{
    let one = seq![raw];
    assert(one[0] == raw);
    assert forall|t: Seq<char>| all_names(one).contains(t) == names_in(raw).contains(t) by {
        if all_names(one).contains(t) {
            let i = choose|i: int| 0 <= i < one.len() && names_in(#[trigger] one[i]).contains(t);
            assert(one[i] == raw);
        }
    }
    assert(all_names(one) =~= names_in(raw));
}

/// No raw strings hold no names.
pub proof fn lemma_all_names_empty()
    ensures
        all_names(Seq::empty()) == Set::<Seq<char>>::empty(),
{
    assert(all_names(Seq::empty()) =~= Set::<Seq<char>>::empty());
}

} // verus!
