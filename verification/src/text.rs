//! Character-level text operations: blanks, trimming, separator
//! normalisation and splitting.
//!
//! Everything is stated over `Seq<char>`, the view of `str` and `String`, and
//! computed on `Vec<char>`.

use vstd::prelude::*;

verus! {

/// The canonical separator between artist names.
pub const SEPARATOR: char = ';';

/// The alternate one-character separator.
pub const SLASH: char = '/';

/// Whether `c` carries the Unicode property `White_Space`.
pub open spec fn is_space(c: char) -> bool {
    let n = c as u32;
    ||| 0x09 <= n <= 0x0D
    ||| n == 0x20
    ||| n == 0x85
    ||| n == 0xA0
    ||| n == 0x1680
    ||| 0x2000 <= n <= 0x200A
    ||| n == 0x2028
    ||| n == 0x2029
    ||| n == 0x202F
    ||| n == 0x205F
    ||| n == 0x3000
}

/// `s` without its leading blanks.
pub open spec fn trimmed_start(s: Seq<char>) -> Seq<char>
    decreases s.len(),
{
    if s.len() > 0 && is_space(s[0]) {
        trimmed_start(s.skip(1))
    } else {
        s
    }
}

/// `s` without its trailing blanks.
pub open spec fn trimmed_end(s: Seq<char>) -> Seq<char>
    decreases s.len(),
{
    if s.len() > 0 && is_space(s.last()) {
        trimmed_end(s.drop_last())
    } else {
        s
    }
}

/// `s` without its leading and trailing blanks.
pub open spec fn trimmed(s: Seq<char>) -> Seq<char> {
    trimmed_end(trimmed_start(s))
}

/// The marker that introduces a featured artist, `feat.`.
pub open spec fn marker() -> Seq<char> {
    seq!['f', 'e', 'a', 't', '.']
}

/// Whether the marker stands in `s` at position `i`.
pub open spec fn marker_at(s: Seq<char>, i: int) -> bool {
    &&& 0 <= i
    &&& i + 5 <= s.len()
    &&& s[i] == 'f'
    &&& s[i + 1] == 'e'
    &&& s[i + 2] == 'a'
    &&& s[i + 3] == 't'
    &&& s[i + 4] == '.'
}

/// `s` with every `/` and every marker replaced by the canonical separator,
/// reading from the left.
pub open spec fn normalized(s: Seq<char>) -> Seq<char>
    decreases s.len(),
{
    if s.len() == 0 {
        s
    } else if marker_at(s, 0) {
        seq![SEPARATOR] + normalized(s.skip(5))
    } else if s[0] == SLASH {
        seq![SEPARATOR] + normalized(s.skip(1))
    } else {
        seq![s[0]] + normalized(s.skip(1))
    }
}

/// The position of the first canonical separator in `s`, or `s.len()` where
/// there is none.
pub open spec fn first_separator(s: Seq<char>) -> int
    decreases s.len(),
{
    if s.len() == 0 || s[0] == SEPARATOR {
        0
    } else {
        1 + first_separator(s.skip(1))
    }
}

/// The pieces between the canonical separators of `s`, in order. A string
/// with `n` separators has `n + 1` pieces, some of which may be empty.
pub open spec fn pieces(s: Seq<char>) -> Seq<Seq<char>>
    decreases s.len(),
{
    let k = first_separator(s);
    if 0 <= k < s.len() {
        seq![s.take(k)] + pieces(s.skip(k + 1))
    } else {
        seq![s]
    }
}

/// The views of a vector of character vectors.
pub open spec fn texts(v: Seq<Vec<char>>) -> Seq<Seq<char>> {
    v.map_values(|p: Vec<char>| p@)
}

/// Characterises `trimmed_start`: it drops exactly the maximal run of blanks
/// at the front.
pub proof fn lemma_trimmed_start(s: Seq<char>, a: int)
    requires
        0 <= a <= s.len(),
        forall|j: int| 0 <= j < a ==> is_space(#[trigger] s[j]),
        a < s.len() ==> !is_space(s[a]),
    ensures
        trimmed_start(s) == s.skip(a),
    decreases a,
{
    if a == 0 {
        assert(s.skip(0) =~= s);
    } else {
        let t = s.skip(1);
        assert forall|j: int| 0 <= j < a - 1 implies is_space(#[trigger] t[j]) by {
            assert(t[j] == s[j + 1]);
        }
        lemma_trimmed_start(t, a - 1);
        assert(t.skip(a - 1) =~= s.skip(a));
    }
}

/// Characterises `trimmed_end`: it drops exactly the maximal run of blanks at
/// the back.
pub proof fn lemma_trimmed_end(s: Seq<char>, b: int)
    requires
        0 <= b <= s.len(),
        forall|j: int| b <= j < s.len() ==> is_space(#[trigger] s[j]),
        b > 0 ==> !is_space(s[b - 1]),
    ensures
        trimmed_end(s) == s.take(b),
    decreases s.len() - b,
{
    if b == s.len() {
        assert(s.take(b) =~= s);
    } else {
        let t = s.drop_last();
        lemma_trimmed_end(t, b);
        assert(t.take(b) =~= s.take(b));
    }
}

/// Characterises `first_separator`: the first position that holds a
/// separator, or the length.
pub proof fn lemma_first_separator(s: Seq<char>, k: int)
    requires
        0 <= k <= s.len(),
        forall|j: int| 0 <= j < k ==> #[trigger] s[j] != SEPARATOR,
        k < s.len() ==> s[k] == SEPARATOR,
    ensures
        first_separator(s) == k,
    decreases k,
{
    if k > 0 {
        let t = s.skip(1);
        assert forall|j: int| 0 <= j < k - 1 implies #[trigger] t[j] != SEPARATOR by {
            assert(t[j] == s[j + 1]);
        }
        lemma_first_separator(t, k - 1);
    }
}

/// What `first_separator` returns is a position in `s` or its length; no
/// separator stands before it, and one stands at it unless it is the length.
pub proof fn lemma_first_separator_is_first(s: Seq<char>)
    ensures
        0 <= first_separator(s) <= s.len(),
        forall|j: int| 0 <= j < first_separator(s) ==> #[trigger] s[j] != SEPARATOR,
        first_separator(s) < s.len() ==> s[first_separator(s)] == SEPARATOR,
    decreases s.len(),
{
    if s.len() > 0 && s[0] != SEPARATOR {
        let t = s.skip(1);
        lemma_first_separator_is_first(t);
        assert forall|j: int| 0 <= j < first_separator(s) implies #[trigger] s[j]
            != SEPARATOR by {
            if j > 0 {
                assert(s[j] == t[j - 1]);
            }
        }
    }
}

/// Whether `s` is a plain name: not empty, no blank at either end, and
/// neither a separator nor a `/` nor the marker anywhere in it.
pub open spec fn plain(s: Seq<char>) -> bool {
    &&& s.len() > 0
    &&& !is_space(s[0])
    &&& !is_space(s.last())
    &&& forall|i: int|
        0 <= i < s.len() ==> #[trigger] s[i] != SEPARATOR && s[i] != SLASH && !marker_at(s, i)
}

/// Whether no position of `s` from `i` on holds a separator, a `/` or the
/// start of the marker. Unrolling it decides `plain` for a given string.
pub open spec fn clean_from(s: Seq<char>, i: int) -> bool
    decreases s.len() - i,
{
    if i < 0 || i >= s.len() {
        true
    } else {
        s[i] != SEPARATOR && s[i] != SLASH && !marker_at(s, i) && clean_from(s, i + 1)
    }
}

/// `clean_from` speaks of every position from `i` on.
pub proof fn lemma_clean_from(s: Seq<char>, i: int)
    requires
        0 <= i,
        clean_from(s, i),
    ensures
        forall|k: int|
            i <= k < s.len() ==> #[trigger] s[k] != SEPARATOR && s[k] != SLASH && !marker_at(s, k),
    decreases s.len() - i,
{
    if i < s.len() {
        lemma_clean_from(s, i + 1);
    }
}

/// A string without `/` and without the marker is its own normal form.
pub proof fn lemma_normalized_unchanged(s: Seq<char>)
    requires
        forall|i: int| 0 <= i < s.len() ==> #[trigger] s[i] != SLASH && !marker_at(s, i),
    ensures
        normalized(s) == s,
    decreases s.len(),
{
    if s.len() > 0 {
        let t = s.skip(1);
        assert(s[0] != SLASH && !marker_at(s, 0));
        assert forall|i: int| 0 <= i < t.len() implies #[trigger] t[i] != SLASH && !marker_at(
            t,
            i,
        ) by {
            assert(t[i] == s[i + 1]);
            assert(s[i + 1] != SLASH && !marker_at(s, i + 1));
            if i + 5 <= t.len() {
                assert(t[i + 1] == s[i + 2]);
                assert(t[i + 2] == s[i + 3]);
                assert(t[i + 3] == s[i + 4]);
                assert(t[i + 4] == s[i + 5]);
            }
        }
        lemma_normalized_unchanged(t);
        assert(seq![s[0]] + t =~= s);
    }
}

/// A plain name is its own normal form, its own single piece, and trimmed.
pub proof fn lemma_plain(s: Seq<char>)
    requires
        plain(s),
    ensures
        normalized(s) == s,
        pieces(s) == seq![s],
        trimmed(s) == s,
{
    lemma_normalized_unchanged(s);
    lemma_first_separator(s, s.len() as int);
    lemma_trimmed_start(s, 0);
    assert(s.skip(0) =~= s);
    lemma_trimmed_end(s, s.len() as int);
    assert(s.take(s.len() as int) =~= s);
}

/// Normalising two strings joined by a separator normalises each: neither
/// a `/` nor a marker reaches across the separator.
pub proof fn lemma_normalized_joined(a: Seq<char>, b: Seq<char>)
    ensures
        normalized(a + seq![SEPARATOR] + b) == normalized(a) + seq![SEPARATOR] + normalized(b),
    decreases a.len(),
{
    let s = a + seq![SEPARATOR] + b;
    if a.len() == 0 {
        assert(s[0] == SEPARATOR);
        assert(s.skip(1) =~= b);
        assert(normalized(a) + seq![SEPARATOR] + normalized(b) =~= seq![SEPARATOR] + normalized(
            b,
        ));
    } else {
        assert(s[0] == a[0]);
        if a.len() < 5 {
            assert(s[a.len() as int] == SEPARATOR);
            assert(!marker_at(s, 0));
        } else {
            assert(s[1] == a[1] && s[2] == a[2] && s[3] == a[3] && s[4] == a[4]);
        }
        assert(marker_at(s, 0) == marker_at(a, 0));
        let k: int = if marker_at(a, 0) {
            5
        } else {
            1
        };
        let head = if marker_at(a, 0) || a[0] == SLASH {
            seq![SEPARATOR]
        } else {
            seq![a[0]]
        };
        assert(s.skip(k) =~= a.skip(k) + seq![SEPARATOR] + b);
        lemma_normalized_joined(a.skip(k), b);
        assert(normalized(a) == head + normalized(a.skip(k)));
        assert(normalized(s) == head + normalized(s.skip(k)));
        assert(head + (normalized(a.skip(k)) + seq![SEPARATOR] + normalized(b)) =~= (head
            + normalized(a.skip(k))) + seq![SEPARATOR] + normalized(b));
    }
}

/// The pieces of two strings joined by a separator are the pieces of the
/// first followed by those of the second.
pub proof fn lemma_pieces_joined(x: Seq<char>, y: Seq<char>)
    ensures
        pieces(x + seq![SEPARATOR] + y) == pieces(x) + pieces(y),
    decreases x.len(),
{
    let s = x + seq![SEPARATOR] + y;
    let k = first_separator(x);
    lemma_first_separator_is_first(x);
    assert(s[k] == SEPARATOR) by {
        if k < x.len() {
            assert(s[k] == x[k]);
        }
    }
    assert forall|j: int| 0 <= j < k implies #[trigger] s[j] != SEPARATOR by {
        assert(s[j] == x[j]);
    }
    lemma_first_separator(s, k);
    assert(s.take(k) =~= x.take(k));
    if k < x.len() {
        assert(s.skip(k + 1) =~= x.skip(k + 1) + seq![SEPARATOR] + y);
        lemma_pieces_joined(x.skip(k + 1), y);
        assert(seq![x.take(k)] + (pieces(x.skip(k + 1)) + pieces(y)) =~= (seq![x.take(k)]
            + pieces(x.skip(k + 1))) + pieces(y));
    } else {
        assert(s.skip(k + 1) =~= y);
        assert(x.take(k) =~= x);
    }
}

/// Whether `c` is a blank.
pub fn is_whitespace(c: char) -> (r: bool)
    ensures
        r == is_space(c),
{
    let n: u32 = c as u32;
    (0x09 <= n && n <= 0x0D) || n == 0x20 || n == 0x85 || n == 0xA0 || n == 0x1680 || (0x2000 <= n
        && n <= 0x200A) || n == 0x2028 || n == 0x2029 || n == 0x202F || n == 0x205F || n == 0x3000
}

/// The characters of `s`.
pub fn chars_of(s: &str) -> (v: Vec<char>)
    ensures
        v@ == s@,
{
    let mut v: Vec<char> = Vec::new();
    for c in it: s.chars()
        invariant
            v@ == it.seq().take(it.index()),
            it.seq() == s@,
    {
        v.push(c);
    }
    v
}

/// Whether `s` is made of exactly the characters `v`.
pub fn same_text(s: &str, v: &Vec<char>) -> (r: bool)
    ensures
        r == (s@ == v@),
{
    let mut i: usize = 0;
    let mut same: bool = true;
    for c in it: s.chars()
        invariant
            it.seq() == s@,
            same ==> i == it.index() && i <= v.len() && s@.take(i as int) == v@.take(i as int),
            !same ==> s@ != v@,
    {
        if same {
            if i < v.len() && v[i] == c {
                assert(s@.take(i + 1) =~= s@.take(i as int).push(c));
                assert(v@.take(i + 1) =~= v@.take(i as int).push(c));
                i += 1;
            } else {
                same = false;
            }
        }
    }
    proof {
        if same {
            assert(s@.take(i as int) =~= s@);
            if i == v.len() {
                assert(v@.take(i as int) =~= v@);
            }
        }
    }
    same && i == v.len()
}

/// Specifies `String::push`: the character is appended at the end.
pub assume_specification[ String::push ](s: &mut String, ch: char)
    ensures
        final(s)@ == old(s)@.push(ch),
;

/// The string made of the characters `v`.
pub fn text_of(v: &Vec<char>) -> (s: String)
    ensures
        s@ == v@,
{
    let mut s = String::new();
    let mut i: usize = 0;
    while i < v.len()
        invariant
            i <= v.len(),
            s@ == v@.take(i as int),
        decreases v.len() - i,
    {
        s.push(v[i]);
        i += 1;
    }
    s
}

/// The characters of `v` from `from` up to `to`.
fn slice_of(v: &Vec<char>, from: usize, to: usize) -> (r: Vec<char>)
    requires
        from <= to <= v.len(),
    ensures
        r@ == v@.subrange(from as int, to as int),
{
    let mut r: Vec<char> = Vec::new();
    let mut i: usize = from;
    while i < to
        invariant
            from <= i <= to <= v.len(),
            r@ == v@.subrange(from as int, i as int),
        decreases to - i,
    {
        r.push(v[i]);
        i += 1;
    }
    r
}

/// Removes the blanks at both ends of `v`.
pub fn trim(v: &Vec<char>) -> (r: Vec<char>)
    ensures
        r@ == trimmed(v@),
{
    let n: usize = v.len();
    let mut a: usize = 0;
    while a < n && is_whitespace(v[a])
        invariant
            a <= n == v.len(),
            forall|j: int| 0 <= j < a ==> is_space(#[trigger] v@[j]),
        decreases n - a,
    {
        a += 1;
    }
    let mut b: usize = n;
    while b > a && is_whitespace(v[b - 1])
        invariant
            a <= b <= n == v.len(),
            forall|j: int| b <= j < n ==> is_space(#[trigger] v@[j]),
        decreases b,
    {
        b -= 1;
    }
    proof {
        let t = v@.skip(a as int);
        lemma_trimmed_start(v@, a as int);
        assert forall|j: int| b - a <= j < t.len() implies is_space(#[trigger] t[j]) by {
            assert(t[j] == v@[j + a]);
        }
        lemma_trimmed_end(t, b - a);
        assert(t.take(b - a) =~= v@.subrange(a as int, b as int));
    }
    slice_of(v, a, b)
}

/// Whether the marker stands in `v` at position `i`.
pub fn has_marker_at(v: &Vec<char>, i: usize) -> (r: bool)
    ensures
        r == marker_at(v@, i as int),
{
    v.len() >= 5 && i <= v.len() - 5 && v[i] == 'f' && v[i + 1] == 'e' && v[i + 2] == 'a' && v[i
        + 3] == 't' && v[i + 4] == '.'
}

/// Replaces every `/` and every marker in `v` by the canonical separator.
pub fn normalize(v: &Vec<char>) -> (r: Vec<char>)
    ensures
        r@ == normalized(v@),
{
    let n: usize = v.len();
    let mut r: Vec<char> = Vec::new();
    let mut i: usize = 0;
    assert(v@.skip(0) =~= v@);
    assert(r@ + normalized(v@.skip(0)) =~= normalized(v@));
    while i < n
        invariant
            i <= n == v.len(),
            r@ + normalized(v@.skip(i as int)) == normalized(v@),
        decreases n - i,
    {
        let ghost rest = v@.skip(i as int);
        let ghost before = r@;
        assert(marker_at(rest, 0) == marker_at(v@, i as int));
        if has_marker_at(v, i) {
            r.push(SEPARATOR);
            i += 5;
            assert(rest.skip(5) =~= v@.skip(i as int));
        } else if v[i] == SLASH {
            r.push(SEPARATOR);
            i += 1;
            assert(rest.skip(1) =~= v@.skip(i as int));
        } else {
            r.push(v[i]);
            i += 1;
            assert(rest.skip(1) =~= v@.skip(i as int));
        }
        assert(r@ + normalized(v@.skip(i as int)) =~= before + normalized(rest));
    }
    assert(r@ + normalized(v@.skip(i as int)) =~= r@);
    r
}

/// Splits `v` at every canonical separator.
pub fn split(v: &Vec<char>) -> (r: Vec<Vec<char>>)
    ensures
        texts(r@) == pieces(v@),
{
    let n: usize = v.len();
    let mut r: Vec<Vec<char>> = Vec::new();
    let mut start: usize = 0;
    let mut i: usize = 0;
    assert(v@.skip(0) =~= v@);
    assert(texts(r@) + pieces(v@.skip(0)) =~= pieces(v@));
    while i < n
        invariant
            start <= i <= n == v.len(),
            forall|j: int| start <= j < i ==> #[trigger] v@[j] != SEPARATOR,
            texts(r@) + pieces(v@.skip(start as int)) == pieces(v@),
        decreases n - i,
    {
        if v[i] == SEPARATOR {
            let piece = slice_of(v, start, i);
            proof {
                let rest = v@.skip(start as int);
                assert forall|j: int| 0 <= j < i - start implies #[trigger] rest[j]
                    != SEPARATOR by {
                    assert(rest[j] == v@[j + start]);
                }
                lemma_first_separator(rest, i - start);
                assert(rest.take(i - start) =~= piece@);
                assert(rest.skip(i - start + 1) =~= v@.skip(i + 1));
                assert(texts(r@.push(piece)) =~= texts(r@) + seq![piece@]);
            }
            r.push(piece);
            start = i + 1;
            assert(texts(r@) + pieces(v@.skip(start as int)) =~= pieces(v@));
        }
        i += 1;
    }
    let piece = slice_of(v, start, n);
    proof {
        let rest = v@.skip(start as int);
        assert forall|j: int| 0 <= j < n - start implies #[trigger] rest[j] != SEPARATOR by {
            assert(rest[j] == v@[j + start]);
        }
        lemma_first_separator(rest, n - start);
        assert(rest =~= piece@);
        assert(texts(r@.push(piece)) =~= texts(r@) + seq![piece@]);
    }
    r.push(piece);
    r
}

} // verus!
