//! Verified text utilities: building strings character by character,
//! character-level equality and lexicographic order, splitting on colons,
//! joining, and producing a sorted, deduplicated list of strings.

use vstd::prelude::*;

verus! {

/// Relies on String::push: appends one character at the end of the string.
#[verifier::external_body]
pub(crate) fn push_char(s: &mut String, c: char)
    ensures
        final(s)@ == old(s)@.push(c),
{
    s.push(c);
}

/// Builds a `String` holding exactly the given characters.
pub(crate) fn chars_to_string(v: &Vec<char>) -> (r: String)
    ensures
        r@ == v@,
{
    let mut r = String::new();
    let mut i: usize = 0;
    while i < v.len()
        invariant
            i <= v.len(),
            r@ == v@.take(i as int),
        decreases v.len() - i,
    {
        push_char(&mut r, v[i]);
        proof {
            assert(v@.take(i + 1 as int) =~= v@.take(i as int).push(v@[i as int]));
        }
        i = i + 1;
    }
    proof {
        assert(v@.take(v.len() as int) =~= v@);
    }
    r
}

/// Character-level equality of two string slices.
pub fn str_eq(a: &str, b: &str) -> (r: bool)
    ensures
        r == (a@ == b@),
{
    let alen = a.unicode_len();
    let blen = b.unicode_len();
    if alen != blen {
        proof {
            assert(a@ != b@);
        }
        return false;
    }
    let mut i: usize = 0;
    while i < alen
        invariant
            i <= alen,
            alen == a@.len(),
            alen == b@.len(),
            forall|j: int| 0 <= j < i ==> a@[j] == b@[j],
        decreases alen - i,
    {
        if a.get_char(i) != b.get_char(i) {
            proof {
                assert(a@ != b@);
            }
            return false;
        }
        i = i + 1;
    }
    proof {
        assert(a@ =~= b@);
    }
    true
}

/// Lexicographic order on character sequences, by code point; a strict
/// prefix precedes its extensions.
pub open spec fn seq_lt(a: Seq<char>, b: Seq<char>) -> bool
    decreases a.len(),
{
    if b.len() == 0 {
        false
    } else if a.len() == 0 {
        true
    } else if a[0] < b[0] {
        true
    } else if a[0] == b[0] {
        seq_lt(a.skip(1), b.skip(1))
    } else {
        false
    }
}

/// Decides `seq_lt` on the views of two string slices.
pub fn str_lt(a: &str, b: &str) -> (r: bool)
    ensures
        r == seq_lt(a@, b@),
{
    let alen = a.unicode_len();
    let blen = b.unicode_len();
    let mut i: usize = 0;
    proof {
        assert(a@.skip(0) =~= a@);
        assert(b@.skip(0) =~= b@);
    }
    loop
        invariant
            i <= alen,
            i <= blen,
            alen == a@.len(),
            blen == b@.len(),
            seq_lt(a@, b@) == seq_lt(a@.skip(i as int), b@.skip(i as int)),
        decreases alen - i,
    {
        if i >= blen {
            proof {
                assert(b@.skip(i as int).len() == 0);
            }
            return false;
        }
        if i >= alen {
            proof {
                assert(a@.skip(i as int).len() == 0);
                assert(b@.skip(i as int).len() > 0);
            }
            return true;
        }
        let ca = a.get_char(i);
        let cb = b.get_char(i);
        proof {
            assert(a@.skip(i as int)[0] == a@[i as int]);
            assert(b@.skip(i as int)[0] == b@[i as int]);
        }
        if ca < cb {
            return true;
        }
        if ca != cb {
            return false;
        }
        proof {
            assert(a@.skip(i as int).skip(1) =~= a@.skip(i + 1));
            assert(b@.skip(i as int).skip(1) =~= b@.skip(i + 1));
        }
        i = i + 1;
    }
}

/// Index of the first occurrence of `c` in `s`, if any.
pub open spec fn find_char(s: Seq<char>, c: char) -> Option<int>
    decreases s.len(),
{
    if s.len() == 0 {
        None
    } else if s[0] == c {
        Some(0int)
    } else {
        match find_char(s.skip(1), c) {
            Some(i) => Some(i + 1),
            None => None,
        }
    }
}

/// What `find_char` returns: the least index holding `c`, or `None` when
/// `c` does not occur.
pub proof fn lemma_find_char(s: Seq<char>, c: char)
    ensures
        match find_char(s, c) {
            None => forall|j: int| 0 <= j < s.len() ==> s[j] != c,
            Some(i) => 0 <= i < s.len() && s[i] == c && forall|j: int| 0 <= j < i ==> s[j] != c,
        },
    decreases s.len(),
{
    if s.len() > 0 && s[0] != c {
        lemma_find_char(s.skip(1), c);
        match find_char(s.skip(1), c) {
            Some(i) => {
                assert(s[i + 1] == s.skip(1)[i]);
                assert forall|j: int| 0 <= j < i + 1 implies s[j] != c by {
                    if j > 0 {
                        assert(s.skip(1)[j - 1] != c);
                    }
                }
            },
            None => {
                assert forall|j: int| 0 <= j < s.len() implies s[j] != c by {
                    if j > 0 {
                        assert(s.skip(1)[j - 1] != c);
                    }
                }
            },
        }
    }
}

/// The colon-delimited segments of `s`, in order; always at least one.
pub open spec fn segments(s: Seq<char>) -> Seq<Seq<char>>
    decreases s.len(),
    via segments_dec
{
    match find_char(s, ':') {
        Some(i) => seq![s.take(i)] + segments(s.skip(i + 1)),
        None => seq![s],
    }
}

#[via_fn]
proof fn segments_dec(s: Seq<char>) {
    lemma_find_char(s, ':');
}

/// The views of a vector of strings.
pub open spec fn str_views(s: Seq<String>) -> Seq<Seq<char>> {
    s.map_values(|x: String| x@)
}

/// The segments of the not-yet-split tail `rest`, with the pending prefix
/// `p` glued onto the first of them.
pub open spec fn segments_from(p: Seq<char>, rest: Seq<char>) -> Seq<Seq<char>> {
    match find_char(rest, ':') {
        Some(i) => seq![p + rest.take(i)] + segments(rest.skip(i + 1)),
        None => seq![p + rest],
    }
}

proof fn lemma_segments_from_empty(rest: Seq<char>)
    ensures
        segments_from(Seq::empty(), rest) == segments(rest),
{
    lemma_find_char(rest, ':');
    match find_char(rest, ':') {
        Some(i) => {
            assert(Seq::empty() + rest.take(i) =~= rest.take(i));
            assert(segments_from(Seq::empty(), rest) =~= segments(rest));
        },
        None => {
            assert(Seq::empty() + rest =~= rest);
            assert(segments_from(Seq::empty(), rest) =~= segments(rest));
        },
    }
}

proof fn lemma_segments_from_step(p: Seq<char>, rest: Seq<char>)
    requires
        rest.len() > 0,
        rest[0] != ':',
    ensures
        segments_from(p, rest) == segments_from(p.push(rest[0]), rest.skip(1)),
{
    lemma_find_char(rest.skip(1), ':');
    match find_char(rest.skip(1), ':') {
        Some(i) => {
            assert(find_char(rest, ':') == Some(i + 1));
            assert(p + rest.take(i + 1) =~= p.push(rest[0]) + rest.skip(1).take(i));
            assert(rest.skip(i + 2) =~= rest.skip(1).skip(i + 1));
            assert(segments_from(p, rest) =~= segments_from(p.push(rest[0]), rest.skip(1)));
        },
        None => {
            assert(find_char(rest, ':') is None);
            assert(p + rest =~= p.push(rest[0]) + rest.skip(1));
            assert(segments_from(p, rest) =~= segments_from(p.push(rest[0]), rest.skip(1)));
        },
    }
}

/// Splits `s` at every colon, keeping empty segments.
pub fn split_colon(s: &str) -> (r: Vec<String>)
    ensures
        str_views(r@) == segments(s@),
{
    let n = s.unicode_len();
    let mut r: Vec<String> = Vec::new();
    let mut cur = String::new();
    let mut i: usize = 0;
    proof {
        lemma_segments_from_empty(s@);
        assert(s@.skip(0) =~= s@);
        assert(str_views(r@) + segments_from(cur@, s@.skip(0)) =~= segments(s@));
    }
    while i < n
        invariant
            i <= n,
            n == s@.len(),
            str_views(r@) + segments_from(cur@, s@.skip(i as int)) == segments(s@),
        decreases n - i,
    {
        let c = s.get_char(i);
        proof {
            assert(s@.skip(i as int)[0] == s@[i as int]);
        }
        if c == ':' {
            proof {
                assert(find_char(s@.skip(i as int), ':') == Some(0int));
                assert(cur@ + s@.skip(i as int).take(0) =~= cur@);
                assert(s@.skip(i as int).skip(1) =~= s@.skip(i + 1));
                lemma_segments_from_empty(s@.skip(i + 1));
            }
            let ghost old_r = r@;
            let ghost old_cur = cur@;
            r.push(cur);
            cur = String::new();
            proof {
                assert(str_views(r@) =~= str_views(old_r).push(old_cur));
                assert(str_views(old_r).push(old_cur) + segments_from(cur@, s@.skip(i + 1))
                    =~= str_views(old_r) + (seq![old_cur] + segments(s@.skip(i + 1))));
            }
        } else {
            proof {
                lemma_segments_from_step(cur@, s@.skip(i as int));
                assert(s@.skip(i as int).skip(1) =~= s@.skip(i + 1));
            }
            push_char(&mut cur, c);
        }
        i = i + 1;
    }
    proof {
        assert(s@.skip(n as int) =~= Seq::<char>::empty());
        assert(cur@ + s@.skip(n as int) =~= cur@);
        assert(find_char(s@.skip(n as int), ':') is None);
    }
    let ghost old_r = r@;
    let ghost old_cur = cur@;
    r.push(cur);
    proof {
        assert(str_views(r@) =~= str_views(old_r).push(old_cur));
        assert(str_views(old_r).push(old_cur) =~= str_views(old_r) + seq![old_cur]);
    }
    r
}

/// `s` with every dash and underscore removed.
pub open spec fn strip_seps(s: Seq<char>) -> Seq<char>
    decreases s.len(),
{
    if s.len() == 0 {
        Seq::empty()
    } else if s[0] == '-' || s[0] == '_' {
        strip_seps(s.skip(1))
    } else {
        seq![s[0]] + strip_seps(s.skip(1))
    }
}

/// Removes every dash and underscore from `s`.
pub fn strip_seps_string(s: &str) -> (r: String)
    ensures
        r@ == strip_seps(s@),
{
    let n = s.unicode_len();
    let mut r = String::new();
    let mut i: usize = 0;
    proof {
        assert(s@.skip(0) =~= s@);
        assert(r@ + strip_seps(s@) =~= strip_seps(s@));
    }
    while i < n
        invariant
            i <= n,
            n == s@.len(),
            r@ + strip_seps(s@.skip(i as int)) == strip_seps(s@),
        decreases n - i,
    {
        let c = s.get_char(i);
        proof {
            assert(s@.skip(i as int)[0] == s@[i as int]);
            assert(s@.skip(i as int).skip(1) =~= s@.skip(i + 1));
        }
        if c != '-' && c != '_' {
            proof {
                assert(r@.push(c) + strip_seps(s@.skip(i + 1)) =~= r@ + (seq![c] + strip_seps(
                    s@.skip(i + 1),
                )));
            }
            push_char(&mut r, c);
        }
        i = i + 1;
    }
    proof {
        assert(strip_seps(s@.skip(n as int)) =~= Seq::<char>::empty());
        assert(r@ + Seq::<char>::empty() =~= r@);
    }
    r
}

/// The concatenation of all elements of `ss`, in order.
pub open spec fn join_all(ss: Seq<Seq<char>>) -> Seq<char>
    decreases ss.len(),
{
    if ss.len() == 0 {
        Seq::empty()
    } else {
        ss[0] + join_all(ss.skip(1))
    }
}

/// Concatenates all strings of `v`, in order.
pub fn join_strings(v: &Vec<String>) -> (r: String)
    ensures
        r@ == join_all(str_views(v@)),
{
    let mut r = String::new();
    let mut i: usize = 0;
    proof {
        assert(str_views(v@).skip(0) =~= str_views(v@));
        assert(r@ + join_all(str_views(v@)) =~= join_all(str_views(v@)));
    }
    while i < v.len()
        invariant
            i <= v.len(),
            r@ + join_all(str_views(v@).skip(i as int)) == join_all(str_views(v@)),
        decreases v.len() - i,
    {
        proof {
            assert(str_views(v@).skip(i as int)[0] == v@[i as int]@);
            assert(str_views(v@).skip(i as int).skip(1) =~= str_views(v@).skip(i + 1));
            assert((r@ + v@[i as int]@) + join_all(str_views(v@).skip(i + 1))
                =~= r@ + (v@[i as int]@ + join_all(str_views(v@).skip(i + 1))));
        }
        r.append(v[i].as_str());
        i = i + 1;
    }
    proof {
        assert(str_views(v@).skip(v@.len() as int) =~= Seq::<Seq<char>>::empty());
        assert(r@ + join_all(Seq::<Seq<char>>::empty()) =~= r@);
    }
    r
}

/// Inserts `x` into the strictly sorted sequence `s`, keeping it strictly
/// sorted: a duplicate is dropped.
pub open spec fn insert_sorted(x: Seq<char>, s: Seq<Seq<char>>) -> Seq<Seq<char>>
    decreases s.len(),
{
    if s.len() == 0 {
        seq![x]
    } else if x == s[0] {
        s
    } else if seq_lt(x, s[0]) {
        seq![x] + s
    } else {
        seq![s[0]] + insert_sorted(x, s.skip(1))
    }
}

/// The sorted, deduplicated form of `ss`.
pub open spec fn sorted_dedup(ss: Seq<Seq<char>>) -> Seq<Seq<char>>
    decreases ss.len(),
{
    if ss.len() == 0 {
        Seq::empty()
    } else {
        insert_sorted(ss[0], sorted_dedup(ss.skip(1)))
    }
}

/// Strictly ascending under `seq_lt`: sorted, with no duplicates.
pub open spec fn strictly_sorted(ss: Seq<Seq<char>>) -> bool {
    forall|i: int, j: int| 0 <= i < j < ss.len() ==> seq_lt(#[trigger] ss[i], #[trigger] ss[j])
}

/// `seq_lt` is irreflexive.
pub proof fn lemma_seq_lt_irrefl(a: Seq<char>)
    ensures
        !seq_lt(a, a),
    decreases a.len(),
{
    if a.len() > 0 {
        lemma_seq_lt_irrefl(a.skip(1));
    }
}

/// `seq_lt` is transitive.
pub proof fn lemma_seq_lt_trans(a: Seq<char>, b: Seq<char>, c: Seq<char>)
    requires
        seq_lt(a, b),
        seq_lt(b, c),
    ensures
        seq_lt(a, c),
    decreases a.len(),
{
    if a.len() > 0 && b.len() > 0 && c.len() > 0 {
        if a[0] == b[0] && b[0] == c[0] {
            lemma_seq_lt_trans(a.skip(1), b.skip(1), c.skip(1));
        }
    }
}

/// `seq_lt` is total: two sequences compare one way, the other, or are equal.
pub proof fn lemma_seq_lt_total(a: Seq<char>, b: Seq<char>)
    ensures
        seq_lt(a, b) || seq_lt(b, a) || a == b,
    decreases a.len(),
{
    if a.len() == 0 && b.len() == 0 {
        assert(a =~= b);
    } else if a.len() > 0 && b.len() > 0 {
        if !(a[0] < b[0]) && !(b[0] < a[0]) {
            assert(a[0] == b[0]);
            lemma_seq_lt_total(a.skip(1), b.skip(1));
            if a.skip(1) == b.skip(1) {
                assert(a =~= seq![a[0]] + a.skip(1));
                assert(b =~= seq![b[0]] + b.skip(1));
            }
        }
    }
}

/// Inserting into a strictly sorted sequence keeps it strictly sorted, and
/// the result holds exactly the old strings and the new one.
pub proof fn lemma_insert_sorted_props(x: Seq<char>, s: Seq<Seq<char>>)
    requires
        strictly_sorted(s),
    ensures
        strictly_sorted(insert_sorted(x, s)),
        forall|y: Seq<char>|
            #[trigger] insert_sorted(x, s).contains(y) <==> (y == x || s.contains(y)),
    decreases s.len(),
{
    let r = insert_sorted(x, s);
    if s.len() == 0 {
        assert forall|y: Seq<char>| #[trigger] r.contains(y) implies (y == x || s.contains(y)) by {
            let i = choose|i: int| 0 <= i < r.len() && r[i] == y;
            assert(r[0] == x);
        }
        assert(r.contains(x)) by {
            assert(r[0] == x);
        }
    } else if x == s[0] {
        assert(r.contains(x)) by {
            assert(r[0] == x);
        }
    } else if seq_lt(x, s[0]) {
        assert forall|i: int, j: int| 0 <= i < j < r.len() implies seq_lt(
            #[trigger] r[i],
            #[trigger] r[j],
        ) by {
            if i == 0 {
                assert(r[0] == x);
                assert(r[j] == s[j - 1]);
                if j > 1 {
                    assert(seq_lt(s[0], s[j - 1]));
                    lemma_seq_lt_trans(x, s[0], s[j - 1]);
                }
            } else {
                assert(r[i] == s[i - 1]);
                assert(r[j] == s[j - 1]);
            }
        }
        assert forall|y: Seq<char>| #[trigger] r.contains(y) implies (y == x || s.contains(y)) by {
            let i = choose|i: int| 0 <= i < r.len() && r[i] == y;
            if i > 0 {
                assert(s[i - 1] == y);
            }
        }
        assert forall|y: Seq<char>| (y == x || s.contains(y)) implies #[trigger] r.contains(y) by {
            if y == x {
                assert(r[0] == x);
            } else {
                let i = choose|i: int| 0 <= i < s.len() && s[i] == y;
                assert(r[i + 1] == y);
            }
        }
    } else {
        lemma_seq_lt_total(x, s[0]);
        assert(seq_lt(s[0], x));
        assert forall|i: int, j: int| 0 <= i < j < s.skip(1).len() implies seq_lt(
            #[trigger] s.skip(1)[i],
            #[trigger] s.skip(1)[j],
        ) by {
            assert(s.skip(1)[i] == s[i + 1]);
            assert(s.skip(1)[j] == s[j + 1]);
        }
        lemma_insert_sorted_props(x, s.skip(1));
        let inner = insert_sorted(x, s.skip(1));
        assert(r == seq![s[0]] + inner);
        assert forall|i: int, j: int| 0 <= i < j < r.len() implies seq_lt(
            #[trigger] r[i],
            #[trigger] r[j],
        ) by {
            if i == 0 {
                assert(r[j] == inner[j - 1]);
                assert(inner.contains(inner[j - 1]));
                if inner[j - 1] == x {
                    assert(seq_lt(s[0], r[j]));
                } else {
                    assert(s.skip(1).contains(inner[j - 1]));
                    let k = choose|k: int|
                        0 <= k < s.skip(1).len() && s.skip(1)[k] == inner[j - 1];
                    assert(s[k + 1] == inner[j - 1]);
                    assert(seq_lt(s[0], s[k + 1]));
                }
            } else {
                assert(r[i] == inner[i - 1]);
                assert(r[j] == inner[j - 1]);
            }
        }
        assert forall|y: Seq<char>| #[trigger] r.contains(y) implies (y == x || s.contains(y)) by {
            let i = choose|i: int| 0 <= i < r.len() && r[i] == y;
            if i == 0 {
                assert(s[0] == y);
            } else {
                assert(inner[i - 1] == y);
                assert(inner.contains(y));
                if y != x {
                    let k = choose|k: int| 0 <= k < s.skip(1).len() && s.skip(1)[k] == y;
                    assert(s[k + 1] == y);
                }
            }
        }
        assert forall|y: Seq<char>| (y == x || s.contains(y)) implies #[trigger] r.contains(y) by {
            if y == x {
                assert(inner.contains(x));
                let k = choose|k: int| 0 <= k < inner.len() && inner[k] == x;
                assert(r[k + 1] == x);
            } else {
                let i = choose|i: int| 0 <= i < s.len() && s[i] == y;
                if i == 0 {
                    assert(r[0] == y);
                } else {
                    assert(s.skip(1)[i - 1] == y);
                    assert(s.skip(1).contains(y));
                    assert(inner.contains(y));
                    let k = choose|k: int| 0 <= k < inner.len() && inner[k] == y;
                    assert(r[k + 1] == y);
                }
            }
        }
    }
}

/// The sorted, deduplicated form is strictly sorted and holds exactly the
/// input's strings.
pub proof fn lemma_sorted_dedup_props(ss: Seq<Seq<char>>)
    ensures
        strictly_sorted(sorted_dedup(ss)),
        forall|y: Seq<char>| #[trigger] sorted_dedup(ss).contains(y) <==> ss.contains(y),
    decreases ss.len(),
{
    if ss.len() > 0 {
        lemma_sorted_dedup_props(ss.skip(1));
        lemma_insert_sorted_props(ss[0], sorted_dedup(ss.skip(1)));
        assert forall|y: Seq<char>| #[trigger] sorted_dedup(ss).contains(y) implies ss.contains(
            y,
        ) by {
            if y != ss[0] {
                let k = choose|k: int| 0 <= k < ss.skip(1).len() && ss.skip(1)[k] == y;
                assert(ss[k + 1] == y);
            } else {
                assert(ss[0] == y);
            }
        }
        assert forall|y: Seq<char>| ss.contains(y) implies #[trigger] sorted_dedup(ss).contains(
            y,
        ) by {
            let i = choose|i: int| 0 <= i < ss.len() && ss[i] == y;
            if i > 0 {
                assert(ss.skip(1)[i - 1] == y);
                assert(ss.skip(1).contains(y));
            }
        }
    }
}

/// Two strictly sorted sequences holding the same strings are equal: the
/// sorted, deduplicated module index of a generation run is canonical, so
/// unchanged input yields the byte-identical index.
pub proof fn lemma_strictly_sorted_unique(a: Seq<Seq<char>>, b: Seq<Seq<char>>)
    requires
        strictly_sorted(a),
        strictly_sorted(b),
        forall|y: Seq<char>| #[trigger] a.contains(y) <==> b.contains(y),
    ensures
        a == b,
    decreases a.len(),
{
    if a.len() == 0 && b.len() == 0 {
        assert(a =~= b);
    } else if a.len() == 0 {
        assert(b.contains(b[0]));
        assert(a.contains(b[0]));
    } else if b.len() == 0 {
        assert(a.contains(a[0]));
        assert(b.contains(a[0]));
    } else {
        assert(a.contains(a[0]));
        assert(b.contains(a[0]));
        assert(a.contains(b[0]));
        let i = choose|i: int| 0 <= i < a.len() && a[i] == b[0];
        let j = choose|j: int| 0 <= j < b.len() && b[j] == a[0];
        assert(0 <= i < a.len() && a[i] == b[0]);
        assert(0 <= j < b.len() && b[j] == a[0]);
        if i > 0 && j > 0 {
            assert(seq_lt(a[0], a[i]));
            assert(seq_lt(b[0], b[j]));
            lemma_seq_lt_trans(a[0], b[0], a[0]);
            lemma_seq_lt_irrefl(a[0]);
        }
        assert(a[0] == b[0]);
        assert forall|y: Seq<char>| #[trigger] a.skip(1).contains(y) implies b.skip(1).contains(
            y,
        ) by {
            let k = choose|k: int| 0 <= k < a.skip(1).len() && a.skip(1)[k] == y;
            assert(a[k + 1] == y);
            assert(a.contains(y));
            assert(b.contains(y));
            let m = choose|m: int| 0 <= m < b.len() && b[m] == y;
            assert(seq_lt(a[0], a[k + 1]));
            lemma_seq_lt_irrefl(y);
            assert(m > 0);
            assert(b.skip(1)[m - 1] == y);
        }
        assert forall|y: Seq<char>| #[trigger] b.skip(1).contains(y) implies a.skip(1).contains(
            y,
        ) by {
            let k = choose|k: int| 0 <= k < b.skip(1).len() && b.skip(1)[k] == y;
            assert(b[k + 1] == y);
            assert(b.contains(y));
            assert(a.contains(y));
            let m = choose|m: int| 0 <= m < a.len() && a[m] == y;
            assert(seq_lt(b[0], b[k + 1]));
            lemma_seq_lt_irrefl(y);
            assert(m > 0);
            assert(a.skip(1)[m - 1] == y);
        }
        assert forall|i2: int, j2: int| 0 <= i2 < j2 < a.skip(1).len() implies seq_lt(
            #[trigger] a.skip(1)[i2],
            #[trigger] a.skip(1)[j2],
        ) by {
            assert(a.skip(1)[i2] == a[i2 + 1]);
            assert(a.skip(1)[j2] == a[j2 + 1]);
        }
        assert forall|i2: int, j2: int| 0 <= i2 < j2 < b.skip(1).len() implies seq_lt(
            #[trigger] b.skip(1)[i2],
            #[trigger] b.skip(1)[j2],
        ) by {
            assert(b.skip(1)[i2] == b[i2 + 1]);
            assert(b.skip(1)[j2] == b[j2 + 1]);
        }
        lemma_strictly_sorted_unique(a.skip(1), b.skip(1));
        assert(a =~= seq![a[0]] + a.skip(1));
        assert(b =~= seq![b[0]] + b.skip(1));
    }
}

/// Inserts one string into a sorted vector, dropping it when already present.
fn vec_insert_sorted(v: &mut Vec<String>, x: String)
    ensures
        str_views(final(v)@) == insert_sorted(x@, str_views(old(v)@)),
{
    let ghost vs = str_views(old(v)@);
    let mut i: usize = 0;
    proof {
        assert(vs.skip(0) =~= vs);
        assert(vs.take(0) + insert_sorted(x@, vs.skip(0)) =~= insert_sorted(x@, vs));
    }
    while i < v.len()
        invariant
            i <= v.len(),
            vs == str_views(old(v)@),
            vs == str_views(v@),
            vs.take(i as int) + insert_sorted(x@, vs.skip(i as int)) == insert_sorted(x@, vs),
        decreases v.len() - i,
    {
        proof {
            assert(vs.skip(i as int)[0] == vs[i as int]);
        }
        if str_eq(x.as_str(), v[i].as_str()) {
            proof {
                assert(x@ == vs[i as int]);
                assert(insert_sorted(x@, vs.skip(i as int)) == vs.skip(i as int));
                assert(vs.take(i as int) + vs.skip(i as int) =~= vs);
            }
            return;
        }
        if str_lt(x.as_str(), v[i].as_str()) {
            proof {
                assert(x@ != vs[i as int]);
                assert(insert_sorted(x@, vs.skip(i as int)) == seq![x@] + vs.skip(i as int));
            }
            v.insert(i, x);
            proof {
                assert(str_views(v@) =~= vs.take(i as int) + (seq![x@] + vs.skip(i as int)));
            }
            return;
        }
        proof {
            assert(vs.skip(i as int).skip(1) =~= vs.skip(i + 1));
            assert(vs.take(i + 1) + insert_sorted(x@, vs.skip(i + 1))
                =~= vs.take(i as int) + (seq![vs[i as int]] + insert_sorted(x@, vs.skip(i + 1))));
        }
        i = i + 1;
    }
    proof {
        assert(vs.skip(v@.len() as int) =~= Seq::<Seq<char>>::empty());
    }
    let ghost old_v = v@;
    v.push(x);
    proof {
        assert(str_views(v@) =~= vs.take(old_v.len() as int) + seq![x@]);
    }
}

/// Sorts `v` and removes duplicates, yielding the unique strictly sorted
/// vector holding the same strings.
pub fn sorted_dedup_strings(v: Vec<String>) -> (r: Vec<String>)
    ensures
        str_views(r@) == sorted_dedup(str_views(v@)),
{
    let ghost vs = str_views(v@);
    let mut v = v;
    let mut r: Vec<String> = Vec::new();
    proof {
        assert(vs.skip(vs.len() as int) =~= Seq::<Seq<char>>::empty());
    }
    while v.len() > 0
        invariant
            v@.len() <= vs.len(),
            str_views(v@) == vs.take(v@.len() as int),
            str_views(r@) == sorted_dedup(vs.skip(v@.len() as int)),
        decreases v.len(),
    {
        let ghost k = v@.len() - 1;
        let ghost old_v = v@;
        let x = v.pop().unwrap();
        proof {
            assert(str_views(v@) =~= vs.take(k));
            assert(x == old_v.last());
            assert(str_views(old_v)[k] == old_v[k]@);
            assert(vs.take(k + 1)[k] == vs[k]);
            assert(x@ == vs[k]);
            assert(vs.skip(k)[0] == vs[k]);
            assert(vs.skip(k).skip(1) =~= vs.skip(k + 1));
        }
        vec_insert_sorted(&mut r, x);
    }
    proof {
        assert(vs.skip(0) =~= vs);
    }
    r
}

} // verus!
