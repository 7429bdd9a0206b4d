use vstd::prelude::*;

verus! {

/// `String::push` appends one character.
pub assume_specification[ String::push ](s: &mut String, ch: char)
    ensures
        final(s)@ == old(s)@.push(ch),
;

/// The length in bytes of the UTF-8 encoding of `s`, as `str::len` gives it,
/// taken as a `u64`.
pub open spec fn byte_length(s: Seq<char>) -> u64 {
    (vstd::utf8::encode_utf8(s).len() as usize) as u64
}

/// Strict lexicographic order of character sequences, characters compared by
/// code point. On UTF-8 text this is the byte order by which `String`s compare.
pub open spec fn seq_lt(a: Seq<char>, b: Seq<char>) -> bool
    decreases a.len(),
{
    if a.len() == 0 {
        b.len() > 0
    } else if b.len() == 0 {
        false
    } else if a[0] != b[0] {
        (a[0] as u32) < (b[0] as u32)
    } else {
        seq_lt(a.drop_first(), b.drop_first())
    }
}

/// `a` comes no later than `b` in lexicographic order.
pub open spec fn seq_le(a: Seq<char>, b: Seq<char>) -> bool {
    !seq_lt(b, a)
}

/// No sequence comes strictly before itself.
pub proof fn lemma_seq_lt_irreflexive(a: Seq<char>)
    ensures
        !seq_lt(a, a),
    decreases a.len(),
{
    if a.len() > 0 {
        lemma_seq_lt_irreflexive(a.drop_first());
    }
}

/// Of two different sequences, exactly one comes first.
pub proof fn lemma_seq_lt_trichotomy(a: Seq<char>, b: Seq<char>)
    ensures
        a == b || seq_lt(a, b) || seq_lt(b, a),
        !(seq_lt(a, b) && seq_lt(b, a)),
    decreases a.len(),
{
    if a.len() > 0 && b.len() > 0 {
        if a[0] == b[0] {
            lemma_seq_lt_trichotomy(a.drop_first(), b.drop_first());
            if a.drop_first() == b.drop_first() {
                assert(a =~= seq![a[0]] + a.drop_first());
                assert(b =~= seq![b[0]] + b.drop_first());
            }
        } else {
            vstd::utf8::char_u32_cast(a[0], a[0] as u32);
            vstd::utf8::char_u32_cast(b[0], b[0] as u32);
        }
    } else if a.len() == 0 && b.len() == 0 {
        assert(a =~= b);
    }
}

/// Lexicographic order is transitive.
pub proof fn lemma_seq_lt_transitive(a: Seq<char>, b: Seq<char>, c: Seq<char>)
    requires
        seq_lt(a, b),
        seq_lt(b, c),
    ensures
        seq_lt(a, c),
    decreases a.len(),
{
    if a.len() > 0 && b.len() > 0 && c.len() > 0 {
        if a[0] == b[0] && b[0] == c[0] {
            lemma_seq_lt_transitive(a.drop_first(), b.drop_first(), c.drop_first());
        } else {
            assert((a[0] as u32) != (c[0] as u32) || a[0] == c[0]);
        }
    }
}

/// `<=` then `<` gives `<`, and `<` then `<=` gives `<`.
pub proof fn lemma_seq_le_lt(a: Seq<char>, b: Seq<char>, c: Seq<char>)
    ensures
        seq_le(a, b) && seq_lt(b, c) ==> seq_lt(a, c),
        seq_lt(a, b) && seq_le(b, c) ==> seq_lt(a, c),
        seq_le(a, b) && seq_le(b, c) ==> seq_le(a, c),
{
    lemma_seq_lt_trichotomy(a, b);
    lemma_seq_lt_trichotomy(b, c);
    lemma_seq_lt_trichotomy(a, c);
    if seq_lt(a, b) && seq_lt(b, c) {
        lemma_seq_lt_transitive(a, b, c);
    }
    if seq_lt(c, a) && seq_lt(a, b) {
        lemma_seq_lt_transitive(c, a, b);
    }
    if seq_lt(b, c) && seq_lt(c, a) {
        lemma_seq_lt_transitive(b, c, a);
    }
}

/// The characters of `s`, in order.
pub fn chars_of(s: &str) -> (v: Vec<char>)
    ensures
        v@ == s@,
{
    let mut v: Vec<char> = Vec::new();
    for c in it: s.chars()
        invariant
            v@ == it.seq().take(it.index() as int),
            it.seq() == s@,
    {
        v.push(c);
    }
    v
}

/// Whether `a` comes strictly before `b` in lexicographic order.
pub fn str_lt(a: &str, b: &str) -> (r: bool)
    ensures
        r == seq_lt(a@, b@),
{
    let x = chars_of(a);
    let y = chars_of(b);
    let mut i: usize = 0;
    assert(a@.skip(0) =~= a@);
    assert(b@.skip(0) =~= b@);
    while i < x.len() && i < y.len() && x[i] == y[i]
        invariant
            x@ == a@,
            y@ == b@,
            i <= x.len(),
            i <= y.len(),
            seq_lt(a@, b@) == seq_lt(a@.skip(i as int), b@.skip(i as int)),
        decreases x.len() - i,
    {
        assert(a@.skip(i as int).drop_first() =~= a@.skip(i + 1));
        assert(b@.skip(i as int).drop_first() =~= b@.skip(i + 1));
        i = i + 1;
    }
    if i == x.len() {
        i < y.len()
    } else if i == y.len() {
        false
    } else {
        (x[i] as u32) < (y[i] as u32)
    }
}

/// The pieces of `s` between the dots, in order; a text without a dot is one
/// piece, and two dots side by side enclose an empty piece.
pub open spec fn split_labels(s: Seq<char>) -> Seq<Seq<char>>
    decreases s.len(),
{
    if s.len() == 0 {
        seq![Seq::<char>::empty()]
    } else {
        let prev = split_labels(s.drop_last());
        if s.last() == '.' {
            prev.push(Seq::<char>::empty())
        } else {
            prev.update(prev.len() - 1, prev.last().push(s.last()))
        }
    }
}

/// There is always at least one piece.
pub proof fn lemma_split_labels_nonempty(s: Seq<char>)
    ensures
        split_labels(s).len() >= 1,
    decreases s.len(),
{
    if s.len() > 0 {
        lemma_split_labels_nonempty(s.drop_last());
    }
}

/// The pieces joined back together, a `.` between each two.
pub open spec fn join_with_dots(labels: Seq<Seq<char>>) -> Seq<char>
    decreases labels.len(),
{
    if labels.len() == 0 {
        Seq::<char>::empty()
    } else if labels.len() == 1 {
        labels[0]
    } else {
        join_with_dots(labels.drop_last()) + seq!['.'] + labels.last()
    }
}

/// Appending a character to the last piece appends it to the joined text.
proof fn lemma_join_extend_last(labels: Seq<Seq<char>>, c: char)
    requires
        labels.len() >= 1,
    ensures
        join_with_dots(labels.update(labels.len() - 1, labels.last().push(c))) == join_with_dots(
            labels,
        ).push(c),
{
    let up = labels.update(labels.len() - 1, labels.last().push(c));
    if labels.len() > 1 {
        assert(up.drop_last() =~= labels.drop_last());
        assert(join_with_dots(labels.drop_last()) + seq!['.'] + labels.last().push(c)
            =~= (join_with_dots(labels.drop_last()) + seq!['.'] + labels.last()).push(c));
    }
}

/// Splitting at dots splits at dots only and loses nothing: joining the
/// pieces with `.` gives the text back, and no piece holds a `.`.
pub proof fn lemma_split_labels_rejoin(s: Seq<char>)
    ensures
        join_with_dots(split_labels(s)) == s,
        forall|i: int| 0 <= i < split_labels(s).len() ==> !(#[trigger] split_labels(s)[i]).contains('.'),
    decreases s.len(),
{
    if s.len() == 0 {
        assert(split_labels(s)[0] =~= Seq::<char>::empty());
        assert(s =~= Seq::<char>::empty());
    } else {
        let prev = split_labels(s.drop_last());
        lemma_split_labels_rejoin(s.drop_last());
        lemma_split_labels_nonempty(s.drop_last());
        assert(s.drop_last().push(s.last()) =~= s);
        if s.last() == '.' {
            let next = prev.push(Seq::<char>::empty());
            assert(next.drop_last() =~= prev);
            assert(join_with_dots(prev) + seq!['.'] + Seq::<char>::empty() =~= s);
            assert forall|i: int| 0 <= i < next.len() implies !(#[trigger] next[i]).contains('.') by {
                if i == next.len() - 1 {
                    assert(next[i] =~= Seq::<char>::empty());
                } else {
                    assert(next[i] == prev[i]);
                }
            }
        } else {
            lemma_join_extend_last(prev, s.last());
            let next = prev.update(prev.len() - 1, prev.last().push(s.last()));
            assert forall|i: int| 0 <= i < next.len() implies !(#[trigger] next[i]).contains('.') by {
                if i == next.len() - 1 {
                    let l = prev.last();
                    assert(!l.contains('.'));
                    assert forall|k: int| 0 <= k < l.push(s.last()).len() implies l.push(s.last())[k]
                        != '.' by {
                        if k < l.len() {
                            assert(l.push(s.last())[k] == l[k]);
                        }
                    }
                } else {
                    assert(next[i] == prev[i]);
                }
            }
        }
    }
}

/// A text without a `.` is a single piece: itself.
pub proof fn lemma_split_labels_dotless(s: Seq<char>)
    requires
        !s.contains('.'),
    ensures
        split_labels(s) == seq![s],
    decreases s.len(),
{
    if s.len() == 0 {
        assert(s =~= Seq::<char>::empty());
        assert(split_labels(s) =~= seq![s]);
    } else {
        let d = s.drop_last();
        assert(!d.contains('.')) by {
            assert forall|k: int| 0 <= k < d.len() implies d[k] != '.' by {
                assert(d[k] == s[k]);
            }
        }
        lemma_split_labels_dotless(d);
        assert(s.last() != '.') by {
            assert(s[s.len() - 1] == s.last());
        }
        assert(d.push(s.last()) =~= s);
        let prev = split_labels(d);
        assert(prev.len() == 1 && prev.last() == d);
        assert(split_labels(s) == prev.update(0, d.push(s.last())));
        assert(prev.update(0, s) =~= seq![s]);
    }
}

/// Splits `s` at every `.`.
pub fn split_at_dots(s: &str) -> (labels: Vec<String>)
    ensures
        labels.deep_view() == split_labels(s@),
{
    let mut labels: Vec<String> = Vec::new();
    let mut current = String::new();
    for c in it: s.chars()
        invariant
            it.seq() == s@,
            labels.deep_view().push(current@) == split_labels(s@.take(it.index() as int)),
    {
        let ghost before = s@.take(it.index() as int);
        let ghost after = s@.take(it.index() + 1);
        proof {
            assert(after.drop_last() =~= before);
            lemma_split_labels_nonempty(before);
        }
        if c == '.' {
            let done = current;
            labels.push(done);
            current = String::new();
            assert(labels.deep_view().push(current@) =~= split_labels(after));
        } else {
            current.push(c);
            assert(labels.deep_view().push(current@) =~= split_labels(after));
        }
    }
    labels.push(current);
    assert(s@.take(s@.len() as int) =~= s@);
    labels
}

/// The same sequence in reverse order.
pub fn reversed(v: Vec<String>) -> (r: Vec<String>)
    ensures
        r.deep_view() == v.deep_view().reverse(),
{
    let mut v = v;
    let ghost orig = v.deep_view();
    let mut r: Vec<String> = Vec::new();
    while v.len() > 0
        invariant
            orig.len() == v.len() + r.len(),
            v.deep_view() == orig.take(v.len() as int),
            r.deep_view() == orig.reverse().take(r.len() as int),
        decreases v.len(),
    {
        let ghost n = v.len() as int;
        let ghost before = v@;
        let ghost before_deep = v.deep_view();
        assert(before_deep[n - 1] == before[n - 1].deep_view());
        assert(orig.take(n)[n - 1] == orig[n - 1]);
        let last = v.pop().unwrap();
        assert(last == before[n - 1]);
        assert(orig[n - 1] == before[n - 1]@);
        assert(orig.reverse()[orig.len() - n] == orig[n - 1]);
        r.push(last);
        assert(v.deep_view() =~= orig.take(v.len() as int));
        assert(r.deep_view() =~= orig.reverse().take(r.len() as int));
    }
    assert(orig.reverse().take(r.len() as int) =~= orig.reverse());
    r
}

} // verus!
