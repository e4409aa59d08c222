use vstd::prelude::*;
use vstd::string::*;

verus! {

/// The characters of `s`, one by one.
pub fn chars_of(s: &str) -> (r: Vec<char>)
    ensures
        r@ == s@,
{
    let n = s.unicode_len();
    let mut out: Vec<char> = Vec::new();
    let mut i: usize = 0;
    while i < n
        invariant
            n == s@.len(),
            i <= n,
            out@ == s@.subrange(0, i as int),
        decreases n - i,
    {
        out.push(s.get_char(i));
        i = i + 1;
    }
    assert(out@ =~= s@);
    out
}

} // verus!

verus! {

/// The pieces of `s` between single spaces: repeated spaces give empty pieces
/// and nothing is trimmed, so there is always one piece more than there are
/// spaces.
pub open spec fn split_spaces(s: Seq<char>) -> Seq<Seq<char>>
    decreases s.len(),
{
    if s.len() == 0 {
        seq![Seq::<char>::empty()]
    } else {
        let head = split_spaces(s.drop_last());
        if s.last() == ' ' {
            head.push(Seq::<char>::empty())
        } else {
            head.update(head.len() - 1, head.last().push(s.last()))
        }
    }
}

/// The tokens of a line: none for the empty line, else its pieces between
/// single spaces.
pub open spec fn tokens(s: Seq<char>) -> Seq<Seq<char>> {
    if s.len() == 0 {
        Seq::empty()
    } else {
        split_spaces(s)
    }
}

/// What a list of string slices holds, as character sequences.
pub open spec fn views(parts: Seq<&str>) -> Seq<Seq<char>> {
    parts.map_values(|p: &str| p@)
}

/// Splitting always gives at least one piece.
pub proof fn lemma_split_spaces_len(s: Seq<char>)
    ensures
        split_spaces(s).len() >= 1,
    decreases s.len(),
{
    if s.len() > 0 {
        lemma_split_spaces_len(s.drop_last());
    }
}

/// Splits `line` into its tokens.
pub fn tokenize<'a>(line: &'a str) -> (r: Vec<&'a str>)
    ensures
        views(r@) == tokens(line@),
{
    let chars = chars_of(line);
    let n = chars.len();
    let mut out: Vec<&'a str> = Vec::new();
    if n == 0 {
        assert(views(out@) =~= tokens(line@));
        return out;
    }
    let mut start: usize = 0;
    let mut i: usize = 0;
    assert(line@.subrange(0, 0) =~= Seq::<char>::empty());
    assert(views(out@) + seq![line@.subrange(0, 0)] =~= split_spaces(line@.subrange(0, 0)));
    while i < n
        invariant
            n == line@.len(),
            chars@ == line@,
            start <= i <= n,
            views(out@) + seq![line@.subrange(start as int, i as int)] == split_spaces(
                line@.subrange(0, i as int),
            ),
        decreases n - i,
    {
        let ghost prev = line@.subrange(0, i as int);
        let ghost cur = line@.subrange(0, i + 1);
        assert(cur.drop_last() =~= prev);
        assert(cur.last() == chars@[i as int]);
        proof {
            lemma_split_spaces_len(prev);
        }
        let ghost old_out = out@;
        if chars[i] == ' ' {
            let piece = line.substring_char(start, i);
            out.push(piece);
            start = i + 1;
            assert(views(out@) =~= views(old_out).push(piece@));
            assert(line@.subrange(start as int, i + 1) =~= Seq::<char>::empty());
            assert(views(out@) + seq![line@.subrange(start as int, i + 1)] =~= split_spaces(cur));
        } else {
            assert(line@.subrange(start as int, i + 1) =~= line@.subrange(
                start as int,
                i as int,
            ).push(chars@[i as int]));
            assert(views(out@) + seq![line@.subrange(start as int, i + 1)] =~= split_spaces(cur));
        }
        i = i + 1;
    }
    let last = line.substring_char(start, n);
    out.push(last);
    assert(line@.subrange(0, n as int) =~= line@);
    assert(views(out@) =~= tokens(line@));
    out
}

} // verus!

verus! {

/// Whether `a` and `b` hold the same characters.
pub fn same_text(a: &str, b: &str) -> (r: bool)
    ensures
        r == (a@ == b@),
{
    let x = chars_of(a);
    let y = chars_of(b);
    if x.len() != y.len() {
        return false;
    }
    let mut i: usize = 0;
    while i < x.len()
        invariant
            x@ == a@,
            y@ == b@,
            x.len() == y.len(),
            i <= x.len(),
            x@.subrange(0, i as int) == y@.subrange(0, i as int),
        decreases x.len() - i,
    {
        if x[i] != y[i] {
            assert(x@[i as int] != y@[i as int]);
            return false;
        }
        assert(x@.subrange(0, i + 1) =~= x@.subrange(0, i as int).push(x@[i as int]));
        assert(y@.subrange(0, i + 1) =~= y@.subrange(0, i as int).push(y@[i as int]));
        i = i + 1;
    }
    assert(x@ =~= x@.subrange(0, i as int));
    assert(y@ =~= y@.subrange(0, i as int));
    true
}

} // verus!

verus! {

/// Whether `w` holds no space, so that it stays one token.
pub open spec fn no_space(w: Seq<char>) -> bool {
    forall|i: int| 0 <= i < w.len() ==> #[trigger] w[i] != ' '
}

/// Appending characters other than spaces extends the last piece.
pub proof fn lemma_split_extend(p: Seq<char>, w: Seq<char>)
    requires
        no_space(w),
    ensures
        split_spaces(p + w) == split_spaces(p).update(
            split_spaces(p).len() - 1,
            split_spaces(p).last() + w,
        ),
    decreases w.len(),
{
    lemma_split_spaces_len(p);
    let head = split_spaces(p);
    if w.len() == 0 {
        assert(p + w =~= p);
        assert(head.last() + w =~= head.last());
        assert(head.update(head.len() - 1, head.last() + w) =~~= head);
    } else {
        let v = w.drop_last();
        assert(no_space(v)) by {
            assert forall|i: int| 0 <= i < v.len() implies #[trigger] v[i] != ' ' by {
                assert(v[i] == w[i]);
            }
        }
        lemma_split_extend(p, v);
        assert((p + w).drop_last() =~= p + v);
        assert((p + w).last() == w[w.len() - 1]);
        assert(head.last() + v + seq![w.last()] =~= head.last() + w);
        let mid = split_spaces(p + v);
        assert(mid.last() == head.last() + v);
        assert(mid.last().push(w.last()) =~= head.last() + w);
        assert(split_spaces(p + w) =~~= head.update(head.len() - 1, head.last() + w));
    }
}

/// A space followed by a word adds that word as a new last piece.
pub proof fn lemma_split_word(p: Seq<char>, w: Seq<char>)
    requires
        no_space(w),
    ensures
        split_spaces(p + seq![' '] + w) == split_spaces(p).push(w),
{
    let q = p + seq![' '];
    assert(q.drop_last() =~= p);
    lemma_split_spaces_len(q);
    lemma_split_extend(q, w);
    assert(Seq::<char>::empty() + w =~= w);
    assert(split_spaces(q + w) =~~= split_spaces(p).push(w));
}

/// A nonempty word is a single token.
pub proof fn lemma_tokens_one(w: Seq<char>)
    requires
        no_space(w),
        w.len() > 0,
    ensures
        tokens(w) == seq![w],
{
    let e = Seq::<char>::empty();
    lemma_split_extend(e, w);
    assert(e + w =~= w);
    assert(split_spaces(e) == seq![e]);
    assert(split_spaces(w) =~~= seq![w]);
}

/// Two words joined by a space are two tokens.
pub proof fn lemma_tokens_two(a: Seq<char>, b: Seq<char>)
    requires
        no_space(a),
        no_space(b),
        a.len() > 0,
    ensures
        tokens(a + seq![' '] + b) == seq![a, b],
{
    lemma_tokens_one(a);
    lemma_split_word(a, b);
    assert(seq![a].push(b) =~~= seq![a, b]);
}

/// Three words joined by spaces are three tokens.
pub proof fn lemma_tokens_three(a: Seq<char>, b: Seq<char>, c: Seq<char>)
    requires
        no_space(a),
        no_space(b),
        no_space(c),
        a.len() > 0,
    ensures
        tokens(a + seq![' '] + b + seq![' '] + c) == seq![a, b, c],
{
    lemma_tokens_two(a, b);
    lemma_split_word(a + seq![' '] + b, c);
    assert(seq![a, b].push(c) =~~= seq![a, b, c]);
}

} // verus!
