use vstd::prelude::*;

verus! {

/// The characters of `s`, in order.
pub fn chars_of(s: &str) -> (v: Vec<char>)
    ensures
        v@ == s@,
{
    let mut v: Vec<char> = Vec::new();
    for c in it: s.chars()
        invariant
            v@ == it.seq().take(it.index()),
    {
        v.push(c);
    }
    v
}

/// `String::push`: appends one character at the end of the string.
#[verifier::external_body]
fn string_push(s: &mut String, c: char)
    ensures
        final(s)@ == old(s)@.push(c),
{
    s.push(c);
}

/// A `String` holding exactly the characters `v[lo..hi]`.
pub fn string_from_range(v: &[char], lo: usize, hi: usize) -> (s: String)
    requires
        lo <= hi <= v@.len(),
    ensures
        s@ == v@.subrange(lo as int, hi as int),
{
    let mut s = String::new();
    let mut i = lo;
    while i < hi
        invariant
            lo <= i <= hi <= v@.len(),
            s@ == v@.subrange(lo as int, i as int),
        decreases hi - i,
    {
        string_push(&mut s, v[i]);
        assert(v@.subrange(lo as int, i + 1) =~= v@.subrange(lo as int, i as int).push(v@[i as int]));
        i = i + 1;
    }
    s
}

/// A `String` holding exactly the characters of `v`.
pub fn string_from_chars(v: &[char]) -> (s: String)
    ensures
        s@ == v@,
{
    let s = string_from_range(v, 0, v.len());
    assert(v@.subrange(0, v@.len() as int) =~= v@);
    s
}

/// Unicode's `White_Space` property, the set of characters that
/// `char::is_whitespace` and `str::split_whitespace` treat as blanks.
pub open spec fn is_white_space(c: char) -> bool {
    let u = c as u32;
    ||| 0x09 <= u <= 0x0d
    ||| u == 0x20
    ||| u == 0x85
    ||| u == 0xa0
    ||| u == 0x1680
    ||| 0x2000 <= u <= 0x200a
    ||| u == 0x2028
    ||| u == 0x2029
    ||| u == 0x202f
    ||| u == 0x205f
    ||| u == 0x3000
}

/// Tests whether `c` is a Unicode white-space character.
pub fn white_space(c: char) -> (b: bool)
    ensures
        b == is_white_space(c),
{
    let u = c as u32;
    (0x09 <= u && u <= 0x0d) || u == 0x20 || u == 0x85 || u == 0xa0 || u == 0x1680 || (0x2000 <= u
        && u <= 0x200a) || u == 0x2028 || u == 0x2029 || u == 0x202f || u == 0x205f || u == 0x3000
}

/// The maximal runs of non-blank characters of `s`, in order: what
/// `str::split_whitespace` yields.
pub open spec fn words(s: Seq<char>) -> Seq<Seq<char>>
    decreases s.len(),
{
    if s.len() == 0 {
        seq![]
    } else {
        let prev = words(s.drop_last());
        let c = s.last();
        if is_white_space(c) {
            prev
        } else if s.len() >= 2 && !is_white_space(s[s.len() - 2]) {
            prev.update(prev.len() - 1, prev.last().push(c))
        } else {
            prev.push(seq![c])
        }
    }
}

/// Whenever `s` ends in a non-blank character, it has at least one word.
pub proof fn lemma_words_nonempty(s: Seq<char>)
    requires
        s.len() > 0,
        !is_white_space(s.last()),
    ensures
        words(s).len() > 0,
    decreases s.len(),
{
    if s.len() >= 2 && !is_white_space(s[s.len() - 2]) {
        assert(s.drop_last().last() == s[s.len() - 2]);
        lemma_words_nonempty(s.drop_last());
    }
}

/// A word: non-empty and without white space.
pub open spec fn is_word(w: Seq<char>) -> bool {
    w.len() > 0 && forall|i: int| 0 <= i < w.len() ==> !is_white_space(#[trigger] w[i])
}

/// Every piece that `split_whitespace` yields is a word.
pub proof fn lemma_words_are_words(s: Seq<char>)
    ensures
        forall|i: int| 0 <= i < words(s).len() ==> is_word(#[trigger] words(s)[i]),
    decreases s.len(),
{
    if s.len() > 0 {
        let prev = words(s.drop_last());
        lemma_words_are_words(s.drop_last());
        let c = s.last();
        if !is_white_space(c) {
            if s.len() >= 2 && !is_white_space(s[s.len() - 2]) {
                assert(s.drop_last().last() == s[s.len() - 2]);
                lemma_words_nonempty(s.drop_last());
                let w = prev.last();
                assert(is_word(prev[prev.len() - 1]));
                assert forall|j: int| 0 <= j < w.push(c).len() implies !is_white_space(
                    #[trigger] w.push(c)[j],
                ) by {
                    if j < w.len() {
                        assert(w.push(c)[j] == w[j]);
                    }
                }
            }
        }
    }
}

/// Appending a word after a text that is empty or ends in white space adds
/// that word to the text's words.
pub proof fn lemma_words_after_blank(p: Seq<char>, w: Seq<char>)
    requires
        p.len() == 0 || is_white_space(p.last()),
        is_word(w),
    ensures
        words(p + w) == words(p).push(w),
    decreases w.len(),
{
    let t = p + w;
    let c = w.last();
    assert(t.drop_last() =~= p + w.drop_last());
    assert(t.last() == c);
    assert(!is_white_space(w[w.len() - 1]));
    if w.len() == 1 {
        assert(p + w.drop_last() =~= p);
        assert(w =~= seq![c]);
    } else {
        let w0 = w.drop_last();
        assert forall|i: int| 0 <= i < w0.len() implies !is_white_space(#[trigger] w0[i]) by {
            assert(w0[i] == w[i]);
        }
        lemma_words_after_blank(p, w0);
        assert(t[t.len() - 2] == w[w.len() - 2]);
        assert(!is_white_space(w[w.len() - 2]));
        assert(w0.push(c) =~= w);
    }
}

/// Splitting words joined by single spaces gives the words back.
pub proof fn lemma_words_of_joined(ws: Seq<Seq<char>>)
    requires
        forall|i: int| 0 <= i < ws.len() ==> is_word(#[trigger] ws[i]),
    ensures
        words(join_words(ws, seq![' '])) == ws,
    decreases ws.len(),
{
    if ws.len() == 0 {
    } else if ws.len() == 1 {
        lemma_words_after_blank(seq![], ws[0]);
        assert(Seq::<char>::empty() + ws[0] =~= ws[0]);
        assert(words(Seq::<char>::empty()) =~= Seq::<Seq<char>>::empty());
        assert(seq![ws[0]] =~= ws);
    } else {
        let init = ws.drop_last();
        assert forall|i: int| 0 <= i < init.len() implies is_word(#[trigger] init[i]) by {
            assert(init[i] == ws[i]);
        }
        lemma_words_of_joined(init);
        let j = join_words(init, seq![' ']);
        let p = j + seq![' '];
        assert(is_white_space(p.last()));
        assert(is_word(ws[ws.len() - 1]));
        lemma_words_after_blank(p, ws.last());
        assert(words(p) == words(j)) by {
            assert(p.drop_last() =~= j);
        }
        assert(join_words(ws, seq![' ']) == p + ws.last());
        assert(init.push(ws.last()) =~= ws);
    }
}

/// Splits `s` at runs of white space, as `str::split_whitespace` does.
pub fn split_words(s: &[char]) -> (ws: Vec<Vec<char>>)
    ensures
        ws@.map_values(|w: Vec<char>| w@) == words(s@),
{
    let n = s.len();
    let mut done: Vec<Vec<char>> = Vec::new();
    let mut current: Vec<char> = Vec::new();
    let mut in_word = false;
    for i in 0..n
        invariant
            n == s@.len(),
            in_word == (i > 0 && !is_white_space(s@[i - 1])),
            !in_word ==> current@.len() == 0,
            in_word ==> words(s@.take(i as int)) == done@.map_values(|w: Vec<char>| w@).push(
                current@,
            ),
            !in_word ==> words(s@.take(i as int)) == done@.map_values(|w: Vec<char>| w@),
    {
        let c = s[i];
        let ghost pre = s@.take(i as int);
        let ghost cur = s@.take(i + 1);
        assert(cur.drop_last() == pre);
        assert(cur.last() == c);
        if white_space(c) {
            if in_word {
                let w = current;
                current = Vec::new();
                let ghost before = done@.map_values(|v: Vec<char>| v@);
                done.push(w);
                assert(done@.map_values(|v: Vec<char>| v@) =~= before.push(w@));
            }
            in_word = false;
        } else {
            let ghost dv = done@.map_values(|v: Vec<char>| v@);
            let ghost old_cur = current@;
            current.push(c);
            if in_word {
                assert(cur[cur.len() - 2] == s@[i - 1]);
                assert(words(cur) == dv.push(old_cur).update(dv.len() as int, old_cur.push(c)));
                assert(words(cur) =~= dv.push(current@));
            } else {
                assert(current@ =~= seq![c]);
            }
            in_word = true;
        }
    }
    if in_word {
        done.push(current);
    }
    assert(s@.take(n as int) == s@);
    done
}

/// The pieces of `s` between its '\n' characters; there is always at least one.
pub open spec fn newline_pieces(s: Seq<char>) -> Seq<Seq<char>>
    decreases s.len(),
{
    if s.len() == 0 {
        seq![seq![]]
    } else {
        let prev = newline_pieces(s.drop_last());
        if s.last() == '\n' {
            prev.push(seq![])
        } else {
            prev.update(prev.len() - 1, prev.last().push(s.last()))
        }
    }
}

pub proof fn lemma_newline_pieces_len(s: Seq<char>)
    ensures
        newline_pieces(s).len() >= 1,
    decreases s.len(),
{
    if s.len() > 0 {
        lemma_newline_pieces_len(s.drop_last());
    }
}

/// `l` without one '\r' at its end, if it has one.
pub open spec fn strip_cr(l: Seq<char>) -> Seq<char> {
    if l.len() > 0 && l.last() == '\r' {
        l.drop_last()
    } else {
        l
    }
}

/// The lines of `s`, as `str::lines` yields them: split at each '\n', a '\r'
/// just before a '\n' dropped, and no empty last line after a final '\n'.
pub open spec fn lines(s: Seq<char>) -> Seq<Seq<char>> {
    if s.len() == 0 {
        seq![]
    } else {
        let p = newline_pieces(s);
        let ended = p.drop_last().map_values(|l: Seq<char>| strip_cr(l));
        if s.last() == '\n' {
            ended
        } else {
            ended.push(p.last())
        }
    }
}

/// A text without '\n' is a single piece.
proof fn lemma_pieces_no_newline(p: Seq<char>)
    requires
        !p.contains('\n'),
    ensures
        newline_pieces(p) == seq![p],
    decreases p.len(),
{
    if p.len() > 0 {
        let q = p.drop_last();
        assert(!q.contains('\n')) by {
            if q.contains('\n') {
                let k = choose|k: int| 0 <= k < q.len() && q[k] == '\n';
                assert(p[k] == '\n');
            }
        }
        lemma_pieces_no_newline(q);
        assert(p[p.len() - 1] != '\n');
        assert(q.push(p.last()) =~= p);
    } else {
        assert(p =~= Seq::<char>::empty());
    }
}

/// After a text that ends in '\n', the pieces of what follows start afresh.
proof fn lemma_pieces_after_newline(x: Seq<char>, b: Seq<char>)
    requires
        x.len() > 0,
        x.last() == '\n',
    ensures
        newline_pieces(x + b) == newline_pieces(x).drop_last() + newline_pieces(b),
    decreases b.len(),
{
    if b.len() == 0 {
        assert(x + b =~= x);
        assert(newline_pieces(x) == newline_pieces(x.drop_last()).push(seq![]));
        assert(newline_pieces(x) =~= newline_pieces(x).drop_last() + seq![seq![]]);
    } else {
        let b0 = b.drop_last();
        let c = b.last();
        lemma_pieces_after_newline(x, b0);
        lemma_newline_pieces_len(b0);
        assert((x + b).drop_last() =~= x + b0);
        assert((x + b).last() == c);
        let a = newline_pieces(x).drop_last();
        let p0 = newline_pieces(b0);
        if c == '\n' {
            assert(newline_pieces(b) == p0.push(seq![]));
            assert((a + p0).push(seq![]) =~= a + p0.push(seq![]));
        } else {
            assert(newline_pieces(b) == p0.update(p0.len() - 1, p0.last().push(c)));
            let whole = a + p0;
            assert(whole.last() == p0.last());
            assert(whole.update(whole.len() - 1, whole.last().push(c)) =~= a + p0.update(
                p0.len() - 1,
                p0.last().push(c),
            ));
        }
    }
}

/// Two leading lines without '\n', each ended by '\n', are the first two
/// lines of the text, and the rest of the text gives the rest of its lines.
pub proof fn lemma_lines_after_two(h1: Seq<char>, h2: Seq<char>, b: Seq<char>)
    requires
        !h1.contains('\n'),
        !h2.contains('\n'),
    ensures
        lines(h1 + seq!['\n'] + h2 + seq!['\n'] + b) == seq![strip_cr(h1), strip_cr(h2)] + lines(b),
{
    let x1 = h1 + seq!['\n'];
    let x2 = h2 + seq!['\n'];
    let x = x1 + x2;
    let t = x + b;
    assert(h1 + seq!['\n'] + h2 + seq!['\n'] + b =~= t);
    lemma_pieces_no_newline(h1);
    lemma_pieces_no_newline(h2);
    assert(x1.drop_last() =~= h1 && x2.drop_last() =~= h2);
    assert(newline_pieces(x1) == seq![h1].push(seq![]));
    assert(newline_pieces(x2) == seq![h2].push(seq![]));
    assert(x.last() == '\n');
    lemma_pieces_after_newline(x1, x2);
    assert(newline_pieces(x) =~= seq![h1, h2, seq![]]);
    lemma_pieces_after_newline(x, b);
    let pb = newline_pieces(b);
    lemma_newline_pieces_len(b);
    assert(newline_pieces(t) =~= seq![h1, h2] + pb);
    let np = newline_pieces(t);
    assert(np.drop_last() =~= seq![h1, h2] + pb.drop_last());
    assert(np.drop_last().map_values(|l: Seq<char>| strip_cr(l)) =~= seq![strip_cr(h1), strip_cr(h2)]
        + pb.drop_last().map_values(|l: Seq<char>| strip_cr(l)));
    if b.len() == 0 {
        assert(t =~= x);
        assert(pb == seq![Seq::<char>::empty()]);
        assert(pb.drop_last().map_values(|l: Seq<char>| strip_cr(l)) =~= Seq::<Seq<char>>::empty());
        assert(lines(b) =~= Seq::<Seq<char>>::empty());
    } else {
        assert(t.last() == b.last());
        assert(np.last() == pb.last());
        if b.last() != '\n' {
            assert((seq![strip_cr(h1), strip_cr(h2)] + pb.drop_last().map_values(
                |l: Seq<char>| strip_cr(l),
            )).push(pb.last()) =~= seq![strip_cr(h1), strip_cr(h2)] + pb.drop_last().map_values(
                |l: Seq<char>| strip_cr(l),
            ).push(pb.last()));
        }
    }
}

/// Splits `s` into lines, as `str::lines` does.
pub fn split_lines(s: &[char]) -> (ls: Vec<Vec<char>>)
    ensures
        ls@.map_values(|l: Vec<char>| l@) == lines(s@),
{
    let n = s.len();
    let mut done: Vec<Vec<char>> = Vec::new();
    let mut current: Vec<char> = Vec::new();
    proof {
        assert(s@.take(0) =~= Seq::<char>::empty());
    }
    for i in 0..n
        invariant
            n == s@.len(),
            newline_pieces(s@.take(i as int)).len() == done@.len() + 1,
            done@.map_values(|l: Vec<char>| l@) == newline_pieces(s@.take(i as int)).drop_last().map_values(
                |l: Seq<char>| strip_cr(l),
            ),
            current@ == newline_pieces(s@.take(i as int)).last(),
    {
        let c = s[i];
        let ghost pre = s@.take(i as int);
        let ghost cur = s@.take(i + 1);
        let ghost pp = newline_pieces(pre);
        let ghost dv = done@.map_values(|l: Vec<char>| l@);
        assert(cur.drop_last() == pre);
        assert(cur.last() == c);
        if c == '\n' {
            let mut line = current;
            current = Vec::new();
            let k = line.len();
            if k > 0 && line[k - 1] == '\r' {
                line.pop();
            }
            assert(line@ == strip_cr(pp.last()));
            done.push(line);
            assert(newline_pieces(cur) == pp.push(seq![]));
            assert(newline_pieces(cur).drop_last() =~= pp);
            assert(pp =~= pp.drop_last().push(pp.last()));
            assert(done@.map_values(|l: Vec<char>| l@) =~= dv.push(line@));
            assert(pp.map_values(|l: Seq<char>| strip_cr(l)) =~= pp.drop_last().map_values(
                |l: Seq<char>| strip_cr(l),
            ).push(strip_cr(pp.last())));
        } else {
            current.push(c);
            let ghost np = newline_pieces(cur);
            assert(np == pp.update(pp.len() - 1, pp.last().push(c)));
            assert(np.drop_last() =~= pp.drop_last());
        }
    }
    assert(s@.take(n as int) == s@);
    proof {
        lemma_newline_pieces_len(s@);
        let p = newline_pieces(s@);
        if n > 0 {
            if s@.last() == '\n' {
                assert(p == newline_pieces(s@.drop_last()).push(seq![]));
            } else {
                lemma_newline_pieces_len(s@.drop_last());
                let q = newline_pieces(s@.drop_last());
                assert(p == q.update(q.len() - 1, q.last().push(s@.last())));
                assert(p.last().len() > 0);
            }
        }
    }
    let ghost dv = done@.map_values(|l: Vec<char>| l@);
    if current.len() > 0 {
        done.push(current);
        assert(done@.map_values(|l: Vec<char>| l@) =~= dv.push(current@));
    }
    done
}

/// The words of `ws`, with `sep` between each two of them: what `join` gives.
pub open spec fn join_words(ws: Seq<Seq<char>>, sep: Seq<char>) -> Seq<char>
    decreases ws.len(),
{
    if ws.len() == 0 {
        seq![]
    } else if ws.len() == 1 {
        ws[0]
    } else {
        join_words(ws.drop_last(), sep) + sep + ws.last()
    }
}

/// The words `ws[from..]` joined by single spaces.
pub fn join_with_spaces(ws: &Vec<Vec<char>>, from: usize) -> (r: Vec<char>)
    requires
        from <= ws@.len(),
    ensures
        r@ == join_words(
            ws@.map_values(|w: Vec<char>| w@).subrange(from as int, ws@.len() as int),
            seq![' '],
        ),
{
    let n = ws.len();
    let ghost all = ws@.map_values(|w: Vec<char>| w@);
    let mut r: Vec<char> = Vec::new();
    let mut i = from;
    assert(all.subrange(from as int, from as int) =~= Seq::<Seq<char>>::empty());
    while i < n
        invariant
            from <= i <= n,
            n == ws@.len(),
            all == ws@.map_values(|w: Vec<char>| w@),
            r@ == join_words(all.subrange(from as int, i as int), seq![' ']),
        decreases n - i,
    {
        let ghost before = all.subrange(from as int, i as int);
        let ghost after = all.subrange(from as int, i + 1);
        assert(after.drop_last() =~= before);
        assert(after.last() == ws@[i as int]@);
        if i > from {
            r.push(' ');
        }
        let w = &ws[i];
        let m = w.len();
        let ghost base = r@;
        for j in 0..m
            invariant
                m == w@.len(),
                r@ == base + w@.take(j as int),
        {
            r.push(w[j]);
            assert(w@.take(j + 1) =~= w@.take(j as int).push(w@[j as int]));
            assert(r@ =~= base + w@.take(j + 1));
        }
        assert(w@.take(m as int) =~= w@);
        if i > from {
            assert(r@ =~= join_words(before, seq![' ']) + seq![' '] + w@);
        } else {
            assert(before.len() == 0);
            assert(r@ =~= w@);
        }
        i = i + 1;
    }
    r
}

/// Tests whether `c` occurs in `s`.
pub fn contains_char(s: &[char], c: char) -> (b: bool)
    ensures
        b == s@.contains(c),
{
    let n = s.len();
    for i in 0..n
        invariant
            n == s@.len(),
            forall|j: int| 0 <= j < i ==> s@[j] != c,
    {
        if s[i] == c {
            assert(s@[i as int] == c);
            return true;
        }
    }
    false
}

/// Tests whether `a` and `b` hold the same characters.
pub fn chars_equal(a: &[char], b: &[char]) -> (r: bool)
    ensures
        r == (a@ == b@),
{
    if a.len() != b.len() {
        return false;
    }
    let n = a.len();
    for i in 0..n
        invariant
            n == a@.len(),
            n == b@.len(),
            forall|j: int| 0 <= j < i ==> a@[j] == b@[j],
    {
        if a[i] != b[i] {
            return false;
        }
    }
    assert(a@ =~= b@);
    true
}

} // verus!
