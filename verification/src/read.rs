//! The loader: turns raw source bytes into the ordered statement list and the
//! label table the engine consumes. Statements are separated by commas, each
//! statement is trimmed and its tokens are separated by single spaces; a
//! statement whose first token contains `:` is a label declaration and is
//! recorded in the table together with its 1-based position.

use vstd::prelude::*;

verus! {

pub open spec fn comma() -> u8 {
    ',' as u8
}

pub open spec fn space() -> u8 {
    ' ' as u8
}

pub open spec fn colon() -> u8 {
    ':' as u8
}

pub open spec fn is_ws(b: u8) -> bool {
    b == ' ' as u8 || b == '\t' as u8 || b == '\n' as u8 || b == '\r' as u8 || b == 11 || b == 12
}

/// `s` without leading and trailing whitespace.
pub open spec fn spec_trim(s: Seq<u8>) -> Seq<u8>
    decreases s.len(),
{
    if s.len() > 0 && is_ws(s.first()) {
        spec_trim(s.drop_first())
    } else if s.len() > 0 && is_ws(s.last()) {
        spec_trim(s.drop_last())
    } else {
        s
    }
}

/// `s` cut at every occurrence of `c`; splitting the empty sequence gives one
/// empty piece, so the result always holds at least one piece.
pub open spec fn split_on(s: Seq<u8>, c: u8) -> Seq<Seq<u8>>
    decreases s.len(),
{
    if s.len() == 0 {
        seq![seq![]]
    } else if s.first() == c {
        seq![seq![]].add(split_on(s.drop_first(), c))
    } else {
        let r = split_on(s.drop_first(), c);
        r.update(0, seq![s.first()].add(r[0]))
    }
}

pub proof fn lemma_split_on_len(s: Seq<u8>, c: u8)
    ensures
        split_on(s, c).len() >= 1,
    decreases s.len(),
{
    if s.len() > 0 {
        lemma_split_on_len(s.drop_first(), c)
    }
}

/// The surviving statements: every comma-separated piece, trimmed, with the
/// pieces that are empty after trimming dropped.
pub open spec fn clean_pieces(ps: Seq<Seq<u8>>) -> Seq<Seq<u8>>
    decreases ps.len(),
{
    if ps.len() == 0 {
        seq![]
    } else {
        let rest = clean_pieces(ps.drop_first());
        let t = spec_trim(ps.first());
        if t.len() == 0 {
            rest
        } else {
            seq![t].add(rest)
        }
    }
}

pub open spec fn spec_lines(raw: Seq<u8>) -> Seq<Seq<u8>> {
    clean_pieces(split_on(raw, comma()))
}

pub open spec fn spec_thread(raw: Seq<u8>) -> Seq<Seq<Seq<u8>>> {
    spec_lines(raw).map_values(|l: Seq<u8>| split_on(l, space()))
}

pub open spec fn contains_colon(t: Seq<u8>) -> bool {
    exists|i: int| 0 <= i < t.len() && t[i] == colon()
}

/// The label table from statement `i` on: each statement whose first token
/// contains `:` contributes that token and the statement's 1-based position.
pub open spec fn labels_from(thread: Seq<Seq<Seq<u8>>>, i: int) -> Seq<(Seq<u8>, int)>
    decreases thread.len() - i,
{
    if i < 0 || i >= thread.len() {
        seq![]
    } else {
        let rest = labels_from(thread, i + 1);
        if thread[i].len() > 0 && contains_colon(thread[i][0]) {
            seq![(thread[i][0], i + 1)].add(rest)
        } else {
            rest
        }
    }
}

pub open spec fn spec_functions(thread: Seq<Seq<Seq<u8>>>) -> Seq<(Seq<u8>, int)> {
    labels_from(thread, 0)
}

/// The label table of a program, as the engine's view sees it.
pub open spec fn funcs_view(functions: Seq<(Vec<u8>, usize)>) -> Seq<(Seq<u8>, int)> {
    functions.map_values(|p: (Vec<u8>, usize)| (p.0@, p.1 as int))
}

/// The statement list of a program, as the engine's view sees it.
pub open spec fn thread_view(thread: Seq<Vec<Vec<u8>>>) -> Seq<Seq<Seq<u8>>> {
    thread.map_values(|s: Vec<Vec<u8>>| s@.map_values(|t: Vec<u8>| t@))
}

pub fn is_ws_exec(b: u8) -> (r: bool)
    ensures
        r == is_ws(b),
{
    b == 32 || b == 9 || b == 10 || b == 13 || b == 11 || b == 12
}

pub fn has_colon(t: &Vec<u8>) -> (r: bool)
    ensures
        r == contains_colon(t@),
{
    let mut i: usize = 0;
    while i < t.len()
        invariant
            0 <= i <= t@.len(),
            forall|j: int| 0 <= j < i ==> t@[j] != colon(),
        decreases t@.len() - i,
    {
        if t[i] == 58 {
            return true;
        }
        i = i + 1;
    }
    false
}

/// Trims leading and trailing whitespace from a byte string.
pub fn trim_bytes(s: &Vec<u8>) -> (r: Vec<u8>)
    ensures
        r@ == spec_trim(s@),
{
    let mut lo: usize = 0;
    proof {
        assert(s@.skip(0) =~= s@);
    }
    while lo < s.len() && is_ws_exec(s[lo])
        invariant
            0 <= lo <= s@.len(),
            spec_trim(s@) == spec_trim(s@.skip(lo as int)),
        decreases s@.len() - lo,
    {
        proof {
            assert(s@.skip(lo as int).first() == s@[lo as int]);
            assert(s@.skip(lo as int).drop_first() =~= s@.skip(lo + 1));
        }
        lo = lo + 1;
    }
    let mut hi: usize = s.len();
    while hi > lo && is_ws_exec(s[hi - 1])
        invariant
            0 <= lo <= hi <= s@.len(),
            lo < s@.len() ==> !is_ws(s@[lo as int]),
            spec_trim(s@) == spec_trim(s@.subrange(lo as int, hi as int)),
        decreases hi,
    {
        proof {
            let piece = s@.subrange(lo as int, hi as int);
            assert(piece.first() == s@[lo as int]);
            assert(piece.last() == s@[hi - 1]);
            assert(piece.drop_last() =~= s@.subrange(lo as int, hi - 1));
        }
        hi = hi - 1;
    }
    proof {
        let piece = s@.subrange(lo as int, hi as int);
        if piece.len() > 0 {
            assert(piece.first() == s@[lo as int]);
            assert(piece.last() == s@[hi - 1]);
        }
        assert(spec_trim(piece) == piece);
    }
    let mut r: Vec<u8> = Vec::new();
    let mut i: usize = lo;
    while i < hi
        invariant
            lo <= i <= hi <= s@.len(),
            r@ == s@.subrange(lo as int, i as int),
        decreases hi - i,
    {
        r.push(s[i]);
        proof {
            assert(s@.subrange(lo as int, i + 1) =~= s@.subrange(lo as int, i as int).push(
                s@[i as int],
            ));
        }
        i = i + 1;
    }
    r
}

/// Copies a byte string.
pub fn copy_bytes(s: &Vec<u8>) -> (r: Vec<u8>)
    ensures
        r@ == s@,
{
    let mut r: Vec<u8> = Vec::new();
    let mut i: usize = 0;
    while i < s.len()
        invariant
            0 <= i <= s@.len(),
            r@ == s@.take(i as int),
        decreases s@.len() - i,
    {
        r.push(s[i]);
        proof {
            assert(s@.take(i + 1) =~= s@.take(i as int).push(s@[i as int]));
        }
        i = i + 1;
    }
    proof {
        assert(s@.take(s@.len() as int) =~= s@);
    }
    r
}

/// Prepending a byte to the first piece of a split.
proof fn lemma_split_on_step(s: Seq<u8>, c: u8)
    requires
        s.len() > 0,
        s.first() != c,
    ensures
        split_on(s, c).len() >= 1,
        split_on(s.drop_first(), c).len() >= 1,
        split_on(s, c) == split_on(s.drop_first(), c).update(
            0,
            seq![s.first()].add(split_on(s.drop_first(), c)[0]),
        ),
{
    lemma_split_on_len(s, c);
    lemma_split_on_len(s.drop_first(), c);
}

/// Splits a byte string at every occurrence of `c`.
pub fn split_bytes(s: &Vec<u8>, c: u8) -> (r: Vec<Vec<u8>>)
    ensures
        r@.map_values(|p: Vec<u8>| p@) == split_on(s@, c),
{
    let mut done: Vec<Vec<u8>> = Vec::new();
    let mut cur: Vec<u8> = Vec::new();
    let mut i: usize = 0;
    proof {
        lemma_split_on_len(s@, c);
        let whole = split_on(s@, c);
        assert(s@.skip(0) =~= s@);
        assert(Seq::<u8>::empty().add(whole[0]) =~= whole[0]);
        assert(whole.update(0, whole[0]) =~= whole);
        assert(done@.map_values(|p: Vec<u8>| p@) =~= Seq::<Seq<u8>>::empty());
        assert(Seq::<Seq<u8>>::empty().add(whole) =~= whole);
    }
    while i < s.len()
        invariant
            0 <= i <= s@.len(),
            split_on(s@, c) == ({
                let rest = split_on(s@.skip(i as int), c);
                done@.map_values(|p: Vec<u8>| p@).add(rest.update(0, cur@.add(rest[0])))
            }),
        decreases s@.len() - i,
    {
        let ghost pre_done = done@.map_values(|p: Vec<u8>| p@);
        let ghost pre_cur = cur@;
        let ghost tail = s@.skip(i as int);
        proof {
            assert(tail.len() > 0);
            assert(tail.first() == s@[i as int]);
            assert(tail.drop_first() =~= s@.skip(i + 1));
            lemma_split_on_len(tail.drop_first(), c);
        }
        let b = s[i];
        if b == c {
            proof {
                let rest2 = split_on(s@.skip(i + 1), c);
                assert(split_on(tail, c) == seq![Seq::<u8>::empty()].add(rest2));
                assert(Seq::<u8>::empty().add(rest2[0]) =~= rest2[0]);
                assert(rest2.update(0, rest2[0]) =~= rest2);
                assert(pre_cur.add(Seq::<u8>::empty()) =~= pre_cur);
                assert(split_on(tail, c).update(0, pre_cur.add(split_on(tail, c)[0]))
                    =~~= seq![pre_cur].add(rest2.update(0, Seq::<u8>::empty().add(rest2[0]))));
            }
            done.push(cur);
            cur = Vec::new();
            proof {
                assert(done@.map_values(|p: Vec<u8>| p@) =~= pre_done.push(pre_cur));
                assert(pre_done.push(pre_cur) =~= pre_done.add(seq![pre_cur]));
                let rest2 = split_on(s@.skip(i + 1), c);
                assert(done@.map_values(|p: Vec<u8>| p@).add(
                    rest2.update(0, cur@.add(rest2[0])),
                ) =~= pre_done.add(seq![pre_cur].add(rest2.update(0, rest2[0]))));
            }
        } else {
            proof {
                let rest2 = split_on(s@.skip(i + 1), c);
                lemma_split_on_step(tail, c);
                assert(split_on(tail, c) == rest2.update(0, seq![s@[i as int]].add(rest2[0])));
                assert(split_on(tail, c)[0] == seq![s@[i as int]].add(rest2[0]));
                assert(split_on(tail, c).update(0, pre_cur.add(split_on(tail, c)[0])) =~~= rest2
                    .update(0, pre_cur.push(s@[i as int]).add(rest2[0])));
            }
            cur.push(b);
        }
        i = i + 1;
    }
    proof {
        assert(s@.skip(s@.len() as int) =~= Seq::<u8>::empty());
        let rest = split_on(s@.skip(i as int), c);
        assert(rest == seq![Seq::<u8>::empty()]);
        assert(rest.update(0, cur@.add(rest[0])) =~= seq![cur@.add(Seq::<u8>::empty())]);
        assert(cur@.add(Seq::<u8>::empty()) =~= cur@);
    }
    let ghost pre_done = done@.map_values(|p: Vec<u8>| p@);
    let ghost pre_cur = cur@;
    done.push(cur);
    proof {
        assert(done@.map_values(|p: Vec<u8>| p@) =~= pre_done.push(pre_cur));
        assert(pre_done.push(pre_cur) =~= pre_done.add(seq![pre_cur]));
    }
    done
}

impl Default for Program {
    /// An empty program whose raw text is the built-in default, `exit`.
    fn default() -> (r: Program)
        ensures
            r.wf(),
            r.raw() == seq!['e' as u8, 'x' as u8, 'i' as u8, 't' as u8],
            r.thread@.len() == 0,
            r.functions@.len() == 0,
    {
        let mut raw: Vec<u8> = Vec::new();
        raw.push(101);
        raw.push(120);
        raw.push(105);
        raw.push(116);
        proof {
            assert(raw@ =~= seq!['e' as u8, 'x' as u8, 'i' as u8, 't' as u8]);
        }
        Program { functions: Vec::new(), raw_thread: raw, thread: Vec::new(), thread_len: 0 }
    }
}

/// A tokenized program: the statement list (`thread`), its length, and the
/// label table (`functions`).
pub struct Program {
    pub functions: Vec<(Vec<u8>, usize)>,
    pub raw_thread: Vec<u8>,
    pub thread: Vec<Vec<Vec<u8>>>,
    pub thread_len: usize,
}

impl Program {
    pub open spec fn wf(self) -> bool {
        self.thread_len == self.thread@.len()
    }

    pub open spec fn raw(self) -> Seq<u8> {
        self.raw_thread@
    }

    /// An empty program whose raw text is the built-in default, `exit`.
    pub fn new() -> (r: Program)
        ensures
            r.wf(),
            r.raw() == seq!['e' as u8, 'x' as u8, 'i' as u8, 't' as u8],
            r.thread@.len() == 0,
            r.functions@.len() == 0,
    {
        Program::default()
    }

    /// The comma-separated statements of the raw text, trimmed, with the
    /// empty ones dropped.
    pub fn lines(&self) -> (r: Vec<Vec<u8>>)
        ensures
            r@.map_values(|l: Vec<u8>| l@) == spec_lines(self.raw()),
    {
        let pieces = split_bytes(&self.raw_thread, 44);
        let ghost pieces_v = pieces@.map_values(|p: Vec<u8>| p@);
        let mut out: Vec<Vec<u8>> = Vec::new();
        let mut i: usize = 0;
        proof {
            assert(pieces_v.skip(0) =~= pieces_v);
            assert(out@.map_values(|l: Vec<u8>| l@) =~= Seq::<Seq<u8>>::empty());
            assert(Seq::<Seq<u8>>::empty().add(clean_pieces(pieces_v)) =~= clean_pieces(pieces_v));
        }
        while i < pieces.len()
            invariant
                0 <= i <= pieces@.len(),
                pieces_v == pieces@.map_values(|p: Vec<u8>| p@),
                pieces_v == split_on(self.raw_thread@, comma()),
                clean_pieces(pieces_v) == out@.map_values(|l: Vec<u8>| l@).add(
                    clean_pieces(pieces_v.skip(i as int)),
                ),
            decreases pieces@.len() - i,
        {
            let ghost tail = pieces_v.skip(i as int);
            proof {
                assert(tail.first() == pieces_v[i as int]);
                assert(tail.drop_first() =~= pieces_v.skip(i + 1));
            }
            let ghost pre_out = out@.map_values(|l: Vec<u8>| l@);
            let t = trim_bytes(&pieces[i]);
            if t.len() > 0 {
                let ghost tv = t@;
                out.push(t);
                proof {
                    assert(out@.map_values(|l: Vec<u8>| l@) =~= pre_out.push(tv));
                    assert(clean_pieces(tail) == seq![tv].add(clean_pieces(pieces_v.skip(i + 1))));
                    assert(pre_out.push(tv).add(clean_pieces(pieces_v.skip(i + 1))) =~= pre_out.add(
                        clean_pieces(tail),
                    ));
                }
            } else {
                proof {
                    assert(clean_pieces(tail) == clean_pieces(pieces_v.skip(i + 1)));
                }
            }
            i = i + 1;
        }
        proof {
            assert(pieces_v.skip(pieces_v.len() as int) =~= Seq::<Seq<u8>>::empty());
            assert(clean_pieces(pieces_v.skip(i as int)) == Seq::<Seq<u8>>::empty());
            assert(out@.map_values(|l: Vec<u8>| l@).add(Seq::<Seq<u8>>::empty()) =~= out@.map_values(
                |l: Vec<u8>| l@,
            ));
        }
        out
    }

    /// Rebuilds the statement list from the raw text: the surviving lines,
    /// each split into tokens at single spaces.
    pub fn split(&mut self)
        ensures
            final(self).raw() == old(self).raw(),
            final(self).functions == old(self).functions,
            thread_view(final(self).thread@) == spec_thread(old(self).raw()),
            final(self).wf(),
    {
        let ls = self.lines();
        let ghost ls_v = ls@.map_values(|l: Vec<u8>| l@);
        let mut out: Vec<Vec<Vec<u8>>> = Vec::new();
        let mut i: usize = 0;
        while i < ls.len()
            invariant
                0 <= i <= ls@.len(),
                ls_v == ls@.map_values(|l: Vec<u8>| l@),
                thread_view(out@) == ls_v.take(i as int).map_values(
                    |l: Seq<u8>| split_on(l, space()),
                ),
            decreases ls@.len() - i,
        {
            let ghost pre = thread_view(out@);
            let toks = split_bytes(&ls[i], 32);
            let ghost toks_v = toks@.map_values(|t: Vec<u8>| t@);
            out.push(toks);
            proof {
                assert(thread_view(out@) =~= pre.push(toks_v));
                assert(ls_v.take(i + 1) =~= ls_v.take(i as int).push(ls_v[i as int]));
                assert(ls_v.take(i + 1).map_values(|l: Seq<u8>| split_on(l, space())) =~= ls_v.take(
                    i as int,
                ).map_values(|l: Seq<u8>| split_on(l, space())).push(
                    split_on(ls_v[i as int], space()),
                ));
            }
            i = i + 1;
        }
        proof {
            assert(ls_v.take(ls_v.len() as int) =~= ls_v);
        }
        self.thread_len = out.len();
        self.thread = out;
    }

    /// Scans the statement list and records every label declaration together
    /// with its 1-based position.
    fn index_labels(&mut self)
        requires
            old(self).wf(),
        ensures
            final(self).raw() == old(self).raw(),
            final(self).thread == old(self).thread,
            final(self).thread_len == old(self).thread_len,
            final(self).wf(),
            funcs_view(final(self).functions@) == spec_functions(thread_view(old(self).thread@)),
    {
        let ghost tv = thread_view(self.thread@);
        let mut fns: Vec<(Vec<u8>, usize)> = Vec::new();
        let mut i: usize = 0;
        while i < self.thread_len
            invariant
                0 <= i <= tv.len(),
                self.wf(),
                tv == thread_view(self.thread@),
                self.thread_len == self.thread@.len(),
                labels_from(tv, 0) == funcs_view(fns@).add(labels_from(tv, i as int)),
            decreases tv.len() - i,
        {
            let ghost pre = funcs_view(fns@);
            let stmt = &self.thread[i];
            if stmt.len() > 0 && has_colon(&stmt[0]) {
                proof {
                    assert(tv[i as int] == self.thread@[i as int]@.map_values(|t: Vec<u8>| t@));
                    assert(tv[i as int][0] == self.thread@[i as int]@[0]@);
                    assert(labels_from(tv, i as int) == seq![(tv[i as int][0], i + 1)].add(
                        labels_from(tv, i + 1),
                    ));
                }
                let name = copy_bytes(&stmt[0]);
                let ghost namev = name@;
                fns.push((name, i + 1));
                proof {
                    assert(funcs_view(fns@) =~= pre.push((namev, i + 1)));
                    assert(pre.push((namev, i + 1)).add(labels_from(tv, i + 1)) =~= pre.add(
                        labels_from(tv, i as int),
                    ));
                }
            } else {
                proof {
                    assert(tv[i as int] == self.thread@[i as int]@.map_values(|t: Vec<u8>| t@));
                    if tv[i as int].len() > 0 {
                        assert(tv[i as int][0] == self.thread@[i as int]@[0]@);
                    }
                    assert(labels_from(tv, i as int) == labels_from(tv, i + 1));
                }
            }
            i = i + 1;
        }
        proof {
            assert(labels_from(tv, i as int) == Seq::<(Seq<u8>, int)>::empty());
            assert(funcs_view(fns@).add(Seq::<(Seq<u8>, int)>::empty()) =~= funcs_view(fns@));
        }
        self.functions = fns;
    }

    /// Loads a program: trims the whole source, tokenizes it into statements
    /// and builds the label table.
    pub fn load(&mut self, source: Vec<u8>)
        ensures
            final(self).wf(),
            final(self).raw() == spec_trim(source@),
            thread_view(final(self).thread@) == spec_thread(spec_trim(source@)),
            funcs_view(final(self).functions@) == spec_functions(spec_thread(spec_trim(source@))),
    {
        let trimmed = trim_bytes(&source);
        self.raw_thread = trimmed;
        self.split();
        self.index_labels();
    }
}

} // verus!
