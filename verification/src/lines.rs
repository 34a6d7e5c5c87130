//! Splitting a text into its lines, each line keeping its terminator.
//!
//! A line ends right after a `'\n'`; a final fragment without a terminator is
//! a line of its own. Joining the lines back together yields the original
//! text, character for character.

use vstd::prelude::*;

use crate::text::str_chars;

verus! {

/// The line decomposition of a text: every line keeps its trailing `'\n'`,
/// and only the last line may lack one. The empty text has no lines.
pub open spec fn spec_lines(s: Seq<char>) -> Seq<Seq<char>>
    decreases s.len(),
{
    if s.len() == 0 {
        Seq::empty()
    } else {
        let rest = spec_lines(s.drop_first());
        if s[0] == '\n' {
            seq![seq!['\n']] + rest
        } else if rest.len() == 0 {
            seq![seq![s[0]]]
        } else {
            seq![seq![s[0]] + rest[0]] + rest.drop_first()
        }
    }
}

/// The views of a sequence of owned lines.
pub open spec fn views_of(lines: Seq<String>) -> Seq<Seq<char>> {
    lines.map_values(|l: String| l@)
}

/// A non-empty text decomposes into at least one line.
pub proof fn lemma_spec_lines_len_pos(s: Seq<char>)
    requires
        s.len() > 0,
    ensures
        spec_lines(s).len() > 0,
{
}

/// A one-character text is a single one-character line.
pub proof fn lemma_spec_lines_single(c: char)
    ensures
        spec_lines(seq![c]) == seq![seq![c]],
{
    let s: Seq<char> = seq![c];
    assert(s.drop_first() =~= Seq::<char>::empty());
    assert(spec_lines(Seq::<char>::empty()) =~= Seq::<Seq<char>>::empty());
    if c == '\n' {
        assert(spec_lines(s) =~~= seq![seq![c]]);
    } else {
        assert(spec_lines(s) =~~= seq![seq![c]]);
    }
}

/// Appending one character either extends the last line (when the text does
/// not yet end in a terminator) or opens a fresh line.
pub proof fn lemma_spec_lines_push(s: Seq<char>, c: char)
    ensures
        s.len() == 0 || s.last() == '\n' ==> spec_lines(s.push(c)) == spec_lines(s).push(
            seq![c],
        ),
        s.len() > 0 && s.last() != '\n' ==> spec_lines(s.push(c)) == spec_lines(s).update(
            spec_lines(s).len() - 1,
            spec_lines(s).last().push(c),
        ),
    decreases s.len(),
{
    if s.len() == 0 {
        assert(s.push(c) =~= seq![c]);
        lemma_spec_lines_single(c);
        assert(spec_lines(s).push(seq![c]) =~= seq![seq![c]]);
    } else {
        let t = s.drop_first();
        assert(s.push(c).drop_first() =~= t.push(c));
        assert(s.push(c)[0] == s[0]);
        lemma_spec_lines_push(t, c);
        if t.len() > 0 {
            assert(s.last() == t.last());
            lemma_spec_lines_len_pos(t);
            let rest = spec_lines(t);
            let restp = spec_lines(t.push(c));
            if s[0] == '\n' {
                if t.last() == '\n' {
                    assert(spec_lines(s.push(c)) =~= spec_lines(s).push(seq![c]));
                } else {
                    assert(spec_lines(s) =~= seq![seq!['\n']] + rest);
                    assert(spec_lines(s.push(c)) =~= spec_lines(s).update(
                        spec_lines(s).len() - 1,
                        spec_lines(s).last().push(c),
                    ));
                }
            } else {
                assert(restp.len() > 0) by {
                    lemma_spec_lines_len_pos(t.push(c));
                }
                if t.last() == '\n' {
                    assert(restp == rest.push(seq![c]));
                    assert(restp[0] == rest[0]);
                    assert(restp.drop_first() =~= rest.drop_first().push(seq![c]));
                    assert(spec_lines(s.push(c)) =~= spec_lines(s).push(seq![c]));
                } else {
                    assert(restp == rest.update(rest.len() - 1, rest.last().push(c)));
                    if rest.len() == 1 {
                        assert(restp[0] == rest.last().push(c));
                        assert(restp.drop_first() =~= rest.drop_first());
                        assert((seq![s[0]] + rest[0]).push(c) =~= seq![s[0]] + rest[0].push(c));
                        assert(spec_lines(s.push(c)) =~= spec_lines(s).update(
                            spec_lines(s).len() - 1,
                            spec_lines(s).last().push(c),
                        ));
                    } else {
                        assert(restp[0] == rest[0]);
                        assert(restp.drop_first() =~= rest.drop_first().update(
                            rest.drop_first().len() - 1,
                            rest.drop_first().last().push(c),
                        ));
                        assert(spec_lines(s).last() == rest.last());
                        assert(spec_lines(s.push(c)) =~= spec_lines(s).update(
                            spec_lines(s).len() - 1,
                            spec_lines(s).last().push(c),
                        ));
                    }
                }
            }
        } else {
            assert(s =~= seq![s[0]]);
            assert(s.last() == s[0]);
            lemma_spec_lines_single(s[0]);
            lemma_spec_lines_single(c);
            assert(t.push(c) =~= seq![c]);
            if s[0] == '\n' {
                assert(spec_lines(s.push(c)) =~~= spec_lines(s).push(seq![c]));
            } else {
                assert(spec_lines(s.push(c)) =~~= seq![seq![s[0], c]]);
                assert(spec_lines(s).update(0, spec_lines(s).last().push(c)) =~~= seq![
                    seq![s[0], c],
                ]);
            }
        }
    }
}

/// The concatenation of a sequence of lines.
pub open spec fn join_lines(ls: Seq<Seq<char>>) -> Seq<char>
    decreases ls.len(),
{
    if ls.len() == 0 {
        Seq::empty()
    } else {
        ls[0] + join_lines(ls.drop_first())
    }
}

/// Law: joining the lines of a text reproduces the text, character for
/// character, so an all-Equal diff re-renders the input byte-identically.
pub proof fn lemma_lines_join(s: Seq<char>)
    ensures
        join_lines(spec_lines(s)) == s,
    decreases s.len(),
{
    if s.len() == 0 {
        assert(join_lines(spec_lines(s)) =~= s);
    } else {
        let t = s.drop_first();
        lemma_lines_join(t);
        let rest = spec_lines(t);
        if s[0] == '\n' {
            assert((seq![seq!['\n']] + rest).drop_first() =~= rest);
            assert(join_lines(spec_lines(s)) =~= seq!['\n'] + join_lines(rest));
            assert(seq!['\n'] + t =~= s);
        } else if rest.len() == 0 {
            assert(t.len() == 0) by {
                if t.len() > 0 {
                    lemma_spec_lines_len_pos(t);
                }
            }
            assert(seq![seq![s[0]]].drop_first() =~= Seq::<Seq<char>>::empty());
            assert(join_lines(Seq::<Seq<char>>::empty()) =~= Seq::<char>::empty());
            assert(join_lines(spec_lines(s)) =~= seq![s[0]]);
            assert(s =~= seq![s[0]]);
        } else {
            let lines = seq![seq![s[0]] + rest[0]] + rest.drop_first();
            assert(lines[0] == seq![s[0]] + rest[0]);
            assert(lines.drop_first() =~= rest.drop_first());
            assert(join_lines(rest) == rest[0] + join_lines(rest.drop_first()));
            assert(join_lines(spec_lines(s)) =~= seq![s[0]] + join_lines(rest));
            assert(seq![s[0]] + t =~= s);
        }
    }
}

/// Splits a text into its lines, each line keeping its trailing `'\n'`.
/// An empty text yields no lines; joining the result reproduces the input.
pub fn split_lines(text: &str) -> (r: Vec<String>)
    ensures
        views_of(r@) == spec_lines(text@),
{
    let chars = str_chars(text);
    let mut out: Vec<String> = Vec::new();
    let mut cur = String::new();
    let n = chars.len();
    for i in 0..n
        invariant
            chars@ == text@,
            n == chars@.len(),
            (cur@.len() == 0) <==> (i == 0 || text@[i - 1] == '\n'),
            cur@.len() == 0 ==> views_of(out@) == spec_lines(text@.take(i as int)),
            cur@.len() > 0 ==> views_of(out@).push(cur@) == spec_lines(text@.take(i as int)),
    {
        let ghost prefix = text@.take(i as int);
        let ghost old_cur = cur@;
        let ghost old_out = out@;
        let c = chars[i];
        cur.push(c);
        proof {
            lemma_spec_lines_push(prefix, c);
            assert(text@.take(i as int + 1) =~= prefix.push(c));
            if old_cur.len() == 0 {
                assert(old_cur.push(c) =~= seq![c]);
                assert(spec_lines(prefix.push(c)) == spec_lines(prefix).push(seq![c]));
            } else {
                assert(prefix.last() == text@[i - 1]);
                let m = views_of(old_out).len() as int;
                assert(spec_lines(prefix) == views_of(old_out).push(old_cur));
                assert(spec_lines(prefix).last() == old_cur);
                assert(views_of(old_out).push(old_cur).update(m, old_cur.push(c)) =~= views_of(
                    old_out,
                ).push(old_cur.push(c)));
                assert(spec_lines(prefix.push(c)) == views_of(old_out).push(old_cur.push(c)));
            }
        }
        if c == '\n' {
            let ghost done = cur@;
            out.push(cur);
            cur = String::new();
            proof {
                assert(views_of(out@) =~= views_of(old_out).push(done));
            }
        }
    }
    proof {
        assert(text@.take(n as int) =~= text@);
    }
    if !cur.as_str().is_empty() {
        let ghost old_out = out@;
        let ghost done = cur@;
        out.push(cur);
        proof {
            assert(views_of(out@) =~= views_of(old_out).push(done));
        }
    }
    out
}

} // verus!
