//! Character-level helpers for strings.

use vstd::prelude::*;

verus! {

broadcast use vstd::string::group_string_axioms;

/// `String::push` appends one character.
pub assume_specification[ String::push ](s: &mut String, ch: char)
    ensures
        final(s)@ == old(s)@.push(ch),
;

/// The characters of `s`, in order.
pub fn chars_of(s: &str) -> (v: Vec<char>)
    ensures
        v@ == s@,
{
    let mut v: Vec<char> = Vec::new();
    for c in it: s.chars()
        invariant
            it.seq() == s@,
            v@ == it.seq().take(it.index() as int),
    {
        v.push(c);
    }
    v
}

/// The string made of the characters of `v`, in order.
pub fn string_of(v: &[char]) -> (s: String)
    ensures
        s@ == v@,
{
    let mut s = String::new();
    for i in 0..v.len()
        invariant
            s@ == v@.take(i as int),
    {
        s.push(v[i]);
    }
    s
}


/// The pieces of `s` between newline characters, first to last: a string with
/// `n` newlines has `n + 1` pieces, and the last one is what follows the final
/// newline (empty when `s` ends with one).
pub open spec fn newline_pieces(s: Seq<char>) -> Seq<Seq<char>>
    decreases s.len(),
{
    if s.len() == 0 {
        seq![Seq::<char>::empty()]
    } else {
        let before = newline_pieces(s.drop_last());
        if s.last() == '\n' {
            before.push(Seq::<char>::empty())
        } else {
            before.update(before.len() - 1, before.last().push(s.last()))
        }
    }
}

/// `line` without one carriage return at its end, if it has one.
pub open spec fn strip_cr(line: Seq<char>) -> Seq<char> {
    if line.len() > 0 && line.last() == '\r' {
        line.drop_last()
    } else {
        line
    }
}

/// The lines of `s` as `str::lines` yields them: pieces between newlines,
/// a line ended by `"\r\n"` losing its carriage return, and no line after a
/// final newline (so the empty string has no lines).
pub open spec fn text_lines(s: Seq<char>) -> Seq<Seq<char>> {
    let pieces = newline_pieces(s);
    let ended = pieces.drop_last().map_values(|l: Seq<char>| strip_cr(l));
    if pieces.last().len() == 0 {
        ended
    } else {
        ended.push(pieces.last())
    }
}

/// The views of a sequence of strings.
pub open spec fn string_views(v: Seq<String>) -> Seq<Seq<char>> {
    v.map_values(|x: String| x@)
}

/// `newline_pieces` always yields at least one piece.
pub proof fn lemma_newline_pieces_nonempty(s: Seq<char>)
    ensures
        newline_pieces(s).len() >= 1,
    decreases s.len(),
{
    if s.len() > 0 {
        lemma_newline_pieces_nonempty(s.drop_last());
    }
}

/// How the pieces of a prefix grow by one more character.
pub proof fn lemma_newline_pieces_step(s: Seq<char>, i: int)
    requires
        0 <= i < s.len(),
    ensures
        s[i] == '\n' ==> newline_pieces(s.take(i + 1)) == newline_pieces(s.take(i)).push(
            Seq::<char>::empty(),
        ),
        s[i] != '\n' ==> newline_pieces(s.take(i + 1)) == newline_pieces(s.take(i)).update(
            newline_pieces(s.take(i)).len() - 1,
            newline_pieces(s.take(i)).last().push(s[i]),
        ),
{
    assert(s.take(i + 1).drop_last() =~= s.take(i));
    assert(s.take(i + 1).last() == s[i]);
}

/// The lines of `s`, each as a string of its own.
pub fn lines_of(s: &str) -> (lines: Vec<String>)
    ensures
        string_views(lines@) == text_lines(s@),
{
    let chars = chars_of(s);
    let mut lines: Vec<String> = Vec::new();
    let mut cur: Vec<char> = Vec::new();
    proof {
        assert(s@.take(0) =~= Seq::<char>::empty());
    }
    for i in 0..chars.len()
        invariant
            chars@ == s@,
            ({
                let pieces = newline_pieces(s@.take(i as int));
                &&& pieces.len() >= 1
                &&& string_views(lines@) == pieces.drop_last().map_values(
                    |l: Seq<char>| strip_cr(l),
                )
                &&& cur@ == pieces.last()
            }),
    {
        let c = chars[i];
        let ghost before = newline_pieces(s@.take(i as int));
        proof {
            lemma_newline_pieces_step(s@, i as int);
        }
        if c == '\n' {
            let n = cur.len();
            if n > 0 && cur[n - 1] == '\r' {
                cur.pop();
            }
            let line = string_of(cur.as_slice());
            assert(line@ == strip_cr(before.last())) by {
                if n > 0 && before.last().last() == '\r' {
                    assert(cur@ =~= before.last().drop_last());
                }
            }
            let ghost old_lines = lines@;
            lines.push(line);
            cur = Vec::new();
            proof {
                let after = newline_pieces(s@.take(i + 1));
                assert(after.drop_last() =~= before);
                assert(string_views(lines@) =~= string_views(old_lines).push(line@));
                assert(before.map_values(|l: Seq<char>| strip_cr(l)) =~= before.drop_last().map_values(
                    |l: Seq<char>| strip_cr(l),
                ).push(strip_cr(before.last())));
                assert(string_views(lines@) =~= after.drop_last().map_values(
                    |l: Seq<char>| strip_cr(l),
                ));
            }
        } else {
            cur.push(c);
            proof {
                let after = newline_pieces(s@.take(i + 1));
                assert(after.drop_last() =~= before.drop_last());
            }
        }
    }
    let ghost pieces = newline_pieces(s@.take(chars.len() as int));
    proof {
        assert(s@.take(chars.len() as int) =~= s@);
    }
    if cur.len() > 0 {
        let last = string_of(cur.as_slice());
        let ghost old_lines = lines@;
        lines.push(last);
        proof {
            assert(string_views(lines@) =~= string_views(old_lines).push(last@));
            assert(string_views(lines@) =~= pieces.drop_last().map_values(
                |l: Seq<char>| strip_cr(l),
            ).push(pieces.last()));
        }
    }
    lines
}

} // verus!
