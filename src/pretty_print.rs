//! Laying a result out for the result log, wrapped at white space.
use vstd::prelude::*;
use crate::text::{chars_of, pieces_view, push_char, split_tokens, tokens};

verus! {

/// Filling lines word by word: the text of the finished lines, each ended by
/// a line feed, and the line being filled.
pub open spec fn wrap_state(words: Seq<Seq<char>>, width: nat) -> (Seq<char>, Seq<char>)
    decreases words.len(),
{
    if words.len() == 0 {
        (seq![], seq![])
    } else {
        let (done, cur) = wrap_state(words.drop_last(), width);
        let w = words.last();
        if cur.len() == 0 {
            (done, w)
        } else if cur.len() + 1 + w.len() <= width {
            (done, cur + seq![' '] + w)
        } else {
            (done + cur + seq!['\n'], w)
        }
    }
}

/// The text appended to the log for `line`: the line itself when it fits in
/// `width` characters, else its words greedily filled into lines of at most
/// `width` characters (a longer word stands alone), each line ended by a line
/// feed; then one empty line.
pub open spec fn print_spec(line: Seq<char>, width: nat) -> Seq<char> {
    if line.len() <= width {
        line + seq!['\n', '\n']
    } else {
        let (done, cur) = wrap_state(tokens(line), width);
        if cur.len() > 0 {
            done + cur + seq!['\n', '\n']
        } else {
            done + seq!['\n']
        }
    }
}

fn append_chars(s: &mut String, v: &Vec<char>)
    ensures
        final(s)@ == old(s)@ + v@,
{
    let mut j: usize = 0;
    while j < v.len()
        invariant
            j <= v.len(),
            s@ == old(s)@ + v@.take(j as int),
        decreases v.len() - j,
    {
        push_char(s, v[j]);
        assert(v@.take(j + 1) =~= v@.take(j as int).push(v@[j as int]));
        j += 1;
    }
    assert(v@.take(v.len() as int) =~= v@);
}

/// Lays `line` out for the result log, wrapped at `length` characters.
pub fn print(line: &str, length: u32) -> (r: String)
    ensures
        r@ == print_spec(line@, length as nat),
{
    let chars = chars_of(line);
    let mut out = String::new();
    if chars.len() <= length as usize {
        append_chars(&mut out, &chars);
        push_char(&mut out, '\n');
        push_char(&mut out, '\n');
        assert(out@ =~= print_spec(line@, length as nat));
        return out;
    }
    let words = split_tokens(&chars);
    let ghost wv = pieces_view(words@);
    let mut cur: Vec<char> = Vec::new();
    let mut k: usize = 0;
    assert(wv.take(0) =~= seq![]);
    while k < words.len()
        invariant
            k <= words.len(),
            wv == pieces_view(words@),
            out@ == wrap_state(wv.take(k as int), length as nat).0,
            cur@ == wrap_state(wv.take(k as int), length as nat).1,
        decreases words.len() - k,
    {
        assert(wv.take(k + 1).drop_last() =~= wv.take(k as int));
        assert(wv.take(k + 1).last() == words@[k as int]@);
        let w = &words[k];
        if cur.len() == 0 {
            cur = w.clone();
        } else if cur.len() < length as usize && w.len() <= length as usize - cur.len() - 1 {
            cur.push(' ');
            let ghost before = cur@;
            let mut j: usize = 0;
            while j < w.len()
                invariant
                    j <= w.len(),
                    k < words.len(),
                    w == &words@[k as int],
                    cur@ == before + w@.take(j as int),
                decreases w.len() - j,
            {
                cur.push(w[j]);
                assert(w@.take(j + 1) =~= w@.take(j as int).push(w@[j as int]));
                j += 1;
            }
            assert(w@.take(w.len() as int) =~= w@);
        } else {
            append_chars(&mut out, &cur);
            push_char(&mut out, '\n');
            cur = w.clone();
        }
        k += 1;
    }
    assert(wv.take(words.len() as int) =~= wv);
    let ghost done = out@;
    if cur.len() > 0 {
        append_chars(&mut out, &cur);
        push_char(&mut out, '\n');
    }
    push_char(&mut out, '\n');
    assert(out@ =~= print_spec(line@, length as nat));
    out
}

} // verus!
