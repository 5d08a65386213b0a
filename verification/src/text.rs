//! Character-level helpers shared by the tools: converting between `str`,
//! `String` and `Vec<char>`, joining texts, and skipping leading lines.
use vstd::prelude::*;

verus! {

/// `String::push` appends one character to the end of the string.
pub assume_specification[ String::push ](s: &mut String, ch: char)
    ensures
        final(s)@ == old(s)@.push(ch),
;

/// The characters of `s`, in order.
pub fn chars_of(s: &str) -> (r: Vec<char>)
    ensures
        r@ == s@,
{
    let mut out: Vec<char> = Vec::new();
    for c in it: s.chars()
        invariant
            out@ == it.seq().take(it.index()),
    {
        out.push(c);
    }
    out
}

/// The string made of the characters `cs[from..to]`.
pub fn string_from_range(cs: &Vec<char>, from: usize, to: usize) -> (r: String)
    requires
        from <= to <= cs.len(),
    ensures
        r@ == cs@.subrange(from as int, to as int),
{
    let mut out = String::new();
    let mut i = from;
    while i < to
        invariant
            from <= i <= to <= cs.len(),
            out@ == cs@.subrange(from as int, i as int),
        decreases to - i,
    {
        out.push(cs[i]);
        i += 1;
    }
    out
}

/// Appends the text of `s` to `out`.
pub fn push_text(out: &mut String, s: &str)
    ensures
        final(out)@ == old(out)@ + s@,
{
    out.append(s);
}

/// The parts joined by `sep`, as `[a, b, c].join(sep)` gives them.
pub open spec fn join_text(parts: Seq<Seq<char>>, sep: Seq<char>) -> Seq<char>
    decreases parts.len(),
{
    if parts.len() == 0 {
        Seq::empty()
    } else if parts.len() == 1 {
        parts[0]
    } else {
        join_text(parts.drop_last(), sep) + sep + parts.last()
    }
}

/// Law: joining two nonempty lists gives the two joins with one separator
/// between them.
pub proof fn lemma_join_text_concat(a: Seq<Seq<char>>, b: Seq<Seq<char>>, sep: Seq<char>)
    requires
        a.len() > 0,
        b.len() > 0,
    ensures
        join_text(a + b, sep) == join_text(a, sep) + sep + join_text(b, sep),
    decreases b.len(),
{
    let ab = a + b;
    if b.len() == 1 {
        assert(ab.drop_last() =~= a);
        assert(ab.last() == b[0]);
    } else {
        lemma_join_text_concat(a, b.drop_last(), sep);
        assert(ab.drop_last() =~= a + b.drop_last());
        assert(ab.last() == b.last());
        assert(join_text(ab, sep) =~= join_text(a, sep) + sep + join_text(b.drop_last(), sep) + sep + b.last());
    }
}

/// The views of a sequence of strings.
pub open spec fn texts(parts: Seq<String>) -> Seq<Seq<char>> {
    parts.map_values(|p: String| p@)
}

/// Joins the strings with the separator between each two of them.
pub fn join_strings(parts: &Vec<String>, sep: &str) -> (r: String)
    ensures
        r@ == join_text(texts(parts@), sep@),
{
    let mut out = String::new();
    let ghost views = texts(parts@);
    let mut i: usize = 0;
    while i < parts.len()
        invariant
            i <= parts.len(),
            views == texts(parts@),
            out@ == join_text(views.take(i as int), sep@),
        decreases parts.len() - i,
    {
        proof {
            assert(views.take(i as int + 1).drop_last() =~= views.take(i as int));
        }
        if i != 0 {
            out.append(sep);
        }
        out.append(parts[i].as_str());
        i += 1;
    }
    assert(views.take(parts.len() as int) =~= views);
    out
}

/// The number of characters up to and including the first line break, or
/// the whole length when there is none: what one `read_line` consumes.
pub open spec fn line_end(s: Seq<char>) -> nat
    decreases s.len(),
{
    if s.len() == 0 {
        0
    } else if s[0] == '\n' {
        1
    } else {
        1 + line_end(s.drop_first())
    }
}

/// What is left of `s` after `n` lines have been read off its front.
pub open spec fn after_lines(s: Seq<char>, n: nat) -> Seq<char>
    decreases n,
{
    if n == 0 {
        s
    } else {
        after_lines(s.skip(line_end(s) as int), (n - 1) as nat)
    }
}

proof fn lemma_line_end_bound(s: Seq<char>)
    ensures
        line_end(s) <= s.len(),
        s.len() > 0 ==> line_end(s) > 0,
    decreases s.len(),
{
    if s.len() > 0 && s[0] != '\n' {
        lemma_line_end_bound(s.drop_first());
    }
}

/// Law: a line ends just after the first `'\n'`, and only there; without
/// one it runs to the end of the text.
pub proof fn lemma_line_end_first_newline(s: Seq<char>)
    ensures
        line_end(s) <= s.len(),
        forall|i: int| 0 <= i < line_end(s) - 1 ==> s[i] != '\n',
        line_end(s) < s.len() ==> line_end(s) > 0 && s[line_end(s) - 1] == '\n',
        line_end(s) == s.len() && s.len() > 0 ==> s[s.len() - 1] == '\n' || (forall|i: int|
            0 <= i < s.len() ==> s[i] != '\n'),
    decreases s.len(),
{
    if s.len() > 0 && s[0] != '\n' {
        let t = s.drop_first();
        lemma_line_end_first_newline(t);
        assert forall|i: int| 0 <= i < line_end(s) - 1 implies s[i] != '\n' by {
            if i > 0 {
                assert(s[i] == t[i - 1]);
            }
        }
        if line_end(s) == s.len() && s.len() > 0 && s[s.len() - 1] != '\n' {
            assert forall|i: int| 0 <= i < s.len() implies s[i] != '\n' by {
                if i > 0 {
                    assert(s[i] == t[i - 1]);
                }
            }
        }
    }
}

/// Law: reading one line off a text made of a line without `'\n'`, a
/// `'\n'` and a rest leaves exactly the rest; a text without `'\n'` is one
/// whole line, and nothing is left after it.
pub proof fn lemma_skip_one_line(line: Seq<char>, rest: Seq<char>)
    requires
        forall|i: int| 0 <= i < line.len() ==> line[i] != '\n',
    ensures
        after_lines(line + seq!['\n'] + rest, 1) == rest,
        after_lines(line, 1) == Seq::<char>::empty(),
    decreases line.len(),
{
    lemma_line_end_of(line, rest);
    lemma_line_end_whole(line);
    let s = line + seq!['\n'] + rest;
    assert(s.skip(line.len() as int + 1) =~= rest);
    assert(after_lines(s, 1) == after_lines(s.skip(line_end(s) as int), 0));
    assert(line.skip(line.len() as int) =~= Seq::<char>::empty());
    assert(after_lines(line, 1) == after_lines(line.skip(line_end(line) as int), 0));
}

proof fn lemma_line_end_of(line: Seq<char>, rest: Seq<char>)
    requires
        forall|i: int| 0 <= i < line.len() ==> line[i] != '\n',
    ensures
        line_end(line + seq!['\n'] + rest) == line.len() + 1,
    decreases line.len(),
{
    let s = line + seq!['\n'] + rest;
    if line.len() == 0 {
        assert(s[0] == '\n');
    } else {
        assert(s[0] == line[0]);
        lemma_line_end_of(line.drop_first(), rest);
        assert(s.drop_first() =~= line.drop_first() + seq!['\n'] + rest);
    }
}

proof fn lemma_line_end_whole(line: Seq<char>)
    requires
        forall|i: int| 0 <= i < line.len() ==> line[i] != '\n',
    ensures
        line_end(line) == line.len(),
    decreases line.len(),
{
    if line.len() > 0 {
        assert(line[0] != '\n');
        lemma_line_end_whole(line.drop_first());
    }
}

/// Law: reading lines off the front of a text leaves one of its suffixes:
/// nothing is reordered or changed in what is left.
pub proof fn lemma_after_lines_is_suffix(s: Seq<char>, n: nat)
    ensures
        exists|k: int| 0 <= k <= s.len() && #[trigger] s.skip(k) == after_lines(s, n),
    decreases n,
{
    if n == 0 {
        assert(s.skip(0) =~= s);
    } else {
        lemma_line_end_bound(s);
        let t = s.skip(line_end(s) as int);
        lemma_after_lines_is_suffix(t, (n - 1) as nat);
        let j = choose|j: int| 0 <= j <= t.len() && #[trigger] t.skip(j) == after_lines(t, (n - 1) as nat);
        assert(s.skip(line_end(s) as int + j) =~= t.skip(j));
    }
}

/// From position `start`, the first position after the line that begins there.
fn next_line_start(cs: &Vec<char>, start: usize) -> (r: usize)
    requires
        start <= cs.len(),
    ensures
        r == start + line_end(cs@.skip(start as int)),
        r <= cs.len(),
{
    let mut i = start;
    while i < cs.len() && cs[i] != '\n'
        invariant
            start <= i <= cs.len(),
            forall|k: int| start <= k < i ==> cs@[k] != '\n',
            line_end(cs@.skip(start as int)) == (i - start) + line_end(cs@.skip(i as int)),
        decreases cs.len() - i,
    {
        proof {
            assert(cs@.skip(i as int).drop_first() =~= cs@.skip(i as int + 1));
        }
        i += 1;
    }
    proof {
        lemma_line_end_bound(cs@.skip(i as int));
    }
    if i < cs.len() {
        i + 1
    } else {
        i
    }
}

/// The text that is left after `n` lines have been read off the front of `s`
/// (each line ends after its `'\n'`; a last line may lack one).
pub fn skip_lines(s: &str, n: usize) -> (r: String)
    ensures
        r@ == after_lines(s@, n as nat),
{
    let cs = chars_of(s);
    let mut pos: usize = 0;
    let mut k: usize = 0;
    assert(cs@.skip(0) =~= cs@);
    while k < n
        invariant
            k <= n,
            pos <= cs.len(),
            after_lines(s@, n as nat) == after_lines(cs@.skip(pos as int), (n - k) as nat),
        decreases n - k,
    {
        let next = next_line_start(&cs, pos);
        proof {
            assert(cs@.skip(pos as int).skip(line_end(cs@.skip(pos as int)) as int)
                =~= cs@.skip(next as int));
        }
        pos = next;
        k += 1;
    }
    string_from_range(&cs, pos, cs.len())
}

} // verus!
