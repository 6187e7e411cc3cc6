//! Facts about lines and trimming that the transcript format rests on.

use crate::text::has_prefix;
use crate::text::is_blank;
use crate::text::is_line;
use crate::text::is_space;
use crate::text::join_lines;
use crate::text::lines_of;
use crate::text::trim;
use crate::text::trim_end;
use crate::text::trim_start;
use vstd::prelude::*;

verus! {

/// A text that ends in a line feed has one more line, an empty one.
pub proof fn lemma_lines_push_newline(s: Seq<char>)
    ensures
        lines_of(s.push('\n')) == lines_of(s).push(Seq::<char>::empty()),
{
    assert(s.push('\n').drop_last() =~= s);
}

/// A text without a line feed is its own single line.
pub proof fn lemma_lines_of_line(line: Seq<char>)
    requires
        is_line(line),
    ensures
        lines_of(line) == seq![line],
    decreases line.len(),
{
    if line.len() > 0 {
        lemma_lines_of_line(line.drop_last());
        let before = lines_of(line.drop_last());
        assert(before.drop_last().push(before.last().push(line.last())) =~= seq![line]) by {
            assert(line.drop_last().push(line.last()) =~= line);
        }
    } else {
        assert(line =~= Seq::<char>::empty());
    }
}

/// The lines of two texts put together: the last line of the first and the
/// first line of the second become one.
pub proof fn lemma_lines_concat(a: Seq<char>, b: Seq<char>)
    ensures
        lines_of(b).len() >= 1,
        lines_of(a).len() >= 1,
        lines_of(a + b) == lines_of(a).drop_last().push(lines_of(a).last() + lines_of(b)[0])
            + lines_of(b).skip(1),
    decreases b.len(),
{
    crate::text::lemma_lines_of_shape(a);
    crate::text::lemma_lines_of_shape(b);
    let la = lines_of(a);
    if b.len() == 0 {
        assert(a + b =~= a);
        assert(la.last() + lines_of(b)[0] =~= la.last());
        assert(la.drop_last().push(la.last()) + lines_of(b).skip(1) =~= la);
    } else {
        let bd = b.drop_last();
        lemma_lines_concat(a, bd);
        crate::text::lemma_lines_of_shape(bd);
        assert((a + b).drop_last() =~= a + bd);
        assert((a + b).last() == b.last());
        let lbd = lines_of(bd);
        let prev = la.drop_last().push(la.last() + lbd[0]) + lbd.skip(1);
        let empty = Seq::<char>::empty();
        if b.last() == '\n' {
            assert(lines_of(b) == lbd.push(empty));
            assert(prev.push(empty) =~= la.drop_last().push(la.last() + lbd.push(empty)[0])
                + lbd.push(empty).skip(1));
        } else {
            let lb = lbd.drop_last().push(lbd.last().push(b.last()));
            assert(lines_of(b) == lb);
            if lbd.len() == 1 {
                assert(prev =~= la.drop_last().push(la.last() + lbd[0]));
                assert(prev.drop_last() =~= la.drop_last());
                assert((la.last() + lbd[0]).push(b.last()) =~= la.last() + lb[0]);
                assert(prev.drop_last().push(prev.last().push(b.last())) =~= la.drop_last().push(
                    la.last() + lb[0],
                ) + lb.skip(1));
            } else {
                assert(prev.last() == lbd.last());
                assert(lb[0] == lbd[0]);
                assert(prev.drop_last().push(prev.last().push(b.last())) =~= la.drop_last().push(
                    la.last() + lb[0],
                ) + lb.skip(1));
            }
        }
    }
}

/// The lines of two texts with a line feed between them are the lines of the
/// first followed by the lines of the second.
pub proof fn lemma_lines_joined(a: Seq<char>, b: Seq<char>)
    ensures
        lines_of(a + seq!['\n'] + b) == lines_of(a) + lines_of(b),
{
    let empty = Seq::<char>::empty();
    lemma_lines_push_newline(a);
    assert(a + seq!['\n'] =~= a.push('\n'));
    lemma_lines_concat(a.push('\n'), b);
    let la = lines_of(a).push(empty);
    assert(la.drop_last() =~= lines_of(a));
    assert(la.last() + lines_of(b)[0] =~= lines_of(b)[0]);
    assert(la.drop_last().push(lines_of(b)[0]) + lines_of(b).skip(1) =~= lines_of(a) + lines_of(b));
}

/// The lines of a line followed by more text: the line grows by the first
/// line of what follows.
pub proof fn lemma_lines_after_line(line: Seq<char>, b: Seq<char>)
    requires
        is_line(line),
    ensures
        lines_of(b).len() >= 1,
        lines_of(line + b) == seq![line + lines_of(b)[0]] + lines_of(b).skip(1),
{
    lemma_lines_of_line(line);
    lemma_lines_concat(line, b);
    assert(seq![line].drop_last().push(line + lines_of(b)[0]) =~= seq![line + lines_of(b)[0]]);
}

/// Putting the lines of a text together gives the text back.
pub proof fn lemma_join_lines_of(s: Seq<char>)
    ensures
        join_lines(lines_of(s)) == s,
    decreases s.len(),
{
    crate::text::lemma_lines_of_shape(s);
    if s.len() == 0 {
        assert(lines_of(s)[0] =~= s);
    } else {
        let sd = s.drop_last();
        lemma_join_lines_of(sd);
        crate::text::lemma_lines_of_shape(sd);
        let before = lines_of(sd);
        let empty = Seq::<char>::empty();
        if s.last() == '\n' {
            let after = before.push(empty);
            assert(after.drop_last() =~= before);
            assert(join_lines(after) =~= sd + seq!['\n'] + empty);
            assert(sd + seq!['\n'] + empty =~= s);
        } else {
            let after = before.drop_last().push(before.last().push(s.last()));
            if before.len() == 1 {
                assert(join_lines(before) == before[0]);
                assert(after[0] =~= sd.push(s.last()));
                assert(sd.push(s.last()) =~= s);
            } else {
                assert(after.drop_last() =~= before.drop_last());
                assert(join_lines(before) == join_lines(before.drop_last()) + seq!['\n']
                    + before.last());
                assert(join_lines(after) == join_lines(before.drop_last()) + seq!['\n']
                    + before.last().push(s.last()));
                assert(join_lines(before.drop_last()) + seq!['\n'] + before.last().push(s.last())
                    =~= sd.push(s.last()));
                assert(sd.push(s.last()) =~= s);
            }
        }
    }
}

/// What trimming the end leaves: a prefix that is empty or ends in a
/// character that is no white space, cut from a blank rest.
pub proof fn lemma_trim_end_shape(s: Seq<char>)
    ensures
        trim_end(s).len() <= s.len(),
        trim_end(s) == s.take(trim_end(s).len() as int),
        trim_end(s).len() > 0 ==> !is_space(trim_end(s).last()),
        forall|i: int| trim_end(s).len() <= i < s.len() ==> is_space(#[trigger] s[i]),
        trim_end(trim_end(s)) == trim_end(s),
    decreases s.len(),
{
    if s.len() > 0 && is_space(s.last()) {
        let sd = s.drop_last();
        lemma_trim_end_shape(sd);
        assert(sd.take(trim_end(sd).len() as int) =~= s.take(trim_end(sd).len() as int));
        assert forall|i: int| trim_end(s).len() <= i < s.len() implies is_space(
            #[trigger] s[i],
        ) by {
            if i < s.len() - 1 {
                assert(s[i] == sd[i]);
            }
        }
    } else {
        assert(s.take(s.len() as int) =~= s);
    }
}

/// What trimming the start leaves: a suffix that is empty or begins with a
/// character that is no white space, cut from a blank start.
pub proof fn lemma_trim_start_shape(s: Seq<char>)
    ensures
        trim_start(s).len() <= s.len(),
        trim_start(s) == s.skip(s.len() - trim_start(s).len()),
        trim_start(s).len() > 0 ==> !is_space(trim_start(s)[0]),
        forall|i: int| 0 <= i < s.len() - trim_start(s).len() ==> is_space(#[trigger] s[i]),
        trim_start(trim_start(s)) == trim_start(s),
    decreases s.len(),
{
    if s.len() > 0 && is_space(s[0]) {
        let sd = s.drop_first();
        lemma_trim_start_shape(sd);
        assert(sd.skip(sd.len() - trim_start(sd).len()) =~= s.skip(s.len() - trim_start(sd).len()));
        assert forall|i: int| 0 <= i < s.len() - trim_start(s).len() implies is_space(
            #[trigger] s[i],
        ) by {
            if i > 0 {
                assert(s[i] == sd[i - 1]);
            }
        }
    } else {
        assert(s.skip(0) =~= s);
    }
}

/// Blank text at the end does not survive trimming the end.
pub proof fn lemma_trim_end_blank(s: Seq<char>, blank: Seq<char>)
    requires
        is_blank(blank),
    ensures
        trim_end(s + blank) == trim_end(s),
    decreases blank.len(),
{
    if blank.len() == 0 {
        assert(s + blank =~= s);
    } else {
        assert((s + blank).last() == blank.last());
        assert((s + blank).drop_last() =~= s + blank.drop_last());
        lemma_trim_end_blank(s, blank.drop_last());
    }
}

/// Blank text at the start does not survive trimming the start.
pub proof fn lemma_trim_start_blank(blank: Seq<char>, s: Seq<char>)
    requires
        is_blank(blank),
    ensures
        trim_start(blank + s) == trim_start(s),
    decreases blank.len(),
{
    if blank.len() == 0 {
        assert(blank + s =~= s);
    } else {
        assert((blank + s)[0] == blank[0]);
        assert((blank + s).drop_first() =~= blank.drop_first() + s);
        lemma_trim_start_blank(blank.drop_first(), s);
    }
}

/// Trimming is idempotent, and what it leaves neither begins nor ends with
/// white space.
pub proof fn lemma_trim_shape(s: Seq<char>)
    ensures
        trim(trim(s)) == trim(s),
        trim_start(trim(s)) == trim(s),
        trim_end(trim(s)) == trim(s),
        trim(s).len() > 0 ==> !is_space(trim(s)[0]) && !is_space(trim(s).last()),
{
    lemma_trim_start_shape(s);
    lemma_trim_end_shape(trim_start(s));
    let t = trim(s);
    if t.len() > 0 {
        assert(t[0] == trim_start(s)[0]);
    }
}

/// A text that neither begins nor ends with white space is left alone by
/// trimming, also behind one space.
pub proof fn lemma_trim_of_trimmed(v: Seq<char>)
    requires
        trim(v) == v,
    ensures
        trim(" "@ + v) == v,
        trim_start(" "@ + v) == trim_start(v),
{
    reveal_strlit(" ");
    assert(is_blank(" "@));
    lemma_trim_start_blank(" "@, v);
}

/// What trimming leaves of a line is a line.
pub proof fn lemma_trim_of_line(line: Seq<char>)
    requires
        is_line(line),
    ensures
        is_line(trim_start(line)),
        is_line(trim_end(line)),
        is_line(trim(line)),
{
    lemma_trim_start_shape(line);
    lemma_trim_end_shape(line);
    lemma_trim_end_shape(trim_start(line));
}

/// Two prefixes that differ at some index cannot both begin a text.
pub proof fn lemma_prefix_clash(s: Seq<char>, a: Seq<char>, b: Seq<char>, i: int)
    requires
        has_prefix(s, a),
        0 <= i < a.len(),
        i < b.len(),
        a[i] != b[i],
    ensures
        !has_prefix(s, b),
{
    if has_prefix(s, b) {
        assert(s.subrange(0, a.len() as int)[i] == a[i]);
        assert(s.subrange(0, b.len() as int)[i] == b[i]);
    }
}

/// A text begins with itself, whatever follows.
pub proof fn lemma_prefix_of_concat(a: Seq<char>, rest: Seq<char>)
    ensures
        has_prefix(a + rest, a),
        (a + rest).skip(a.len() as int) == rest,
{
    assert((a + rest).subrange(0, a.len() as int) =~= a);
    assert((a + rest).skip(a.len() as int) =~= rest);
}

/// A text that begins with `a` begins with every prefix of `a`.
pub proof fn lemma_prefix_of_prefix(s: Seq<char>, a: Seq<char>, b: Seq<char>)
    requires
        has_prefix(s, a),
        has_prefix(a, b),
    ensures
        has_prefix(s, b),
{
    assert(s.subrange(0, b.len() as int) =~= a.subrange(0, b.len() as int));
}

/// The lines of two texts with a blank line between them.
pub proof fn lemma_lines_blank_between(a: Seq<char>, b: Seq<char>)
    ensures
        lines_of(a + seq!['\n', '\n'] + b) == lines_of(a).push(Seq::<char>::empty()) + lines_of(b),
{
    lemma_lines_push_newline(a);
    lemma_lines_joined(a.push('\n'), b);
    assert(a + seq!['\n', '\n'] + b =~= a.push('\n') + seq!['\n'] + b);
}

/// Where the first colon stands in two texts put together, when the first
/// holds none.
pub proof fn lemma_first_colon_skip(a: Seq<char>, b: Seq<char>)
    requires
        forall|i: int| 0 <= i < a.len() ==> #[trigger] a[i] != ':',
    ensures
        crate::text::first_colon(a + b) == a.len() + crate::text::first_colon(b),
        0 <= crate::text::first_colon(b) <= b.len(),
    decreases a.len(),
{
    lemma_first_colon_bound(b);
    if a.len() == 0 {
        assert(a + b =~= b);
    } else {
        assert((a + b)[0] == a[0]);
        assert((a + b).drop_first() =~= a.drop_first() + b);
        lemma_first_colon_skip(a.drop_first(), b);
    }
}

/// The first colon stands within the text, or at its length.
pub proof fn lemma_first_colon_bound(b: Seq<char>)
    ensures
        0 <= crate::text::first_colon(b) <= b.len(),
        crate::text::first_colon(b) < b.len() ==> b[crate::text::first_colon(b)] == ':',
        forall|i: int| 0 <= i < crate::text::first_colon(b) ==> #[trigger] b[i] != ':',
    decreases b.len(),
{
    if b.len() > 0 && b[0] != ':' {
        lemma_first_colon_bound(b.drop_first());
        assert forall|i: int| 0 <= i < crate::text::first_colon(b) implies #[trigger] b[i]
            != ':' by {
            if i > 0 {
                assert(b[i] == b.drop_first()[i - 1]);
            }
        }
    }
}

/// Blank text on both sides does not survive trimming.
pub proof fn lemma_trim_between_blanks(left: Seq<char>, v: Seq<char>, right: Seq<char>)
    requires
        is_blank(left),
        is_blank(right),
        trim(v) == v,
    ensures
        trim(left + v + right) == v,
{
    assert(left + v + right =~= left + (v + right));
    lemma_trim_start_blank(left, v + right);
    lemma_trim_shape(v);
    lemma_trim_start_shape(v);
    lemma_trim_end_shape(v);
    if v.len() == 0 {
        assert(v + right =~= right);
        lemma_trim_start_shape(right);
        assert(trim_start(right).len() == 0) by {
            if trim_start(right).len() > 0 {
                let t = trim_start(right);
                assert(t[0] == right[right.len() - t.len()]);
            }
        }
        assert(trim_start(right) =~= v);
    } else {
        lemma_trim_start_shape(v);
        assert(trim_start(v).len() > 0 ==> !is_space(trim_start(v)[0]));
        assert(trim_end(trim_start(v)) == v);
        lemma_trim_end_shape(trim_start(v));
        assert(trim_start(v).len() >= v.len());
        assert(trim_start(v) =~= v);
        assert((v + right)[0] == v[0]);
        assert(trim_start(v + right) == v + right);
        lemma_trim_end_blank(v, right);
    }
}

/// The lines of a text whose end was trimmed: the lines of the text up to
/// its last line that is not blank, that line with its own end trimmed.
pub proof fn lemma_lines_of_trim_end(s: Seq<char>)
    ensures
        1 <= lines_of(trim_end(s)).len() <= lines_of(s).len(),
        forall|i: int|
            0 <= i < lines_of(trim_end(s)).len() - 1 ==> #[trigger] lines_of(trim_end(s))[i]
                == lines_of(s)[i],
        lines_of(trim_end(s)).last() == trim_end(lines_of(s)[lines_of(trim_end(s)).len() - 1]),
        forall|i: int|
            lines_of(trim_end(s)).len() <= i < lines_of(s).len() ==> is_blank(
                #[trigger] lines_of(s)[i],
            ),
        lines_of(trim_end(s)).len() >= 2 ==> lines_of(trim_end(s)).last().len() > 0,
    decreases s.len(),
{
    crate::text::lemma_lines_of_shape(s);
    crate::text::lemma_lines_of_shape(trim_end(s));
    let full = lines_of(s);
    if s.len() > 0 && is_space(s.last()) {
        let sd = s.drop_last();
        lemma_lines_of_trim_end(sd);
        crate::text::lemma_lines_of_shape(sd);
        let part = lines_of(sd);
        let cut = lines_of(trim_end(sd));
        let j = cut.len() - 1;
        if s.last() == '\n' {
            assert(full == part.push(Seq::<char>::empty()));
            assert forall|i: int| cut.len() <= i < full.len() implies is_blank(
                #[trigger] full[i],
            ) by {
                if i < part.len() {
                    assert(full[i] == part[i]);
                }
            }
        } else {
            let grown = part.last().push(s.last());
            assert(full == part.drop_last().push(grown));
            assert(grown.drop_last() =~= part.last());
            assert(trim_end(grown) == trim_end(part.last()));
            if j < part.len() - 1 {
                assert(full[j] == part[j]);
            }
            assert forall|i: int| cut.len() <= i < full.len() implies is_blank(
                #[trigger] full[i],
            ) by {
                if i < part.len() - 1 {
                    assert(full[i] == part[i]);
                } else {
                    assert(is_blank(part[i]));
                    assert forall|k: int| 0 <= k < grown.len() implies is_space(
                        #[trigger] grown[k],
                    ) by {
                        if k < part.last().len() {
                            assert(grown[k] == part.last()[k]);
                        }
                    }
                }
            }
            assert forall|i: int| 0 <= i < cut.len() - 1 implies #[trigger] cut[i] == full[i] by {
                assert(cut[i] == part[i]);
            }
        }
    } else {
        if s.len() > 0 {
            let before = lines_of(s.drop_last());
            crate::text::lemma_lines_of_shape(s.drop_last());
            assert(s.last() != '\n');
            let grown = before.last().push(s.last());
            assert(full.last() == grown);
            assert(trim_end(grown) == grown);
        } else {
            assert(full.last().len() == 0);
        }
    }
}

/// The last line of a text that does not end in a line feed ends as the text
/// ends.
pub proof fn lemma_last_line_end(s: Seq<char>)
    requires
        s.len() > 0,
    ensures
        lines_of(s).len() >= 1,
        s.last() == '\n' ==> lines_of(s).last().len() == 0,
        s.last() != '\n' ==> lines_of(s).last().len() > 0 && lines_of(s).last().last() == s.last(),
{
    crate::text::lemma_lines_of_shape(s);
    crate::text::lemma_lines_of_shape(s.drop_last());
}

/// The first line of a text begins as the text begins, where it is not
/// empty.
pub proof fn lemma_first_line_start(s: Seq<char>)
    requires
        lines_of(s)[0].len() > 0,
    ensures
        s.len() > 0,
        s[0] == lines_of(s)[0][0],
    decreases s.len(),
{
    crate::text::lemma_lines_of_shape(s);
    if s.len() > 0 {
        let sd = s.drop_last();
        crate::text::lemma_lines_of_shape(sd);
        let before = lines_of(sd);
        if s.last() == '\n' {
            assert(lines_of(s)[0] == before[0]);
            lemma_first_line_start(sd);
        } else if before.len() > 1 {
            assert(lines_of(s)[0] == before[0]);
            lemma_first_line_start(sd);
        } else if before[0].len() > 0 {
            lemma_first_line_start(sd);
        } else {
            lemma_join_lines_of(sd);
            assert(join_lines(before) == before[0]);
            assert(sd.len() == 0);
        }
    }
}

} // verus!
