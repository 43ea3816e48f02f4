//! The model of journal file content as lines, and the facts about appending
//! a batch: the appended payload contributes exactly the batch's lines, one
//! per entry, with no blank line before, between or after them.

use vstd::prelude::*;

verus! {

/// Splits content into lines, accumulating the current, unfinished line.
/// A trailing newline closes the last line without opening an empty one.
pub open spec fn lines_rec(s: Seq<char>, cur: Seq<char>) -> Seq<Seq<char>>
    decreases s.len(),
{
    if s.len() == 0 {
        if cur.len() == 0 {
            Seq::empty()
        } else {
            seq![cur]
        }
    } else if s[0] == '\n' {
        seq![cur] + lines_rec(s.skip(1), Seq::empty())
    } else {
        lines_rec(s.skip(1), cur.push(s[0]))
    }
}

/// The lines of a piece of content, as `str::lines` reads them (newlines
/// alone considered).
pub open spec fn lines_of(s: Seq<char>) -> Seq<Seq<char>> {
    lines_rec(s, Seq::empty())
}

/// Whether a line holds no newline of its own.
pub open spec fn line_free(l: Seq<char>) -> bool {
    forall|i: int| 0 <= i < l.len() ==> l[i] != '\n'
}

/// The lines joined with single newlines, none trailing.
pub open spec fn joined_lines(ls: Seq<Seq<char>>) -> Seq<char>
    decreases ls.len(),
{
    if ls.len() == 0 {
        Seq::empty()
    } else if ls.len() == 1 {
        ls[0]
    } else {
        ls[0] + seq!['\n'] + joined_lines(ls.skip(1))
    }
}

/// Whether appending to this content must first close its last line: it has
/// content and does not end with a newline.
pub open spec fn needs_leading_newline(existing: Seq<char>) -> bool {
    existing.len() > 0 && existing.last() != '\n'
}

/// The bytes one batch appends: the joined lines with a trailing newline,
/// preceded by exactly one newline where the existing content's last line
/// must first be closed.
pub open spec fn payload_spec(lead: bool, ls: Seq<Seq<char>>) -> Seq<char> {
    if lead {
        seq!['\n'] + joined_lines(ls) + seq!['\n']
    } else {
        joined_lines(ls) + seq!['\n']
    }
}

proof fn lemma_lines_rec_single_newline(cur: Seq<char>)
    ensures
        lines_rec(seq!['\n'], cur) == seq![cur],
{
    assert(seq!['\n'].skip(1) =~= Seq::<char>::empty());
    assert(lines_rec(Seq::<char>::empty(), Seq::<char>::empty())
        == Seq::<Seq<char>>::empty());
    assert(seq![cur] + Seq::<Seq<char>>::empty() =~= seq![cur]);
}

proof fn lemma_lines_rec_nonl(a: Seq<char>, b: Seq<char>, cur: Seq<char>)
    requires
        line_free(a),
    ensures
        lines_rec(a + b, cur) == lines_rec(b, cur + a),
    decreases a.len(),
{
    if a.len() == 0 {
        assert(a + b =~= b);
        assert(cur + a =~= cur);
    } else {
        assert((a + b)[0] == a[0]);
        assert((a + b).skip(1) =~= a.skip(1) + b);
        lemma_lines_rec_nonl(a.skip(1), b, cur.push(a[0]));
        assert(cur.push(a[0]) + a.skip(1) =~= cur + a);
    }
}

proof fn lemma_lines_rec_split(c: Seq<char>, d: Seq<char>, cur: Seq<char>)
    requires
        c.len() >= 1,
        c.last() == '\n',
    ensures
        lines_rec(c + d, cur) == lines_rec(c, cur) + lines_of(d),
    decreases c.len(),
{
    let c2 = c.skip(1);
    assert((c + d)[0] == c[0]);
    assert((c + d).skip(1) =~= c2 + d);
    if c[0] == '\n' {
        if c2.len() == 0 {
            assert(c2 + d =~= d);
        } else {
            assert(c2.last() == '\n');
            lemma_lines_rec_split(c2, d, Seq::empty());
            assert(seq![cur] + (lines_rec(c2, Seq::empty()) + lines_of(d)) =~= (seq![cur]
                + lines_rec(c2, Seq::empty())) + lines_of(d));
        }
    } else {
        assert(c2.len() >= 1);
        assert(c2.last() == '\n');
        lemma_lines_rec_split(c2, d, cur.push(c[0]));
    }
}

proof fn lemma_lines_rec_close(c: Seq<char>, cur: Seq<char>)
    requires
        c.len() >= 1,
        c.last() != '\n',
    ensures
        lines_rec(c + seq!['\n'], cur) == lines_rec(c, cur),
    decreases c.len(),
{
    let c2 = c.skip(1);
    assert((c + seq!['\n'])[0] == c[0]);
    assert((c + seq!['\n']).skip(1) =~= c2 + seq!['\n']);
    if c2.len() == 0 {
        assert(c[0] != '\n');
        assert(c2 + seq!['\n'] =~= seq!['\n']);
        lemma_lines_rec_single_newline(cur.push(c[0]));
        assert(c.skip(1) =~= Seq::<char>::empty());
        assert(lines_rec(Seq::<char>::empty(), cur.push(c[0])) == seq![cur.push(c[0])]);
        assert(lines_rec(c, cur) =~= seq![cur.push(c[0])]);
    } else {
        assert(c2.last() == c.last());
        if c[0] == '\n' {
            lemma_lines_rec_close(c2, Seq::empty());
        } else {
            lemma_lines_rec_close(c2, cur.push(c[0]));
        }
    }
}

proof fn lemma_lines_of_joined(ls: Seq<Seq<char>>)
    requires
        ls.len() >= 1,
        forall|i: int| 0 <= i < ls.len() ==> line_free(#[trigger] ls[i]),
    ensures
        lines_of(joined_lines(ls) + seq!['\n']) == ls,
    decreases ls.len(),
{
    if ls.len() == 1 {
        lemma_lines_rec_nonl(ls[0], seq!['\n'], Seq::empty());
        assert(Seq::empty() + ls[0] =~= ls[0]);
        lemma_lines_rec_single_newline(ls[0]);
        assert(seq![ls[0]] =~= ls);
    } else {
        let rest = ls.skip(1);
        assert(forall|i: int| 0 <= i < rest.len() ==> line_free(#[trigger] rest[i]));
        lemma_lines_of_joined(rest);
        let r = joined_lines(rest) + seq!['\n'];
        lemma_lines_rec_nonl(ls[0], seq!['\n'] + r, Seq::empty());
        assert(joined_lines(ls) + seq!['\n'] =~= ls[0] + (seq!['\n'] + r));
        assert(Seq::empty() + ls[0] =~= ls[0]);
        assert((seq!['\n'] + r).skip(1) =~= r);
        assert(seq![ls[0]] + rest =~= ls);
    }
}

/// Appending a batch payload to any existing content adds exactly the
/// batch's lines: none of the existing lines changes, no blank line appears,
/// and where the existing content lacked a final newline, exactly one is
/// inserted first.
pub proof fn lemma_append_payload_lines(existing: Seq<char>, ls: Seq<Seq<char>>)
    requires
        ls.len() >= 1,
        forall|i: int| 0 <= i < ls.len() ==> line_free(#[trigger] ls[i]),
    ensures
        lines_of(existing + payload_spec(needs_leading_newline(existing), ls)) == lines_of(
            existing,
        ) + ls,
{
    let p = payload_spec(needs_leading_newline(existing), ls);
    lemma_lines_of_joined(ls);
    if existing.len() == 0 {
        assert(existing + p =~= joined_lines(ls) + seq!['\n']);
        assert(lines_of(existing) + ls =~= ls);
    } else if existing.last() == '\n' {
        lemma_lines_rec_split(existing, joined_lines(ls) + seq!['\n'], Seq::empty());
        assert(existing + p =~= existing + (joined_lines(ls) + seq!['\n']));
    } else {
        let e2 = existing + seq!['\n'];
        lemma_lines_rec_close(existing, Seq::empty());
        lemma_lines_rec_split(e2, joined_lines(ls) + seq!['\n'], Seq::empty());
        assert(existing + p =~= e2 + (joined_lines(ls) + seq!['\n']));
    }
}

/// Recording a non-empty batch grows the file by exactly the batch's number
/// of lines.
pub proof fn lemma_record_grows_line_count(existing: Seq<char>, ls: Seq<Seq<char>>)
    requires
        ls.len() >= 1,
        forall|i: int| 0 <= i < ls.len() ==> line_free(#[trigger] ls[i]),
    ensures
        lines_of(existing + payload_spec(needs_leading_newline(existing), ls)).len()
            == lines_of(existing).len() + ls.len(),
{
    lemma_append_payload_lines(existing, ls);
}

/// Two batches recorded in sequence never leave a blank line between them:
/// the first payload ends with a newline, so the second needs no leading one,
/// and the resulting lines are exactly the existing lines followed by the two
/// batches, nothing in between.
pub proof fn lemma_sequential_batches_no_blank(
    existing: Seq<char>,
    ls1: Seq<Seq<char>>,
    ls2: Seq<Seq<char>>,
)
    requires
        ls1.len() >= 1,
        ls2.len() >= 1,
        forall|i: int| 0 <= i < ls1.len() ==> line_free(#[trigger] ls1[i]),
        forall|i: int| 0 <= i < ls2.len() ==> line_free(#[trigger] ls2[i]),
    ensures
        !needs_leading_newline(
            existing + payload_spec(needs_leading_newline(existing), ls1),
        ),
        lines_of(
            existing + payload_spec(needs_leading_newline(existing), ls1) + payload_spec(
                false,
                ls2,
            ),
        ) == lines_of(existing) + ls1 + ls2,
{
    let p1 = payload_spec(needs_leading_newline(existing), ls1);
    let c1 = existing + p1;
    assert(p1.len() >= 1);
    assert(c1.last() == '\n');
    lemma_append_payload_lines(existing, ls1);
    lemma_append_payload_lines(c1, ls2);
    assert(payload_spec(needs_leading_newline(c1), ls2) == payload_spec(false, ls2));
    assert(existing + p1 + payload_spec(false, ls2) =~= c1 + payload_spec(false, ls2));
    assert(lines_of(existing) + ls1 + ls2 =~= (lines_of(existing) + ls1) + ls2);
}

/// Joins formatted lines with single newlines, none trailing.
pub fn join_lines(lines: &Vec<String>) -> (r: String)
    ensures
        r@ == joined_lines(lines.deep_view()),
{
    let ghost dv = lines.deep_view();
    if lines.len() == 0 {
        return String::new();
    }
    let mut r = lines[0].clone();
    let mut i: usize = 1;
    while i < lines.len()
        invariant
            dv == lines.deep_view(),
            1 <= i <= dv.len(),
            dv.len() == lines@.len(),
            r@ == joined_lines(dv.take(i as int)),
        decreases lines@.len() - i,
    {
        r.append("\n");
        r.append(lines[i].as_str());
        proof {
            reveal_strlit("\n");
            lemma_joined_push(dv.take(i as int), dv[i as int]);
            assert(dv.take(i as int).push(dv[i as int]) =~= dv.take(i as int + 1));
            assert(dv[i as int] == lines@[i as int]@);
        }
        i = i + 1;
    }
    proof {
        assert(dv.take(dv.len() as int) =~= dv);
    }
    r
}

proof fn lemma_joined_push(ls: Seq<Seq<char>>, x: Seq<char>)
    requires
        ls.len() >= 1,
    ensures
        joined_lines(ls.push(x)) == joined_lines(ls) + seq!['\n'] + x,
    decreases ls.len(),
{
    let p = ls.push(x);
    assert(p[0] == ls[0]);
    if ls.len() == 1 {
        assert(p.skip(1) =~= seq![x]);
        assert(joined_lines(seq![x]) == x);
    } else {
        assert(p.skip(1) =~= ls.skip(1).push(x));
        lemma_joined_push(ls.skip(1), x);
        assert(ls[0] + seq!['\n'] + (joined_lines(ls.skip(1)) + seq!['\n'] + x) =~= (ls[0]
            + seq!['\n'] + joined_lines(ls.skip(1))) + seq!['\n'] + x);
    }
}

/// The bytes one batch appends to a journal file, given whether the file
/// already has content and whether that content ends with a newline: the
/// joined lines and a trailing newline, after exactly one separating newline
/// where the existing content does not end with one.
pub fn render_payload(file_has_content: bool, ends_with_newline: bool, lines: &Vec<String>) -> (r:
    String)
    ensures
        r@ == payload_spec(file_has_content && !ends_with_newline, lines.deep_view()),
{
    let joined = join_lines(lines);
    let mut r = if file_has_content && !ends_with_newline {
        let mut s = "\n".to_owned();
        proof {
            reveal_strlit("\n");
        }
        s.append(joined.as_str());
        s
    } else {
        joined
    };
    r.append("\n");
    proof {
        reveal_strlit("\n");
        if file_has_content && !ends_with_newline {
            assert(r@ =~= payload_spec(true, lines.deep_view()));
        }
    }
    r
}

} // verus!
