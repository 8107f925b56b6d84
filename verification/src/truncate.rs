//! Text truncation: fit arbitrary text into a fixed display area of at most
//! `max_lines` lines of at most `max_width` characters each, marking every
//! cut with a literal `"..."`. Counting is by Unicode scalar value (char),
//! never by byte.

use vstd::prelude::*;

verus! {

/// The ellipsis appended wherever content was cut.
pub open spec fn ellipsis() -> Seq<char> {
    seq!['.', '.', '.']
}

/// A single line truncated to `max_width` characters: a line that fits is
/// kept whole; a longer one keeps its first `max_width - 3` characters plus
/// the ellipsis; if the width cannot even hold the ellipsis, the result is
/// the first `max_width` characters of the ellipsis itself.
pub open spec fn spec_truncate_line(line: Seq<char>, max_width: nat) -> Seq<char> {
    if line.len() <= max_width {
        line
    } else if max_width <= 3 {
        ellipsis().take(max_width as int)
    } else {
        line.take(max_width - 3) + ellipsis()
    }
}

/// The last retained line when later lines were discarded: the ellipsis is
/// appended to the (already width-truncated) line if it still fits within
/// `max_width`; otherwise the line is re-truncated to make room for it.
pub open spec fn spec_append_ellipsis(line: Seq<char>, max_width: nat) -> Seq<char> {
    if max_width == 0 {
        Seq::empty()
    } else if max_width <= 3 {
        ellipsis().take(max_width as int)
    } else if line.len() + 3 <= max_width {
        line + ellipsis()
    } else {
        line.take(max_width - 3) + ellipsis()
    }
}

/// Text split into lines at `'\n'`, scanning left to right; `cur` is the
/// partial line collected so far. Every text has at least one line, and
/// leading, trailing and empty lines are all preserved.
pub open spec fn spec_split_rec(text: Seq<char>, cur: Seq<char>) -> Seq<Seq<char>>
    decreases text.len(),
{
    if text.len() == 0 {
        seq![cur]
    } else if text[0] == '\n' {
        seq![cur] + spec_split_rec(text.drop_first(), Seq::empty())
    } else {
        spec_split_rec(text.drop_first(), cur.push(text[0]))
    }
}

/// The lines of `text`, in order.
pub open spec fn spec_split_lines(text: Seq<char>) -> Seq<Seq<char>> {
    spec_split_rec(text, Seq::empty())
}

/// Lines joined back together with `'\n'` between them.
pub open spec fn spec_join_lines(lines: Seq<Seq<char>>) -> Seq<char>
    decreases lines.len(),
{
    if lines.len() == 0 {
        Seq::empty()
    } else if lines.len() == 1 {
        lines[0]
    } else {
        lines[0] + seq!['\n'] + spec_join_lines(lines.drop_first())
    }
}

/// The whole algorithm: split into lines, truncate each line to
/// `max_width`, keep at most `max_lines` lines (marking a discarded tail on
/// the last kept line), and join with `'\n'`.
pub open spec fn spec_truncate_text(text: Seq<char>, max_width: nat, max_lines: nat) -> Seq<char> {
    let tlines = spec_split_lines(text).map_values(|ln: Seq<char>| spec_truncate_line(ln, max_width));
    let kept = if tlines.len() > max_lines {
        tlines.take(max_lines as int).update(
            max_lines - 1,
            spec_append_ellipsis(tlines[max_lines - 1], max_width),
        )
    } else {
        tlines
    };
    spec_join_lines(kept)
}

/// Exec form of [`spec_truncate_line`].
pub fn truncate_line(line: &str, max_width: usize) -> (res: String)
    ensures
        res@ == spec_truncate_line(line@, max_width as nat),
{
    let count = line.unicode_len();
    if count <= max_width {
        return line.to_owned();
    }

    proof {
        reveal_strlit("...");
    }
    if max_width <= 3 {
        let cut = "...".substring_char(0, max_width);
        proof {
            assert(cut@ =~= ellipsis().take(max_width as int));
        }
        return cut.to_owned();
    }

    let kept = line.substring_char(0, max_width - 3);
    let mut res = kept.to_owned();
    res.append("...");
    proof {
        assert(res@ =~= line@.take(max_width - 3) + ellipsis());
    }
    res
}

/// Exec form of [`spec_append_ellipsis`].
pub fn append_ellipsis(line: &str, max_width: usize) -> (res: String)
    ensures
        res@ == spec_append_ellipsis(line@, max_width as nat),
{
    if max_width == 0 {
        let res = String::new();
        proof {
            assert(res@ =~= spec_append_ellipsis(line@, max_width as nat));
        }
        return res;
    }

    proof {
        reveal_strlit("...");
    }
    if max_width <= 3 {
        let cut = "...".substring_char(0, max_width);
        proof {
            assert(cut@ =~= ellipsis().take(max_width as int));
        }
        return cut.to_owned();
    }

    let current_len = line.unicode_len();
    if current_len <= max_width - 3 {
        let mut res = line.to_owned();
        res.append("...");
        proof {
            assert(res@ =~= line@ + ellipsis());
        }
        return res;
    }

    let kept = line.substring_char(0, max_width - 3);
    let mut res = kept.to_owned();
    res.append("...");
    proof {
        assert(res@ =~= line@.take(max_width - 3) + ellipsis());
    }
    res
}

/// The views of a vector of strings.
pub open spec fn views(v: Seq<String>) -> Seq<Seq<char>> {
    v.map_values(|s: String| s@)
}

/// Split `text` at `'\n'` into its lines.
fn split_lines(text: &str) -> (lines: Vec<String>)
    ensures
        views(lines@) == spec_split_lines(text@),
        lines@.len() >= 1,
{
    let n = text.unicode_len();
    let mut lines: Vec<String> = Vec::new();
    let mut start: usize = 0;
    let mut i: usize = 0;
    proof {
        assert(text@.skip(0) =~= text@);
        assert(text@.subrange(0, 0) =~= Seq::<char>::empty());
    }
    while i < n
        invariant
            start <= i <= n,
            n == text@.len(),
            spec_split_lines(text@) == views(lines@) + spec_split_rec(
                text@.skip(i as int),
                text@.subrange(start as int, i as int),
            ),
        decreases n - i,
    {
        let ghost cur = text@.subrange(start as int, i as int);
        let c = text.get_char(i);
        proof {
            assert(text@.skip(i as int)[0] == text@[i as int]);
        }
        if c == '\n' {
            let ghost before = lines@;
            let piece = text.substring_char(start, i).to_owned();
            lines.push(piece);
            proof {
                assert(text@.skip(i as int).drop_first() =~= text@.skip(i + 1));
                assert(text@.subrange(i + 1, i + 1) =~= Seq::<char>::empty());
                assert(views(lines@) =~= views(before) + seq![cur]);
                assert(views(before) + seq![cur] + spec_split_rec(
                    text@.skip(i + 1),
                    Seq::empty(),
                ) =~= views(before) + (seq![cur] + spec_split_rec(
                    text@.skip(i + 1),
                    Seq::empty(),
                )));
            }
            start = i + 1;
        } else {
            proof {
                assert(text@.skip(i as int).drop_first() =~= text@.skip(i + 1));
                assert(cur.push(text@[i as int]) =~= text@.subrange(start as int, i + 1));
            }
        }
        i = i + 1;
    }
    let ghost before = lines@;
    let ghost cur = text@.subrange(start as int, n as int);
    let piece = text.substring_char(start, n).to_owned();
    lines.push(piece);
    proof {
        assert(text@.skip(n as int).len() == 0);
        assert(views(lines@) =~= views(before) + seq![cur]);
    }
    lines
}

/// Truncate every line to `max_width` characters.
fn truncate_each(lines: &Vec<String>, max_width: usize) -> (res: Vec<String>)
    ensures
        views(res@) == views(lines@).map_values(
            |ln: Seq<char>| spec_truncate_line(ln, max_width as nat),
        ),
{
    let mut res: Vec<String> = Vec::new();
    let mut j: usize = 0;
    while j < lines.len()
        invariant
            j <= lines@.len(),
            res@.len() == j,
            forall|k: int|
                0 <= k < j ==> res@[k]@ == spec_truncate_line(lines@[k]@, max_width as nat),
        decreases lines@.len() - j,
    {
        let t = truncate_line(lines[j].as_str(), max_width);
        res.push(t);
        j = j + 1;
    }
    proof {
        assert(views(res@) =~= views(lines@).map_values(
            |ln: Seq<char>| spec_truncate_line(ln, max_width as nat),
        ));
    }
    res
}

/// Joining one more line onto an already-joined prefix inserts one
/// separator before it.
proof fn lemma_join_push(lines: Seq<Seq<char>>, x: Seq<char>)
    ensures
        spec_join_lines(lines.push(x)) == if lines.len() == 0 {
            x
        } else {
            spec_join_lines(lines) + seq!['\n'] + x
        },
    decreases lines.len(),
{
    if lines.len() == 0 {
        assert(lines.push(x) =~= seq![x]);
    } else {
        lemma_join_push(lines.drop_first(), x);
        assert(lines.push(x).drop_first() =~= lines.drop_first().push(x));
        assert(lines.push(x)[0] == lines[0]);
        if lines.len() > 1 {
            assert(lines[0] + seq!['\n'] + (spec_join_lines(lines.drop_first()) + seq!['\n'] + x)
                =~= (lines[0] + seq!['\n'] + spec_join_lines(lines.drop_first())) + seq!['\n'] + x);
        }
    }
}

/// Join the lines with `'\n'` between them.
fn join_lines(lines: &Vec<String>) -> (res: String)
    requires
        lines@.len() >= 1,
    ensures
        res@ == spec_join_lines(views(lines@)),
{
    let mut res = String::new();
    let mut j: usize = 0;
    proof {
        assert(views(lines@).take(0) =~= Seq::<Seq<char>>::empty());
        assert(res@ =~= spec_join_lines(views(lines@).take(0)));
    }
    while j < lines.len()
        invariant
            j <= lines@.len(),
            res@ == spec_join_lines(views(lines@).take(j as int)),
        decreases lines@.len() - j,
    {
        let ghost prefix = views(lines@).take(j as int);
        if j > 0 {
            res.append("\n");
        }
        res.append(lines[j].as_str());
        proof {
            reveal_strlit("\n");
            assert("\n"@ =~= seq!['\n']);
            lemma_join_push(prefix, lines@[j as int]@);
            assert(prefix.push(lines@[j as int]@) =~= views(lines@).take(j + 1));
            if j == 0 {
                assert(res@ =~= spec_join_lines(views(lines@).take(j + 1)));
            }
        }
        j = j + 1;
    }
    proof {
        assert(views(lines@).take(lines@.len() as int) =~= views(lines@));
    }
    res
}

/// Exec form of [`spec_truncate_text`]: the display-ready rendering of
/// `text` within `max_width` characters per line and `max_lines` lines.
/// A zero line budget is not a supported input: the policy always supplies
/// at least one line.
pub fn truncate_text(text: &str, max_width: usize, max_lines: usize) -> (res: String)
    requires
        max_lines >= 1,
    ensures
        res@ == spec_truncate_text(text@, max_width as nat, max_lines as nat),
{
    let ghost tl = spec_split_lines(text@).map_values(
        |ln: Seq<char>| spec_truncate_line(ln, max_width as nat),
    );
    let lines = split_lines(text);
    let mut tlines = truncate_each(&lines, max_width);
    proof {
        assert(tlines@.len() == views(tlines@).len());
        assert(lines@.len() == views(lines@).len());
    }
    if tlines.len() > max_lines {
        tlines.truncate(max_lines);
        proof {
            assert(views(tlines@) =~= tl.take(max_lines as int));
        }
        let last = append_ellipsis(tlines[max_lines - 1].as_str(), max_width);
        let ghost kept = tl.take(max_lines as int).update(
            max_lines - 1,
            spec_append_ellipsis(tl[max_lines - 1], max_width as nat),
        );
        tlines.pop();
        tlines.push(last);
        proof {
            assert(views(tlines@) =~= kept);
        }
    }
    join_lines(&tlines)
}

/// No newline occurs in `line`.
pub open spec fn no_newline(line: Seq<char>) -> bool {
    forall|k: int| 0 <= k < line.len() ==> line[k] != '\n'
}

/// Splitting always yields at least one line.
proof fn lemma_split_rec_len(text: Seq<char>, cur: Seq<char>)
    ensures
        spec_split_rec(text, cur).len() >= 1,
    decreases text.len(),
{
    if text.len() == 0 {
    } else if text[0] == '\n' {
        lemma_split_rec_len(text.drop_first(), Seq::empty());
    } else {
        lemma_split_rec_len(text.drop_first(), cur.push(text[0]));
    }
}

/// No line produced by splitting contains a newline.
proof fn lemma_split_rec_no_newline(text: Seq<char>, cur: Seq<char>)
    requires
        no_newline(cur),
    ensures
        forall|k: int|
            0 <= k < spec_split_rec(text, cur).len() ==> no_newline(
                #[trigger] spec_split_rec(text, cur)[k],
            ),
    decreases text.len(),
{
    let s = spec_split_rec(text, cur);
    if text.len() == 0 {
        assert(s[0] == cur);
    } else if text[0] == '\n' {
        lemma_split_rec_no_newline(text.drop_first(), Seq::empty());
        let rest = spec_split_rec(text.drop_first(), Seq::empty());
        assert forall|k: int| 0 <= k < s.len() implies no_newline(#[trigger] s[k]) by {
            if k == 0 {
                assert(s[k] == cur);
            } else {
                assert(s[k] == rest[k - 1]);
            }
        }
    } else {
        assert(no_newline(cur.push(text[0])));
        lemma_split_rec_no_newline(text.drop_first(), cur.push(text[0]));
        let rest = spec_split_rec(text.drop_first(), cur.push(text[0]));
        assert forall|k: int| 0 <= k < s.len() implies no_newline(#[trigger] s[k]) by {
            assert(s[k] == rest[k]);
        }
    }
}

/// Splitting a newline-free text yields that text as the single line,
/// appended to whatever was already collected.
proof fn lemma_split_rec_single(text: Seq<char>, cur: Seq<char>)
    requires
        no_newline(text),
    ensures
        spec_split_rec(text, cur) == seq![cur + text],
    decreases text.len(),
{
    if text.len() == 0 {
        assert(cur + text =~= cur);
    } else {
        assert(text[0] != '\n');
        assert(no_newline(text.drop_first()));
        lemma_split_rec_single(text.drop_first(), cur.push(text[0]));
        assert(cur.push(text[0]) + text.drop_first() =~= cur + text);
    }
}

/// Splitting consumes a newline-free prefix up to the first newline as one
/// line, and then splits the rest independently.
proof fn lemma_split_rec_step(a: Seq<char>, b: Seq<char>, cur: Seq<char>)
    requires
        no_newline(a),
    ensures
        spec_split_rec(a + seq!['\n'] + b, cur) == seq![cur + a] + spec_split_rec(
            b,
            Seq::empty(),
        ),
    decreases a.len(),
{
    let t = a + seq!['\n'] + b;
    if a.len() == 0 {
        assert(t[0] == '\n');
        assert(t.drop_first() =~= b);
        assert(cur + a =~= cur);
    } else {
        assert(t[0] == a[0]);
        assert(a[0] != '\n');
        assert(no_newline(a.drop_first()));
        lemma_split_rec_step(a.drop_first(), b, cur.push(a[0]));
        assert(t.drop_first() =~= a.drop_first() + seq!['\n'] + b);
        assert(cur.push(a[0]) + a.drop_first() =~= cur + a);
    }
}

/// Splitting undoes joining: for at least one newline-free line, splitting
/// the joined text gives back exactly those lines.
pub proof fn lemma_split_join(lines: Seq<Seq<char>>)
    requires
        lines.len() >= 1,
        forall|k: int| 0 <= k < lines.len() ==> no_newline(#[trigger] lines[k]),
    ensures
        spec_split_lines(spec_join_lines(lines)) == lines,
    decreases lines.len(),
{
    if lines.len() == 1 {
        lemma_split_rec_single(lines[0], Seq::empty());
        assert(Seq::<char>::empty() + lines[0] =~= lines[0]);
        assert(seq![lines[0]] =~= lines);
    } else {
        let rest = lines.drop_first();
        assert(forall|k: int| 0 <= k < rest.len() ==> no_newline(#[trigger] rest[k])) by {
            assert(forall|k: int| 0 <= k < rest.len() ==> rest[k] == lines[k + 1]);
        }
        lemma_split_join(rest);
        lemma_split_rec_step(lines[0], spec_join_lines(rest), Seq::empty());
        assert(Seq::<char>::empty() + lines[0] =~= lines[0]);
        assert(seq![lines[0]] + rest =~= lines);
    }
}

/// A truncated line fits the width, is left whole when it already fits,
/// and stays newline-free.
proof fn lemma_truncate_line_shape(line: Seq<char>, w: nat)
    requires
        no_newline(line),
    ensures
        spec_truncate_line(line, w).len() <= w,
        line.len() <= w ==> spec_truncate_line(line, w) == line,
        no_newline(spec_truncate_line(line, w)),
{
    let out = spec_truncate_line(line, w);
    assert forall|k: int| 0 <= k < out.len() implies out[k] != '\n' by {
        if line.len() <= w {
        } else if w <= 3 {
            assert(out[k] == ellipsis()[k]);
        } else if k < w - 3 {
            assert(out[k] == line[k]);
        } else {
            assert(out[k] == ellipsis()[k - (w - 3)]);
        }
    }
}

/// The ellipsis-marked last line fits the width and stays newline-free.
proof fn lemma_append_ellipsis_shape(line: Seq<char>, w: nat)
    requires
        no_newline(line),
    ensures
        spec_append_ellipsis(line, w).len() <= w,
        no_newline(spec_append_ellipsis(line, w)),
{
    let out = spec_append_ellipsis(line, w);
    assert forall|k: int| 0 <= k < out.len() implies out[k] != '\n' by {
        if w == 0 {
        } else if w <= 3 {
            assert(out[k] == ellipsis()[k]);
        } else if line.len() + 3 <= w {
            if k < line.len() {
                assert(out[k] == line[k]);
            } else {
                assert(out[k] == ellipsis()[k - line.len()]);
            }
        } else if k < w - 3 {
            assert(out[k] == line[k]);
        } else {
            assert(out[k] == ellipsis()[k - (w - 3)]);
        }
    }
}

/// The lines kept by [`spec_truncate_text`], before joining.
pub open spec fn spec_kept_lines(text: Seq<char>, max_width: nat, max_lines: nat) -> Seq<
    Seq<char>,
> {
    let tlines = spec_split_lines(text).map_values(
        |ln: Seq<char>| spec_truncate_line(ln, max_width),
    );
    if tlines.len() > max_lines {
        tlines.take(max_lines as int).update(
            max_lines - 1,
            spec_append_ellipsis(tlines[max_lines - 1], max_width),
        )
    } else {
        tlines
    }
}

/// The kept lines are exactly the lines of the rendered text: there is at
/// least one, at most `max_lines`, and each fits `max_width` characters.
proof fn lemma_kept_lines_shape(text: Seq<char>, max_width: nat, max_lines: nat)
    requires
        max_lines >= 1,
    ensures
        ({
            let kept = spec_kept_lines(text, max_width, max_lines);
            &&& spec_truncate_text(text, max_width, max_lines) == spec_join_lines(kept)
            &&& spec_split_lines(spec_truncate_text(text, max_width, max_lines)) == kept
            &&& 1 <= kept.len() <= max_lines
            &&& forall|k: int|
                0 <= k < kept.len() ==> (#[trigger] kept[k]).len() <= max_width && no_newline(
                    kept[k],
                )
        }),
{
    let raw = spec_split_lines(text);
    let tlines = raw.map_values(|ln: Seq<char>| spec_truncate_line(ln, max_width));
    let kept = spec_kept_lines(text, max_width, max_lines);
    lemma_split_rec_len(text, Seq::empty());
    lemma_split_rec_no_newline(text, Seq::empty());
    assert forall|k: int|
        0 <= k < kept.len() implies (#[trigger] kept[k]).len() <= max_width && no_newline(
        kept[k],
    ) by {
        lemma_truncate_line_shape(raw[k], max_width);
        if tlines.len() > max_lines && k == max_lines - 1 {
            lemma_truncate_line_shape(raw[max_lines - 1], max_width);
            lemma_append_ellipsis_shape(tlines[max_lines - 1], max_width);
        }
    }
    lemma_split_join(kept);
}

/// The rendered text never has more than `max_lines` lines, and no line of
/// it exceeds `max_width` characters.
pub proof fn lemma_truncate_text_shape(text: Seq<char>, max_width: nat, max_lines: nat)
    requires
        max_lines >= 1,
    ensures
        ({
            let out = spec_split_lines(spec_truncate_text(text, max_width, max_lines));
            &&& out.len() <= max_lines
            &&& forall|k: int| 0 <= k < out.len() ==> (#[trigger] out[k]).len() <= max_width
        }),
{
    lemma_kept_lines_shape(text, max_width, max_lines);
}

/// Truncation is idempotent: rendering an already-rendered text changes
/// nothing.
pub proof fn lemma_truncate_text_idempotent(text: Seq<char>, max_width: nat, max_lines: nat)
    requires
        max_lines >= 1,
    ensures
        spec_truncate_text(
            spec_truncate_text(text, max_width, max_lines),
            max_width,
            max_lines,
        ) == spec_truncate_text(text, max_width, max_lines),
{
    let out = spec_truncate_text(text, max_width, max_lines);
    let kept = spec_kept_lines(text, max_width, max_lines);
    lemma_kept_lines_shape(text, max_width, max_lines);
    let tlines2 = spec_split_lines(out).map_values(
        |ln: Seq<char>| spec_truncate_line(ln, max_width),
    );
    assert(tlines2 =~= kept) by {
        assert forall|k: int| 0 <= k < kept.len() implies tlines2[k] == kept[k] by {
            lemma_truncate_line_shape(kept[k], max_width);
        }
    }
}

} // verus!
