//! Sizes the dashboard's drawing needs: the scroll bar's thumb, the rows a
//! wrapped text takes, and a label centred in a button.

use crate::app::{saturating, Change, Rect};
use crate::builds::Target;
use crate::checks::{badge_text, word_text, Check, CheckView, Status};
use crate::text::{cat, cat3, chars_of, decimal, decimal_text, lemma_next_sep, lines, lines_of, next_sep, trim, trimmed, views};
use vstd::prelude::*;
use vstd::string::*;

verus! {

/// The larger of `a` and `b`.
pub open spec fn larger(a: nat, b: nat) -> nat {
    if a < b {
        b
    } else {
        a
    }
}

/// The rows a thumb spans over, as the scroll bar computes it: the larger
/// of the row count and the viewport, cut to 32 bits.
pub open spec fn thumb_span(viewport: u16, rows: usize) -> u32 {
    larger(rows as nat, viewport as nat) as u32
}

/// The length of the scroll bar's thumb on a track of `track` cells, for a
/// viewport of `viewport` rows over `rows` rows: the viewport's share of
/// the track, rounded to nearest, cut to 16 bits and kept between one cell
/// and the whole track; the whole track where there is no track or nothing
/// to scroll.
pub open spec fn thumb(track: u16, viewport: u16, rows: usize) -> u16 {
    if track == 0 || rows == 0 {
        track
    } else {
        let span = thumb_span(viewport, rows);
        let length = ((viewport * track + span / 2) / (span as int)) as u16;
        if length < 1 {
            1
        } else if length > track {
            track
        } else {
            length
        }
    }
}

/// The length of the scroll bar's thumb.
pub fn thumb_length(track: u16, viewport: u16, rows: usize) -> (r: u16)
    requires
        track == 0 || rows == 0 || (thumb_span(viewport, rows) > 0 && viewport * track
            + thumb_span(viewport, rows) / 2 <= u32::MAX),
    ensures
        r == thumb(track, viewport, rows),
{
    if track == 0 || rows == 0 {
        return track;
    }
    let wide = track as u32;
    let most = if rows < viewport as usize { viewport as usize } else { rows };
    let span = most as u32;
    assert(viewport as u32 * wide <= 0xffff * 0xffff) by (nonlinear_arith)
        requires
            viewport <= 0xffff,
            wide <= 0xffff,
    ;
    let length = ((viewport as u32 * wide + span / 2) / span) as u16;
    if length < 1 {
        1
    } else if length > track {
        track
    } else {
        length
    }
}

/// How far the detail pane can scroll: the rows that do not fit in
/// `height`, cut to 16 bits.
pub open spec fn limit_of(rows: usize, height: u16) -> u16 {
    (if rows > height { rows - height } else { 0 }) as u16
}

/// How far a pane of `height` rows holding `rows` rows can scroll.
pub fn scroll_limit(rows: usize, height: u16) -> (r: u16)
    ensures
        r == limit_of(rows, height),
{
    let over = if rows > height as usize { rows - height as usize } else { 0 };
    over as u16
}

/// The pieces of `s` from index `i` on, each ending with its space, as
/// std's `str::split_inclusive(' ')` gives them.
pub open spec fn pieces_from(s: Seq<char>, i: int) -> Seq<Seq<char>>
    decreases s.len() - i,
{
    if i < 0 || i >= s.len() {
        Seq::empty()
    } else {
        let j = next_sep(s, ' ', i);
        proof {
            lemma_next_sep(s, ' ', i);
        }
        if j >= s.len() {
            seq![s.subrange(i, s.len() as int)]
        } else {
            seq![s.subrange(i, j + 1)] + pieces_from(s, j + 1)
        }
    }
}

/// The rows used so far and the cells used on the last of them, after one
/// more piece of `length` characters is laid out `width` cells wide: a
/// piece that does not fit on a row begun starts a new one, and a piece
/// longer than a row fills as many rows as it needs.
pub open spec fn laid(rows: nat, used: nat, length: nat, width: nat) -> (nat, nat) {
    let (rows, used) = if used + length > width && used > 0 {
        (rows + 1, 0nat)
    } else {
        (rows, used)
    };
    if length > width {
        let extra = ((length - 1) as nat) / width;
        (rows + extra, (length - extra * width) as nat)
    } else {
        (rows, used + length)
    }
}

/// The rows and last-row cells after laying out `pieces` from `(rows, used)`.
pub open spec fn laid_all(pieces: Seq<Seq<char>>, rows: nat, used: nat, width: nat) -> (nat, nat)
    decreases pieces.len(),
{
    if pieces.len() == 0 {
        (rows, used)
    } else {
        let (r, u) = laid(rows, used, pieces[0].len(), width);
        laid_all(pieces.drop_first(), r, u, width)
    }
}

/// The rows `text` takes when wrapped at spaces `width` cells wide.
pub open spec fn rows_of_text(text: Seq<char>, width: nat) -> nat {
    laid_all(pieces_from(text, 0), 1, 0, width).0
}

proof fn lemma_laid_bounds(rows: nat, used: nat, length: nat, width: nat)
    requires
        width > 0,
        used <= width,
    ensures
        laid(rows, used, length, width).1 <= width,
        laid(rows, used, length, width).0 <= rows + 1 + length,
{
    if length > width {
        let extra = ((length - 1) as nat) / width;
        assert(extra * width <= length - 1) by (nonlinear_arith)
            requires
                extra == ((length - 1) as nat) / width,
                width > 0,
                length > width,
        ;
        assert(length - extra * width <= width) by (nonlinear_arith)
            requires
                extra == ((length - 1) as nat) / width,
                width > 0,
                length > width,
        ;
        assert(extra <= length) by (nonlinear_arith)
            requires
                extra == ((length - 1) as nat) / width,
                width > 0,
                length > width,
        ;
    }
}

proof fn lemma_laid_all_split(pieces: Seq<Seq<char>>, k: int, rows: nat, used: nat, width: nat)
    requires
        0 <= k < pieces.len(),
    ensures
        laid_all(pieces.skip(k), rows, used, width) == laid_all(
            pieces.skip(k + 1),
            laid(rows, used, pieces[k].len(), width).0,
            laid(rows, used, pieces[k].len(), width).1,
            width,
        ),
{
    assert(pieces.skip(k).drop_first() =~= pieces.skip(k + 1));
}

/// The number of rows `text` takes when wrapped at spaces into rows of
/// `width` cells.
pub fn wrap_count(text: &str, width: usize) -> (r: usize)
    requires
        width > 0,
    ensures
        r == rows_of_text(text@, width as nat),
{
    let cs = chars_of(text);
    let n = cs.len();
    let ghost all = pieces_from(cs@, 0);
    let mut rows: usize = 1;
    let mut used: usize = 0;
    let mut i: usize = 0;
    assert(pieces_from(cs@, 0).skip(0) =~= pieces_from(cs@, 0));
    while i < n
        invariant
            i <= n == cs@.len(),
            cs@ == text@,
            width > 0,
            used <= width,
            rows <= 1 + i,
            used > 0 ==> rows <= i,
            laid_all(all, 1, 0, width as nat) == laid_all(
                pieces_from(cs@, i as int),
                rows as nat,
                used as nat,
                width as nat,
            ),
            all == pieces_from(cs@, 0),
        decreases n - i,
    {
        let mut j = i;
        while j < n && cs[j] != ' '
            invariant
                i <= j <= n == cs@.len(),
                next_sep(cs@, ' ', i as int) == next_sep(cs@, ' ', j as int),
            decreases n - j,
        {
            j = j + 1;
        }
        proof {
            lemma_next_sep(cs@, ' ', i as int);
        }
        let end = if j < n { j + 1 } else { n };
        let length = end - i;
        let ghost piece = cs@.subrange(i as int, end as int);
        assert(piece.len() == length);
        proof {
            lemma_laid_bounds(rows as nat, used as nat, length as nat, width as nat);
            let p = pieces_from(cs@, i as int);
            assert(p[0] == piece);
            lemma_laid_all_split(p, 0, rows as nat, used as nat, width as nat);
            assert(p.skip(0) =~= p);
            assert(p.skip(1) =~= pieces_from(cs@, end as int)) by {
                if j < n {
                    assert(p =~= seq![piece] + pieces_from(cs@, end as int));
                } else {
                    assert(pieces_from(cs@, end as int) =~= Seq::<Seq<char>>::empty());
                }
            }
        }
        if length > width - used && used > 0 {
            rows = rows + 1;
            used = 0;
        }
        if length > width {
            let extra = (length - 1) / width;
            proof {
                lemma_laid_bounds(0, 0, length as nat, width as nat);
            }
            assert(extra * width <= length - 1 && extra <= length - 1) by (nonlinear_arith)
                requires
                    extra == (length - 1) as int / (width as int),
                    width > 0,
                    length > width,
            ;
            rows = rows + extra;
            used = length - extra * width;
        } else {
            used = used + length;
        }
        i = end;
    }
    assert(pieces_from(cs@, i as int) =~= Seq::<Seq<char>>::empty());
    rows
}

/// `n` spaces.
pub open spec fn spaces(n: nat) -> Seq<char> {
    Seq::new(n, |k: int| ' ')
}

fn space_run(n: usize) -> (r: String)
    ensures
        r@ == spaces(n as nat),
{
    let mut out = String::new();
    let mut i: usize = 0;
    while i < n
        invariant
            i <= n,
            out@ == spaces(i as nat),
        decreases n - i,
    {
        crate::text::push_char(&mut out, ' ');
        assert(out@ =~= spaces((i + 1) as nat));
        i = i + 1;
    }
    out
}

/// `label` padded with spaces on both sides to `width` bytes, the odd space
/// on the right; a label as wide or wider is left as it is.
pub open spec fn centred_text(label: Seq<char>, bytes: nat, width: nat) -> Seq<char> {
    let padding: nat = if width > bytes {
        (width - bytes) as nat
    } else {
        0
    };
    let left = padding / 2;
    spaces(left) + label + spaces((padding - left) as nat)
}

/// `label` centred in `width` cells.
pub fn centred(label: &str, width: u16) -> (r: String)
    ensures
        r@ == centred_text(label@, label.len() as nat, width as nat),
{
    let bytes = label.len();
    let padding = if (width as usize) > bytes {
        width as usize - bytes
    } else {
        0
    };
    let left = padding / 2;
    let a = space_run(left);
    let b = space_run(padding - left);
    cat3(a.as_str(), label, b.as_str())
}

/// The rows all of `texts` take, each wrapped `width` cells wide.
pub open spec fn rows_of_texts(texts: Seq<Seq<char>>, width: nat) -> nat
    decreases texts.len(),
{
    if texts.len() == 0 {
        0
    } else {
        rows_of_texts(texts.drop_last(), width) + rows_of_text(texts.last(), width)
    }
}

/// The rows the lines `texts` take in a panel `width` cells wide: one per
/// line where the panel has no width.
pub fn wrapped_rows(texts: &Vec<String>, width: u16) -> (r: usize)
    requires
        width == 0 || rows_of_texts(views(texts@), width as nat) <= usize::MAX,
    ensures
        width == 0 ==> r == texts@.len(),
        width > 0 ==> r == rows_of_texts(views(texts@), width as nat),
{
    if width == 0 {
        return texts.len();
    }
    let ghost all = views(texts@);
    let mut total: usize = 0;
    let mut i: usize = 0;
    while i < texts.len()
        invariant
            i <= texts@.len(),
            width > 0,
            all == views(texts@),
            rows_of_texts(all, width as nat) <= usize::MAX,
            total == rows_of_texts(all.take(i as int), width as nat),
        decreases texts@.len() - i,
    {
        assert(all.take(i + 1).drop_last() =~= all.take(i as int));
        proof {
            lemma_rows_grow(all, i + 1, width as nat);
        }
        let rows = wrap_count(texts[i].as_str(), width as usize);
        total = total + rows;
        i = i + 1;
    }
    assert(all.take(i as int) =~= all);
    total
}

proof fn lemma_rows_grow(texts: Seq<Seq<char>>, k: int, width: nat)
    requires
        0 <= k <= texts.len(),
    ensures
        rows_of_texts(texts.take(k), width) <= rows_of_texts(texts, width),
    decreases texts.len() - k,
{
    if k < texts.len() {
        lemma_rows_grow(texts, k + 1, width);
        assert(texts.take(k + 1).drop_last() =~= texts.take(k));
    } else {
        assert(texts.take(k) =~= texts);
    }
}

/// Each line of `lines` indented by two spaces.
pub open spec fn indented(lines: Seq<Seq<char>>) -> Seq<Seq<char>> {
    lines.map_values(|l: Seq<char>| "  "@ + l)
}

/// The lines of `text`, each indented by two spaces.
pub fn body(text: &str) -> (r: Vec<String>)
    ensures
        views(r@) == indented(lines_of(text@)),
{
    let ls = lines(text);
    let mut out: Vec<String> = Vec::new();
    let mut i: usize = 0;
    while i < ls.len()
        invariant
            i <= ls@.len(),
            views(ls@) == lines_of(text@),
            views(out@) == indented(views(ls@).take(i as int)),
        decreases ls@.len() - i,
    {
        let ghost before = views(out@);
        out.push(cat("  ", ls[i].as_str()));
        assert(views(out@) =~= before.push("  "@ + ls@[i as int]@));
        assert(indented(views(ls@).take(i + 1)) =~= indented(views(ls@).take(i as int)).push(
            "  "@ + ls@[i as int]@,
        ));
        i = i + 1;
    }
    assert(views(ls@).take(i as int) =~= views(ls@));
    out
}

/// The steps of a remedy as a bulleted list.
pub open spec fn bulleted(steps: Seq<Seq<char>>) -> Seq<Seq<char>> {
    steps.map_values(|s: Seq<char>| "  - "@ + s)
}

/// The text of the detail panel for a check: its badge and name, its
/// verdict and summary, what was expected, what was found and, where there
/// is one, how to fix it.
pub open spec fn detail_text(c: CheckView) -> Seq<Seq<char>> {
    seq![badge_text(c.status) + " "@ + c.name, word_text(c.status) + " - "@ + c.summary, ""@, "Expected"@]
        + indented(lines_of(c.expected)) + seq![""@, "Found"@] + indented(lines_of(c.found)) + if c.remedy.len() > 0 {
        seq![""@, "How to fix"@] + bulleted(c.remedy)
    } else {
        Seq::empty()
    }
}

fn append(out: &mut Vec<String>, more: Vec<String>)
    ensures
        views(final(out)@) == views(old(out)@) + views(more@),
{
    let mut i: usize = 0;
    let ghost start = views(out@);
    while i < more.len()
        invariant
            i <= more@.len(),
            views(out@) == start + views(more@).take(i as int),
        decreases more@.len() - i,
    {
        let ghost before = views(out@);
        out.push(more[i].clone());
        assert(views(out@) =~= before.push(more@[i as int]@));
        assert(views(more@).take(i + 1) =~= views(more@).take(i as int).push(more@[i as int]@));
        assert(views(out@) =~= start + views(more@).take(i + 1));
        i = i + 1;
    }
    assert(views(more@).take(i as int) =~= views(more@));
}

/// The lines of the detail panel for `check`.
pub fn detail_lines(check: &Check) -> (r: Vec<String>)
    ensures
        views(r@) == detail_text(check@),
{
    let mut out: Vec<String> = Vec::new();
    out.push(cat3(check.status.badge(), " ", check.name.as_str()));
    out.push(cat3(check.status.word(), " - ", check.summary.as_str()));
    out.push(String::new());
    out.push(String::from_str("Expected"));
    let ghost head = views(out@);
    assert(head =~= seq![
        badge_text(check.status) + " "@ + check.name@,
        word_text(check.status) + " - "@ + check.summary@,
        Seq::<char>::empty(),
        "Expected"@,
    ]);
    append(&mut out, body(check.expected.as_str()));
    out.push(String::new());
    out.push(String::from_str("Found"));
    append(&mut out, body(check.found.as_str()));
    let ghost fixed = views(out@);
    assert(fixed =~= head + indented(lines_of(check.expected@)) + seq![Seq::<char>::empty(), "Found"@]
        + indented(lines_of(check.found@)));
    if check.remedy.len() > 0 {
        out.push(String::new());
        out.push(String::from_str("How to fix"));
        let mut steps: Vec<String> = Vec::new();
        let mut i: usize = 0;
        while i < check.remedy.len()
            invariant
                i <= check.remedy@.len(),
                views(steps@) == bulleted(views(check.remedy@).take(i as int)),
            decreases check.remedy@.len() - i,
        {
            let ghost before = views(steps@);
            steps.push(cat("  - ", check.remedy[i].as_str()));
            assert(bulleted(views(check.remedy@).take(i + 1)) =~= before.push(
                "  - "@ + check.remedy@[i as int]@,
            ));
            assert(views(steps@) =~= before.push("  - "@ + check.remedy@[i as int]@));
            i = i + 1;
        }
        assert(views(check.remedy@).take(i as int) =~= views(check.remedy@));
        append(&mut out, steps);
    }
    proof {
        reveal_strlit("");
        assert(""@ =~= Seq::<char>::empty());
        if check.remedy@.len() == 0 {
            assert(views(out@) =~= fixed + Seq::<Seq<char>>::empty());
        } else {
            assert(views(out@) =~= fixed + (seq![Seq::<char>::empty(), "How to fix"@] + bulleted(views(check.remedy@))));
        }
    }
    assert(views(out@) =~= detail_text(check@));
    out
}

/// How a change of verdict reads in the status line: the label, the
/// badge it had, an arrow and the badge it has, the badges trimmed.
pub open spec fn change_note(c: crate::app::ChangeView) -> Seq<char> {
    c.label + " "@ + trim(badge_text(c.from)) + " -> "@ + trim(badge_text(c.to))
}

/// The note shown for `change`.
pub fn change_text(change: &Change) -> (r: String)
    ensures
        r@ == change_note(change@),
{
    let from = trimmed(change.from.badge());
    let to = trimmed(change.to.badge());
    let head = cat3(change.label.as_str(), " ", from.as_str());
    cat3(head.as_str(), " -> ", to.as_str())
}

/// The colour a summary banner or gauge takes: the accent while nothing
/// was scanned, else that of the worst verdict.
#[derive(Clone, Copy, Debug, PartialEq, Eq, Structural)]
pub enum Tone {
    Accent,
    Pass,
    Warn,
    Fail,
}

/// The tone of a report with `total` checks, `warn` warnings and `fail`
/// unmet checks.
pub open spec fn tone_of(total: nat, warn: nat, fail: nat) -> Tone {
    if total == 0 {
        Tone::Accent
    } else if fail > 0 {
        Tone::Fail
    } else if warn > 0 {
        Tone::Warn
    } else {
        Tone::Pass
    }
}

/// The banner of the summary: scanning while there is no check yet, else
/// whether the build is blocked and by how many unmet requirements, or
/// ready and with how many warnings.
pub open spec fn banner_text(total: nat, warn: nat, fail: nat) -> Seq<char> {
    if total == 0 {
        "  SCANNING  "@
    } else if fail > 0 {
        "  BUILD BLOCKED - "@ + decimal(fail) + " requirement(s) not met  "@
    } else if warn > 0 {
        "  BUILD READY - "@ + decimal(warn) + " warning(s)  "@
    } else {
        "  BUILD READY  "@
    }
}

fn count_text(n: usize) -> (r: String)
    ensures
        r@ == decimal(n as nat),
{
    decimal_text(n as u64)
}

/// The summary banner and its tone.
pub fn banner(total: usize, warn: usize, fail: usize) -> (r: (String, Tone))
    ensures
        r.0@ == banner_text(total as nat, warn as nat, fail as nat),
        r.1 == tone_of(total as nat, warn as nat, fail as nat),
{
    if total == 0 {
        (String::from_str("  SCANNING  "), Tone::Accent)
    } else if fail > 0 {
        let n = count_text(fail);
        (cat3("  BUILD BLOCKED - ", n.as_str(), " requirement(s) not met  "), Tone::Fail)
    } else if warn > 0 {
        let n = count_text(warn);
        (cat3("  BUILD READY - ", n.as_str(), " warning(s)  "), Tone::Warn)
    } else {
        (String::from_str("  BUILD READY  "), Tone::Pass)
    }
}

/// The label of the summary gauge: how many of the requirements are met.
pub fn gauge_label(pass: usize, total: usize) -> (r: String)
    ensures
        r@ == decimal(pass as nat) + "/"@ + decimal(total as nat) + " requirements met"@,
{
    let a = count_text(pass);
    let b = count_text(total);
    cat3(a.as_str(), "/", b.as_str()).concat(" requirements met")
}

/// A count with what it counts: `3 met`, `1 warning`, `2 unmet`.
pub fn count_of(n: usize, what: &str) -> (r: String)
    ensures
        r@ == decimal(n as nat) + " "@ + what@,
{
    let a = count_text(n);
    cat3(a.as_str(), " ", what)
}

/// The title of the summary, naming the platform.
pub fn summary_title(platform: &str) -> (r: String)
    ensures
        r@ == " Structured Text build requirements - "@ + platform@ + " "@,
{
    cat3(" Structured Text build requirements - ", platform, " ")
}

/// The width of a build button for `target`: its label and two cells on
/// each side, counted as the Build pane counts them.
pub open spec fn label_face(target: Target) -> int {
    (target.label.len() as u16) + 4
}

/// The widest button among `targets`, 0 for none.
pub open spec fn widest(targets: Seq<Target>) -> int
    decreases targets.len(),
{
    if targets.len() == 0 {
        0
    } else {
        let rest = widest(targets.drop_last());
        let last = label_face(targets.last());
        if rest < last { last } else { rest }
    }
}

/// The width all build buttons share: the widest, at most the pane's width.
pub open spec fn face_of(targets: Seq<Target>, width: u16) -> u16 {
    (if widest(targets) < width { widest(targets) } else { width as int }) as u16
}

/// The rows between two build buttons: two where the pane has room for it.
pub open spec fn spacing_of(targets: Seq<Target>, height: u16) -> u16 {
    if height >= (targets.len() as u16) * 2 { 2 } else { 1 }
}

/// The row of the `i`-th build button.
pub open spec fn button_row(targets: Seq<Target>, inner: Rect, i: int) -> int {
    inner.y + (i as u16) * spacing_of(targets, inner.height)
}

/// Where the `i`-th build button stands in the pane `inner`: one row high,
/// the shared width, centred, one button per row (or every other row);
/// the empty rectangle for a button below the pane.
pub open spec fn button_at(targets: Seq<Target>, inner: Rect, i: int) -> Rect {
    let face = face_of(targets, inner.width);
    let y = button_row(targets, inner, i);
    if y >= saturating(inner.y, inner.height) {
        Rect::zero_spec()
    } else {
        Rect { x: (inner.x + (inner.width - face) / 2) as u16, y: y as u16, width: face, height: 1 }
    }
}

/// Whether the Build pane's arithmetic stays within 16 bits for `targets`
/// in the pane `inner`.
pub open spec fn buttons_fit(targets: Seq<Target>, inner: Rect) -> bool {
    &&& targets.len() * 2 <= u16::MAX
    &&& forall|i: int| 0 <= i < targets.len() ==> label_face(#[trigger] targets[i]) <= u16::MAX
    &&& forall|i: int| 0 <= i < targets.len() ==> #[trigger] button_row(targets, inner, i) <= u16::MAX
    &&& inner.x + (inner.width - face_of(targets, inner.width)) / 2 <= u16::MAX
}

proof fn lemma_widest(targets: Seq<Target>)
    requires
        forall|i: int| 0 <= i < targets.len() ==> label_face(#[trigger] targets[i]) <= u16::MAX,
    ensures
        0 <= widest(targets) <= u16::MAX,
    decreases targets.len(),
{
    if targets.len() > 0 {
        assert forall|i: int| 0 <= i < targets.drop_last().len() implies label_face(#[trigger] targets.drop_last()[i]) <= u16::MAX by {
            assert(targets.drop_last()[i] == targets[i]);
        }
        lemma_widest(targets.drop_last());
        assert(label_face(targets[targets.len() - 1]) <= u16::MAX);
    }
}

/// Where each build button stands in the pane `inner`.
pub fn build_buttons(targets: &Vec<Target>, inner: Rect) -> (r: Vec<Rect>)
    requires
        buttons_fit(targets@, inner),
    ensures
        r@.len() == targets@.len(),
        forall|i: int| 0 <= i < r@.len() ==> #[trigger] r@[i] == button_at(targets@, inner, i),
{
    let mut face: u16 = 0;
    let mut k: usize = 0;
    proof {
        lemma_widest(targets@);
    }
    while k < targets.len()
        invariant
            k <= targets@.len(),
            buttons_fit(targets@, inner),
            face == widest(targets@.take(k as int)),
        decreases targets@.len() - k,
    {
        proof {
            assert(targets@.take(k + 1).drop_last() =~= targets@.take(k as int));
            assert(targets@.take(k + 1).last() == targets@[k as int]);
            assert(label_face(targets@[k as int]) <= u16::MAX);
            assert forall|i: int| 0 <= i < targets@.take(k as int).len() implies label_face(#[trigger] targets@.take(k as int)[i]) <= u16::MAX by {
                assert(targets@.take(k as int)[i] == targets@[i]);
            }
            lemma_widest(targets@.take(k as int));
        }
        let w = (targets[k].label.len() as u16) + 4;
        if face < w {
            face = w;
        }
        k = k + 1;
    }
    assert(targets@.take(k as int) =~= targets@);
    if face > inner.width {
        face = inner.width;
    }
    let count = targets.len() as u16;
    let spacing: u16 = if inner.height >= count * 2 { 2 } else { 1 };
    let column = inner.x + (inner.width - face) / 2;
    let bottom = inner.bottom();
    let mut out: Vec<Rect> = Vec::new();
    let mut i: usize = 0;
    while i < targets.len()
        invariant
            i <= targets@.len(),
            buttons_fit(targets@, inner),
            face == face_of(targets@, inner.width),
            spacing == spacing_of(targets@, inner.height),
            column == inner.x + (inner.width - face) / 2,
            bottom == saturating(inner.y, inner.height),
            out@.len() == i,
            forall|j: int| 0 <= j < i ==> #[trigger] out@[j] == button_at(targets@, inner, j),
        decreases targets@.len() - i,
    {
        assert(button_row(targets@, inner, i as int) <= u16::MAX);
        let y = inner.y + (i as u16) * spacing;
        if y >= bottom {
            out.push(Rect::zero());
        } else {
            out.push(Rect { x: column, y, width: face, height: 1 });
        }
        i = i + 1;
    }
    out
}

/// Where each build button can be clicked: where it stands while no build
/// runs, and nowhere (the empty rectangle) while one does.
pub fn live_buttons(targets: &Vec<Target>, inner: Rect, running: Option<usize>) -> (r: Vec<Rect>)
    requires
        buttons_fit(targets@, inner),
    ensures
        r@.len() == targets@.len(),
        forall|i: int|
            0 <= i < r@.len() ==> #[trigger] r@[i] == if running is None {
                button_at(targets@, inner, i)
            } else {
                Rect::zero_spec()
            },
{
    let places = build_buttons(targets, inner);
    let mut out: Vec<Rect> = Vec::new();
    let mut i: usize = 0;
    while i < places.len()
        invariant
            i <= places@.len(),
            places@.len() == targets@.len(),
            forall|j: int| 0 <= j < places@.len() ==> #[trigger] places@[j] == button_at(targets@, inner, j),
            out@.len() == i,
            forall|j: int|
                0 <= j < i ==> #[trigger] out@[j] == if running is None {
                    button_at(targets@, inner, j)
                } else {
                    Rect::zero_spec()
                },
        decreases places@.len() - i,
    {
        if running.is_none() {
            out.push(places[i]);
        } else {
            out.push(Rect::zero());
        }
        i = i + 1;
    }
    out
}

/// The row under the build buttons where a hint or the last build's
/// message is shown, if the pane has room for one.
pub open spec fn hint_at(targets: Seq<Target>, inner: Rect) -> Option<Rect> {
    let count = targets.len() as u16;
    let above = if count > 0 { count - 1 } else { 0 };
    let last = inner.y + (above as u16) * spacing_of(targets, inner.height);
    if saturating(inner.y, inner.height) > last + 1 {
        Some(Rect { x: inner.x, y: (saturating(inner.y, inner.height) - 1) as u16, width: inner.width, height: 1 })
    } else {
        None
    }
}

/// Where the Build pane's hint row stands, if it has room for one.
pub fn hint_row(targets: &Vec<Target>, inner: Rect) -> (r: Option<Rect>)
    requires
        targets@.len() * 2 <= u16::MAX,
        ({
            let count = targets@.len() as u16;
            let above = if count > 0 { count - 1 } else { 0 };
            inner.y + (above as u16) * spacing_of(targets@, inner.height) + 1 <= u16::MAX
        }),
    ensures
        r == hint_at(targets@, inner),
{
    let count = targets.len() as u16;
    let spacing: u16 = if inner.height >= count * 2 { 2 } else { 1 };
    let above = if count > 0 { count - 1 } else { 0 };
    assert(above as int * spacing as int <= u16::MAX) by (nonlinear_arith)
        requires
            inner.y + (above as u16) * spacing + 1 <= u16::MAX,
            above == above as u16,
    ;
    let last = inner.y + above * spacing;
    let bottom = inner.bottom();
    if bottom > last + 1 {
        Some(Rect { x: inner.x, y: bottom - 1, width: inner.width, height: 1 })
    } else {
        None
    }
}

/// The label of the dark theme's button.
pub const DARK_LABEL: &'static str = " Dark ";

/// The label of the light theme's button.
pub const LIGHT_LABEL: &'static str = " Light ";

/// The cells the dark theme's label takes.
pub const DARK_WIDTH: u16 = 6;

/// The cells the light theme's label takes.
pub const LIGHT_WIDTH: u16 = 7;

/// Where the theme toggle stands at the right end of the summary's top
/// border `area`: the whole toggle, then the Dark and the Light button;
/// nothing where the border is too narrow for it.
pub open spec fn toggle_at(area: Rect) -> Option<(Rect, Rect, Rect)> {
    let width = 6 + 7 + 3;
    if area.width < width + 4 {
        None
    } else {
        let bar = Rect { x: (saturating(area.x, area.width) - width - 2) as u16, y: area.y, width: width as u16, height: 1 };
        let dark = Rect { x: (bar.x + 1) as u16, y: bar.y, width: 6, height: 1 };
        let light = Rect { x: (bar.x + 1 + 6 + 1) as u16, y: bar.y, width: 7, height: 1 };
        Some((bar, dark, light))
    }
}

/// Where the theme toggle and its buttons stand.
pub fn toggle_layout(area: Rect) -> (r: Option<(Rect, Rect, Rect)>)
    ensures
        r == toggle_at(area),
{
    let width: u16 = DARK_WIDTH + LIGHT_WIDTH + 3;
    if area.width < width + 4 {
        return None;
    }
    let bar = Rect { x: area.right() - width - 2, y: area.y, width, height: 1 };
    let dark = Rect { x: bar.x + 1, y: bar.y, width: DARK_WIDTH, height: 1 };
    let light = Rect { x: dark.right() + 1, y: bar.y, width: LIGHT_WIDTH, height: 1 };
    Some((bar, dark, light))
}

/// A thumb on a track spans at least one cell and at most the track.
pub proof fn law_thumb_fits_track(track: u16, viewport: u16, rows: usize)
    requires
        track > 0,
    ensures
        1 <= thumb(track, viewport, rows) <= track,
{
}

proof fn lemma_laid_all_rows(pieces: Seq<Seq<char>>, rows: nat, used: nat, width: nat)
    requires
        width > 0,
    ensures
        laid_all(pieces, rows, used, width).0 >= rows,
    decreases pieces.len(),
{
    if pieces.len() > 0 {
        let l = laid(rows, used, pieces[0].len(), width);
        assert(l.0 >= rows);
        lemma_laid_all_rows(pieces.drop_first(), l.0, l.1, width);
        assert(laid_all(pieces, rows, used, width) == laid_all(pieces.drop_first(), l.0, l.1, width));
    }
}

/// Any text, the empty one included, takes at least one row.
pub proof fn law_text_takes_a_row(text: Seq<char>, width: nat)
    requires
        width > 0,
    ensures
        rows_of_text(text, width) >= 1,
{
    lemma_laid_all_rows(pieces_from(text, 0), 1, 0, width);
}

/// A centred label keeps the label in the middle, with no more than one
/// space more on the right than on the left.
pub proof fn law_centred_balance(label: Seq<char>, bytes: nat, width: nat)
    ensures
        ({
            let padding: nat = if width > bytes { (width - bytes) as nat } else { 0 };
            let t = centred_text(label, bytes, width);
            &&& t.len() == label.len() + padding
            &&& t.subrange((padding / 2) as int, (padding / 2 + label.len()) as int) == label
            &&& padding - padding / 2 - padding / 2 <= 1
        }),
{
    let padding: nat = if width > bytes { (width - bytes) as nat } else { 0 };
    let left = padding / 2;
    let t = centred_text(label, bytes, width);
    assert(t.subrange(left as int, (left + label.len()) as int) =~= label);
}

} // verus!
