//! The dashboard's state: the latest report, the rows of the requirement
//! list, the selection, the recent changes of verdict and the theme.

use vstd::prelude::*;

use crate::checks::{check_views, group_views, Check, CheckView, Group, GroupView, Platform, Report, Status};
use crate::project::Project;
use crate::text::cat3;
use crate::theme::{other, theme_of, Mode, Theme};

verus! {

/// How long a change of verdict stays marked, in milliseconds.
pub const CHANGE_LIFETIME_MS: u64 = 8000;

/// How often the environment is scanned, in milliseconds.
pub const SCAN_INTERVAL_MS: u64 = 1500;

/// A row of the requirement list: a group's heading, or one of its checks.
#[derive(Clone, Copy, Debug, PartialEq, Eq, Structural)]
pub enum Row {
    Header { group: usize },
    Item { group: usize, check: usize },
}

/// A check whose verdict changed between two scans, and when (in
/// milliseconds on the caller's clock) that was seen.
pub struct Change {
    pub label: String,
    pub from: Status,
    pub to: Status,
    pub at: u64,
}

/// A change, as seen by specifications.
pub struct ChangeView {
    pub label: Seq<char>,
    pub from: Status,
    pub to: Status,
    pub at: u64,
}

impl View for Change {
    type V = ChangeView;

    open spec fn view(&self) -> ChangeView {
        ChangeView { label: self.label@, from: self.from, to: self.to, at: self.at }
    }
}

/// The views of a list of changes.
pub open spec fn change_views(changes: Seq<Change>) -> Seq<ChangeView> {
    changes.map_values(|c: Change| c@)
}

/// A rectangle of terminal cells.
#[derive(Clone, Copy, Debug, PartialEq, Eq, Structural)]
pub struct Rect {
    pub x: u16,
    pub y: u16,
    pub width: u16,
    pub height: u16,
}

/// `a + b`, or the largest `u16` when that does not fit.
pub open spec fn saturating(a: u16, b: u16) -> int {
    if a + b > u16::MAX { u16::MAX as int } else { a + b }
}

impl Row {
    /// Whether the row shows a check.
    pub fn is_item(&self) -> (r: bool)
        ensures
            r == (*self is Item),
    {
        match self {
            Row::Item { .. } => true,
            Row::Header { .. } => false,
        }
    }
}

impl Rect {
    /// The empty rectangle at the origin, as seen by specifications.
    pub open spec fn zero_spec() -> Rect {
        Rect { x: 0, y: 0, width: 0, height: 0 }
    }

    /// The empty rectangle at the origin.
    pub fn zero() -> (r: Rect)
        ensures
            r == Rect::zero_spec(),
    {
        Rect { x: 0, y: 0, width: 0, height: 0 }
    }

    /// The column just right of the rectangle, saturating.
    pub fn right(self) -> (r: u16)
        ensures
            r == saturating(self.x, self.width),
    {
        if self.x as u32 + self.width as u32 > 0xffff { 0xffff } else { self.x + self.width }
    }

    /// The row just below the rectangle, saturating.
    pub fn bottom(self) -> (r: u16)
        ensures
            r == saturating(self.y, self.height),
    {
        if self.y as u32 + self.height as u32 > 0xffff { 0xffff } else { self.y + self.height }
    }

    /// Whether the cell at `column`, `row` lies inside the rectangle.
    pub open spec fn contains_spec(self, column: u16, row: u16) -> bool {
        self.x <= column < saturating(self.x, self.width) && self.y <= row < saturating(self.y, self.height)
    }

    /// Whether the cell at `column`, `row` lies inside the rectangle.
    pub fn contains(self, column: u16, row: u16) -> (r: bool)
        ensures
            r == self.contains_spec(column, row),
    {
        column >= self.x && column < self.right() && row >= self.y && row < self.bottom()
    }
}

/// The rows of the list for `groups`: each group's heading followed by its checks.
pub open spec fn rows_for(groups: Seq<GroupView>) -> Seq<Row>
    decreases groups.len(),
{
    if groups.len() == 0 {
        Seq::empty()
    } else {
        let g = (groups.len() - 1) as usize;
        rows_for(groups.drop_last()) + seq![Row::Header { group: g }] + Seq::new(
            groups.last().checks.len(),
            |c: int| Row::Item { group: g, check: c as usize },
        )
    }
}

/// Whether `row` names a group and check that exist in `groups`.
pub open spec fn row_valid(groups: Seq<GroupView>, row: Row) -> bool {
    match row {
        Row::Header { group } => group < groups.len(),
        Row::Item { group, check } => group < groups.len() && check < groups[group as int].checks.len(),
    }
}

/// The key that identifies the check of a row: its group's title and its
/// name, as `title / name`.
pub open spec fn row_key(groups: Seq<GroupView>, row: Row) -> Option<Seq<char>> {
    match row {
        Row::Item { group, check } => Some(
            groups[group as int].title + " / "@ + groups[group as int].checks[check as int].name,
        ),
        Row::Header { .. } => None,
    }
}

/// Whether a row is a check that is not met.
pub open spec fn row_unmet(groups: Seq<GroupView>, row: Row) -> bool {
    match row {
        Row::Item { group, check } => groups[group as int].checks[check as int].status == Status::Fail,
        Row::Header { .. } => false,
    }
}

/// The first row at or after `i` that is an unmet check.
pub open spec fn first_unmet(groups: Seq<GroupView>, rows: Seq<Row>, i: int) -> Option<int>
    decreases rows.len() - i,
{
    if i < 0 || i >= rows.len() {
        None
    } else if row_unmet(groups, rows[i]) {
        Some(i)
    } else {
        first_unmet(groups, rows, i + 1)
    }
}

/// The first row at or after `i` that is a check.
pub open spec fn first_item(rows: Seq<Row>, i: int) -> Option<int>
    decreases rows.len() - i,
{
    if i < 0 || i >= rows.len() {
        None
    } else if rows[i] is Item {
        Some(i)
    } else {
        first_item(rows, i + 1)
    }
}

/// The first row at or after `i` whose key is `key`.
pub open spec fn first_keyed(groups: Seq<GroupView>, rows: Seq<Row>, key: Seq<char>, i: int) -> Option<int>
    decreases rows.len() - i,
{
    if i < 0 || i >= rows.len() {
        None
    } else if row_key(groups, rows[i]) == Some(key) {
        Some(i)
    } else {
        first_keyed(groups, rows, key, i + 1)
    }
}

/// The row selected when nothing else decides: the first unmet check, or
/// else the first check.
pub open spec fn default_selection(groups: Seq<GroupView>, rows: Seq<Row>) -> Option<int> {
    match first_unmet(groups, rows, 0) {
        Some(i) => Some(i),
        None => first_item(rows, 0),
    }
}

/// One step through a ring of `n` rows, forward or back.
pub open spec fn step(i: int, n: int, forward: bool) -> int {
    if forward {
        (i + 1) % n
    } else if i == 0 {
        n - 1
    } else {
        i - 1
    }
}

/// The row `k` steps from `start` in a ring of `n` rows.
pub open spec fn stepped(start: int, k: nat, n: int, forward: bool) -> int
    decreases k,
{
    if k == 0 {
        start
    } else {
        step(stepped(start, (k - 1) as nat, n, forward), n, forward)
    }
}

/// The first check met when stepping from `start` through the other rows of
/// the ring, trying `k` steps and on.
pub open spec fn next_item(rows: Seq<Row>, start: int, forward: bool, k: nat) -> Option<int>
    decreases rows.len() - k,
{
    if k >= rows.len() {
        None
    } else if rows[stepped(start, k, rows.len() as int, forward)] is Item {
        Some(stepped(start, k, rows.len() as int, forward))
    } else {
        next_item(rows, start, forward, k + 1)
    }
}

/// The first unmet check among the rows `start + k`, ... `start + n` of a
/// ring of `n` rows (wrapping round), trying offset `k` and on.
pub open spec fn next_unmet(groups: Seq<GroupView>, rows: Seq<Row>, start: int, k: int) -> Option<int>
    decreases rows.len() + 1 - k,
{
    if k > rows.len() || k < 1 {
        None
    } else if row_unmet(groups, rows[(start + k) % (rows.len() as int)]) {
        Some((start + k) % (rows.len() as int))
    } else {
        next_unmet(groups, rows, start, k + 1)
    }
}

/// The checks of all groups with their keys and verdicts, in list order.
pub open spec fn keyed(groups: Seq<GroupView>) -> Seq<(Seq<char>, Status)>
    decreases groups.len(),
{
    if groups.len() == 0 {
        Seq::empty()
    } else {
        let g = groups.last();
        keyed(groups.drop_last()) + Seq::new(
            g.checks.len(),
            |c: int| (g.title + " / "@ + g.checks[c].name, g.checks[c].status),
        )
    }
}

/// The position of `key` in a list of entries, looking from `i` on.
pub open spec fn position(entries: Seq<(Seq<char>, Status)>, key: Seq<char>, i: int) -> Option<int>
    decreases entries.len() - i,
{
    if i < 0 || i >= entries.len() {
        None
    } else if entries[i].0 == key {
        Some(i)
    } else {
        position(entries, key, i + 1)
    }
}

/// The verdict recorded for `key`.
pub open spec fn lookup(entries: Seq<(Seq<char>, Status)>, key: Seq<char>) -> Option<Status> {
    match position(entries, key, 0) {
        Some(i) => Some(entries[i].1),
        None => None,
    }
}

/// `entries` with `key` now mapped to `status`: its entry replaced, or a new
/// one at the end.
pub open spec fn recorded(entries: Seq<(Seq<char>, Status)>, key: Seq<char>, status: Status) -> Seq<(Seq<char>, Status)> {
    match position(entries, key, 0) {
        Some(i) => entries.update(i, (key, status)),
        None => entries.push((key, status)),
    }
}

/// The verdict of every check by key, a later check of the same key winning.
pub open spec fn collected(pairs: Seq<(Seq<char>, Status)>) -> Seq<(Seq<char>, Status)>
    decreases pairs.len(),
{
    if pairs.len() == 0 {
        Seq::empty()
    } else {
        recorded(collected(pairs.drop_last()), pairs.last().0, pairs.last().1)
    }
}

/// The changes between the verdicts `old` and `new` seen at `at`, in the
/// order of `new`, from its entry `i` on.
pub open spec fn changes_from(
    old: Seq<(Seq<char>, Status)>,
    new: Seq<(Seq<char>, Status)>,
    at: u64,
    i: int,
) -> Seq<ChangeView>
    decreases new.len() - i,
{
    if i < 0 || i >= new.len() {
        Seq::empty()
    } else {
        let rest = changes_from(old, new, at, i + 1);
        match lookup(old, new[i].0) {
            Some(before) => if before != new[i].1 {
                seq![ChangeView { label: new[i].0, from: before, to: new[i].1, at }] + rest
            } else {
                rest
            },
            None => rest,
        }
    }
}

/// Whether `p` is unique in keys.
pub open spec fn unique_keys(entries: Seq<(Seq<char>, Status)>) -> bool {
    forall|i: int, j: int| 0 <= i < j < entries.len() ==> entries[i].0 != entries[j].0
}

/// What the dashboard remembers between scans: the verdicts by key, and
/// the key of the check last selected.
pub struct Memory {
    statuses: Vec<(String, Status)>,
    selected: Option<String>,
}

impl Memory {
    /// The verdicts of the last scan, by key.
    pub closed spec fn verdicts(&self) -> Seq<(Seq<char>, Status)> {
        entry_views(self.statuses@)
    }

    /// The key of the check last selected, if any.
    pub closed spec fn remembered(&self) -> Option<Seq<char>> {
        match self.selected {
            Some(k) => Some(k@),
            None => None,
        }
    }

    /// Each key has one verdict.
    pub closed spec fn wf(&self) -> bool {
        unique_keys(entry_views(self.statuses@))
    }
}

/// The dashboard: the report, the rows of the list and the selected row,
/// the detail pane's scroll, the scans made, the recent changes, the theme
/// and where its buttons are.
pub struct App {
    pub report: Report,
    pub rows: Vec<Row>,
    pub list: Option<usize>,
    pub detail_scroll: u16,
    pub quit: bool,
    pub scans: u64,
    pub last_scan: Option<u64>,
    pub frame: usize,
    pub changes: Vec<Change>,
    pub theme: Theme,
    pub dark_button: Rect,
    pub light_button: Rect,
    pub memory: Memory,
}

/// The views of keyed verdicts.
pub open spec fn entry_views(entries: Seq<(String, Status)>) -> Seq<(Seq<char>, Status)> {
    entries.map_values(|e: (String, Status)| (e.0@, e.1))
}

/// The rows of the list for a report.
pub fn build_rows(report: &Report) -> (r: Vec<Row>)
    ensures
        r@ == rows_for(group_views(report.groups@)),
        forall|i: int| 0 <= i < r@.len() ==> row_valid(group_views(report.groups@), #[trigger] r@[i]),
{
    let ghost gs = group_views(report.groups@);
    let mut rows: Vec<Row> = Vec::new();
    let mut g: usize = 0;
    while g < report.groups.len()
        invariant
            g <= report.groups@.len(),
            gs == group_views(report.groups@),
            rows@ == rows_for(gs.take(g as int)),
            forall|i: int| 0 <= i < rows@.len() ==> row_valid(gs, #[trigger] rows@[i]),
        decreases report.groups@.len() - g,
    {
        let ghost before = rows@;
        rows.push(Row::Header { group: g });
        let n = report.groups[g].checks.len();
        assert(gs[g as int].checks.len() == report.groups@[g as int].checks@.len());
        let mut c: usize = 0;
        while c < n
            invariant
                c <= n,
                n == gs[g as int].checks.len(),
                g < report.groups@.len(),
                rows@ == before + seq![Row::Header { group: g }] + Seq::new(c as nat, |k: int| Row::Item { group: g, check: k as usize }),
                gs == group_views(report.groups@),
                forall|i: int| 0 <= i < rows@.len() ==> row_valid(gs, #[trigger] rows@[i]),
            decreases n - c,
        {
            rows.push(Row::Item { group: g, check: c });
            assert(rows@ =~= before + seq![Row::Header { group: g }] + Seq::new((c + 1) as nat, |k: int| Row::Item { group: g, check: k as usize }));
            c = c + 1;
        }
        proof {
            let t = gs.take(g + 1);
            assert(t.drop_last() =~= gs.take(g as int));
            assert(t.last() == gs[g as int]);
            assert(rows@ =~= rows_for(t));
        }
        g = g + 1;
    }
    assert(gs.take(g as int) =~= gs);
    rows
}

/// The position of `key` among `entries`.
fn position_of(entries: &Vec<(String, Status)>, key: &String) -> (r: Option<usize>)
    ensures
        match r {
            Some(i) => position(entry_views(entries@), key@, 0) == Some(i as int),
            None => position(entry_views(entries@), key@, 0) is None,
        },
{
    let ghost es = entry_views(entries@);
    let mut i: usize = 0;
    while i < entries.len()
        invariant
            i <= entries@.len(),
            es == entry_views(entries@),
            position(es, key@, 0) == position(es, key@, i as int),
        decreases entries@.len() - i,
    {
        if entries[i].0 == *key {
            return Some(i);
        }
        i = i + 1;
    }
    None
}

/// A position found from `i` on lies at or after `i` and holds the key;
/// none found means no entry from `i` on holds it.
proof fn lemma_position(entries: Seq<(Seq<char>, Status)>, key: Seq<char>, i: int)
    requires
        0 <= i,
    ensures
        position(entries, key, i) matches Some(k) ==> i <= k < entries.len() && entries[k].0 == key
            && forall|j: int| i <= j < k ==> entries[j].0 != key,
        position(entries, key, i) is None ==> forall|j: int| i <= j < entries.len() ==> entries[j].0 != key,
    decreases entries.len() - i,
{
    if i < entries.len() {
        lemma_position(entries, key, i + 1);
    }
}

/// Recording a verdict keeps the keys unique.
proof fn lemma_recorded_unique(entries: Seq<(Seq<char>, Status)>, key: Seq<char>, status: Status)
    requires
        unique_keys(entries),
    ensures
        unique_keys(recorded(entries, key, status)),
{
    lemma_position(entries, key, 0);
}

/// The verdict of every check of a report by key.
pub fn collect_statuses(report: &Report) -> (r: Vec<(String, Status)>)
    ensures
        entry_views(r@) == collected(keyed(group_views(report.groups@))),
        unique_keys(entry_views(r@)),
{
    let ghost gs = group_views(report.groups@);
    let ghost all = keyed(gs);
    let mut out: Vec<(String, Status)> = Vec::new();
    let ghost mut done: Seq<(Seq<char>, Status)> = Seq::empty();
    let mut g: usize = 0;
    while g < report.groups.len()
        invariant
            g <= report.groups@.len(),
            gs == group_views(report.groups@),
            done == keyed(gs.take(g as int)),
            entry_views(out@) == collected(done),
            unique_keys(entry_views(out@)),
        decreases report.groups@.len() - g,
    {
        let group = &report.groups[g];
        let ghost mine = Seq::new(
            gs[g as int].checks.len(),
            |c: int| (gs[g as int].title + " / "@ + gs[g as int].checks[c].name, gs[g as int].checks[c].status),
        );
        proof {
            let t = gs.take(g + 1);
            assert(t.drop_last() =~= gs.take(g as int));
            assert(keyed(t) == done + mine);
        }
        let mut c: usize = 0;
        while c < group.checks.len()
            invariant
                c <= group.checks@.len(),
                g < report.groups@.len(),
                group == &report.groups@[g as int],
                gs == group_views(report.groups@),
                mine.len() == group.checks@.len(),
                mine == Seq::new(
                    gs[g as int].checks.len(),
                    |c: int| (gs[g as int].title + " / "@ + gs[g as int].checks[c].name, gs[g as int].checks[c].status),
                ),
                entry_views(out@) == collected(done + mine.take(c as int)),
                unique_keys(entry_views(out@)),
            decreases group.checks@.len() - c,
        {
            let key = cat3(group.title.as_str(), " / ", group.checks[c].name.as_str());
            let status = group.checks[c].status;
            let ghost before = entry_views(out@);
            assert(key@ == mine[c as int].0);
            assert(status == mine[c as int].1);
            proof {
                assert((done + mine.take(c + 1)).drop_last() =~= done + mine.take(c as int));
                assert((done + mine.take(c + 1)).last() == mine[c as int]);
                lemma_recorded_unique(before, key@, status);
                lemma_position(before, key@, 0);
            }
            match position_of(&out, &key) {
                Some(i) => {
                    out.set(i, (key, status));
                    assert(entry_views(out@) =~= before.update(i as int, (mine[c as int].0, status)));
                },
                None => {
                    out.push((key, status));
                    assert(entry_views(out@) =~= before.push((mine[c as int].0, status)));
                },
            }
            c = c + 1;
        }
        proof {
            assert(mine.take(c as int) =~= mine);
            done = done + mine;
            assert(done == keyed(gs.take(g + 1)));
        }
        g = g + 1;
    }
    assert(gs.take(g as int) =~= gs);
    out
}

impl App {
    /// The groups of the current report, as seen by specifications.
    pub open spec fn groups(&self) -> Seq<GroupView> {
        group_views(self.report.groups@)
    }

    /// The rows of the list.
    pub open spec fn row_list(&self) -> Seq<Row> {
        self.rows@
    }

    /// The selected row, if any.
    pub open spec fn selection(&self) -> Option<usize> {
        self.list
    }

    /// The key of the check last selected, if any.
    pub open spec fn remembered(&self) -> Option<Seq<char>> {
        self.memory.remembered()
    }

    /// The verdicts of the last scan, by key.
    pub open spec fn verdicts(&self) -> Seq<(Seq<char>, Status)> {
        self.memory.verdicts()
    }

    /// The state the dashboard keeps: the rows are those of the report, the
    /// selection is a row, and each key has one verdict.
    pub open spec fn wf(&self) -> bool {
        &&& self.rows@ == rows_for(group_views(self.report.groups@))
        &&& (forall|i: int| 0 <= i < self.rows@.len() ==> row_valid(group_views(self.report.groups@), #[trigger] self.rows@[i]))
        &&& (self.list matches Some(i) ==> i < self.rows@.len())
        &&& self.memory.wf()
    }
}

/// `(x % n + 1) % n` is `(x + 1) % n`.
proof fn lemma_mod_step(x: int, n: int)
    requires
        0 <= x,
        0 < n,
    ensures
        ((x % n) + 1) % n == (x + 1) % n,
{
    vstd::arithmetic::div_mod::lemma_add_mod_noop_right(1, x, n);
}

/// A step inside the ring stays inside it.
proof fn lemma_stepped_in_range(start: int, k: nat, n: int, forward: bool)
    requires
        0 <= start < n,
    ensures
        0 <= stepped(start, k, n, forward) < n,
    decreases k,
{
    if k > 0 {
        lemma_stepped_in_range(start, (k - 1) as nat, n, forward);
        let prev = stepped(start, (k - 1) as nat, n, forward);
        if forward {
            assert(0 <= (prev + 1) % n < n) by (nonlinear_arith)
                requires n > 0;
        }
    }
}

/// The changes that are at most `CHANGE_LIFETIME_MS` old at `now`.
pub open spec fn fresh(changes: Seq<ChangeView>, now: u64) -> Seq<ChangeView>
    decreases changes.len(),
{
    if changes.len() == 0 {
        Seq::empty()
    } else {
        let rest = fresh(changes.drop_last(), now);
        let age = if now >= changes.last().at { now - changes.last().at } else { 0 };
        if age < CHANGE_LIFETIME_MS {
            rest.push(changes.last())
        } else {
            rest
        }
    }
}

/// `delta` added to `scroll`, kept within `0..=u16::MAX`.
pub open spec fn scrolled(scroll: u16, delta: i16) -> u16 {
    let v = scroll + delta;
    if v < 0 {
        0
    } else if v > u16::MAX {
        u16::MAX
    } else {
        v as u16
    }
}

impl App {
    /// A dashboard showing the report that stands before the first scan.
    pub fn new(project: Project, platform: Platform) -> (r: Self)
        ensures
            r.wf(),
            r.groups().len() == 0,
            r.row_list().len() == 0,
            r.selection() is None,
            r.remembered() is None,
            r.verdicts().len() == 0,
            r.detail_scroll == 0,
            !r.quit,
            r.scans == 0,
            r.last_scan is None,
            r.frame == 0,
            r.changes@.len() == 0,
            r.theme == theme_of(Mode::Dark),
            r.report.root@ == project@.root,
            r.report.test_project == project.test_project,
            r.report.platform@ == crate::checks::platform_name(platform),
            r.report.env@ == crate::env::empty_view(),
            r.dark_button == Rect::zero_spec(),
            r.light_button == Rect::zero_spec(),
    {
        let report = Report::pending(project, platform);
        let r = App {
            report,
            rows: Vec::new(),
            list: None,
            detail_scroll: 0,
            quit: false,
            scans: 0,
            last_scan: None,
            frame: 0,
            changes: Vec::new(),
            theme: Theme::dark(),
            dark_button: Rect::zero(),
            light_button: Rect::zero(),
            memory: Memory { statuses: Vec::new(), selected: None },
        };
        assert(r.rows@ =~= rows_for(group_views(r.report.groups@)));
        assert(entry_views(r.memory.statuses@) =~= Seq::<(Seq<char>, Status)>::empty());
        r
    }

    /// The rows are the report's, every row is valid, and so is the selection.
    pub proof fn lemma_wf(&self)
        requires
            self.wf(),
        ensures
            self.row_list() == rows_for(self.groups()),
            forall|i: int| 0 <= i < self.row_list().len() ==> row_valid(self.groups(), #[trigger] self.row_list()[i]),
            self.selection() matches Some(i) ==> i < self.row_list().len(),
    {
    }

    /// The key of the check a row shows, as `group title / check name`; none
    /// for a heading.
    pub fn key_of(&self, row: &Row) -> (r: Option<String>)
        requires
            row_valid(self.groups(), *row),
        ensures
            match r {
                Some(k) => row_key(self.groups(), *row) == Some(k@),
                None => row_key(self.groups(), *row) is None,
            },
    {
        match row {
            Row::Item { group, check } => {
                let g = &self.report.groups[*group];
                assert(self.groups()[*group as int].checks[*check as int] == g.checks@[*check as int]@);
                Some(cat3(g.title.as_str(), " / ", g.checks[*check].name.as_str()))
            },
            Row::Header { .. } => None,
        }
    }

    fn is_unmet(&self, row: &Row) -> (r: bool)
        requires
            row_valid(self.groups(), *row),
        ensures
            r == row_unmet(self.groups(), *row),
    {
        match row {
            Row::Item { group, check } => {
                assert(self.groups()[*group as int].checks[*check as int] == self.report.groups@[*group as int].checks@[*check as int]@);
                self.report.groups[*group].checks[*check].status == Status::Fail
            },
            Row::Header { .. } => false,
        }
    }

    /// Whether the check a row shows changed verdict recently.
    pub fn is_recent(&self, row: &Row) -> (r: bool)
        requires
            row_valid(self.groups(), *row),
        ensures
            r == (row_key(self.groups(), *row) matches Some(k) && exists|i: int|
                0 <= i < self.changes@.len() && (#[trigger] self.changes@[i]).label@ == k),
    {
        let key = match self.key_of(row) {
            Some(k) => k,
            None => {
                return false;
            },
        };
        let mut i: usize = 0;
        while i < self.changes.len()
            invariant
                i <= self.changes@.len(),
                row_key(self.groups(), *row) == Some(key@),
                forall|j: int| 0 <= j < i ==> (#[trigger] self.changes@[j]).label@ != key@,
            decreases self.changes@.len() - i,
        {
            if self.changes[i].label == key {
                assert(self.changes@[i as int].label@ == key@);
                return true;
            }
            i = i + 1;
        }
        false
    }

    fn row_of(&self, key: &String) -> (r: Option<usize>)
        requires
            self.wf(),
        ensures
            match r {
                Some(i) => first_keyed(self.groups(), self.row_list(), key@, 0) == Some(i as int),
                None => first_keyed(self.groups(), self.row_list(), key@, 0) is None,
            },
    {
        proof {
            self.lemma_wf();
        }
        let mut i: usize = 0;
        while i < self.rows.len()
            invariant
                self.wf(),
                i <= self.rows@.len(),
                forall|j: int| 0 <= j < self.row_list().len() ==> row_valid(self.groups(), #[trigger] self.row_list()[j]),
                first_keyed(self.groups(), self.row_list(), key@, 0) == first_keyed(self.groups(), self.row_list(), key@, i as int),
            decreases self.rows@.len() - i,
        {
            assert(row_valid(self.groups(), self.row_list()[i as int]));
            match self.key_of(&self.rows[i]) {
                Some(k) => {
                    if k == *key {
                        return Some(i);
                    }
                },
                None => {},
            }
            i = i + 1;
        }
        None
    }

    fn remember_selection(&mut self)
        requires
            old(self).wf(),
        ensures
            final(self).wf(),
            final(self).report == old(self).report,
            final(self).rows == old(self).rows,
            final(self).list == old(self).list,
            final(self).memory.verdicts() == old(self).memory.verdicts(),
            final(self).changes == old(self).changes,
            final(self).detail_scroll == old(self).detail_scroll,
            final(self).scans == old(self).scans,
            final(self).last_scan == old(self).last_scan,
            final(self).frame == old(self).frame,
            final(self).theme == old(self).theme,
            final(self).quit == old(self).quit,
            final(self).dark_button == old(self).dark_button,
            final(self).light_button == old(self).light_button,
            final(self).remembered() == match old(self).list {
                Some(i) => row_key(old(self).groups(), old(self).rows@[i as int]),
                None => None,
            },
    {
        proof {
            self.lemma_wf();
        }
        let key = match self.list {
            Some(i) => {
                assert(row_valid(self.groups(), self.row_list()[i as int]));
                self.key_of(&self.rows[i])
            },
            None => None,
        };
        self.memory.selected = key;
    }

    fn find_unmet(&self) -> (r: Option<usize>)
        requires
            self.wf(),
        ensures
            match r {
                Some(i) => first_unmet(self.groups(), self.row_list(), 0) == Some(i as int) && i < self.rows@.len(),
                None => first_unmet(self.groups(), self.row_list(), 0) is None,
            },
    {
        proof {
            self.lemma_wf();
        }
        let n = self.rows.len();
        let mut i: usize = 0;
        while i < n && !self.is_unmet(&self.rows[i])
            invariant
                n == self.rows@.len(),
                i <= n,
                forall|j: int| 0 <= j < self.row_list().len() ==> row_valid(self.groups(), #[trigger] self.row_list()[j]),
                first_unmet(self.groups(), self.row_list(), 0) == first_unmet(self.groups(), self.row_list(), i as int),
            decreases n - i,
        {
            i = i + 1;
        }
        if i < n {
            Some(i)
        } else {
            None
        }
    }

    fn find_item(&self) -> (r: Option<usize>)
        ensures
            match r {
                Some(i) => first_item(self.row_list(), 0) == Some(i as int) && i < self.rows@.len(),
                None => first_item(self.row_list(), 0) is None,
            },
    {
        let n = self.rows.len();
        let mut i: usize = 0;
        while i < n && !self.rows[i].is_item()
            invariant
                n == self.rows@.len(),
                i <= n,
                first_item(self.row_list(), 0) == first_item(self.row_list(), i as int),
            decreases n - i,
        {
            i = i + 1;
        }
        if i < n {
            Some(i)
        } else {
            None
        }
    }

    fn select_first_unmet(&mut self)
        requires
            old(self).wf(),
        ensures
            final(self).wf(),
            final(self).report == old(self).report,
            final(self).rows == old(self).rows,
            final(self).memory.verdicts() == old(self).memory.verdicts(),
            final(self).changes == old(self).changes,
            final(self).detail_scroll == old(self).detail_scroll,
            final(self).scans == old(self).scans,
            final(self).last_scan == old(self).last_scan,
            final(self).frame == old(self).frame,
            final(self).theme == old(self).theme,
            final(self).quit == old(self).quit,
            final(self).dark_button == old(self).dark_button,
            final(self).light_button == old(self).light_button,
            match final(self).list {
                Some(i) => default_selection(old(self).groups(), old(self).row_list()) == Some(i as int)
                    && final(self).remembered() == row_key(old(self).groups(), old(self).rows@[i as int]),
                None => default_selection(old(self).groups(), old(self).row_list()) is None
                    && final(self).remembered() is None,
            },
    {
        proof {
            self.lemma_wf();
        }
        let target = match self.find_unmet() {
            Some(i) => Some(i),
            None => self.find_item(),
        };
        self.list = target;
        self.remember_selection();
    }
}

/// Whether `b` keeps everything of `a` that a change of selection leaves
/// alone: the report and its rows, the verdicts, the changes, the scans,
/// the frame, the theme and its buttons, and whether to quit.
pub open spec fn keeps_scan(a: App, b: App) -> bool {
    &&& b.report == a.report
    &&& b.rows == a.rows
    &&& b.memory.verdicts() == a.memory.verdicts()
    &&& b.changes == a.changes
    &&& b.scans == a.scans
    &&& b.last_scan == a.last_scan
    &&& b.frame == a.frame
    &&& b.theme == a.theme
    &&& b.quit == a.quit
    &&& b.dark_button == a.dark_button
    &&& b.light_button == a.light_button
}

/// The check a selection shows, if it shows one.
pub open spec fn selected_view(groups: Seq<GroupView>, rows: Seq<Row>, list: Option<usize>) -> Option<CheckView> {
    match list {
        Some(i) => match rows[i as int] {
            Row::Item { group, check } => Some(groups[group as int].checks[check as int]),
            Row::Header { .. } => None,
        },
        None => None,
    }
}

impl App {
    /// The check the selected row shows, if it shows one.
    pub fn selected_check(&self) -> (r: Option<&Check>)
        requires
            self.wf(),
        ensures
            match r {
                Some(c) => selected_view(self.groups(), self.row_list(), self.list) == Some(c@),
                None => selected_view(self.groups(), self.row_list(), self.list) is None,
            },
    {
        match self.list {
            Some(i) => {
                assert(row_valid(self.groups(), self.rows@[i as int]));
                match &self.rows[i] {
                    Row::Item { group, check } => {
                        assert(self.groups()[*group as int].checks[*check as int] == self.report.groups@[*group as int].checks@[*check as int]@);
                        Some(&self.report.groups[*group].checks[*check])
                    },
                    Row::Header { .. } => None,
                }
            },
            None => None,
        }
    }

    /// Moves the selection to the next check (`forward`) or the one before,
    /// going round the list and skipping headings. With nothing selected, the
    /// first unmet check, or else the first check, is selected.
    pub fn move_selection(&mut self, forward: bool)
        requires
            old(self).wf(),
        ensures
            final(self).wf(),
            keeps_scan(*old(self), *final(self)),
            match old(self).list {
                None => (match final(self).list {
                    Some(i) => default_selection(old(self).groups(), old(self).row_list()) == Some(i as int)
                        && final(self).remembered() == row_key(old(self).groups(), old(self).rows@[i as int]),
                    None => default_selection(old(self).groups(), old(self).row_list()) is None
                        && final(self).remembered() is None,
                }) && final(self).detail_scroll == old(self).detail_scroll,
                Some(current) => match next_item(old(self).row_list(), current as int, forward, 1) {
                    Some(i) => final(self).list == Some(i as usize) && final(self).detail_scroll == 0
                        && final(self).remembered() == row_key(old(self).groups(), old(self).rows@[i]),
                    None => final(self).list == old(self).list && final(self).detail_scroll == old(self).detail_scroll
                        && final(self).remembered() == old(self).remembered(),
                },
            },
    {
        let current = match self.list {
            Some(c) => c,
            None => {
                self.select_first_unmet();
                return;
            },
        };
        let n = self.rows.len();
        let mut index = current;
        let mut k: usize = 1;
        while k < n
            invariant
                n == self.rows@.len(),
                current < n,
                1 <= k <= n,
                index == stepped(current as int, (k - 1) as nat, n as int, forward),
                *self == *old(self),
                old(self).wf(),
                old(self).list == Some(current),
                next_item(self.row_list(), current as int, forward, 1) == next_item(self.row_list(), current as int, forward, k as nat),
            decreases n - k,
        {
            proof {
                lemma_stepped_in_range(current as int, (k - 1) as nat, n as int, forward);
            }
            index = if forward {
                (index + 1) % n
            } else if index == 0 {
                n - 1
            } else {
                index - 1
            };
            assert(index == stepped(current as int, k as nat, n as int, forward));
            proof {
                lemma_stepped_in_range(current as int, k as nat, n as int, forward);
            }
            if self.rows[index].is_item() {
                self.list = Some(index);
                self.detail_scroll = 0;
                self.remember_selection();
                return;
            }
            k = k + 1;
        }
    }

    /// Selects the next unmet check after the selected row (or after the
    /// first row, with nothing selected), going round the list once.
    pub fn jump_to_next_unmet(&mut self)
        requires
            old(self).wf(),
        ensures
            final(self).wf(),
            keeps_scan(*old(self), *final(self)),
            match next_unmet(
                old(self).groups(),
                old(self).row_list(),
                match old(self).list {
                    Some(i) => i as int,
                    None => 0,
                },
                1,
            ) {
                Some(i) => final(self).list == Some(i as usize) && final(self).detail_scroll == 0
                    && final(self).remembered() == row_key(old(self).groups(), old(self).rows@[i]),
                None => final(self).list == old(self).list && final(self).detail_scroll == old(self).detail_scroll
                    && final(self).remembered() == old(self).remembered(),
            },
    {
        let n = self.rows.len();
        if n == 0 {
            return;
        }
        let start = match self.list {
            Some(i) => i,
            None => 0,
        };
        let mut index = start;
        let mut k: usize = 0;
        proof {
            vstd::arithmetic::div_mod::lemma_small_mod(start as nat, n as nat);
        }
        while k < n
            invariant
                n == self.rows@.len(),
                n > 0,
                start < n,
                k <= n,
                index == (start + k) % (n as int),
                *self == *old(self),
                old(self).wf(),
                start == match old(self).list {
                    Some(i) => i as int,
                    None => 0,
                },
                next_unmet(self.groups(), self.row_list(), start as int, 1) == next_unmet(self.groups(), self.row_list(), start as int, k + 1),
            decreases n - k,
        {
            proof {
                lemma_mod_step(start + k, n as int);
                assert(0 <= index < n) by (nonlinear_arith)
                    requires index == (start + k) % (n as int), n > 0, start + k >= 0;
            }
            index = (index + 1) % n;
            assert(0 <= index < n) by (nonlinear_arith)
                requires index == (start + k + 1) % (n as int), n > 0, start + k + 1 >= 0;
            assert(row_valid(self.groups(), self.rows@[index as int]));
            if self.is_unmet(&self.rows[index]) {
                self.list = Some(index);
                self.detail_scroll = 0;
                self.remember_selection();
                return;
            }
            k = k + 1;
        }
    }

    /// Scrolls the detail pane by `delta` rows, staying within `0..=u16::MAX`.
    pub fn scroll_detail(&mut self, delta: i16)
        ensures
            final(self).detail_scroll == scrolled(old(self).detail_scroll, delta),
            final(self).report == old(self).report,
            final(self).rows == old(self).rows,
            final(self).list == old(self).list,
            final(self).memory == old(self).memory,
            final(self).changes == old(self).changes,
            final(self).theme == old(self).theme,
    {
        let v = self.detail_scroll as i32 + delta as i32;
        self.detail_scroll = if v < 0 {
            0
        } else if v > 0xffff {
            0xffff
        } else {
            v as u16
        };
    }

    /// Keeps the detail pane's scroll within `limit`.
    pub fn limit_detail_scroll(&mut self, limit: u16)
        ensures
            final(self).detail_scroll == if old(self).detail_scroll > limit {
                limit
            } else {
                old(self).detail_scroll
            },
            final(self).report == old(self).report,
            final(self).rows == old(self).rows,
            final(self).list == old(self).list,
            final(self).memory == old(self).memory,
            final(self).changes == old(self).changes,
            final(self).theme == old(self).theme,
    {
        if self.detail_scroll > limit {
            self.detail_scroll = limit;
        }
    }

    /// Switches to the other theme.
    pub fn toggle_theme(&mut self)
        ensures
            final(self).theme == theme_of(other(old(self).theme.mode)),
            final(self).report == old(self).report,
            final(self).rows == old(self).rows,
            final(self).list == old(self).list,
            final(self).memory == old(self).memory,
            final(self).changes == old(self).changes,
    {
        self.theme = self.theme.flipped();
    }

    /// A click at `column`, `row`: on the Dark or the Light button it shows
    /// that theme; elsewhere nothing changes.
    pub fn click(&mut self, column: u16, row: u16)
        ensures
            final(self).theme == if old(self).dark_button.contains_spec(column, row) {
                theme_of(Mode::Dark)
            } else if old(self).light_button.contains_spec(column, row) {
                theme_of(Mode::Light)
            } else {
                old(self).theme
            },
            final(self).report == old(self).report,
            final(self).rows == old(self).rows,
            final(self).list == old(self).list,
            final(self).memory == old(self).memory,
            final(self).changes == old(self).changes,
            final(self).dark_button == old(self).dark_button,
            final(self).light_button == old(self).light_button,
    {
        if self.dark_button.contains(column, row) {
            self.theme = Theme::of(Mode::Dark);
        } else if self.light_button.contains(column, row) {
            self.theme = Theme::of(Mode::Light);
        }
    }
}

/// A row found by key lies in the list.
proof fn lemma_first_keyed_bounds(groups: Seq<GroupView>, rows: Seq<Row>, key: Seq<char>, i: int)
    requires
        0 <= i,
    ensures
        first_keyed(groups, rows, key, i) matches Some(k) ==> i <= k < rows.len(),
    decreases rows.len() - i,
{
    if i < rows.len() {
        lemma_first_keyed_bounds(groups, rows, key, i + 1);
    }
}

/// The changes `apply` records: none on the first scan, otherwise every
/// check whose verdict differs from the one the last scan saw.
pub open spec fn recorded_changes(old: Seq<(Seq<char>, Status)>, new: Seq<(Seq<char>, Status)>, at: u64) -> Seq<ChangeView> {
    if old.len() > 0 {
        changes_from(old, new, at, 0)
    } else {
        Seq::empty()
    }
}

/// The verdicts a report gives, by key.
pub open spec fn verdicts_of(groups: Seq<GroupView>) -> Seq<(Seq<char>, Status)> {
    collected(keyed(groups))
}

impl App {
    fn lookup_verdict(&self, key: &String) -> (r: Option<Status>)
        requires
            self.memory.wf(),
        ensures
            r == lookup(self.memory.verdicts(), key@),
    {
        match position_of(&self.memory.statuses, key) {
            Some(j) => {
                proof {
                    lemma_position(entry_views(self.memory.statuses@), key@, 0);
                }
                Some(self.memory.statuses[j].1)
            },
            None => None,
        }
    }

    /// Takes in the report of a new scan, seen at `now`: records the checks
    /// whose verdict changed, shows the new report, and keeps the selection
    /// on the same check if it is still there, or else selects the first
    /// unmet check (or the first check).
    #[verifier::loop_isolation(false)]
    pub fn apply(&mut self, report: Report, now: u64)
        requires
            old(self).wf(),
            old(self).scans < u64::MAX,
        ensures
            final(self).wf(),
            final(self).report == report,
            final(self).rows@ == rows_for(group_views(report.groups@)),
            final(self).verdicts() == verdicts_of(group_views(report.groups@)),
            change_views(final(self).changes@) == change_views(old(self).changes@) + recorded_changes(
                old(self).verdicts(),
                verdicts_of(group_views(report.groups@)),
                now,
            ),
            final(self).scans == old(self).scans + 1,
            final(self).last_scan == Some(now),
            final(self).detail_scroll == old(self).detail_scroll,
            final(self).frame == old(self).frame,
            final(self).theme == old(self).theme,
            final(self).quit == old(self).quit,
            final(self).dark_button == old(self).dark_button,
            final(self).light_button == old(self).light_button,
            match old(self).remembered() {
                Some(k) => match first_keyed(group_views(report.groups@), rows_for(group_views(report.groups@)), k, 0) {
                    Some(i) => final(self).list == Some(i as usize) && final(self).remembered() == Some(k),
                    None => match final(self).list {
                        Some(i) => default_selection(group_views(report.groups@), rows_for(group_views(report.groups@))) == Some(i as int)
                            && final(self).remembered() == row_key(group_views(report.groups@), rows_for(group_views(report.groups@))[i as int]),
                        None => default_selection(group_views(report.groups@), rows_for(group_views(report.groups@))) is None
                            && final(self).remembered() is None,
                    },
                },
                None => match final(self).list {
                    Some(i) => default_selection(group_views(report.groups@), rows_for(group_views(report.groups@))) == Some(i as int)
                        && final(self).remembered() == row_key(group_views(report.groups@), rows_for(group_views(report.groups@))[i as int]),
                    None => default_selection(group_views(report.groups@), rows_for(group_views(report.groups@))) is None
                        && final(self).remembered() is None,
                },
            },
    {
        let statuses = collect_statuses(&report);
        let ghost old_v = self.memory.verdicts();
        let ghost new_v = entry_views(statuses@);
        let ghost old_changes = change_views(self.changes@);
        if self.memory.statuses.len() > 0 {
            let mut i: usize = 0;
            while i < statuses.len()
                invariant
                    i <= statuses@.len(),
                    self.memory == old(self).memory,
                    self.memory.wf(),
                    self.scans == old(self).scans,
                    self.detail_scroll == old(self).detail_scroll,
                    self.frame == old(self).frame,
                    self.theme == old(self).theme,
                    self.quit == old(self).quit,
                    self.dark_button == old(self).dark_button,
                    self.light_button == old(self).light_button,
                    old_v == self.memory.verdicts(),
                    new_v == entry_views(statuses@),
                    change_views(self.changes@) + changes_from(old_v, new_v, now, i as int) == old_changes + changes_from(old_v, new_v, now, 0),
                decreases statuses@.len() - i,
            {
                let key = &statuses[i].0;
                let status = statuses[i].1;
                let ghost before = change_views(self.changes@);
                match self.lookup_verdict(key) {
                    Some(previous) => {
                        if previous != status {
                            self.changes.push(Change { label: key.clone(), from: previous, to: status, at: now });
                            assert(change_views(self.changes@) =~= before.push(ChangeView { label: key@, from: previous, to: status, at: now }));
                            assert(before + changes_from(old_v, new_v, now, i as int) =~= change_views(self.changes@) + changes_from(old_v, new_v, now, i + 1));
                        }
                    },
                    None => {},
                }
                i = i + 1;
            }
            assert(changes_from(old_v, new_v, now, i as int) =~= Seq::<ChangeView>::empty());
        } else {
            assert(old_v.len() == 0);
        }
        assert(change_views(self.changes@) =~= old_changes + recorded_changes(old_v, new_v, now));
        let remembered = match &self.memory.selected {
            Some(k) => Some(k.clone()),
            None => None,
        };
        self.report = report;
        self.memory.statuses = statuses;
        self.rows = build_rows(&self.report);
        self.list = None;
        self.scans = self.scans + 1;
        self.last_scan = Some(now);
        match remembered {
            Some(key) => match self.row_of(&key) {
                Some(index) => {
                    proof {
                        lemma_first_keyed_bounds(self.groups(), self.row_list(), key@, 0);
                    }
                    self.list = Some(index);
                },
                None => {
                    self.select_first_unmet();
                },
            },
            None => {
                self.select_first_unmet();
            },
        }
    }

    /// A tick of the clock at `now`: advances the animation frame, forgets
    /// the changes older than `CHANGE_LIFETIME_MS`, then takes in the
    /// report of the latest scan, if one came.
    pub fn tick(&mut self, now: u64, latest: Option<Report>)
        requires
            old(self).wf(),
            latest is Some ==> old(self).scans < u64::MAX,
        ensures
            final(self).wf(),
            final(self).frame == if old(self).frame == usize::MAX { 0 } else { old(self).frame + 1 },
            latest is None ==> change_views(final(self).changes@) == fresh(change_views(old(self).changes@), now),
            latest is None ==> final(self).report == old(self).report && final(self).rows == old(self).rows
                && final(self).list == old(self).list && final(self).scans == old(self).scans,
            latest matches Some(r) ==> final(self).report == r && final(self).scans == old(self).scans + 1
                && final(self).last_scan == Some(now)
                && change_views(final(self).changes@) == fresh(change_views(old(self).changes@), now) + recorded_changes(
                    old(self).verdicts(),
                    verdicts_of(group_views(r.groups@)),
                    now,
                ),
    {
        self.frame = self.frame.wrapping_add(1);
        let mut kept: Vec<Change> = Vec::new();
        let ghost all = change_views(self.changes@);
        let mut i: usize = 0;
        while i < self.changes.len()
            invariant
                i <= self.changes@.len(),
                all == change_views(self.changes@),
                change_views(kept@) == fresh(all.take(i as int), now),
            decreases self.changes@.len() - i,
        {
            let at = self.changes[i].at;
            let age = if now >= at { now - at } else { 0 };
            assert(all.take(i + 1).drop_last() =~= all.take(i as int));
            if age < CHANGE_LIFETIME_MS {
                let c = &self.changes[i];
                let ghost before = change_views(kept@);
                kept.push(Change { label: c.label.clone(), from: c.from, to: c.to, at: c.at });
                assert(change_views(kept@) =~= before.push(all[i as int]));
            }
            i = i + 1;
        }
        assert(all.take(i as int) =~= all);
        self.changes = kept;
        match latest {
            Some(report) => self.apply(report, now),
            None => {},
        }
    }
}

/// The default selection, and any row reached by moving the selection, is a
/// check and not a heading.
pub proof fn law_selection_lands_on_checks(groups: Seq<GroupView>, rows: Seq<Row>, start: int, forward: bool)
    requires
        0 <= start < rows.len(),
    ensures
        default_selection(groups, rows) matches Some(i) ==> 0 <= i < rows.len() && rows[i] is Item,
        next_item(rows, start, forward, 1) matches Some(i) ==> 0 <= i < rows.len() && rows[i] is Item,
{
    lemma_first_unmet(groups, rows, 0);
    lemma_first_item(rows, 0);
    lemma_next_item(rows, start, forward, 1);
}

proof fn lemma_first_unmet(groups: Seq<GroupView>, rows: Seq<Row>, i: int)
    requires
        0 <= i,
    ensures
        first_unmet(groups, rows, i) matches Some(k) ==> i <= k < rows.len() && rows[k] is Item,
    decreases rows.len() - i,
{
    if i < rows.len() {
        lemma_first_unmet(groups, rows, i + 1);
    }
}

proof fn lemma_first_item(rows: Seq<Row>, i: int)
    requires
        0 <= i,
    ensures
        first_item(rows, i) matches Some(k) ==> i <= k < rows.len() && rows[k] is Item,
    decreases rows.len() - i,
{
    if i < rows.len() {
        lemma_first_item(rows, i + 1);
    }
}

proof fn lemma_next_item(rows: Seq<Row>, start: int, forward: bool, k: nat)
    requires
        0 <= start < rows.len(),
    ensures
        next_item(rows, start, forward, k) matches Some(i) ==> 0 <= i < rows.len() && rows[i] is Item,
    decreases rows.len() - k,
{
    if k < rows.len() {
        lemma_stepped_in_range(start, k, rows.len() as int, forward);
        lemma_next_item(rows, start, forward, k + 1);
    }
}

/// With unique keys, looking up an entry's key finds that entry.
proof fn lemma_lookup_own(entries: Seq<(Seq<char>, Status)>, i: int, from: int)
    requires
        unique_keys(entries),
        0 <= from <= i < entries.len(),
    ensures
        position(entries, entries[i].0, from) == Some(i),
    decreases i - from,
{
    if from < i {
        assert(entries[from].0 != entries[i].0);
        lemma_lookup_own(entries, i, from + 1);
    }
}

/// A scan that finds the verdicts the last one found records no change.
pub proof fn law_same_verdicts_no_change(verdicts: Seq<(Seq<char>, Status)>, at: u64)
    requires
        unique_keys(verdicts),
    ensures
        recorded_changes(verdicts, verdicts, at).len() == 0,
{
    lemma_no_change_from(verdicts, at, 0);
}

proof fn lemma_no_change_from(verdicts: Seq<(Seq<char>, Status)>, at: u64, i: int)
    requires
        unique_keys(verdicts),
        0 <= i,
    ensures
        changes_from(verdicts, verdicts, at, i).len() == 0,
    decreases verdicts.len() - i,
{
    if i < verdicts.len() {
        lemma_lookup_own(verdicts, i, 0);
        lemma_no_change_from(verdicts, at, i + 1);
    }
}

/// Every recorded change names a check of the new scan, goes from the
/// verdict the last scan saw for it to the one the new scan found, and the
/// two differ.
pub proof fn law_changes_are_real(old: Seq<(Seq<char>, Status)>, new: Seq<(Seq<char>, Status)>, at: u64, i: int)
    requires
        0 <= i,
    ensures
        forall|k: int| 0 <= k < changes_from(old, new, at, i).len() ==> {
            let c = #[trigger] changes_from(old, new, at, i)[k];
            &&& lookup(old, c.label) == Some(c.from)
            &&& exists|j: int| i <= j < new.len() && new[j] == (c.label, c.to)
            &&& c.from != c.to
            &&& c.at == at
        },
    decreases new.len() - i,
{
    if i < new.len() {
        law_changes_are_real(old, new, at, i + 1);
        let rest = changes_from(old, new, at, i + 1);
        let all = changes_from(old, new, at, i);
        assert forall|k: int| 0 <= k < all.len() implies {
            let c = #[trigger] all[k];
            &&& lookup(old, c.label) == Some(c.from)
            &&& exists|j: int| i <= j < new.len() && new[j] == (c.label, c.to)
            &&& c.from != c.to
            &&& c.at == at
        } by {
            if all.len() > rest.len() {
                if k > 0 {
                    assert(all[k] == rest[k - 1]);
                    let c = rest[k - 1];
                    let j = choose|j: int| i + 1 <= j < new.len() && new[j] == (c.label, c.to);
                    assert(i <= j < new.len() && new[j] == (c.label, c.to));
                } else {
                    assert(new[i] == (all[0].label, all[0].to));
                }
            } else {
                assert(all[k] == rest[k]);
                let c = rest[k];
                let j = choose|j: int| i + 1 <= j < new.len() && new[j] == (c.label, c.to);
                assert(i <= j < new.len() && new[j] == (c.label, c.to));
            }
        }
    }
}

/// The changes a tick keeps are those younger than the lifetime.
pub proof fn law_fresh_changes_are_young(changes: Seq<ChangeView>, now: u64)
    ensures
        forall|k: int| 0 <= k < fresh(changes, now).len() ==> {
            let c = #[trigger] fresh(changes, now)[k];
            (if now >= c.at { now - c.at } else { 0 }) < CHANGE_LIFETIME_MS
        },
        fresh(changes, now).len() <= changes.len(),
    decreases changes.len(),
{
    if changes.len() > 0 {
        law_fresh_changes_are_young(changes.drop_last(), now);
    }
}


/// What `next_unmet` finds from offset `k` on: the row at the first offset
/// from `k` to `n` that is an unmet check, or nothing when none of those is.
proof fn lemma_next_unmet(groups: Seq<GroupView>, rows: Seq<Row>, start: int, k: int)
    requires
        1 <= k,
    ensures
        match next_unmet(groups, rows, start, k) {
            Some(j) => exists|d: int|
                k <= d <= rows.len() && j == (start + d) % (rows.len() as int)
                    && #[trigger] row_unmet(groups, rows[(start + d) % (rows.len() as int)])
                    && forall|e: int| k <= e < d ==> !#[trigger] row_unmet(groups, rows[(start + e) % (rows.len() as int)]),
            None => forall|d: int| k <= d <= rows.len()
                ==> !#[trigger] row_unmet(groups, rows[(start + d) % (rows.len() as int)]),
        },
    decreases rows.len() + 1 - k,
{
    if k <= rows.len() {
        lemma_next_unmet(groups, rows, start, k + 1);
        if !row_unmet(groups, rows[(start + k) % (rows.len() as int)]) {
            match next_unmet(groups, rows, start, k + 1) {
                Some(j) => {
                    let d = choose|d: int|
                        k + 1 <= d <= rows.len() && j == (start + d) % (rows.len() as int)
                            && #[trigger] row_unmet(groups, rows[(start + d) % (rows.len() as int)])
                            && forall|e: int| k + 1 <= e < d ==> !#[trigger] row_unmet(groups, rows[(start + e) % (rows.len() as int)]);
                    assert(k <= d <= rows.len() && j == (start + d) % (rows.len() as int)
                        && row_unmet(groups, rows[(start + d) % (rows.len() as int)]));
                    assert forall|e: int| k <= e < d implies !#[trigger] row_unmet(groups, rows[(start + e) % (rows.len() as int)]) by {
                        if e > k {
                            assert(k + 1 <= e < d);
                        }
                    }
                },
                None => {},
            }
        }
    }
}

/// Jumping to the next unmet check lands on the first unmet check met going
/// round the list from the row after `start`: the row at some offset `d`
/// (from 1 to the number of rows) that is an unmet check, with no unmet
/// check at a smaller offset; and it stays put only when no row is one.
pub proof fn law_jump_finds_nearest_unmet(groups: Seq<GroupView>, rows: Seq<Row>, start: int)
    ensures
        match next_unmet(groups, rows, start, 1) {
            Some(j) => exists|d: int|
                1 <= d <= rows.len() && j == (start + d) % (rows.len() as int)
                    && #[trigger] row_unmet(groups, rows[(start + d) % (rows.len() as int)])
                    && forall|e: int| 1 <= e < d ==> !#[trigger] row_unmet(groups, rows[(start + e) % (rows.len() as int)]),
            None => forall|d: int| 1 <= d <= rows.len()
                ==> !#[trigger] row_unmet(groups, rows[(start + d) % (rows.len() as int)]),
        },
{
    lemma_next_unmet(groups, rows, start, 1);
}

/// Completeness of the recorded changes, from entry `i` of `new` on.
proof fn lemma_changes_complete(old: Seq<(Seq<char>, Status)>, new: Seq<(Seq<char>, Status)>, at: u64, i: int)
    requires
        0 <= i,
    ensures
        forall|k: int| i <= k < new.len() && (#[trigger] lookup(old, new[k].0)) is Some
            && lookup(old, new[k].0)->0 != new[k].1
            ==> exists|j: int| 0 <= j < changes_from(old, new, at, i).len()
                && #[trigger] changes_from(old, new, at, i)[j]
                    == (ChangeView { label: new[k].0, from: lookup(old, new[k].0)->0, to: new[k].1, at }),
    decreases new.len() - i,
{
    if i < new.len() {
        lemma_changes_complete(old, new, at, i + 1);
        let rest = changes_from(old, new, at, i + 1);
        let all = changes_from(old, new, at, i);
        assert forall|k: int| i <= k < new.len() && (#[trigger] lookup(old, new[k].0)) is Some
            && lookup(old, new[k].0)->0 != new[k].1
            implies exists|j: int| 0 <= j < all.len()
                && #[trigger] all[j] == (ChangeView { label: new[k].0, from: lookup(old, new[k].0)->0, to: new[k].1, at }) by {
            let c = ChangeView { label: new[k].0, from: lookup(old, new[k].0)->0, to: new[k].1, at };
            if k == i {
                assert(all[0] == c);
            } else {
                let j = choose|j: int| 0 <= j < rest.len() && #[trigger] rest[j] == c;
                if all.len() > rest.len() {
                    assert(all[j + 1] == rest[j]);
                } else {
                    assert(all[j] == rest[j]);
                }
            }
        }
    }
}

/// After a first scan, every check of the new scan whose key the last scan
/// saw with another verdict has a change recorded: its key, the verdict the
/// last scan saw and the one the new scan found.
pub proof fn law_changes_are_complete(old: Seq<(Seq<char>, Status)>, new: Seq<(Seq<char>, Status)>, at: u64)
    requires
        old.len() > 0,
    ensures
        forall|k: int| 0 <= k < new.len() && (#[trigger] lookup(old, new[k].0)) is Some
            && lookup(old, new[k].0)->0 != new[k].1
            ==> exists|j: int| 0 <= j < recorded_changes(old, new, at).len()
                && #[trigger] recorded_changes(old, new, at)[j]
                    == (ChangeView { label: new[k].0, from: lookup(old, new[k].0)->0, to: new[k].1, at }),
{
    lemma_changes_complete(old, new, at, 0);
    let all = recorded_changes(old, new, at);
    assert(all == changes_from(old, new, at, 0));
    assert forall|k: int| 0 <= k < new.len() && (#[trigger] lookup(old, new[k].0)) is Some
        && lookup(old, new[k].0)->0 != new[k].1
        implies exists|j: int| 0 <= j < all.len()
            && #[trigger] all[j] == (ChangeView { label: new[k].0, from: lookup(old, new[k].0)->0, to: new[k].1, at }) by {
        let c = ChangeView { label: new[k].0, from: lookup(old, new[k].0)->0, to: new[k].1, at };
        let j = choose|j: int| 0 <= j < changes_from(old, new, at, 0).len() && #[trigger] changes_from(old, new, at, 0)[j] == c;
        assert(all[j] == c);
    }
}

/// The recorded changes, from entry `i` of `new` on, come in the order of
/// `new`: of two changes, the earlier names a check that comes earlier.
pub proof fn law_changes_in_scan_order(old: Seq<(Seq<char>, Status)>, new: Seq<(Seq<char>, Status)>, at: u64, i: int)
    requires
        0 <= i,
    ensures
        forall|a: int, b: int| #![trigger changes_from(old, new, at, i)[a], changes_from(old, new, at, i)[b]]
            0 <= a < b < changes_from(old, new, at, i).len() ==>
            exists|ka: int, kb: int| #![trigger new[ka], new[kb]]
                i <= ka < kb < new.len()
                    && new[ka] == (changes_from(old, new, at, i)[a].label, changes_from(old, new, at, i)[a].to)
                    && new[kb] == (changes_from(old, new, at, i)[b].label, changes_from(old, new, at, i)[b].to),
    decreases new.len() - i,
{
    if i < new.len() {
        law_changes_in_scan_order(old, new, at, i + 1);
        law_changes_are_real(old, new, at, i + 1);
        let rest = changes_from(old, new, at, i + 1);
        let all = changes_from(old, new, at, i);
        assert forall|a: int, b: int| #![trigger all[a], all[b]] 0 <= a < b < all.len() implies
            exists|ka: int, kb: int| #![trigger new[ka], new[kb]]
                i <= ka < kb < new.len()
                    && new[ka] == (all[a].label, all[a].to)
                    && new[kb] == (all[b].label, all[b].to) by {
            if all.len() > rest.len() {
                assert(all[b] == rest[b - 1]);
                let cb = rest[b - 1];
                let kb = choose|j: int| i + 1 <= j < new.len() && new[j] == (cb.label, cb.to);
                if a == 0 {
                    assert(new[i] == (all[0].label, all[0].to));
                    assert(i <= i < kb < new.len() && new[i] == (all[a].label, all[a].to) && new[kb] == (all[b].label, all[b].to));
                } else {
                    assert(all[a] == rest[a - 1]);
                    let (ka, kb2) = choose|ka: int, kb: int| #![trigger new[ka], new[kb]]
                        i + 1 <= ka < kb < new.len()
                            && new[ka] == (rest[a - 1].label, rest[a - 1].to)
                            && new[kb] == (rest[b - 1].label, rest[b - 1].to);
                    assert(i <= ka < kb2 < new.len() && new[ka] == (all[a].label, all[a].to) && new[kb2] == (all[b].label, all[b].to));
                }
            } else {
                assert(all[a] == rest[a]);
                assert(all[b] == rest[b]);
                let (ka, kb) = choose|ka: int, kb: int| #![trigger new[ka], new[kb]]
                    i + 1 <= ka < kb < new.len()
                        && new[ka] == (rest[a].label, rest[a].to)
                        && new[kb] == (rest[b].label, rest[b].to);
                assert(i <= ka < kb < new.len() && new[ka] == (all[a].label, all[a].to) && new[kb] == (all[b].label, all[b].to));
            }
        }
    }
}

} // verus!
