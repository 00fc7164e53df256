//! Where things go on the screen and what each part shows, in whole cells.

use vstd::prelude::*;
use vstd::view::View as _;
use crate::app::AppState;
use crate::bench::TestKind;
use crate::settings::{self, Settings, SettingsField};
use crate::text::{repeat, repeat_str};

verus! {

/// A rectangle of terminal cells.
#[derive(Debug, Clone, Copy, PartialEq, Eq, Structural)]
pub struct Rect {
    pub x: u16,
    pub y: u16,
    pub width: u16,
    pub height: u16,
}

impl Rect {
    /// The rectangle lies within the coordinate range of the terminal.
    pub open spec fn valid(self) -> bool {
        self.x + self.width <= u16::MAX && self.y + self.height <= u16::MAX
    }

    pub open spec fn contains_rect(self, inner: Rect) -> bool {
        &&& self.x <= inner.x
        &&& self.y <= inner.y
        &&& inner.x + inner.width <= self.x + self.width
        &&& inner.y + inner.height <= self.y + self.height
    }
}

/// The widest the screen is drawn when not in fullscreen.
pub const MAX_WIDTH: u16 = 76;
/// The tallest the screen is drawn when not in fullscreen.
pub const MAX_HEIGHT: u16 = 24;

pub open spec fn min_u16(a: u16, b: u16) -> u16 {
    if a < b { a } else { b }
}

/// A box of at most `max_width` by `max_height` cells, centred in `area`.
pub fn centered_box(area: Rect, max_width: u16, max_height: u16) -> (res: Rect)
    requires
        area.valid(),
    ensures
        res.width == min_u16(max_width, area.width),
        res.height == min_u16(max_height, area.height),
        res.x == area.x + (area.width - res.width) / 2,
        res.y == area.y + (area.height - res.height) / 2,
        area.contains_rect(res),
{
    let w = if max_width < area.width { max_width } else { area.width };
    let h = if max_height < area.height { max_height } else { area.height };
    let x = area.x + (area.width - w) / 2;
    let y = area.y + (area.height - h) / 2;
    Rect { x, y, width: w, height: h }
}

/// A box of the results screen: a title and the tests it shows, one row each.
pub struct Section {
    pub title: &'static str,
    pub tests: Vec<TestKind>,
}

/// The height of a box of `n` tests: its border, a blank row, and two rows
/// per test.
pub open spec fn section_height(n: nat) -> int {
    2 + 1 + 2 * (n as int)
}

pub open spec fn sequential_part(s: Seq<TestKind>, sequential: bool) -> Seq<TestKind>
    decreases s.len(),
{
    if s.len() == 0 {
        seq![]
    } else {
        let rest = sequential_part(s.drop_last(), sequential);
        if s.last().spec_is_sequential() == sequential { rest.push(s.last()) } else { rest }
    }
}

proof fn lemma_sequential_part_len(s: Seq<TestKind>, sequential: bool)
    ensures
        sequential_part(s, sequential).len() <= s.len(),
    decreases s.len(),
{
    if s.len() > 0 {
        lemma_sequential_part_len(s.drop_last(), sequential);
    }
}

fn part(tests: &Vec<TestKind>, sequential: bool) -> (res: Vec<TestKind>)
    ensures
        res@ == sequential_part(tests@, sequential),
{
    let mut res: Vec<TestKind> = Vec::new();
    let mut i: usize = 0;
    while i < tests.len()
        invariant
            i <= tests@.len(),
            res@ == sequential_part(tests@.take(i as int), sequential),
        decreases tests@.len() - i,
    {
        assert(tests@.take(i + 1).drop_last() =~= tests@.take(i as int));
        if tests[i].is_sequential() == sequential {
            res.push(tests[i]);
        }
        i = i + 1;
    }
    assert(tests@.take(i as int) =~= tests@);
    res
}

/// The boxes of the results screen: the sequential tests, then the random
/// ones, each box shown only when it has tests.
pub open spec fn spec_sections(enabled: Seq<TestKind>) -> Seq<(Seq<char>, Seq<TestKind>)> {
    let seq_part = sequential_part(enabled, true);
    let rnd_part = sequential_part(enabled, false);
    (if seq_part.len() > 0 { seq![(" Sequential "@, seq_part)] } else { seq![] })
        + (if rnd_part.len() > 0 { seq![(" Random 4K "@, rnd_part)] } else { seq![] })
}

pub open spec fn section_text(s: Section) -> (Seq<char>, Seq<TestKind>) {
    (s.title@, s.tests@)
}

pub fn benchmark_sections(enabled: &Vec<TestKind>) -> (res: Vec<Section>)
    ensures
        res@.map_values(|s: Section| section_text(s)) == spec_sections(enabled@),
        forall|i: int| 0 <= i < res@.len() ==> (#[trigger] res@[i]).tests@.len() <= enabled@.len(),
{
    let seq_part = part(enabled, true);
    let rnd_part = part(enabled, false);
    proof {
        lemma_sequential_part_len(enabled@, true);
        lemma_sequential_part_len(enabled@, false);
    }
    let mut res: Vec<Section> = Vec::new();
    let has_seq = seq_part.len() > 0;
    let has_rnd = rnd_part.len() > 0;
    if has_seq {
        res.push(Section { title: " Sequential ", tests: seq_part });
    }
    if has_rnd {
        res.push(Section { title: " Random 4K ", tests: rnd_part });
    }
    assert(res@.map_values(|s: Section| section_text(s)) =~= spec_sections(enabled@));
    res
}

pub open spec fn sections_height(s: Seq<(Seq<char>, Seq<TestKind>)>) -> int
    decreases s.len(),
{
    if s.len() == 0 { 0 } else { sections_height(s.drop_last()) + section_height(s.last().1.len()) }
}

/// The rows above the boxes: the drive line and a blank row.
pub const HEADER_HEIGHT: u16 = 2;

/// Where the results screen goes in `area`: the full width, as many rows
/// as the header and the boxes need, centred vertically and cut to the area.
pub fn benchmark_area(area: Rect, sections: &Vec<Section>) -> (res: Rect)
    requires
        area.valid(),
        HEADER_HEIGHT + sections_height(sections@.map_values(|s: Section| section_text(s))) <= u16::MAX,
    ensures
        ({
            let total = HEADER_HEIGHT + sections_height(sections@.map_values(|s: Section| section_text(s)));
            &&& res.x == area.x
            &&& res.width == area.width
            &&& res.y == area.y + (if area.height >= total { (area.height - total) / 2 } else { 0 })
            &&& res.height == (if total < area.height { total } else { area.height as int })
        }),
        area.contains_rect(res),
{
    let ghost texts = sections@.map_values(|s: Section| section_text(s));
    let mut total: u64 = HEADER_HEIGHT as u64;
    let mut i: usize = 0;
    while i < sections.len()
        invariant
            i <= sections@.len(),
            texts == sections@.map_values(|s: Section| section_text(s)),
            HEADER_HEIGHT + sections_height(texts) <= u16::MAX,
            total == HEADER_HEIGHT + sections_height(texts.take(i as int)),
        decreases sections@.len() - i,
    {
        assert(texts.take(i + 1).drop_last() =~= texts.take(i as int));
        proof {
            lemma_sections_height_prefix(texts, i + 1);
        }
        let n = sections[i].tests.len();
        assert(texts.take(i + 1).last().1.len() == n);
        total = total + 3 + 2 * (n as u64);
        i = i + 1;
    }
    assert(texts.take(i as int) =~= texts);
    let total16: u16 = total as u16;
    let y_offset = area.height.saturating_sub(total16) / 2;
    let height = if total16 < area.height { total16 } else { area.height };
    Rect { x: area.x, y: area.y + y_offset, width: area.width, height }
}

/// The boxes above a given one take no more rows than all the boxes.
pub proof fn lemma_sections_height_prefix(s: Seq<(Seq<char>, Seq<TestKind>)>, k: int)
    requires
        0 <= k <= s.len(),
    ensures
        0 <= sections_height(s.take(k)) <= sections_height(s),
    decreases s.len(),
{
    if s.len() > 0 {
        if k == s.len() {
            assert(s.take(k) =~= s);
            lemma_sections_height_prefix(s.drop_last(), k - 1);
            assert(s.drop_last().take(k - 1) =~= s.drop_last());
        } else {
            lemma_sections_height_prefix(s.drop_last(), k);
            assert(s.drop_last().take(k) =~= s.take(k));
        }
    }
}

/// The height of one entry of the history screen.
pub const CARD_HEIGHT: u16 = 5;

/// Which entries of a history of `len` runs show in `height` rows with run
/// `selected` selected: `(first, count)`. The list scrolls just enough to keep
/// the selected run on the last card that fits.
pub open spec fn spec_history_window(height: u16, len: nat, selected: nat) -> (nat, nat) {
    let max_visible = (height / CARD_HEIGHT) as nat;
    let keep = if max_visible >= 1 { max_visible - 1 } else { 0 };
    let first = if selected >= keep { selected - keep } else { 0 };
    let left = if len >= first { len - first } else { 0 };
    (first as nat, (if left < max_visible { left } else { max_visible as int }) as nat)
}

pub fn history_window(height: u16, len: usize, selected: usize) -> (res: (usize, usize))
    ensures
        (res.0 as nat, res.1 as nat) == spec_history_window(height, len as nat, selected as nat),
{
    let max_visible: usize = (height / CARD_HEIGHT) as usize;
    let first = selected.saturating_sub(max_visible.saturating_sub(1));
    let left = len.saturating_sub(first);
    let count = if left < max_visible { left } else { max_visible };
    (first, count)
}

/// The selected run is always on screen when at least one card fits.
pub proof fn lemma_selected_visible(height: u16, len: nat, selected: nat)
    requires
        selected < len,
        height >= CARD_HEIGHT,
    ensures
        ({
            let (first, count) = spec_history_window(height, len, selected);
            first <= selected < first + count
        }),
{
}

/// The width left for the bar of a test row in a box `width` cells wide.
pub open spec fn spec_bar_max(width: u16) -> nat {
    let inner = if width >= 2 { width - 2 } else { 0 };
    (if inner >= LABEL_WIDTH + VALUE_WIDTH + 2 { inner - (LABEL_WIDTH + VALUE_WIDTH + 2) } else { 0 }) as nat
}

/// The width of a row's label.
pub const LABEL_WIDTH: usize = 10;
/// The width of a row's value.
pub const VALUE_WIDTH: usize = 14;

pub fn bar_max(width: u16) -> (res: usize)
    ensures
        res == spec_bar_max(width),
{
    let inner: usize = width.saturating_sub(2) as usize;
    inner.saturating_sub(LABEL_WIDTH + VALUE_WIDTH + 2)
}

/// How a test's row is drawn.
#[derive(Debug, Clone, Copy, PartialEq, Eq, Structural)]
pub enum RowState {
    /// Finished: its result is at this position of the results.
    Done(usize),
    /// Running now.
    Running,
    /// Not started.
    Pending,
}

/// The position of the first result of `kind` in `results`.
pub fn find_result<R>(results: &Vec<(TestKind, R)>, kind: TestKind) -> (res: Option<usize>)
    ensures
        match res {
            Some(i) => i < results@.len() && results@[i as int].0 == kind
                && forall|j: int| 0 <= j < i ==> results@[j].0 != kind,
            None => forall|j: int| 0 <= j < results@.len() ==> results@[j].0 != kind,
        },
{
    let mut i: usize = 0;
    while i < results.len()
        invariant
            i <= results@.len(),
            forall|j: int| 0 <= j < i ==> results@[j].0 != kind,
        decreases results@.len() - i,
    {
        if results[i].0 == kind {
            return Some(i);
        }
        i = i + 1;
    }
    None
}

/// The row of `kind`: done when a result is in, running when it is the
/// current test, pending otherwise.
pub fn row_state<R>(results: &Vec<(TestKind, R)>, current: Option<TestKind>, kind: TestKind) -> (res: RowState)
    ensures
        match res {
            RowState::Done(i) => i < results@.len() && results@[i as int].0 == kind
                && forall|j: int| 0 <= j < i ==> results@[j].0 != kind,
            RowState::Running => current == Some(kind)
                && forall|j: int| 0 <= j < results@.len() ==> results@[j].0 != kind,
            RowState::Pending => current != Some(kind)
                && forall|j: int| 0 <= j < results@.len() ==> results@[j].0 != kind,
        },
{
    match find_result(results, kind) {
        Some(i) => RowState::Done(i),
        None => {
            if current == Some(kind) {
                RowState::Running
            } else {
                RowState::Pending
            }
        },
    }
}

/// The widths of a running row: the bar (cut to the row), the progress
/// track after it, and the empty track after that.
pub fn running_track(bar_max: usize, bar_len: usize, progress_len: usize) -> (res: (usize, usize, usize))
    ensures
        res.0 == (if bar_len < bar_max { bar_len } else { bar_max }),
        res.1 == ({
            let rem = bar_max - res.0;
            let p = if progress_len >= res.0 { progress_len - res.0 } else { 0 };
            if p < rem { p } else { rem }
        }),
        res.0 + res.1 + res.2 == bar_max,
{
    let bar = if bar_len < bar_max { bar_len } else { bar_max };
    let remaining = bar_max - bar;
    let p = progress_len.saturating_sub(bar);
    let progress_bg = if p < remaining { p } else { remaining };
    let rest = remaining - progress_bg;
    (bar, progress_bg, rest)
}

/// The dotted leader between a finished bar and its value, `gap` cells
/// wide: a space when the gap is odd, then " ·" pairs.
pub open spec fn spec_leader(gap: nat) -> Seq<char> {
    (if gap % 2 == 1 { " "@ } else { seq![] }) + repeat(" ·"@, gap / 2)
}

pub fn leader(gap: usize) -> (res: String)
    ensures
        res@ == spec_leader(gap as nat),
{
    let mut s = String::new();
    if gap % 2 == 1 {
        s.append(" ");
    }
    let pairs = repeat_str(" ·", gap / 2);
    s.append(pairs.as_str());
    assert(s@ =~= spec_leader(gap as nat));
    s
}

/// The key hints shown in the footer, as (key, what it does).
pub open spec fn spec_shortcuts<R>(view: settings::View, state: AppState<R>, has_history: bool) -> Seq<(Seq<char>, Seq<char>)> {
    match view {
        settings::View::Settings => seq![("↑↓"@, "navigate"@), ("space"@, "toggle"@), ("←"@, "back"@), ("q"@, "quit"@)],
        settings::View::History => seq![("↑↓"@, "browse"@), ("←→"@, "switch tab"@), ("q"@, "quit"@)],
        settings::View::Benchmark => match state {
            AppState::SelectDrive { .. } =>
                seq![("↑↓"@, "navigate"@), ("enter"@, "select"@)]
                + (if has_history { seq![("→"@, "history"@)] } else { seq![] })
                + seq![("q"@, "quit"@)],
            AppState::Running { .. } => seq![("esc"@, "cancel"@), ("q"@, "quit"@)],
            AppState::Complete { .. } =>
                seq![("r"@, "rerun"@)]
                + (if has_history { seq![("→"@, "history"@)] } else { seq![] })
                + seq![("esc"@, "back"@), ("q"@, "quit"@)],
        },
    }
}

pub open spec fn pair_text(p: (&'static str, &'static str)) -> (Seq<char>, Seq<char>) {
    (p.0@, p.1@)
}

pub fn shortcuts<R>(view: settings::View, state: &AppState<R>, has_history: bool) -> (res: Vec<(&'static str, &'static str)>)
    ensures
        res@.map_values(|p: (&'static str, &'static str)| pair_text(p)) == spec_shortcuts(view, *state, has_history),
        // Every screen ends with how to quit.
        res@.len() > 0 && res@.last().0@ == "q"@ && res@.last().1@ == "quit"@,
        // The drive list and the results point to the history tab exactly
        // when there is history.
        (view == settings::View::Benchmark && !(*state is Running)) ==>
            (has_history <==> exists|i: int| 0 <= i < res@.len() && (#[trigger] res@[i]).1@ == "history"@),
{
    let mut s: Vec<(&'static str, &'static str)> = Vec::new();
    match view {
        settings::View::Settings => {
            s.push(("↑↓", "navigate"));
            s.push(("space", "toggle"));
            s.push(("←", "back"));
            s.push(("q", "quit"));
        },
        settings::View::History => {
            s.push(("↑↓", "browse"));
            s.push(("←→", "switch tab"));
            s.push(("q", "quit"));
        },
        settings::View::Benchmark => match state {
            AppState::SelectDrive { .. } => {
                s.push(("↑↓", "navigate"));
                s.push(("enter", "select"));
                if has_history {
                    s.push(("→", "history"));
                }
                s.push(("q", "quit"));
            },
            AppState::Running { .. } => {
                s.push(("esc", "cancel"));
                s.push(("q", "quit"));
            },
            AppState::Complete { .. } => {
                s.push(("r", "rerun"));
                if has_history {
                    s.push(("→", "history"));
                }
                s.push(("esc", "back"));
                s.push(("q", "quit"));
            },
        },
    }
    assert(s@.map_values(|p: (&'static str, &'static str)| pair_text(p)) =~= spec_shortcuts(view, *state, has_history));
    proof {
        reveal_strlit("history");
        reveal_strlit("navigate");
        reveal_strlit("select");
        reveal_strlit("quit");
        reveal_strlit("rerun");
        reveal_strlit("back");
        let m = s@.map_values(|p: (&'static str, &'static str)| pair_text(p));
        assert(s@.last().1@ == m.last().1);
        if view == settings::View::Benchmark && !(*state is Running) {
            if has_history {
                let k: int = if *state is SelectDrive { 2 } else { 1 };
                assert(s@[k].1@ == m[k].1);
            } else {
                assert forall|i: int| 0 <= i < s@.len() implies (#[trigger] s@[i]).1@ != "history"@ by {
                    assert(s@[i].1@ == m[i].1);
                }
            }
        }
    }
    s
}

/// The test rows of the settings screen: row, label, and whether it is on.
pub open spec fn spec_toggle_rows(s: Settings) -> Seq<(SettingsField, Seq<char>, bool)> {
    seq![
        (SettingsField::SeqWrite, "Sequential Write"@, s.seq_write),
        (SettingsField::SeqRead, "Sequential Read"@, s.seq_read),
        (SettingsField::RandWrite, "Random Write 4K"@, s.rand_write),
        (SettingsField::RandRead, "Random Read 4K"@, s.rand_read),
    ]
}

pub open spec fn row_text(r: (SettingsField, &'static str, bool)) -> (SettingsField, Seq<char>, bool) {
    (r.0, r.1@, r.2)
}

pub fn toggle_rows(s: &Settings) -> (res: Vec<(SettingsField, &'static str, bool)>)
    ensures
        res@.map_values(|r: (SettingsField, &'static str, bool)| row_text(r)) == spec_toggle_rows(*s),
        // One row per test, in the suite's order, each named as its test and
        // checked when the test is switched on.
        res@.len() == 4,
        res@[0].0 == SettingsField::SeqWrite && res@[0].1@ == TestKind::SeqWrite.spec_label() && res@[0].2 == s.seq_write,
        res@[1].0 == SettingsField::SeqRead && res@[1].1@ == TestKind::SeqRead.spec_label() && res@[1].2 == s.seq_read,
        res@[2].0 == SettingsField::RandWrite && res@[2].1@ == TestKind::RandWrite.spec_label()
            && res@[2].2 == s.rand_write,
        res@[3].0 == SettingsField::RandRead && res@[3].1@ == TestKind::RandRead.spec_label()
            && res@[3].2 == s.rand_read,
{
    let mut rows: Vec<(SettingsField, &'static str, bool)> = Vec::new();
    rows.push((SettingsField::SeqWrite, "Sequential Write", s.seq_write));
    rows.push((SettingsField::SeqRead, "Sequential Read", s.seq_read));
    rows.push((SettingsField::RandWrite, "Random Write 4K", s.rand_write));
    rows.push((SettingsField::RandRead, "Random Read 4K", s.rand_read));
    let ghost m = rows@.map_values(|r: (SettingsField, &'static str, bool)| row_text(r));
    assert(m =~= spec_toggle_rows(*s));
    assert(rows@[0].1@ == m[0].1 && rows@[1].1@ == m[1].1 && rows@[2].1@ == m[2].1 && rows@[3].1@ == m[3].1);
    rows
}

} // verus!
