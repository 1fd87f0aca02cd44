//! The file picker: which changes start selected, in what order they are
//! listed, what each key does, and what is drawn.
use vstd::prelude::*;
use vstd::string::StringExecFns;

use crate::git::types::{color_spec, icon_spec, order_spec, FileChange, FileStatus};
use crate::style::{
    BG_SELECT, BOLD, CHECK_SELECTED, CHECK_UNSELECTED, DIM, NAV_ARROWS, POINTER, RESET, TREE_LAST,
    TREE_MID,
};
use crate::text::{concat_all, count_text, digits_spec, lemma_concat_all_take};
use crate::ui::keys::Key;

verus! {

/// The picker: the changes in display order, which of them are
/// selected, and the cursor.
pub struct Picker {
    pub changes: Vec<FileChange>,
    pub selected: Vec<bool>,
    pub cursor: usize,
}

/// A picker entry as a value: path, status, selected.
pub type ItemModel = (Seq<char>, FileStatus, bool);

impl Picker {
    /// The entries as values.
    pub open spec fn model(&self) -> Seq<ItemModel> {
        Seq::new(
            self.changes@.len(),
            |i: int| (self.changes@[i].path@, self.changes@[i].status, self.selected@[i]),
        )
    }

    /// A picker with at least one entry, a selection flag for each, and
    /// its cursor on one of them.
    pub open spec fn wf(&self) -> bool {
        &&& 0 < self.changes@.len()
        &&& self.selected@.len() == self.changes@.len()
        &&& self.cursor < self.changes@.len()
    }
}

/// What a key press leads to.
pub enum PickOutcome {
    /// Keep picking.
    Continue,
    /// The selection was confirmed: the selected paths, in display order.
    Confirmed(Vec<String>),
    /// The picker was cancelled.
    Cancelled,
}

/// The changes with order `o`, in their given order, each selected unless
/// it is untracked.
pub open spec fn with_order(changes: Seq<(Seq<char>, FileStatus)>, o: u8) -> Seq<ItemModel>
    decreases changes.len(),
{
    if changes.len() == 0 {
        seq![]
    } else {
        let rest = with_order(changes.drop_last(), o);
        let c = changes.last();
        if order_spec(c.1) == o {
            rest.push((c.0, c.1, c.1 != FileStatus::Untracked))
        } else {
            rest
        }
    }
}

/// The picker's first entries: the changes sorted stably by status order
/// (modified, added, deleted, renamed, untracked), each selected unless it
/// is untracked.
pub open spec fn start_spec(changes: Seq<(Seq<char>, FileStatus)>) -> Seq<ItemModel> {
    with_order(changes, 0) + with_order(changes, 1) + with_order(changes, 2) + with_order(changes, 3)
        + with_order(changes, 4)
}

/// The changes as (path, status).
pub open spec fn changes_view(changes: Seq<FileChange>) -> Seq<(Seq<char>, FileStatus)> {
    changes.map_values(|c: FileChange| (c.path@, c.status))
}

/// Whether every entry is selected.
pub open spec fn all_selected(items: Seq<ItemModel>) -> bool {
    forall|i: int| 0 <= i < items.len() ==> (#[trigger] items[i]).2
}

/// Every entry with its selection set to `on`.
pub open spec fn set_all(items: Seq<ItemModel>, on: bool) -> Seq<ItemModel> {
    items.map_values(|i: ItemModel| (i.0, i.1, on))
}

/// The paths of the selected entries, in order.
pub open spec fn selected_paths(items: Seq<ItemModel>) -> Seq<Seq<char>>
    decreases items.len(),
{
    if items.len() == 0 {
        seq![]
    } else {
        let rest = selected_paths(items.drop_last());
        if items.last().2 {
            rest.push(items.last().0)
        } else {
            rest
        }
    }
}

/// What a key does to the picker: the new entries, the new cursor, and
/// whether it goes on (`None`), is confirmed (`Some(true)`) or cancelled
/// (`Some(false)`).
pub open spec fn pick_step_spec(items: Seq<ItemModel>, c: int, k: Key) -> (Seq<ItemModel>, int, Option<bool>) {
    match k {
        Key::Up | Key::Char { c: 'k', .. } => (items, if c > 0 {
            c - 1
        } else {
            c
        }, None),
        Key::Down | Key::Char { c: 'j', .. } => (items, if c < items.len() - 1 {
            c + 1
        } else {
            c
        }, None),
        Key::Char { c: ' ', .. } => (items.update(c, (items[c].0, items[c].1, !items[c].2)), c, None),
        Key::Char { c: 'a', .. } => (set_all(items, !all_selected(items)), c, None),
        Key::Enter => (items, c, Some(true)),
        Key::Esc | Key::Char { c: 'q', .. } => (items, c, Some(false)),
        _ => (items, c, None),
    }
}

/// The changes, with their paths copied, as (path, status).
fn change_pairs(changes: &Vec<FileChange>) -> (r: Vec<(String, FileStatus)>)
    ensures
        r@.map_values(|p: (String, FileStatus)| (p.0@, p.1)) == changes_view(changes@),
{
    let mut r: Vec<(String, FileStatus)> = Vec::new();
    let mut i: usize = 0;
    while i < changes.len()
        invariant
            i <= changes@.len(),
            r@.len() == i,
            forall|k: int| 0 <= k < i ==> (#[trigger] r@[k]).0@ == changes@[k].path@ && r@[k].1 == changes@[k].status,
        decreases changes.len() - i,
    {
        r.push((changes[i].path.clone(), changes[i].status));
        i = i + 1;
    }
    assert(r@.map_values(|p: (String, FileStatus)| (p.0@, p.1)) =~= changes_view(changes@));
    r
}

/// Appends the changes of order `o`, in order.
fn push_with_order(
    changes: &mut Vec<FileChange>,
    selected: &mut Vec<bool>,
    pairs: &Vec<(String, FileStatus)>,
    o: u8,
)
    requires
        old(changes)@.len() == old(selected)@.len(),
    ensures
        final(changes)@.len() == final(selected)@.len(),
        Seq::new(
            final(changes)@.len(),
            |i: int| (final(changes)@[i].path@, final(changes)@[i].status, final(selected)@[i]),
        ) == Seq::new(
            old(changes)@.len(),
            |i: int| (old(changes)@[i].path@, old(changes)@[i].status, old(selected)@[i]),
        ) + with_order(pairs@.map_values(|p: (String, FileStatus)| (p.0@, p.1)), o),
{
    let ghost cs = pairs@.map_values(|p: (String, FileStatus)| (p.0@, p.1));
    let ghost start = Seq::new(
        changes@.len(),
        |i: int| (changes@[i].path@, changes@[i].status, selected@[i]),
    );
    let mut i: usize = 0;
    while i < pairs.len()
        invariant
            i <= pairs@.len(),
            changes@.len() == selected@.len(),
            cs == pairs@.map_values(|p: (String, FileStatus)| (p.0@, p.1)),
            Seq::new(changes@.len(), |k: int| (changes@[k].path@, changes@[k].status, selected@[k]))
                == start + with_order(cs.take(i as int), o),
        decreases pairs.len() - i,
    {
        proof {
            assert(cs.take(i as int + 1).drop_last() =~= cs.take(i as int));
        }
        let st = pairs[i].1;
        let ghost prev = Seq::new(changes@.len(), |k: int| (changes@[k].path@, changes@[k].status, selected@[k]));
        proof {
            assert(cs.take(i as int + 1).last() == (pairs@[i as int].0@, st));
        }
        if st.order() == o {
            changes.push(FileChange { path: pairs[i].0.clone(), status: st });
            selected.push(st != FileStatus::Untracked);
            proof {
                let now = Seq::new(changes@.len(), |k: int| (changes@[k].path@, changes@[k].status, selected@[k]));
                assert(now =~= prev.push((pairs@[i as int].0@, st, st != FileStatus::Untracked)));
                assert(now =~= start + with_order(cs.take(i as int + 1), o));
            }
        }
        i = i + 1;
    }
    assert(cs.take(pairs@.len() as int) =~= cs);
}

/// The picker over a non-empty list of changes: sorted by status order,
/// untracked files unselected, the cursor on the first entry.
pub fn picker_start(changes: Vec<FileChange>) -> (r: Picker)
    requires
        changes@.len() > 0,
    ensures
        r.model() == start_spec(changes_view(changes@)),
        r.cursor == 0,
        r.wf(),
{
    let pairs = change_pairs(&changes);
    let mut cs: Vec<FileChange> = Vec::new();
    let mut sel: Vec<bool> = Vec::new();
    push_with_order(&mut cs, &mut sel, &pairs, 0);
    push_with_order(&mut cs, &mut sel, &pairs, 1);
    push_with_order(&mut cs, &mut sel, &pairs, 2);
    push_with_order(&mut cs, &mut sel, &pairs, 3);
    push_with_order(&mut cs, &mut sel, &pairs, 4);
    let r = Picker { changes: cs, selected: sel, cursor: 0 };
    proof {
        let v = changes_view(changes@);
        assert(r.model() =~= start_spec(v));
        lemma_start_len(v);
    }
    r
}

/// Every change has one of the five orders, so the picker lists them all.
proof fn lemma_start_len(cs: Seq<(Seq<char>, FileStatus)>)
    ensures
        start_spec(cs).len() == cs.len(),
    decreases cs.len(),
{
    if cs.len() > 0 {
        lemma_start_len(cs.drop_last());
    }
}

impl Picker {
    /// What a key does to the picker.
    pub fn step(&mut self, key: &Key) -> (r: PickOutcome)
        requires
            old(self).wf(),
        ensures
            final(self).wf(),
            (final(self).model(), final(self).cursor as int, match r {
                PickOutcome::Continue => None,
                PickOutcome::Confirmed(_) => Some(true),
                PickOutcome::Cancelled => Some(false),
            }) == pick_step_spec(old(self).model(), old(self).cursor as int, *key),
            r matches PickOutcome::Confirmed(paths) ==> paths@.map_values(|p: String| p@)
                == selected_paths(old(self).model()),
    {
        let ghost before = self.model();
        match key {
            Key::Up | Key::Char { c: 'k', .. } => {
                if self.cursor > 0 {
                    self.cursor = self.cursor - 1;
                }
                PickOutcome::Continue
            },
            Key::Down | Key::Char { c: 'j', .. } => {
                if self.cursor < self.changes.len() - 1 {
                    self.cursor = self.cursor + 1;
                }
                PickOutcome::Continue
            },
            Key::Char { c: ' ', .. } => {
                let i = self.cursor;
                let on = self.selected[i];
                self.selected.set(i, !on);
                proof {
                    assert(self.model() =~= before.update(i as int, (before[i as int].0, before[i as int].1, !before[i as int].2)));
                }
                PickOutcome::Continue
            },
            Key::Char { c: 'a', .. } => {
                let all_on = self.all_on();
                self.set_all_exec(!all_on);
                PickOutcome::Continue
            },
            Key::Enter => {
                let paths = self.selected_exec();
                PickOutcome::Confirmed(paths)
            },
            Key::Esc | Key::Char { c: 'q', .. } => PickOutcome::Cancelled,
            _ => PickOutcome::Continue,
        }
    }

    /// Whether every entry is selected.
    fn all_on(&self) -> (r: bool)
        requires
            self.selected@.len() == self.changes@.len(),
        ensures
            r == all_selected(self.model()),
    {
        let mut i: usize = 0;
        while i < self.selected.len()
            invariant
                i <= self.selected@.len(),
                self.selected@.len() == self.changes@.len(),
                forall|k: int| 0 <= k < i ==> (#[trigger] self.model()[k]).2,
            decreases self.selected.len() - i,
        {
            if !self.selected[i] {
                assert(!self.model()[i as int].2);
                return false;
            }
            i = i + 1;
        }
        true
    }

    /// Sets every entry's selection to `on`.
    fn set_all_exec(&mut self, on: bool)
        requires
            old(self).selected@.len() == old(self).changes@.len(),
        ensures
            final(self).model() == set_all(old(self).model(), on),
            final(self).cursor == old(self).cursor,
            final(self).changes == old(self).changes,
            final(self).selected@.len() == old(self).selected@.len(),
    {
        let ghost before = self.model();
        let mut i: usize = 0;
        while i < self.selected.len()
            invariant
                i <= self.selected@.len(),
                self.selected@.len() == before.len(),
                self.changes == old(self).changes,
                self.cursor == old(self).cursor,
                before == old(self).model(),
                forall|k: int| 0 <= k < i ==> (#[trigger] self.selected@[k]) == on,
                forall|k: int| i <= k < before.len() ==> (#[trigger] self.selected@[k]) == before[k].2,
            decreases self.selected.len() - i,
        {
            self.selected.set(i, on);
            i = i + 1;
        }
        assert(self.model() =~= set_all(before, on));
    }

    /// The selected paths, in order.
    fn selected_exec(&self) -> (r: Vec<String>)
        requires
            self.selected@.len() == self.changes@.len(),
        ensures
            r@.map_values(|p: String| p@) == selected_paths(self.model()),
    {
        let ghost m = self.model();
        let mut r: Vec<String> = Vec::new();
        let mut i: usize = 0;
        while i < self.changes.len()
            invariant
                i <= self.changes@.len(),
                self.selected@.len() == self.changes@.len(),
                m == self.model(),
                r@.map_values(|p: String| p@) == selected_paths(m.take(i as int)),
            decreases self.changes.len() - i,
        {
            proof {
                assert(m.take(i as int + 1).drop_last() =~= m.take(i as int));
            }
            if self.selected[i] {
                r.push(self.changes[i].path.clone());
                proof {
                    assert(r@.map_values(|p: String| p@) =~= selected_paths(m.take(i as int + 1)));
                }
            }
            i = i + 1;
        }
        assert(m.take(self.changes@.len() as int) =~= m);
        r
    }
}

// ── Drawing ──────────────────────────────────────────────

/// How many entries are selected.
pub open spec fn selected_count(items: Seq<ItemModel>) -> nat
    decreases items.len(),
{
    if items.len() == 0 {
        0
    } else {
        selected_count(items.drop_last()) + if items.last().2 {
            1nat
        } else {
            0nat
        }
    }
}

/// The tree connector before an entry: the last one closes the tree.
pub open spec fn connector(last: bool) -> Seq<char> {
    if last {
        TREE_LAST@
    } else {
        TREE_MID@
    }
}

/// The start of a picker row: pointer and tree connector.
pub open spec fn row_lead(cur: bool, last: bool) -> Seq<char> {
    let bg = if cur {
        BG_SELECT@
    } else {
        seq![]
    };
    let pointer = if cur {
        POINTER@
    } else {
        " "@
    };
    "  "@ + bg + " "@ + pointer + " "@ + DIM@ + connector(last) + RESET@ + bg
}

/// The checkbox of an entry, in its status color when selected.
pub open spec fn checkbox(status: FileStatus, selected: bool) -> Seq<char> {
    if selected {
        color_spec(status) + CHECK_SELECTED@ + RESET@
    } else {
        DIM@ + CHECK_UNSELECTED@ + RESET@
    }
}

/// The rest of a picker row: icon and path in the status color.
pub open spec fn row_rest(path: Seq<char>, status: FileStatus, cur: bool) -> Seq<char> {
    let c = color_spec(status);
    let bg = if cur {
        BG_SELECT@
    } else {
        seq![]
    };
    let end = if cur {
        RESET@
    } else {
        seq![]
    };
    " "@ + bg + c + icon_spec(status) + RESET@ + " "@ + bg + c + path + end + RESET@ + "\r\n"@
}

/// One row of the picker.
pub open spec fn pick_row(item: ItemModel, cur: bool, last: bool) -> Seq<char> {
    row_lead(cur, last) + checkbox(item.1, item.2) + row_rest(item.0, item.1, cur)
}

/// The picker's header: how many of the entries are selected.
pub open spec fn picker_header(items: Seq<ItemModel>) -> Seq<char> {
    "\r\n  "@ + BOLD@ + "  Changes"@ + RESET@ + " "@ + DIM@ + "("@ + digits_spec(selected_count(items)) + "/"@
        + digits_spec(items.len()) + " selected)"@ + RESET@ + "\r\n\r\n"@
}

/// The picker's help line.
pub open spec fn picker_footer() -> Seq<char> {
    "\r\n  "@ + DIM@ + "space"@ + RESET@ + " toggle  "@ + DIM@ + "a"@ + RESET@ + " all  "@ + DIM@ + NAV_ARROWS@
        + RESET@ + " move  "@ + DIM@ + "enter"@ + RESET@ + " confirm  "@ + DIM@ + "esc"@ + RESET@ + " cancel"@
}

/// The rows of the picker.
pub open spec fn picker_rows(items: Seq<ItemModel>, cursor: int) -> Seq<Seq<char>> {
    Seq::new(items.len(), |i: int| pick_row(items[i], i == cursor, i == items.len() - 1))
}

/// The picker as drawn, and how many lines it takes.
pub open spec fn render_spec(items: Seq<ItemModel>, cursor: int) -> (Seq<char>, int) {
    (picker_header(items) + concat_all(picker_rows(items, cursor)) + picker_footer(), items.len() + 4 as int)
}

/// One row of the summary left after confirming.
pub open spec fn summary_row(item: ItemModel, last: bool) -> Seq<char> {
    let c = color_spec(item.1);
    "    "@ + DIM@ + connector(last) + " "@ + RESET@ + c + icon_spec(item.1) + " "@ + item.0 + RESET@
        + "\r\n"@
}

/// The selected entries, in order.
pub open spec fn selected_items(items: Seq<ItemModel>) -> Seq<ItemModel>
    decreases items.len(),
{
    if items.len() == 0 {
        seq![]
    } else {
        let rest = selected_items(items.drop_last());
        if items.last().2 {
            rest.push(items.last())
        } else {
            rest
        }
    }
}

/// What stays on screen once the selection is confirmed.
pub open spec fn summary_spec(items: Seq<ItemModel>) -> Seq<char> {
    let sel = selected_items(items);
    "\r\n  "@ + BOLD@ + "  Files"@ + RESET@ + " "@ + DIM@ + "("@ + digits_spec(sel.len()) + " selected)"@
        + RESET@ + "\r\n"@ + concat_all(Seq::new(sel.len(), |i: int| summary_row(sel[i], i == sel.len() - 1)))
        + "\r\n"@
}

fn push_connector(s: &mut String, last: bool)
    ensures
        final(s)@ == old(s)@ + connector(last),
{
    if last {
        s.append(TREE_LAST);
    } else {
        s.append(TREE_MID);
    }
}

fn lead_text(cur: bool, last: bool) -> (r: String)
    ensures
        r@ == row_lead(cur, last),
{
    let mut s = String::new();
    s.append("  ");
    if cur {
        s.append(BG_SELECT);
    }
    s.append(" ");
    if cur {
        s.append(POINTER);
    } else {
        s.append(" ");
    }
    s.append(" ");
    s.append(DIM);
    push_connector(&mut s, last);
    s.append(RESET);
    if cur {
        s.append(BG_SELECT);
    }
    proof {
        assert(s@ =~= row_lead(cur, last));
    }
    s
}

fn checkbox_text(status: FileStatus, selected: bool) -> (r: String)
    ensures
        r@ == checkbox(status, selected),
{
    let mut s = String::new();
    if selected {
        s.append(status.color_code());
        s.append(CHECK_SELECTED);
        s.append(RESET);
    } else {
        s.append(DIM);
        s.append(CHECK_UNSELECTED);
        s.append(RESET);
    }
    proof {
        assert(s@ =~= checkbox(status, selected));
    }
    s
}

fn rest_text(path: &str, status: FileStatus, cur: bool) -> (r: String)
    ensures
        r@ == row_rest(path@, status, cur),
{
    let c = status.color_code();
    let mut s = String::new();
    s.append(" ");
    if cur {
        s.append(BG_SELECT);
    }
    s.append(c);
    s.append(status.icon());
    s.append(RESET);
    s.append(" ");
    if cur {
        s.append(BG_SELECT);
    }
    s.append(c);
    s.append(path);
    if cur {
        s.append(RESET);
    }
    s.append(RESET);
    s.append("\r\n");
    proof {
        assert(s@ =~= row_rest(path@, status, cur));
    }
    s
}

impl Picker {
    /// How many entries are selected.
    fn count_selected(&self) -> (r: usize)
        requires
            self.wf(),
        ensures
            r == selected_count(self.model()),
    {
        let ghost m = self.model();
        let mut n: usize = 0;
        let mut i: usize = 0;
        while i < self.selected.len()
            invariant
                i <= self.selected@.len(),
                self.wf(),
                m == self.model(),
                n == selected_count(m.take(i as int)),
                n <= i,
            decreases self.selected.len() - i,
        {
            proof {
                assert(m.take(i as int + 1).drop_last() =~= m.take(i as int));
            }
            if self.selected[i] {
                n = n + 1;
            }
            i = i + 1;
        }
        assert(m.take(self.selected@.len() as int) =~= m);
        n
    }

    /// One row of the picker.
    fn row_text(&self, i: usize) -> (r: String)
        requires
            self.wf(),
            i < self.changes@.len(),
        ensures
            r@ == pick_row(self.model()[i as int], i == self.cursor, i == self.changes@.len() - 1),
    {
        let cur = i == self.cursor;
        let last = i == self.changes.len() - 1;
        let st = self.changes[i].status;
        let mut s = lead_text(cur, last);
        s.append(checkbox_text(st, self.selected[i]).as_str());
        s.append(rest_text(self.changes[i].path.as_str(), st, cur).as_str());
        s
    }

    /// Draws the picker: the text, and how many lines it takes.
    pub fn render(&self) -> (r: (String, usize))
        requires
            self.wf(),
            self.changes@.len() + 4 <= usize::MAX,
        ensures
            (r.0@, r.1 as int) == render_spec(self.model(), self.cursor as int),
    {
        let ghost m = self.model();
        let ghost rows = picker_rows(m, self.cursor as int);
        let mut s = String::new();
        s.append("\r\n  ");
        s.append(BOLD);
        s.append("  Changes");
        s.append(RESET);
        s.append(" ");
        s.append(DIM);
        s.append("(");
        s.append(count_text(self.count_selected()).as_str());
        s.append("/");
        s.append(count_text(self.changes.len()).as_str());
        s.append(" selected)");
        s.append(RESET);
        s.append("\r\n\r\n");
        let ghost head = s@;
        let mut i: usize = 0;
        while i < self.changes.len()
            invariant
                i <= self.changes@.len(),
                self.wf(),
                m == self.model(),
                rows == picker_rows(m, self.cursor as int),
                s@ == head + concat_all(rows.take(i as int)),
            decreases self.changes.len() - i,
        {
            let row = self.row_text(i);
            s.append(row.as_str());
            proof {
                lemma_concat_all_take(rows, i as int);
            }
            i = i + 1;
        }
        assert(rows.take(m.len() as int) =~= rows);
        let ghost body = s@;
        let mut f = String::new();
        f.append("\r\n  ");
        f.append(DIM);
        f.append("space");
        f.append(RESET);
        f.append(" toggle  ");
        f.append(DIM);
        f.append("a");
        f.append(RESET);
        f.append(" all  ");
        f.append(DIM);
        f.append(NAV_ARROWS);
        f.append(RESET);
        f.append(" move  ");
        f.append(DIM);
        f.append("enter");
        f.append(RESET);
        f.append(" confirm  ");
        f.append(DIM);
        f.append("esc");
        f.append(RESET);
        f.append(" cancel");
        s.append(f.as_str());
        proof {
            assert(head =~= picker_header(m));
            assert(f@ =~= picker_footer());
            assert(s@ == head + concat_all(rows) + f@);
        }
        (s, self.changes.len() + 4)
    }

    /// What stays on screen once the selection is confirmed.
    pub fn summary(&self) -> (r: String)
        requires
            self.wf(),
        ensures
            r@ == summary_spec(self.model()),
    {
        let ghost m = self.model();
        let mut idx: Vec<usize> = Vec::new();
        let mut i: usize = 0;
        while i < self.selected.len()
            invariant
                i <= self.selected@.len(),
                self.wf(),
                m == self.model(),
                idx@.len() <= i,
                forall|k: int| 0 <= k < idx@.len() ==> (#[trigger] idx@[k]) < i,
                Seq::new(idx@.len(), |k: int| m[idx@[k] as int]) == selected_items(m.take(i as int)),
            decreases self.selected.len() - i,
        {
            proof {
                assert(m.take(i as int + 1).drop_last() =~= m.take(i as int));
            }
            let ghost before = idx@;
            if self.selected[i] {
                idx.push(i);
                proof {
                    assert(Seq::new(idx@.len(), |k: int| m[idx@[k] as int]) =~= Seq::new(
                        before.len(),
                        |k: int| m[before[k] as int],
                    ).push(m[i as int]));
                }
            }
            i = i + 1;
        }
        assert(m.take(self.selected@.len() as int) =~= m);
        let ghost sel = selected_items(m);
        let ghost rows = Seq::new(sel.len(), |k: int| summary_row(sel[k], k == sel.len() - 1));
        let count = idx.len();
        let mut s = String::new();
        s.append("\r\n  ");
        s.append(BOLD);
        s.append("  Files");
        s.append(RESET);
        s.append(" ");
        s.append(DIM);
        s.append("(");
        s.append(count_text(count).as_str());
        s.append(" selected)");
        s.append(RESET);
        s.append("\r\n");
        let ghost head = s@;
        let mut j: usize = 0;
        while j < count
            invariant
                j <= count,
                count == idx@.len(),
                self.wf(),
                m == self.model(),
                forall|k: int| 0 <= k < idx@.len() ==> (#[trigger] idx@[k]) < self.changes@.len(),
                Seq::new(idx@.len(), |k: int| m[idx@[k] as int]) == sel,
                rows == Seq::new(sel.len(), |k: int| summary_row(sel[k], k == sel.len() - 1)),
                s@ == head + concat_all(rows.take(j as int)),
            decreases count - j,
        {
            let k = idx[j];
            let st = self.changes[k].status;
            let c = st.color_code();
            let mut row = String::new();
            row.append("    ");
            row.append(DIM);
            push_connector(&mut row, j == count - 1);
            row.append(" ");
            row.append(RESET);
            row.append(c);
            row.append(st.icon());
            row.append(" ");
            row.append(self.changes[k].path.as_str());
            row.append(RESET);
            row.append("\r\n");
            proof {
                assert(sel[j as int] == m[k as int]);
                assert(row@ =~= summary_row(sel[j as int], j == sel.len() - 1));
                lemma_concat_all_take(rows, j as int);
            }
            s.append(row.as_str());
            j = j + 1;
        }
        assert(rows.take(sel.len() as int) =~= rows);
        s.append("\r\n");
        proof {
            assert(s@ =~= summary_spec(m));
        }
        s
    }
}

// ── Laws ─────────────────────────────────────────────────

/// Entries listed by status order.
pub open spec fn sorted_by_order(items: Seq<ItemModel>) -> bool {
    forall|i: int, j: int|
        0 <= i < j < items.len() ==> order_spec((#[trigger] items[i]).1) <= order_spec((#[trigger] items[j]).1)
}

/// Each entry is selected exactly when its file is tracked.
pub open spec fn tracked_selected(items: Seq<ItemModel>) -> bool {
    forall|i: int| 0 <= i < items.len() ==> (#[trigger] items[i]).2 == (items[i].1 != FileStatus::Untracked)
}

proof fn lemma_with_order(cs: Seq<(Seq<char>, FileStatus)>, o: u8)
    ensures
        forall|i: int| 0 <= i < with_order(cs, o).len() ==> order_spec((#[trigger] with_order(cs, o)[i]).1) == o,
        tracked_selected(with_order(cs, o)),
    decreases cs.len(),
{
    if cs.len() > 0 {
        lemma_with_order(cs.drop_last(), o);
    }
}

proof fn lemma_append_sorted(a: Seq<ItemModel>, b: Seq<ItemModel>, k: u8)
    requires
        sorted_by_order(a),
        forall|i: int| 0 <= i < a.len() ==> order_spec((#[trigger] a[i]).1) <= k,
        forall|i: int| 0 <= i < b.len() ==> order_spec((#[trigger] b[i]).1) == k,
        tracked_selected(a),
        tracked_selected(b),
    ensures
        sorted_by_order(a + b),
        forall|i: int| 0 <= i < (a + b).len() ==> order_spec((#[trigger] (a + b)[i]).1) <= k,
        tracked_selected(a + b),
{
    let c = a + b;
    assert forall|i: int, j: int| 0 <= i < j < c.len() implies order_spec((#[trigger] c[i]).1) <= order_spec(
        (#[trigger] c[j]).1,
    ) by {
        if j < a.len() {
            assert(c[i] == a[i] && c[j] == a[j]);
        } else if i < a.len() {
            assert(c[i] == a[i] && c[j] == b[j - a.len()]);
        } else {
            assert(c[i] == b[i - a.len()] && c[j] == b[j - a.len()]);
        }
    }
    assert forall|i: int| 0 <= i < c.len() implies order_spec((#[trigger] c[i]).1) <= k && c[i].2 == (c[i].1
        != FileStatus::Untracked) by {
        if i < a.len() {
            assert(c[i] == a[i]);
        } else {
            assert(c[i] == b[i - a.len()]);
        }
    }
}

/// The picker lists every change once, sorted by status order (modified,
/// added, deleted, renamed, untracked), with exactly the tracked files
/// selected.
pub proof fn law_start_sorted(changes: Seq<(Seq<char>, FileStatus)>)
    ensures
        start_spec(changes).len() == changes.len(),
        sorted_by_order(start_spec(changes)),
        tracked_selected(start_spec(changes)),
{
    lemma_start_len(changes);
    let a0 = with_order(changes, 0);
    let a1 = with_order(changes, 1);
    let a2 = with_order(changes, 2);
    let a3 = with_order(changes, 3);
    let a4 = with_order(changes, 4);
    lemma_with_order(changes, 0);
    lemma_with_order(changes, 1);
    lemma_with_order(changes, 2);
    lemma_with_order(changes, 3);
    lemma_with_order(changes, 4);
    lemma_append_sorted(seq![], a0, 0);
    assert(seq![] + a0 =~= a0);
    lemma_append_sorted(a0, a1, 1);
    lemma_append_sorted(a0 + a1, a2, 2);
    lemma_append_sorted(a0 + a1 + a2, a3, 3);
    lemma_append_sorted(a0 + a1 + a2 + a3, a4, 4);
}

/// `a` selects everything, unless everything is already selected: then it
/// selects nothing. Paths and statuses stay.
pub proof fn law_select_all_flips(items: Seq<ItemModel>, c: int, ctrl: bool)
    ensures
        ({
            let after = pick_step_spec(items, c, Key::Char { c: 'a', ctrl }).0;
            &&& after.len() == items.len()
            &&& forall|i: int| 0 <= i < items.len() ==> (#[trigger] after[i]).0 == items[i].0 && after[i].1 == items[i].1
            &&& all_selected(items) ==> forall|i: int| 0 <= i < items.len() ==> !(#[trigger] after[i]).2
            &&& !all_selected(items) ==> all_selected(after)
        }),
{
}

/// Toggling the entry under the cursor twice gives back the entries.
pub proof fn law_toggle_twice_restores(items: Seq<ItemModel>, c: int, ctrl: bool)
    requires
        0 <= c < items.len(),
    ensures
        ({
            let k = Key::Char { c: ' ', ctrl };
            let once = pick_step_spec(items, c, k);
            pick_step_spec(once.0, once.1, k).0 == items
        }),
{
    let k = Key::Char { c: ' ', ctrl };
    let once = pick_step_spec(items, c, k);
    assert(pick_step_spec(once.0, once.1, k).0 =~= items);
}

} // verus!
