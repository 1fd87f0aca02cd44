//! The searchable selectors for categories, modules and branches: the
//! entries a filter shows and what each key does.
use vstd::prelude::*;

use super::keys::Key;
use crate::categories::Category;
use crate::config::Module;
use crate::git::types::Branch;
use super::draw::{
    choice_spec, choice_text, entry_row, footer_spec, footer_text, header_spec, header_text,
    value_spec, value_text,
    max_width, max_width_exec, no_matches_spec, no_matches_text, push_entry_row, push_row_end,
    push_row_start, row_end, row_start,
};
use crate::style::{CYAN, DIM, RESET};
use crate::text::{
    chars_of, concat_all, contains_chars, contains_spec, eq_chars, lemma_concat_all_take,
    lowercase, pad_right, pad_right_exec, string_from, to_lowercase, trim_chars, trim_spec,
};
use vstd::string::StringExecFns;

verus! {

// ── Filtering ────────────────────────────────────────────

/// A text matches a filter when the filter, lowercased, occurs in the
/// text, lowercased.
pub open spec fn text_matches(text: Seq<char>, filter: Seq<char>) -> bool {
    contains_spec(lowercase(text), lowercase(filter))
}

/// An entry (name, description) matches a filter: by its name, or, when
/// descriptions are searched, by its description.
pub open spec fn entry_matches(entry: (Seq<char>, Seq<char>), filter: Seq<char>, with_desc: bool) -> bool {
    text_matches(entry.0, filter) || (with_desc && text_matches(entry.1, filter))
}

/// The positions, among the first `n` entries, of those that match.
pub open spec fn matching_prefix(
    items: Seq<(Seq<char>, Seq<char>)>,
    filter: Seq<char>,
    with_desc: bool,
    n: int,
) -> Seq<usize>
    decreases n,
{
    if n <= 0 {
        seq![]
    } else {
        let rest = matching_prefix(items, filter, with_desc, n - 1);
        if entry_matches(items[n - 1], filter, with_desc) {
            rest.push((n - 1) as usize)
        } else {
            rest
        }
    }
}

/// The positions of the entries a filter shows, in order: all of them
/// for an empty filter.
pub open spec fn filtered_spec(items: Seq<(Seq<char>, Seq<char>)>, filter: Seq<char>, with_desc: bool) -> Seq<usize> {
    if filter.len() == 0 {
        Seq::new(items.len(), |i: int| i as usize)
    } else {
        matching_prefix(items, filter, with_desc, items.len() as int)
    }
}

/// Categories as (name, description).
pub open spec fn category_items(c: Seq<Category>) -> Seq<(Seq<char>, Seq<char>)> {
    c.map_values(|x: Category| (x.name@, x.description@))
}

/// Modules as (name, description).
pub open spec fn module_items(m: Seq<Module>) -> Seq<(Seq<char>, Seq<char>)> {
    m.map_values(|x: Module| (x.name@, x.description@))
}

/// Branches as (name, nothing).
pub open spec fn branch_items(b: Seq<Branch>) -> Seq<(Seq<char>, Seq<char>)> {
    b.map_values(|x: Branch| (x.name@, Seq::<char>::empty()))
}

/// The positions of the entries a filter shows.
fn filter_entries(names: &Vec<String>, descs: &Vec<String>, filter: &Vec<char>, with_desc: bool) -> (r: Vec<usize>)
    requires
        names@.len() == descs@.len(),
    ensures
        r@ == filtered_spec(
            Seq::new(names@.len(), |i: int| (names@[i]@, descs@[i]@)),
            filter@,
            with_desc,
        ),
{
    let ghost items = Seq::new(names@.len(), |i: int| (names@[i]@, descs@[i]@));
    let mut r: Vec<usize> = Vec::new();
    if filter.len() == 0 {
        let mut i: usize = 0;
        while i < names.len()
            invariant
                i <= names.len(),
                r@ == Seq::new(i as nat, |k: int| k as usize),
            decreases names.len() - i,
        {
            r.push(i);
            i = i + 1;
            assert(r@ =~= Seq::new(i as nat, |k: int| k as usize));
        }
        return r;
    }
    let f = to_lowercase(string_from(filter.as_slice()).as_str());
    let fl = chars_of(f.as_str());
    let mut i: usize = 0;
    while i < names.len()
        invariant
            i <= names.len(),
            names@.len() == descs@.len(),
            items == Seq::new(names@.len(), |k: int| (names@[k]@, descs@[k]@)),
            fl@ == lowercase(filter@),
            r@ == matching_prefix(items, filter@, with_desc, i as int),
        decreases names.len() - i,
    {
        let n = chars_of(to_lowercase(names[i].as_str()).as_str());
        let mut ok = contains_chars(&n, &fl);
        if !ok && with_desc {
            let d = chars_of(to_lowercase(descs[i].as_str()).as_str());
            ok = contains_chars(&d, &fl);
        }
        assert(items[i as int] == (names@[i as int]@, descs@[i as int]@));
        if ok {
            r.push(i);
        }
        i = i + 1;
    }
    r
}

/// Names and descriptions of the categories.
fn category_texts(categories: &[Category]) -> (r: (Vec<String>, Vec<String>))
    ensures
        r.0@.len() == categories@.len(),
        r.1@.len() == categories@.len(),
        Seq::new(r.0@.len(), |i: int| (r.0@[i]@, r.1@[i]@)) == category_items(categories@),
{
    let mut names: Vec<String> = Vec::new();
    let mut descs: Vec<String> = Vec::new();
    let mut i: usize = 0;
    while i < categories.len()
        invariant
            i <= categories.len(),
            names@.len() == i,
            descs@.len() == i,
            forall|k: int| 0 <= k < i ==> (#[trigger] names@[k])@ == categories@[k].name@ && descs@[k]@ == categories@[k].description@,
        decreases categories.len() - i,
    {
        names.push(categories[i].name.clone());
        descs.push(categories[i].description.clone());
        i = i + 1;
    }
    assert(Seq::new(names@.len(), |i: int| (names@[i]@, descs@[i]@)) =~= category_items(categories@));
    (names, descs)
}

/// Names and descriptions of the modules.
fn module_texts(modules: &[Module]) -> (r: (Vec<String>, Vec<String>))
    ensures
        r.0@.len() == modules@.len(),
        r.1@.len() == modules@.len(),
        Seq::new(r.0@.len(), |i: int| (r.0@[i]@, r.1@[i]@)) == module_items(modules@),
{
    let mut names: Vec<String> = Vec::new();
    let mut descs: Vec<String> = Vec::new();
    let mut i: usize = 0;
    while i < modules.len()
        invariant
            i <= modules.len(),
            names@.len() == i,
            descs@.len() == i,
            forall|k: int| 0 <= k < i ==> (#[trigger] names@[k])@ == modules@[k].name@ && descs@[k]@ == modules@[k].description@,
        decreases modules.len() - i,
    {
        names.push(modules[i].name.clone());
        descs.push(modules[i].description.clone());
        i = i + 1;
    }
    assert(Seq::new(names@.len(), |i: int| (names@[i]@, descs@[i]@)) =~= module_items(modules@));
    (names, descs)
}

/// Names of the branches, with empty descriptions.
fn branch_texts(branches: &[Branch]) -> (r: (Vec<String>, Vec<String>))
    ensures
        r.0@.len() == branches@.len(),
        r.1@.len() == branches@.len(),
        Seq::new(r.0@.len(), |i: int| (r.0@[i]@, r.1@[i]@)) == branch_items(branches@),
{
    let mut names: Vec<String> = Vec::new();
    let mut descs: Vec<String> = Vec::new();
    let mut i: usize = 0;
    while i < branches.len()
        invariant
            i <= branches.len(),
            names@.len() == i,
            descs@.len() == i,
            forall|k: int| 0 <= k < i ==> (#[trigger] names@[k])@ == branches@[k].name@ && descs@[k]@ == Seq::<char>::empty(),
        decreases branches.len() - i,
    {
        names.push(branches[i].name.clone());
        descs.push(String::new());
        i = i + 1;
    }
    assert(Seq::new(names@.len(), |i: int| (names@[i]@, descs@[i]@)) =~= branch_items(branches@));
    (names, descs)
}

/// The positions of the categories a filter shows, by name or description.
pub fn filtered_indices(categories: &[Category], filter: &str) -> (r: Vec<usize>)
    ensures
        r@ == filtered_spec(category_items(categories@), filter@, true),
{
    let (names, descs) = category_texts(categories);
    filter_entries(&names, &descs, &chars_of(filter), true)
}

/// The positions of the modules a filter shows, by name or description.
pub fn filtered_module_indices(modules: &[Module], filter: &str) -> (r: Vec<usize>)
    ensures
        r@ == filtered_spec(module_items(modules@), filter@, true),
{
    let (names, descs) = module_texts(modules);
    filter_entries(&names, &descs, &chars_of(filter), true)
}

/// The positions of the branches a filter shows, by name.
pub fn filtered_branch_indices(branches: &[Branch], filter: &str) -> (r: Vec<usize>)
    ensures
        r@ == filtered_spec(branch_items(branches@), filter@, false),
{
    let (names, descs) = branch_texts(branches);
    filter_entries(&names, &descs, &chars_of(filter), false)
}

/// Some branch has exactly this name.
pub fn has_exact_branch_match(branches: &[Branch], value: &str) -> (r: bool)
    ensures
        r == exists|i: int| 0 <= i < branches@.len() && (#[trigger] branches@[i]).name@ == value@,
{
    let v = chars_of(value);
    let mut i: usize = 0;
    while i < branches.len()
        invariant
            i <= branches.len(),
            v@ == value@,
            forall|k: int| 0 <= k < i ==> (#[trigger] branches@[k]).name@ != value@,
        decreases branches.len() - i,
    {
        if eq_chars(&chars_of(branches[i].name.as_str()), &v) {
            return true;
        }
        i = i + 1;
    }
    false
}

} // verus!

verus! {

// ── Key handling ─────────────────────────────────────────

/// Which selector a state belongs to.
#[derive(Clone, Copy, PartialEq, Eq, Structural)]
pub enum SelectorKind {
    /// Categories: pick one of the shown entries.
    Category,
    /// Modules: pick one of the shown entries or the `none` line after them.
    Module,
    /// Branches: pick one of the shown entries or create a branch named
    /// by the filter.
    Branch,
}

/// The cursor and the typed filter of a selector.
pub struct SelectorState {
    pub cursor: usize,
    pub filter: Vec<char>,
}

/// What a key press leads to.
pub enum SelectOutcome {
    /// Keep asking.
    Continue,
    /// The entry at this position was chosen.
    Chosen(usize),
    /// The `none` line of the module selector was chosen.
    ChoseNone,
    /// A new branch of this name is to be created.
    Create(String),
    /// The selection was cancelled.
    Cancelled,
}

/// The mathematical value of an outcome.
pub enum SelectModel {
    Continue,
    Chosen(usize),
    ChoseNone,
    Create(Seq<char>),
    Cancelled,
}

impl View for SelectOutcome {
    type V = SelectModel;

    open spec fn view(&self) -> SelectModel {
        match self {
            SelectOutcome::Continue => SelectModel::Continue,
            SelectOutcome::Chosen(i) => SelectModel::Chosen(*i),
            SelectOutcome::ChoseNone => SelectModel::ChoseNone,
            SelectOutcome::Create(s) => SelectModel::Create(s@),
            SelectOutcome::Cancelled => SelectModel::Cancelled,
        }
    }
}

/// The new branch that a filter offers: it is not blank and no branch
/// has exactly that name.
pub open spec fn can_create_spec(items: Seq<(Seq<char>, Seq<char>)>, filter: Seq<char>) -> bool {
    trim_spec(filter).len() > 0 && !exists|i: int| 0 <= i < items.len() && (#[trigger] items[i]).0 == filter
}

/// How many lines the cursor can be on: the shown entries, plus the
/// `none` line of the module selector, plus the create line of the branch
/// selector when it is offered.
pub open spec fn total_spec(kind: SelectorKind, items: Seq<(Seq<char>, Seq<char>)>, filter: Seq<char>) -> int {
    let shown = filtered_spec(items, filter, kind != SelectorKind::Branch).len() as int;
    match kind {
        SelectorKind::Category => shown,
        SelectorKind::Module => shown + 1,
        SelectorKind::Branch => shown + if can_create_spec(items, filter) {
            1int
        } else {
            0int
        },
    }
}

/// The filter after a key: backspace drops its last character, a
/// character key appends it.
pub open spec fn edited_filter(f: Seq<char>, k: Key) -> Seq<char> {
    match k {
        Key::Backspace => if f.len() > 0 {
            f.drop_last()
        } else {
            f
        },
        Key::Char { c, .. } => f.push(c),
        _ => f,
    }
}

/// The cursor after a key, before it is kept in range: up and down move
/// it within `total` lines, editing the filter puts it on the first line.
pub open spec fn moved_cursor(c: int, k: Key, total: int) -> int {
    match k {
        Key::Up | Key::BackTab => if c > 0 {
            c - 1
        } else {
            c
        },
        Key::Down | Key::Tab => if c + 1 < total {
            c + 1
        } else {
            c
        },
        Key::Backspace | Key::Char { .. } => 0,
        _ => c,
    }
}

/// The cursor kept on one of `total` lines (on the first when there are none).
pub open spec fn clamp(c: int, total: int) -> int {
    if c >= total {
        if total > 0 {
            total - 1
        } else {
            0
        }
    } else {
        c
    }
}

/// What a key does to a selector: its new cursor, new filter, and outcome.
pub open spec fn step_spec(
    kind: SelectorKind,
    items: Seq<(Seq<char>, Seq<char>)>,
    c: int,
    f: Seq<char>,
    k: Key,
) -> (int, Seq<char>, SelectModel) {
    let vis = filtered_spec(items, f, kind != SelectorKind::Branch);
    let total = total_spec(kind, items, f);
    let continue_with = |c1: int, f1: Seq<char>| (clamp(c1, total_spec(kind, items, f1)), f1, SelectModel::Continue);
    match k {
        Key::Esc => (c, f, SelectModel::Cancelled),
        Key::Enter => if kind == SelectorKind::Module {
            if c >= vis.len() {
                (c, f, SelectModel::ChoseNone)
            } else {
                (c, f, SelectModel::Chosen(vis[c]))
            }
        } else if 0 <= c < vis.len() {
            (c, f, SelectModel::Chosen(vis[c]))
        } else if kind == SelectorKind::Branch && can_create_spec(items, f) {
            (c, f, SelectModel::Create(trim_spec(f)))
        } else {
            continue_with(c, f)
        },
        _ => continue_with(moved_cursor(c, k, total), edited_filter(f, k)),
    }
}

/// Whether a new branch is offered for the filter.
fn can_create_exec(names: &Vec<String>, descs: &Vec<String>, filter: &Vec<char>) -> (r: bool)
    requires
        names@.len() == descs@.len(),
    ensures
        r == can_create_spec(Seq::new(names@.len(), |i: int| (names@[i]@, descs@[i]@)), filter@),
{
    let ghost items = Seq::new(names@.len(), |i: int| (names@[i]@, descs@[i]@));
    let t = trim_chars(filter);
    if t.len() == 0 {
        return false;
    }
    let mut i: usize = 0;
    while i < names.len()
        invariant
            i <= names.len(),
            names@.len() == descs@.len(),
            items == Seq::new(names@.len(), |k: int| (names@[k]@, descs@[k]@)),
            forall|k: int| 0 <= k < i ==> (#[trigger] items[k]).0 != filter@,
        decreases names.len() - i,
    {
        assert(items[i as int].0 == names@[i as int]@);
        if eq_chars(&chars_of(names[i].as_str()), filter) {
            return false;
        }
        i = i + 1;
    }
    true
}

/// How many lines the cursor can be on.
fn total_exec(kind: SelectorKind, names: &Vec<String>, descs: &Vec<String>, filter: &Vec<char>) -> (r: usize)
    requires
        names@.len() == descs@.len(),
        names@.len() < usize::MAX,
    ensures
        r == total_spec(kind, Seq::new(names@.len(), |i: int| (names@[i]@, descs@[i]@)), filter@),
{
    let vis = filter_entries(names, descs, filter, kind != SelectorKind::Branch);
    proof {
        let items = Seq::new(names@.len(), |i: int| (names@[i]@, descs@[i]@));
        lemma_filtered_len(items, filter@, kind != SelectorKind::Branch);
    }
    match kind {
        SelectorKind::Category => vis.len(),
        SelectorKind::Module => vis.len() + 1,
        SelectorKind::Branch => if can_create_exec(names, descs, filter) {
            vis.len() + 1
        } else {
            vis.len()
        },
    }
}

/// A filter never shows more entries than there are.
pub proof fn lemma_filtered_len(items: Seq<(Seq<char>, Seq<char>)>, filter: Seq<char>, with_desc: bool)
    requires
        items.len() <= usize::MAX,
    ensures
        filtered_spec(items, filter, with_desc).len() <= items.len(),
        forall|i: int|
            0 <= i < filtered_spec(items, filter, with_desc).len() ==> (#[trigger] filtered_spec(
                items,
                filter,
                with_desc,
            )[i]) < items.len(),
{
    if filter.len() > 0 {
        lemma_matching_prefix(items, filter, with_desc, items.len() as int);
    }
}

proof fn lemma_matching_prefix(items: Seq<(Seq<char>, Seq<char>)>, filter: Seq<char>, with_desc: bool, n: int)
    requires
        n <= items.len(),
        items.len() <= usize::MAX,
    ensures
        matching_prefix(items, filter, with_desc, n).len() <= if n < 0 {
            0
        } else {
            n
        },
        forall|i: int|
            0 <= i < matching_prefix(items, filter, with_desc, n).len() ==> (#[trigger] matching_prefix(
                items,
                filter,
                with_desc,
                n,
            )[i]) < n && entry_matches(items[matching_prefix(items, filter, with_desc, n)[i] as int], filter, with_desc),
    decreases n,
{
    if n > 0 {
        lemma_matching_prefix(items, filter, with_desc, n - 1);
        let rest = matching_prefix(items, filter, with_desc, n - 1);
        let m = matching_prefix(items, filter, with_desc, n);
        assert forall|i: int| 0 <= i < m.len() implies (#[trigger] m[i]) < n && entry_matches(
            items[m[i] as int],
            filter,
            with_desc,
        ) by {
            if i < rest.len() {
                assert(m[i] == rest[i]);
            } else {
                assert(m[i] == (n - 1) as usize);
            }
        }
    }
}

/// What a key does to a selector over the given entries.
fn selector_step(
    kind: SelectorKind,
    names: &Vec<String>,
    descs: &Vec<String>,
    state: &mut SelectorState,
    key: &Key,
) -> (r: SelectOutcome)
    requires
        names@.len() == descs@.len(),
        names@.len() < usize::MAX,
    ensures
        (final(state).cursor as int, final(state).filter@, r@) == step_spec(
            kind,
            Seq::new(names@.len(), |i: int| (names@[i]@, descs@[i]@)),
            old(state).cursor as int,
            old(state).filter@,
            *key,
        ),
{
    let ghost items = Seq::new(names@.len(), |i: int| (names@[i]@, descs@[i]@));
    let with_desc = kind != SelectorKind::Branch;
    let vis = filter_entries(names, descs, &state.filter, with_desc);
    let total = total_exec(kind, names, descs, &state.filter);
    proof {
        lemma_filtered_len(items, state.filter@, with_desc);
    }
    match key {
        Key::Esc => {
            return SelectOutcome::Cancelled;
        },
        Key::Enter => {
            if kind == SelectorKind::Module {
                if state.cursor >= vis.len() {
                    return SelectOutcome::ChoseNone;
                } else {
                    return SelectOutcome::Chosen(vis[state.cursor]);
                }
            }
            if state.cursor < vis.len() {
                return SelectOutcome::Chosen(vis[state.cursor]);
            }
            if kind == SelectorKind::Branch && can_create_exec(names, descs, &state.filter) {
                let t = trim_chars(&state.filter);
                return SelectOutcome::Create(string_from(t.as_slice()));
            }
        },
        Key::Up | Key::BackTab => {
            if state.cursor > 0 {
                state.cursor = state.cursor - 1;
            }
        },
        Key::Down | Key::Tab => {
            if state.cursor < total && state.cursor + 1 < total {
                state.cursor = state.cursor + 1;
            }
        },
        Key::Backspace => {
            state.filter.pop();
            state.cursor = 0;
        },
        Key::Char { c, .. } => {
            state.filter.push(*c);
            state.cursor = 0;
        },
        _ => {},
    }
    let total2 = total_exec(kind, names, descs, &state.filter);
    if state.cursor >= total2 {
        state.cursor = if total2 > 0 {
            total2 - 1
        } else {
            0
        };
    }
    proof {
        if old(state).filter@.len() > 0 && *key == Key::Backspace {
            assert(state.filter@ =~= old(state).filter@.drop_last());
        }
    }
    SelectOutcome::Continue
}

/// A selector with nothing typed and the cursor on the first line.
pub fn selector_start() -> (r: SelectorState)
    ensures
        r.cursor == 0,
        r.filter@ == Seq::<char>::empty(),
{
    SelectorState { cursor: 0, filter: Vec::new() }
}

/// What a key does to the category selector.
pub fn select_category(categories: &[Category], state: &mut SelectorState, key: &Key) -> (r: SelectOutcome)
    requires
        categories@.len() < usize::MAX,
    ensures
        (final(state).cursor as int, final(state).filter@, r@) == step_spec(
            SelectorKind::Category,
            category_items(categories@),
            old(state).cursor as int,
            old(state).filter@,
            *key,
        ),
{
    let (names, descs) = category_texts(categories);
    selector_step(SelectorKind::Category, &names, &descs, state, key)
}

/// What a key does to the module selector.
pub fn select_module(modules: &[Module], state: &mut SelectorState, key: &Key) -> (r: SelectOutcome)
    requires
        modules@.len() < usize::MAX,
    ensures
        (final(state).cursor as int, final(state).filter@, r@) == step_spec(
            SelectorKind::Module,
            module_items(modules@),
            old(state).cursor as int,
            old(state).filter@,
            *key,
        ),
{
    let (names, descs) = module_texts(modules);
    selector_step(SelectorKind::Module, &names, &descs, state, key)
}

/// What a key does to the branch selector.
pub fn select_branch(branches: &[Branch], state: &mut SelectorState, key: &Key) -> (r: SelectOutcome)
    requires
        branches@.len() < usize::MAX,
    ensures
        (final(state).cursor as int, final(state).filter@, r@) == step_spec(
            SelectorKind::Branch,
            branch_items(branches@),
            old(state).cursor as int,
            old(state).filter@,
            *key,
        ),
{
    let (names, descs) = branch_texts(branches);
    selector_step(SelectorKind::Branch, &names, &descs, state, key)
}

/// Whether the branch selector offers to create a branch named by the filter.
pub fn branch_can_create(branches: &[Branch], filter: &str) -> (r: bool)
    ensures
        r == can_create_spec(branch_items(branches@), filter@),
{
    let (names, descs) = branch_texts(branches);
    can_create_exec(&names, &descs, &chars_of(filter))
}

/// The module selector with the cursor on the first module of the given
/// name (the recommended one), or on the first line.
pub fn module_selector_start(modules: &[Module], default: Option<&str>) -> (r: SelectorState)
    ensures
        r.filter@ == Seq::<char>::empty(),
        match default {
            Some(d) => if exists|i: int| 0 <= i < modules@.len() && (#[trigger] modules@[i]).name@ == d@ {
                &&& r.cursor < modules@.len()
                &&& modules@[r.cursor as int].name@ == d@
                &&& forall|j: int| 0 <= j < r.cursor ==> (#[trigger] modules@[j]).name@ != d@
            } else {
                r.cursor == 0
            },
            None => r.cursor == 0,
        },
{
    match default {
        None => SelectorState { cursor: 0, filter: Vec::new() },
        Some(d) => {
            let dc = chars_of(d);
            let mut i: usize = 0;
            while i < modules.len()
                invariant
                    i <= modules.len(),
                    default == Some(d),
                    dc@ == d@,
                    forall|j: int| 0 <= j < i ==> (#[trigger] modules@[j]).name@ != d@,
                decreases modules.len() - i,
            {
                if eq_chars(&chars_of(modules[i].name.as_str()), &dc) {
                    assert(modules@[i as int].name@ == d@);
                    assert(exists|k: int| 0 <= k < modules@.len() && (#[trigger] modules@[k]).name@ == d@);
                    return SelectorState { cursor: i, filter: Vec::new() };
                }
                i = i + 1;
            }
            SelectorState { cursor: 0, filter: Vec::new() }
        },
    }
}

// ── Laws ─────────────────────────────────────────────────

/// After any key that keeps a selector open, its cursor is on one of its
/// lines (or on the first when there are none), and a chosen entry is one
/// that the filter shows.
pub proof fn law_selector_cursor_in_range(
    kind: SelectorKind,
    items: Seq<(Seq<char>, Seq<char>)>,
    c: int,
    f: Seq<char>,
    k: Key,
)
    requires
        0 <= c,
        items.len() <= usize::MAX,
    ensures
        ({
            let (c2, f2, out) = step_spec(kind, items, c, f, k);
            &&& (out is Continue ==> 0 <= c2 && (c2 < total_spec(kind, items, f2) || c2 == 0))
            &&& (out matches SelectModel::Chosen(i) ==> i < items.len() && filtered_spec(
                items,
                f,
                kind != SelectorKind::Branch,
            ).contains(i))
        }),
{
    lemma_filtered_len(items, f, kind != SelectorKind::Branch);
    let vis = filtered_spec(items, f, kind != SelectorKind::Branch);
    if k == Key::Enter && 0 <= c < vis.len() {
        assert(vis[c] < items.len());
    }
}

} // verus!

verus! {

// ── Drawing ──────────────────────────────────────────────

/// The rows of the shown entries: for each shown position, the entry's
/// name and tail.
pub open spec fn rows_spec(
    names: Seq<Seq<char>>,
    tails: Seq<Seq<char>>,
    visible: Seq<usize>,
    cursor: int,
    width: int,
) -> Seq<Seq<char>> {
    Seq::new(
        visible.len(),
        |vi: int| entry_row(vi == cursor, names[visible[vi] as int], tails[visible[vi] as int], width),
    )
}

/// The rows of the shown entries, one after another.
fn rows_text(names: &Vec<String>, tails: &Vec<String>, visible: &[usize], cursor: usize, width: usize) -> (r: String)
    requires
        names@.len() == tails@.len(),
        forall|vi: int| 0 <= vi < visible@.len() ==> (#[trigger] visible@[vi]) < names@.len(),
    ensures
        r@ == concat_all(
            rows_spec(
                names@.map_values(|n: String| n@),
                tails@.map_values(|n: String| n@),
                visible@,
                cursor as int,
                width as int,
            ),
        ),
{
    let ghost rows = rows_spec(
        names@.map_values(|n: String| n@),
        tails@.map_values(|n: String| n@),
        visible@,
        cursor as int,
        width as int,
    );
    let mut s = String::new();
    let mut vi: usize = 0;
    while vi < visible.len()
        invariant
            vi <= visible@.len(),
            names@.len() == tails@.len(),
            forall|k: int| 0 <= k < visible@.len() ==> (#[trigger] visible@[k]) < names@.len(),
            rows == rows_spec(
                names@.map_values(|n: String| n@),
                tails@.map_values(|n: String| n@),
                visible@,
                cursor as int,
                width as int,
            ),
            s@ == concat_all(rows.take(vi as int)),
        decreases visible.len() - vi,
    {
        let ci = visible[vi];
        push_entry_row(&mut s, vi == cursor, names[ci].as_str(), tails[ci].as_str(), width);
        proof {
            lemma_concat_all_take(rows, vi as int);
        }
        vi = vi + 1;
    }
    assert(rows.take(visible@.len() as int) =~= rows);
    s
}

/// The width of the category names: the widest in bytes, 8 when there are none.
pub open spec fn category_width(items: Seq<(Seq<char>, Seq<char>)>) -> int {
    if items.len() == 0 {
        8
    } else {
        max_width(items.map_values(|p: (Seq<char>, Seq<char>)| p.0)) as int
    }
}

/// The category selector as drawn, and how many lines it takes.
pub open spec fn render_categories_spec(
    items: Seq<(Seq<char>, Seq<char>)>,
    visible: Seq<usize>,
    cursor: int,
    filter: Seq<char>,
) -> (Seq<char>, int) {
    let names = items.map_values(|p: (Seq<char>, Seq<char>)| p.0);
    let tails = items.map_values(|p: (Seq<char>, Seq<char>)| DIM@ + p.1);
    let body = if visible.len() == 0 {
        no_matches_spec()
    } else {
        concat_all(rows_spec(names, tails, visible, cursor, category_width(items)))
    };
    (
        header_spec("Commit type"@, "(type to filter)"@, filter) + body + footer_spec("filter"@),
        (if visible.len() == 0 {
            1
        } else {
            visible.len() as int
        }) + 4,
    )
}

/// Each description, dimmed.
fn dimmed(descs: &Vec<String>) -> (r: Vec<String>)
    ensures
        r@.len() == descs@.len(),
        forall|k: int| 0 <= k < descs@.len() ==> (#[trigger] r@[k])@ == DIM@ + descs@[k]@,
{
    let mut r: Vec<String> = Vec::new();
    let mut i: usize = 0;
    while i < descs.len()
        invariant
            i <= descs@.len(),
            r@.len() == i,
            forall|k: int| 0 <= k < i ==> (#[trigger] r@[k])@ == DIM@ + descs@[k]@,
        decreases descs.len() - i,
    {
        let mut t = String::new();
        t.append(DIM);
        t.append(descs[i].as_str());
        r.push(t);
        i = i + 1;
    }
    r
}

/// Draws the category selector: the text, and how many lines it takes.
pub fn render_categories(categories: &[Category], visible: &[usize], cursor: usize, filter: &str) -> (r: (
    String,
    usize,
))
    requires
        forall|vi: int| 0 <= vi < visible@.len() ==> (#[trigger] visible@[vi]) < categories@.len(),
        visible@.len() + 4 <= usize::MAX,
    ensures
        (r.0@, r.1 as int) == render_categories_spec(category_items(categories@), visible@, cursor as int, filter@),
{
    let ghost items = category_items(categories@);
    let (names, descs) = category_texts(categories);
    let tails = dimmed(&descs);
    proof {
        assert(names@.map_values(|n: String| n@) =~= items.map_values(|p: (Seq<char>, Seq<char>)| p.0)) by {
            assert forall|k: int| 0 <= k < names@.len() implies names@[k]@ == items[k].0 by {
                assert(Seq::new(names@.len(), |i: int| (names@[i]@, descs@[i]@))[k] == items[k]);
            }
        }
        assert(tails@.map_values(|n: String| n@) =~= items.map_values(|p: (Seq<char>, Seq<char>)| DIM@ + p.1)) by {
            assert forall|k: int| 0 <= k < tails@.len() implies tails@[k]@ == DIM@ + items[k].1 by {
                assert(Seq::new(names@.len(), |i: int| (names@[i]@, descs@[i]@))[k] == items[k]);
            }
        }
    }
    let width = if categories.len() == 0 {
        8
    } else {
        max_width_exec(&names)
    };
    let mut s = header_text("Commit type", "(type to filter)", filter);
    if visible.len() == 0 {
        s.append(no_matches_text().as_str());
    } else {
        s.append(rows_text(&names, &tails, visible, cursor, width).as_str());
    }
    s.append(footer_text("filter").as_str());
    let lines = if visible.len() == 0 {
        1
    } else {
        visible.len()
    };
    (s, lines + 4)
}

/// The widest of the names in bytes, but at least `least`.
pub open spec fn width_at_least(names: Seq<Seq<char>>, least: int) -> int {
    if max_width(names) > least {
        max_width(names) as int
    } else {
        least
    }
}

/// The `none` row of the module selector.
pub open spec fn none_row(cur: bool, width: int) -> Seq<char> {
    row_start(cur) + DIM@ + pad_right("none"@, width) + "  skip"@ + row_end(cur)
}

/// The module selector as drawn, and how many lines it takes.
pub open spec fn render_modules_spec(
    items: Seq<(Seq<char>, Seq<char>)>,
    visible: Seq<usize>,
    cursor: int,
    filter: Seq<char>,
) -> (Seq<char>, int) {
    let names = items.map_values(|p: (Seq<char>, Seq<char>)| p.0);
    let tails = items.map_values(|p: (Seq<char>, Seq<char>)| DIM@ + p.1);
    let width = width_at_least(names, 4);
    (
        header_spec("Module"@, "(type to filter)"@, filter) + concat_all(
            rows_spec(names, tails, visible, cursor, width),
        ) + none_row(cursor == visible.len(), width) + footer_spec("filter"@),
        visible.len() + 1 + 4 as int,
    )
}

/// Draws the module selector: the text, and how many lines it takes.
pub fn render_modules(modules: &[Module], visible: &[usize], cursor: usize, filter: &str) -> (r: (
    String,
    usize,
))
    requires
        forall|vi: int| 0 <= vi < visible@.len() ==> (#[trigger] visible@[vi]) < modules@.len(),
        visible@.len() + 5 <= usize::MAX,
    ensures
        (r.0@, r.1 as int) == render_modules_spec(module_items(modules@), visible@, cursor as int, filter@),
{
    let ghost items = module_items(modules@);
    let (names, descs) = module_texts(modules);
    let tails = dimmed(&descs);
    proof {
        assert(names@.map_values(|n: String| n@) =~= items.map_values(|p: (Seq<char>, Seq<char>)| p.0)) by {
            assert forall|k: int| 0 <= k < names@.len() implies names@[k]@ == items[k].0 by {
                assert(Seq::new(names@.len(), |i: int| (names@[i]@, descs@[i]@))[k] == items[k]);
            }
        }
        assert(tails@.map_values(|n: String| n@) =~= items.map_values(|p: (Seq<char>, Seq<char>)| DIM@ + p.1)) by {
            assert forall|k: int| 0 <= k < tails@.len() implies tails@[k]@ == DIM@ + items[k].1 by {
                assert(Seq::new(names@.len(), |i: int| (names@[i]@, descs@[i]@))[k] == items[k]);
            }
        }
    }
    let m = max_width_exec(&names);
    let width = if m > 4 {
        m
    } else {
        4
    };
    let mut s = header_text("Module", "(type to filter)", filter);
    s.append(rows_text(&names, &tails, visible, cursor, width).as_str());
    let cur = cursor == visible.len();
    push_row_start(&mut s, cur);
    s.append(DIM);
    s.append(pad_right_exec("none", width).as_str());
    s.append("  skip");
    push_row_end(&mut s, cur);
    s.append(footer_text("filter").as_str());
    (s, visible.len() + 1 + 4)
}

/// The tag after the current branch.
pub open spec fn current_tag(is_current: bool) -> Seq<char> {
    if is_current {
        DIM@ + "(current)"@ + RESET@
    } else {
        seq![]
    }
}

/// The row that offers to create a branch named by the filter.
pub open spec fn create_row(cur: bool, filter: Seq<char>) -> Seq<char> {
    row_start(cur) + DIM@ + "create branch:"@ + RESET@ + " "@ + CYAN@ + trim_spec(filter) + row_end(cur)
}

/// The branch selector as drawn, and how many lines it takes.
pub open spec fn render_branches_spec(
    branches: Seq<Branch>,
    visible: Seq<usize>,
    cursor: int,
    filter: Seq<char>,
    can_create: bool,
) -> (Seq<char>, int) {
    let names = branches.map_values(|b: Branch| b.name@);
    let tails = branches.map_values(|b: Branch| current_tag(b.is_current));
    let width = width_at_least(names, 6);
    let item_lines = visible.len() + if can_create {
        1int
    } else {
        0int
    };
    let create = if can_create {
        create_row(cursor == visible.len(), filter)
    } else {
        seq![]
    };
    let empty = if item_lines == 0 {
        no_matches_spec()
    } else {
        seq![]
    };
    (
        header_spec("Branch"@, "(type to search or create)"@, filter) + concat_all(
            rows_spec(names, tails, visible, cursor, width),
        ) + create + empty + footer_spec("search"@),
        (if item_lines == 0 {
            1
        } else {
            item_lines
        }) + 4,
    )
}

/// Names of the branches, and the tag after each.
fn branch_rows_texts(branches: &[Branch]) -> (r: (Vec<String>, Vec<String>))
    ensures
        r.0@.len() == branches@.len(),
        r.1@.len() == branches@.len(),
        r.0@.map_values(|n: String| n@) == branches@.map_values(|b: Branch| b.name@),
        r.1@.map_values(|n: String| n@) == branches@.map_values(|b: Branch| current_tag(b.is_current)),
{
    let mut names: Vec<String> = Vec::new();
    let mut tails: Vec<String> = Vec::new();
    let mut i: usize = 0;
    while i < branches.len()
        invariant
            i <= branches@.len(),
            names@.len() == i,
            tails@.len() == i,
            forall|k: int| 0 <= k < i ==> (#[trigger] names@[k])@ == branches@[k].name@,
            forall|k: int| 0 <= k < i ==> (#[trigger] tails@[k])@ == current_tag(branches@[k].is_current),
        decreases branches.len() - i,
    {
        names.push(branches[i].name.clone());
        let mut t = String::new();
        if branches[i].is_current {
            t.append(DIM);
            t.append("(current)");
            t.append(RESET);
        }
        proof {
            assert(t@ =~= current_tag(branches@[i as int].is_current));
        }
        tails.push(t);
        i = i + 1;
    }
    assert(names@.map_values(|n: String| n@) =~= branches@.map_values(|b: Branch| b.name@));
    assert(tails@.map_values(|n: String| n@) =~= branches@.map_values(|b: Branch| current_tag(b.is_current)));
    (names, tails)
}

/// The row that offers to create a branch named by the filter.
fn create_row_text(cur: bool, filter: &str) -> (r: String)
    ensures
        r@ == create_row(cur, filter@),
{
    let mut s = String::new();
    push_row_start(&mut s, cur);
    s.append(DIM);
    s.append("create branch:");
    s.append(RESET);
    s.append(" ");
    s.append(CYAN);
    s.append(string_from(trim_chars(&chars_of(filter)).as_slice()).as_str());
    push_row_end(&mut s, cur);
    proof {
        assert(s@ =~= create_row(cur, filter@));
    }
    s
}

/// Draws the branch selector: the text, and how many lines it takes.
pub fn render_branches(
    branches: &[Branch],
    visible: &[usize],
    cursor: usize,
    filter: &str,
    can_create: bool,
) -> (r: (String, usize))
    requires
        forall|vi: int| 0 <= vi < visible@.len() ==> (#[trigger] visible@[vi]) < branches@.len(),
        visible@.len() + 5 <= usize::MAX,
    ensures
        (r.0@, r.1 as int) == render_branches_spec(branches@, visible@, cursor as int, filter@, can_create),
{
    let (names, tails) = branch_rows_texts(branches);
    let m = max_width_exec(&names);
    let width = if m > 6 {
        m
    } else {
        6
    };
    let head = header_text("Branch", "(type to search or create)", filter);
    let rows = rows_text(&names, &tails, visible, cursor, width);
    let create = if can_create {
        create_row_text(cursor == visible.len(), filter)
    } else {
        String::new()
    };
    let item_lines = if can_create {
        visible.len() + 1
    } else {
        visible.len()
    };
    let empty = if item_lines == 0 {
        no_matches_text()
    } else {
        String::new()
    };
    let foot = footer_text("search");
    let mut s = head;
    s.append(rows.as_str());
    s.append(create.as_str());
    s.append(empty.as_str());
    s.append(foot.as_str());
    let lines = if item_lines == 0 {
        1
    } else {
        item_lines
    };
    (s, lines + 4)
}

/// What the category selector leaves on screen once a category is chosen.
pub fn category_choice_text(category: &Category) -> (r: String)
    ensures
        r@ == choice_spec("Type"@, value_spec(category.name@, Some(category.description@))),
{
    choice_text("Type", value_text(category.name.as_str(), Some(category.description.as_str())).as_str())
}

/// What the module selector leaves on screen: the chosen module, or `none`.
pub fn module_choice_text(module: Option<&Module>) -> (r: String)
    ensures
        r@ == choice_spec(
            "Module"@,
            match module {
                Some(m) => value_spec(m.name@, Some(m.description@)),
                None => DIM@ + "none"@ + RESET@,
            },
        ),
{
    match module {
        Some(m) => choice_text("Module", value_text(m.name.as_str(), Some(m.description.as_str())).as_str()),
        None => {
            let mut b = String::new();
            b.append(DIM);
            b.append("none");
            b.append(RESET);
            choice_text("Module", b.as_str())
        },
    }
}

/// What the branch selector leaves on screen: the chosen branch, marked
/// new when it is to be created.
pub fn branch_choice_text(name: &str, is_new: bool) -> (r: String)
    ensures
        r@ == choice_spec("Branch"@, value_spec(name@, if is_new {
            Some("(new)"@)
        } else {
            None
        })),
{
    if is_new {
        choice_text("Branch", value_text(name, Some("(new)")).as_str())
    } else {
        choice_text("Branch", value_text(name, None).as_str())
    }
}

} // verus!
