//! Moving the selection through result lists and emoji grids, and the keys
//! of the emoji grid.
use vstd::prelude::*;
use crate::search::{fuzzy, SherlockSearch};
use vstd::string::StrSliceExecFns;
use crate::text::trim_str;

verus! {

/// The selection after moving one row down a list: `None` where nothing is
/// selected (the call stops there), the next row where there is one, the
/// same row at the end.
pub open spec fn next_index(index: u32, n_items: u32) -> Option<u32> {
    if index == u32::MAX {
        None
    } else if index + 1 < n_items {
        Some((index + 1) as u32)
    } else {
        Some(index)
    }
}

/// Selection after the list's `focus_next`.
pub fn focus_next(index: u32, n_items: u32) -> (r: Option<u32>)
    ensures
        r == next_index(index, n_items),
{
    if index == u32::MAX {
        return None;
    }
    let new_index = index + 1;
    if new_index < n_items {
        Some(new_index)
    } else {
        Some(index)
    }
}

/// The selection after moving one row up: the row before, or the same
/// where the first is selected.
pub open spec fn prev_index(index: u32) -> u32 {
    if index > 0 {
        (index - 1) as u32
    } else {
        index
    }
}

/// Selection after the list's `focus_prev`.
pub fn focus_prev(index: u32) -> (r: u32)
    ensures
        r == prev_index(index),
{
    if index > 0 {
        index - 1
    } else {
        index
    }
}

/// The row that gets the focus first: the first one that asks for it. A row
/// that is not a result row ends the search where it stands; where no row
/// asks, the position after the last.
pub open spec fn first_focus(spawn_focus: Seq<Option<bool>>) -> int
    decreases spawn_focus.len(),
{
    if spawn_focus.len() == 0 {
        0
    } else if spawn_focus[0] != Some(false) {
        0
    } else {
        1 + first_focus(spawn_focus.drop_first())
    }
}

proof fn lemma_first_focus_stop(s: Seq<Option<bool>>, k: int)
    requires
        0 <= k <= s.len(),
        forall|j: int| 0 <= j < k ==> s[j] == Some(false),
        k < s.len() ==> s[k] != Some(false),
    ensures
        first_focus(s) == k,
    decreases s.len(),
{
    if k > 0 {
        assert forall|j: int| 0 <= j < k - 1 implies s.drop_first()[j] == Some(false) by {
            assert(s.drop_first()[j] == s[j + 1]);
        }
        lemma_first_focus_stop(s.drop_first(), k - 1);
    }
}

/// The row that the list's `focus_first` selects, and whether that changes
/// the selection; `None` where the list is empty. `spawn_focus` holds, for
/// each row, whether it asks for the focus, or `None` for a row that is not
/// a result row.
pub fn focus_first(current: u32, spawn_focus: &Vec<Option<bool>>) -> (r: Option<(u32, bool)>)
    requires
        spawn_focus@.len() <= u32::MAX,
    ensures
        match r {
            None => spawn_focus@.len() == 0,
            Some((i, changed)) => {
                &&& spawn_focus@.len() > 0
                &&& i == first_focus(spawn_focus@)
                &&& changed == (i != current)
            },
        },
{
    let n = spawn_focus.len();
    if n == 0 {
        return None;
    }
    let mut i: usize = 0;
    while i < n && matches!(spawn_focus[i], Some(false))
        invariant
            n == spawn_focus@.len(),
            i <= n,
            forall|j: int| 0 <= j < i ==> spawn_focus@[j] == Some(false),
        decreases n - i,
    {
        i = i + 1;
    }
    proof {
        lemma_first_focus_stop(spawn_focus@, i as int);
    }
    let idx = i as u32;
    Some((idx, idx != current))
}

/// Whether `focus_first` reports a change: the selection moved, or the
/// selected row belongs to the current mode (`all` where none is set),
/// compared without surrounding whitespace.
pub fn focus_first_changed(changed: bool, selected_alias: &str, current_mode: Option<&str>) -> (r:
    bool)
    ensures
        r == (changed || selected_alias@ == crate::text::trim(
            match current_mode {
                Some(m) => m@,
                None => "all"@,
            },
        )),
{
    if changed {
        return true;
    }
    let mode = match current_mode {
        Some(m) => trim_str(m),
        None => trim_str("all"),
    };
    crate::text::str_eq(selected_alias, mode.as_str())
}

/// Whether the grid's `focus_first` moves the selection to the first item:
/// only where there are items and the first is not already selected.
pub fn grid_focus_first(current: u32, n_items: u32) -> (r: bool)
    ensures
        r == (n_items != 0 && current != 0),
{
    n_items != 0 && current != 0
}

/// The selection index as the grid reads it: a `u32` taken as an `i32`.
pub open spec fn as_signed(x: u32) -> int {
    if x <= i32::MAX {
        x as int
    } else {
        x - 0x1_0000_0000
    }
}

/// The grid selection after moving by `offset`: none where the sum leaves
/// the `i32` range, else the sum kept between the first and the last item.
pub open spec fn offset_index(current: u32, n_items: u32, offset: i32) -> Option<int> {
    let sum = offset + as_signed(current);
    if sum < i32::MIN || sum > i32::MAX {
        None
    } else if sum < 0 {
        Some(0)
    } else if sum > n_items - 1 {
        Some(n_items - 1)
    } else {
        Some(sum)
    }
}

/// Selection after the grid's `focus_offset`.
pub fn focus_offset(current: u32, n_items: u32, offset: i32) -> (r: Option<u32>)
    requires
        1 <= n_items <= i32::MAX,
    ensures
        match r {
            Some(i) => offset_index(current, n_items, offset) == Some(i as int),
            None => offset_index(current, n_items, offset) is None,
        },
{
    let cur: i64 = if current <= 0x7fff_ffffu32 {
        current as i64
    } else {
        current as i64 - 0x1_0000_0000i64
    };
    let sum: i64 = offset as i64 + cur;
    if sum < -0x8000_0000i64 || sum > 0x7fff_ffffi64 {
        return None;
    }
    let last: i64 = n_items as i64 - 1;
    let clamped: i64 = if sum < 0 {
        0
    } else if sum > last {
        last
    } else {
        sum
    };
    Some(clamped as u32)
}

/// How far up or down one row of the emoji grid is: one item per fifty
/// pixels of width, at most ten.
pub open spec fn row_offset(width: i32) -> int {
    let q = if width >= 0 {
        width / 50
    } else {
        -((-width) / 50)
    };
    if q < 10 {
        q
    } else {
        10
    }
}

pub fn grid_row_offset(width: i32) -> (r: i32)
    ensures
        r == row_offset(width),
{
    let q: i64 = if width >= 0 {
        width as i64 / 50
    } else {
        -((-(width as i64)) / 50)
    };
    if q < 10 {
        q as i32
    } else {
        10
    }
}

/// Key bindings that the configuration can set for moving back and forth,
/// each with an optional modifier mask.
pub struct ConfKeys {
    pub prev: Option<u32>,
    pub prev_mod: Option<u32>,
    pub next: Option<u32>,
    pub next_mod: Option<u32>,
}

pub const KEY_UP: u32 = 0xff52;

pub const KEY_DOWN: u32 = 0xff54;

pub const KEY_LEFT: u32 = 0xff51;

pub const KEY_RIGHT: u32 = 0xff53;

pub const KEY_BACKSPACE: u32 = 0xff08;

pub const KEY_RETURN: u32 = 0xff0d;

/// What a key press on the emoji grid does.
#[derive(PartialEq, Eq, Structural)]
pub enum GridAction {
    /// Let the key through.
    Pass,
    /// The key is taken and nothing else happens.
    Swallow,
    Prev,
    Next,
    RowUp,
    RowDown,
    /// Go back to the search page and drop the emoji page.
    Leave,
    /// Activate the selected emoji.
    Activate,
}

/// Whether the held modifiers include the mask; no mask always matches.
pub open spec fn mods_match(mask: Option<u32>, modifiers: u32) -> bool {
    match mask {
        Some(m) => modifiers & m == m,
        None => true,
    }
}

pub open spec fn grid_action(
    on_page: bool,
    key: u32,
    modifiers: u32,
    binds: ConfKeys,
    search_empty: bool,
) -> GridAction {
    if !on_page {
        GridAction::Pass
    } else if binds.prev == Some(key) && mods_match(binds.prev_mod, modifiers) {
        GridAction::Prev
    } else if binds.next == Some(key) && mods_match(binds.next_mod, modifiers) {
        GridAction::Next
    } else if key == KEY_UP {
        GridAction::RowUp
    } else if key == KEY_DOWN {
        GridAction::RowDown
    } else if key == KEY_LEFT {
        GridAction::Prev
    } else if key == KEY_RIGHT {
        GridAction::Next
    } else if key == KEY_BACKSPACE {
        if search_empty {
            GridAction::Leave
        } else {
            GridAction::Pass
        }
    } else if key == KEY_RETURN {
        GridAction::Activate
    } else {
        GridAction::Pass
    }
}

fn mods_ok(mask: Option<u32>, modifiers: u32) -> (r: bool)
    ensures
        r == mods_match(mask, modifiers),
{
    match mask {
        Some(m) => modifiers & m == m,
        None => true,
    }
}

/// What a key press does on the emoji grid; keys are only handled while the
/// emoji page is shown. Backspace leaves the page only on an empty search.
pub fn grid_key(on_page: bool, key: u32, modifiers: u32, binds: &ConfKeys, search_empty: bool) -> (r:
    GridAction)
    ensures
        r == grid_action(on_page, key, modifiers, *binds, search_empty),
{
    if !on_page {
        GridAction::Pass
    } else if binds.prev == Some(key) && mods_ok(binds.prev_mod, modifiers) {
        GridAction::Prev
    } else if binds.next == Some(key) && mods_ok(binds.next_mod, modifiers) {
        GridAction::Next
    } else if key == KEY_UP {
        GridAction::RowUp
    } else if key == KEY_DOWN {
        GridAction::RowDown
    } else if key == KEY_LEFT {
        GridAction::Prev
    } else if key == KEY_RIGHT {
        GridAction::Next
    } else if key == KEY_BACKSPACE {
        if search_empty {
            GridAction::Leave
        } else {
            GridAction::Pass
        }
    } else if key == KEY_RETURN {
        GridAction::Activate
    } else {
        GridAction::Pass
    }
}

/// The number of items shown at most while filtering the emoji grid.
pub const EMOJI_LIMIT: usize = 80;

/// How many of the titles before `k` match the query.
pub open spec fn matches_before(titles: Seq<String>, query: Seq<char>, k: int) -> int
    decreases k,
{
    if k <= 0 {
        0
    } else {
        matches_before(titles, query, k - 1) + if fuzzy(titles[k - 1]@, query) {
            1int
        } else {
            0int
        }
    }
}

/// Whether the emoji at `i` is shown: it matches and fewer than the limit
/// matched before it.
pub open spec fn emoji_shown(titles: Seq<String>, query: Seq<char>, i: int) -> bool {
    fuzzy(titles[i]@, query) && matches_before(titles, query, i) < EMOJI_LIMIT
}

/// Which emojis the filter shows, in model order, for a search text: the
/// first eighty that match.
pub fn emoji_filter(titles: &Vec<String>, query: &str) -> (shown: Vec<bool>)
    ensures
        shown@.len() == titles@.len(),
        forall|i: int| 0 <= i < titles@.len() ==> shown@[i] == emoji_shown(titles@, query@, i),
{
    let mut shown: Vec<bool> = Vec::new();
    let mut count: usize = 0;
    let mut i: usize = 0;
    while i < titles.len()
        invariant
            i <= titles@.len(),
            shown@.len() == i,
            count == if matches_before(titles@, query@, i as int) < EMOJI_LIMIT {
                matches_before(titles@, query@, i as int)
            } else {
                EMOJI_LIMIT as int
            },
            forall|j: int| 0 <= j < i ==> shown@[j] == emoji_shown(titles@, query@, j),
        decreases titles@.len() - i,
    {
        if count >= EMOJI_LIMIT {
            shown.push(false);
        } else {
            let m = titles[i].fuzzy_match(query);
            if m {
                count = count + 1;
            }
            shown.push(m);
        }
        i = i + 1;
    }
    shown
}

/// The edit distance of two texts: the fewest insertions, deletions and
/// substitutions of single characters that turn one into the other.
pub open spec fn edit_distance(a: Seq<char>, b: Seq<char>) -> nat
    decreases a.len() + b.len(),
{
    if a.len() == 0 {
        b.len()
    } else if b.len() == 0 {
        a.len()
    } else {
        let replace = edit_distance(a.drop_last(), b.drop_last()) + if a.last() == b.last() {
            0nat
        } else {
            1nat
        };
        let delete = edit_distance(a.drop_last(), b) + 1;
        let insert = edit_distance(a, b.drop_last()) + 1;
        if replace <= delete && replace <= insert {
            replace
        } else if delete <= insert {
            delete
        } else {
            insert
        }
    }
}

/// Calls `levenshtein::levenshtein`.
///
/// Trusted: its source computes the Levenshtein distance of the two texts
/// over their characters, row by row over a single vector of costs.
#[verifier::external_body]
fn levenshtein(a: &str, b: &str) -> (r: usize)
    ensures
        r == edit_distance(a@, b@),
{
    levenshtein::levenshtein(a, b)
}

/// The order of two emojis in the grid.
#[derive(PartialEq, Eq, Structural)]
pub enum GridOrder {
    Less,
    Equal,
    Greater,
}

pub open spec fn compare_nat(a: nat, b: nat) -> GridOrder {
    if a < b {
        GridOrder::Less
    } else if a == b {
        GridOrder::Equal
    } else {
        GridOrder::Greater
    }
}

/// The grid's sort order: while a search text is typed all emojis compare
/// equal, so the filter's order stands; on an empty search, shorter names
/// come first (their distance to the empty text is their length).
pub open spec fn emoji_order(a: Seq<char>, b: Seq<char>, query: Seq<char>) -> GridOrder {
    if query.len() != 0 {
        GridOrder::Equal
    } else {
        compare_nat(a.len(), b.len())
    }
}

/// Compares two emoji names for the grid's sorter.
pub fn emoji_compare(a: &str, b: &str, query: &str) -> (r: GridOrder)
    requires
        a@.len() < 0x100_0000,
        b@.len() < 0x100_0000,
    ensures
        r == emoji_order(a@, b@, query@),
{
    let pa = levenshtein(a, query);
    let pb = levenshtein(b, query);
    if query.unicode_len() != 0 {
        return GridOrder::Equal;
    }
    if pa < pb {
        GridOrder::Less
    } else if pa == pb {
        GridOrder::Equal
    } else {
        GridOrder::Greater
    }
}

/// The row a numbered shortcut runs: the first row from `index` on that
/// shows a shortcut. `shortcut` holds, for each row, whether it shows one,
/// or `None` for a row that is not a result row.
pub open spec fn shortcut_row(index: int, shortcut: Seq<Option<bool>>) -> Option<int>
    decreases shortcut.len() - index,
{
    if index < 0 || index >= shortcut.len() {
        None
    } else if shortcut[index] == Some(true) {
        Some(index)
    } else {
        shortcut_row(index + 1, shortcut)
    }
}

pub fn execute_target(index: u32, shortcut: &Vec<Option<bool>>) -> (r: Option<usize>)
    ensures
        match r {
            Some(i) => shortcut_row(index as int, shortcut@) == Some(i as int),
            None => shortcut_row(index as int, shortcut@) is None,
        },
{
    let mut i: usize = index as usize;
    while i < shortcut.len()
        invariant
            index <= i,
            shortcut_row(index as int, shortcut@) == shortcut_row(i as int, shortcut@),
        decreases shortcut@.len() - i,
    {
        if matches!(shortcut[i], Some(true)) {
            return Some(i);
        }
        i = i + 1;
    }
    None
}

/// The selected item, where the list has any.
pub fn selected_item(selected: Option<u32>, n_items: u32) -> (r: Option<u32>)
    ensures
        r == if n_items == 0 {
            None
        } else {
            selected
        },
{
    if n_items == 0 {
        None
    } else {
        selected
    }
}

/// Moving through a list never leaves it: from a row of the list, the
/// next and the previous selection are rows of the list too.
pub proof fn lemma_moves_stay_in_list(index: u32, n_items: u32)
    requires
        index < n_items,
    ensures
        next_index(index, n_items) matches Some(i) && i < n_items,
        prev_index(index) < n_items,
{
}

/// Moving through the grid by an offset lands on an item of the grid.
pub proof fn lemma_offset_stays_in_grid(current: u32, n_items: u32, offset: i32)
    requires
        n_items >= 1,
    ensures
        offset_index(current, n_items, offset) matches Some(i) ==> 0 <= i < n_items,
{
}

/// How many of the emojis before `k` are shown.
pub open spec fn shown_before(titles: Seq<String>, query: Seq<char>, k: int) -> int
    decreases k,
{
    if k <= 0 {
        0
    } else {
        shown_before(titles, query, k - 1) + if emoji_shown(titles, query, k - 1) {
            1int
        } else {
            0int
        }
    }
}

proof fn lemma_shown_is_capped_matches(titles: Seq<String>, query: Seq<char>, k: int)
    requires
        0 <= k <= titles.len(),
    ensures
        shown_before(titles, query, k) == if matches_before(titles, query, k) < EMOJI_LIMIT {
            matches_before(titles, query, k)
        } else {
            EMOJI_LIMIT as int
        },
    decreases k,
{
    if k > 0 {
        lemma_shown_is_capped_matches(titles, query, k - 1);
        lemma_matches_before_nonneg(titles, query, k - 1);
    }
}

proof fn lemma_matches_before_nonneg(titles: Seq<String>, query: Seq<char>, k: int)
    ensures
        matches_before(titles, query, k) >= 0,
    decreases k,
{
    if k > 0 {
        lemma_matches_before_nonneg(titles, query, k - 1);
    }
}

/// The emoji grid shows at most eighty emojis for any search.
pub proof fn lemma_emoji_limit(titles: Seq<String>, query: Seq<char>)
    ensures
        shown_before(titles, query, titles.len() as int) <= EMOJI_LIMIT,
{
    lemma_shown_is_capped_matches(titles, query, titles.len() as int);
}

} // verus!
