//! State of the application picker: which entries it knows, which of them
//! the current search shows, and which row is selected.

use vstd::prelude::*;
use vstd::string::*;
use vstd::utf8::encode_utf8;
use crate::config::{copy_entries, entries_text, AppEntry, ConfigLoad, EntryText};
use crate::fuzzy::{fuzzy_bytes, fuzzy_spec};
use crate::pickers::{Picker, PickerKind};

verus! {

/// Icon and tooltip of the search-mode button while searching by name.
pub const NAME_MODE_ICON: &'static str = "edit-find-symbolic";

pub const NAME_MODE_TOOLTIP: &'static str = "Search by name";

/// Icon and tooltip of the search-mode button while searching by generic
/// name and description.
pub const DETAIL_MODE_ICON: &'static str = "dialog-information-symbolic";

pub const DETAIL_MODE_TOOLTIP: &'static str = "Search by generic + description";

/// The bytes of an optional text; no text counts as the empty text.
pub open spec fn bytes_or_empty(text: Option<Seq<char>>) -> Seq<u8> {
    match text {
        Some(t) => encode_utf8(t),
        None => Seq::<u8>::empty(),
    }
}

/// Whether an entry passes the search: by its name in name mode, by its
/// generic name or its description otherwise.
pub open spec fn entry_matches(entry: EntryText, by_name: bool, pattern: Seq<u8>) -> bool {
    if by_name {
        fuzzy_spec(encode_utf8(entry.name), pattern)
    } else {
        fuzzy_spec(bytes_or_empty(entry.genc), pattern) || fuzzy_spec(
            bytes_or_empty(entry.desc),
            pattern,
        )
    }
}

/// `shown` lists, in rising order, exactly the positions of the entries that
/// pass the search.
pub open spec fn is_filter_of(
    shown: Seq<int>,
    apps: Seq<EntryText>,
    by_name: bool,
    pattern: Seq<u8>,
) -> bool {
    &&& forall|r: int|
        0 <= r < shown.len() ==> 0 <= #[trigger] shown[r] < apps.len() && entry_matches(
            apps[shown[r]],
            by_name,
            pattern,
        )
    &&& forall|r: int, s: int| 0 <= r < s < shown.len() ==> #[trigger] shown[r] < #[trigger] shown[s]
    &&& forall|i: int|
        0 <= i < apps.len() && #[trigger] entry_matches(apps[i], by_name, pattern)
            ==> shown.contains(i)
}

/// The list that shows every one of `n` entries: `0, 1, .., n - 1`.
pub open spec fn all_rows(n: nat) -> Seq<int> {
    Seq::new(n, |i: int| i)
}

/// The picker's state as plain values.
pub struct AppPickerText {
    /// Search by name (`true`) or by generic name and description.
    pub name_fuzz: bool,
    /// The selected row.
    pub selected: nat,
    /// All known entries.
    pub apps: Seq<EntryText>,
    /// For each row of the list, the position of its entry in `apps`.
    pub shown: Seq<int>,
}

/// A key the picker reacts to.
#[derive(PartialEq, Eq, Structural, Clone, Copy, Debug)]
pub enum Key {
    Escape,
    Return,
    Up,
    Down,
    Other,
}

/// What the window has to do after a key press.
#[derive(PartialEq, Eq, Structural, Clone, Copy, Debug)]
pub struct KeyOutcome {
    /// The key was consumed and must not travel further.
    pub handled: bool,
    /// Empty the search field.
    pub clear_input: bool,
    /// The search mode changed; refresh the mode button.
    pub mode_toggled: bool,
    /// Move the list's selection to `selected`.
    pub reselect: bool,
    /// The picker is done; the window is to be hidden.
    pub done: bool,
}

/// State of the application picker.
pub struct AppPickerState {
    name_fuzz: bool,
    selected: usize,
    all_apps: Vec<AppEntry>,
    shown: Vec<usize>,
}

/// The row that `Up` moves to.
pub open spec fn row_above(selected: nat, rows: nat) -> nat {
    if rows == 0 {
        selected
    } else if selected > 0 {
        (selected - 1) as nat
    } else {
        (rows - 1) as nat
    }
}

/// The row that `Down` moves to.
pub open spec fn row_below(selected: nat, rows: nat) -> nat {
    if rows == 0 {
        selected
    } else if selected + 1 < rows {
        selected + 1
    } else {
        0
    }
}

/// The state after a key press.
pub open spec fn after_key(s: AppPickerText, key: Key, ctrl: bool, input_empty: bool) -> AppPickerText {
    match key {
        Key::Escape if ctrl => AppPickerText {
            name_fuzz: if input_empty {
                !s.name_fuzz
            } else {
                s.name_fuzz
            },
            ..s
        },
        Key::Escape | Key::Return => AppPickerText { selected: 0, ..s },
        Key::Up => AppPickerText { selected: row_above(s.selected, s.shown.len()), ..s },
        Key::Down => AppPickerText { selected: row_below(s.selected, s.shown.len()), ..s },
        Key::Other => s,
    }
}

/// What the window is told after a key press.
pub open spec fn key_outcome(s: AppPickerText, key: Key, ctrl: bool, input_empty: bool) -> KeyOutcome {
    match key {
        Key::Escape if ctrl => KeyOutcome {
            handled: true,
            clear_input: true,
            mode_toggled: input_empty,
            reselect: false,
            done: false,
        },
        Key::Escape | Key::Return => KeyOutcome {
            handled: true,
            clear_input: true,
            mode_toggled: false,
            reselect: true,
            done: true,
        },
        Key::Up | Key::Down => KeyOutcome {
            handled: true,
            clear_input: false,
            mode_toggled: false,
            reselect: s.shown.len() > 0,
            done: false,
        },
        Key::Other => KeyOutcome {
            handled: false,
            clear_input: false,
            mode_toggled: false,
            reselect: false,
            done: false,
        },
    }
}

/// The state after taking a configuration: its entries, all of them shown,
/// searched by name; the selected row stays.
pub open spec fn after_reload(s: AppPickerText, apps: Seq<EntryText>) -> AppPickerText {
    AppPickerText { name_fuzz: true, selected: s.selected, apps, shown: all_rows(apps.len()) }
}

/// The state after preparing to be shown: every entry listed, the first row
/// selected, searched by name.
pub open spec fn after_show(s: AppPickerText) -> AppPickerText {
    AppPickerText { name_fuzz: true, selected: 0, apps: s.apps, shown: all_rows(s.apps.len()) }
}

impl View for AppPickerState {
    type V = AppPickerText;

    closed spec fn view(&self) -> AppPickerText {
        AppPickerText {
            name_fuzz: self.name_fuzz,
            selected: self.selected as nat,
            apps: entries_text(self.all_apps@),
            shown: Seq::new(self.shown@.len(), |r: int| self.shown@[r] as int),
        }
    }
}

/// Every row names an entry, and the rows follow the entries' order.
pub open spec fn rows_valid(s: AppPickerText) -> bool {
    &&& forall|r: int| 0 <= r < s.shown.len() ==> 0 <= #[trigger] s.shown[r] < s.apps.len()
    &&& forall|r: int, t: int|
        0 <= r < t < s.shown.len() ==> #[trigger] s.shown[r] < #[trigger] s.shown[t]
}

fn all_indices(n: usize) -> (rows: Vec<usize>)
    ensures
        rows@.len() == n,
        forall|r: int| 0 <= r < n ==> #[trigger] rows@[r] == r,
{
    let mut rows: Vec<usize> = Vec::new();
    let mut i: usize = 0;
    while i < n
        invariant
            0 <= i <= n,
            rows@.len() == i,
            forall|r: int| 0 <= r < i ==> #[trigger] rows@[r] == r,
        decreases n - i,
    {
        rows.push(i);
        i = i + 1;
    }
    rows
}

fn text_matches(text: &Option<String>, pattern: &[u8]) -> (found: bool)
    ensures
        found == fuzzy_spec(bytes_or_empty(crate::config::text_of(*text)), pattern@),
{
    match text {
        Some(t) => fuzzy_bytes(t.as_str().as_bytes(), pattern),
        None => {
            let nothing: Vec<u8> = Vec::new();
            assert(nothing@ =~= Seq::<u8>::empty());
            fuzzy_bytes(nothing.as_slice(), pattern)
        },
    }
}

fn matches_entry(entry: &AppEntry, by_name: bool, pattern: &[u8]) -> (found: bool)
    ensures
        found == entry_matches(entry@, by_name, pattern@),
{
    if by_name {
        fuzzy_bytes(entry.name.as_str().as_bytes(), pattern)
    } else {
        text_matches(&entry.genc, pattern) || text_matches(&entry.desc, pattern)
    }
}

impl AppPickerState {
    /// Every row names a known entry, and the rows follow the entries'
    /// order.
    #[verifier::type_invariant]
    closed spec fn rows_in_order(self) -> bool {
        &&& forall|r: int|
            0 <= r < self.shown@.len() ==> (#[trigger] self.shown@[r]) < self.all_apps@.len()
        &&& forall|r: int, t: int|
            0 <= r < t < self.shown@.len() ==> (#[trigger] self.shown@[r])
                < (#[trigger] self.shown@[t])
    }

    /// A picker that knows no entries yet and searches by name.
    pub fn new() -> (state: Self)
        ensures
            state@ == (AppPickerText {
                name_fuzz: true,
                selected: 0,
                apps: Seq::<EntryText>::empty(),
                shown: Seq::<int>::empty(),
            }),
            rows_valid(state@),
    {
        let state = AppPickerState {
            name_fuzz: true,
            selected: 0,
            all_apps: Vec::new(),
            shown: Vec::new(),
        };
        assert(state@.apps =~= Seq::<EntryText>::empty());
        assert(state@.shown =~= Seq::<int>::empty());
        state
    }

    /// Whether the search goes by name.
    pub fn name_fuzz(&self) -> (by_name: bool)
        ensures
            by_name == self@.name_fuzz,
    {
        self.name_fuzz
    }

    /// The selected row.
    pub fn selected(&self) -> (row: usize)
        ensures
            row == self@.selected,
    {
        self.selected
    }

    /// Number of rows the list shows.
    pub fn fil_apps(&self) -> (rows: usize)
        ensures
            rows == self@.shown.len(),
    {
        self.shown.len()
    }

    /// Number of known entries.
    pub fn app_count(&self) -> (n: usize)
        ensures
            n == self@.apps.len(),
    {
        self.all_apps.len()
    }

    /// The entry at position `i` of all known entries.
    pub fn app(&self, i: usize) -> (entry: Option<&AppEntry>)
        ensures
            i >= self@.apps.len() ==> entry.is_none(),
            i < self@.apps.len() ==> entry.is_some() && entry.unwrap()@ == self@.apps[i as int],
    {
        if i < self.all_apps.len() {
            Some(&self.all_apps[i])
        } else {
            None
        }
    }

    /// For each row of the list, the position of its entry. Every row
    /// names a known entry, and the rows follow the entries' order.
    pub fn shown(&self) -> (rows: Vec<usize>)
        ensures
            rows@.len() == self@.shown.len(),
            forall|r: int| 0 <= r < rows@.len() ==> #[trigger] rows@[r] == self@.shown[r],
            rows_valid(self@),
    {
        proof {
            use_type_invariant(self);
        }
        let mut rows: Vec<usize> = Vec::new();
        let mut r: usize = 0;
        while r < self.shown.len()
            invariant
                0 <= r <= self.shown@.len(),
                rows@.len() == r,
                forall|k: int| 0 <= k < r ==> #[trigger] rows@[k] == self.shown@[k],
            decreases self.shown.len() - r,
        {
            rows.push(self.shown[r]);
            r = r + 1;
        }
        rows
    }

    /// Icon name for the search-mode button.
    pub fn mode_icon(&self) -> (icon: &'static str)
        ensures
            icon@ == if self@.name_fuzz {
                NAME_MODE_ICON@
            } else {
                DETAIL_MODE_ICON@
            },
    {
        if self.name_fuzz {
            NAME_MODE_ICON
        } else {
            DETAIL_MODE_ICON
        }
    }

    /// Tooltip for the search-mode button.
    pub fn mode_tooltip(&self) -> (tooltip: &'static str)
        ensures
            tooltip@ == if self@.name_fuzz {
                NAME_MODE_TOOLTIP@
            } else {
                DETAIL_MODE_TOOLTIP@
            },
    {
        if self.name_fuzz {
            NAME_MODE_TOOLTIP
        } else {
            DETAIL_MODE_TOOLTIP
        }
    }

    /// Switches between searching by name and searching by generic name and
    /// description. Returns the new mode.
    pub fn toggle_fuzzy_search_mode(&mut self) -> (by_name: bool)
        ensures
            by_name == !old(self)@.name_fuzz,
            final(self)@ == (AppPickerText { name_fuzz: by_name, ..old(self)@ }),
            rows_valid(final(self)@),
    {
        proof {
            use_type_invariant(&*self);
        }
        self.name_fuzz = !self.name_fuzz;
        assert(self@.shown =~= old(self)@.shown);
        self.name_fuzz
    }

    /// Lists exactly the entries that pass the search for `pattern` in the
    /// current mode, in the order of the entries. A selection beyond the
    /// list falls back to the first row.
    pub fn populate_app_list(&mut self, pattern: &str)
        ensures
            final(self)@.name_fuzz == old(self)@.name_fuzz,
            final(self)@.apps == old(self)@.apps,
            is_filter_of(
                final(self)@.shown,
                old(self)@.apps,
                old(self)@.name_fuzz,
                pattern.spec_bytes(),
            ),
            final(self)@.selected == if old(self)@.selected > final(self)@.shown.len() {
                0
            } else {
                old(self)@.selected
            },
            rows_valid(final(self)@),
    {
        proof {
            use_type_invariant(&*self);
        }
        let needle = pattern.as_bytes();
        let mut rows: Vec<usize> = Vec::new();
        let mut i: usize = 0;
        let ghost apps = self@.apps;
        let by_name = self.name_fuzz;
        while i < self.all_apps.len()
            invariant
                0 <= i <= self.all_apps@.len(),
                apps == entries_text(self.all_apps@),
                needle@ == pattern.spec_bytes(),
                forall|r: int|
                    0 <= r < rows@.len() ==> 0 <= #[trigger] rows@[r] < i && entry_matches(
                        apps[rows@[r] as int],
                        by_name,
                        needle@,
                    ),
                forall|r: int, s: int|
                    0 <= r < s < rows@.len() ==> #[trigger] rows@[r] < #[trigger] rows@[s],
                forall|k: int|
                    0 <= k < i && #[trigger] entry_matches(apps[k], by_name, needle@) ==> exists|
                        r: int,
                    |
                        0 <= r < rows@.len() && #[trigger] rows@[r] == k,
            decreases self.all_apps.len() - i,
        {
            if matches_entry(&self.all_apps[i], by_name, needle) {
                let ghost before = rows@;
                rows.push(i);
                proof {
                    assert forall|k: int|
                        0 <= k < i + 1 && #[trigger] entry_matches(
                            apps[k],
                            by_name,
                            needle@,
                        ) implies exists|r: int| 0 <= r < rows@.len() && #[trigger] rows@[r] == k by {
                        if k < i {
                            let r = choose|r: int| 0 <= r < before.len() && #[trigger] before[r] == k;
                            assert(rows@[r] == k);
                        } else {
                            assert(rows@[rows@.len() - 1] == k);
                        }
                    }
                }
            }
            i = i + 1;
        }
        self.shown = rows;
        if self.selected > self.shown.len() {
            self.selected = 0;
        }
        proof {
            let shown = self@.shown;
            assert forall|k: int|
                0 <= k < apps.len() && #[trigger] entry_matches(
                    apps[k],
                    by_name,
                    needle@,
                ) implies shown.contains(k) by {
                let r = choose|r: int| 0 <= r < self.shown@.len() && #[trigger] self.shown@[r] == k;
                assert(shown[r] == k);
            }
        }
    }

    /// Reacts to a key press while the picker is shown. `ctrl` tells whether
    /// the control key is held, `input_empty` whether the search field is
    /// empty.
    pub fn key_pressed(&mut self, key: Key, ctrl: bool, input_empty: bool) -> (outcome: KeyOutcome)
        ensures
            final(self)@ == after_key(old(self)@, key, ctrl, input_empty),
            outcome == key_outcome(old(self)@, key, ctrl, input_empty),
            rows_valid(final(self)@),
    {
        proof {
            use_type_invariant(&*self);
        }
        let rows = self.shown.len();
        let outcome = match key {
            Key::Escape | Key::Return => {
                if ctrl && key == Key::Escape {
                    if input_empty {
                        self.name_fuzz = !self.name_fuzz;
                    }
                    KeyOutcome {
                        handled: true,
                        clear_input: true,
                        mode_toggled: input_empty,
                        reselect: false,
                        done: false,
                    }
                } else {
                    self.selected = 0;
                    KeyOutcome {
                        handled: true,
                        clear_input: true,
                        mode_toggled: false,
                        reselect: true,
                        done: true,
                    }
                }
            },
            Key::Up => {
                if rows > 0 {
                    if self.selected > 0 {
                        self.selected = self.selected - 1;
                    } else {
                        self.selected = rows - 1;
                    }
                }
                KeyOutcome {
                    handled: true,
                    clear_input: false,
                    mode_toggled: false,
                    reselect: rows > 0,
                    done: false,
                }
            },
            Key::Down => {
                if rows > 0 {
                    if self.selected < rows - 1 {
                        self.selected = self.selected + 1;
                    } else {
                        self.selected = 0;
                    }
                }
                KeyOutcome {
                    handled: true,
                    clear_input: false,
                    mode_toggled: false,
                    reselect: rows > 0,
                    done: false,
                }
            },
            Key::Other => KeyOutcome {
                handled: false,
                clear_input: false,
                mode_toggled: false,
                reselect: false,
                done: false,
            },
        };
        assert(self@.shown =~= old(self)@.shown);
        outcome
    }

    /// The entry of the selected row, which is what confirming the search
    /// launches; `None` exactly when the selection is beyond the list.
    pub fn activate(&self) -> (entry: Option<&AppEntry>)
        ensures
            self@.selected >= self@.shown.len() ==> entry.is_none(),
            self@.selected < self@.shown.len() ==> entry.is_some() && entry.unwrap()@
                == self@.apps[self@.shown[self@.selected as int]],
    {
        proof {
            use_type_invariant(self);
        }
        if self.selected < self.shown.len() {
            let at: usize = self.shown[self.selected];
            assert(self@.shown[self.selected as int] == at);
            Some(&self.all_apps[at])
        } else {
            None
        }
    }
}

impl Picker for AppPickerState {
    open spec fn kind_spec(&self) -> PickerKind {
        PickerKind::Apps
    }

    open spec fn load_post(before: Self, config: ConfigLoad, after: Self, ready: bool) -> bool {
        &&& ready
        &&& after@ == (AppPickerText {
            selected: if before@.selected > config@.apps.len() {
                0
            } else {
                before@.selected
            },
            ..after_reload(before@, config@.apps)
        })
        &&& rows_valid(after@)
    }

    open spec fn show_post(before: Self, previous: PickerKind, after: Self, switched: bool) -> bool {
        &&& switched == (previous != PickerKind::Apps)
        &&& after@ == after_show(before@)
        &&& rows_valid(after@)
    }

    open spec fn reload_post(before: Self, config: ConfigLoad, after: Self) -> bool {
        &&& after@ == after_reload(before@, config@.apps)
        &&& rows_valid(after@)
    }

    /// Takes the configuration's entries and lists them all.
    fn load(&mut self, config: &ConfigLoad) -> (ready: bool) {
        proof {
            use_type_invariant(&*self);
        }
        self.reload(config);
        proof {
            use_type_invariant(&*self);
        }
        if self.selected > self.shown.len() {
            self.selected = 0;
        }
        assert(self@.shown =~= all_rows(config@.apps.len()));
        true
    }

    /// Lists every entry, selects the first row and searches by name.
    /// Answers whether another kind, or none, was active before.
    fn show(&mut self, previous: PickerKind) -> (switched: bool) {
        proof {
            use_type_invariant(&*self);
        }
        self.selected = 0;
        self.name_fuzz = true;
        self.shown = all_indices(self.all_apps.len());
        assert(self@.shown =~= all_rows(old(self)@.apps.len()));
        previous != PickerKind::Apps
    }

    fn kind(&self) -> (kind: PickerKind) {
        PickerKind::Apps
    }

    /// Replaces the entries by those of `config`, lists them all and
    /// searches by name; the selected row stays.
    fn reload(&mut self, config: &ConfigLoad) {
        let all_apps = copy_entries(&config.apps);
        let shown = all_indices(all_apps.len());
        *self = AppPickerState { name_fuzz: true, selected: self.selected, all_apps, shown };
        assert(self@.shown =~= all_rows(config@.apps.len()));
    }
}

/// With an empty search every entry is listed, in either mode.
pub proof fn lemma_empty_search_lists_all(apps: Seq<EntryText>, by_name: bool)
    ensures
        is_filter_of(all_rows(apps.len()), apps, by_name, Seq::<u8>::empty()),
{
    let shown = all_rows(apps.len());
    assert forall|r: int| 0 <= r < shown.len() implies 0 <= #[trigger] shown[r] < apps.len()
        && entry_matches(apps[shown[r]], by_name, Seq::<u8>::empty()) by {
        crate::fuzzy::lemma_fuzzy_empty_pattern(encode_utf8(apps[r].name));
        crate::fuzzy::lemma_fuzzy_empty_pattern(bytes_or_empty(apps[r].genc));
    }
    assert forall|i: int|
        0 <= i < apps.len() && #[trigger] entry_matches(
            apps[i],
            by_name,
            Seq::<u8>::empty(),
        ) implies shown.contains(i) by {
        assert(shown[i] == i);
    }
}

/// Only one list is the filter of given entries for a given search.
pub proof fn lemma_filter_unique(
    a: Seq<int>,
    b: Seq<int>,
    apps: Seq<EntryText>,
    by_name: bool,
    pattern: Seq<u8>,
)
    requires
        is_filter_of(a, apps, by_name, pattern),
        is_filter_of(b, apps, by_name, pattern),
    ensures
        a == b,
    decreases a.len() + b.len(),
{
    if a.len() == 0 && b.len() == 0 {
        assert(a =~= b);
    } else if a.len() == 0 {
        assert(a.contains(b[0]));
    } else if b.len() == 0 {
        assert(b.contains(a[0]));
    } else {
        // the greatest listed position is the last element of both lists
        let la = a[a.len() - 1];
        let lb = b[b.len() - 1];
        assert(b.contains(la));
        assert(a.contains(lb));
        let ib = choose|i: int| 0 <= i < b.len() && b[i] == la;
        let ia = choose|i: int| 0 <= i < a.len() && a[i] == lb;
        assert(la <= lb) by {
            if ib < b.len() - 1 {
                assert(b[ib] < b[b.len() - 1]);
            }
        }
        assert(lb <= la) by {
            if ia < a.len() - 1 {
                assert(a[ia] < a[a.len() - 1]);
            }
        }
        let a1 = a.drop_last();
        let b1 = b.drop_last();
        let rest = apps.take(la);
        assert(is_filter_of(a1, rest, by_name, pattern)) by {
            lemma_filter_drop_last(a, apps, by_name, pattern);
        }
        assert(is_filter_of(b1, rest, by_name, pattern)) by {
            lemma_filter_drop_last(b, apps, by_name, pattern);
        }
        lemma_filter_unique(a1, b1, rest, by_name, pattern);
        assert(a =~= a1.push(la));
        assert(b =~= b1.push(lb));
    }
}

proof fn lemma_filter_drop_last(a: Seq<int>, apps: Seq<EntryText>, by_name: bool, pattern: Seq<u8>)
    requires
        is_filter_of(a, apps, by_name, pattern),
        a.len() > 0,
    ensures
        is_filter_of(a.drop_last(), apps.take(a[a.len() - 1]), by_name, pattern),
{
    let last = a[a.len() - 1];
    let a1 = a.drop_last();
    let rest = apps.take(last);
    assert forall|r: int| 0 <= r < a1.len() implies 0 <= #[trigger] a1[r] < rest.len()
        && entry_matches(rest[a1[r]], by_name, pattern) by {
        assert(a1[r] == a[r]);
        assert(a[r] < a[a.len() - 1]);
    }
    assert forall|r: int, s: int| 0 <= r < s < a1.len() implies #[trigger] a1[r] < #[trigger] a1[s] by {
        assert(a1[r] == a[r]);
        assert(a1[s] == a[s]);
    }
    assert forall|i: int|
        0 <= i < rest.len() && #[trigger] entry_matches(rest[i], by_name, pattern) implies a1.contains(
        i,
    ) by {
        assert(rest[i] == apps[i]);
        assert(a.contains(i));
        let r = choose|r: int| 0 <= r < a.len() && a[r] == i;
        assert(r < a.len() - 1);
        assert(a1[r] == i);
    }
}

} // verus!
