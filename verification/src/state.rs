use vstd::prelude::*;

use crate::conn::ConnInfo;
use crate::order::{next_column, sort_conns, sorted_by_column, stable_for, utf8, SortColumn};
use crate::text::{contains_bytes, find_bytes, lower, pop_char, push_char, to_lowercase};

verus! {

/// Which filter string the keyboard is editing.
#[derive(Debug, Clone, Copy, PartialEq, Eq, Structural)]
pub enum FilterMode {
    Off,
    Src,
    Dst,
}

/// A key press, as far as the monitor tells keys apart.
#[derive(Debug, Clone, Copy, PartialEq, Eq, Structural)]
pub enum Key {
    Char(char),
    Esc,
    Backspace,
    Up,
    Down,
    F(u8),
    Other,
}

/// State of the monitor: every known connection, the filtered and sorted
/// list that is shown, and the user's sort, filter and selection.
pub struct AppState {
    /// All known connections, one per key (in order of first appearance).
    pub connections: Vec<ConnInfo>,
    /// The connections that pass the filters, sorted.
    pub visible: Vec<ConnInfo>,
    pub sort_col: SortColumn,
    pub sort_asc: bool,
    pub filter_src: String,
    pub filter_dst: String,
    pub filter_mode: FilterMode,
    /// Index of the selected row of `visible`.
    pub selected: usize,
    pub show_help: bool,
}

// ── Lookup by key ────────────────────────────────────────────────────────────

pub open spec fn has_key_at(s: Seq<ConnInfo>, key: Seq<char>, i: int) -> bool {
    0 <= i < s.len() && s[i].key@ == key
}

/// `i` is the first position of `s` whose connection has `key`.
pub open spec fn first_with_key(s: Seq<ConnInfo>, key: Seq<char>, i: int) -> bool {
    &&& has_key_at(s, key, i)
    &&& forall|j: int| 0 <= j < i ==> !has_key_at(s, key, j)
}

/// The first position of a connection with `key`, if any.
pub open spec fn key_index(s: Seq<ConnInfo>, key: Seq<char>) -> Option<int> {
    if exists|i: int| first_with_key(s, key, i) {
        Some(choose|i: int| first_with_key(s, key, i))
    } else {
        None
    }
}

/// Any position with `key` makes `key_index` find the first one.
pub proof fn lemma_key_index_found(s: Seq<ConnInfo>, key: Seq<char>, i: int)
    requires
        has_key_at(s, key, i),
    ensures
        key_index(s, key) matches Some(f) && first_with_key(s, key, f) && f <= i,
    decreases i,
{
    if exists|j: int| 0 <= j < i && has_key_at(s, key, j) {
        let j = choose|j: int| 0 <= j < i && has_key_at(s, key, j);
        lemma_key_index_found(s, key, j);
    } else {
        assert(first_with_key(s, key, i));
        let f = choose|f: int| first_with_key(s, key, f);
        if f > i {
            assert(!has_key_at(s, key, i));
        }
    }
}

/// Position of the first connection with `key`.
pub fn find_key(s: &Vec<ConnInfo>, key: &String) -> (r: Option<usize>)
    ensures
        match r {
            Some(i) => key_index(s@, key@) == Some(i as int),
            None => key_index(s@, key@) is None,
        },
{
    let n = s.len();
    let mut i: usize = 0;
    while i < n
        invariant
            n == s@.len(),
            i <= n,
            forall|j: int| 0 <= j < i ==> !has_key_at(s@, key@, j),
        decreases n - i,
    {
        if s[i].key == *key {
            proof {
                lemma_key_index_found(s@, key@, i as int);
            }
            return Some(i);
        }
        i = i + 1;
    }
    proof {
        if exists|f: int| first_with_key(s@, key@, f) {
            let f = choose|f: int| first_with_key(s@, key@, f);
            assert(has_key_at(s@, key@, f));
        }
    }
    None
}

// ── Snapshots and merging ────────────────────────────────────────────────────

/// `c` added to a keyed list: it replaces the connection with its key, or
/// is appended.
pub open spec fn keyed_insert(s: Seq<ConnInfo>, c: ConnInfo) -> Seq<ConnInfo> {
    match key_index(s, c.key@) {
        Some(i) => s.update(i, c),
        None => s.push(c),
    }
}

/// The connections of `entries` with one per key, the last entry of each key
/// winning.
pub open spec fn snapshot(entries: Seq<ConnInfo>) -> Seq<ConnInfo>
    decreases entries.len(),
{
    if entries.len() == 0 {
        Seq::empty()
    } else {
        keyed_insert(snapshot(entries.drop_last()), entries.last())
    }
}

/// No two connections of `s` share a key.
pub open spec fn unique_keys(s: Seq<ConnInfo>) -> bool {
    forall|i: int, j: int| 0 <= i < j < s.len() ==> #[trigger] s[i].key@ != #[trigger] s[j].key@
}

/// Collects query results into one connection per key, a later entry for a
/// key replacing an earlier one.
pub fn collect_snapshot(entries: Vec<ConnInfo>) -> (r: Vec<ConnInfo>)
    ensures
        r@ == snapshot(entries@),
        unique_keys(r@),
{
    let mut r: Vec<ConnInfo> = Vec::new();
    let n = entries.len();
    let mut k: usize = 0;
    assert(entries@.take(0) =~= Seq::<ConnInfo>::empty());
    while k < n
        invariant
            n == entries@.len(),
            k <= n,
            r@ == snapshot(entries@.take(k as int)),
        decreases n - k,
    {
        let c = entries[k].duplicate();
        assert(entries@.take(k + 1).drop_last() =~= entries@.take(k as int));
        match find_key(&r, &c.key) {
            Some(i) => {
                r.set(i, c);
            },
            None => {
                r.push(c);
            },
        }
        k = k + 1;
    }
    assert(entries@.take(n as int) =~= entries@);
    proof {
        crate::laws::law_snapshot_keys_unique(entries@);
    }
    r
}

/// `f` merged into the known connections: a known connection with its key is
/// updated, otherwise `f` is added.
pub open spec fn merge_one(s: Seq<ConnInfo>, f: ConnInfo) -> Seq<ConnInfo> {
    match key_index(s, f.key@) {
        Some(i) => s.update(i, ConnInfo::updated(s[i], f)),
        None => s.push(f),
    }
}

/// The known connections after merging every fresh connection in turn.
pub open spec fn merged(s: Seq<ConnInfo>, fresh: Seq<ConnInfo>) -> Seq<ConnInfo>
    decreases fresh.len(),
{
    if fresh.len() == 0 {
        s
    } else {
        merge_one(merged(s, fresh.drop_last()), fresh.last())
    }
}

/// `f` can be merged into the known connections `s` without overflowing a
/// history counter: the known connection it updates, if any, can absorb it.
pub open spec fn fits_next(s: Seq<ConnInfo>, f: ConnInfo) -> bool {
    match key_index(s, f.key@) {
        Some(i) => s[i].can_absorb(f),
        None => true,
    }
}

/// Merging `fresh` in order never overflows a history counter: each fresh
/// connection fits into the known connections as they stand when its turn
/// comes.
pub open spec fn merge_fits(s: Seq<ConnInfo>, fresh: Seq<ConnInfo>) -> bool {
    forall|k: int| 0 <= k < fresh.len() ==> #[trigger] fits_next(merged(s, fresh.take(k)), fresh[k])
}

// ── Filtering ────────────────────────────────────────────────────────────────

/// `c` passes the source and destination filters: each lower-cased filter
/// occurs in the lower-cased address (an empty filter passes everything).
pub open spec fn keep_conn(c: ConnInfo, fsrc: Seq<char>, fdst: Seq<char>) -> bool {
    &&& contains_bytes(utf8(lower(c.src@)), utf8(lower(fsrc)))
    &&& contains_bytes(utf8(lower(c.dst@)), utf8(lower(fdst)))
}

/// The connections of `s` that pass the filters, in order.
pub open spec fn kept(s: Seq<ConnInfo>, fsrc: Seq<char>, fdst: Seq<char>) -> Seq<ConnInfo> {
    s.filter(|c: ConnInfo| keep_conn(c, fsrc, fdst))
}

/// Whether already lower-cased addresses pass already lower-cased filters.
pub fn passes_filter(src_lower: &str, dst_lower: &str, fsrc_lower: &str, fdst_lower: &str) -> (r: bool)
    ensures
        r == (contains_bytes(utf8(src_lower@), utf8(fsrc_lower@)) && contains_bytes(
            utf8(dst_lower@),
            utf8(fdst_lower@),
        )),
{
    let src_ok = fsrc_lower.is_empty() || find_bytes(src_lower.as_bytes(), fsrc_lower.as_bytes());
    let dst_ok = fdst_lower.is_empty() || find_bytes(dst_lower.as_bytes(), fdst_lower.as_bytes());
    proof {
        if fsrc_lower@.len() == 0 {
            assert(utf8(src_lower@).subrange(0, 0) =~= utf8(fsrc_lower@));
            assert(crate::text::occurs_at(utf8(src_lower@), utf8(fsrc_lower@), 0));
        }
        if fdst_lower@.len() == 0 {
            assert(utf8(dst_lower@).subrange(0, 0) =~= utf8(fdst_lower@));
            assert(crate::text::occurs_at(utf8(dst_lower@), utf8(fdst_lower@), 0));
        }
    }
    src_ok && dst_ok
}

/// `sel` moved onto the last row when it lies past the end of `len` rows.
pub open spec fn clamped(sel: usize, len: nat) -> usize {
    if sel >= len && len > 0 {
        (len - 1) as usize
    } else {
        sel
    }
}

/// A filter string after typing `c` into it.
pub open spec fn typed(f: Seq<char>, c: char) -> Seq<char> {
    f.push(c)
}

/// A filter string after a backspace: its last character removed, if any.
pub open spec fn backspaced(f: Seq<char>) -> Seq<char> {
    if f.len() == 0 {
        f
    } else {
        f.drop_last()
    }
}

impl AppState {
    /// `s` with another filter mode.
    pub open spec fn with_mode(s: AppState, m: FilterMode) -> AppState {
        AppState {
            connections: s.connections,
            visible: s.visible,
            sort_col: s.sort_col,
            sort_asc: s.sort_asc,
            filter_src: s.filter_src,
            filter_dst: s.filter_dst,
            filter_mode: m,
            selected: s.selected,
            show_help: s.show_help,
        }
    }

    /// `s` with the help overlay shown or hidden.
    pub open spec fn with_help(s: AppState, h: bool) -> AppState {
        AppState {
            connections: s.connections,
            visible: s.visible,
            sort_col: s.sort_col,
            sort_asc: s.sort_asc,
            filter_src: s.filter_src,
            filter_dst: s.filter_dst,
            filter_mode: s.filter_mode,
            selected: s.selected,
            show_help: h,
        }
    }

    /// `s` with another sort column and direction.
    pub open spec fn with_sort(s: AppState, col: SortColumn, asc: bool) -> AppState {
        AppState {
            connections: s.connections,
            visible: s.visible,
            sort_col: col,
            sort_asc: asc,
            filter_src: s.filter_src,
            filter_dst: s.filter_dst,
            filter_mode: s.filter_mode,
            selected: s.selected,
            show_help: s.show_help,
        }
    }

    /// `new` is `old` with the shown list recomputed.
    pub open spec fn after_recompute(old: AppState, new: AppState) -> bool {
        &&& new.connections@ == old.connections@
        &&& AppState::same_settings(old, new)
        &&& AppState::refreshed(old, new)
    }

    /// `new` is `old` with the filters replaced by `fsrc` and `fdst` (all else
    /// kept) and the shown list recomputed.
    pub open spec fn after_filters(old: AppState, new: AppState, fsrc: Seq<char>, fdst: Seq<char>) -> bool {
        &&& new.connections@ == old.connections@
        &&& new.filter_src@ == fsrc
        &&& new.filter_dst@ == fdst
        &&& new.sort_col == old.sort_col
        &&& new.sort_asc == old.sort_asc
        &&& new.show_help == old.show_help
        &&& AppState::refreshed(old, new)
    }

    /// `visible` is the filtered list of connections, sorted by the chosen
    /// column, ties in the order of `connections`.
    pub open spec fn shows(self) -> bool {
        let k = kept(self.connections@, self.filter_src@, self.filter_dst@);
        &&& self.visible@.to_multiset() == k.to_multiset()
        &&& sorted_by_column(self.sort_col, self.sort_asc, self.visible@)
        &&& stable_for(self.sort_col, k, self.visible@)
    }

    /// `new` has the sort and filter settings, help flag and connections of `old`.
    pub open spec fn same_settings(old: AppState, new: AppState) -> bool {
        &&& new.sort_col == old.sort_col
        &&& new.sort_asc == old.sort_asc
        &&& new.filter_src@ == old.filter_src@
        &&& new.filter_dst@ == old.filter_dst@
        &&& new.filter_mode == old.filter_mode
        &&& new.show_help == old.show_help
    }

    /// `new` shows its connections afresh, with the selection of `old` kept
    /// on the list.
    pub open spec fn refreshed(old: AppState, new: AppState) -> bool {
        &&& new.shows()
        &&& new.selected == clamped(old.selected, new.visible@.len())
    }

    pub fn new() -> (s: AppState)
        ensures
            s.connections@.len() == 0,
            s.visible@.len() == 0,
            s.sort_col == SortColumn::Rtt,
            !s.sort_asc,
            s.filter_src@.len() == 0,
            s.filter_dst@.len() == 0,
            s.filter_mode == FilterMode::Off,
            s.selected == 0,
            !s.show_help,
            s.shows(),
            unique_keys(s.connections@),
    {
        proof {
            reveal_with_fuel(Seq::filter, 1);
        }
        AppState {
            connections: Vec::new(),
            visible: Vec::new(),
            sort_col: SortColumn::Rtt,
            sort_asc: false,
            filter_src: String::new(),
            filter_dst: String::new(),
            filter_mode: FilterMode::Off,
            selected: 0,
            show_help: false,
        }
    }

    /// Merges a fresh snapshot of connections into the state and refreshes
    /// the shown list.
    pub fn merge(&mut self, fresh: Vec<ConnInfo>)
        requires
            merge_fits(old(self).connections@, fresh@),
        ensures
            final(self).connections@ == merged(old(self).connections@, fresh@),
            unique_keys(old(self).connections@) ==> unique_keys(final(self).connections@),
            AppState::same_settings(*old(self), *final(self)),
            AppState::refreshed(*old(self), *final(self)),
    {
        let n = fresh.len();
        let mut k: usize = 0;
        let ghost start = self.connections@;
        assert(fresh@.take(0) =~= Seq::<ConnInfo>::empty());
        while k < n
            invariant
                n == fresh@.len(),
                k <= n,
                self.connections@ == merged(start, fresh@.take(k as int)),
                merge_fits(start, fresh@),
                AppState::same_settings(*old(self), *self),
                self.selected == old(self).selected,
            decreases n - k,
        {
            let f = &fresh[k];
            assert(fresh@.take(k + 1).drop_last() =~= fresh@.take(k as int));
            assert(fits_next(merged(start, fresh@.take(k as int)), fresh@[k as int]));
            match find_key(&self.connections, &f.key) {
                Some(i) => {
                    let mut c = self.connections[i].duplicate();
                    c.update(f);
                    self.connections.set(i, c);
                },
                None => {
                    self.connections.push(f.duplicate());
                },
            }
            k = k + 1;
        }
        assert(fresh@.take(n as int) =~= fresh@);
        proof {
            if unique_keys(start) {
                crate::laws::law_merge_keeps_keys_unique(start, fresh@);
            }
        }
        self.recompute_visible();
    }

    /// Reapplies filter and sort to produce the shown list, keeping the
    /// selection on it.
    pub fn recompute_visible(&mut self)
        ensures
            final(self).connections@ == old(self).connections@,
            AppState::same_settings(*old(self), *final(self)),
            AppState::refreshed(*old(self), *final(self)),
    {
        let src_f = to_lowercase(self.filter_src.as_str());
        let dst_f = to_lowercase(self.filter_dst.as_str());
        let ghost fs = self.filter_src@;
        let ghost fd = self.filter_dst@;
        let ghost pred = |c: ConnInfo| keep_conn(c, fs, fd);
        let mut v: Vec<ConnInfo> = Vec::new();
        let n = self.connections.len();
        let mut i: usize = 0;
        proof {
            reveal_with_fuel(Seq::filter, 1);
            assert(self.connections@.take(0) =~= Seq::<ConnInfo>::empty());
        }
        while i < n
            invariant
                n == self.connections@.len(),
                i <= n,
                src_f@ == lower(fs),
                dst_f@ == lower(fd),
                v@ == self.connections@.take(i as int).filter(pred),
                pred == (|c: ConnInfo| keep_conn(c, fs, fd)),
            decreases n - i,
        {
            let c = &self.connections[i];
            let src_l = to_lowercase(c.src.as_str());
            let dst_l = to_lowercase(c.dst.as_str());
            let keep = passes_filter(src_l.as_str(), dst_l.as_str(), src_f.as_str(), dst_f.as_str());
            proof {
                reveal_with_fuel(Seq::filter, 1);
                assert(self.connections@.take(i + 1).drop_last() =~= self.connections@.take(i as int));
                assert(keep == pred(self.connections@[i as int]));
            }
            if keep {
                v.push(c.duplicate());
            }
            i = i + 1;
        }
        assert(self.connections@.take(n as int) =~= self.connections@);
        let sorted = sort_conns(v, self.sort_col, self.sort_asc);
        self.visible = sorted;
        if self.selected >= self.visible.len() && self.visible.len() > 0 {
            self.selected = self.visible.len() - 1;
        }
    }

    /// Types `c` into the filter being edited and refreshes the list.
    pub fn filter_push(&mut self, c: char)
        ensures
            final(self).filter_mode == old(self).filter_mode,
            AppState::after_filters(
                *old(self),
                *final(self),
                if old(self).filter_mode == FilterMode::Src { typed(old(self).filter_src@, c) } else { old(self).filter_src@ },
                if old(self).filter_mode == FilterMode::Dst { typed(old(self).filter_dst@, c) } else { old(self).filter_dst@ },
            ),
    {
        match self.filter_mode {
            FilterMode::Src => push_char(&mut self.filter_src, c),
            FilterMode::Dst => push_char(&mut self.filter_dst, c),
            FilterMode::Off => {},
        }
        self.recompute_visible();
    }

    /// Removes the last character of the filter being edited and refreshes
    /// the list.
    pub fn filter_backspace(&mut self)
        ensures
            final(self).filter_mode == old(self).filter_mode,
            AppState::after_filters(
                *old(self),
                *final(self),
                if old(self).filter_mode == FilterMode::Src { backspaced(old(self).filter_src@) } else { old(self).filter_src@ },
                if old(self).filter_mode == FilterMode::Dst { backspaced(old(self).filter_dst@) } else { old(self).filter_dst@ },
            ),
    {
        match self.filter_mode {
            FilterMode::Src => {
                pop_char(&mut self.filter_src);
            },
            FilterMode::Dst => {
                pop_char(&mut self.filter_dst);
            },
            FilterMode::Off => {},
        }
        self.recompute_visible();
    }

    /// Clears the filter being edited (both filters when none is), stops
    /// editing and refreshes the list.
    pub fn clear_active_filter(&mut self)
        ensures
            final(self).filter_mode == FilterMode::Off,
            AppState::after_filters(
                *old(self),
                *final(self),
                if old(self).filter_mode == FilterMode::Dst { old(self).filter_src@ } else { Seq::empty() },
                if old(self).filter_mode == FilterMode::Src { old(self).filter_dst@ } else { Seq::empty() },
            ),
    {
        match self.filter_mode {
            FilterMode::Src => self.filter_src = String::new(),
            FilterMode::Dst => self.filter_dst = String::new(),
            FilterMode::Off => {
                self.filter_src = String::new();
                self.filter_dst = String::new();
            },
        }
        self.filter_mode = FilterMode::Off;
        self.recompute_visible();
    }

    /// Acts on a key press; returns whether the monitor should quit. Ctrl-C
    /// quits in every mode. While a filter is edited, Esc stops editing,
    /// Backspace and other characters edit the filter. Otherwise `q` quits, `?`/`h` toggle the help, `R`/`r`
    /// reverse the sort, Up/Down move the selection, F3/F4 start editing the
    /// source/destination filter, F6 sorts by the next column, and Esc closes
    /// the help or clears the filters.
    pub fn handle_key(&mut self, key: Key, ctrl: bool) -> (quit: bool)
        ensures
            old(self).shows() ==> final(self).shows(),
            old(self).filter_mode != FilterMode::Off ==> match key {
                Key::Esc => !quit && AppState::after_recompute(AppState::with_mode(*old(self), FilterMode::Off), *final(self)),
                Key::Backspace => !quit && final(self).filter_mode == old(self).filter_mode && AppState::after_filters(
                    *old(self),
                    *final(self),
                    if old(self).filter_mode == FilterMode::Src { backspaced(old(self).filter_src@) } else { old(self).filter_src@ },
                    if old(self).filter_mode == FilterMode::Dst { backspaced(old(self).filter_dst@) } else { old(self).filter_dst@ },
                ),
                Key::Char(c) => if c == 'c' && ctrl {
                    quit && *final(self) == *old(self)
                } else {
                    !quit && final(self).filter_mode == old(self).filter_mode && AppState::after_filters(
                        *old(self),
                        *final(self),
                        if old(self).filter_mode == FilterMode::Src { typed(old(self).filter_src@, c) } else { old(self).filter_src@ },
                        if old(self).filter_mode == FilterMode::Dst { typed(old(self).filter_dst@, c) } else { old(self).filter_dst@ },
                    )
                },
                _ => !quit && *final(self) == *old(self),
            },
            old(self).filter_mode == FilterMode::Off ==> match key {
                Key::Char(c) => if c == 'q' || (c == 'c' && ctrl) {
                    quit && *final(self) == *old(self)
                } else if c == '?' || c == 'h' {
                    !quit && *final(self) == AppState::with_help(*old(self), !old(self).show_help)
                } else if c == 'R' || c == 'r' {
                    !quit && AppState::after_recompute(
                        AppState::with_sort(*old(self), old(self).sort_col, !old(self).sort_asc),
                        *final(self),
                    )
                } else {
                    !quit && *final(self) == *old(self)
                },
                Key::Up => !quit && final(self).selected == (if old(self).selected > 0 { (old(self).selected - 1) as usize } else { old(self).selected })
                    && final(self).connections@ == old(self).connections@ && final(self).visible@ == old(self).visible@
                    && AppState::same_settings(*old(self), *final(self)),
                Key::Down => !quit && final(self).selected == (if old(self).selected + 1 < old(self).visible@.len() { (old(self).selected + 1) as usize } else { old(self).selected })
                    && final(self).connections@ == old(self).connections@ && final(self).visible@ == old(self).visible@
                    && AppState::same_settings(*old(self), *final(self)),
                Key::F(n) => if n == 3 {
                    !quit && *final(self) == AppState::with_mode(*old(self), FilterMode::Src)
                } else if n == 4 {
                    !quit && *final(self) == AppState::with_mode(*old(self), FilterMode::Dst)
                } else if n == 6 {
                    !quit && AppState::after_recompute(
                        AppState::with_sort(*old(self), next_column(old(self).sort_col), old(self).sort_asc),
                        *final(self),
                    )
                } else {
                    !quit && *final(self) == *old(self)
                },
                Key::Esc => !quit && if old(self).show_help {
                    *final(self) == AppState::with_help(*old(self), false)
                } else {
                    final(self).filter_mode == FilterMode::Off && AppState::after_filters(
                        *old(self),
                        *final(self),
                        Seq::empty(),
                        Seq::empty(),
                    )
                },
                _ => !quit && *final(self) == *old(self),
            },
    {
        if let Key::Char(c) = key {
            if c == 'c' && ctrl {
                return true;
            }
        }
        if self.filter_mode != FilterMode::Off {
            match key {
                Key::Esc => {
                    self.filter_mode = FilterMode::Off;
                    self.recompute_visible();
                },
                Key::Backspace => self.filter_backspace(),
                Key::Char(c) => self.filter_push(c),
                _ => {},
            }
            return false;
        }
        match key {
            Key::Char(c) => {
                if c == 'q' || (c == 'c' && ctrl) {
                    return true;
                } else if c == '?' || c == 'h' {
                    self.show_help = !self.show_help;
                } else if c == 'R' || c == 'r' {
                    self.sort_asc = !self.sort_asc;
                    self.recompute_visible();
                }
            },
            Key::Up => self.move_up(),
            Key::Down => self.move_down(),
            Key::F(n) => {
                if n == 3 {
                    self.filter_mode = FilterMode::Src;
                } else if n == 4 {
                    self.filter_mode = FilterMode::Dst;
                } else if n == 6 {
                    self.sort_col = self.sort_col.next();
                    self.recompute_visible();
                }
            },
            Key::Esc => {
                if self.show_help {
                    self.show_help = false;
                } else {
                    self.clear_active_filter();
                }
            },
            _ => {},
        }
        false
    }

    pub fn move_up(&mut self)
        ensures
            final(self).selected == (if old(self).selected > 0 { (old(self).selected - 1) as usize } else { old(self).selected }),
            final(self).connections@ == old(self).connections@,
            final(self).visible@ == old(self).visible@,
            AppState::same_settings(*old(self), *final(self)),
    {
        if self.selected > 0 {
            self.selected = self.selected - 1;
        }
    }

    pub fn move_down(&mut self)
        ensures
            final(self).selected == (if old(self).selected + 1 < old(self).visible@.len() { (old(self).selected + 1) as usize } else { old(self).selected }),
            final(self).connections@ == old(self).connections@,
            final(self).visible@ == old(self).visible@,
            AppState::same_settings(*old(self), *final(self)),
    {
        if self.visible.len() > 0 && self.selected < self.visible.len() - 1 {
            self.selected = self.selected + 1;
        }
    }

    pub fn total_count(&self) -> (n: usize)
        ensures n == self.connections@.len(),
    {
        self.connections.len()
    }

    pub fn visible_count(&self) -> (n: usize)
        ensures n == self.visible@.len(),
    {
        self.visible.len()
    }
}

} // verus!
