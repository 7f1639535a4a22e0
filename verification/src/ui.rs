//! The state of the package list and how it answers each key.
use vstd::prelude::*;

use crate::adb::{AdbError, message_spec};
use crate::laws::{law_step_keeps_rows_valid, law_step_keeps_wf};
use crate::model::{InstalledBloat, OrderKey, PackageEntry, Risk};
use crate::sort::{sort_entries, sorted, with_key};
use crate::text::{contains_text, dec, decimal, views};

verus! {

/// A key press, as far as the list tells keys apart.
#[derive(Clone, Copy, Debug, PartialEq, Eq, Structural)]
pub enum Key {
    Char(char),
    Up,
    Down,
    Esc,
    Other,
}

/// What has to happen after a key press.
#[derive(Debug)]
pub enum KeyOutcome {
    /// Nothing more: draw the list again.
    Stay,
    /// Leave the tool.
    Quit,
    /// Read the installed packages again and hand them to `App::apply_refresh`.
    Refresh,
    /// Uninstall these packages, hand the results to `App::record_removal`,
    /// then read the installed packages again for `App::apply_refresh`.
    Remove { packages: Vec<String> },
}

/// The meaning of a key outcome.
pub enum Effect {
    Stay,
    Quit,
    Refresh,
    Remove(Seq<Seq<char>>),
}

impl KeyOutcome {
    /// What this outcome asks for.
    pub open spec fn effect(self) -> Effect {
        match self {
            KeyOutcome::Stay => Effect::Stay,
            KeyOutcome::Quit => Effect::Quit,
            KeyOutcome::Refresh => Effect::Refresh,
            KeyOutcome::Remove { packages } => Effect::Remove(views(packages@)),
        }
    }
}

/// The package list with its selection and messages.
pub struct App {
    /// The installed catalog packages, in list order.
    pub items: Vec<InstalledBloat>,
    /// The indices into `items` of the rows shown.
    pub visible_indices: Vec<usize>,
    /// The highlighted row, an index into `visible_indices`.
    pub selected: Option<usize>,
    pub show_advanced: bool,
    pub confirm_remove: bool,
    pub device_serial: Option<String>,
    pub device_info: String,
    pub status: String,
    pub log: Vec<String>,
}

/// The abstract state of an `App`.
#[verifier::ext_equal]
pub struct AppState {
    pub items: Seq<InstalledBloat>,
    pub visible: Seq<usize>,
    pub selected: Option<usize>,
    pub show_advanced: bool,
    pub confirm_remove: bool,
    pub device_serial: Option<Seq<char>>,
    pub device_info: Seq<char>,
    pub status: Seq<char>,
    pub log: Seq<Seq<char>>,
}

impl View for App {
    type V = AppState;

    open spec fn view(&self) -> AppState {
        AppState {
            items: self.items@,
            visible: self.visible_indices@,
            selected: self.selected,
            show_advanced: self.show_advanced,
            confirm_remove: self.confirm_remove,
            device_serial: match self.device_serial {
                Some(s) => Some(s@),
                None => None,
            },
            device_info: self.device_info@,
            status: self.status@,
            log: views(self.log@),
        }
    }
}

/// The shown rows point into the items.
pub open spec fn rows_valid(s: AppState) -> bool {
    forall|j: int| 0 <= j < s.visible.len() ==> (#[trigger] s.visible[j]) < s.items.len()
}

/// The shown rows point into the items, and the highlight points into the rows.
pub open spec fn wf(s: AppState) -> bool {
    &&& rows_valid(s)
    &&& s.selected matches Some(k) ==> k < s.visible.len()
}

/// Whether an entry is shown: advanced entries only when they are asked for.
pub open spec fn shown(b: InstalledBloat, show_advanced: bool) -> bool {
    show_advanced || b.meta.risk != Risk::Advanced
}

/// The indices below `n` of the entries shown, in increasing order.
pub open spec fn visible_upto(items: Seq<InstalledBloat>, show_advanced: bool, n: nat) -> Seq<usize>
    decreases n,
{
    if n == 0 {
        Seq::empty()
    } else if shown(items[n - 1], show_advanced) {
        visible_upto(items, show_advanced, (n - 1) as nat).push((n - 1) as usize)
    } else {
        visible_upto(items, show_advanced, (n - 1) as nat)
    }
}

/// The indices of the entries shown, in increasing order.
pub open spec fn visible_for(items: Seq<InstalledBloat>, show_advanced: bool) -> Seq<usize> {
    visible_upto(items, show_advanced, items.len())
}

/// The highlight after the rows changed to `n` rows: none when there are no
/// rows, else the old one (the first row if there was none) held below `n`.
pub open spec fn clamp_selection(sel: Option<usize>, n: nat) -> Option<usize> {
    if n == 0 {
        None
    } else {
        let cur = match sel {
            Some(k) => k,
            None => 0,
        };
        if cur < n {
            Some(cur)
        } else {
            Some((n - 1) as usize)
        }
    }
}

/// The state with its rows recomputed from the items.
pub open spec fn rebuilt(s: AppState) -> AppState {
    let v = visible_for(s.items, s.show_advanced);
    AppState { visible: v, selected: clamp_selection(s.selected, v.len()), ..s }
}

/// The ids of the marked entries among the first `n` rows, in row order.
pub open spec fn selected_ids_upto(s: AppState, n: nat) -> Seq<Seq<char>>
    decreases n,
{
    if n == 0 {
        Seq::empty()
    } else if s.items[s.visible[n - 1] as int].selected {
        selected_ids_upto(s, (n - 1) as nat).push(s.items[s.visible[n - 1] as int].meta.id@)
    } else {
        selected_ids_upto(s, (n - 1) as nat)
    }
}

/// The ids of the marked entries among the rows shown, in row order.
pub open spec fn selected_ids(s: AppState) -> Seq<Seq<char>> {
    selected_ids_upto(s, s.visible.len())
}

/// The number of marked entries among the rows shown.
pub open spec fn selected_count(s: AppState) -> nat {
    selected_ids(s).len()
}

/// `b` with its mark set to `flag`.
pub open spec fn with_mark(b: InstalledBloat, flag: bool) -> InstalledBloat {
    InstalledBloat { meta: b.meta, selected: flag }
}

/// The items with the mark of every shown entry set to `flag`.
pub open spec fn marked(s: AppState, flag: bool) -> Seq<InstalledBloat> {
    Seq::new(
        s.items.len(),
        |i: int|
            if s.visible.contains(i as usize) {
                with_mark(s.items[i], flag)
            } else {
                s.items[i]
            },
    )
}

/// The items with the mark of the highlighted entry flipped.
pub open spec fn toggled(s: AppState) -> Seq<InstalledBloat> {
    match s.selected {
        Some(si) => if si < s.visible.len() {
            let idx = s.visible[si as int] as int;
            s.items.update(idx, with_mark(s.items[idx], !s.items[idx].selected))
        } else {
            s.items
        },
        None => s.items,
    }
}

/// The highlight after moving up: from the first row to the last.
pub open spec fn moved_up(s: AppState) -> Option<usize> {
    let n = s.visible.len();
    if n == 0 {
        s.selected
    } else {
        let i = match s.selected {
            Some(k) => k,
            None => 0,
        };
        if i == 0 {
            Some((n - 1) as usize)
        } else {
            Some((i - 1) as usize)
        }
    }
}

/// The highlight after moving down: from the last row to the first.
pub open spec fn moved_down(s: AppState) -> Option<usize> {
    let n = s.visible.len();
    if n == 0 {
        s.selected
    } else {
        let i = match s.selected {
            Some(k) => k,
            None => 0,
        };
        if i + 1 >= n {
            Some(0)
        } else {
            Some((i + 1) as usize)
        }
    }
}

/// The state after `A`: advanced entries shown or hidden, rows recomputed.
pub open spec fn toggled_advanced(s: AppState) -> AppState {
    let t = rebuilt(AppState { show_advanced: !s.show_advanced, ..s });
    AppState {
        status: "Advanced packages "@ + if t.show_advanced {
            "visible"@
        } else {
            "hidden"@
        },
        ..t
    }
}

/// The state after `x`: a confirmation asked for when something is marked.
pub open spec fn removal_prompt(s: AppState) -> AppState {
    if selected_count(s) == 0 {
        AppState { status: "No packages selected."@, ..s }
    } else {
        AppState {
            confirm_remove: true,
            status: "Confirm removal of "@ + dec(selected_count(s)) + " package(s)."@,
            ..s
        }
    }
}

/// Whether `k` is the character key `c`.
pub open spec fn is_char(k: Key, c: char) -> bool {
    k == Key::Char(c)
}

/// The state after key `k`, and what has to happen next.
pub open spec fn key_step(s: AppState, k: Key) -> (AppState, Effect) {
    if s.confirm_remove {
        if is_char(k, 'y') || is_char(k, 'Y') {
            (AppState { confirm_remove: false, log: Seq::empty(), ..s }, Effect::Remove(selected_ids(s)))
        } else if is_char(k, 'n') || is_char(k, 'N') || k == Key::Esc {
            (AppState { confirm_remove: false, status: "Cancelled."@, ..s }, Effect::Stay)
        } else {
            (s, Effect::Stay)
        }
    } else if is_char(k, 'q') || is_char(k, 'Q') {
        (s, Effect::Quit)
    } else if is_char(k, 'r') || is_char(k, 'R') {
        (AppState { log: Seq::empty(), ..s }, Effect::Refresh)
    } else if is_char(k, 'A') {
        (toggled_advanced(s), Effect::Stay)
    } else if is_char(k, 'a') {
        (
            AppState { items: marked(s, true), status: "Selected all visible packages."@, ..s },
            Effect::Stay,
        )
    } else if is_char(k, 'c') || is_char(k, 'C') {
        (
            AppState { items: marked(s, false), status: "Cleared selection (visible)."@, ..s },
            Effect::Stay,
        )
    } else if is_char(k, 'x') || is_char(k, 'X') {
        (removal_prompt(s), Effect::Stay)
    } else if k == Key::Up {
        (AppState { selected: moved_up(s), ..s }, Effect::Stay)
    } else if k == Key::Down {
        (AppState { selected: moved_down(s), ..s }, Effect::Stay)
    } else if is_char(k, ' ') {
        (AppState { items: toggled(s), ..s }, Effect::Stay)
    } else {
        (s, Effect::Stay)
    }
}

impl App {
    /// The rows and highlight are consistent with the items.
    pub open spec fn wf(&self) -> bool {
        wf(self@)
    }

    /// The shown rows point into the items.
    pub open spec fn rows_valid(&self) -> bool {
        rows_valid(self@)
    }

    /// Recomputes the shown rows from the items and keeps the highlight on a row.
    pub fn rebuild_visible(&mut self)
        ensures
            final(self)@ == rebuilt(old(self)@),
            final(self).wf(),
    {
        let n = self.items.len();
        let mut v: Vec<usize> = Vec::new();
        let mut i: usize = 0;
        while i < n
            invariant
                n == self.items@.len(),
                i <= n,
                v@ == visible_upto(self.items@, self.show_advanced, i as nat),
                forall|j: int| 0 <= j < v@.len() ==> (#[trigger] v@[j]) < i,
            decreases n - i,
        {
            if self.show_advanced || self.items[i].meta.risk != Risk::Advanced {
                v.push(i);
            }
            i = i + 1;
        }
        self.visible_indices = v;
        let m = self.visible_indices.len();
        if m == 0 {
            self.selected = None;
        } else {
            let cur = match self.selected {
                Some(k) => k,
                None => 0,
            };
            self.selected = Some(if cur < m { cur } else { m - 1 });
        }
    }

    /// The ids of the marked packages among the rows shown, in row order.
    pub fn selected_visible_pkgs(&self) -> (res: Vec<String>)
        requires
            self.rows_valid(),
        ensures
            views(res@) == selected_ids(self@),
    {
        let mut v: Vec<String> = Vec::new();
        let n = self.visible_indices.len();
        let mut j: usize = 0;
        assert(views(v@) =~= Seq::<Seq<char>>::empty());
        while j < n
            invariant
                self.rows_valid(),
                n == self.visible_indices@.len(),
                j <= n,
                views(v@) == selected_ids_upto(self@, j as nat),
            decreases n - j,
        {
            let idx = self.visible_indices[j];
            assert(idx < self.items@.len());
            if self.items[idx].selected {
                let ghost before = v@;
                v.push(self.items[idx].meta.id.clone());
                assert(views(v@) =~= views(before).push(self.items@[idx as int].meta.id@));
            }
            j = j + 1;
        }
        v
    }

    /// The number of marked packages among the rows shown.
    pub fn count_selected(&self) -> (res: usize)
        requires
            self.rows_valid(),
        ensures
            res == selected_count(self@),
    {
        let n = self.visible_indices.len();
        let mut count: usize = 0;
        let mut j: usize = 0;
        while j < n
            invariant
                self.rows_valid(),
                n == self.visible_indices@.len(),
                j <= n,
                count == selected_ids_upto(self@, j as nat).len(),
                count <= j,
            decreases n - j,
        {
            let idx = self.visible_indices[j];
            if self.items[idx].selected {
                count = count + 1;
            }
            j = j + 1;
        }
        count
    }

    /// Sets the mark of every shown entry to `flag`.
    fn mark_visible(&mut self, flag: bool)
        requires
            old(self).rows_valid(),
        ensures
            final(self)@ == (AppState { items: marked(old(self)@, flag), ..old(self)@ }),
    {
        let ghost s = self@;
        let n = self.visible_indices.len();
        let m = self.items.len();
        let mut j: usize = 0;
        while j < n
            invariant
                rows_valid(s),
                m == s.items.len(),
                n == s.visible.len(),
                j <= n,
                self@ == (AppState { items: self.items@, ..s }),
                self.items@.len() == s.items.len(),
                forall|i: int|
                    0 <= i < s.items.len() ==> #[trigger] self.items@[i] == if s.visible.take(
                        j as int,
                    ).contains(i as usize) {
                        with_mark(s.items[i], flag)
                    } else {
                        s.items[i]
                    },
            decreases n - j,
        {
            let idx = self.visible_indices[j];
            let ghost prev = self.items@;
            self.items[idx].selected = flag;
            assert(self.items@ == prev.update(idx as int, with_mark(prev[idx as int], flag)));
            let ghost front = s.visible.take(j as int);
            assert(s.visible.take(j + 1) =~= front.push(idx));
            assert forall|i: int| 0 <= i < s.items.len() implies #[trigger] self.items@[i]
                == if s.visible.take(j + 1).contains(i as usize) {
                with_mark(s.items[i], flag)
            } else {
                s.items[i]
            } by {
                if i == idx as int {
                    assert(s.visible.take(j + 1)[j as int] == idx);
                } else {
                    if front.contains(i as usize) {
                        let w = choose|w: int| 0 <= w < front.len() && front[w] == i as usize;
                        assert(front.push(idx)[w] == i as usize);
                    }
                    if front.push(idx).contains(i as usize) {
                        let w = choose|w: int|
                            0 <= w < front.push(idx).len() && front.push(idx)[w] == i as usize;
                        assert(front[w] == i as usize);
                    }
                }
            }
            j = j + 1;
        }
        assert(s.visible.take(n as int) =~= s.visible);
        assert(self.items@ =~= marked(s, flag));
    }
}


/// Answers one key press: changes the list state and says what has to happen
/// next (see `key_step`).
pub fn handle_key(app: &mut App, key: Key) -> (res: KeyOutcome)
    requires
        old(app).rows_valid(),
        old(app).selected != Some(usize::MAX),
    ensures
        final(app)@ == key_step(old(app)@, key).0,
        res.effect() == key_step(old(app)@, key).1,
        final(app).rows_valid(),
        old(app).wf() ==> final(app).wf(),
{
    let ghost s = app@;
    proof {
        assert(app.items@.len() == app.items.len());
        law_step_keeps_rows_valid(s, key);
        if wf(s) {
            law_step_keeps_wf(s, key);
        }
    }
    if app.confirm_remove {
        match key {
            Key::Char('y') | Key::Char('Y') => {
                let packages = app.selected_visible_pkgs();
                app.confirm_remove = false;
                app.log.clear();
                assert(views(app.log@) =~= Seq::<Seq<char>>::empty());
                assert(app@ =~= key_step(s, key).0);
                return KeyOutcome::Remove { packages };
            },
            Key::Char('n') | Key::Char('N') | Key::Esc => {
                app.confirm_remove = false;
                app.status = String::from_str("Cancelled.");
            },
            _ => {},
        }
        assert(app@ =~= key_step(s, key).0);
        return KeyOutcome::Stay;
    }
    match key {
        Key::Char('q') | Key::Char('Q') => {
            return KeyOutcome::Quit;
        },
        Key::Char('r') | Key::Char('R') => {
            app.log.clear();
            assert(views(app.log@) =~= Seq::<Seq<char>>::empty());
            assert(app@ =~= key_step(s, key).0);
            return KeyOutcome::Refresh;
        },
        Key::Char('A') => {
            app.show_advanced = !app.show_advanced;
            app.rebuild_visible();
            let mut st = String::from_str("Advanced packages ");
            if app.show_advanced {
                st.append("visible");
            } else {
                st.append("hidden");
            }
            app.status = st;
        },
        Key::Char('a') => {
            app.mark_visible(true);
            app.status = String::from_str("Selected all visible packages.");
        },
        Key::Char('c') | Key::Char('C') => {
            app.mark_visible(false);
            app.status = String::from_str("Cleared selection (visible).");
        },
        Key::Char('x') | Key::Char('X') => {
            let n = app.count_selected();
            if n == 0 {
                app.status = String::from_str("No packages selected.");
            } else {
                app.confirm_remove = true;
                let mut st = String::from_str("Confirm removal of ");
                st.append(decimal(n).as_str());
                st.append(" package(s).");
                app.status = st;
            }
        },
        Key::Up => {
            let n = app.visible_indices.len();
            if n > 0 {
                let i = match app.selected {
                    Some(k) => k,
                    None => 0,
                };
                let ni = if i == 0 {
                    n - 1
                } else {
                    i - 1
                };
                app.selected = Some(ni);
            }
        },
        Key::Down => {
            let n = app.visible_indices.len();
            if n > 0 {
                let oi = match app.selected {
                    Some(k) => k,
                    None => 0,
                };
                let ni = if oi + 1 >= n {
                    0
                } else {
                    oi + 1
                };
                app.selected = Some(ni);
            }
        },
        Key::Char(' ') => {
            if let Some(si) = app.selected {
                if si < app.visible_indices.len() {
                    let idx = app.visible_indices[si];
                    app.items[idx].selected = !app.items[idx].selected;
                }
            }
        },
        _ => {},
    }
    assert(app@ =~= key_step(s, key).0);
    KeyOutcome::Stay
}


/// The installed entries among `items`, in their order, all unmarked.
pub open spec fn installed_unmarked(items: Seq<InstalledBloat>, installed: Seq<Seq<char>>) -> Seq<
    InstalledBloat,
>
    decreases items.len(),
{
    if items.len() == 0 {
        Seq::empty()
    } else if installed.contains(items.last().meta.id@) {
        installed_unmarked(items.drop_last(), installed).push(with_mark(items.last(), false))
    } else {
        installed_unmarked(items.drop_last(), installed)
    }
}

/// Catalog entries as unmarked list entries.
pub open spec fn unmarked_entries(catalog: Seq<PackageEntry>) -> Seq<InstalledBloat> {
    catalog.map_values(|e: PackageEntry| InstalledBloat { meta: e, selected: false })
}

/// The installed entries of `items`, unmarked, in list order; entries with
/// equal order keys keep their order.
pub fn installed_in_order(items: Vec<InstalledBloat>, installed: &Vec<String>) -> (res: Vec<
    InstalledBloat,
>)
    ensures
        sorted(res@),
        forall|k: OrderKey| #[trigger]
            with_key(res@, k) == with_key(installed_unmarked(items@, views(installed@)), k),
{
    let ghost orig = items@;
    let mut rest = items;
    let n = rest.len();
    let mut kept: Vec<InstalledBloat> = Vec::new();
    let mut i: usize = 0;
    assert(orig.take(0).len() == 0);
    while i < n
        invariant
            n == orig.len(),
            i <= n,
            rest@ == orig.skip(i as int),
            kept@ == installed_unmarked(orig.take(i as int), views(installed@)),
        decreases n - i,
    {
        let b = rest.remove(0);
        assert(b == orig[i as int]);
        assert(rest@ =~= orig.skip(i + 1));
        assert(orig.take(i + 1).drop_last() =~= orig.take(i as int));
        assert(orig.take(i + 1).last() == b);
        if contains_text(installed, &b.meta.id) {
            kept.push(InstalledBloat { meta: b.meta, selected: false });
        }
        i = i + 1;
    }
    assert(orig.take(n as int) =~= orig);
    sort_entries(kept)
}

/// The state after a refresh that left `items`: rows recomputed and the
/// number of entries reported.
pub open spec fn refreshed(s: AppState, items: Seq<InstalledBloat>) -> AppState {
    rebuilt(
        AppState {
            items: items,
            status: "Refreshed \u{2014} "@ + dec(items.len()) + " known bloat packages installed."@,
            ..s
        },
    )
}

/// The log line for the removal of `pkg` with result `r`.
pub open spec fn removal_line(pkg: Seq<char>, r: Result<String, AdbError>) -> Seq<char> {
    match r {
        Ok(m) => "OK  "@ + pkg + ": "@ + m@,
        Err(e) => "ERR "@ + pkg + ": "@ + message_spec(e),
    }
}

/// The log lines for the removals of `pkgs` with results `results`.
pub open spec fn removal_lines(pkgs: Seq<Seq<char>>, results: Seq<Result<String, AdbError>>) -> Seq<
    Seq<char>,
> {
    Seq::new(pkgs.len(), |i: int| removal_line(pkgs[i], results[i]))
}

/// The number of successes among `results`.
pub open spec fn count_ok(results: Seq<Result<String, AdbError>>) -> nat
    decreases results.len(),
{
    if results.len() == 0 {
        0
    } else if results.last() is Ok {
        count_ok(results.drop_last()) + 1
    } else {
        count_ok(results.drop_last())
    }
}

/// The state after removing `pkgs` with `results`: one log line each, the
/// shown entries unmarked, and the counts reported.
pub open spec fn after_removal(
    s: AppState,
    pkgs: Seq<Seq<char>>,
    results: Seq<Result<String, AdbError>>,
) -> AppState {
    AppState {
        items: marked(s, false),
        log: s.log + removal_lines(pkgs, results),
        status: "Done. Success: "@ + dec(count_ok(results)) + ", failed: "@ + dec(
            (results.len() - count_ok(results)) as nat,
        ) + ". Press r to refresh list."@,
        ..s
    }
}

fn removal_line_text(pkg: &String, r: &Result<String, AdbError>) -> (res: String)
    ensures
        res@ == removal_line(pkg@, *r),
{
    let mut line = match r {
        Ok(_) => String::from_str("OK  "),
        Err(_) => String::from_str("ERR "),
    };
    line.append(pkg.as_str());
    line.append(": ");
    match r {
        Ok(m) => line.append(m.as_str()),
        Err(e) => line.append(e.message().as_str()),
    }
    line
}

impl App {
    /// The list for the installed catalog packages: unmarked, in list order,
    /// advanced entries hidden, the first row highlighted.
    pub fn new(
        catalog: Vec<PackageEntry>,
        installed: &Vec<String>,
        device_serial: Option<String>,
        device_info: String,
    ) -> (res: App)
        ensures
            res.wf(),
            sorted(res.items@),
            forall|k: OrderKey| #[trigger]
                with_key(res.items@, k) == with_key(
                    installed_unmarked(unmarked_entries(catalog@), views(installed@)),
                    k,
                ),
            res.visible_indices@ == visible_for(res.items@, false),
            res.selected == clamp_selection(None, res.visible_indices@.len()),
            !res.show_advanced,
            !res.confirm_remove,
            res@.device_serial == (match device_serial {
                Some(d) => Some(d@),
                None => None,
            }),
            res.device_info@ == device_info@,
            res.status@ == "Ready \u{2014} "@ + dec(res.items@.len())
                + " catalog packages currently installed. Toggle Advanced with A."@,
            res@.log.len() == 0,
    {
        let ghost cat = catalog@;
        let mut rest = catalog;
        let n = rest.len();
        let mut entries: Vec<InstalledBloat> = Vec::new();
        let mut i: usize = 0;
        while i < n
            invariant
                n == cat.len(),
                i <= n,
                rest@ == cat.skip(i as int),
                entries@ == unmarked_entries(cat.take(i as int)),
            decreases n - i,
        {
            let e = rest.remove(0);
            assert(e == cat[i as int]);
            assert(rest@ =~= cat.skip(i + 1));
            entries.push(InstalledBloat { meta: e, selected: false });
            assert(entries@ =~= unmarked_entries(cat.take(i + 1)));
            i = i + 1;
        }
        assert(cat.take(n as int) =~= cat);
        let items = installed_in_order(entries, installed);
        let count = items.len();
        let mut app = App {
            items,
            visible_indices: Vec::new(),
            selected: None,
            show_advanced: false,
            confirm_remove: false,
            device_serial,
            device_info,
            status: String::new(),
            log: Vec::new(),
        };
        app.rebuild_visible();
        let mut st = String::from_str("Ready \u{2014} ");
        st.append(decimal(count).as_str());
        st.append(" catalog packages currently installed. Toggle Advanced with A.");
        app.status = st;
        app
    }

    /// Takes in the packages installed now: keeps the installed entries,
    /// unmarked, in list order, recomputes the rows and reports the number.
    pub fn apply_refresh(&mut self, installed: &Vec<String>)
        ensures
            sorted(final(self).items@),
            forall|k: OrderKey| #[trigger]
                with_key(final(self).items@, k) == with_key(
                    installed_unmarked(old(self).items@, views(installed@)),
                    k,
                ),
            final(self)@ == refreshed(old(self)@, final(self).items@),
            final(self).show_advanced == old(self).show_advanced,
            final(self).visible_indices@ == visible_for(final(self).items@, old(self).show_advanced),
            final(self).wf(),
    {
        let mut items: Vec<InstalledBloat> = Vec::new();
        std::mem::swap(&mut items, &mut self.items);
        let fresh = installed_in_order(items, installed);
        let count = fresh.len();
        self.items = fresh;
        let mut st = String::from_str("Refreshed \u{2014} ");
        st.append(decimal(count).as_str());
        st.append(" known bloat packages installed.");
        self.status = st;
        self.rebuild_visible();
    }

    /// Records the results of removing `packages`: one log line per package,
    /// the shown entries unmarked, and the counts in the status line.
    pub fn record_removal(&mut self, packages: &Vec<String>, results: &Vec<Result<String, AdbError>>)
        requires
            old(self).rows_valid(),
            packages@.len() == results@.len(),
        ensures
            final(self)@ == after_removal(old(self)@, views(packages@), results@),
            final(self).rows_valid(),
            old(self).wf() ==> final(self).wf(),
    {
        let ghost s = self@;
        let n = packages.len();
        let mut ok: usize = 0;
        let mut i: usize = 0;
        while i < n
            invariant
                n == packages@.len(),
                n == results@.len(),
                i <= n,
                ok <= i,
                ok == count_ok(results@.take(i as int)),
                self@ == (AppState {
                    log: s.log + removal_lines(views(packages@), results@).take(i as int),
                    ..s
                }),
            decreases n - i,
        {
            let line = removal_line_text(&packages[i], &results[i]);
            let ghost before = self.log@;
            let ghost lines_all = removal_lines(views(packages@), results@);
            assert(lines_all[i as int] == line@);
            assert(lines_all.take(i + 1) =~= lines_all.take(i as int).push(line@));
            self.log.push(line);
            assert(views(self.log@) =~= views(before).push(line@));
            assert(results@.take(i + 1).drop_last() =~= results@.take(i as int));
            if results[i].is_ok() {
                ok = ok + 1;
            }
            assert(views(self.log@) =~= s.log + removal_lines(views(packages@), results@).take(
                i + 1,
            ));
            i = i + 1;
        }
        assert(results@.take(n as int) =~= results@);
        assert(removal_lines(views(packages@), results@).take(n as int) =~= removal_lines(
            views(packages@),
            results@,
        ));
        let fail = n - ok;
        self.mark_visible(false);
        let mut st = String::from_str("Done. Success: ");
        st.append(decimal(ok).as_str());
        st.append(", failed: ");
        st.append(decimal(fail).as_str());
        st.append(". Press r to refresh list.");
        self.status = st;
        assert(self@ =~= after_removal(s, views(packages@), results@));
    }
}

} // verus!
