//! Properties of the list that hold across operations.
use vstd::prelude::*;

use crate::model::{InstalledBloat, OrderKey, Risk, order_key};
use crate::text::{lines, starts_with, trim};
use crate::sort::{has_key, with_key};
use crate::ui::{
    AppState, Effect, Key, key_step, rows_valid, marked, rebuilt, selected_count, selected_ids,
    selected_ids_upto, shown, visible_for, visible_upto, wf, with_mark,
};

verus! {

/// Every index that `visible_upto` yields is below `n`, they increase, and
/// an index below `n` is among them exactly when its entry is shown.
pub proof fn lemma_visible_upto(items: Seq<InstalledBloat>, show_advanced: bool, n: nat)
    requires
        n <= items.len(),
        items.len() <= usize::MAX,
    ensures
        forall|j: int|
            0 <= j < visible_upto(items, show_advanced, n).len() ==> #[trigger] visible_upto(
                items,
                show_advanced,
                n,
            )[j] < n,
        forall|a: int, b: int|
            0 <= a < b < visible_upto(items, show_advanced, n).len() ==> visible_upto(
                items,
                show_advanced,
                n,
            )[a] < visible_upto(items, show_advanced, n)[b],
        forall|i: int|
            0 <= i < n ==> (visible_upto(items, show_advanced, n).contains(i as usize) <==> shown(
                #[trigger] items[i],
                show_advanced,
            )),
    decreases n,
{
    if n > 0 {
        let m = (n - 1) as nat;
        lemma_visible_upto(items, show_advanced, m);
        let prev = visible_upto(items, show_advanced, m);
        let cur = visible_upto(items, show_advanced, n);
        assert forall|i: int| 0 <= i < n implies (cur.contains(i as usize) <==> shown(
            #[trigger] items[i],
            show_advanced,
        )) by {
            if cur.contains(i as usize) {
                let w = choose|w: int| 0 <= w < cur.len() && cur[w] == i as usize;
                if w < prev.len() {
                    assert(prev[w] == cur[w]);
                    assert(prev.contains(i as usize));
                }
            }
            if shown(items[i], show_advanced) {
                if i < m {
                    assert(prev.contains(i as usize));
                    let w = choose|w: int| 0 <= w < prev.len() && prev[w] == i as usize;
                    assert(cur[w] == prev[w]);
                } else {
                    assert(cur[cur.len() - 1] == i as usize);
                }
            }
        }
    }
}

/// The rows recomputed from the items point into the items, and the
/// highlight, when there is one, points into the rows.
pub proof fn law_rebuilt_is_consistent(s: AppState)
    requires
        s.items.len() <= usize::MAX,
    ensures
        wf(rebuilt(s)),
        forall|i: int|
            0 <= i < s.items.len() ==> (rebuilt(s).visible.contains(i as usize) <==> shown(
                #[trigger] s.items[i],
                s.show_advanced,
            )),
        rebuilt(s).visible.len() > 0 <==> rebuilt(s).selected is Some,
{
    lemma_visible_upto(s.items, s.show_advanced, s.items.len());
}

/// Every key keeps the rows pointing into the items.
pub proof fn law_step_keeps_rows_valid(s: AppState, k: Key)
    requires
        rows_valid(s),
        s.items.len() <= usize::MAX,
    ensures
        rows_valid(key_step(s, k).0),
        key_step(s, k).0.items.len() == s.items.len(),
{
    law_rebuilt_is_consistent(s);
    law_rebuilt_is_consistent(AppState { show_advanced: !s.show_advanced, ..s });
}

/// Every key keeps the rows pointing into the items and the highlight on a row.
pub proof fn law_step_keeps_wf(s: AppState, k: Key)
    requires
        wf(s),
        s.items.len() <= usize::MAX,
    ensures
        wf(key_step(s, k).0),
        key_step(s, k).0.items.len() == s.items.len(),
{
    law_rebuilt_is_consistent(s);
    law_rebuilt_is_consistent(AppState { show_advanced: !s.show_advanced, ..s });
}


/// Pressing `A` twice shows the same rows of the same items as before, when
/// the rows matched the items (as they do after every key but a refresh
/// in progress).
pub proof fn law_advanced_toggle_twice(s: AppState)
    requires
        !s.confirm_remove,
        s.visible == visible_for(s.items, s.show_advanced),
    ensures
        key_step(key_step(s, Key::Char('A')).0, Key::Char('A')).0.show_advanced == s.show_advanced,
        key_step(key_step(s, Key::Char('A')).0, Key::Char('A')).0.visible == s.visible,
        key_step(key_step(s, Key::Char('A')).0, Key::Char('A')).0.items == s.items,
{
}

/// Moving down undoes moving up, and moving up undoes moving down.
pub proof fn law_up_down_inverse(s: AppState)
    requires
        wf(s),
        !s.confirm_remove,
        s.selected is Some,
        s.visible.len() <= usize::MAX,
    ensures
        key_step(key_step(s, Key::Up).0, Key::Down).0.selected == s.selected,
        key_step(key_step(s, Key::Down).0, Key::Up).0.selected == s.selected,
{
}

/// Toggling the highlighted entry twice leaves every mark as it was.
pub proof fn law_toggle_twice(s: AppState)
    requires
        wf(s),
        !s.confirm_remove,
    ensures
        key_step(key_step(s, Key::Char(' ')).0, Key::Char(' ')).0.items == s.items,
{
    let t = key_step(s, Key::Char(' ')).0;
    let u = key_step(t, Key::Char(' ')).0;
    if let Some(si) = s.selected {
        if si < s.visible.len() {
            assert(u.items =~= s.items);
        }
    }
}

proof fn lemma_ids_all_marked(s: AppState, n: nat)
    requires
        wf(s),
        n <= s.visible.len(),
        forall|j: int| 0 <= j < n ==> s.items[(#[trigger] s.visible[j]) as int].selected,
    ensures
        selected_ids_upto(s, n).len() == n,
    decreases n,
{
    if n > 0 {
        lemma_ids_all_marked(s, (n - 1) as nat);
    }
}

proof fn lemma_ids_none_marked(s: AppState, n: nat)
    requires
        wf(s),
        n <= s.visible.len(),
        forall|j: int| 0 <= j < n ==> !s.items[(#[trigger] s.visible[j]) as int].selected,
    ensures
        selected_ids_upto(s, n).len() == 0,
    decreases n,
{
    if n > 0 {
        lemma_ids_none_marked(s, (n - 1) as nat);
    }
}

/// After `a` every shown row is marked; after `c` none is.
pub proof fn law_select_all_and_clear(s: AppState)
    requires
        wf(s),
        !s.confirm_remove,
    ensures
        selected_count(key_step(s, Key::Char('a')).0) == s.visible.len(),
        selected_count(key_step(s, Key::Char('c')).0) == 0,
        selected_ids(key_step(s, Key::Char('c')).0).len() == 0,
{
    let t = key_step(s, Key::Char('a')).0;
    assert forall|j: int| 0 <= j < t.visible.len() implies t.items[(
    #[trigger] t.visible[j]) as int].selected by {
        assert(s.visible.contains(s.visible[j]));
    }
    lemma_ids_all_marked(t, t.visible.len());
    let u = key_step(s, Key::Char('c')).0;
    assert forall|j: int| 0 <= j < u.visible.len() implies !u.items[(
    #[trigger] u.visible[j]) as int].selected by {
        assert(s.visible.contains(s.visible[j]));
    }
    lemma_ids_none_marked(u, u.visible.len());
}

/// `x` asks for confirmation exactly when some shown entry is marked, and
/// changes no mark.
pub proof fn law_remove_asks_when_marked(s: AppState)
    requires
        !s.confirm_remove,
    ensures
        key_step(s, Key::Char('x')).0.confirm_remove <==> selected_count(s) > 0,
        key_step(s, Key::Char('x')).0.items == s.items,
        key_step(s, Key::Char('x')).1 == Effect::Stay,
{
}

/// The tool quits only on `q` or `Q`, and never while a removal waits for
/// confirmation.
pub proof fn law_quit_only_on_q(s: AppState, k: Key)
    ensures
        key_step(s, k).1 == Effect::Quit <==> (!s.confirm_remove && (k == Key::Char('q') || k
            == Key::Char('Q'))),
{
}

/// While a removal waits for confirmation, keys other than `y`, `Y`, `n`,
/// `N` and `Esc` change nothing.
pub proof fn law_confirmation_ignores_other_keys(s: AppState, k: Key)
    requires
        s.confirm_remove,
        k != Key::Char('y'),
        k != Key::Char('Y'),
        k != Key::Char('n'),
        k != Key::Char('N'),
        k != Key::Esc,
    ensures
        key_step(s, k).0 == s,
        key_step(s, k).1 == Effect::Stay,
{
}

/// Packages are removed only after confirmation with `y` or `Y`, and exactly
/// the marked shown ones, in row order; the confirmation then ends.
pub proof fn law_removal_needs_confirmation(s: AppState, k: Key, ids: Seq<Seq<char>>)
    requires
        key_step(s, k).1 == Effect::Remove(ids),
    ensures
        s.confirm_remove,
        k == Key::Char('y') || k == Key::Char('Y'),
        ids == selected_ids(s),
        !key_step(s, k).0.confirm_remove,
{
}


proof fn lemma_count_filter(s: Seq<InstalledBloat>, p: spec_fn(InstalledBloat) -> bool, x: InstalledBloat)
    requires
        p(x),
    ensures
        s.to_multiset().count(x) == s.filter(p).to_multiset().count(x),
    decreases s.len(),
{
    broadcast use vstd::seq_lib::group_to_multiset_ensures;
    broadcast use vstd::multiset::group_multiset_axioms;

    reveal(Seq::filter);
    if s.len() == 0 {
    } else {
        let init = s.drop_last();
        lemma_count_filter(init, p, x);
        assert(s =~= init.push(s.last()));
        assert(s.to_multiset() =~= init.to_multiset().insert(s.last()));
        if p(s.last()) {
            assert(s.filter(p).to_multiset() =~= init.filter(p).to_multiset().insert(s.last()));
        }
    }
}

/// Two sequences with the same entries of each order key, in the same order,
/// hold the same entries the same number of times: sorting loses and adds nothing.
pub proof fn law_same_keys_same_entries(a: Seq<InstalledBloat>, b: Seq<InstalledBloat>)
    requires
        forall|k: OrderKey| #[trigger] with_key(a, k) == with_key(b, k),
    ensures
        a.to_multiset() == b.to_multiset(),
        a.len() == b.len(),
{
    broadcast use vstd::seq_lib::group_to_multiset_ensures;

    assert forall|x: InstalledBloat| a.to_multiset().count(x) == b.to_multiset().count(x) by {
        let k = order_key(x);
        assert(with_key(a, k) == with_key(b, k));
        lemma_count_filter(a, has_key(k), x);
        lemma_count_filter(b, has_key(k), x);
    }
    assert(a.to_multiset() =~= b.to_multiset());
    assert(a.to_multiset().len() == a.len());
    assert(b.to_multiset().len() == b.len());
}

/// A refresh keeps only installed entries, and all of them unmarked.
pub proof fn law_refresh_keeps_installed_unmarked(
    items: Seq<InstalledBloat>,
    installed: Seq<Seq<char>>,
    i: int,
)
    requires
        0 <= i < crate::ui::installed_unmarked(items, installed).len(),
    ensures
        !crate::ui::installed_unmarked(items, installed)[i].selected,
        installed.contains(crate::ui::installed_unmarked(items, installed)[i].meta.id@),
    decreases items.len(),
{
    let init = crate::ui::installed_unmarked(items.drop_last(), installed);
    if i < init.len() {
        law_refresh_keeps_installed_unmarked(items.drop_last(), installed, i);
    }
}

/// A refresh keeps every installed entry.
pub proof fn law_refresh_keeps_every_installed(
    items: Seq<InstalledBloat>,
    installed: Seq<Seq<char>>,
    j: int,
)
    requires
        0 <= j < items.len(),
        installed.contains(items[j].meta.id@),
    ensures
        crate::ui::installed_unmarked(items, installed).contains(with_mark(items[j], false)),
    decreases items.len(),
{
    let init = crate::ui::installed_unmarked(items.drop_last(), installed);
    if j < items.len() - 1 {
        assert(items.drop_last()[j] == items[j]);
        law_refresh_keeps_every_installed(items.drop_last(), installed, j);
        let w = choose|w: int| 0 <= w < init.len() && init[w] == with_mark(items[j], false);
        if installed.contains(items.last().meta.id@) {
            assert(crate::ui::installed_unmarked(items, installed)[w] == init[w]);
        }
    } else {
        let cur = crate::ui::installed_unmarked(items, installed);
        assert(cur[cur.len() - 1] == with_mark(items[j], false));
    }
}

/// Only the shown entries are in the rows, all of them, and with advanced
/// entries hidden no row is an advanced entry.
pub proof fn law_rows_are_the_shown_entries(items: Seq<InstalledBloat>, show_advanced: bool)
    requires
        items.len() <= usize::MAX,
    ensures
        forall|i: int|
            0 <= i < items.len() ==> (visible_for(items, show_advanced).contains(i as usize)
                <==> shown(#[trigger] items[i], show_advanced)),
        !show_advanced ==> forall|j: int|
            0 <= j < visible_for(items, show_advanced).len() ==> items[#[trigger] visible_for(
                items,
                show_advanced,
            )[j] as int].meta.risk != Risk::Advanced,
{
    lemma_visible_upto(items, show_advanced, items.len());
    if !show_advanced {
        assert forall|j: int| 0 <= j < visible_for(items, show_advanced).len() implies items[
        #[trigger] visible_for(items, show_advanced)[j] as int].meta.risk != Risk::Advanced by {
            let v = visible_for(items, show_advanced);
            assert(v.contains(v[j]));
            assert(shown(items[v[j] as int], show_advanced));
        }
    }
}


/// The package ids listed after installation: each appears once, and an id
/// appears exactly when some line names it.
pub proof fn law_listed_ids_unique(s: Seq<Seq<char>>)
    ensures
        crate::adb::dedup(s).no_duplicates(),
        forall|x: Seq<char>| crate::adb::dedup(s).contains(x) <==> s.contains(x),
    decreases s.len(),
{
    if s.len() > 0 {
        let init = s.drop_last();
        law_listed_ids_unique(init);
        let d = crate::adb::dedup(init);
        assert(s =~= init.push(s.last()));
        assert forall|x: Seq<char>| crate::adb::dedup(s).contains(x) <==> s.contains(x) by {
            lemma_push_contains(init, s.last(), x);
            lemma_push_contains(d, s.last(), x);
        }
        if !d.contains(s.last()) {
            assert forall|i: int, j: int|
                0 <= i < d.push(s.last()).len() && 0 <= j < d.push(s.last()).len() && i != j
                    implies d.push(s.last())[i] != d.push(s.last())[j] by {
                if i < d.len() && j < d.len() {
                } else if i < d.len() {
                    assert(d.contains(d[i]));
                } else if j < d.len() {
                    assert(d.contains(d[j]));
                }
            }
        }
    }
}

proof fn lemma_push_contains(q: Seq<Seq<char>>, a: Seq<char>, x: Seq<char>)
    ensures
        q.push(a).contains(x) <==> (q.contains(x) || x == a),
{
    if q.push(a).contains(x) {
        let w = choose|w: int| 0 <= w < q.push(a).len() && q.push(a)[w] == x;
        if w < q.len() {
            assert(q[w] == x);
        }
    }
    if q.contains(x) {
        let w = choose|w: int| 0 <= w < q.len() && q[w] == x;
        assert(q.push(a)[w] == x);
    }
    if x == a {
        assert(q.push(a)[q.len() as int] == x);
    }
}

/// A cut description fits its width and begins as the description does;
/// one that fits is left as it is.
pub proof fn law_truncated_fits(s: Seq<char>, max: nat)
    ensures
        max >= 1 ==> crate::screen::truncated(s, max).len() <= max,
        s.len() <= max ==> crate::screen::truncated(s, max) == s,
        s.len() > max && max >= 1 ==> crate::screen::truncated(s, max).take(max - 1) == s.take(
            max - 1,
        ),
{
    reveal_strlit("\u{2026}");
    if s.len() > max && max >= 1 {
        assert(crate::screen::truncated(s, max).take(max - 1) =~= s.take(max - 1));
    }
}

/// The successes counted after a removal never exceed the attempts, so the
/// reported failures are the rest.
pub proof fn law_success_count_bounded(results: Seq<Result<String, crate::adb::AdbError>>)
    ensures
        crate::ui::count_ok(results) <= results.len(),
    decreases results.len(),
{
    if results.len() > 0 {
        law_success_count_bounded(results.drop_last());
    }
}


/// In a list in list order the risk never decreases: safe entries come
/// first, then caution, then advanced.
pub proof fn law_sorted_risk_order(s: Seq<InstalledBloat>, i: int, j: int)
    requires
        crate::sort::sorted(s),
        0 <= i < j < s.len(),
    ensures
        s[i].meta.risk.rank() <= s[j].meta.risk.rank(),
{
}


/// While a removal waits for confirmation, `n`, `N` and `Esc` end the
/// confirmation, report the cancellation and remove nothing; the marks and
/// rows stay as they were.
pub proof fn law_cancel_confirmation(s: AppState, k: Key)
    requires
        s.confirm_remove,
        k == Key::Char('n') || k == Key::Char('N') || k == Key::Esc,
    ensures
        !key_step(s, k).0.confirm_remove,
        key_step(s, k).0.status == "Cancelled."@,
        key_step(s, k).1 == Effect::Stay,
        key_step(s, k).0.items == s.items,
        key_step(s, k).0.visible == s.visible,
        key_step(s, k).0.log == s.log,
{
}

/// A refresh keeps the choice of showing advanced packages, and shows the
/// rows of the new items under that choice.
pub proof fn law_refresh_keeps_advanced_choice(s: AppState, items: Seq<InstalledBloat>)
    ensures
        crate::ui::refreshed(s, items).show_advanced == s.show_advanced,
        crate::ui::refreshed(s, items).visible == visible_for(items, s.show_advanced),
        crate::ui::refreshed(s, items).items == items,
{
}

/// The successes counted are the `Ok` results, wherever they stand: one more
/// for each `Ok` added, none for each `Err`.
pub proof fn law_success_count_counts_each_ok(
    r: Seq<Result<String, crate::adb::AdbError>>,
    m: String,
    e: crate::adb::AdbError,
)
    ensures
        crate::ui::count_ok(r.push(Ok(m))) == crate::ui::count_ok(r) + 1,
        crate::ui::count_ok(r.push(Err(e))) == crate::ui::count_ok(r),
        crate::ui::count_ok(Seq::<Result<String, crate::adb::AdbError>>::empty()) == 0,
{
    assert(r.push(Ok(m)).drop_last() =~= r);
    assert(r.push(Err(e)).drop_last() =~= r);
}

/// With only successes, all are counted; with only failures, none.
pub proof fn law_success_count_extremes(r: Seq<Result<String, crate::adb::AdbError>>)
    ensures
        (forall|i: int| 0 <= i < r.len() ==> (#[trigger] r[i]) is Ok) ==> crate::ui::count_ok(r)
            == r.len(),
        (forall|i: int| 0 <= i < r.len() ==> (#[trigger] r[i]) is Err) ==> crate::ui::count_ok(r)
            == 0,
    decreases r.len(),
{
    if r.len() > 0 {
        law_success_count_extremes(r.drop_last());
        assert forall|i: int| 0 <= i < r.drop_last().len() implies r.drop_last()[i] == r[i] by {}
    }
}

/// A run of non-whitespace characters followed by whitespace (or nothing) is
/// the word taken from the front.
proof fn lemma_take_word_of(a: Seq<char>, b: Seq<char>)
    requires
        forall|i: int| 0 <= i < a.len() ==> !crate::text::is_ws(#[trigger] a[i]),
        b.len() == 0 || crate::text::is_ws(b[0]),
    ensures
        crate::text::take_word(a + b) == a,
    decreases a.len(),
{
    if a.len() == 0 {
        assert(a + b =~= b);
    } else {
        assert((a + b).drop_first() =~= a.drop_first() + b);
        lemma_take_word_of(a.drop_first(), b);
        assert(a =~= seq![a[0]] + a.drop_first());
    }
}

/// A `pm list packages` line that, trimmed, starts with `package:` names the
/// text after it, trimmed, exactly as printed (no letter changes case).
pub proof fn law_package_line_names_its_id(ls: Seq<Seq<char>>, l: Seq<char>)
    requires
        starts_with(trim(l), "package:"@),
    ensures
        crate::adb::package_ids(ls.push(l)) == crate::adb::package_ids(ls).push(
            trim(trim(l).skip("package:"@.len() as int)),
        ),
{
    assert(ls.push(l).drop_last() =~= ls);
}

/// The output `package:<id>` followed by a line feed, with an id of
/// non-whitespace characters, lists exactly that id.
pub proof fn law_single_package_listing(x: Seq<char>)
    requires
        x.len() > 0,
        forall|i: int| 0 <= i < x.len() ==> !crate::text::is_ws(#[trigger] x[i]),
    ensures
        crate::adb::dedup(crate::adb::package_ids(lines("package:"@ + x + seq!['\n'])))
            == seq![x],
{
    reveal_strlit("package:");
    let p = "package:"@;
    let l = p + x;
    let text = l + seq!['\n'];
    assert forall|i: int| 0 <= i < l.len() implies text[i] != '\n' by {
        if i >= p.len() {
            assert(l[i] == x[i - p.len()]);
        }
    }
    crate::text::lemma_newline_pos(text, l.len());
    assert(text.take(l.len() as int) =~= l);
    assert(text.skip(l.len() as int + 1) =~= Seq::<char>::empty());
    assert(l.last() == x.last());
    assert(crate::text::strip_cr(l) == l);
    assert(crate::text::newline_pos(text) == l.len() && l.len() < text.len());
    assert(lines(Seq::<char>::empty()) =~= Seq::<Seq<char>>::empty());
    assert(lines(text) == seq![crate::text::strip_cr(text.take(l.len() as int))] + lines(
        text.skip(l.len() as int + 1),
    ));
    assert(lines(text) =~= seq![l]);
    assert(l[0] == 'p');
    assert(crate::text::trim_start(l) == l);
    assert(crate::text::trim_end(l) == l);
    assert(trim(l) == l);
    assert(l.take(p.len() as int) =~= p);
    assert(starts_with(trim(l), p));
    assert(l.skip(p.len() as int) =~= x);
    assert(crate::text::trim_start(x) == x);
    assert(crate::text::trim_end(x) == x);
    law_package_line_names_its_id(Seq::empty(), l);
    assert(seq![l] =~= Seq::<Seq<char>>::empty().push(l));
    let ids = crate::adb::package_ids(seq![l]);
    assert(ids =~= seq![x]);
    assert(ids.drop_last() =~= Seq::<Seq<char>>::empty());
    assert(crate::adb::dedup(ids.drop_last()) =~= Seq::<Seq<char>>::empty());
}

/// An `adb devices -l` listing whose header is followed by one line
/// `<serial> device ...` names that serial, whatever characters it holds
/// (a network address `host:port` too).
pub proof fn law_single_device_listing(
    header: Seq<char>,
    serial: Seq<char>,
    rest: Seq<char>,
)
    requires
        forall|i: int| 0 <= i < header.len() ==> header[i] != '\n',
        serial.len() > 0,
        forall|i: int| 0 <= i < serial.len() ==> !crate::text::is_ws(#[trigger] serial[i]),
        forall|i: int| 0 <= i < rest.len() ==> rest[i] != '\n',
        rest.len() == 0 || crate::text::is_ws(rest[0]),
    ensures
        crate::adb::devices_in(header + seq!['\n'] + serial + seq![' '] + "device"@ + rest)
            == seq![serial],
{
    reveal_strlit("device");
    let d = "device"@;
    let line = serial + seq![' '] + d + rest;
    let text = header + seq!['\n'] + line;
    assert(text =~= header + seq!['\n'] + serial + seq![' '] + d + rest);
    assert forall|i: int| 0 <= i < line.len() implies line[i] != '\n' by {
        if i < serial.len() {
            assert(line[i] == serial[i]);
        } else if i >= serial.len() + 1 + d.len() {
            assert(line[i] == rest[i - serial.len() - 1 - d.len()]);
        }
    }
    assert forall|i: int| 0 <= i < header.len() implies text[i] != '\n' by {
        assert(text[i] == header[i]);
    }
    crate::text::lemma_newline_pos(text, header.len());
    crate::text::lemma_newline_pos(line, line.len());
    assert(text.skip(header.len() as int + 1) =~= line);
    assert(lines(line) =~= seq![line]);
    let ls = lines(text);
    assert(ls =~= seq![crate::text::strip_cr(text.take(header.len() as int))] + seq![line]);
    assert(crate::adb::device_lines(text) =~= seq![line]);
    // The first word is the serial.
    assert(line[0] == serial[0]);
    assert(crate::text::trim_start(line) == line);
    let tail = seq![' '] + d + rest;
    assert(line =~= serial + tail);
    lemma_take_word_of(serial, tail);
    assert(crate::text::first_word(line) == serial);
    // The second word is `device`.
    assert(crate::text::after_first_word(line) =~= tail);
    assert(tail.drop_first() =~= d + rest);
    assert(crate::text::trim_start(tail) == crate::text::trim_start(d + rest));
    assert((d + rest)[0] == 'd');
    assert(crate::text::trim_start(d + rest) == d + rest);
    assert forall|i: int| 0 <= i < d.len() implies !crate::text::is_ws(#[trigger] d[i]) by {}
    lemma_take_word_of(d, rest);
    assert(crate::adb::device_state(line) == d);
    let one = seq![line];
    assert(one.drop_last() =~= Seq::<Seq<char>>::empty());
    assert(crate::adb::ready_devices(one.drop_last()) =~= Seq::<Seq<char>>::empty());
    assert(crate::adb::ready_devices(one) =~= seq![serial]);
}


/// `r` and `R` ask for a refresh and clear the log, changing nothing else.
pub proof fn law_refresh_key(s: AppState, k: Key)
    requires
        !s.confirm_remove,
        k == Key::Char('r') || k == Key::Char('R'),
    ensures
        key_step(s, k).1 == Effect::Refresh,
        key_step(s, k).0.log.len() == 0,
        key_step(s, k).0.items == s.items,
        key_step(s, k).0.visible == s.visible,
        key_step(s, k).0.selected == s.selected,
        key_step(s, k).0.status == s.status,
{
}

/// `A` flips the choice of showing advanced packages and shows the rows of
/// the items under the new choice; the items are untouched.
pub proof fn law_advanced_key(s: AppState)
    requires
        !s.confirm_remove,
    ensures
        key_step(s, Key::Char('A')).0.show_advanced == !s.show_advanced,
        key_step(s, Key::Char('A')).0.visible == visible_for(s.items, !s.show_advanced),
        key_step(s, Key::Char('A')).0.items == s.items,
        key_step(s, Key::Char('A')).0.status == "Advanced packages "@ + if s.show_advanced {
            "hidden"@
        } else {
            "visible"@
        },
        key_step(s, Key::Char('A')).1 == Effect::Stay,
{
}

/// Up moves the highlight one row up and from the first row to the last;
/// Down moves it one row down and from the last row to the first.
pub proof fn law_moves_wrap_around(s: AppState, i: usize)
    requires
        !s.confirm_remove,
        s.selected == Some(i),
        i < s.visible.len(),
        s.visible.len() <= usize::MAX,
    ensures
        key_step(s, Key::Up).0.selected == Some(if i == 0 {
            (s.visible.len() - 1) as usize
        } else {
            (i - 1) as usize
        }),
        key_step(s, Key::Down).0.selected == Some(if i == s.visible.len() - 1 {
            0usize
        } else {
            (i + 1) as usize
        }),
        key_step(s, Key::Up).0.items == s.items,
        key_step(s, Key::Down).0.items == s.items,
{
}

/// Space flips the mark of the highlighted entry and of no other.
pub proof fn law_space_flips_highlighted(s: AppState, si: usize)
    requires
        wf(s),
        !s.confirm_remove,
        s.selected == Some(si),
    ensures
        key_step(s, Key::Char(' ')).0.items.len() == s.items.len(),
        key_step(s, Key::Char(' ')).0.items[s.visible[si as int] as int].selected
            == !s.items[s.visible[si as int] as int].selected,
        key_step(s, Key::Char(' ')).0.items[s.visible[si as int] as int].meta
            == s.items[s.visible[si as int] as int].meta,
        forall|j: int|
            0 <= j < s.items.len() && j != s.visible[si as int] ==> #[trigger] key_step(
                s,
                Key::Char(' '),
            ).0.items[j] == s.items[j],
{
}

/// `y` or `Y` during confirmation asks to remove the marked shown packages,
/// ends the confirmation and clears the log; marks and rows stay.
pub proof fn law_confirm_removes_marked(s: AppState, k: Key)
    requires
        s.confirm_remove,
        k == Key::Char('y') || k == Key::Char('Y'),
    ensures
        key_step(s, k).1 == Effect::Remove(selected_ids(s)),
        !key_step(s, k).0.confirm_remove,
        key_step(s, k).0.log.len() == 0,
        key_step(s, k).0.items == s.items,
        key_step(s, k).0.visible == s.visible,
{
}

/// `x` with marked packages reports how many and waits for confirmation.
pub proof fn law_remove_prompt_counts(s: AppState)
    requires
        !s.confirm_remove,
        selected_count(s) > 0,
    ensures
        key_step(s, Key::Char('x')).0.confirm_remove,
        key_step(s, Key::Char('x')).0.status == "Confirm removal of "@ + crate::text::dec(
            selected_count(s),
        ) + " package(s)."@,
{
}

/// The ids reported as marked are those of the marked shown entries, in row
/// order: with every shown entry marked, they are all the shown ids.
pub proof fn law_marked_ids_are_the_marked_rows(s: AppState, n: nat)
    requires
        rows_valid(s),
        n <= s.visible.len(),
        forall|j: int| 0 <= j < n ==> s.items[(#[trigger] s.visible[j]) as int].selected,
    ensures
        selected_ids_upto(s, n).len() == n,
        forall|j: int|
            0 <= j < n ==> #[trigger] selected_ids_upto(s, n)[j] == s.items[s.visible[j] as int].meta.id@,
    decreases n,
{
    if n > 0 {
        law_marked_ids_are_the_marked_rows(s, (n - 1) as nat);
    }
}

/// Recomputing the rows keeps a highlight that is still on a row, moves one
/// past the end to the last row, starts at the first row when there was none,
/// and drops it when no row is left.
pub proof fn law_rebuilt_highlight(s: AppState)
    ensures
        ({
            let n = rebuilt(s).visible.len();
            &&& n == 0 ==> rebuilt(s).selected is None
            &&& n > 0 && s.selected is None ==> rebuilt(s).selected == Some(0usize)
            &&& n > 0 && (s.selected matches Some(k) && k < n) ==> rebuilt(s).selected
                == s.selected
            &&& n > 0 && (s.selected matches Some(k) && k >= n) ==> rebuilt(s).selected == Some(
                (n - 1) as usize,
            )
        }),
        rebuilt(s).items == s.items,
        rebuilt(s).visible == visible_for(s.items, s.show_advanced),
{
}

/// The number that the digits of `d` spell in decimal.
pub open spec fn decimal_value(d: Seq<char>) -> int
    decreases d.len(),
{
    if d.len() == 0 {
        0
    } else {
        decimal_value(d.drop_last()) * 10 + (d.last() as int - '0' as int)
    }
}

/// A number is written with decimal digits that spell it, without a leading
/// zero (but for zero itself).
pub proof fn law_decimal_spells_the_number(n: nat)
    ensures
        decimal_value(crate::text::dec(n)) == n,
        forall|i: int|
            0 <= i < crate::text::dec(n).len() ==> '0' <= #[trigger] crate::text::dec(n)[i] <= '9',
        crate::text::dec(n).len() > 0,
        n > 0 ==> crate::text::dec(n)[0] != '0',
    decreases n,
{
    lemma_digit_value(n % 10);
    if n >= 10 {
        law_decimal_spells_the_number(n / 10);
        let d = crate::text::dec(n / 10);
        assert(crate::text::dec(n).drop_last() =~= d);
        assert(crate::text::dec(n)[0] == d[0]);
    } else {
        assert(crate::text::dec(n).drop_last() =~= Seq::<char>::empty());
        assert(decimal_value(Seq::<char>::empty()) == 0);
    }
}

proof fn lemma_digit_value(d: nat)
    requires
        d < 10,
    ensures
        crate::text::digit_char(d) as int - '0' as int == d,
        '0' <= crate::text::digit_char(d) <= '9',
        d > 0 ==> crate::text::digit_char(d) != '0',
{
    assert('0' as int == 48);
    assert('1' as int == 49);
    assert('2' as int == 50);
    assert('3' as int == 51);
    assert('4' as int == 52);
    assert('5' as int == 53);
    assert('6' as int == 54);
    assert('7' as int == 55);
    assert('8' as int == 56);
    assert('9' as int == 57);
}

/// A padded text begins with the text and is as wide as asked, or the text
/// itself when already wider.
pub proof fn law_pad_right(s: Seq<char>, width: nat)
    ensures
        crate::text::pad_right(s, width).len() == if s.len() >= width {
            s.len()
        } else {
            width
        },
        crate::text::pad_right(s, width).take(s.len() as int) == s,
        forall|i: int|
            s.len() <= i < crate::text::pad_right(s, width).len() ==> #[trigger] crate::text::pad_right(
                s,
                width,
            )[i] == ' ',
{
    assert(crate::text::pad_right(s, width).take(s.len() as int) =~= s);
}

/// What `pm uninstall` printed: just the output when nothing was written to
/// standard error, just the error text when nothing was written to output,
/// else output, a line feed and error text.
pub proof fn law_combined_output(o: Seq<char>, e: Seq<char>)
    ensures
        e.len() == 0 ==> crate::adb::combined_output(o, e) == o,
        o.len() == 0 ==> crate::adb::combined_output(o, e) == e,
        o.len() > 0 && e.len() > 0 ==> crate::adb::combined_output(o, e).len() == o.len() + 1
            + e.len() && crate::adb::combined_output(o, e).take(o.len() as int) == o
            && crate::adb::combined_output(o, e)[o.len() as int] == '\n' && crate::adb::combined_output(
            o,
            e,
        ).skip(o.len() as int + 1) == e,
{
    reveal_strlit("\n");
    if o.len() > 0 && e.len() > 0 {
        let c = crate::adb::combined_output(o, e);
        assert(c.take(o.len() as int) =~= o);
        assert(c.skip(o.len() as int + 1) =~= e);
    }
}


proof fn lemma_trim_start_cut(s: Seq<char>) -> (i: int)
    ensures
        0 <= i <= s.len(),
        crate::text::trim_start(s) == s.skip(i),
        forall|k: int| 0 <= k < i ==> crate::text::is_ws(#[trigger] s[k]),
        i < s.len() ==> !crate::text::is_ws(s[i]),
    decreases s.len(),
{
    if s.len() > 0 && crate::text::is_ws(s[0]) {
        let i0 = lemma_trim_start_cut(s.drop_first());
        assert(s.drop_first().skip(i0) =~= s.skip(i0 + 1));
        assert forall|k: int| 0 <= k < i0 + 1 implies crate::text::is_ws(#[trigger] s[k]) by {
            if k > 0 {
                assert(s[k] == s.drop_first()[k - 1]);
            }
        }
        i0 + 1
    } else {
        assert(s.skip(0) =~= s);
        0
    }
}

proof fn lemma_trim_end_cut(s: Seq<char>) -> (j: int)
    ensures
        0 <= j <= s.len(),
        crate::text::trim_end(s) == s.take(j),
        forall|k: int| j <= k < s.len() ==> crate::text::is_ws(#[trigger] s[k]),
        j > 0 ==> !crate::text::is_ws(s[j - 1]),
    decreases s.len(),
{
    if s.len() > 0 && crate::text::is_ws(s.last()) {
        let j0 = lemma_trim_end_cut(s.drop_last());
        assert(s.drop_last().take(j0) =~= s.take(j0));
        assert forall|k: int| j0 <= k < s.len() implies crate::text::is_ws(#[trigger] s[k]) by {
            if k < s.len() - 1 {
                assert(s[k] == s.drop_last()[k]);
            }
        }
        j0
    } else {
        assert(s.take(s.len() as int) =~= s);
        s.len() as int
    }
}

/// Trimming cuts only whitespace from the two ends of a text: what is left
/// is a piece of it that neither begins nor ends with whitespace, and all
/// that was cut is whitespace.
pub proof fn law_trim_cuts_only_outer_whitespace(s: Seq<char>)
    ensures
        exists|i: int, j: int|
            {
                &&& 0 <= i <= j <= s.len()
                &&& trim(s) == s.subrange(i, j)
                &&& forall|k: int| 0 <= k < i ==> crate::text::is_ws(#[trigger] s[k])
                &&& forall|k: int| j <= k < s.len() ==> crate::text::is_ws(#[trigger] s[k])
                &&& i < j ==> !crate::text::is_ws(s[i]) && !crate::text::is_ws(s[j - 1])
            },
{
    let i = lemma_trim_start_cut(s);
    let rest = s.skip(i);
    let j0 = lemma_trim_end_cut(rest);
    let j = i + j0;
    assert(rest.take(j0) =~= s.subrange(i, j));
    assert forall|k: int| j <= k < s.len() implies crate::text::is_ws(#[trigger] s[k]) by {
        assert(s[k] == rest[k - i]);
    }
    if i < j {
        assert(s[i] == rest[0]);
        assert(s[j - 1] == rest[j0 - 1]);
    }
    assert(0 <= i <= j <= s.len() && trim(s) == s.subrange(i, j));
}

} // verus!
