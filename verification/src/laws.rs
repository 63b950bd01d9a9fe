//! The layout engine's multi-step laws, proved over the model's transition
//! functions (`spec_handle`, `spec_tick`) that every exec step is held to.

use vstd::prelude::*;

use crate::action::{keymap_wf, Action};
use crate::event::Event;
use crate::grid::{COLS, ROWS};
use crate::layout::{
    active_layers, codes_of, holdtap_of, model_wf, press_at, resolve_layer_in, resolve_waiting,
    resolved_action, spec_handle, spec_keycodes, spec_tick, KeyState, LayoutModel, WaitingState,
};

verus! {

/// The model after `n` timer ticks with no events in between.
pub open spec fn ticks(m: LayoutModel, n: nat) -> LayoutModel
    decreases n,
{
    if n == 0 {
        m
    } else {
        spec_tick(ticks(m, (n - 1) as nat)).0
    }
}

/// Reading idempotence: the resolved key-code set is a function of the
/// engine state alone, so two reads with no `handle` or `tick` between them
/// return the same codes.
pub proof fn lemma_keycodes_idempotent(m: LayoutModel, first: Seq<u8>, second: Seq<u8>)
    requires
        first == spec_keycodes(m),
        second == spec_keycodes(m),
    ensures
        first == second,
{
}

/// A state entry's code shows up in the read-out.
proof fn lemma_codes_of_contains(states: Seq<KeyState>, i: int, k: u8)
    requires
        0 <= i < states.len(),
        states[i] matches KeyState::Key { code, .. } && code == k,
    ensures
        codes_of(states).contains(k),
    decreases states.len(),
{
    if i == states.len() - 1 {
        let whole = codes_of(states);
        assert(whole[whole.len() - 1] == k);
    } else {
        lemma_codes_of_contains(states.drop_last(), i, k);
        let prefix = codes_of(states.drop_last());
        let j = choose|j: int| 0 <= j < prefix.len() && prefix[j] == k;
        assert(codes_of(states)[j] == k);
    }
}

/// A code among the held keys is in the full key-code set.
proof fn lemma_keycodes_contains(m: LayoutModel, i: int, k: u8)
    requires
        0 <= i < m.states.len(),
        m.states[i] matches KeyState::Key { code, .. } && code == k,
    ensures
        spec_keycodes(m).contains(k),
{
    lemma_codes_of_contains(m.states, i, k);
    let codes = codes_of(m.states);
    let j = choose|j: int| 0 <= j < codes.len() && codes[j] == k;
    assert(spec_keycodes(m)[j] == k);
}

/// Fallback within one walk: when every layer above the base is transparent
/// at the coordinate, the walk lands on the base layer.
proof fn lemma_fallback_in(km: Seq<Seq<Seq<Action>>>, layers: Seq<usize>, r: int, c: int)
    requires
        keymap_wf(km),
        0 <= r < ROWS,
        0 <= c < COLS,
        forall|i: int| 0 <= i < layers.len() ==> (#[trigger] layers[i]) < km.len(),
        forall|l: int| 1 <= l < km.len() ==> (#[trigger] km[l][r][c]) is Trans,
    ensures
        resolve_layer_in(km, layers, r, c) == 0,
    decreases layers.len(),
{
    if layers.len() > 0 {
        if layers.last() == 0usize {
            assert(!(km[0][r][c] is Trans));
        } else {
            lemma_fallback_in(km, layers.drop_last(), r, c);
        }
    }
}

/// Within one walk: the winning layer is in range and its cell is concrete.
proof fn lemma_resolve_in_concrete(km: Seq<Seq<Seq<Action>>>, layers: Seq<usize>, r: int, c: int)
    requires
        keymap_wf(km),
        0 <= r < ROWS,
        0 <= c < COLS,
        forall|i: int| 0 <= i < layers.len() ==> (#[trigger] layers[i]) < km.len(),
    ensures
        resolve_layer_in(km, layers, r, c) < km.len(),
        !(km[resolve_layer_in(km, layers, r, c) as int][r][c] is Trans),
    decreases layers.len(),
{
    if layers.len() > 0 && km[layers.last() as int][r][c] is Trans {
        lemma_resolve_in_concrete(km, layers.drop_last(), r, c);
    }
}

/// Resolution is total: with a concrete base layer under everything, a press
/// never resolves to a transparent cell.
pub proof fn lemma_resolution_concrete(m: LayoutModel, r: int, c: int)
    requires
        model_wf(m),
        0 <= r < ROWS,
        0 <= c < COLS,
    ensures
        !(resolved_action(m, r, c) is Trans),
{
    let layers = active_layers(m);
    assert(forall|i: int| 0 <= i < layers.len() ==> (#[trigger] layers[i]) < m.keymap.len());
    lemma_resolve_in_concrete(m.keymap, layers, r, c);
}

/// Layer fallback law: at a coordinate where every layer above the base is
/// transparent, resolution yields the base layer's action, whatever
/// momentary layers are active and whatever default layer was toggled.
pub proof fn lemma_layer_fallback(m: LayoutModel, r: int, c: int)
    requires
        model_wf(m),
        0 <= r < ROWS,
        0 <= c < COLS,
        forall|l: int| 1 <= l < m.keymap.len() ==> (#[trigger] m.keymap[l][r][c]) is Trans,
    ensures
        resolved_action(m, r, c) == m.keymap[0][r][c],
{
    let layers = active_layers(m);
    assert(forall|i: int| 0 <= i < layers.len() ==> (#[trigger] layers[i]) < m.keymap.len());
    lemma_fallback_in(m.keymap, layers, r, c);
}

/// Hold-tap interrupt law: while a hold-tap is pending and the tie-break
/// window is past, pressing any other key resolves the pending key to its
/// tap branch — the tap branch is applied at the hold-tap's coordinate,
/// the pending record is consumed, and only then is the new press applied.
/// A tap branch that is a plain key leaves its code held.
pub proof fn lemma_holdtap_interrupt(m: LayoutModel, w: WaitingState, r: u8, c: u8)
    requires
        model_wf(m),
        r < ROWS,
        c < COLS,
        m.waiting == Some(w),
        !(w.row == r && w.col == c),
        m.since_keyup >= holdtap_of(m.keymap, w).tap_hold_interval,
    ensures
        spec_handle(m, Event::Press(r, c)).0 == press_at(resolve_waiting(m, false).0, r, c).0,
        resolve_waiting(m, false).0.waiting is None,
        forall|k: u8|
            holdtap_of(m.keymap, w).tap == Action::KeyCode(k)
                ==> resolve_waiting(m, false).0.states == m.states.push(
                KeyState::Key { row: w.row, col: w.col, code: k },
            ) && spec_keycodes(#[trigger] spec_handle(m, Event::Press(r, c)).0).contains(k),
{
    let mid = resolve_waiting(m, false).0;
    let after = press_at(mid, r, c).0;
    assert forall|k: u8| holdtap_of(m.keymap, w).tap == Action::KeyCode(k) implies mid.states
        == m.states.push(KeyState::Key { row: w.row, col: w.col, code: k }) && spec_keycodes(
        spec_handle(m, Event::Press(r, c)).0,
    ).contains(k) by {
        let i = m.states.len() as int;
        assert(after.states[i] == (KeyState::Key { row: w.row, col: w.col, code: k }));
        lemma_keycodes_contains(after, i, k);
    }
}

/// Hold-tap timeout law: a pending hold-tap left alone (no events, no
/// deferred release, no macro at work) stays pending through every tick
/// before its timeout — neither branch emitted, only its clock moved — and
/// the tick that reaches the timeout resolves it to its hold branch. A hold
/// branch that is a plain key leaves its code held from that tick on.
pub proof fn lemma_holdtap_timeout(m: LayoutModel, w: WaitingState, n: nat)
    requires
        model_wf(m),
        m.waiting == Some(w),
        w.elapsed == 0,
        holdtap_of(m.keymap, w).timeout >= 1,
        m.deferred is None,
        m.macro_queue.len() == 0,
        m.macro_current is None,
        n <= holdtap_of(m.keymap, w).timeout,
    ensures
        n < holdtap_of(m.keymap, w).timeout ==> ticks(m, n).waiting == Some(
            WaitingState { elapsed: n as u16, ..w },
        ) && ticks(m, n).states == m.states && ticks(m, n).keymap == m.keymap && ticks(m, n).deferred
            is None && ticks(m, n).macro_queue.len() == 0 && ticks(m, n).macro_current is None,
        n == holdtap_of(m.keymap, w).timeout ==> ticks(m, n).waiting is None && ticks(m, n)
            == spec_tick(ticks(m, (n - 1) as nat)).0,
        n == holdtap_of(m.keymap, w).timeout ==> forall|k: u8|
            holdtap_of(m.keymap, w).hold == Action::KeyCode(k) ==> (#[trigger] ticks(m, n)).states
                == m.states.push(KeyState::Key { row: w.row, col: w.col, code: k })
                && spec_keycodes(ticks(m, n)).contains(k),
    decreases n,
{
    if n > 0 {
        lemma_holdtap_timeout(m, w, (n - 1) as nat);
        let prev = ticks(m, (n - 1) as nat);
        assert(ticks(m, n) == spec_tick(prev).0);
        if n == holdtap_of(m.keymap, w).timeout {
            let cur = ticks(m, n);
            assert forall|k: u8| holdtap_of(m.keymap, w).hold == Action::KeyCode(k) implies (
            #[trigger] ticks(m, n)).states == m.states.push(
                KeyState::Key { row: w.row, col: w.col, code: k },
            ) && spec_keycodes(ticks(m, n)).contains(k) by {
                assert(cur.states == m.states.push(
                    KeyState::Key { row: w.row, col: w.col, code: k },
                ));
                lemma_keycodes_contains(cur, m.states.len() as int, k);
            }
        }
    }
}

/// Macro playback law: pressing a key whose resolved action is a macro of
/// `codes` enqueues exactly those codes; each following tick plays exactly
/// one of them, in order, as that tick's synthetic key, and one tick after
/// the last code the playback is gone.
pub proof fn lemma_macro_playback(m: LayoutModel, r: u8, c: u8, codes: Seq<u8>, n: nat)
    requires
        model_wf(m),
        r < ROWS,
        c < COLS,
        m.waiting is None,
        m.deferred is None,
        m.macro_queue.len() == 0,
        m.macro_current is None,
        crate::layout::find_state(m.states, r, c) < 0,
        resolved_action(m, r as int, c as int) matches Action::MacroKeys(v) && v@ == codes,
        1 <= n <= codes.len(),
    ensures
        ({
            let m1 = spec_handle(m, Event::Press(r, c)).0;
            &&& m1.macro_queue == codes
            &&& m1.macro_current is None
            &&& m1.waiting is None
            &&& m1.deferred is None
            &&& ticks(m1, n).macro_current == Some(codes[n - 1])
            &&& ticks(m1, n).macro_queue == codes.skip(n as int)
            &&& ticks(m1, n).waiting is None
            &&& ticks(m1, n).deferred is None
            &&& spec_keycodes(ticks(m1, n)).contains(codes[n - 1])
            &&& (n == codes.len() ==> ticks(m1, n + 1).macro_current is None && ticks(
                m1,
                n + 1,
            ).macro_queue.len() == 0)
        }),
    decreases n,
{
    let m1 = spec_handle(m, Event::Press(r, c)).0;
    assert(m1.macro_queue =~= codes);
    if n == 1 {
        assert(ticks(m1, 1) == spec_tick(m1).0);
        assert(codes.drop_first() =~= codes.skip(1));
    } else {
        lemma_macro_playback(m, r, c, codes, (n - 1) as nat);
        let prev = ticks(m1, (n - 1) as nat);
        assert(ticks(m1, n) == spec_tick(prev).0);
        assert(prev.macro_queue[0] == codes[n - 1]);
        assert(prev.macro_queue.drop_first() =~= codes.skip(n as int));
    }
    let cur = ticks(m1, n);
    let held = codes_of(cur.states);
    assert(spec_keycodes(cur)[held.len() as int] == codes[n - 1]);
    if n == codes.len() {
        assert(ticks(m1, n + 1) == spec_tick(ticks(m1, n)).0);
    }
}

} // verus!
