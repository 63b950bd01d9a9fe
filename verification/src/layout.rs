//! The per-tick layout state machine: layer resolution, hold-tap
//! disambiguation and macro playback.
//!
//! Two entry points drive it: [`LayoutEngine::handle`] applies one debounced
//! press/release event, [`LayoutEngine::tick`] advances the timers. Both may
//! surface one [`CustomEvent`] to the caller. [`LayoutEngine::keycodes`]
//! reads the currently resolved key-code set without changing anything.
//!
//! The whole state is mirrored by the mathematical [`LayoutModel`]; every
//! mutating method is proved equal to one step of the model's transition
//! functions, and the laws about multi-step behaviour are stated over those.

use vstd::prelude::*;

use crate::action::{Action, HoldTapAction, Keymap, keymap_wf, action_ok, flat_action_ok};
use crate::event::{CustomEvent, Event};
use crate::grid::{COLS, ROWS};

verus! {

/// What a currently pressed key contributes while it is down, tagged with
/// the coordinate that owns it.
#[derive(Clone, Copy, Debug, PartialEq, Eq, Structural)]
pub enum KeyState {
    /// A plain key holding its usage code down.
    Key { row: u8, col: u8, code: u8 },
    /// A momentary layer held open.
    LayerHold { row: u8, col: u8, layer: usize },
    /// A custom key: its press is inert, its release triggers the signal.
    CustomHold { row: u8, col: u8, payload: u8 },
}

impl KeyState {
    /// Row of the owning coordinate.
    pub open spec fn row(&self) -> u8 {
        match *self {
            KeyState::Key { row, .. } => row,
            KeyState::LayerHold { row, .. } => row,
            KeyState::CustomHold { row, .. } => row,
        }
    }

    /// Column of the owning coordinate.
    pub open spec fn col(&self) -> u8 {
        match *self {
            KeyState::Key { col, .. } => col,
            KeyState::LayerHold { col, .. } => col,
            KeyState::CustomHold { col, .. } => col,
        }
    }
}

/// An unresolved hold-tap press: the coordinate, the layer its action was
/// resolved on (the keymap is immutable, so the branches can be re-read from
/// there), and the quiet ticks seen so far.
#[derive(Clone, Copy, Debug, PartialEq, Eq, Structural)]
pub struct WaitingState {
    pub row: u8,
    pub col: u8,
    pub layer: usize,
    pub elapsed: u16,
}

/// The mathematical state of the layout engine.
pub ghost struct LayoutModel {
    /// The immutable configuration table.
    pub keymap: Seq<Seq<Seq<Action>>>,
    /// The active default layer; replaced outright by `DefaultLayer`, sits
    /// above the permanent base layer 0.
    pub default_layer: usize,
    /// Momentary layers, bottom to top; the top is consulted first.
    pub momentary: Seq<usize>,
    /// One entry per held key, in press order.
    pub states: Seq<KeyState>,
    /// The pending hold-tap, if any.
    pub waiting: Option<WaitingState>,
    /// A release applied at the start of the next tick (a hold-tap resolved
    /// to its tap branch by its own release stays visible for one tick).
    pub deferred: Option<(u8, u8)>,
    /// Key codes of macro steps not yet played.
    pub macro_queue: Seq<u8>,
    /// The synthetic key held by the macro step of the current tick.
    pub macro_current: Option<u8>,
    /// Ticks since the last key-up was handled (saturating); feeds the
    /// hold-tap tie-break.
    pub since_keyup: u32,
}

/// The hold-tap action a pending press came from.
pub open spec fn holdtap_of(km: Seq<Seq<Seq<Action>>>, w: WaitingState) -> HoldTapAction
    recommends
        km[w.layer as int][w.row as int][w.col as int] is HoldTap,
{
    match km[w.layer as int][w.row as int][w.col as int] {
        Action::HoldTap(h) => *h,
        _ => arbitrary(),
    }
}

/// A sound pending hold-tap: in range, and its cell really is a hold-tap.
pub open spec fn waiting_wf(km: Seq<Seq<Seq<Action>>>, w: WaitingState) -> bool {
    &&& w.layer < km.len()
    &&& w.row < ROWS
    &&& w.col < COLS
    &&& km[w.layer as int][w.row as int][w.col as int] is HoldTap
}

/// The engine's invariant: a well-formed keymap and every layer reference in
/// range.
pub open spec fn model_wf(m: LayoutModel) -> bool {
    &&& keymap_wf(m.keymap)
    &&& m.default_layer < m.keymap.len()
    &&& forall|i: int| 0 <= i < m.momentary.len() ==> (#[trigger] m.momentary[i]) < m.keymap.len()
    &&& match m.waiting {
        Some(w) => waiting_wf(m.keymap, w),
        None => true,
    }
}

/// Walks `layers` from its top (last element) down, skipping transparent
/// cells, and names the layer whose action wins at `(r, c)`; the permanent
/// base layer 0 is the floor under them all.
pub open spec fn resolve_layer_in(
    km: Seq<Seq<Seq<Action>>>,
    layers: Seq<usize>,
    r: int,
    c: int,
) -> usize
    decreases layers.len(),
{
    if layers.len() == 0 {
        0
    } else if km[layers.last() as int][r][c] is Trans {
        resolve_layer_in(km, layers.drop_last(), r, c)
    } else {
        layers.last()
    }
}

/// The layers consulted for resolution, bottom to top: the active default
/// layer, then the momentary stack.
pub open spec fn active_layers(m: LayoutModel) -> Seq<usize> {
    seq![m.default_layer] + m.momentary
}

/// The layer that wins resolution at `(r, c)`.
pub open spec fn resolve_layer_at(m: LayoutModel, r: int, c: int) -> usize {
    resolve_layer_in(m.keymap, active_layers(m), r, c)
}

/// The action a press of `(r, c)` resolves to.
pub open spec fn resolved_action(m: LayoutModel, r: int, c: int) -> Action {
    m.keymap[resolve_layer_at(m, r, c) as int][r][c]
}

/// First state entry owned by coordinate `(r, c)`, or -1.
pub open spec fn find_state(states: Seq<KeyState>, r: u8, c: u8) -> int
    decreases states.len(),
{
    if states.len() == 0 {
        -1
    } else if states[0].row() == r && states[0].col() == c {
        0
    } else {
        let rest = find_state(states.drop_first(), r, c);
        if rest < 0 {
            -1
        } else {
            1 + rest
        }
    }
}

/// `s` with its last occurrence of `x` removed, if any.
pub open spec fn remove_last_occurrence(s: Seq<usize>, x: usize) -> Seq<usize>
    decreases s.len(),
{
    if s.len() == 0 {
        s
    } else if s.last() == x {
        s.drop_last()
    } else {
        remove_last_occurrence(s.drop_last(), x).push(s.last())
    }
}

/// Applies a press of a flat (non-hold-tap) action at `(r, c)`. A hold-tap
/// reaching here (only possible through an ill-formed table) is inert.
pub open spec fn apply_flat(m: LayoutModel, a: Action, r: u8, c: u8) -> (LayoutModel, Option<
    CustomEvent,
>) {
    match a {
        Action::KeyCode(k) => (
            LayoutModel { states: m.states.push(KeyState::Key { row: r, col: c, code: k }), ..m },
            None,
        ),
        Action::Trans => (m, None),
        Action::MomentaryLayer(l) => (
            LayoutModel {
                momentary: m.momentary.push(l),
                states: m.states.push(KeyState::LayerHold { row: r, col: c, layer: l }),
                ..m
            },
            None,
        ),
        Action::DefaultLayer(l) => (LayoutModel { default_layer: l, ..m }, None),
        Action::HoldTap(_) => (m, None),
        Action::MacroKeys(codes) => (LayoutModel { macro_queue: m.macro_queue + codes@, ..m }, None),
        Action::Custom(p) => (
            LayoutModel {
                states: m.states.push(KeyState::CustomHold { row: r, col: c, payload: p }),
                ..m
            },
            Some(CustomEvent::Press(p)),
        ),
    }
}

/// A press at `(r, c)` with no pending hold-tap in the way: ignored if the
/// coordinate is already held, otherwise the resolved action is applied (a
/// hold-tap starts a pending record instead).
pub open spec fn press_at(m: LayoutModel, r: u8, c: u8) -> (LayoutModel, Option<CustomEvent>) {
    if find_state(m.states, r, c) >= 0 {
        (m, None)
    } else {
        let l = resolve_layer_at(m, r as int, c as int);
        match m.keymap[l as int][r as int][c as int] {
            Action::HoldTap(_) => (
                LayoutModel {
                    waiting: Some(WaitingState { row: r, col: c, layer: l, elapsed: 0 }),
                    ..m
                },
                None,
            ),
            _ => apply_flat(m, m.keymap[l as int][r as int][c as int], r, c),
        }
    }
}

/// A release of `(r, c)`: drops the first state entry the coordinate owns,
/// popping its momentary layer or surfacing its custom payload.
pub open spec fn release_at(m: LayoutModel, r: u8, c: u8) -> (LayoutModel, Option<CustomEvent>) {
    let i = find_state(m.states, r, c);
    if i < 0 {
        (m, None)
    } else {
        match m.states[i] {
            KeyState::Key { .. } => (LayoutModel { states: m.states.remove(i), ..m }, None),
            KeyState::LayerHold { layer, .. } => (
                LayoutModel {
                    states: m.states.remove(i),
                    momentary: remove_last_occurrence(m.momentary, layer),
                    ..m
                },
                None,
            ),
            KeyState::CustomHold { payload, .. } => (
                LayoutModel { states: m.states.remove(i), ..m },
                Some(CustomEvent::Release(payload)),
            ),
        }
    }
}

/// Resolves the pending hold-tap to its hold or tap branch and applies that
/// branch at the pending coordinate.
pub open spec fn resolve_waiting(m: LayoutModel, to_hold: bool) -> (LayoutModel, Option<
    CustomEvent,
>) {
    match m.waiting {
        Some(w) => {
            let ht = holdtap_of(m.keymap, w);
            let m1 = LayoutModel { waiting: None, ..m };
            apply_flat(m1, if to_hold { ht.hold } else { ht.tap }, w.row, w.col)
        },
        None => (m, None),
    }
}

/// One debounced event applied to the model.
///
/// A press while a hold-tap is pending first resolves it: to the hold branch
/// when the press comes within `tap_hold_interval` ticks of the previous
/// key-up (the configurable tie-break), to the tap branch otherwise; the new
/// press is then applied to the resolved state. A release of the pending key
/// resolves it to the tap branch and defers the matching release to the next
/// tick, so the tapped action stays visible for one report. Any release
/// resets the key-up clock.
pub open spec fn spec_handle(m: LayoutModel, e: Event) -> (LayoutModel, Option<CustomEvent>) {
    match e {
        Event::Press(r, c) => match m.waiting {
            Some(w) => {
                if w.row == r && w.col == c {
                    (m, None)
                } else {
                    let ht = holdtap_of(m.keymap, w);
                    let to_hold = m.since_keyup < ht.tap_hold_interval;
                    let res1 = resolve_waiting(m, to_hold);
                    let res2 = press_at(res1.0, r, c);
                    (res2.0, if res1.1 is Some { res1.1 } else { res2.1 })
                }
            },
            None => press_at(m, r, c),
        },
        Event::Release(r, c) => {
            let res = match m.waiting {
                Some(w) => {
                    if w.row == r && w.col == c {
                        let res1 = resolve_waiting(m, false);
                        (LayoutModel { deferred: Some((r, c)), ..res1.0 }, res1.1)
                    } else {
                        release_at(m, r, c)
                    }
                },
                None => release_at(m, r, c),
            };
            (LayoutModel { since_keyup: 0, ..res.0 }, res.1)
        },
    }
}

/// Tick part one: the deferred release of a tapped hold-tap key.
pub open spec fn tick_deferred(m: LayoutModel) -> (LayoutModel, Option<CustomEvent>) {
    match m.deferred {
        Some(coord) => release_at(
            LayoutModel { deferred: None, ..m },
            coord.0,
            coord.1,
        ),
        None => (m, None),
    }
}

/// Tick part two: the hold-tap timer; `timeout` quiet ticks resolve the
/// pending key to its hold branch.
pub open spec fn tick_waiting(m: LayoutModel) -> (LayoutModel, Option<CustomEvent>) {
    match m.waiting {
        Some(w) => {
            let ht = holdtap_of(m.keymap, w);
            if w.elapsed + 1 >= ht.timeout {
                resolve_waiting(m, true)
            } else {
                (
                    LayoutModel {
                        waiting: Some(WaitingState { elapsed: (w.elapsed + 1) as u16, ..w }),
                        ..m
                    },
                    None,
                )
            }
        },
        None => (m, None),
    }
}

/// Tick part three: macro playback consumes one queued code per tick; the
/// previous tick's synthetic press is released first.
pub open spec fn tick_macro(m: LayoutModel) -> LayoutModel {
    if m.macro_queue.len() > 0 {
        LayoutModel {
            macro_current: Some(m.macro_queue[0]),
            macro_queue: m.macro_queue.drop_first(),
            ..m
        }
    } else {
        LayoutModel { macro_current: None, ..m }
    }
}

/// One timer tick of the model: deferred release, hold-tap timer, macro
/// step, and the key-up clock.
pub open spec fn spec_tick(m: LayoutModel) -> (LayoutModel, Option<CustomEvent>) {
    let res1 = tick_deferred(m);
    let res2 = tick_waiting(res1.0);
    let m3 = tick_macro(res2.0);
    let m4 = LayoutModel {
        since_keyup: if m3.since_keyup < u32::MAX {
            (m3.since_keyup + 1) as u32
        } else {
            m3.since_keyup
        },
        ..m3
    };
    (m4, if res1.1 is Some { res1.1 } else { res2.1 })
}

/// The codes the held keys contribute, in press order.
pub open spec fn codes_of(states: Seq<KeyState>) -> Seq<u8>
    decreases states.len(),
{
    if states.len() == 0 {
        Seq::empty()
    } else {
        codes_of(states.drop_last()) + (match states.last() {
            KeyState::Key { code, .. } => seq![code],
            _ => Seq::<u8>::empty(),
        })
    }
}

/// The resolved key-code set: held keys in press order, then the current
/// macro step. A pure function of the state, so reading it twice without an
/// intervening `handle`/`tick` returns the same sequence.
pub open spec fn spec_keycodes(m: LayoutModel) -> Seq<u8> {
    codes_of(m.states) + (match m.macro_current {
        Some(k) => seq![k],
        None => Seq::<u8>::empty(),
    })
}

/// The topmost active layer.
pub open spec fn spec_current_layer(m: LayoutModel) -> usize {
    if m.momentary.len() > 0 {
        m.momentary.last()
    } else {
        m.default_layer
    }
}

/// The freshly initialized model over a keymap.
pub open spec fn init_model(km: Seq<Seq<Seq<Action>>>) -> LayoutModel {
    LayoutModel {
        keymap: km,
        default_layer: 0,
        momentary: Seq::empty(),
        states: Seq::empty(),
        waiting: None,
        deferred: None,
        macro_queue: Seq::empty(),
        macro_current: None,
        since_keyup: u32::MAX,
    }
}

/// `find_state` names the first entry of the coordinate, or -1 when the
/// coordinate holds none.
proof fn lemma_find_state_props(states: Seq<KeyState>, r: u8, c: u8)
    ensures
        ({
            let i = find_state(states, r, c);
            &&& -1 <= i < states.len()
            &&& i >= 0 ==> states[i].row() == r && states[i].col() == c
            &&& forall|j: int|
                0 <= j < i ==> !((#[trigger] states[j]).row() == r && states[j].col() == c)
            &&& i == -1 ==> forall|j: int|
                0 <= j < states.len() ==> !((#[trigger] states[j]).row() == r && states[j].col()
                    == c)
        }),
    decreases states.len(),
{
    if states.len() > 0 && !(states[0].row() == r && states[0].col() == c) {
        lemma_find_state_props(states.drop_first(), r, c);
        assert(forall|j: int|
            1 <= j < states.len() ==> #[trigger] states[j] == states.drop_first()[j - 1]);
    }
}

/// Coordinate of a state entry, as the model reads it.
fn state_coord(s: &KeyState) -> (rc: (u8, u8))
    ensures
        rc.0 == s.row(),
        rc.1 == s.col(),
{
    match s {
        KeyState::Key { row, col, .. } => (*row, *col),
        KeyState::LayerHold { row, col, .. } => (*row, *col),
        KeyState::CustomHold { row, col, .. } => (*row, *col),
    }
}

/// Finds the first state entry of `(r, c)`, agreeing with `find_state`.
fn find_state_index(states: &Vec<KeyState>, r: u8, c: u8) -> (res: Option<usize>)
    ensures
        match res {
            Some(i) => 0 <= i < states@.len() && find_state(states@, r, c) == i as int,
            None => find_state(states@, r, c) == -1,
        },
{
    let mut i: usize = 0;
    while i < states.len()
        invariant
            i <= states@.len(),
            forall|j: int|
                0 <= j < i ==> !((#[trigger] states@[j]).row() == r && states@[j].col() == c),
        decreases states@.len() - i,
    {
        let s = states[i];
        let rc = state_coord(&s);
        if rc.0 == r && rc.1 == c {
            proof {
                lemma_find_state_props(states@, r, c);
            }
            return Some(i);
        }
        i = i + 1;
    }
    proof {
        lemma_find_state_props(states@, r, c);
    }
    None
}

/// An owned, plain-data copy of what a flat action does; lets the engine
/// read the keymap first and mutate itself afterwards.
enum FlatOp {
    OpKey(u8),
    OpNothing,
    OpMomentary(usize),
    OpDefault(usize),
    OpMacro(Vec<u8>),
    OpCustom(u8),
}

/// The operation carries the same data as the action. A hold-tap maps to the
/// inert operation: as a branch of another hold-tap it is never applied from
/// a well-formed table, and `apply_flat` keeps it inert.
spec fn op_matches(op: FlatOp, a: Action) -> bool {
    match a {
        Action::KeyCode(k) => op matches FlatOp::OpKey(k2) && k2 == k,
        Action::Trans => op is OpNothing,
        Action::MomentaryLayer(l) => op matches FlatOp::OpMomentary(l2) && l2 == l,
        Action::DefaultLayer(l) => op matches FlatOp::OpDefault(l2) && l2 == l,
        Action::HoldTap(_) => op is OpNothing,
        Action::MacroKeys(codes) => op matches FlatOp::OpMacro(v) && v@ == codes@,
        Action::Custom(p) => op matches FlatOp::OpCustom(p2) && p2 == p,
    }
}

/// Copies a macro's code sequence.
fn copy_codes(v: &Vec<u8>) -> (r: Vec<u8>)
    ensures
        r@ == v@,
{
    let mut out: Vec<u8> = Vec::new();
    let mut i: usize = 0;
    while i < v.len()
        invariant
            i <= v@.len(),
            out@ == v@.take(i as int),
        decreases v@.len() - i,
    {
        out.push(v[i]);
        proof {
            assert(out@ =~= v@.take(i + 1));
        }
        i = i + 1;
    }
    proof {
        assert(v@.take(v@.len() as int) =~= v@);
    }
    out
}

/// Reads a flat action into an owned operation.
fn classify(a: &Action) -> (op: FlatOp)
    ensures
        op_matches(op, *a),
{
    match a {
        Action::KeyCode(k) => FlatOp::OpKey(*k),
        Action::Trans => FlatOp::OpNothing,
        Action::MomentaryLayer(l) => FlatOp::OpMomentary(*l),
        Action::DefaultLayer(l) => FlatOp::OpDefault(*l),
        Action::HoldTap(_) => FlatOp::OpNothing,
        Action::MacroKeys(codes) => FlatOp::OpMacro(copy_codes(codes)),
        Action::Custom(p) => FlatOp::OpCustom(*p),
    }
}

/// Consumes debounced events and produces the resolved key-code set and at
/// most one custom device event per call.
pub struct LayoutEngine {
    keymap: Keymap,
    default_layer: usize,
    momentary: Vec<usize>,
    states: Vec<KeyState>,
    waiting: Option<WaitingState>,
    deferred: Option<(u8, u8)>,
    macro_queue: Vec<u8>,
    macro_current: Option<u8>,
    since_keyup: u32,
}

impl View for LayoutEngine {
    type V = LayoutModel;

    closed spec fn view(&self) -> LayoutModel {
        LayoutModel {
            keymap: self.keymap@,
            default_layer: self.default_layer,
            momentary: self.momentary@,
            states: self.states@,
            waiting: self.waiting,
            deferred: self.deferred,
            macro_queue: self.macro_queue@,
            macro_current: self.macro_current,
            since_keyup: self.since_keyup,
        }
    }
}

impl LayoutEngine {
    /// Takes ownership of a validated keymap; everything else starts empty.
    pub fn new(keymap: Keymap) -> (engine: LayoutEngine)
        requires
            keymap_wf(keymap@),
        ensures
            engine@ == init_model(keymap@),
            model_wf(engine@),
    {
        LayoutEngine {
            keymap,
            default_layer: 0,
            momentary: Vec::new(),
            states: Vec::new(),
            waiting: None,
            deferred: None,
            macro_queue: Vec::new(),
            macro_current: None,
            since_keyup: u32::MAX,
        }
    }

    /// The layer that wins resolution at `(r, c)`: the topmost active layer
    /// whose cell is concrete, the base layer 0 as the floor.
    fn resolve_layer(&self, r: u8, c: u8) -> (l: usize)
        requires
            model_wf(self@),
            r < ROWS,
            c < COLS,
        ensures
            l == resolve_layer_at(self@, r as int, c as int),
            l < self@.keymap.len(),
    {
        let ghost layers = active_layers(self@);
        let mut i: usize = self.momentary.len();
        proof {
            assert(layers.take(layers.len() as int) =~= layers);
        }
        while i > 0
            invariant
                model_wf(self@),
                r < ROWS,
                c < COLS,
                i <= self.momentary@.len(),
                layers == active_layers(self@),
                resolve_layer_at(self@, r as int, c as int) == resolve_layer_in(
                    self@.keymap,
                    layers.take(i + 1),
                    r as int,
                    c as int,
                ),
            decreases i,
        {
            let lay = self.momentary[i - 1];
            proof {
                assert(layers[i as int] == self.momentary@[i - 1]);
                assert(layers.take(i + 1).last() == lay);
                assert(layers.take(i + 1).drop_last() =~= layers.take(i as int));
            }
            let cell_trans = matches!(&self.keymap.layers[lay][r as usize][c as usize], Action::Trans);
            if !cell_trans {
                return lay;
            }
            i = i - 1;
        }
        proof {
            assert(layers.take(1).last() == self@.default_layer);
            assert(layers.take(1).drop_last() =~= Seq::<usize>::empty());
        }
        let cell_trans = matches!(
            &self.keymap.layers[self.default_layer][r as usize][c as usize],
            Action::Trans
        );
        proof {
            let d = self@.default_layer as int;
            assert(cell_trans == (self@.keymap[d][r as int][c as int] is Trans));
            if cell_trans {
                assert(resolve_layer_in(self@.keymap, layers.take(1), r as int, c as int)
                    == resolve_layer_in(self@.keymap, Seq::<usize>::empty(), r as int, c as int));
            } else {
                assert(resolve_layer_in(self@.keymap, layers.take(1), r as int, c as int)
                    == self@.default_layer);
            }
        }
        if !cell_trans {
            self.default_layer
        } else {
            0
        }
    }

    /// Applies one flat operation; `act` is the action it was read from.
    fn apply_op(&mut self, op: FlatOp, r: u8, c: u8, act: Ghost<Action>) -> (cev: Option<
        CustomEvent,
    >)
        requires
            model_wf(old(self)@),
            op_matches(op, act@),
            flat_action_ok(act@, old(self)@.keymap.len() as int),
        ensures
            final(self)@ == apply_flat(old(self)@, act@, r, c).0,
            cev == apply_flat(old(self)@, act@, r, c).1,
            model_wf(final(self)@),
    {
        match op {
            FlatOp::OpKey(k) => {
                self.states.push(KeyState::Key { row: r, col: c, code: k });
                None
            },
            FlatOp::OpNothing => None,
            FlatOp::OpMomentary(l) => {
                self.momentary.push(l);
                self.states.push(KeyState::LayerHold { row: r, col: c, layer: l });
                None
            },
            FlatOp::OpDefault(l) => {
                self.default_layer = l;
                None
            },
            FlatOp::OpMacro(codes) => {
                let ghost pre = self@;
                let mut i: usize = 0;
                while i < codes.len()
                    invariant
                        i <= codes@.len(),
                        self@ == (LayoutModel {
                            macro_queue: pre.macro_queue + codes@.take(i as int),
                            ..pre
                        }),
                    decreases codes@.len() - i,
                {
                    self.macro_queue.push(codes[i]);
                    proof {
                        assert(pre.macro_queue + codes@.take(i as int + 1) =~= (pre.macro_queue
                            + codes@.take(i as int)).push(codes@[i as int]));
                    }
                    i = i + 1;
                }
                proof {
                    assert(codes@.take(codes@.len() as int) =~= codes@);
                }
                None
            },
            FlatOp::OpCustom(p) => {
                self.states.push(KeyState::CustomHold { row: r, col: c, payload: p });
                Some(CustomEvent::Press(p))
            },
        }
    }

    /// Resolves the pending hold-tap to one branch and applies it there.
    fn resolve_waiting_exec(&mut self, to_hold: bool) -> (cev: Option<CustomEvent>)
        requires
            model_wf(old(self)@),
            old(self)@.waiting is Some,
        ensures
            final(self)@ == resolve_waiting(old(self)@, to_hold).0,
            cev == resolve_waiting(old(self)@, to_hold).1,
            model_wf(final(self)@),
    {
        let w = self.waiting.unwrap();
        self.waiting = None;
        let ghost ht = holdtap_of(self@.keymap, w);
        let ghost act = if to_hold {
            ht.hold
        } else {
            ht.tap
        };
        let a = &self.keymap.layers[w.layer][w.row as usize][w.col as usize];
        let op = match a {
            Action::HoldTap(h) => {
                if to_hold {
                    classify(&h.hold)
                } else {
                    classify(&h.tap)
                }
            },
            _ => {
                proof {
                    assert(false);
                }
                FlatOp::OpNothing
            },
        };
        proof {
            assert(action_ok(
                self@.keymap[w.layer as int][w.row as int][w.col as int],
                self@.keymap.len() as int,
            ));
            assert(flat_action_ok(act, self@.keymap.len() as int));
            assert(self@.keymap == old(self)@.keymap);
            assert(self@.momentary == old(self)@.momentary);
            assert(self@.default_layer == old(self)@.default_layer);
            assert(self@.waiting is None);
            assert(model_wf(self@));
        }
        self.apply_op(op, w.row, w.col, Ghost(act))
    }

    /// A press with no pending hold-tap in the way.
    fn press_exec(&mut self, r: u8, c: u8) -> (cev: Option<CustomEvent>)
        requires
            model_wf(old(self)@),
            r < ROWS,
            c < COLS,
        ensures
            final(self)@ == press_at(old(self)@, r, c).0,
            cev == press_at(old(self)@, r, c).1,
            model_wf(final(self)@),
    {
        match find_state_index(&self.states, r, c) {
            Some(_) => None,
            None => {
                let l = self.resolve_layer(r, c);
                let ghost act = self@.keymap[l as int][r as int][c as int];
                let is_ht = matches!(
                    &self.keymap.layers[l][r as usize][c as usize],
                    Action::HoldTap(_)
                );
                if is_ht {
                    self.waiting = Some(WaitingState { row: r, col: c, layer: l, elapsed: 0 });
                    None
                } else {
                    let op = classify(&self.keymap.layers[l][r as usize][c as usize]);
                    proof {
                        assert(action_ok(act, self@.keymap.len() as int));
                        assert(flat_action_ok(act, self@.keymap.len() as int));
                    }
                    self.apply_op(op, r, c, Ghost(act))
                }
            },
        }
    }

    /// Pops the topmost occurrence of `layer` from the momentary stack.
    fn remove_momentary(&mut self, layer: usize)
        requires
            model_wf(old(self)@),
        ensures
            final(self)@ == (LayoutModel {
                momentary: remove_last_occurrence(old(self)@.momentary, layer),
                ..old(self)@
            }),
            model_wf(final(self)@),
    {
        let ghost m0 = self@;
        let ghost pre = self@.momentary;
        let mut i: usize = self.momentary.len();
        while i > 0
            invariant
                model_wf(m0),
                m0 == old(self)@,
                i <= pre.len(),
                self@ == m0,
                pre == m0.momentary,
                forall|k: int| i <= k < pre.len() ==> pre[k] != layer,
            decreases i,
        {
            if self.momentary[i - 1] == layer {
                self.momentary.remove(i - 1);
                proof {
                    lemma_remove_last_at(pre, layer, i - 1 as int);
                    assert(self@.momentary == pre.remove(i - 1 as int));
                    assert(forall|k: int|
                        0 <= k < self@.momentary.len() ==> (#[trigger] self@.momentary[k])
                            < self@.keymap.len());
                }
                return;
            }
            i = i - 1;
        }
        proof {
            lemma_remove_last_absent(pre, layer);
        }
    }

    /// A release: drops the coordinate's entry and undoes its layer hold, or
    /// surfaces its custom payload.
    fn release_exec(&mut self, r: u8, c: u8) -> (cev: Option<CustomEvent>)
        requires
            model_wf(old(self)@),
        ensures
            final(self)@ == release_at(old(self)@, r, c).0,
            cev == release_at(old(self)@, r, c).1,
            model_wf(final(self)@),
    {
        match find_state_index(&self.states, r, c) {
            None => None,
            Some(i) => {
                let st = self.states[i];
                self.states.remove(i);
                proof {
                    assert(self@.keymap == old(self)@.keymap);
                    assert(self@.default_layer == old(self)@.default_layer);
                    assert(self@.momentary == old(self)@.momentary);
                    assert(self@.waiting == old(self)@.waiting);
                    assert(model_wf(self@));
                }
                match st {
                    KeyState::Key { .. } => None,
                    KeyState::LayerHold { layer, .. } => {
                        self.remove_momentary(layer);
                        None
                    },
                    KeyState::CustomHold { payload, .. } => Some(CustomEvent::Release(payload)),
                }
            },
        }
    }

    /// Applies one debounced event, one step of the model's `spec_handle`,
    /// and surfaces at most one custom device event.
    pub fn handle(&mut self, e: Event) -> (cev: Option<CustomEvent>)
        requires
            model_wf(old(self)@),
            e.in_range(),
        ensures
            final(self)@ == spec_handle(old(self)@, e).0,
            cev == spec_handle(old(self)@, e).1,
            model_wf(final(self)@),
    {
        match e {
            Event::Press(r, c) => {
                match self.waiting {
                    Some(w) => {
                        if w.row == r && w.col == c {
                            None
                        } else {
                            let a = &self.keymap.layers[w.layer][w.row as usize][w.col as usize];
                            let interval = match a {
                                Action::HoldTap(h) => h.tap_hold_interval,
                                _ => {
                                    proof {
                                        assert(false);
                                    }
                                    0
                                },
                            };
                            let to_hold = self.since_keyup < interval as u32;
                            let e1 = self.resolve_waiting_exec(to_hold);
                            let e2 = self.press_exec(r, c);
                            if e1.is_some() {
                                e1
                            } else {
                                e2
                            }
                        }
                    },
                    None => self.press_exec(r, c),
                }
            },
            Event::Release(r, c) => {
                let release_waiting = match self.waiting {
                    Some(w) => w.row == r && w.col == c,
                    None => false,
                };
                let cev = if release_waiting {
                    let e1 = self.resolve_waiting_exec(false);
                    self.deferred = Some((r, c));
                    e1
                } else {
                    self.release_exec(r, c)
                };
                self.since_keyup = 0;
                cev
            },
        }
    }

    /// Advances the timers by one tick, one step of the model's `spec_tick`:
    /// the deferred tap release, the hold-tap timeout, one macro step, and
    /// the key-up clock.
    pub fn tick(&mut self) -> (cev: Option<CustomEvent>)
        requires
            model_wf(old(self)@),
        ensures
            final(self)@ == spec_tick(old(self)@).0,
            cev == spec_tick(old(self)@).1,
            model_wf(final(self)@),
    {
        let e1 = match self.deferred {
            Some(rc) => {
                self.deferred = None;
                self.release_exec(rc.0, rc.1)
            },
            None => None,
        };
        let e2 = match self.waiting {
            Some(w) => {
                let a = &self.keymap.layers[w.layer][w.row as usize][w.col as usize];
                let timeout = match a {
                    Action::HoldTap(h) => h.timeout,
                    _ => {
                        proof {
                            assert(false);
                        }
                        0
                    },
                };
                if w.elapsed as u32 + 1 >= timeout as u32 {
                    self.resolve_waiting_exec(true)
                } else {
                    self.waiting = Some(WaitingState { elapsed: w.elapsed + 1, ..w });
                    None
                }
            },
            None => None,
        };
        let ghost m2 = self@;
        if self.macro_queue.len() > 0 {
            let k = self.macro_queue.remove(0);
            self.macro_current = Some(k);
            proof {
                assert(self@.macro_queue =~= m2.macro_queue.drop_first());
                assert(self@ == tick_macro(m2));
            }
        } else {
            self.macro_current = None;
            proof {
                assert(self@ == tick_macro(m2));
            }
        }
        if self.since_keyup < u32::MAX {
            self.since_keyup = self.since_keyup + 1;
        }
        if e1.is_some() {
            e1
        } else {
            e2
        }
    }

    /// The currently resolved key-code set, in press order, the current
    /// macro step last. A pure read: two calls without an intervening
    /// `handle` or `tick` return the same codes.
    pub fn keycodes(&self) -> (codes: Vec<u8>)
        ensures
            codes@ == spec_keycodes(self@),
    {
        let mut out: Vec<u8> = Vec::new();
        let mut i: usize = 0;
        while i < self.states.len()
            invariant
                i <= self@.states.len(),
                out@ == codes_of(self@.states.take(i as int)),
            decreases self@.states.len() - i,
        {
            let st = self.states[i];
            proof {
                assert(self@.states.take(i as int + 1).drop_last() =~= self@.states.take(
                    i as int,
                ));
                assert(self@.states.take(i as int + 1).last() == self@.states[i as int]);
            }
            match st {
                KeyState::Key { code, .. } => {
                    out.push(code);
                    proof {
                        assert(out@ =~= codes_of(self@.states.take(i as int + 1)));
                    }
                },
                _ => {
                    proof {
                        assert(out@ =~= codes_of(self@.states.take(i as int + 1)));
                    }
                },
            }
            i = i + 1;
        }
        proof {
            assert(self@.states.take(self@.states.len() as int) =~= self@.states);
        }
        match self.macro_current {
            Some(k) => {
                out.push(k);
                proof {
                    assert(out@ =~= spec_keycodes(self@));
                }
            },
            None => {
                proof {
                    assert(out@ =~= spec_keycodes(self@));
                }
            },
        }
        out
    }

    /// The topmost active layer (the top momentary layer, else the default).
    pub fn current_layer(&self) -> (l: usize)
        ensures
            l == spec_current_layer(self@),
    {
        if self.momentary.len() > 0 {
            self.momentary[self.momentary.len() - 1]
        } else {
            self.default_layer
        }
    }
}

/// Removing the last occurrence, when `j` is the last index holding `x`, is
/// removing index `j`.
proof fn lemma_remove_last_at(s: Seq<usize>, x: usize, j: int)
    requires
        0 <= j < s.len(),
        s[j] == x,
        forall|k: int| j < k < s.len() ==> s[k] != x,
    ensures
        remove_last_occurrence(s, x) == s.remove(j),
    decreases s.len(),
{
    if j == s.len() - 1 {
        assert(s.drop_last() =~= s.remove(j));
    } else {
        lemma_remove_last_at(s.drop_last(), x, j);
        assert(remove_last_occurrence(s.drop_last(), x).push(s.last()) =~= s.remove(j));
    }
}

/// Removing the last occurrence of an absent value changes nothing.
proof fn lemma_remove_last_absent(s: Seq<usize>, x: usize)
    requires
        forall|k: int| 0 <= k < s.len() ==> s[k] != x,
    ensures
        remove_last_occurrence(s, x) == s,
    decreases s.len(),
{
    if s.len() > 0 {
        lemma_remove_last_absent(s.drop_last(), x);
        assert(remove_last_occurrence(s.drop_last(), x).push(s.last()) =~= s);
    }
}

} // verus!
