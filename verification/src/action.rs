//! Actions a key can carry and the build-time keymap table.
//!
//! The keymap is an immutable `[layer][row][column]` table of actions. Layer
//! 0 is the permanent base layer and must be fully concrete: resolution falls
//! through `Trans` entries down to it. A `HoldTap` may not nest another
//! `HoldTap` in its branches; a table that tries is flagged by [`Keymap::check`]
//! rather than guessed about.

use vstd::prelude::*;

use crate::grid::{COLS, ROWS};

verus! {

/// A dual-function key: `hold` after `timeout` quiet ticks, `tap` when
/// released early or when another press disambiguates it. `tap_hold_interval`
/// is the tie-break tunable: a disambiguating press arriving within that many
/// ticks of the previous key-up favours the hold branch.
#[derive(Debug, PartialEq, Eq)]
pub struct HoldTapAction {
    pub timeout: u16,
    pub tap_hold_interval: u16,
    pub hold: Action,
    pub tap: Action,
}

/// What one keymap cell does. A closed set of variants; `Trans` defers to the
/// next lower active layer.
#[derive(Debug, PartialEq, Eq)]
pub enum Action {
    /// Press and release a plain HID usage code.
    KeyCode(u8),
    /// Transparent: fall through to the layer below.
    Trans,
    /// Layer held while the key is held.
    MomentaryLayer(usize),
    /// Replace the active default layer; sticky until another switch.
    DefaultLayer(usize),
    /// Hold-tap dual-function key.
    HoldTap(Box<HoldTapAction>),
    /// Fixed key-code sequence played back one synthetic press/release pair
    /// per tick.
    MacroKeys(Vec<u8>),
    /// Device-control payload surfaced verbatim to the caller.
    Custom(u8),
}

impl Action {
    /// An action that is not itself a hold-tap.
    pub open spec fn is_flat(&self) -> bool {
        !(self is HoldTap)
    }
}

/// A sane action for a table of `nlayers` layers: layer switches stay in
/// range and hold-tap branches are flat (no hold-tap of hold-tap).
pub open spec fn action_ok(a: Action, nlayers: int) -> bool {
    match a {
        Action::MomentaryLayer(l) => l < nlayers,
        Action::DefaultLayer(l) => l < nlayers,
        Action::HoldTap(h) => {
            &&& h.hold.is_flat()
            &&& h.tap.is_flat()
            &&& flat_action_ok(h.hold, nlayers)
            &&& flat_action_ok(h.tap, nlayers)
        },
        _ => true,
    }
}

/// `action_ok` restricted to flat actions (the hold-tap branches).
pub open spec fn flat_action_ok(a: Action, nlayers: int) -> bool {
    match a {
        Action::MomentaryLayer(l) => l < nlayers,
        Action::DefaultLayer(l) => l < nlayers,
        _ => true,
    }
}

/// Checks a flat action's layer targets, and flags a nested hold-tap.
fn flat_action_allowed(a: &Action, nlayers: usize) -> (ok: bool)
    ensures
        ok == (a.is_flat() && flat_action_ok(*a, nlayers as int)),
{
    match a {
        Action::MomentaryLayer(l) => *l < nlayers,
        Action::DefaultLayer(l) => *l < nlayers,
        Action::HoldTap(_) => false,
        _ => true,
    }
}

/// Checks one action of a table of `nlayers` layers.
fn action_allowed(a: &Action, nlayers: usize) -> (ok: bool)
    ensures
        ok == action_ok(*a, nlayers as int),
{
    match a {
        Action::HoldTap(h) => {
            let hold_ok = flat_action_allowed(&h.hold, nlayers);
            let tap_ok = flat_action_allowed(&h.tap, nlayers);
            hold_ok && tap_ok
        },
        _ => flat_action_allowed(a, nlayers),
    }
}

/// A well-formed keymap: at least the base layer, every layer a full
/// `ROWS x COLS` table, no transparent cell on the base layer, and every
/// action sane for the table.
pub open spec fn keymap_wf(km: Seq<Seq<Seq<Action>>>) -> bool {
    &&& km.len() >= 1
    &&& forall|l: int| 0 <= l < km.len() ==> (#[trigger] km[l]).len() == ROWS
    &&& forall|l: int, r: int|
        0 <= l < km.len() && 0 <= r < ROWS ==> (#[trigger] km[l][r]).len() == COLS
    &&& forall|r: int, c: int|
        0 <= r < ROWS && 0 <= c < COLS ==> !((#[trigger] km[0][r][c]) is Trans)
    &&& forall|l: int, r: int, c: int|
        0 <= l < km.len() && 0 <= r < ROWS && 0 <= c < COLS ==> action_ok(
            #[trigger] km[l][r][c],
            km.len() as int,
        )
}

/// The immutable, build-time keymap configuration table.
#[derive(Debug, PartialEq, Eq)]
pub struct Keymap {
    pub layers: Vec<Vec<Vec<Action>>>,
}

impl View for Keymap {
    type V = Seq<Seq<Seq<Action>>>;

    open spec fn view(&self) -> Seq<Seq<Seq<Action>>> {
        self.layers@.map_values(|l: Vec<Vec<Action>>| l@.map_values(|r: Vec<Action>| r@))
    }
}

impl Keymap {
    /// Accepts any syntactically valid table and flags the rest: wrong
    /// dimensions, a transparent base-layer cell, a layer switch out of
    /// range, or a hold-tap nested in a hold-tap branch.
    pub fn check(&self) -> (ok: bool)
        ensures
            ok == keymap_wf(self@),
    {
        let nlayers = self.layers.len();
        if nlayers == 0 {
            return false;
        }
        let mut l: usize = 0;
        while l < nlayers
            invariant
                l <= nlayers,
                nlayers == self@.len(),
                forall|i: int| 0 <= i < l ==> (#[trigger] self@[i]).len() == ROWS,
                forall|i: int, r: int|
                    0 <= i < l && 0 <= r < ROWS ==> (#[trigger] self@[i][r]).len() == COLS,
                forall|r: int, c: int|
                    l > 0 && 0 <= r < ROWS && 0 <= c < COLS ==> !((#[trigger] self@[0][r][c])
                        is Trans),
                forall|i: int, r: int, c: int|
                    0 <= i < l && 0 <= r < ROWS && 0 <= c < COLS ==> action_ok(
                        #[trigger] self@[i][r][c],
                        nlayers as int,
                    ),
            decreases nlayers - l,
        {
            if self.layers[l].len() != ROWS {
                proof {
                    assert(self@[l as int].len() != ROWS);
                }
                return false;
            }
            let mut r: usize = 0;
            while r < ROWS
                invariant
                    r <= ROWS,
                    l < nlayers,
                    nlayers == self@.len(),
                    self@[l as int].len() == ROWS,
                    forall|j: int| 0 <= j < r ==> (#[trigger] self@[l as int][j]).len() == COLS,
                    forall|j: int, c: int|
                        0 <= j < r && 0 <= c < COLS && l == 0 ==> !((#[trigger] self@[0][j][c])
                            is Trans),
                    forall|j: int, c: int|
                        0 <= j < r && 0 <= c < COLS ==> action_ok(
                            #[trigger] self@[l as int][j][c],
                            nlayers as int,
                        ),
                decreases ROWS - r,
            {
                if self.layers[l][r].len() != COLS {
                    proof {
                        assert(self@[l as int][r as int].len() != COLS);
                    }
                    return false;
                }
                let mut c: usize = 0;
                while c < COLS
                    invariant
                        c <= COLS,
                        r < ROWS,
                        l < nlayers,
                        nlayers == self@.len(),
                        self@[l as int].len() == ROWS,
                        self@[l as int][r as int].len() == COLS,
                        forall|k: int|
                            0 <= k < c && l == 0 ==> !((#[trigger] self@[0][r as int][k]) is Trans),
                        forall|k: int|
                            0 <= k < c ==> action_ok(
                                #[trigger] self@[l as int][r as int][k],
                                nlayers as int,
                            ),
                    decreases COLS - c,
                {
                    let a = &self.layers[l][r][c];
                    if !action_allowed(a, nlayers) {
                        return false;
                    }
                    if l == 0 {
                        if matches!(a, Action::Trans) {
                            return false;
                        }
                    }
                    c = c + 1;
                }
                r = r + 1;
            }
            l = l + 1;
        }
        true
    }
}

} // verus!
