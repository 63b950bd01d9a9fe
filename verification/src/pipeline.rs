//! The per-tick pipeline binding scanner output to report input.
//!
//! One call to [`Keyboard::scan_tick`] is the atomic unit an outside observer
//! sees: every event the sample settles is applied to the layout engine
//! before the timers advance and before the report is built, so a report
//! never mixes two ticks' worth of state.

use vstd::prelude::*;

use crate::debounce::{deb_wf, step_events, step_model, DebModel, Debouncer};
use crate::event::{CustomEvent, Event};
use crate::grid::Grid;
use crate::layout::{
    model_wf, spec_handle, spec_keycodes, spec_tick, LayoutEngine, LayoutModel,
};
use crate::report::{mod_mask, report_keys, KbHidReport};
use crate::action::{keymap_wf, Keymap};

verus! {

/// The mathematical state of the whole pipeline.
pub ghost struct PipelineModel {
    pub deb: DebModel,
    pub layout: LayoutModel,
}

/// Folds a tick's events into the layout model, keeping the first custom
/// event any of them surfaced.
pub open spec fn apply_events(m: LayoutModel, evs: Seq<Event>) -> (LayoutModel, Option<
    CustomEvent,
>)
    decreases evs.len(),
{
    if evs.len() == 0 {
        (m, None)
    } else {
        let head = spec_handle(m, evs[0]);
        let rest = apply_events(head.0, evs.drop_first());
        (rest.0, if head.1 is Some {
            head.1
        } else {
            rest.1
        })
    }
}

/// A sound pipeline: both halves well-formed.
pub open spec fn pipeline_wf(m: PipelineModel) -> bool {
    deb_wf(m.deb) && model_wf(m.layout)
}

/// Debouncer and layout engine under one periodic tick.
pub struct Keyboard {
    debouncer: Debouncer,
    layout: LayoutEngine,
}

impl View for Keyboard {
    type V = PipelineModel;

    closed spec fn view(&self) -> PipelineModel {
        PipelineModel { deb: self.debouncer@, layout: self.layout@ }
    }
}

impl Keyboard {
    /// A fresh pipeline over a validated keymap and a debounce threshold.
    pub fn new(keymap: Keymap, threshold: u16) -> (kb: Keyboard)
        requires
            keymap_wf(keymap@),
            threshold >= 1,
        ensures
            pipeline_wf(kb@),
            kb@.deb.threshold == threshold,
            kb@.layout == crate::layout::init_model(keymap@),
    {
        Keyboard { debouncer: Debouncer::new(threshold), layout: LayoutEngine::new(keymap) }
    }

    /// One periodic tick: debounce the raw sample, apply every settled event
    /// to the layout, advance the timers, and build the tick's report. The
    /// first custom event any step surfaced rides along for the caller's
    /// fatal-action hook.
    pub fn scan_tick(&mut self, raw: &Grid) -> (out: (KbHidReport, Option<CustomEvent>))
        requires
            pipeline_wf(old(self)@),
            raw.wf(),
        ensures
            pipeline_wf(final(self)@),
            final(self)@.deb == step_model(old(self)@.deb, raw@),
            ({
                let evs = step_events(old(self)@.deb, raw@);
                let applied = apply_events(old(self)@.layout, evs);
                let ticked = spec_tick(applied.0);
                &&& final(self)@.layout == ticked.0
                &&& out.1 == (if applied.1 is Some {
                    applied.1
                } else {
                    ticked.1
                })
                &&& out.0.modifiers == mod_mask(spec_keycodes(ticked.0))
                &&& out.0.keys@ == report_keys(spec_keycodes(ticked.0))
                &&& out.0.wf()
            }),
    {
        let ghost m0 = self.layout@;
        let evs = self.debouncer.events(raw);
        let ghost all = evs@;
        let mut cust: Option<CustomEvent> = None;
        let mut i: usize = 0;
        proof {
            assert(all.skip(0) =~= all);
        }
        while i < evs.len()
            invariant
                i <= all.len(),
                evs@ == all,
                self.debouncer@ == step_model(old(self)@.deb, raw@),
                deb_wf(self.debouncer@),
                forall|k: int| 0 <= k < all.len() ==> (#[trigger] all[k]).in_range(),
                model_wf(self.layout@),
                apply_events(m0, all).0 == apply_events(self.layout@, all.skip(i as int)).0,
                apply_events(m0, all).1 == (if cust is Some {
                    cust
                } else {
                    apply_events(self.layout@, all.skip(i as int)).1
                }),
            decreases all.len() - i,
        {
            let e = evs[i];
            proof {
                assert(all.skip(i as int)[0] == all[i as int]);
                assert(all.skip(i as int).drop_first() =~= all.skip(i as int + 1));
            }
            let c = self.layout.handle(e);
            if cust.is_none() {
                cust = c;
            }
            i = i + 1;
        }
        proof {
            assert(all.skip(all.len() as int) =~= Seq::<Event>::empty());
        }
        let tick_cust = self.layout.tick();
        let cev = if cust.is_some() {
            cust
        } else {
            tick_cust
        };
        let codes = self.layout.keycodes();
        let rep = KbHidReport::from_keycodes(&codes);
        (rep, cev)
    }

    /// The layout's resolved key-code set, read-only.
    pub fn keycodes(&self) -> (codes: Vec<u8>)
        ensures
            codes@ == spec_keycodes(self@.layout),
    {
        self.layout.keycodes()
    }

    /// The layout's topmost active layer, read-only.
    pub fn current_layer(&self) -> (l: usize)
        ensures
            l == crate::layout::spec_current_layer(self@.layout),
    {
        self.layout.current_layer()
    }
}

} // verus!
