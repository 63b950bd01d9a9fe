//! HID report assembly and the transport-facing send policy.
//!
//! A report is built fresh each tick from the resolved key-code sequence:
//! modifiers fold into a bitmask, the first six other codes fill the key
//! slots, and anything beyond the sixth is silently dropped — the wire
//! format's documented limitation, not an error.

use vstd::prelude::*;

use crate::keycodes::{is_modifier, modifier_bit, spec_is_modifier, spec_modifier_bit};

verus! {

/// The modifier bitmask a code sequence folds to.
pub open spec fn mod_mask(s: Seq<u8>) -> u8
    decreases s.len(),
{
    if s.len() == 0 {
        0u8
    } else if spec_is_modifier(s.last()) {
        mod_mask(s.drop_last()) | spec_modifier_bit(s.last())
    } else {
        mod_mask(s.drop_last())
    }
}

/// The non-modifier codes of a sequence, order kept.
pub open spec fn nonmods(s: Seq<u8>) -> Seq<u8>
    decreases s.len(),
{
    if s.len() == 0 {
        Seq::empty()
    } else {
        nonmods(s.drop_last()) + (if spec_is_modifier(s.last()) {
            Seq::<u8>::empty()
        } else {
            seq![s.last()]
        })
    }
}

/// The key slots a code sequence fills: its non-modifiers, truncated to six.
pub open spec fn report_keys(s: Seq<u8>) -> Seq<u8> {
    if nonmods(s).len() <= 6 {
        nonmods(s)
    } else {
        nonmods(s).take(6)
    }
}

/// The fixed-layout keyboard report: a modifier bitmask, a reserved byte and
/// up to six simultaneous key codes.
#[derive(Debug, PartialEq, Eq)]
pub struct KbHidReport {
    pub modifiers: u8,
    pub keys: Vec<u8>,
}

impl KbHidReport {
    /// The wire format never carries more than six key codes.
    pub open spec fn wf(&self) -> bool {
        self.keys@.len() <= 6
    }

    /// Builds the report for one resolved key-code sequence: modifiers into
    /// the bitmask, the first six other codes into the slots, the rest
    /// dropped.
    pub fn from_keycodes(codes: &Vec<u8>) -> (rep: KbHidReport)
        ensures
            rep.modifiers == mod_mask(codes@),
            rep.keys@ == report_keys(codes@),
            rep.wf(),
    {
        let mut modifiers: u8 = 0;
        let mut keys: Vec<u8> = Vec::new();
        let mut i: usize = 0;
        while i < codes.len()
            invariant
                i <= codes@.len(),
                modifiers == mod_mask(codes@.take(i as int)),
                keys@ == report_keys(codes@.take(i as int)),
            decreases codes@.len() - i,
        {
            let code = codes[i];
            proof {
                assert(codes@.take(i as int + 1).drop_last() =~= codes@.take(i as int));
                assert(codes@.take(i as int + 1).last() == codes@[i as int]);
            }
            if is_modifier(code) {
                modifiers = modifiers | modifier_bit(code);
                proof {
                    assert(nonmods(codes@.take(i as int + 1)) =~= nonmods(codes@.take(i as int)));
                }
            } else {
                if keys.len() < 6 {
                    keys.push(code);
                }
                proof {
                    assert(nonmods(codes@.take(i as int + 1)) =~= nonmods(
                        codes@.take(i as int),
                    ).push(code));
                    if nonmods(codes@.take(i as int)).len() < 6 {
                        assert(keys@ =~= report_keys(codes@.take(i as int + 1)));
                    } else {
                        assert(nonmods(codes@.take(i as int + 1)).take(6) =~= nonmods(
                            codes@.take(i as int),
                        ).take(6));
                    }
                }
            }
            i = i + 1;
        }
        proof {
            assert(codes@.take(codes@.len() as int) =~= codes@);
        }
        KbHidReport { modifiers, keys }
    }

    /// The eight wire bytes: bitmask, reserved zero, six key slots padded
    /// with zeros.
    pub fn as_bytes(&self) -> (b: Vec<u8>)
        requires
            self.wf(),
        ensures
            b@.len() == 8,
            b@[0] == self.modifiers,
            b@[1] == 0,
            forall|i: int| 0 <= i < self.keys@.len() ==> #[trigger] b@[2 + i] == self.keys@[i],
            forall|i: int| self.keys@.len() <= i < 6 ==> #[trigger] b@[2 + i] == 0,
    {
        let mut b: Vec<u8> = Vec::new();
        b.push(self.modifiers);
        b.push(0);
        let mut i: usize = 0;
        while i < self.keys.len()
            invariant
                i <= self.keys@.len(),
                self.keys@.len() <= 6,
                b@.len() == 2 + i,
                b@[0] == self.modifiers,
                b@[1] == 0,
                forall|j: int| 0 <= j < i ==> b@[2 + j] == self.keys@[j],
            decreases self.keys@.len() - i,
        {
            b.push(self.keys[i]);
            i = i + 1;
        }
        while b.len() < 8
            invariant
                self.keys@.len() <= 6,
                2 + self.keys@.len() <= b@.len() <= 8,
                b@[0] == self.modifiers,
                b@[1] == 0,
                forall|j: int| 0 <= j < self.keys@.len() ==> b@[2 + j] == self.keys@[j],
                forall|j: int| 2 + self.keys@.len() <= j < b@.len() ==> b@[j] == 0,
            decreases 8 - b@.len(),
        {
            b.push(0);
        }
        b
    }
}

/// Compares two reports by content.
pub fn report_eq(a: &KbHidReport, b: &KbHidReport) -> (r: bool)
    ensures
        r == (a.modifiers == b.modifiers && a.keys@ == b.keys@),
{
    if a.modifiers != b.modifiers {
        return false;
    }
    if a.keys.len() != b.keys.len() {
        return false;
    }
    let mut i: usize = 0;
    while i < a.keys.len()
        invariant
            i <= a.keys@.len(),
            a.keys@.len() == b.keys@.len(),
            forall|j: int| 0 <= j < i ==> a.keys@[j] == b.keys@[j],
        decreases a.keys@.len() - i,
    {
        if a.keys[i] != b.keys[i] {
            return false;
        }
        i = i + 1;
    }
    proof {
        assert(a.keys@ =~= b.keys@);
    }
    true
}

/// The device-side report slot: setting a report tells whether it changed,
/// and only a changed report is worth writing to the transport.
pub struct ReportSender {
    last: Option<KbHidReport>,
}

impl View for ReportSender {
    type V = Option<(u8, Seq<u8>)>;

    closed spec fn view(&self) -> Option<(u8, Seq<u8>)> {
        match self.last {
            Some(ref r) => Some((r.modifiers, r.keys@)),
            None => None,
        }
    }
}

impl ReportSender {
    /// No report set yet: the first one always counts as changed.
    pub fn new() -> (s: ReportSender)
        ensures
            s@ is None,
    {
        ReportSender { last: None }
    }

    /// Stores the report and says whether it differs from the previous one.
    pub fn set_report(&mut self, rep: KbHidReport) -> (changed: bool)
        ensures
            changed == (old(self)@ != Some((rep.modifiers, rep.keys@))),
            final(self)@ == Some((rep.modifiers, rep.keys@)),
    {
        let changed = match &self.last {
            Some(prev) => !report_eq(prev, &rep),
            None => true,
        };
        self.last = Some(rep);
        changed
    }
}

/// What one transport write attempt came back with: how many bytes the
/// transport accepted, or a transient would-block condition.
#[derive(Clone, Copy, Debug, PartialEq, Eq, Structural)]
pub enum WriteOutcome {
    Accepted(usize),
    Busy,
}

/// The blocking-until-ready send policy: a write the transport accepted at
/// zero length is retried; accepting any bytes, or a would-block answer,
/// ends the attempt.
pub fn write_retry_needed(outcome: &WriteOutcome) -> (r: bool)
    ensures
        r == (*outcome matches WriteOutcome::Accepted(n) && n == 0),
{
    match outcome {
        WriteOutcome::Accepted(n) => *n == 0,
        WriteOutcome::Busy => false,
    }
}

/// Truncation law: a sequence of more than six non-modifier key codes
/// reports exactly its first six, in resolution order.
pub proof fn lemma_report_truncation(codes: Seq<u8>)
    requires
        forall|i: int| 0 <= i < codes.len() ==> !spec_is_modifier(#[trigger] codes[i]),
        codes.len() >= 6,
    ensures
        report_keys(codes) == codes.take(6),
{
    lemma_nonmods_all(codes);
    if nonmods(codes).len() <= 6 {
        assert(codes =~= codes.take(6));
    }
}

/// With no modifiers in sight, the non-modifier subsequence is the sequence.
proof fn lemma_nonmods_all(codes: Seq<u8>)
    requires
        forall|i: int| 0 <= i < codes.len() ==> !spec_is_modifier(#[trigger] codes[i]),
    ensures
        nonmods(codes) == codes,
    decreases codes.len(),
{
    if codes.len() > 0 {
        lemma_nonmods_all(codes.drop_last());
        assert(nonmods(codes.drop_last()) + seq![codes.last()] =~= codes);
    }
}

} // verus!
