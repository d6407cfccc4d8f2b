//! The modal interpreter: how the words of one block change a channel's
//! discrete modal state, and what the block asks of the geometry that follows.
use vstd::prelude::*;
use crate::lexer::{spans_in, NumberSpan, Word};
use crate::number::{integral_number, integral_of, round_number, rounded, saturate_i32, span_text};
use crate::words::{codes, codes_of, find_last_number, find_last_value, last_number, last_value};

verus! {

pub const LETTER_G: u8 = 71;
pub const LETTER_M: u8 = 77;
pub const LETTER_T: u8 = 84;
pub const LETTER_D: u8 = 68;
pub const LETTER_H: u8 = 72;
pub const LETTER_X: u8 = 88;
pub const LETTER_Y: u8 = 89;
pub const LETTER_Z: u8 = 90;

/// The discrete modal state of one channel.
#[derive(Clone, Copy, Debug, PartialEq, Eq, Structural)]
pub struct ModalState {
    /// G90 (true) or G91.
    pub abs_mode: bool,
    /// G21 (true) or G20.
    pub units_mm: bool,
    /// G17: the XY plane, the only one supported.
    pub plane: u8,
    /// G61 (true) or G64.
    pub exact_stop: bool,
    /// 40, 41 or 42.
    pub cutter_comp: i32,
    /// G43 (true) or G49.
    pub length_comp_active: bool,
    pub active_tool: i32,
    pub active_d: i32,
    pub active_h: i32,
    /// M3, M4 or M5.
    pub spindle_mode: i32,
    /// M8 (true) or M9.
    pub coolant_on: bool,
    /// The last commanded motion: 0, 1, 2 or 3.
    pub current_motion: i32,
    /// Compensation was armed without an XY move; entry waits for the first
    /// XY feed block.
    pub comp_entry_pending: bool,
}

impl ModalState {
    pub open spec fn wf(self) -> bool {
        &&& self.plane == 17
        &&& (self.cutter_comp == 40 || self.cutter_comp == 41 || self.cutter_comp == 42)
        &&& 3 <= self.spindle_mode <= 5
        &&& 0 <= self.current_motion <= 3
        &&& self.active_tool >= 0
        &&& self.active_d >= 0
        &&& self.active_h >= 0
    }

    /// The state of a new channel: G90 G21 G17 G64 G40 G49, T0 D0 H0, M5 M9, G0.
    pub open spec fn initial() -> Self {
        ModalState {
            abs_mode: true,
            units_mm: true,
            plane: 17,
            exact_stop: false,
            cutter_comp: 40,
            length_comp_active: false,
            active_tool: 0,
            active_d: 0,
            active_h: 0,
            spindle_mode: 5,
            coolant_on: false,
            current_motion: 0,
            comp_entry_pending: false,
        }
    }

    pub fn new() -> (r: Self)
        ensures
            r == Self::initial(),
            r.wf(),
    {
        ModalState {
            abs_mode: true,
            units_mm: true,
            plane: 17,
            exact_stop: false,
            cutter_comp: 40,
            length_comp_active: false,
            active_tool: 0,
            active_d: 0,
            active_h: 0,
            spindle_mode: 5,
            coolant_on: false,
            current_motion: 0,
            comp_entry_pending: false,
        }
    }
}

/// A T word: select tool `t` (at least 0). T0 unloads: length and cutter
/// compensation are cancelled.
pub open spec fn after_tool(m: ModalState, t: i32) -> ModalState {
    let idx = if t < 0 {
        0i32
    } else {
        t
    };
    let m1 = ModalState { active_tool: idx, active_d: 0, active_h: 0, ..m };
    if idx == 0 {
        ModalState { length_comp_active: false, cutter_comp: 40, ..m1 }
    } else {
        m1
    }
}

/// One modal G code.
pub open spec fn after_g(m: ModalState, g: i32) -> ModalState {
    if g == 90 {
        ModalState { abs_mode: true, ..m }
    } else if g == 91 {
        ModalState { abs_mode: false, ..m }
    } else if g == 20 {
        ModalState { units_mm: false, ..m }
    } else if g == 21 {
        ModalState { units_mm: true, ..m }
    } else if g == 17 {
        ModalState { plane: 17, ..m }
    } else if g == 61 {
        ModalState { exact_stop: true, ..m }
    } else if g == 64 {
        ModalState { exact_stop: false, ..m }
    } else if g == 40 {
        ModalState { cutter_comp: 40, comp_entry_pending: false, ..m }
    } else if g == 41 {
        ModalState { cutter_comp: 41, ..m }
    } else if g == 42 {
        ModalState { cutter_comp: 42, ..m }
    } else if g == 43 {
        ModalState { length_comp_active: true, ..m }
    } else if g == 49 {
        ModalState { length_comp_active: false, ..m }
    } else {
        m
    }
}

/// The G codes of a block, applied in order.
pub open spec fn fold_g(m: ModalState, gs: Seq<i32>) -> ModalState
    decreases gs.len(),
{
    if gs.len() == 0 {
        m
    } else {
        after_g(fold_g(m, gs.drop_last()), gs.last())
    }
}

/// One M code: M3/M4/M5 spindle, M8/M9 coolant.
pub open spec fn after_m(m: ModalState, c: i32) -> ModalState {
    if c == 3 || c == 4 || c == 5 {
        ModalState { spindle_mode: c, ..m }
    } else if c == 8 {
        ModalState { coolant_on: true, ..m }
    } else if c == 9 {
        ModalState { coolant_on: false, ..m }
    } else {
        m
    }
}

/// The M codes of a block, applied in order.
pub open spec fn fold_m(m: ModalState, ms: Seq<i32>) -> ModalState
    decreases ms.len(),
{
    if ms.len() == 0 {
        m
    } else {
        after_m(fold_m(m, ms.drop_last()), ms.last())
    }
}

/// The work-coordinate frame that a G code selects: G54..G59, G153.
pub open spec fn wcs_code(g: i32) -> Option<usize> {
    if 54 <= g <= 59 {
        Some((g - 54) as usize)
    } else if g == 153 {
        Some(6)
    } else {
        None
    }
}

/// The frame that the last WCS code of the block selects.
pub open spec fn wcs_of(gs: Seq<i32>) -> Option<usize>
    decreases gs.len(),
{
    if gs.len() == 0 {
        None
    } else if wcs_code(gs.last()) is Some {
        wcs_code(gs.last())
    } else {
        wcs_of(gs.drop_last())
    }
}

/// The last motion code (G0, G1, G2, G3) of the block.
pub open spec fn motion_of(gs: Seq<i32>) -> Option<i32>
    decreases gs.len(),
{
    if gs.len() == 0 {
        None
    } else if 0 <= gs.last() <= 3 {
        Some(gs.last())
    } else {
        motion_of(gs.drop_last())
    }
}

/// The slot that a D or H word names, at least 0; 0 when it names none.
pub open spec fn slot_index(s: Seq<u8>, n: NumberSpan) -> i32 {
    match integral_of(span_text(s, n)) {
        Some(v) => if v < 0 {
            0
        } else {
            v
        },
        None => 0,
    }
}

/// What the words of a block say, read once.
pub struct BlockWords {
    pub g: Vec<i32>,
    pub m: Vec<i32>,
    /// The last T code.
    pub t: Option<i32>,
    /// The numbers of the last D and H words.
    pub d: Option<NumberSpan>,
    pub h: Option<NumberSpan>,
    /// An X, Y or Z word with a number is present.
    pub x_set: bool,
    pub y_set: bool,
    pub z_set: bool,
}

impl BlockWords {
    pub open spec fn of(self, s: Seq<u8>, w: Seq<Word>) -> bool {
        &&& self.g@ == codes_of(s, w, LETTER_G)
        &&& self.m@ == codes_of(s, w, LETTER_M)
        &&& self.t == match last_value(w, LETTER_T) {
            Some(n) => Some(saturate_i32(rounded(span_text(s, n)))),
            None => None,
        }
        &&& self.d == last_number(w, LETTER_D)
        &&& self.h == last_number(w, LETTER_H)
        &&& self.x_set == last_value(w, LETTER_X) is Some
        &&& self.y_set == last_value(w, LETTER_Y) is Some
        &&& self.z_set == last_value(w, LETTER_Z) is Some
    }
}

/// Reads the words of a block.
pub fn read_words(s: &[u8], w: &Vec<Word>) -> (r: BlockWords)
    requires
        spans_in(s@, w@),
    ensures
        r.of(s@, w@),
{
    let t = match find_last_value(w, LETTER_T) {
        Some(n) => {
            proof {
                lemma_last_value_in(s@, w@, LETTER_T);
            }
            Some(round_number(s, n))
        },
        None => None,
    };
    BlockWords {
        g: codes(s, w, LETTER_G),
        m: codes(s, w, LETTER_M),
        t,
        d: find_last_number(w, LETTER_D),
        h: find_last_number(w, LETTER_H),
        x_set: find_last_value(w, LETTER_X).is_some(),
        y_set: find_last_value(w, LETTER_Y).is_some(),
        z_set: find_last_value(w, LETTER_Z).is_some(),
    }
}

pub proof fn lemma_last_value_in(s: Seq<u8>, w: Seq<Word>, letter: u8)
    requires
        spans_in(s, w),
    ensures
        last_value(w, letter) is Some ==> last_value(w, letter)->0.start <= last_value(
            w,
            letter,
        )->0.end <= s.len(),
    decreases w.len(),
{
    if w.len() > 0 {
        assert(w.last() == w[w.len() - 1]);
        assert(spans_in(s, w.drop_last()));
        lemma_last_value_in(s, w.drop_last(), letter);
    }
}

pub proof fn lemma_last_number_in(s: Seq<u8>, w: Seq<Word>, letter: u8)
    requires
        spans_in(s, w),
    ensures
        last_number(w, letter) is Some ==> last_number(w, letter)->0.start <= last_number(
            w,
            letter,
        )->0.end <= s.len(),
    decreases w.len(),
{
    if w.len() > 0 {
        assert(w.last() == w[w.len() - 1]);
        assert(spans_in(s, w.drop_last()));
        lemma_last_number_in(s, w.drop_last(), letter);
    }
}

/// The modal state after a block, applied in this order: the T word, the G
/// codes, the M codes, the arming of cutter compensation, the D and H words,
/// and the motion mode.
pub open spec fn block_modal(m: ModalState, s: Seq<u8>, w: Seq<Word>) -> ModalState {
    let gs = codes_of(s, w, LETTER_G);
    let m2 = coded(m, s, w);
    let m3 = ModalState { comp_entry_pending: armed(m, m2, s, w), ..m2 };
    let m4 = match last_number(w, LETTER_D) {
        Some(n) => ModalState { active_d: slot_index(s, n), ..m3 },
        None => m3,
    };
    let m5 = match last_number(w, LETTER_H) {
        Some(n) => ModalState { active_h: slot_index(s, n), ..m4 },
        None => m4,
    };
    match motion_of(gs) {
        Some(g) => ModalState { current_motion: g, ..m5 },
        None => m5,
    }
}

/// The block moves X or Y.
pub open spec fn has_xy(w: Seq<Word>) -> bool {
    last_value(w, LETTER_X) is Some || last_value(w, LETTER_Y) is Some
}

/// The block moves X, Y or Z.
pub open spec fn has_axis_motion(w: Seq<Word>) -> bool {
    has_xy(w) || last_value(w, LETTER_Z) is Some
}

/// Arming rule of cutter compensation: G40 disarms; G41 or G42 leaves entry
/// pending when the block has no XY motion or entry was already pending.
/// `m` is the state before the block, `m2` after its G and M codes.
pub open spec fn armed(m: ModalState, m2: ModalState, s: Seq<u8>, w: Seq<Word>) -> bool {
    let gs = codes_of(s, w, LETTER_G);
    if gs.contains(40) {
        false
    } else if gs.contains(41) || gs.contains(42) {
        !has_xy(w) || m.comp_entry_pending
    } else {
        m2.comp_entry_pending
    }
}

/// What a block asks of the geometry that follows it.
#[derive(Clone, Copy, Debug, PartialEq, Eq, Structural)]
pub struct BlockPlan {
    /// Motion mode of the block: 0, 1, 2 or 3.
    pub motion: i32,
    /// The compensation side that this block's geometry uses.
    pub comp_side: i32,
    /// Compensation went from G40 to G41 or G42 on this block.
    pub comp_just_enabled: bool,
    /// G40 on a block with axis motion while compensation was active: the block
    /// still runs compensated, and compensation is off after it.
    pub cancel_on_motion: bool,
    /// The work-coordinate frame that the block selects.
    pub wcs: Option<usize>,
    /// G40 was named: the previous compensated segment is forgotten.
    pub forget_comp_link: bool,
    /// A compensated G1 of this block starts with an entry move onto the
    /// offset path: entry is pending, or compensation was just enabled on a
    /// block that moves one of X and Y.
    pub entry_forced: bool,
}

/// What a block asks of its geometry, from the state `m` before it.
pub open spec fn block_plan(m: ModalState, s: Seq<u8>, w: Seq<Word>) -> BlockPlan {
    let gs = codes_of(s, w, LETTER_G);
    let after = block_modal(m, s, w);
    let cancel = gs.contains(40) && has_axis_motion(w) && (m.cutter_comp == 41 || m.cutter_comp
        == 42);
    BlockPlan {
        motion: after.current_motion,
        comp_side: if cancel {
            m.cutter_comp
        } else {
            after.cutter_comp
        },
        comp_just_enabled: m.cutter_comp == 40 && after.cutter_comp != 40,
        cancel_on_motion: cancel,
        wcs: wcs_of(gs),
        forget_comp_link: gs.contains(40),
        entry_forced: (m.cutter_comp == 40 && after.cutter_comp != 40 && (last_value(w, LETTER_X) is Some
            != last_value(w, LETTER_Y) is Some)) || after.comp_entry_pending,
    }
}

proof fn lemma_fold_g_wf(m: ModalState, gs: Seq<i32>)
    requires
        m.wf(),
    ensures
        fold_g(m, gs).wf(),
    decreases gs.len(),
{
    if gs.len() > 0 {
        lemma_fold_g_wf(m, gs.drop_last());
    }
}

proof fn lemma_fold_m_wf(m: ModalState, ms: Seq<i32>)
    requires
        m.wf(),
    ensures
        fold_m(m, ms).wf(),
    decreases ms.len(),
{
    if ms.len() > 0 {
        lemma_fold_m_wf(m, ms.drop_last());
    }
}

proof fn lemma_motion_of(gs: Seq<i32>)
    ensures
        motion_of(gs) is Some ==> 0 <= motion_of(gs)->0 <= 3,
    decreases gs.len(),
{
    if gs.len() > 0 {
        lemma_motion_of(gs.drop_last());
    }
}

/// A block keeps the modal state well formed.
pub proof fn lemma_block_modal_wf(m: ModalState, s: Seq<u8>, w: Seq<Word>)
    requires
        m.wf(),
    ensures
        block_modal(m, s, w).wf(),
{
    let gs = codes_of(s, w, LETTER_G);
    let m1 = match last_value(w, LETTER_T) {
        Some(n) => after_tool(m, saturate_i32(rounded(span_text(s, n)))),
        None => m,
    };
    lemma_fold_g_wf(m1, gs);
    lemma_fold_m_wf(fold_g(m1, gs), codes_of(s, w, LETTER_M));
    lemma_motion_of(gs);
}

fn apply_g(m: &mut ModalState, g: i32)
    ensures
        *final(m) == after_g(*old(m), g),
{
    if g == 90 {
        m.abs_mode = true;
    } else if g == 91 {
        m.abs_mode = false;
    } else if g == 20 {
        m.units_mm = false;
    } else if g == 21 {
        m.units_mm = true;
    } else if g == 17 {
        m.plane = 17;
    } else if g == 61 {
        m.exact_stop = true;
    } else if g == 64 {
        m.exact_stop = false;
    } else if g == 40 {
        m.cutter_comp = 40;
        m.comp_entry_pending = false;
    } else if g == 41 {
        m.cutter_comp = 41;
    } else if g == 42 {
        m.cutter_comp = 42;
    } else if g == 43 {
        m.length_comp_active = true;
    } else if g == 49 {
        m.length_comp_active = false;
    }
}

fn apply_m(m: &mut ModalState, c: i32)
    ensures
        *final(m) == after_m(*old(m), c),
{
    if c == 3 || c == 4 || c == 5 {
        m.spindle_mode = c;
    } else if c == 8 {
        m.coolant_on = true;
    } else if c == 9 {
        m.coolant_on = false;
    }
}

fn contains_code(v: &Vec<i32>, c: i32) -> (r: bool)
    ensures
        r == v@.contains(c),
{
    let mut k: usize = 0;
    while k < v.len()
        invariant
            0 <= k <= v@.len(),
            forall|j: int| 0 <= j < k ==> v@[j] != c,
        decreases v@.len() - k,
    {
        if v[k] == c {
            return true;
        }
        k = k + 1;
    }
    false
}

fn find_wcs(gs: &Vec<i32>) -> (r: Option<usize>)
    ensures
        r == wcs_of(gs@),
{
    let mut r: Option<usize> = None;
    let mut k: usize = 0;
    while k < gs.len()
        invariant
            0 <= k <= gs@.len(),
            r == wcs_of(gs@.take(k as int)),
        decreases gs@.len() - k,
    {
        assert(gs@.take(k + 1).drop_last() =~= gs@.take(k as int));
        let g = gs[k];
        if 54 <= g && g <= 59 {
            r = Some((g - 54) as usize);
        } else if g == 153 {
            r = Some(6);
        }
        k = k + 1;
    }
    assert(gs@.take(k as int) =~= gs@);
    r
}

fn find_motion(gs: &Vec<i32>) -> (r: Option<i32>)
    ensures
        r == motion_of(gs@),
{
    let mut r: Option<i32> = None;
    let mut k: usize = 0;
    while k < gs.len()
        invariant
            0 <= k <= gs@.len(),
            r == motion_of(gs@.take(k as int)),
        decreases gs@.len() - k,
    {
        assert(gs@.take(k + 1).drop_last() =~= gs@.take(k as int));
        let g = gs[k];
        if 0 <= g && g <= 3 {
            r = Some(g);
        }
        k = k + 1;
    }
    assert(gs@.take(k as int) =~= gs@);
    r
}

fn slot_of_word(s: &[u8], n: NumberSpan) -> (r: i32)
    requires
        n.start <= n.end <= s@.len(),
    ensures
        r == slot_index(s@, n),
{
    match integral_number(s, n) {
        Some(v) => if v < 0 {
            0
        } else {
            v
        },
        None => 0,
    }
}

/// The state after the T word and the G and M codes of a block.
pub open spec fn coded(m: ModalState, s: Seq<u8>, w: Seq<Word>) -> ModalState {
    let m1 = match last_value(w, LETTER_T) {
        Some(n) => after_tool(m, saturate_i32(rounded(span_text(s, n)))),
        None => m,
    };
    fold_m(fold_g(m1, codes_of(s, w, LETTER_G)), codes_of(s, w, LETTER_M))
}

fn apply_tool(modal: &mut ModalState, t: Option<i32>)
    ensures
        *final(modal) == match t {
            Some(t) => after_tool(*old(modal), t),
            None => *old(modal),
        },
{
    if let Some(t) = t {
        let idx = if t < 0 {
            0
        } else {
            t
        };
        modal.active_tool = idx;
        modal.active_d = 0;
        modal.active_h = 0;
        if idx == 0 {
            modal.length_comp_active = false;
            modal.cutter_comp = 40;
        }
    }
}

fn apply_g_codes(modal: &mut ModalState, gs: &Vec<i32>)
    ensures
        *final(modal) == fold_g(*old(modal), gs@),
{
    let ghost m1 = *modal;
    let mut k: usize = 0;
    while k < gs.len()
        invariant
            0 <= k <= gs@.len(),
            *modal == fold_g(m1, gs@.take(k as int)),
        decreases gs@.len() - k,
    {
        assert(gs@.take(k + 1).drop_last() =~= gs@.take(k as int));
        apply_g(modal, gs[k]);
        k = k + 1;
    }
    assert(gs@.take(k as int) =~= gs@);
}

fn apply_m_codes(modal: &mut ModalState, ms: &Vec<i32>)
    ensures
        *final(modal) == fold_m(*old(modal), ms@),
{
    let ghost m1 = *modal;
    let mut k: usize = 0;
    while k < ms.len()
        invariant
            0 <= k <= ms@.len(),
            *modal == fold_m(m1, ms@.take(k as int)),
        decreases ms@.len() - k,
    {
        assert(ms@.take(k + 1).drop_last() =~= ms@.take(k as int));
        apply_m(modal, ms[k]);
        k = k + 1;
    }
    assert(ms@.take(k as int) =~= ms@);
}

/// Applies the words of one block to the modal state, as `block_modal`
/// describes; also tells whether G40 was named.
fn apply_words(modal: &mut ModalState, s: &[u8], w: &Vec<Word>) -> (r: (BlockWords, bool))
    requires
        old(modal).wf(),
        spans_in(s@, w@),
    ensures
        *final(modal) == block_modal(*old(modal), s@, w@),
        final(modal).wf(),
        r.0.of(s@, w@),
        r.1 == codes_of(s@, w@, LETTER_G).contains(40),
{
    let ghost m0 = *modal;
    let before = *modal;
    let words = read_words(s, w);
    apply_tool(modal, words.t);
    apply_g_codes(modal, &words.g);
    apply_m_codes(modal, &words.m);
    assert(*modal == coded(m0, s@, w@));
    let g40 = contains_code(&words.g, 40);
    let g41 = contains_code(&words.g, 41);
    let g42 = contains_code(&words.g, 42);
    if g40 {
        modal.comp_entry_pending = false;
    } else if g41 || g42 {
        modal.comp_entry_pending = !(words.x_set || words.y_set) || before.comp_entry_pending;
    }
    proof {
        lemma_last_number_in(s@, w@, LETTER_D);
        lemma_last_number_in(s@, w@, LETTER_H);
    }
    if let Some(n) = words.d {
        modal.active_d = slot_of_word(s, n);
    }
    if let Some(n) = words.h {
        modal.active_h = slot_of_word(s, n);
    }
    if let Some(g) = find_motion(&words.g) {
        modal.current_motion = g;
    }
    proof {
        lemma_block_modal_wf(m0, s@, w@);
    }
    (words, g40)
}

/// Applies the words of one block to the modal state, as `block_modal`
/// describes, and returns what the block says and asks of its geometry.
pub fn interpret_block(modal: &mut ModalState, s: &[u8], w: &Vec<Word>) -> (r: (
    BlockWords,
    BlockPlan,
))
    requires
        old(modal).wf(),
        spans_in(s@, w@),
    ensures
        *final(modal) == block_modal(*old(modal), s@, w@),
        final(modal).wf(),
        r.0.of(s@, w@),
        r.1 == block_plan(*old(modal), s@, w@),
{
    let before = *modal;
    let (words, g40) = apply_words(modal, s, w);
    let cancel = g40 && (words.x_set || words.y_set || words.z_set) && (before.cutter_comp == 41
        || before.cutter_comp == 42);
    let plan = BlockPlan {
        motion: modal.current_motion,
        comp_side: if cancel {
            before.cutter_comp
        } else {
            modal.cutter_comp
        },
        comp_just_enabled: before.cutter_comp == 40 && modal.cutter_comp != 40,
        cancel_on_motion: cancel,
        wcs: find_wcs(&words.g),
        forget_comp_link: g40,
        entry_forced: (before.cutter_comp == 40 && modal.cutter_comp != 40 && (words.x_set
            != words.y_set)) || modal.comp_entry_pending,
    };
    (words, plan)
}

/// What the next block intends, as the look-ahead of cutter compensation
/// reads it: a compensated G1 with X or Y.
#[derive(Clone, Copy, Debug, PartialEq, Eq, Structural)]
pub struct LookAhead {
    /// The compensation side of the next block: 41 or 42.
    pub side: i32,
    pub abs_mode: bool,
    pub units_mm: bool,
    /// The numbers of the last X and Y words, and whether an X or Y word with
    /// a number is present.
    pub x: Option<NumberSpan>,
    pub y: Option<NumberSpan>,
    pub x_set: bool,
    pub y_set: bool,
}

/// The intent of the next block, read against the modal state `m` without
/// changing it: present when the block is a G1 (written or modal) under G41 or
/// G42 (written or modal) with X or Y motion.
pub open spec fn look_ahead_of(m: ModalState, s: Seq<u8>, w: Seq<Word>) -> Option<LookAhead> {
    let gs = codes_of(s, w, LETTER_G);
    let after = fold_g(m, gs);
    let motion = match motion_of(gs) {
        Some(g) => g,
        None => m.current_motion,
    };
    if motion == 1 && (after.cutter_comp == 41 || after.cutter_comp == 42) && has_xy(w) {
        Some(
            LookAhead {
                side: after.cutter_comp,
                abs_mode: after.abs_mode,
                units_mm: after.units_mm,
                x: last_number(w, LETTER_X),
                y: last_number(w, LETTER_Y),
                x_set: last_value(w, LETTER_X) is Some,
                y_set: last_value(w, LETTER_Y) is Some,
            },
        )
    } else {
        None
    }
}

/// Reads the intent of the next block, as `look_ahead_of` describes.
pub fn look_ahead(m: &ModalState, s: &[u8], w: &Vec<Word>) -> (r: Option<LookAhead>)
    requires
        spans_in(s@, w@),
    ensures
        r == look_ahead_of(*m, s@, w@),
{
    let gs = codes(s, w, LETTER_G);
    let mut after = *m;
    apply_g_codes(&mut after, &gs);
    let motion = match find_motion(&gs) {
        Some(g) => g,
        None => m.current_motion,
    };
    let x_set = find_last_value(w, LETTER_X).is_some();
    let y_set = find_last_value(w, LETTER_Y).is_some();
    if motion == 1 && (after.cutter_comp == 41 || after.cutter_comp == 42) && (x_set || y_set) {
        Some(
            LookAhead {
                side: after.cutter_comp,
                abs_mode: after.abs_mode,
                units_mm: after.units_mm,
                x: find_last_number(w, LETTER_X),
                y: find_last_number(w, LETTER_Y),
                x_set,
                y_set,
            },
        )
    } else {
        None
    }
}

} // verus!
