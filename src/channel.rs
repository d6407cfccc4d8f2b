//! A channel: its program and the scheduler's flags, its modal state and tool
//! table, the queue of pending segments and the programmed-work cache. Values
//! of type `V` (positions, feeds, tool sizes) are carried, never computed with.
use vstd::prelude::*;
use std::collections::{HashMap, VecDeque};
use crate::lexer::{spans_in, NumberSpan, Word};
use crate::program::{upper_bytes_of, upper_of};
use vstd::utf8::encode_utf8;
use crate::modal::{
    after_tool, block_modal, block_plan, interpret_block, lemma_last_number_in, BlockPlan,
    BlockWords, ModalState, LETTER_D, LETTER_H,
};
use crate::number::{integral_number, integral_of, span_text};
use crate::tools::{select_tool, table_after_select, tool_slot, ToolEntry, ToolTable};

verus! {

broadcast use vstd::std_specs::hash::group_hash_axioms;

/// One axis of a channel and the label that its program uses for it.
#[derive(Clone, Debug)]
pub struct ChannelAxisMap {
    pub axis_id: u32,
    pub display_label: String,
}

/// The last compensated linear segment: its programmed and offset end points,
/// unit direction, side and radius.
#[derive(Clone, Copy, Debug)]
pub struct CompLink<V> {
    pub end_prog_x: V,
    pub end_prog_y: V,
    pub end_off_x: V,
    pub end_off_y: V,
    pub dir_x: V,
    pub dir_y: V,
    pub mode: i32,
    pub radius: V,
}

/// What the scheduler does once a channel's axes have been advanced.
#[derive(Debug)]
pub enum StepAction<V> {
    /// Nothing: the channel is stopped or still moving.
    Idle,
    /// A pending pause took effect.
    Paused,
    /// Assign these machine targets to the axes.
    Segment(Vec<(u32, V)>),
    /// Interpret the program block with this index.
    Block(usize),
    /// The program ran out; the channel stopped.
    Finished,
}

/// What observers see of a channel.
#[derive(Debug)]
pub struct ChannelStatus<V> {
    pub id: u32,
    pub is_running: bool,
    pub paused: bool,
    pub active_pc: Option<usize>,
    pub pc: usize,
    pub axis_map: Vec<ChannelAxisMap>,
    pub modal: ModalState,
    pub tool_radius: V,
    pub tool_length: V,
    pub spindle_rpm: V,
    pub feed_rate: V,
    pub feed_override: V,
    pub single_block: bool,
    /// Per mapped axis, in order, the programmed work coordinate.
    pub programmed_work: Vec<(u32, V)>,
}

pub struct Channel<V> {
    pub id: u32,
    pub axis_map: Vec<ChannelAxisMap>,
    pub program: Vec<Vec<u8>>,
    /// Index of the next block to interpret.
    pub pc: usize,
    /// Index of the block last taken up, if any.
    pub active_pc: Option<usize>,
    pub is_running: bool,
    pub paused: bool,
    pub single_block: bool,
    pub step_once: bool,
    /// Pause once the current block has completed.
    pub pause_pending: bool,
    pub modal: ModalState,
    pub feed_rate: V,
    pub feed_override: V,
    pub spindle_rpm: V,
    pub tool_radius: V,
    pub tool_length: V,
    pub tool_table: ToolTable<V>,
    pub comp_link: Option<CompLink<V>>,
    /// Segments waiting for the current one to settle, in order.
    pub pending: VecDeque<Vec<(u32, V)>>,
    /// Per axis, the last programmed (uncompensated) work coordinate.
    pub programmed_work: HashMap<u32, V>,
}

/// The cache after storing `values` in order.
pub open spec fn cached<V>(m: Map<u32, V>, values: Seq<(u32, V)>) -> Map<u32, V>
    decreases values.len(),
{
    if values.len() == 0 {
        m
    } else {
        cached(m, values.drop_last()).insert(values.last().0, values.last().1)
    }
}

/// The two axis maps hold the same axes and labels, in order.
pub open spec fn same_maps(a: Seq<ChannelAxisMap>, b: Seq<ChannelAxisMap>) -> bool {
    &&& a.len() == b.len()
    &&& forall|k: int|
        0 <= k < a.len() ==> (#[trigger] a[k]).axis_id == b[k].axis_id && a[k].display_label@
            == b[k].display_label@
}

/// A copy of an axis map.
pub fn copy_axis_map(v: &Vec<ChannelAxisMap>) -> (r: Vec<ChannelAxisMap>)
    ensures
        same_maps(r@, v@),
{
    let mut r: Vec<ChannelAxisMap> = Vec::new();
    let mut k: usize = 0;
    while k < v.len()
        invariant
            0 <= k <= v@.len(),
            r@.len() == k,
            forall|j: int|
                0 <= j < k ==> (#[trigger] r@[j]).axis_id == v@[j].axis_id && r@[j].display_label@
                    == v@[j].display_label@,
        decreases v@.len() - k,
    {
        r.push(
            ChannelAxisMap {
                axis_id: v[k].axis_id,
                display_label: v[k].display_label.clone(),
            },
        );
        k = k + 1;
    }
    r
}

/// The final segment of a block, queued when it moves an axis.
pub open spec fn end_seq<V>(end: Vec<(u32, V)>) -> Seq<Vec<(u32, V)>> {
    if end@.len() > 0 {
        seq![end]
    } else {
        seq![]
    }
}

/// The number in `n` names a slot that table `t` holds.
pub open spec fn slot_held<V>(t: Map<i32, ToolEntry<V>>, s: Seq<u8>, n: NumberSpan) -> bool {
    integral_of(span_text(s, n)) is Some && t.contains_key(integral_of(span_text(s, n))->0)
}

/// A label as the lexer matches it: upper-cased, as UTF-8 bytes.
pub open spec fn label_bytes(l: Seq<char>) -> Seq<u8> {
    encode_utf8(upper_of(l))
}

fn bytes_equal(a: &Vec<u8>, b: &[u8]) -> (r: bool)
    ensures
        r == (a@ == b@),
{
    if a.len() != b.len() {
        return false;
    }
    let mut k: usize = 0;
    while k < a.len()
        invariant
            0 <= k <= a@.len(),
            a@.len() == b@.len(),
            forall|j: int| 0 <= j < k ==> a@[j] == b@[j],
        decreases a@.len() - k,
    {
        if a[k] != b[k] {
            return false;
        }
        k = k + 1;
    }
    assert(a@ =~= b@);
    true
}

impl<V: Copy> Channel<V> {
    /// The two agree on identity, axis map, feeds and tool data.
    pub open spec fn same_setup(&self, o: &Self) -> bool {
        &&& self.id == o.id && self.axis_map == o.axis_map
        &&& self.feed_rate == o.feed_rate && self.feed_override == o.feed_override
        &&& self.spindle_rpm == o.spindle_rpm
        &&& self.tool_radius == o.tool_radius && self.tool_length == o.tool_length
        &&& self.tool_table@ == o.tool_table@
    }

    /// The two agree on the run flags.
    pub open spec fn same_flags(&self, o: &Self) -> bool {
        &&& self.is_running == o.is_running && self.paused == o.paused
        &&& self.single_block == o.single_block && self.step_once == o.step_once
        &&& self.pause_pending == o.pause_pending
    }

    /// The two agree on program, position in it, queue, compensation record
    /// and programmed-work cache.
    pub open spec fn same_work(&self, o: &Self) -> bool {
        &&& self.program == o.program && self.pc == o.pc && self.active_pc == o.active_pc
        &&& self.pending@ == o.pending@ && self.programmed_work@ == o.programmed_work@
        &&& self.comp_link == o.comp_link
    }

    pub open spec fn wf(&self) -> bool {
        &&& self.modal.wf()
        &&& self.pc <= self.program@.len()
    }

    /// A new channel, idle, without a program, in the initial modal state; the
    /// tool table holds `tool` in slots 0 and 1, and that tool is loaded.
    pub fn new(
        id: u32,
        axis_map: Vec<ChannelAxisMap>,
        feed_rate: V,
        feed_override: V,
        spindle_rpm: V,
        tool: ToolEntry<V>,
    ) -> (r: Self)
        ensures
            r.wf(),
            r.id == id && r.axis_map == axis_map,
            r.program@.len() == 0 && r.pc == 0 && r.active_pc is None,
            !r.is_running && !r.paused && !r.single_block && !r.step_once && !r.pause_pending,
            r.modal == ModalState::initial(),
            r.feed_rate == feed_rate && r.feed_override == feed_override,
            r.spindle_rpm == spindle_rpm,
            r.tool_radius == tool.radius && r.tool_length == tool.length,
            r.tool_table@ == Map::<i32, ToolEntry<V>>::empty().insert(0, tool).insert(1, tool),
            r.comp_link is None,
            r.pending@.len() == 0,
            r.programmed_work@ == Map::<u32, V>::empty(),
    {
        let mut tool_table = ToolTable::new();
        tool_table.insert(0, tool);
        tool_table.insert(1, tool);
        Channel {
            id,
            axis_map,
            program: Vec::new(),
            pc: 0,
            active_pc: None,
            is_running: false,
            paused: false,
            single_block: false,
            step_once: false,
            pause_pending: false,
            modal: ModalState::new(),
            feed_rate,
            feed_override,
            spindle_rpm,
            tool_radius: tool.radius,
            tool_length: tool.length,
            tool_table,
            comp_link: None,
            pending: VecDeque::new(),
            programmed_work: HashMap::new(),
        }
    }

    /// Loads a program at its first block, running it when `run`: the motion
    /// mode returns to G0, the programmed-work cache and the compensation
    /// continuity are cleared.
    pub fn load_program(&mut self, lines: Vec<Vec<u8>>, run: bool)
        requires
            old(self).wf(),
        ensures
            final(self).wf(),
            final(self).program == lines,
            final(self).pc == 0 && final(self).active_pc is None,
            final(self).is_running == run && !final(self).paused,
            !final(self).step_once && !final(self).pause_pending,
            final(self).modal == (ModalState {
                current_motion: 0,
                comp_entry_pending: false,
                ..old(self).modal
            }),
            final(self).programmed_work@ == Map::<u32, V>::empty(),
            final(self).comp_link is None,
            final(self).pending@ == old(self).pending@,
            final(self).single_block == old(self).single_block,
            final(self).same_setup(&*old(self)),
    {
        self.program = lines;
        self.pc = 0;
        self.active_pc = None;
        self.is_running = run;
        self.paused = false;
        self.modal.current_motion = 0;
        self.step_once = false;
        self.pause_pending = false;
        self.programmed_work = HashMap::new();
        self.comp_link = None;
        self.modal.comp_entry_pending = false;
    }

    /// Returns to the first block without running, keeping the modal state
    /// but for the compensation continuity.
    pub fn reset_program(&mut self)
        requires
            old(self).wf(),
        ensures
            final(self).wf(),
            final(self).program == old(self).program,
            final(self).pc == 0 && final(self).active_pc is None,
            !final(self).is_running && !final(self).paused,
            !final(self).step_once && !final(self).pause_pending,
            final(self).modal == (ModalState { comp_entry_pending: false, ..old(self).modal }),
            final(self).programmed_work@ == Map::<u32, V>::empty(),
            final(self).comp_link is None,
            final(self).pending@ == old(self).pending@,
            final(self).same_setup(&*old(self)),
            final(self).single_block == old(self).single_block,
    {
        self.pc = 0;
        self.active_pc = None;
        self.is_running = false;
        self.paused = false;
        self.step_once = false;
        self.pause_pending = false;
        self.programmed_work = HashMap::new();
        self.comp_link = None;
        self.modal.comp_entry_pending = false;
    }

    pub fn toggle_pause(&mut self)
        ensures
            final(self).paused == !old(self).paused,
            final(self).same_setup(&*old(self)) && final(self).same_work(&*old(self)),
            final(self).modal == old(self).modal && final(self).is_running == old(self).is_running,
            final(self).single_block == old(self).single_block,
            final(self).step_once == old(self).step_once,
            final(self).pause_pending == old(self).pause_pending,
    {
        self.paused = !self.paused;
    }

    pub fn set_single_block(&mut self, enabled: bool)
        ensures
            final(self).single_block == enabled,
            final(self).same_setup(&*old(self)) && final(self).same_work(&*old(self)),
            final(self).modal == old(self).modal && final(self).is_running == old(self).is_running,
            final(self).paused == old(self).paused && final(self).step_once == old(self).step_once,
            final(self).pause_pending == old(self).pause_pending,
    {
        self.single_block = enabled;
    }

    /// Switches tool-length compensation (G43 / G49) on or off.
    pub fn set_tool_length_comp(&mut self, active: bool)
        requires
            old(self).wf(),
        ensures
            final(self).wf(),
            final(self).modal == (ModalState { length_comp_active: active, ..old(self).modal }),
            final(self).same_setup(&*old(self)) && final(self).same_work(&*old(self)),
            final(self).same_flags(&*old(self)),
    {
        self.modal.length_comp_active = active;
    }

    /// Runs one block and then holds, when the program is running.
    pub fn step_once(&mut self)
        ensures
            old(self).is_running ==> final(self).step_once && !final(self).paused,
            !old(self).is_running ==> final(self).step_once == old(self).step_once
                && final(self).paused == old(self).paused,
            final(self).is_running == old(self).is_running,
            final(self).same_setup(&*old(self)) && final(self).same_work(&*old(self)),
            final(self).modal == old(self).modal,
            final(self).single_block == old(self).single_block,
            final(self).pause_pending == old(self).pause_pending,
    {
        if self.is_running {
            self.step_once = true;
            self.paused = false;
        }
    }

    /// Moves the program counter by `delta` blocks, held to the program,
    /// and holds there paused; the queue is cleared. Nothing happens to a
    /// channel without a program, and then the result is false.
    pub fn jump_blocks(&mut self, delta: i32) -> (r: bool)
        requires
            old(self).wf(),
        ensures
            final(self).wf(),
            r == (old(self).program@.len() > 0),
            final(self).program == old(self).program,
            r ==> {
                let target = old(self).pc + delta;
                &&& final(self).pc == if target < 0 {
                    0
                } else if target > old(self).program@.len() {
                    old(self).program@.len() as int
                } else {
                    target
                }
                &&& final(self).active_pc == if final(self).pc == 0 {
                    None
                } else {
                    Some((final(self).pc - 1) as usize)
                }
                &&& final(self).pending@.len() == 0
                &&& !final(self).pause_pending && !final(self).step_once
                &&& final(self).paused && final(self).is_running
            },
            !r ==> final(self).pc == old(self).pc && final(self).pending@ == old(self).pending@
                && final(self).paused == old(self).paused,
            final(self).same_setup(&*old(self)) && final(self).modal == old(self).modal,
            final(self).programmed_work@ == old(self).programmed_work@,
            final(self).comp_link == old(self).comp_link,
            final(self).single_block == old(self).single_block,
            !r ==> final(self).same_work(&*old(self)) && final(self).same_flags(&*old(self)),
    {
        let len = self.program.len();
        if len == 0 {
            return false;
        }
        if delta < 0 {
            let back: usize = if delta == i32::MIN {
                2147483648
            } else {
                (-delta) as usize
            };
            self.pc = if back > self.pc {
                0
            } else {
                self.pc - back
            };
        } else {
            let fwd = delta as usize;
            self.pc = if fwd > len - self.pc {
                len
            } else {
                self.pc + fwd
            };
        }
        self.active_pc = if self.pc == 0 {
            None
        } else {
            Some(self.pc - 1)
        };
        self.pending.clear();
        self.pause_pending = false;
        self.step_once = false;
        self.paused = true;
        self.is_running = true;
        true
    }

    /// Emergency stop: the program stops, its queue is emptied, and no pause
    /// or single step stays pending.
    pub fn estop(&mut self)
        requires
            old(self).wf(),
        ensures
            final(self).wf(),
            !final(self).is_running && !final(self).paused,
            final(self).pending@.len() == 0,
            !final(self).pause_pending && !final(self).step_once,
            final(self).active_pc is None,
            final(self).pc == old(self).pc && final(self).program == old(self).program,
            final(self).modal == old(self).modal,
            final(self).same_setup(&*old(self)),
            final(self).programmed_work@ == old(self).programmed_work@,
            final(self).comp_link == old(self).comp_link,
            final(self).single_block == old(self).single_block,
    {
        self.is_running = false;
        self.paused = false;
        self.pending.clear();
        self.pause_pending = false;
        self.step_once = false;
        self.active_pc = None;
    }

    /// Sets cutter compensation: 41 and 42 select a side, anything else
    /// cancels. The compensation continuity is cleared.
    pub fn set_cutter_comp(&mut self, mode: i32)
        requires
            old(self).wf(),
        ensures
            final(self).wf(),
            final(self).modal == (ModalState {
                cutter_comp: if mode == 41 || mode == 42 {
                    mode
                } else {
                    40
                },
                comp_entry_pending: false,
                ..old(self).modal
            }),
            final(self).comp_link is None,
            final(self).same_setup(&*old(self)) && final(self).same_flags(&*old(self)),
            final(self).program == old(self).program && final(self).pc == old(self).pc,
            final(self).active_pc == old(self).active_pc,
            final(self).pending@ == old(self).pending@,
            final(self).programmed_work@ == old(self).programmed_work@,
    {
        self.modal.cutter_comp = if mode == 41 || mode == 42 {
            mode
        } else {
            40
        };
        self.comp_link = None;
        self.modal.comp_entry_pending = false;
    }

    /// Writes a tool-table entry (negative slots write slot 0); when it is the
    /// loaded tool, its length and radius take effect.
    pub fn set_tool_table_entry(&mut self, slot: i32, e: ToolEntry<V>)
        ensures
            final(self).tool_table@ == old(self).tool_table@.insert(tool_slot(slot), e),
            final(self).modal == old(self).modal,
            old(self).modal.active_tool == tool_slot(slot) ==> final(self).tool_length == e.length
                && final(self).tool_radius == e.radius,
            old(self).modal.active_tool != tool_slot(slot) ==> final(self).tool_length == old(
                self,
            ).tool_length && final(self).tool_radius == old(self).tool_radius,
            final(self).same_flags(&*old(self)) && final(self).same_work(&*old(self)),
            final(self).id == old(self).id && final(self).axis_map == old(self).axis_map,
            final(self).feed_rate == old(self).feed_rate,
            final(self).spindle_rpm == old(self).spindle_rpm,
            final(self).feed_override == old(self).feed_override,
    {
        let idx = if slot < 0 {
            0
        } else {
            slot
        };
        self.tool_table.insert(idx, e);
        if self.modal.active_tool == idx {
            self.tool_length = e.length;
            self.tool_radius = e.radius;
        }
    }

    /// Loads tool `slot` as a T word does; tool 0 unloads, with length and
    /// radius `zero`.
    pub fn set_active_tool(&mut self, slot: i32, zero: V)
        requires
            old(self).wf(),
        ensures
            final(self).wf(),
            final(self).modal == after_tool(old(self).modal, slot),
            final(self).tool_table@ == table_after_select(
                old(self).tool_table@,
                slot,
                ToolEntry { radius: zero, length: zero },
            ),
            tool_slot(slot) == 0 ==> final(self).tool_length == zero && final(self).tool_radius
                == zero,
            tool_slot(slot) != 0 && old(self).tool_table@.contains_key(tool_slot(slot)) ==> {
                &&& final(self).tool_length == old(self).tool_table@[tool_slot(slot)].length
                &&& final(self).tool_radius == old(self).tool_table@[tool_slot(slot)].radius
            },
            tool_slot(slot) != 0 && !old(self).tool_table@.contains_key(tool_slot(slot)) ==> {
                &&& final(self).tool_length == old(self).tool_length
                &&& final(self).tool_radius == old(self).tool_radius
            },
            final(self).same_flags(&*old(self)) && final(self).same_work(&*old(self)),
            final(self).id == old(self).id && final(self).axis_map == old(self).axis_map,
            final(self).feed_rate == old(self).feed_rate,
            final(self).spindle_rpm == old(self).spindle_rpm,
            final(self).feed_override == old(self).feed_override,
    {
        let loaded = select_tool(
            &mut self.modal,
            &mut self.tool_table,
            slot,
            ToolEntry { radius: zero, length: zero },
        );
        if let Some(e) = loaded {
            self.tool_length = e.length;
            self.tool_radius = e.radius;
        }
    }

    /// Sets the loaded tool's length, as H0 then reads it.
    pub fn set_tool_length(&mut self, length: V, zero: V)
        requires
            old(self).wf(),
        ensures
            final(self).wf(),
            final(self).tool_length == length,
            final(self).modal == (ModalState { active_h: 0, ..old(self).modal }),
            final(self).tool_table@ == old(self).tool_table@.insert(
                0,
                ToolEntry {
                    radius: if old(self).tool_table@.contains_key(0) {
                        old(self).tool_table@[0].radius
                    } else {
                        zero
                    },
                    length,
                },
            ),
            final(self).same_flags(&*old(self)) && final(self).same_work(&*old(self)),
            final(self).id == old(self).id && final(self).axis_map == old(self).axis_map,
            final(self).feed_rate == old(self).feed_rate,
            final(self).spindle_rpm == old(self).spindle_rpm,
            final(self).tool_radius == old(self).tool_radius,
            final(self).feed_override == old(self).feed_override,
    {
        self.tool_length = length;
        self.modal.active_h = 0;
        self.tool_table.set_active_length(length, zero);
    }

    /// Sets the loaded tool's radius, as D0 then reads it.
    pub fn set_tool_radius(&mut self, radius: V, zero: V)
        requires
            old(self).wf(),
        ensures
            final(self).wf(),
            final(self).tool_radius == radius,
            final(self).modal == (ModalState { active_d: 0, ..old(self).modal }),
            final(self).tool_table@ == old(self).tool_table@.insert(
                0,
                ToolEntry {
                    radius,
                    length: if old(self).tool_table@.contains_key(0) {
                        old(self).tool_table@[0].length
                    } else {
                        zero
                    },
                },
            ),
            final(self).same_flags(&*old(self)) && final(self).same_work(&*old(self)),
            final(self).id == old(self).id && final(self).axis_map == old(self).axis_map,
            final(self).feed_rate == old(self).feed_rate,
            final(self).spindle_rpm == old(self).spindle_rpm,
            final(self).tool_length == old(self).tool_length,
            final(self).feed_override == old(self).feed_override,
    {
        self.tool_radius = radius;
        self.modal.active_d = 0;
        self.tool_table.set_active_radius(radius, zero);
    }

    /// The programmed work coordinate of each mapped axis, in order; `zero`
    /// where none is cached.
    pub open spec fn programmed_work_list_spec(&self, zero: V) -> Seq<(u32, V)> {
        Seq::new(
            self.axis_map@.len(),
            |k: int|
                {
                    let id = self.axis_map@[k].axis_id;
                    (id, if self.programmed_work@.contains_key(id) {
                        self.programmed_work@[id]
                    } else {
                        zero
                    })
                },
        )
    }

    pub fn programmed_work_list(&self, zero: V) -> (r: Vec<(u32, V)>)
        ensures
            r@.len() == self.axis_map@.len(),
            forall|k: int|
                0 <= k < r@.len() ==> {
                    let id = self.axis_map@[k].axis_id;
                    &&& (#[trigger] r@[k]).0 == id
                    &&& r@[k].1 == if self.programmed_work@.contains_key(id) {
                        self.programmed_work@[id]
                    } else {
                        zero
                    }
                },
    {
        let mut r: Vec<(u32, V)> = Vec::new();
        let mut k: usize = 0;
        while k < self.axis_map.len()
            invariant
                0 <= k <= self.axis_map@.len(),
                r@.len() == k,
                forall|j: int|
                    0 <= j < k ==> {
                        let id = self.axis_map@[j].axis_id;
                        &&& (#[trigger] r@[j]).0 == id
                        &&& r@[j].1 == if self.programmed_work@.contains_key(id) {
                            self.programmed_work@[id]
                        } else {
                            zero
                        }
                    },
            decreases self.axis_map@.len() - k,
        {
            let id = self.axis_map[k].axis_id;
            let v = match self.programmed_work.get(&id) {
                Some(v) => *v,
                None => zero,
            };
            r.push((id, v));
            k = k + 1;
        }
        r
    }

    /// `st` shows this channel: every field copied, the programmed-work cache
    /// listed per mapped axis with `zero` where none is cached.
    pub open spec fn shown_by(&self, st: &ChannelStatus<V>, zero: V) -> bool {
        &&& st.id == self.id && st.is_running == self.is_running && st.paused == self.paused
        &&& st.active_pc == self.active_pc && st.pc == self.pc && st.modal == self.modal
        &&& st.tool_radius == self.tool_radius && st.tool_length == self.tool_length
        &&& st.spindle_rpm == self.spindle_rpm && st.feed_rate == self.feed_rate
        &&& st.feed_override == self.feed_override && st.single_block == self.single_block
        &&& same_maps(st.axis_map@, self.axis_map@)
        &&& st.programmed_work@ == self.programmed_work_list_spec(zero)
    }

    /// The channel as observers see it.
    pub fn status(&self, zero: V) -> (r: ChannelStatus<V>)
        ensures
            self.shown_by(&r, zero),
    {
        let programmed_work = self.programmed_work_list(zero);
        proof {
            assert(programmed_work@ =~= self.programmed_work_list_spec(zero));
        }
        ChannelStatus {
            id: self.id,
            is_running: self.is_running,
            paused: self.paused,
            active_pc: self.active_pc,
            pc: self.pc,
            axis_map: copy_axis_map(&self.axis_map),
            modal: self.modal,
            tool_radius: self.tool_radius,
            tool_length: self.tool_length,
            spindle_rpm: self.spindle_rpm,
            feed_rate: self.feed_rate,
            feed_override: self.feed_override,
            single_block: self.single_block,
            programmed_work,
        }
    }

    /// The channel's axis labels, upper-cased, in the order of its axis map:
    /// the labels that its blocks are read with.
    pub fn labels(&self) -> (r: Vec<Vec<u8>>)
        ensures
            r@.len() == self.axis_map@.len(),
            forall|k: int|
                0 <= k < r@.len() ==> (#[trigger] r@[k])@ == label_bytes(
                    self.axis_map@[k].display_label@,
                ),
    {
        let mut r: Vec<Vec<u8>> = Vec::new();
        let mut k: usize = 0;
        while k < self.axis_map.len()
            invariant
                0 <= k <= self.axis_map@.len(),
                r@.len() == k,
                forall|j: int|
                    0 <= j < k ==> (#[trigger] r@[j])@ == label_bytes(
                        self.axis_map@[j].display_label@,
                    ),
            decreases self.axis_map@.len() - k,
        {
            r.push(upper_bytes_of(self.axis_map[k].display_label.as_str()));
            k = k + 1;
        }
        r
    }

    /// Applies the words of a block to the channel: the modal state changes as
    /// `block_modal` describes; a T word selects its tool from the table
    /// (tool 0 unloads with `zero` sizes); G40 forgets the previous compensated
    /// segment; a D or H word naming a slot that the table holds takes its
    /// radius or length. Returns what the block says and asks, and whether a
    /// D or H word named no such slot, so that its own value applies.
    pub fn apply_block(&mut self, s: &[u8], w: &Vec<Word>, zero: V) -> (r: (
        BlockWords,
        BlockPlan,
        bool,
        bool,
    ))
        requires
            old(self).wf(),
            spans_in(s@, w@),
        ensures
            final(self).wf(),
            final(self).modal == block_modal(old(self).modal, s@, w@),
            r.0.of(s@, w@),
            r.1 == block_plan(old(self).modal, s@, w@),
            final(self).tool_table@ == match r.0.t {
                Some(t) => table_after_select(
                    old(self).tool_table@,
                    t,
                    ToolEntry { radius: zero, length: zero },
                ),
                None => old(self).tool_table@,
            },
            r.1.forget_comp_link ==> final(self).comp_link is None,
            !r.1.forget_comp_link ==> final(self).comp_link == old(self).comp_link,
            r.2 == match r.0.d {
                Some(n) => !slot_held(final(self).tool_table@, s@, n),
                None => false,
            },
            r.3 == match r.0.h {
                Some(n) => !slot_held(final(self).tool_table@, s@, n),
                None => false,
            },
            match r.0.d {
                Some(n) => slot_held(final(self).tool_table@, s@, n) ==> final(self).tool_radius
                    == final(self).tool_table@[integral_of(span_text(s@, n))->0].radius,
                None => true,
            },
            match r.0.h {
                Some(n) => slot_held(final(self).tool_table@, s@, n) ==> final(self).tool_length
                    == final(self).tool_table@[integral_of(span_text(s@, n))->0].length,
                None => true,
            },
            final(self).program == old(self).program && final(self).pc == old(self).pc,
            final(self).pending@ == old(self).pending@,
            final(self).programmed_work@ == old(self).programmed_work@,
            final(self).same_flags(&*old(self)) && final(self).active_pc == old(self).active_pc,
            final(self).id == old(self).id && final(self).axis_map == old(self).axis_map,
            final(self).feed_rate == old(self).feed_rate,
            final(self).spindle_rpm == old(self).spindle_rpm,
            final(self).feed_override == old(self).feed_override,
            ({
                let t = old(self).tool_table@;
                let (radius, length) = match r.0.t {
                    Some(slot) => if tool_slot(slot) == 0 {
                        (zero, zero)
                    } else if t.contains_key(tool_slot(slot)) {
                        (t[tool_slot(slot)].radius, t[tool_slot(slot)].length)
                    } else {
                        (old(self).tool_radius, old(self).tool_length)
                    },
                    None => (old(self).tool_radius, old(self).tool_length),
                };
                &&& !(r.0.d is Some && slot_held(final(self).tool_table@, s@, r.0.d->0))
                    ==> final(self).tool_radius == radius
                &&& !(r.0.h is Some && slot_held(final(self).tool_table@, s@, r.0.h->0))
                    ==> final(self).tool_length == length
            }),
    {
        let (words, plan) = interpret_block(&mut self.modal, s, w);
        if let Some(t) = words.t {
            let unloaded = ToolEntry { radius: zero, length: zero };
            if let Some(e) = self.tool_table.select(t, unloaded) {
                self.tool_length = e.length;
                self.tool_radius = e.radius;
            }
        }
        if plan.forget_comp_link {
            self.comp_link = None;
        }
        proof {
            lemma_last_number_in(s@, w@, LETTER_D);
            lemma_last_number_in(s@, w@, LETTER_H);
        }
        let mut d_own = false;
        if let Some(n) = words.d {
            match self.table_entry(s, n) {
                Some(e) => self.tool_radius = e.radius,
                None => d_own = true,
            }
        }
        let mut h_own = false;
        if let Some(n) = words.h {
            match self.table_entry(s, n) {
                Some(e) => self.tool_length = e.length,
                None => h_own = true,
            }
        }
        (words, plan, d_own, h_own)
    }

    /// The table entry at the slot that the number in `n` names, if any.
    fn table_entry(&self, s: &[u8], n: NumberSpan) -> (r: Option<ToolEntry<V>>)
        requires
            n.start <= n.end <= s@.len(),
        ensures
            r is Some <==> slot_held(self.tool_table@, s@, n),
            r is Some ==> r->0 == self.tool_table@[integral_of(span_text(s@, n))->0],
    {
        match integral_number(s, n) {
            Some(slot) => self.tool_table.get(slot),
            None => None,
        }
    }

    /// Caches programmed work coordinates, one per axis, later pairs winning.
    pub fn store_programmed(&mut self, values: &Vec<(u32, V)>)
        ensures
            final(self).programmed_work@ == cached(old(self).programmed_work@, values@),
            final(self).modal == old(self).modal && final(self).pc == old(self).pc,
            final(self).program == old(self).program && final(self).pending@ == old(self).pending@,
            final(self).comp_link == old(self).comp_link,
            final(self).same_setup(&*old(self)) && final(self).same_flags(&*old(self)),
            final(self).active_pc == old(self).active_pc,
    {
        let mut k: usize = 0;
        while k < values.len()
            invariant
                0 <= k <= values@.len(),
                self.programmed_work@ == cached(old(self).programmed_work@, values@.take(k as int)),
                self.modal == old(self).modal && self.pc == old(self).pc,
                self.program == old(self).program && self.pending@ == old(self).pending@,
                self.comp_link == old(self).comp_link,
                self.same_setup(&*old(self)) && self.same_flags(&*old(self)),
                self.active_pc == old(self).active_pc,
            decreases values@.len() - k,
        {
            assert(values@.take(k + 1).drop_last() =~= values@.take(k as int));
            let (id, v) = values[k];
            self.programmed_work.insert(id, v);
            k = k + 1;
        }
        assert(values@.take(k as int) =~= values@);
    }

    /// Queues segments behind those already pending, in order.
    pub fn queue_segments(&mut self, segments: Vec<Vec<(u32, V)>>)
        ensures
            final(self).pending@ == old(self).pending@ + segments@,
            final(self).modal == old(self).modal && final(self).pc == old(self).pc,
            final(self).program == old(self).program,
            final(self).comp_link == old(self).comp_link,
            final(self).programmed_work@ == old(self).programmed_work@,
            final(self).same_setup(&*old(self)) && final(self).same_flags(&*old(self)),
            final(self).active_pc == old(self).active_pc,
    {
        let mut segments = segments;
        let ghost all = segments@;
        while segments.len() > 0
            invariant
                old(self).pending@ + all == self.pending@ + segments@,
                self.modal == old(self).modal && self.pc == old(self).pc,
                self.program == old(self).program,
                self.comp_link == old(self).comp_link,
                self.programmed_work@ == old(self).programmed_work@,
                self.same_setup(&*old(self)) && self.same_flags(&*old(self)),
                self.active_pc == old(self).active_pc,
            decreases segments@.len(),
        {
            let ghost before = segments@;
            let seg = segments.remove(0);
            self.pending.push_back(seg);
            assert(before =~= seq![seg] + segments@);
            assert(self.pending@ + segments@ =~= old(self).pending@ + all);
        }
        assert(self.pending@ =~= self.pending@ + segments@);
    }

    /// Ends a G0 or G1 block whose geometry is computed. With corner or entry
    /// points (G1 only), the first is returned as the axes' immediate targets
    /// and the others, then `end`, are queued; else `end` is returned. The
    /// programmed end point is cached. A compensated G1 leaves `link` as the
    /// record for the next corner (none when G40 cancels on this block) and
    /// ends a pending entry; an uncompensated block forgets the record, and
    /// so does a compensated one with X or Y whose record is absent.
    pub fn finish_linear(
        &mut self,
        motion: i32,
        transition: Vec<Vec<(u32, V)>>,
        end: Vec<(u32, V)>,
        programmed: &Vec<(u32, V)>,
        link: Option<CompLink<V>>,
        cancel_on_motion: bool,
        comp_active: bool,
        xy_set: bool,
    ) -> (r: Vec<(u32, V)>)
        requires
            old(self).wf(),
        ensures
            final(self).wf(),
            final(self).programmed_work@ == cached(old(self).programmed_work@, programmed@),
            motion == 1 && transition@.len() > 0 ==> {
                &&& r == transition@[0]
                &&& final(self).pending@ == old(self).pending@ + (transition@.drop_first() + end_seq(
                    end,
                ))
                &&& final(self).comp_link == if cancel_on_motion {
                    None
                } else {
                    link
                }
                &&& final(self).modal == if link is Some {
                    ModalState { comp_entry_pending: false, ..old(self).modal }
                } else {
                    old(self).modal
                }
            },
            !(motion == 1 && transition@.len() > 0) ==> {
                &&& r == end
                &&& final(self).pending@ == old(self).pending@
                &&& if motion == 1 && link is Some {
                    &&& final(self).comp_link == if cancel_on_motion {
                        None
                    } else {
                        link
                    }
                    &&& final(self).modal == ModalState {
                        comp_entry_pending: false,
                        ..old(self).modal
                    }
                } else if motion == 1 && !xy_set && comp_active {
                    final(self).comp_link == old(self).comp_link && final(self).modal == old(
                        self,
                    ).modal
                } else {
                    &&& final(self).comp_link is None
                    &&& final(self).modal == if comp_active {
                        old(self).modal
                    } else {
                        ModalState { comp_entry_pending: false, ..old(self).modal }
                    }
                }
            },
            final(self).program == old(self).program && final(self).pc == old(self).pc,
            final(self).same_setup(&*old(self)) && final(self).same_flags(&*old(self)),
            final(self).active_pc == old(self).active_pc,
    {
        self.store_programmed(programmed);
        if motion == 1 && transition.len() > 0 {
            self.finish_transition(transition, end, link, cancel_on_motion)
        } else {
            self.finish_plain(motion, link, cancel_on_motion, comp_active, xy_set);
            end
        }
    }

    fn finish_transition(
        &mut self,
        transition: Vec<Vec<(u32, V)>>,
        end: Vec<(u32, V)>,
        link: Option<CompLink<V>>,
        cancel_on_motion: bool,
    ) -> (r: Vec<(u32, V)>)
        requires
            old(self).wf(),
            transition@.len() > 0,
        ensures
            final(self).wf(),
            r == transition@[0],
            final(self).pending@ == old(self).pending@ + (transition@.drop_first() + end_seq(end)),
            final(self).comp_link == if cancel_on_motion {
                None
            } else {
                link
            },
            final(self).modal == if link is Some {
                ModalState { comp_entry_pending: false, ..old(self).modal }
            } else {
                old(self).modal
            },
            final(self).programmed_work@ == old(self).programmed_work@,
            final(self).program == old(self).program && final(self).pc == old(self).pc,
            final(self).same_setup(&*old(self)) && final(self).same_flags(&*old(self)),
            final(self).active_pc == old(self).active_pc,
    {
        let mut queued = transition;
        let first = queued.remove(0);
        if end.len() > 0 {
            queued.push(end);
        }
        assert(queued@ =~= transition@.drop_first() + end_seq(end));
        self.queue_segments(queued);
        if link.is_some() {
            self.modal.comp_entry_pending = false;
        }
        self.comp_link = if cancel_on_motion {
            None
        } else {
            link
        };
        first
    }

    fn finish_plain(
        &mut self,
        motion: i32,
        link: Option<CompLink<V>>,
        cancel_on_motion: bool,
        comp_active: bool,
        xy_set: bool,
    )
        requires
            old(self).wf(),
        ensures
            final(self).wf(),
            final(self).pending@ == old(self).pending@,
            final(self).programmed_work@ == old(self).programmed_work@,
            final(self).program == old(self).program && final(self).pc == old(self).pc,
            if motion == 1 && link is Some {
                &&& final(self).comp_link == if cancel_on_motion {
                    None
                } else {
                    link
                }
                &&& final(self).modal == ModalState { comp_entry_pending: false, ..old(self).modal }
            } else if motion == 1 && !xy_set && comp_active {
                final(self).comp_link == old(self).comp_link && final(self).modal == old(
                    self,
                ).modal
            } else {
                &&& final(self).comp_link is None
                &&& final(self).modal == if comp_active {
                    old(self).modal
                } else {
                    ModalState { comp_entry_pending: false, ..old(self).modal }
                }
            },
            final(self).same_setup(&*old(self)) && final(self).same_flags(&*old(self)),
            final(self).active_pc == old(self).active_pc,
    {
        if motion == 1 {
            if link.is_some() {
                self.modal.comp_entry_pending = false;
                self.comp_link = if cancel_on_motion {
                    None
                } else {
                    link
                };
            } else if xy_set || !comp_active {
                if !comp_active {
                    self.modal.comp_entry_pending = false;
                }
                self.comp_link = None;
            }
        } else {
            if !comp_active {
                self.modal.comp_entry_pending = false;
            }
            self.comp_link = None;
        }
    }

    /// The channel maps axis `axis_id`.
    pub open spec fn maps_axis_spec(&self, axis_id: u32) -> bool {
        exists|k: int| 0 <= k < self.axis_map@.len() && self.axis_map@[k].axis_id == axis_id
    }

    /// The channel after a jog of axis `axis_id` at `feed`: when it is idle
    /// and maps the axis it takes `feed` as feed rate, and with `rapid`
    /// returns to G0; otherwise it is unchanged.
    pub open spec fn jogged(&self, axis_id: u32, feed: V, rapid: bool) -> Self {
        if !self.is_running && self.maps_axis_spec(axis_id) {
            Channel {
                feed_rate: feed,
                modal: if rapid {
                    ModalState { current_motion: 0, ..self.modal }
                } else {
                    self.modal
                },
                ..*self
            }
        } else {
            *self
        }
    }

    /// Applies a jog of axis `axis_id` at `feed`, as `jogged` describes.
    pub fn jog(&mut self, axis_id: u32, feed: V, rapid: bool)
        requires
            old(self).wf(),
        ensures
            *final(self) == old(self).jogged(axis_id, feed, rapid),
            final(self).wf(),
    {
        if self.maps_axis(axis_id) && !self.is_running {
            self.feed_rate = feed;
            if rapid {
                self.modal.current_motion = 0;
            }
        }
    }

    /// Whether the channel maps axis `axis_id`.
    pub fn maps_axis(&self, axis_id: u32) -> (r: bool)
        ensures
            r == self.maps_axis_spec(axis_id),
    {
        let mut k: usize = 0;
        while k < self.axis_map.len()
            invariant
                0 <= k <= self.axis_map@.len(),
                forall|j: int| 0 <= j < k ==> self.axis_map@[j].axis_id != axis_id,
            decreases self.axis_map@.len() - k,
        {
            if self.axis_map[k].axis_id == axis_id {
                return true;
            }
            k = k + 1;
        }
        false
    }

    /// The axis of the first mapping whose upper-cased label is `name`.
    pub fn axis_for_label(&self, name: &[u8]) -> (r: Option<u32>)
        ensures
            match r {
                Some(id) => exists|k: int|
                    0 <= k < self.axis_map@.len() && self.axis_map@[k].axis_id == id && label_bytes(
                        self.axis_map@[k].display_label@,
                    ) == name@ && forall|j: int|
                        0 <= j < k ==> label_bytes(#[trigger] self.axis_map@[j].display_label@)
                            != name@,
                None => forall|k: int|
                    0 <= k < self.axis_map@.len() ==> label_bytes(
                        #[trigger] self.axis_map@[k].display_label@,
                    ) != name@,
            },
    {
        let mut k: usize = 0;
        while k < self.axis_map.len()
            invariant
                0 <= k <= self.axis_map@.len(),
                forall|j: int|
                    0 <= j < k ==> label_bytes(#[trigger] self.axis_map@[j].display_label@)
                        != name@,
            decreases self.axis_map@.len() - k,
        {
            let l = upper_bytes_of(self.axis_map[k].display_label.as_str());
            if bytes_equal(&l, name) {
                return Some(self.axis_map[k].axis_id);
            }
            k = k + 1;
        }
        None
    }

    /// Whether work remains after the current target: queued segments, or
    /// blocks of a running program.
    pub fn has_future(&self) -> (r: bool)
        ensures
            r == (self.pending@.len() > 0 || (self.is_running && self.pc
                < self.program@.len())),
    {
        self.pending.len() > 0 || (self.is_running && self.pc < self.program.len())
    }

    /// Whether the axes must come to rest at their targets this tick: in exact
    /// stop, when no work follows, or when a pause is pending.
    pub fn stop_at_target(&self) -> (r: bool)
        ensures
            r == (self.modal.exact_stop || !(self.pending@.len() > 0 || (self.is_running
                && self.pc < self.program@.len())) || self.pause_pending),
    {
        self.modal.exact_stop || !self.has_future() || self.pause_pending
    }

    /// The scheduler's decision once the axes have been advanced for a tick.
    /// A running channel whose axes have settled pauses when a pause is pending
    /// and nothing is queued; else takes the next queued segment; else takes up
    /// the next block, arming a pause after it in single-block or step mode;
    /// else stops at the end of the program.
    pub fn after_motion(&mut self, still_moving: bool) -> (r: StepAction<V>)
        requires
            old(self).wf(),
        ensures
            final(self).wf(),
            final(self).program == old(self).program,
            final(self).modal == old(self).modal,
            !old(self).is_running || still_moving ==> r is Idle && final(self).pc == old(
                self,
            ).pc && final(self).pending@ == old(self).pending@ && final(self).paused == old(
                self,
            ).paused && final(self).is_running == old(self).is_running && final(self).step_once
                == old(self).step_once && final(self).pause_pending == old(self).pause_pending
                && final(self).active_pc == old(self).active_pc,
            old(self).is_running && !still_moving ==> {
                let o = *old(self);
                let f = *final(self);
                if o.pause_pending && o.pending@.len() == 0 {
                    &&& r is Paused
                    &&& f.paused && !f.pause_pending && !f.step_once
                    &&& f.pc == o.pc && f.is_running
                    &&& f.pending@ == o.pending@ && f.active_pc == o.active_pc
                } else if o.pending@.len() > 0 {
                    &&& r == StepAction::Segment(o.pending@[0])
                    &&& f.pending@ == o.pending@.drop_first()
                    &&& f.pc == o.pc && f.is_running && f.paused == o.paused
                    &&& f.pause_pending == o.pause_pending
                    &&& f.active_pc == o.active_pc && f.step_once == o.step_once
                } else if o.pc < o.program@.len() {
                    &&& r == StepAction::<V>::Block(o.pc)
                    &&& f.active_pc == Some(o.pc)
                    &&& f.pc == o.pc + 1
                    &&& f.pause_pending == (o.pause_pending || o.single_block || o.step_once)
                    &&& f.pending@ == o.pending@ && f.is_running && f.paused == o.paused
                    &&& f.step_once == o.step_once
                } else {
                    &&& r is Finished
                    &&& !f.is_running && f.active_pc is None
                    &&& f.pc == o.pc && f.pending@ == o.pending@
                    &&& f.paused == o.paused && f.step_once == o.step_once
                    &&& f.pause_pending == o.pause_pending
                }
            },
            final(self).same_setup(&*old(self)),
            final(self).programmed_work@ == old(self).programmed_work@,
            final(self).comp_link == old(self).comp_link,
            final(self).single_block == old(self).single_block,
    {
        if !self.is_running || still_moving {
            return StepAction::Idle;
        }
        if self.pause_pending && self.pending.len() == 0 {
            self.paused = true;
            self.pause_pending = false;
            self.step_once = false;
            return StepAction::Paused;
        }
        if let Some(seg) = self.pending.pop_front() {
            return StepAction::Segment(seg);
        }
        if self.pc < self.program.len() {
            let current = self.pc;
            self.active_pc = Some(current);
            if self.single_block || self.step_once {
                self.pause_pending = true;
            }
            self.pc = current + 1;
            StepAction::Block(current)
        } else {
            self.is_running = false;
            self.active_pc = None;
            StepAction::Finished
        }
    }
}

} // verus!
