//! The tool table of a channel: entries keyed by slot, where slot 0 mirrors
//! the loaded tool. The entry values are carried, never computed with.
use vstd::prelude::*;
use std::collections::HashMap;
use crate::modal::{after_tool, ModalState};

verus! {

broadcast use vstd::std_specs::hash::group_hash_axioms;

/// Radius and length of one tool.
#[derive(Clone, Copy, Debug)]
pub struct ToolEntry<V> {
    pub radius: V,
    pub length: V,
}

/// Tool-table entries keyed by slot.
pub struct ToolTable<V> {
    slots: HashMap<i32, ToolEntry<V>>,
}

impl<V> View for ToolTable<V> {
    type V = Map<i32, ToolEntry<V>>;

    closed spec fn view(&self) -> Map<i32, ToolEntry<V>> {
        self.slots@
    }
}

/// The slot that a tool number selects: negative numbers select 0.
pub open spec fn tool_slot(slot: i32) -> i32 {
    if slot < 0 {
        0
    } else {
        slot
    }
}

/// The table after selecting tool `slot`: slot 0 takes `unloaded` for tool 0,
/// else a copy of the selected entry when there is one.
pub open spec fn table_after_select<V>(
    t: Map<i32, ToolEntry<V>>,
    slot: i32,
    unloaded: ToolEntry<V>,
) -> Map<i32, ToolEntry<V>> {
    let idx = tool_slot(slot);
    if idx == 0 {
        t.insert(0, unloaded)
    } else if t.contains_key(idx) {
        t.insert(0, t[idx])
    } else {
        t
    }
}

impl<V: Copy> ToolTable<V> {
    /// An empty table.
    pub fn new() -> (r: Self)
        ensures
            r@ == Map::<i32, ToolEntry<V>>::empty(),
    {
        ToolTable { slots: HashMap::new() }
    }

    pub fn get(&self, slot: i32) -> (r: Option<ToolEntry<V>>)
        ensures
            match r {
                Some(e) => self@.contains_key(slot) && self@[slot] == e,
                None => !self@.contains_key(slot),
            },
    {
        match self.slots.get(&slot) {
            Some(e) => Some(*e),
            None => None,
        }
    }

    pub fn insert(&mut self, slot: i32, e: ToolEntry<V>)
        ensures
            final(self)@ == old(self)@.insert(slot, e),
    {
        self.slots.insert(slot, e);
    }

    /// Selects tool `slot` (negative selects 0) and keeps slot 0 mirroring it.
    /// Returns the entry of the tool now loaded: `unloaded` for tool 0, the
    /// selected entry when the table has one, `None` otherwise.
    pub fn select(&mut self, slot: i32, unloaded: ToolEntry<V>) -> (r: Option<ToolEntry<V>>)
        ensures
            final(self)@ == table_after_select(old(self)@, slot, unloaded),
            tool_slot(slot) == 0 ==> r == Some(unloaded),
            tool_slot(slot) != 0 ==> r == if old(self)@.contains_key(tool_slot(slot)) {
                Some(old(self)@[tool_slot(slot)])
            } else {
                None
            },
    {
        let idx = if slot < 0 {
            0
        } else {
            slot
        };
        if idx == 0 {
            self.insert(0, unloaded);
            Some(unloaded)
        } else {
            match self.get(idx) {
                Some(e) => {
                    self.insert(0, e);
                    Some(e)
                },
                None => None,
            }
        }
    }

    /// Sets the length of slot 0, creating it with radius `zero` when absent.
    pub fn set_active_length(&mut self, length: V, zero: V)
        ensures
            final(self)@ == old(self)@.insert(
                0,
                ToolEntry {
                    radius: if old(self)@.contains_key(0) {
                        old(self)@[0].radius
                    } else {
                        zero
                    },
                    length,
                },
            ),
    {
        let radius = match self.get(0) {
            Some(e) => e.radius,
            None => zero,
        };
        self.insert(0, ToolEntry { radius, length });
    }

    /// Sets the radius of slot 0, creating it with length `zero` when absent.
    pub fn set_active_radius(&mut self, radius: V, zero: V)
        ensures
            final(self)@ == old(self)@.insert(
                0,
                ToolEntry {
                    radius,
                    length: if old(self)@.contains_key(0) {
                        old(self)@[0].length
                    } else {
                        zero
                    },
                },
            ),
    {
        let length = match self.get(0) {
            Some(e) => e.length,
            None => zero,
        };
        self.insert(0, ToolEntry { radius, length });
    }
}

/// After selecting a tool `s >= 1` that the table holds, slot 0 holds the same
/// entry as slot `s`, and every other slot is unchanged.
pub proof fn lemma_select_mirrors<V>(
    t: Map<i32, ToolEntry<V>>,
    s: i32,
    unloaded: ToolEntry<V>,
)
    requires
        s >= 1,
        t.contains_key(s),
    ensures
        table_after_select(t, s, unloaded)[0] == t[s],
        table_after_select(t, s, unloaded)[s] == t[s],
        forall|k: i32| k != 0 ==> table_after_select(t, s, unloaded).contains_key(k) == t.contains_key(k),
        forall|k: i32| k != 0 && t.contains_key(k) ==> table_after_select(t, s, unloaded)[k] == t[k],
{
}

/// Selects a tool: the modal state changes as for a T word and the table as
/// `select` describes. Returns the entry of the tool now loaded, if any.
pub fn select_tool<V: Copy>(
    modal: &mut ModalState,
    table: &mut ToolTable<V>,
    slot: i32,
    unloaded: ToolEntry<V>,
) -> (r: Option<ToolEntry<V>>)
    requires
        old(modal).wf(),
    ensures
        *final(modal) == after_tool(*old(modal), slot),
        final(modal).wf(),
        final(table)@ == table_after_select(old(table)@, slot, unloaded),
        tool_slot(slot) == 0 ==> r == Some(unloaded),
        tool_slot(slot) != 0 ==> r == if old(table)@.contains_key(tool_slot(slot)) {
            Some(old(table)@[tool_slot(slot)])
        } else {
            None
        },
{
    let idx = if slot < 0 {
        0
    } else {
        slot
    };
    modal.active_tool = idx;
    modal.active_d = 0;
    modal.active_h = 0;
    if idx == 0 {
        modal.length_comp_active = false;
        modal.cutter_comp = 40;
    }
    table.select(slot, unloaded)
}

} // verus!
