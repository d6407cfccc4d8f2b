//! The machine: axes, channels, work-coordinate frames, e-stop and the homing
//! sequencer. As in a channel, values of type `V` are carried, never computed
//! with.
use vstd::prelude::*;
use crate::channel::{Channel, ChannelStatus};
use crate::modal::ModalState;
use crate::program::{bytes_of, program_lines, split_program};

verus! {

#[derive(Clone, Copy, Debug, PartialEq, Eq, Structural)]
pub enum AxisType {
    Linear,
    Rotary,
}

/// One physical axis: identity and name, kinematic state, kind and limits.
#[derive(Clone, Debug)]
pub struct Axis<V> {
    pub id: u32,
    pub physical_name: Vec<u8>,
    pub position: V,
    pub target: V,
    pub axis_type: AxisType,
    pub min_range: V,
    pub max_range: V,
    pub homed: bool,
    pub velocity: V,
    pub accel: V,
    pub invert: bool,
    pub machine_zero: V,
}

#[derive(Clone, Copy, Debug)]
pub struct AxisOffset<V> {
    pub axis_id: u32,
    pub value: V,
}

/// A named work-coordinate frame with one offset per axis.
#[derive(Clone, Debug)]
pub struct WorkOffset<V> {
    pub label: Vec<u8>,
    pub offsets: Vec<AxisOffset<V>>,
}

/// What observers see of the machine.
#[derive(Debug)]
pub struct MachineState<V> {
    pub axes: Vec<Axis<V>>,
    pub channels: Vec<ChannelStatus<V>>,
    pub estop: bool,
    pub active_wcs: usize,
    pub work_offsets: Vec<WorkOffset<V>>,
    pub is_homing: bool,
}

pub struct Machine<V> {
    pub axes: Vec<Axis<V>>,
    pub channels: Vec<Channel<V>>,
    pub estop: bool,
    pub work_offsets: Vec<WorkOffset<V>>,
    pub active_wcs: usize,
    pub is_homing: bool,
    pub homing_sequence: Vec<u32>,
    pub homing_index: usize,
    pub homing_feed: V,
    pub homing_rapid: bool,
}

/// Labels of the default frames: G54 to G59, then G153.
pub open spec fn default_labels() -> Seq<Seq<u8>> {
    seq![
        seq![71u8, 53u8, 52u8],
        seq![71u8, 53u8, 53u8],
        seq![71u8, 53u8, 54u8],
        seq![71u8, 53u8, 55u8],
        seq![71u8, 53u8, 56u8],
        seq![71u8, 53u8, 57u8],
        seq![71u8, 49u8, 53u8, 51u8],
    ]
}

/// The default frames, with no offsets.
pub open spec fn is_default_frames<V>(w: Seq<WorkOffset<V>>) -> bool {
    &&& w.len() == 7
    &&& forall|k: int| 0 <= k < 7 ==> (#[trigger] w[k]).label@ == default_labels()[k]
    &&& forall|k: int| 0 <= k < 7 ==> (#[trigger] w[k]).offsets@.len() == 0
}

fn frame<V>(label: Vec<u8>) -> (r: WorkOffset<V>)
    ensures
        r.label@ == label@,
        r.offsets@.len() == 0,
{
    WorkOffset { label, offsets: Vec::new() }
}

/// The default frames G54 to G59 and G153, with no offsets.
pub fn default_work_offsets<V>() -> (r: Vec<WorkOffset<V>>)
    ensures
        is_default_frames(r@),
{
    let r = vec![
        frame(vec![71u8, 53u8, 52u8]),
        frame(vec![71u8, 53u8, 53u8]),
        frame(vec![71u8, 53u8, 54u8]),
        frame(vec![71u8, 53u8, 55u8]),
        frame(vec![71u8, 53u8, 56u8]),
        frame(vec![71u8, 53u8, 57u8]),
        frame(vec![71u8, 49u8, 53u8, 51u8]),
    ];
    assert(r@[0].label@ =~= default_labels()[0]);
    assert(r@[1].label@ =~= default_labels()[1]);
    assert(r@[2].label@ =~= default_labels()[2]);
    assert(r@[3].label@ =~= default_labels()[3]);
    assert(r@[4].label@ =~= default_labels()[4]);
    assert(r@[5].label@ =~= default_labels()[5]);
    assert(r@[6].label@ =~= default_labels()[6]);
    r
}

/// `a` holds the same values as `b`, its name as a copy.
pub open spec fn same_axis<V>(a: Axis<V>, b: Axis<V>) -> bool {
    a == (Axis { physical_name: a.physical_name, ..b }) && a.physical_name@ == b.physical_name@
}

/// `a` holds the same label and offsets as `b`.
pub open spec fn same_frame<V>(a: WorkOffset<V>, b: WorkOffset<V>) -> bool {
    a.label@ == b.label@ && a.offsets@ == b.offsets@
}

fn copy_axis<V: Copy>(a: &Axis<V>) -> (r: Axis<V>)
    ensures
        same_axis(r, *a),
{
    Axis {
        id: a.id,
        physical_name: bytes_of(a.physical_name.as_slice()),
        position: a.position,
        target: a.target,
        axis_type: a.axis_type,
        min_range: a.min_range,
        max_range: a.max_range,
        homed: a.homed,
        velocity: a.velocity,
        accel: a.accel,
        invert: a.invert,
        machine_zero: a.machine_zero,
    }
}

fn copy_frame<V: Copy>(f: &WorkOffset<V>) -> (r: WorkOffset<V>)
    ensures
        same_frame(r, *f),
{
    let mut offsets: Vec<AxisOffset<V>> = Vec::new();
    let mut k: usize = 0;
    while k < f.offsets.len()
        invariant
            0 <= k <= f.offsets@.len(),
            offsets@ == f.offsets@.take(k as int),
        decreases f.offsets@.len() - k,
    {
        offsets.push(f.offsets[k]);
        k = k + 1;
        assert(offsets@ =~= f.offsets@.take(k as int));
    }
    assert(f.offsets@.take(k as int) =~= f.offsets@);
    WorkOffset { label: bytes_of(f.label.as_slice()), offsets }
}

/// The axes that a homing order names, as the sequencer runs them: ids of
/// existing axes (below `n`), with a run of one id taken once.
pub open spec fn homing_order(order: Seq<u32>, n: int) -> Seq<u32>
    decreases order.len(),
{
    if order.len() == 0 {
        seq![]
    } else {
        let p = homing_order(order.drop_last(), n);
        let id = order.last();
        if id < n && !(p.len() > 0 && p.last() == id) {
            p.push(id)
        } else {
            p
        }
    }
}

/// The ids `0..n` in order, leaving out `skip`.
pub open spec fn ids_without(n: int, skip: int) -> Seq<u32>
    decreases n,
{
    if n <= 0 {
        seq![]
    } else {
        let p = ids_without(n - 1, skip);
        if n - 1 == skip {
            p
        } else {
            p.push((n - 1) as u32)
        }
    }
}

/// Every axis id `0..n`, with `first` (when given) ahead of the others.
pub open spec fn ids_first(n: int, first: Option<int>) -> Seq<u32> {
    match first {
        Some(f) => seq![f as u32] + ids_without(n, f),
        None => ids_without(n, -1),
    }
}

/// The name is `Z`, in either case.
pub open spec fn is_z_name(name: Seq<u8>) -> bool {
    name.len() == 1 && (name[0] == 90u8 || name[0] == 122u8)
}

/// Index of the first axis named `Z` among the first `k`.
pub open spec fn first_z<V>(axes: Seq<Axis<V>>, k: int) -> Option<int>
    decreases k,
{
    if k <= 0 {
        None
    } else {
        match first_z(axes, k - 1) {
            Some(i) => Some(i),
            None => if is_z_name(axes[k - 1].physical_name@) {
                Some(k - 1)
            } else {
                None
            },
        }
    }
}

/// Index of the first of the first `k` offsets that belongs to axis `axis_id`.
pub open spec fn first_offset<V>(o: Seq<AxisOffset<V>>, axis_id: u32, k: int) -> Option<int>
    decreases k,
{
    if k <= 0 {
        None
    } else {
        match first_offset(o, axis_id, k - 1) {
            Some(i) => Some(i),
            None => if o[k - 1].axis_id == axis_id {
                Some(k - 1)
            } else {
                None
            },
        }
    }
}

proof fn lemma_first_offset_stable<V>(o: Seq<AxisOffset<V>>, axis_id: u32, j: int, m: int)
    requires
        0 <= j <= m,
        first_offset(o, axis_id, j) is Some,
    ensures
        first_offset(o, axis_id, m) == first_offset(o, axis_id, j),
    decreases m - j,
{
    if m > j {
        lemma_first_offset_stable(o, axis_id, j, m - 1);
    }
}

fn find_offset<V: Copy>(o: &Vec<AxisOffset<V>>, axis_id: u32) -> (r: Option<usize>)
    ensures
        match first_offset(o@, axis_id, o@.len() as int) {
            Some(k) => r is Some && r->0 as int == k && 0 <= k < o@.len(),
            None => r is None,
        },
{
    let mut k: usize = 0;
    while k < o.len()
        invariant
            0 <= k <= o@.len(),
            first_offset(o@, axis_id, k as int) is None,
        decreases o@.len() - k,
    {
        if o[k].axis_id == axis_id {
            proof {
                lemma_first_offset_stable(o@, axis_id, k + 1, o@.len() as int);
            }
            return Some(k);
        }
        k = k + 1;
    }
    None
}

impl<V: Copy> Machine<V> {
    /// The two agree on e-stop, frames and homing state.
    pub open spec fn same_settings(&self, o: &Self) -> bool {
        &&& self.estop == o.estop && self.work_offsets == o.work_offsets
        &&& self.active_wcs == o.active_wcs && self.is_homing == o.is_homing
        &&& self.homing_sequence == o.homing_sequence && self.homing_index == o.homing_index
        &&& self.homing_feed == o.homing_feed && self.homing_rapid == o.homing_rapid
    }

    /// The two agree on e-stop and homing state.
    pub open spec fn same_homing(&self, o: &Self) -> bool {
        &&& self.estop == o.estop && self.is_homing == o.is_homing
        &&& self.homing_sequence == o.homing_sequence && self.homing_index == o.homing_index
        &&& self.homing_feed == o.homing_feed && self.homing_rapid == o.homing_rapid
    }

    pub open spec fn wf(&self) -> bool {
        &&& forall|i: int| 0 <= i < self.axes@.len() ==> (#[trigger] self.axes@[i]).id == i
        &&& self.axes@.len() <= u32::MAX
        &&& forall|c: int| 0 <= c < self.channels@.len() ==> (#[trigger] self.channels@[c]).wf()
        &&& self.work_offsets@.len() >= 7
        &&& self.active_wcs < self.work_offsets@.len()
        &&& forall|k: int|
            0 <= k < self.homing_sequence@.len() ==> #[trigger] self.homing_sequence@[k]
                < self.axes@.len()
        &&& self.homing_index <= self.homing_sequence@.len()
        &&& self.estop ==> forall|c: int|
            0 <= c < self.channels@.len() ==> !(#[trigger] self.channels@[c]).is_running
                && self.channels@[c].pending@.len() == 0
    }

    /// A machine without axes or channels, with the default frames, G54
    /// active, and `homing_feed` for homing.
    pub fn new(homing_feed: V) -> (r: Self)
        ensures
            r.wf(),
            r.axes@.len() == 0 && r.channels@.len() == 0,
            !r.estop && r.active_wcs == 0 && is_default_frames(r.work_offsets@),
            !r.is_homing && r.homing_sequence@.len() == 0 && r.homing_index == 0,
            r.homing_feed == homing_feed && !r.homing_rapid,
    {
        Machine {
            axes: Vec::new(),
            channels: Vec::new(),
            estop: false,
            work_offsets: default_work_offsets(),
            active_wcs: 0,
            is_homing: false,
            homing_sequence: Vec::new(),
            homing_index: 0,
            homing_feed,
            homing_rapid: false,
        }
    }

    /// Removes every axis and channel and restores the default frames; the
    /// e-stop flag stays as it is.
    pub fn clear_config(&mut self, homing_feed: V)
        ensures
            final(self).wf(),
            final(self).axes@.len() == 0 && final(self).channels@.len() == 0,
            final(self).estop == old(self).estop,
            final(self).active_wcs == 0 && is_default_frames(final(self).work_offsets@),
            !final(self).is_homing && final(self).homing_sequence@.len() == 0,
            final(self).homing_index == 0,
            final(self).homing_feed == homing_feed && !final(self).homing_rapid,
    {
        self.axes = Vec::new();
        self.channels = Vec::new();
        self.work_offsets = default_work_offsets();
        self.active_wcs = 0;
        self.is_homing = false;
        self.homing_sequence = Vec::new();
        self.homing_index = 0;
        self.homing_feed = homing_feed;
        self.homing_rapid = false;
    }

    /// Adds an axis at rest at `zero`, not homed, and gives it offset `zero`
    /// in every frame. Returns its id, the number of axes before.
    pub fn add_axis(&mut self, name: Vec<u8>, kind: AxisType, min: V, max: V, zero: V) -> (r: u32)
        requires
            old(self).wf(),
            old(self).axes@.len() < u32::MAX,
        ensures
            final(self).wf(),
            r == old(self).axes@.len(),
            final(self).axes@.len() == old(self).axes@.len() + 1,
            forall|i: int| 0 <= i < old(self).axes@.len() ==> final(self).axes@[i] == old(self).axes@[i],
            ({
                let a = final(self).axes@[r as int];
                &&& a.id == r && a.physical_name@ == name@ && a.axis_type == kind
                &&& a.min_range == min && a.max_range == max
                &&& a.position == zero && a.target == zero && a.velocity == zero
                &&& a.accel == zero && a.machine_zero == zero && !a.homed && !a.invert
            }),
            final(self).work_offsets@.len() == old(self).work_offsets@.len(),
            forall|w: int| 0 <= w < final(self).work_offsets@.len() ==> {
                &&& (#[trigger] final(self).work_offsets@[w]).label == old(self).work_offsets@[w].label
                &&& final(self).work_offsets@[w].offsets@ == old(self).work_offsets@[w].offsets@.push(
                    AxisOffset { axis_id: r, value: zero },
                )
            },
            final(self).channels == old(self).channels,
            final(self).active_wcs == old(self).active_wcs,
            final(self).same_homing(&*old(self)),
    {
        let id = self.axes.len() as u32;
        let mut w: usize = 0;
        while w < self.work_offsets.len()
            invariant
                0 <= w <= self.work_offsets@.len(),
                self.work_offsets@.len() == old(self).work_offsets@.len(),
                self.axes == old(self).axes,
                self.channels == old(self).channels,
                self.active_wcs == old(self).active_wcs,
                self.homing_sequence == old(self).homing_sequence,
                self.homing_index == old(self).homing_index,
                self.same_homing(&*old(self)),
                old(self).wf(),
                id == old(self).axes@.len(),
                forall|v: int| 0 <= v < w ==> {
                    &&& (#[trigger] self.work_offsets@[v]).label == old(self).work_offsets@[v].label
                    &&& self.work_offsets@[v].offsets@ == old(self).work_offsets@[v].offsets@.push(
                        AxisOffset { axis_id: id, value: zero },
                    )
                },
                forall|v: int| w <= v < self.work_offsets@.len() ==> #[trigger] self.work_offsets@[v]
                    == old(self).work_offsets@[v],
            decreases self.work_offsets@.len() - w,
        {
            self.work_offsets[w].offsets.push(AxisOffset { axis_id: id, value: zero });
            w = w + 1;
        }
        self.axes.push(
            Axis {
                id,
                physical_name: name,
                position: zero,
                target: zero,
                axis_type: kind,
                min_range: min,
                max_range: max,
                homed: false,
                velocity: zero,
                accel: zero,
                invert: false,
                machine_zero: zero,
            },
        );
        assert(forall|i: int| 0 <= i < self.axes@.len() ==> (#[trigger] self.axes@[i]).id == i);
        id
    }

    /// Sets or clears the e-stop. Setting it stops every channel and empties
    /// its queue, and freezes every axis where it is: its target becomes its
    /// position and its velocity `zero`.
    pub fn set_estop(&mut self, on: bool, zero: V)
        requires
            old(self).wf(),
        ensures
            final(self).wf(),
            final(self).estop == on,
            final(self).axes@.len() == old(self).axes@.len(),
            final(self).channels@.len() == old(self).channels@.len(),
            on ==> forall|i: int| 0 <= i < final(self).axes@.len() ==> {
                let a = #[trigger] final(self).axes@[i];
                let o = old(self).axes@[i];
                &&& a.target == o.position && a.position == o.position && a.velocity == zero
                &&& a.id == o.id && a.axis_type == o.axis_type && a.homed == o.homed
                &&& a.physical_name == o.physical_name && a.min_range == o.min_range
                &&& a.max_range == o.max_range && a.accel == o.accel
                &&& a.invert == o.invert && a.machine_zero == o.machine_zero
            },
            on ==> forall|c: int| 0 <= c < final(self).channels@.len() ==> {
                let ch = #[trigger] final(self).channels@[c];
                &&& !ch.is_running && !ch.paused && ch.pending@.len() == 0
                &&& !ch.pause_pending && !ch.step_once && ch.active_pc is None
                &&& ch.pc == old(self).channels@[c].pc
                &&& ch.modal == old(self).channels@[c].modal
                &&& ch.same_setup(&old(self).channels@[c])
                &&& ch.program == old(self).channels@[c].program
                &&& ch.programmed_work@ == old(self).channels@[c].programmed_work@
                &&& ch.comp_link == old(self).channels@[c].comp_link
                &&& ch.single_block == old(self).channels@[c].single_block
            },
            !on ==> final(self).axes == old(self).axes && final(self).channels == old(self).channels,
            final(self).work_offsets == old(self).work_offsets,
            final(self).active_wcs == old(self).active_wcs,
            final(self).is_homing == old(self).is_homing,
    {
        self.estop = on;
        if !on {
            return;
        }
        let mut c: usize = 0;
        while c < self.channels.len()
            invariant
                0 <= c <= self.channels@.len(),
                self.channels@.len() == old(self).channels@.len(),
                self.axes == old(self).axes,
                self.work_offsets == old(self).work_offsets,
                self.active_wcs == old(self).active_wcs,
                self.homing_sequence == old(self).homing_sequence,
                self.homing_index == old(self).homing_index,
                self.is_homing == old(self).is_homing,
                self.estop == on,
                old(self).wf(),
                forall|k: int| 0 <= k < self.channels@.len() ==> (#[trigger] self.channels@[k]).wf(),
                forall|k: int| 0 <= k < c ==> {
                    let ch = #[trigger] self.channels@[k];
                    &&& !ch.is_running && !ch.paused && ch.pending@.len() == 0
                    &&& !ch.pause_pending && !ch.step_once && ch.active_pc is None
                    &&& ch.pc == old(self).channels@[k].pc
                    &&& ch.modal == old(self).channels@[k].modal
                    &&& ch.same_setup(&old(self).channels@[k])
                    &&& ch.program == old(self).channels@[k].program
                    &&& ch.programmed_work@ == old(self).channels@[k].programmed_work@
                    &&& ch.comp_link == old(self).channels@[k].comp_link
                    &&& ch.single_block == old(self).channels@[k].single_block
                },
                forall|k: int| c <= k < self.channels@.len() ==> #[trigger] self.channels@[k]
                    == old(self).channels@[k],
            decreases self.channels@.len() - c,
        {
            self.channels[c].estop();
            c = c + 1;
        }
        let mut i: usize = 0;
        while i < self.axes.len()
            invariant
                0 <= i <= self.axes@.len(),
                self.axes@.len() == old(self).axes@.len(),
                self.axes@.len() <= u32::MAX,
                self.channels@.len() == old(self).channels@.len(),
                self.work_offsets == old(self).work_offsets,
                self.active_wcs == old(self).active_wcs,
                self.homing_sequence == old(self).homing_sequence,
                self.homing_index == old(self).homing_index,
                self.is_homing == old(self).is_homing,
                self.estop == on,
                old(self).wf(),
                forall|k: int| 0 <= k < self.channels@.len() ==> (#[trigger] self.channels@[k]).wf(),
                forall|k: int| 0 <= k < self.channels@.len() ==> {
                    let ch = #[trigger] self.channels@[k];
                    &&& !ch.is_running && !ch.paused && ch.pending@.len() == 0
                    &&& !ch.pause_pending && !ch.step_once && ch.active_pc is None
                    &&& ch.pc == old(self).channels@[k].pc
                    &&& ch.modal == old(self).channels@[k].modal
                    &&& ch.same_setup(&old(self).channels@[k])
                    &&& ch.program == old(self).channels@[k].program
                    &&& ch.programmed_work@ == old(self).channels@[k].programmed_work@
                    &&& ch.comp_link == old(self).channels@[k].comp_link
                    &&& ch.single_block == old(self).channels@[k].single_block
                },
                forall|k: int| 0 <= k < i ==> {
                    let a = #[trigger] self.axes@[k];
                    let o = old(self).axes@[k];
                    &&& a.target == o.position && a.position == o.position && a.velocity == zero
                    &&& a.id == o.id && a.axis_type == o.axis_type && a.homed == o.homed
                    &&& a.physical_name == o.physical_name && a.min_range == o.min_range
                    &&& a.max_range == o.max_range && a.accel == o.accel
                    &&& a.invert == o.invert && a.machine_zero == o.machine_zero
                },
                forall|k: int| i <= k < self.axes@.len() ==> #[trigger] self.axes@[k] == old(
                    self,
                ).axes@[k],
            decreases self.axes@.len() - i,
        {
            let p = self.axes[i].position;
            self.axes[i].target = p;
            self.axes[i].velocity = zero;
            i = i + 1;
        }
    }

    /// Makes frame `index` active, when it exists.
    pub fn set_active_wcs(&mut self, index: usize)
        requires
            old(self).wf(),
        ensures
            final(self).wf(),
            final(self).active_wcs == if index < old(self).work_offsets@.len() {
                index
            } else {
                old(self).active_wcs
            },
            final(self).work_offsets == old(self).work_offsets,
            final(self).axes == old(self).axes,
            final(self).channels == old(self).channels,
            final(self).same_homing(&*old(self)),
    {
        if index < self.work_offsets.len() {
            self.active_wcs = index;
        }
    }

    /// Adds a frame labelled `label` with offset `zero` for every axis, and
    /// returns its index.
    pub fn add_work_offset(&mut self, label: Vec<u8>, zero: V) -> (r: usize)
        requires
            old(self).wf(),
            old(self).work_offsets@.len() < usize::MAX,
        ensures
            final(self).wf(),
            r == old(self).work_offsets@.len(),
            final(self).work_offsets@.len() == r + 1,
            forall|w: int| 0 <= w < r ==> final(self).work_offsets@[w] == old(self).work_offsets@[w],
            final(self).work_offsets@[r as int].label@ == label@,
            final(self).work_offsets@[r as int].offsets@.len() == old(self).axes@.len(),
            forall|i: int|
                0 <= i < old(self).axes@.len() ==> #[trigger] final(self).work_offsets@[r as int].offsets@[i]
                    == (AxisOffset { axis_id: i as u32, value: zero }),
            final(self).axes == old(self).axes,
            final(self).channels == old(self).channels,
            final(self).active_wcs == old(self).active_wcs,
            final(self).same_homing(&*old(self)),
    {
        let mut offsets: Vec<AxisOffset<V>> = Vec::new();
        let mut i: usize = 0;
        while i < self.axes.len()
            invariant
                0 <= i <= self.axes@.len(),
                old(self).wf(),
                self.axes == old(self).axes,
                offsets@.len() == i,
                forall|k: int| 0 <= k < i ==> #[trigger] offsets@[k] == (AxisOffset { axis_id: k as u32, value: zero }),
            decreases self.axes@.len() - i,
        {
            offsets.push(AxisOffset { axis_id: self.axes[i].id, value: zero });
            i = i + 1;
        }
        self.work_offsets.push(WorkOffset { label, offsets });
        self.work_offsets.len() - 1
    }

    /// Sets the offset of axis `axis_id` in frame `wcs_index`, when both exist.
    pub fn set_work_zero(&mut self, axis_id: u32, wcs_index: usize, value: V)
        requires
            old(self).wf(),
        ensures
            final(self).wf(),
            final(self).work_offsets@.len() == old(self).work_offsets@.len(),
            forall|w: int| 0 <= w < final(self).work_offsets@.len() && w != wcs_index ==> #[trigger] final(self).work_offsets@[w] == old(self).work_offsets@[w],
            wcs_index < old(self).work_offsets@.len() ==> {
                let o = old(self).work_offsets@[wcs_index as int];
                let f = final(self).work_offsets@[wcs_index as int];
                &&& f.label == o.label
                &&& f.offsets@ == match first_offset(o.offsets@, axis_id, o.offsets@.len() as int) {
                    Some(k) => o.offsets@.update(k, AxisOffset { axis_id, value }),
                    None => o.offsets@,
                }
            },
            final(self).axes == old(self).axes,
            final(self).channels == old(self).channels,
            final(self).active_wcs == old(self).active_wcs,
            final(self).same_homing(&*old(self)),
    {
        if wcs_index < self.work_offsets.len() {
            let found = find_offset(&self.work_offsets[wcs_index].offsets, axis_id);
            if let Some(k) = found {
                self.work_offsets[wcs_index].offsets.set(k, AxisOffset { axis_id, value });
            }
        }
    }

    /// The offset of axis `axis_id` in the active frame, if it has one.
    pub fn wcs_offset(&self, axis_id: u32) -> (r: Option<V>)
        requires
            self.wf(),
        ensures
            ({
                let o = self.work_offsets@[self.active_wcs as int].offsets@;
                r == match first_offset(o, axis_id, o.len() as int) {
                    Some(k) => Some(o[k].value),
                    None => None,
                }
            }),
    {
        match find_offset(&self.work_offsets[self.active_wcs].offsets, axis_id) {
            Some(k) => Some(self.work_offsets[self.active_wcs].offsets[k].value),
            None => None,
        }
    }

    /// Starts homing the axes of `order`, as `homing_order` reduces it, at
    /// `feed` (or each axis's rapid feed when `rapid`). An order that names no
    /// axis ends homing. Nothing happens under e-stop.
    pub fn start_homing(&mut self, order: Vec<u32>, rapid: bool, feed: V)
        requires
            old(self).wf(),
        ensures
            final(self).wf(),
            old(self).estop ==> final(self).is_homing == old(self).is_homing
                && final(self).homing_sequence == old(self).homing_sequence
                && final(self).homing_index == old(self).homing_index,
            !old(self).estop ==> {
                let h = homing_order(order@, old(self).axes@.len() as int);
                &&& final(self).homing_sequence@ == h
                &&& final(self).homing_index == 0
                &&& final(self).is_homing == (h.len() > 0)
                &&& h.len() > 0 ==> final(self).homing_rapid == rapid && final(self).homing_feed
                    == feed
            },
            final(self).axes == old(self).axes,
            final(self).channels == old(self).channels,
            final(self).estop == old(self).estop,
            final(self).work_offsets == old(self).work_offsets,
            final(self).active_wcs == old(self).active_wcs,
    {
        if self.estop {
            return;
        }
        let n = self.axes.len();
        let mut seq: Vec<u32> = Vec::new();
        let mut k: usize = 0;
        while k < order.len()
            invariant
                0 <= k <= order@.len(),
                n == self.axes@.len(),
                seq@ == homing_order(order@.take(k as int), n as int),
                forall|j: int| 0 <= j < seq@.len() ==> #[trigger] seq@[j] < n,
            decreases order@.len() - k,
        {
            assert(order@.take(k + 1).drop_last() =~= order@.take(k as int));
            let id = order[k];
            if (id as usize) < n && !(seq.len() > 0 && seq[seq.len() - 1] == id) {
                seq.push(id);
            }
            k = k + 1;
        }
        assert(order@.take(k as int) =~= order@);
        if seq.len() == 0 {
            self.is_homing = false;
            self.homing_sequence = Vec::new();
            self.homing_index = 0;
            return;
        }
        self.is_homing = true;
        self.homing_sequence = seq;
        self.homing_index = 0;
        self.homing_rapid = rapid;
        self.homing_feed = feed;
    }

    /// Every axis loses its homed flag and targets `zero`.
    fn unhome_all(&mut self, zero: V)
        requires
            old(self).wf(),
        ensures
            final(self).wf(),
            final(self).axes@.len() == old(self).axes@.len(),
            forall|i: int| 0 <= i < final(self).axes@.len() ==> {
                let a = #[trigger] final(self).axes@[i];
                let o = old(self).axes@[i];
                &&& a == (Axis { target: zero, homed: false, ..o })
            },
            final(self).channels == old(self).channels,
            final(self).estop == old(self).estop,
            final(self).work_offsets == old(self).work_offsets,
            final(self).active_wcs == old(self).active_wcs,
            final(self).is_homing == old(self).is_homing,
            final(self).homing_sequence == old(self).homing_sequence,
            final(self).homing_index == old(self).homing_index,
    {
        let mut i: usize = 0;
        while i < self.axes.len()
            invariant
                0 <= i <= self.axes@.len(),
                self.axes@.len() == old(self).axes@.len(),
                old(self).wf(),
                self.channels == old(self).channels,
                self.estop == old(self).estop,
                self.work_offsets == old(self).work_offsets,
                self.active_wcs == old(self).active_wcs,
                self.is_homing == old(self).is_homing,
                self.homing_sequence == old(self).homing_sequence,
                self.homing_index == old(self).homing_index,
                forall|k: int| 0 <= k < i ==> {
                    let a = #[trigger] self.axes@[k];
                    let o = old(self).axes@[k];
                    &&& a == (Axis { target: zero, homed: false, ..o })
                },
                forall|k: int| i <= k < self.axes@.len() ==> #[trigger] self.axes@[k] == old(
                    self,
                ).axes@[k],
            decreases self.axes@.len() - i,
        {
            self.axes[i].target = zero;
            self.axes[i].homed = false;
            i = i + 1;
        }
    }

    /// The ids `0..n` with `first` ahead, as `ids_first` describes.
    fn ordered_ids(n: usize, first: Option<usize>) -> (r: Vec<u32>)
        requires
            n <= u32::MAX,
            first is Some ==> first->0 < n,
        ensures
            r@ == ids_first(
                n as int,
                match first {
                    Some(f) => Some(f as int),
                    None => None,
                },
            ),
    {
        let skip: Option<usize> = first;
        let mut r: Vec<u32> = Vec::new();
        let mut k: usize = 0;
        let ghost sk: int = match first {
            Some(f) => f as int,
            None => -1,
        };
        while k < n
            invariant
                0 <= k <= n,
                n <= u32::MAX,
                skip == first,
                sk == match first {
                    Some(f) => f as int,
                    None => -1,
                },
                r@ == ids_without(k as int, sk),
            decreases n - k,
        {
            let skipped = match skip {
                Some(f) => f == k,
                None => false,
            };
            if !skipped {
                r.push(k as u32);
            }
            k = k + 1;
        }
        match first {
            Some(f) => {
                let mut out: Vec<u32> = vec![f as u32];
                out.append(&mut r);
                assert(out@ =~= seq![f as u32] + ids_without(n as int, sk));
                out
            },
            None => r,
        }
    }

    /// Homes every axis, the first axis named `Z` first, at `feed`. Every axis
    /// loses its homed flag and targets `zero`. Nothing happens under e-stop.
    pub fn home_all(&mut self, feed: V, zero: V)
        requires
            old(self).wf(),
        ensures
            final(self).wf(),
            old(self).estop ==> final(self).axes == old(self).axes && final(self).is_homing
                == old(self).is_homing && final(self).homing_sequence == old(
                self,
            ).homing_sequence,
            !old(self).estop ==> {
                let h = homing_order(
                    ids_first(old(self).axes@.len() as int, first_z(old(self).axes@, old(self).axes@.len() as int)),
                    old(self).axes@.len() as int,
                );
                &&& final(self).homing_sequence@ == h
                &&& final(self).homing_index == 0
                &&& final(self).is_homing == (h.len() > 0)
                &&& h.len() > 0 ==> !final(self).homing_rapid && final(self).homing_feed == feed
                &&& forall|i: int|
                    0 <= i < final(self).axes@.len() ==> #[trigger] final(self).axes@[i] == (Axis {
                        target: zero,
                        homed: false,
                        ..old(self).axes@[i]
                    })
            },
            final(self).axes@.len() == old(self).axes@.len(),
            final(self).channels == old(self).channels,
    {
        if self.estop {
            return;
        }
        let n = self.axes.len();
        let mut first: Option<usize> = None;
        let mut i: usize = 0;
        while i < n
            invariant
                0 <= i <= n,
                n == self.axes@.len(),
                match first_z(self.axes@, i as int) {
                    Some(z) => first is Some && first->0 as int == z && z < i,
                    None => first is None,
                },
            decreases n - i,
        {
            if first.is_none() {
                let name = &self.axes[i].physical_name;
                if name.len() == 1 && (name[0] == 90u8 || name[0] == 122u8) {
                    first = Some(i);
                }
            }
            i = i + 1;
        }
        let order = Self::ordered_ids(n, first);
        self.unhome_all(zero);
        self.start_homing(order, false, feed);
    }

    /// Homes every axis, axis `primary` first when it exists, at `feed` or
    /// rapid. Every axis loses its homed flag and targets `zero`. Nothing
    /// happens under e-stop.
    pub fn home_all_ordered(&mut self, primary: i32, rapid: bool, feed: V, zero: V)
        requires
            old(self).wf(),
        ensures
            final(self).wf(),
            old(self).estop ==> final(self).axes == old(self).axes && final(self).is_homing
                == old(self).is_homing && final(self).homing_sequence == old(
                self,
            ).homing_sequence,
            !old(self).estop ==> {
                let n = old(self).axes@.len() as int;
                let h = homing_order(
                    ids_first(n, if 0 <= primary < n { Some(primary as int) } else { None }),
                    n,
                );
                &&& final(self).homing_sequence@ == h
                &&& final(self).homing_index == 0
                &&& final(self).is_homing == (h.len() > 0)
                &&& h.len() > 0 ==> final(self).homing_rapid == rapid && final(self).homing_feed == feed
                &&& forall|i: int|
                    0 <= i < final(self).axes@.len() ==> #[trigger] final(self).axes@[i] == (Axis {
                        target: zero,
                        homed: false,
                        ..old(self).axes@[i]
                    })
            },
            final(self).axes@.len() == old(self).axes@.len(),
            final(self).channels == old(self).channels,
    {
        if self.estop {
            return;
        }
        let n = self.axes.len();
        let first: Option<usize> = if primary >= 0 && (primary as usize) < n {
            Some(primary as usize)
        } else {
            None
        };
        let order = Self::ordered_ids(n, first);
        self.unhome_all(zero);
        self.start_homing(order, rapid, feed);
    }

    /// Homes one axis, when it exists, at `feed`; it loses its homed flag and
    /// targets `zero`. Nothing happens under e-stop.
    pub fn home_axis(&mut self, axis_id: u32, feed: V, zero: V)
        requires
            old(self).wf(),
        ensures
            final(self).wf(),
            old(self).estop || axis_id >= old(self).axes@.len() ==> final(self).axes == old(self).axes
                && final(self).is_homing == old(self).is_homing && final(self).homing_sequence
                == old(self).homing_sequence,
            !old(self).estop && axis_id < old(self).axes@.len() ==> {
                &&& final(self).homing_sequence@ == seq![axis_id]
                &&& final(self).homing_index == 0 && final(self).is_homing
                &&& !final(self).homing_rapid && final(self).homing_feed == feed
                &&& final(self).axes@[axis_id as int] == (Axis {
                    target: zero,
                    homed: false,
                    ..old(self).axes@[axis_id as int]
                })
                &&& forall|i: int|
                    0 <= i < final(self).axes@.len() && i != axis_id
                        ==> #[trigger] final(self).axes@[i] == old(self).axes@[i]
            },
            final(self).axes@.len() == old(self).axes@.len(),
            final(self).channels == old(self).channels,
    {
        if self.estop || axis_id as usize >= self.axes.len() {
            return;
        }
        self.axes[axis_id as usize].target = zero;
        self.axes[axis_id as usize].homed = false;
        let order = vec![axis_id];
        assert(order@.drop_last() =~= Seq::<u32>::empty());
        assert(order@.len() == 1 && order@.last() == axis_id);
        assert(homing_order(order@.drop_last(), self.axes@.len() as int) =~= Seq::<u32>::empty());
        assert(homing_order(order@, self.axes@.len() as int) =~= seq![axis_id]);
        self.start_homing(order, false, feed);
    }

    /// The sequencer's step for a tick: the axis to drive now, or the end of
    /// a sequence whose axes have all arrived (homing then stops).
    pub fn homing_step(&mut self) -> (r: Option<u32>)
        requires
            old(self).wf(),
        ensures
            final(self).wf(),
            old(self).is_homing && old(self).homing_index < old(self).homing_sequence@.len() ==> r
                == Some(old(self).homing_sequence@[old(self).homing_index as int]) && final(self).is_homing
                && final(self).homing_sequence == old(self).homing_sequence && final(self).homing_index == old(self).homing_index,
            old(self).is_homing && old(self).homing_index >= old(self).homing_sequence@.len() ==> r is None
                && !final(self).is_homing && final(self).homing_sequence@.len() == 0
                && final(self).homing_index == 0,
            !old(self).is_homing ==> r is None && !final(self).is_homing
                && final(self).homing_sequence == old(self).homing_sequence,
            r is Some ==> r->0 < final(self).axes@.len(),
            final(self).axes == old(self).axes,
            final(self).channels == old(self).channels,
            final(self).estop == old(self).estop && final(self).work_offsets == old(self).work_offsets,
            final(self).active_wcs == old(self).active_wcs,
            final(self).homing_feed == old(self).homing_feed,
            final(self).homing_rapid == old(self).homing_rapid,
    {
        if !self.is_homing {
            return None;
        }
        if self.homing_index >= self.homing_sequence.len() {
            self.is_homing = false;
            self.homing_sequence = Vec::new();
            self.homing_index = 0;
            return None;
        }
        Some(self.homing_sequence[self.homing_index])
    }

    /// The axis being homed has arrived: it is homed and pinned at `zero`, and
    /// the sequencer moves on; after the last axis homing ends.
    pub fn homing_arrived(&mut self, zero: V)
        requires
            old(self).wf(),
            old(self).is_homing,
            old(self).homing_index < old(self).homing_sequence@.len(),
        ensures
            final(self).wf(),
            ({
                let id = old(self).homing_sequence@[old(self).homing_index as int] as int;
                let a = final(self).axes@[id];
                &&& a.homed && a.position == zero && a.target == zero && a.velocity == zero
                &&& final(self).axes@.len() == old(self).axes@.len()
                &&& forall|i: int| 0 <= i < final(self).axes@.len() && i != id ==> #[trigger] final(self).axes@[i] == old(self).axes@[i]
            }),
            old(self).homing_index + 1 < old(self).homing_sequence@.len() ==> final(self).is_homing
                && final(self).homing_index == old(self).homing_index + 1
                && final(self).homing_sequence == old(self).homing_sequence,
            old(self).homing_index + 1 >= old(self).homing_sequence@.len() ==> !final(self).is_homing
                && final(self).homing_index == 0 && final(self).homing_sequence@.len() == 0,
            final(self).channels == old(self).channels,
            final(self).estop == old(self).estop && final(self).work_offsets == old(self).work_offsets,
            final(self).active_wcs == old(self).active_wcs,
            final(self).homing_feed == old(self).homing_feed,
            final(self).homing_rapid == old(self).homing_rapid,
    {
        let len = self.homing_sequence.len();
        let id = self.homing_sequence[self.homing_index] as usize;
        self.axes[id].homed = true;
        self.axes[id].position = zero;
        self.axes[id].target = zero;
        self.axes[id].velocity = zero;
        self.homing_index = self.homing_index + 1;
        if self.homing_index >= len {
            self.is_homing = false;
            self.homing_sequence = Vec::new();
            self.homing_index = 0;
        }
    }

    pub fn set_axis_accel(&mut self, axis_id: u32, accel: V)
        requires
            old(self).wf(),
        ensures
            final(self).wf(),
            final(self).axes@.len() == old(self).axes@.len(),
            axis_id < old(self).axes@.len() ==> final(self).axes@[axis_id as int].accel == accel,
            forall|i: int|
                0 <= i < final(self).axes@.len() && i != axis_id ==> #[trigger] final(self).axes@[i]
                    == old(self).axes@[i],
            final(self).channels == old(self).channels,
            final(self).same_settings(&*old(self)),
    {
        if (axis_id as usize) < self.axes.len() {
            self.axes[axis_id as usize].accel = accel;
        }
    }

    /// Sets the display offset of an axis' machine zero.
    pub fn set_axis_machine_zero(&mut self, axis_id: u32, machine_zero: V)
        requires
            old(self).wf(),
        ensures
            final(self).wf(),
            final(self).axes@.len() == old(self).axes@.len(),
            axis_id < old(self).axes@.len() ==> final(self).axes@[axis_id as int].machine_zero
                == machine_zero,
            forall|i: int|
                0 <= i < final(self).axes@.len() && i != axis_id ==> #[trigger] final(self).axes@[i]
                    == old(self).axes@[i],
            final(self).channels == old(self).channels,
            final(self).same_settings(&*old(self)),
    {
        if (axis_id as usize) < self.axes.len() {
            self.axes[axis_id as usize].machine_zero = machine_zero;
        }
    }

    /// Sets whether an axis is shown inverted.
    pub fn set_axis_invert(&mut self, axis_id: u32, invert: bool)
        requires
            old(self).wf(),
        ensures
            final(self).wf(),
            final(self).axes@.len() == old(self).axes@.len(),
            axis_id < old(self).axes@.len() ==> final(self).axes@[axis_id as int].invert == invert,
            forall|i: int|
                0 <= i < final(self).axes@.len() && i != axis_id ==> #[trigger] final(self).axes@[i]
                    == old(self).axes@[i],
            final(self).channels == old(self).channels,
            final(self).same_settings(&*old(self)),
    {
        if (axis_id as usize) < self.axes.len() {
            self.axes[axis_id as usize].invert = invert;
        }
    }

    /// The machine as observers see it: axes and frames copied, each channel
    /// as `Channel::status` shows it.
    pub fn full_state(&self, zero: V) -> (r: MachineState<V>)
        ensures
            r.estop == self.estop && r.active_wcs == self.active_wcs,
            r.is_homing == self.is_homing,
            r.axes@.len() == self.axes@.len(),
            forall|i: int| 0 <= i < r.axes@.len() ==> same_axis(#[trigger] r.axes@[i], self.axes@[i]),
            r.work_offsets@.len() == self.work_offsets@.len(),
            forall|w: int|
                0 <= w < r.work_offsets@.len() ==> same_frame(
                    #[trigger] r.work_offsets@[w],
                    self.work_offsets@[w],
                ),
            r.channels@.len() == self.channels@.len(),
            forall|c: int|
                0 <= c < r.channels@.len() ==> self.channels@[c].shown_by(
                    &#[trigger] r.channels@[c],
                    zero,
                ),
    {
        let mut channels: Vec<ChannelStatus<V>> = Vec::new();
        let mut c: usize = 0;
        while c < self.channels.len()
            invariant
                0 <= c <= self.channels@.len(),
                channels@.len() == c,
                forall|k: int|
                    0 <= k < c ==> self.channels@[k].shown_by(&#[trigger] channels@[k], zero),
            decreases self.channels@.len() - c,
        {
            channels.push(self.channels[c].status(zero));
            c = c + 1;
        }
        let mut axes: Vec<Axis<V>> = Vec::new();
        let mut i: usize = 0;
        while i < self.axes.len()
            invariant
                0 <= i <= self.axes@.len(),
                axes@.len() == i,
                forall|k: int| 0 <= k < i ==> same_axis(#[trigger] axes@[k], self.axes@[k]),
            decreases self.axes@.len() - i,
        {
            axes.push(copy_axis(&self.axes[i]));
            i = i + 1;
        }
        let mut work_offsets: Vec<WorkOffset<V>> = Vec::new();
        let mut w: usize = 0;
        while w < self.work_offsets.len()
            invariant
                0 <= w <= self.work_offsets@.len(),
                work_offsets@.len() == w,
                forall|k: int|
                    0 <= k < w ==> same_frame(#[trigger] work_offsets@[k], self.work_offsets@[k]),
            decreases self.work_offsets@.len() - w,
        {
            work_offsets.push(copy_frame(&self.work_offsets[w]));
            w = w + 1;
        }
        MachineState {
            axes,
            channels,
            estop: self.estop,
            active_wcs: self.active_wcs,
            work_offsets,
            is_homing: self.is_homing,
        }
    }

    /// Loads program text into channel `channel_index`, when it exists: its
    /// lines, trimmed and upper-cased, start from the first, with the
    /// programmed-work cache empty. The channel runs unless the e-stop is set.
    pub fn load_program(&mut self, channel_index: usize, code: &str)
        requires
            old(self).wf(),
        ensures
            final(self).wf(),
            final(self).channels@.len() == old(self).channels@.len(),
            forall|c: int|
                0 <= c < final(self).channels@.len() && c != channel_index
                    ==> #[trigger] final(self).channels@[c] == old(self).channels@[c],
            channel_index < old(self).channels@.len() ==> {
                let ch = final(self).channels@[channel_index as int];
                let o = old(self).channels@[channel_index as int];
                &&& ch.program@.map_values(|l: Vec<u8>| l@) == program_lines(code@)
                &&& ch.pc == 0 && ch.active_pc is None && !ch.paused
                &&& ch.is_running == !old(self).estop
                &&& !ch.step_once && !ch.pause_pending && ch.single_block == o.single_block
                &&& ch.programmed_work@ == Map::<u32, V>::empty()
                &&& ch.comp_link is None
                &&& ch.modal == (ModalState {
                    current_motion: 0,
                    comp_entry_pending: false,
                    ..o.modal
                })
                &&& ch.pending@ == o.pending@
                &&& ch.same_setup(&o)
            },
            final(self).axes == old(self).axes,
            final(self).estop == old(self).estop,
            final(self).work_offsets == old(self).work_offsets,
            final(self).active_wcs == old(self).active_wcs,
            final(self).is_homing == old(self).is_homing,
            final(self).homing_sequence == old(self).homing_sequence,
            final(self).homing_index == old(self).homing_index,
            final(self).estop ==> forall|c: int|
                0 <= c < final(self).channels@.len() ==> !(#[trigger] final(self).channels@[c]).is_running
                    && final(self).channels@[c].pending@.len() == 0,
    {
        if channel_index < self.channels.len() {
            let lines = split_program(code);
            let run = !self.estop;
            self.channels[channel_index].load_program(lines, run);
        }
    }

    /// Moves the program counter of channel `channel_index` by `delta`
    /// blocks, as `Channel::jump_blocks` describes, and brings the channel's
    /// axes to a standstill (velocity `zero`). Nothing happens under e-stop,
    /// to a channel that does not exist, or to one without a program.
    pub fn jump_blocks(&mut self, channel_index: usize, delta: i32, zero: V)
        requires
            old(self).wf(),
        ensures
            final(self).wf(),
            final(self).channels@.len() == old(self).channels@.len(),
            final(self).axes@.len() == old(self).axes@.len(),
            forall|c: int|
                0 <= c < final(self).channels@.len() && c != channel_index
                    ==> #[trigger] final(self).channels@[c] == old(self).channels@[c],
            ({
                let applies = !old(self).estop && channel_index < old(self).channels@.len()
                    && old(self).channels@[channel_index as int].program@.len() > 0;
                &&& !applies ==> final(self).channels == old(self).channels && final(self).axes
                    == old(self).axes
                &&& applies ==> {
                    let ch = final(self).channels@[channel_index as int];
                    let o = old(self).channels@[channel_index as int];
                    let target = o.pc + delta;
                    &&& ch.pc == if target < 0 {
                        0
                    } else if target > o.program@.len() {
                        o.program@.len() as int
                    } else {
                        target
                    }
                    &&& ch.active_pc == if ch.pc == 0 {
                        None
                    } else {
                        Some((ch.pc - 1) as usize)
                    }
                    &&& ch.pending@.len() == 0 && !ch.pause_pending && !ch.step_once
                    &&& ch.paused && ch.is_running
                    &&& ch.program == o.program && ch.modal == o.modal && ch.same_setup(&o)
                    &&& ch.programmed_work@ == o.programmed_work@ && ch.comp_link == o.comp_link
                    &&& forall|i: int|
                        0 <= i < final(self).axes@.len() ==> {
                            let a = #[trigger] final(self).axes@[i];
                            let b = old(self).axes@[i];
                            if o.maps_axis_spec(i as u32) {
                                a == (Axis { velocity: zero, ..b })
                            } else {
                                a == b
                            }
                        }
                }
            }),
            final(self).estop == old(self).estop,
            final(self).work_offsets == old(self).work_offsets,
            final(self).active_wcs == old(self).active_wcs,
            final(self).estop ==> forall|c: int|
                0 <= c < final(self).channels@.len() ==> !(#[trigger] final(self).channels@[c]).is_running
                    && final(self).channels@[c].pending@.len() == 0,
    {
        if self.estop || channel_index >= self.channels.len() {
            return;
        }
        if self.channels[channel_index].program.len() == 0 {
            return;
        }
        self.channels[channel_index].jump_blocks(delta);
        let ghost ch = self.channels@[channel_index as int];
        let ghost chans = self.channels;
        let mut i: usize = 0;
        while i < self.axes.len()
            invariant
                0 <= i <= self.axes@.len(),
                self.channels == chans,
                forall|c: int| 0 <= c < self.channels@.len() ==> (#[trigger] self.channels@[c]).wf(),
                self.work_offsets == old(self).work_offsets,
                self.active_wcs == old(self).active_wcs,
                self.homing_sequence == old(self).homing_sequence,
                self.homing_index == old(self).homing_index,
                self.estop == old(self).estop,
                old(self).wf(),
                self.axes@.len() == old(self).axes@.len(),
                self.axes@.len() <= u32::MAX,
                channel_index < self.channels@.len(),
                self.channels@[channel_index as int] == ch,
                forall|k: int| 0 <= k < self.axes@.len() ==> (#[trigger] self.axes@[k]).id == k,
                forall|k: int|
                    0 <= k < i ==> {
                        let a = #[trigger] self.axes@[k];
                        let b = old(self).axes@[k];
                        if ch.maps_axis_spec(k as u32) {
                            a == (Axis { velocity: zero, ..b })
                        } else {
                            a == b
                        }
                    },
                forall|k: int| i <= k < self.axes@.len() ==> #[trigger] self.axes@[k] == old(
                    self,
                ).axes@[k],
            decreases self.axes@.len() - i,
        {
            if self.channels[channel_index].maps_axis(i as u32) {
                self.axes[i].velocity = zero;
            }
            i = i + 1;
        }
    }

    /// After a jog of axis `axis_id` at `feed`: every idle channel that maps
    /// the axis takes `feed` as its feed rate, and with `rapid` returns to G0.
    /// Nothing happens under e-stop.
    pub fn jog_channels(&mut self, axis_id: u32, feed: V, rapid: bool)
        requires
            old(self).wf(),
        ensures
            final(self).wf(),
            final(self).channels@.len() == old(self).channels@.len(),
            !old(self).estop ==> forall|c: int|
                0 <= c < final(self).channels@.len() ==> #[trigger] final(self).channels@[c]
                    == old(self).channels@[c].jogged(axis_id, feed, rapid),
            old(self).estop ==> final(self).channels == old(self).channels,
            final(self).axes == old(self).axes,
            final(self).estop == old(self).estop,
            final(self).same_settings(&*old(self)),
    {
        if self.estop {
            return;
        }
        let mut c: usize = 0;
        while c < self.channels.len()
            invariant
                0 <= c <= self.channels@.len(),
                self.channels@.len() == old(self).channels@.len(),
                self.axes == old(self).axes,
                self.same_settings(&*old(self)),
                !self.estop,
                old(self).wf(),
                forall|k: int| 0 <= k < self.channels@.len() ==> (#[trigger] self.channels@[k]).wf(),
                forall|j: int|
                    0 <= j < c ==> #[trigger] self.channels@[j] == old(self).channels@[j].jogged(
                        axis_id,
                        feed,
                        rapid,
                    ),
                forall|j: int| c <= j < self.channels@.len() ==> #[trigger] self.channels@[j]
                    == old(self).channels@[j],
            decreases self.channels@.len() - c,
        {
            self.channels[c].jog(axis_id, feed, rapid);
            c = c + 1;
        }
    }

    /// Adds a channel; under e-stop it comes stopped, as `Channel::estop`
    /// leaves it.
    pub fn add_channel(&mut self, channel: Channel<V>)
        requires
            old(self).wf(),
            channel.wf(),
        ensures
            final(self).wf(),
            !old(self).estop ==> final(self).channels@ == old(self).channels@.push(channel),
            old(self).estop ==> {
                let ch = final(self).channels@.last();
                &&& final(self).channels@.len() == old(self).channels@.len() + 1
                &&& final(self).channels@.drop_last() == old(self).channels@
                &&& !ch.is_running && !ch.paused && ch.pending@.len() == 0
                &&& !ch.pause_pending && !ch.step_once && ch.active_pc is None
                &&& ch.pc == channel.pc && ch.program == channel.program && ch.modal
                    == channel.modal
                &&& ch.same_setup(&channel) && ch.single_block == channel.single_block
                &&& ch.programmed_work@ == channel.programmed_work@
                &&& ch.comp_link == channel.comp_link
            },
            final(self).axes == old(self).axes,
            final(self).same_settings(&*old(self)),
    {
        let mut channel = channel;
        if self.estop {
            channel.estop();
        }
        self.channels.push(channel);
        assert(self.channels@.drop_last() =~= old(self).channels@);
    }
}

} // verus!
