//! Export of freshly allocated textures as DMA-BUFs.
//!
//! An export is a fixed sequence of driver calls: create the plane images, ask what memory they
//! need, allocate one block for all of them, bind them, export the block's file descriptor and
//! read back the modifier and the layout the driver chose. Any call may fail, and whatever was
//! acquired until then must be released again, last acquired first.
//!
//! [`ExportMachine`] is that sequence without the driver. It says which call comes next, takes
//! the driver's reply, and once a call has failed it says what to release. Only
//! `DRM_FORMAT_MOD_LINEAR` is ever requested.
use vstd::prelude::*;

use crate::formats::{TextureFormat, VkFormat};
use crate::memory::{
    combined_types, plan_memory, select_memory_type, MemoryPlan, MemoryRequirements,
    MAX_MEMORY_TYPES,
};

verus! {

/// DRM format modifier of linear-tiled memory.
pub const DRM_FORMAT_MOD_LINEAR: u64 = 0;

/// Why an export failed.
#[derive(Clone, Copy, Debug)]
pub enum ExportError {
    /// The device is not backed by Vulkan.
    NotVulkan,
    /// The device was created without DMA-BUF support.
    FeatureUnsupported,
    /// A Vulkan call returned this result code; the call is named.
    Vk(i32, &'static str),
    /// No memory type can back all plane images.
    NoMemoryType,
    /// Textures of this format cannot be exported.
    UnsupportedFormat(TextureFormat),
}

/// One plane image of an export.
#[derive(Clone, Copy, Debug, PartialEq, Eq, Structural)]
pub struct PlaneSpec {
    pub format: VkFormat,
    pub texture_format: TextureFormat,
    pub width: u32,
    pub height: u32,
}

/// Plane-0 layout of an image, as the driver reports it.
#[derive(Clone, Copy, Debug, PartialEq, Eq, Structural)]
pub struct PlaneLayout {
    pub offset: u64,
    pub row_pitch: u64,
}

/// Something an export acquires from the driver and must not leak.
#[derive(Clone, Copy, Debug, PartialEq, Eq, Structural)]
pub enum Resource {
    /// The image of a plane.
    Image(usize),
    /// The device memory behind the images.
    Memory,
}

/// One entry of an export's script: a driver operation, with the name its failure is reported
/// under where it can fail.
#[derive(Clone, Copy, Debug)]
pub enum Op {
    CreateImage { plane: usize, call: &'static str },
    QueryRequirements { plane: usize },
    QueryMemoryTypes,
    AllocateMemory { call: &'static str },
    BindImage { plane: usize, call: &'static str },
    ExportFd { call: &'static str },
    QueryModifier { plane: usize, call: &'static str },
    QueryLayout { plane: usize },
    Import,
}

/// What to do next.
#[derive(Clone, Copy, Debug, PartialEq, Eq, Structural)]
pub enum Step {
    CreateImage { plane: usize, image: PlaneSpec, usage: u32 },
    QueryRequirements { plane: usize },
    QueryMemoryTypes,
    /// Allocate exportable memory; `dedicated` ties it to the only image.
    AllocateMemory { size: u64, type_index: u32, dedicated: bool },
    BindImage { plane: usize, offset: u64 },
    ExportFd,
    QueryModifier { plane: usize },
    QueryLayout { plane: usize },
    /// Hand images and memory over to the rendering API, which owns them from here on.
    Import,
    /// Undo an acquisition.
    Release(Resource),
    /// Nothing is left to do.
    Stop,
}

/// The driver's answer to a step.
#[derive(Debug)]
pub enum Reply {
    Done,
    Requirements(MemoryRequirements),
    /// Property flags of the device's memory types, by index.
    MemoryTypes(Vec<u32>),
    Modifier(u64),
    Layout(PlaneLayout),
    /// The call failed with this result code.
    Failed(i32),
}

/// An export in progress, as mathematics.
pub struct ExportState {
    pub planes: Seq<PlaneSpec>,
    pub script: Seq<Op>,
    pub usage: u32,
    pub dedicated: bool,
    /// How much of the script has succeeded.
    pub pc: int,
    /// All that was acquired, in order.
    pub acquired: Seq<Resource>,
    /// How much of it was released again, from the end.
    pub released: int,
    pub failure: Option<ExportError>,
    pub reqs: Seq<MemoryRequirements>,
    pub type_index: Option<u32>,
    pub modifiers: Seq<u64>,
    pub layouts: Seq<PlaneLayout>,
}

/// The name under which a failure of `op` is reported.
pub open spec fn call_name(op: Op) -> &'static str {
    match op {
        Op::CreateImage { call, .. } => call,
        Op::AllocateMemory { call } => call,
        Op::BindImage { call, .. } => call,
        Op::ExportFd { call } => call,
        Op::QueryModifier { call, .. } => call,
        _ => arbitrary(),
    }
}

impl ExportState {
    /// An export before its first driver call.
    pub open spec fn start(
        planes: Seq<PlaneSpec>,
        script: Seq<Op>,
        usage: u32,
        dedicated: bool,
    ) -> ExportState {
        ExportState {
            planes,
            script,
            usage,
            dedicated,
            pc: 0,
            acquired: Seq::empty(),
            released: 0,
            failure: None,
            reqs: Seq::empty(),
            type_index: None,
            modifiers: Seq::empty(),
            layouts: Seq::empty(),
        }
    }

    /// What comes next: the script, as long as nothing has failed; after a failure, the
    /// acquisitions backwards.
    pub open spec fn step(self) -> Step {
        if self.failure is Some {
            if self.released < self.acquired.len() {
                Step::Release(self.acquired[self.acquired.len() - 1 - self.released])
            } else {
                Step::Stop
            }
        } else if self.pc < self.script.len() {
            match self.script[self.pc] {
                Op::CreateImage { plane, .. } => Step::CreateImage {
                    plane,
                    image: self.planes[plane as int],
                    usage: self.usage,
                },
                Op::QueryRequirements { plane } => Step::QueryRequirements { plane },
                Op::QueryMemoryTypes => Step::QueryMemoryTypes,
                Op::AllocateMemory { .. } => Step::AllocateMemory {
                    size: crate::memory::total_size(self.reqs) as u64,
                    type_index: self.type_index->0,
                    dedicated: self.dedicated,
                },
                Op::BindImage { plane, .. } => Step::BindImage {
                    plane,
                    offset: crate::memory::plane_offset(self.reqs, plane as int) as u64,
                },
                Op::ExportFd { .. } => Step::ExportFd,
                Op::QueryModifier { plane, .. } => Step::QueryModifier { plane },
                Op::QueryLayout { plane } => Step::QueryLayout { plane },
                Op::Import => Step::Import,
            }
        } else {
            Step::Stop
        }
    }

    /// The export after a failure that is reported as `e`.
    pub open spec fn failed(self, e: ExportError) -> ExportState {
        ExportState { failure: Some(e), ..self }
    }

    /// The memory types that every plane image accepts.
    pub open spec fn type_bits(self) -> u32 {
        crate::memory::combined_type_bits(self.reqs, self.reqs.len() as int)
    }

    /// The driver may answer the next step with `reply`.
    pub open spec fn accepts(self, reply: Reply) -> bool {
        match self.step() {
            Step::CreateImage { .. } | Step::AllocateMemory { .. } | Step::BindImage { .. }
            | Step::ExportFd => reply is Done || reply is Failed,
            Step::QueryRequirements { .. } => reply is Requirements,
            Step::QueryMemoryTypes => match reply {
                Reply::MemoryTypes(types) => types@.len() <= MAX_MEMORY_TYPES && (
                crate::memory::memory_type_of(types@, self.type_bits()) is Some
                    ==> crate::memory::requirements_in_range(self.reqs)),
                _ => false,
            },
            Step::QueryModifier { .. } => reply is Modifier || reply is Failed,
            Step::QueryLayout { plane } => match reply {
                Reply::Layout(l) => crate::memory::plane_offset(self.reqs, plane as int) + l.offset
                    <= u64::MAX,
                _ => false,
            },
            Step::Import | Step::Release(_) => reply is Done,
            Step::Stop => false,
        }
    }

    /// The export after the driver has answered the next step with `reply`.
    pub open spec fn after(self, reply: Reply) -> ExportState {
        if self.failure is Some {
            ExportState { released: self.released + 1, ..self }
        } else {
            let op = self.script[self.pc];
            let next = ExportState { pc: self.pc + 1, ..self };
            match reply {
                Reply::Failed(code) => self.failed(ExportError::Vk(code, call_name(op))),
                Reply::Requirements(r) => {
                    let known = ExportState { reqs: self.reqs.push(r), ..next };
                    if known.reqs.len() == self.planes.len() && known.type_bits() == 0 {
                        known.failed(ExportError::NoMemoryType)
                    } else {
                        known
                    }
                },
                Reply::MemoryTypes(types) => {
                    match crate::memory::memory_type_of(types@, self.type_bits()) {
                        Some(i) => ExportState { type_index: Some(i), ..next },
                        None => self.failed(ExportError::NoMemoryType),
                    }
                },
                Reply::Modifier(m) => ExportState { modifiers: self.modifiers.push(m), ..next },
                Reply::Layout(l) => ExportState { layouts: self.layouts.push(l), ..next },
                Reply::Done => match op {
                    Op::CreateImage { plane, .. } => ExportState {
                        acquired: self.acquired.push(Resource::Image(plane)),
                        ..next
                    },
                    Op::AllocateMemory { .. } => ExportState {
                        acquired: self.acquired.push(Resource::Memory),
                        ..next
                    },
                    _ => next,
                },
            }
        }
    }
}

/// How many of the first `i` operations read a layout.
pub open spec fn layouts_before(script: Seq<Op>, i: int) -> int
    decreases i,
{
    if i <= 0 {
        0
    } else if script[i - 1] is QueryLayout {
        layouts_before(script, i - 1) + 1
    } else {
        layouts_before(script, i - 1)
    }
}

/// How many of the first `i` operations read a modifier.
pub open spec fn modifiers_before(script: Seq<Op>, i: int) -> int
    decreases i,
{
    if i <= 0 {
        0
    } else if script[i - 1] is QueryModifier {
        modifiers_before(script, i - 1) + 1
    } else {
        modifiers_before(script, i - 1)
    }
}

/// Operation `i` of a script for `n` planes is of the kind that stands there.
pub open spec fn op_in_place(n: int, script: Seq<Op>, i: int) -> bool {
    let op = script[i];
    if i < n {
        op matches Op::CreateImage { plane, .. } && plane == i
    } else if i < 2 * n {
        op matches Op::QueryRequirements { plane } && plane == i - n
    } else if i == 2 * n {
        op is QueryMemoryTypes
    } else if i == 2 * n + 1 {
        op is AllocateMemory
    } else if i < 3 * n + 2 {
        op matches Op::BindImage { plane, .. } && plane == i - (2 * n + 2)
    } else if i == 3 * n + 2 {
        op is ExportFd
    } else if i == script.len() - 1 {
        op is Import
    } else {
        match op {
            Op::QueryModifier { plane, .. } => plane < n,
            Op::QueryLayout { plane } => plane < n && plane == layouts_before(script, i),
            _ => false,
        }
    }
}

/// A script that exports `n` planes: create, size, allocate, bind, export, read back, hand over.
pub open spec fn script_ok(n: int, script: Seq<Op>) -> bool {
    &&& n >= 1
    &&& script.len() >= 3 * n + 4
    &&& forall|i: int| 0 <= i < script.len() ==> #[trigger] op_in_place(n, script, i)
    &&& layouts_before(script, script.len() as int) == n
    &&& modifiers_before(script, script.len() as int) >= 1
}

/// What the first `pc` operations of a script for `n` planes acquire.
pub open spec fn acquisitions(n: int, pc: int) -> Seq<Resource> {
    let images = Seq::new(
        (if pc < n {
            pc
        } else {
            n
        }) as nat,
        |i: int| Resource::Image(i as usize),
    );
    if pc >= 2 * n + 2 {
        images.push(Resource::Memory)
    } else {
        images
    }
}

impl ExportState {
    /// The state hangs together: it is one that a run of a proper script leads to.
    pub open spec fn inv(self) -> bool {
        let n = self.planes.len() as int;
        &&& script_ok(n, self.script)
        &&& n <= usize::MAX
        &&& 0 <= self.pc <= self.script.len()
        &&& 0 <= self.released <= self.acquired.len()
        &&& self.acquired_by_some_prefix()
        &&& self.failure is None ==> self.proceeding()
    }

    /// What was acquired is what some part of the script acquires.
    pub open spec fn acquired_by_some_prefix(self) -> bool {
        exists|pc: int|
            0 <= pc <= self.pc && self.acquired == #[trigger] acquisitions(
                self.planes.len() as int,
                pc,
            )
    }

    /// The part of the invariant that holds as long as nothing has failed.
    pub open spec fn proceeding(self) -> bool {
        let n = self.planes.len() as int;
        &&& self.released == 0
        &&& self.acquired == acquisitions(n, self.pc)
        &&& self.reqs.len() == (if self.pc < n {
            0
        } else if self.pc < 2 * n {
            self.pc - n
        } else {
            n
        })
        &&& self.pc >= 2 * n + 1 ==> self.type_index is Some
            && crate::memory::requirements_in_range(self.reqs)
        &&& self.layouts.len() == layouts_before(self.script, self.pc)
        &&& self.modifiers.len() == modifiers_before(self.script, self.pc)
        &&& forall|k: int|
            0 <= k < self.layouts.len() ==> crate::memory::plane_offset(self.reqs, k) + (
            #[trigger] self.layouts[k]).offset <= u64::MAX
    }
}

/// An export in progress.
pub struct ExportMachine {
    planes: Vec<PlaneSpec>,
    script: Vec<Op>,
    usage: u32,
    dedicated: bool,
    pc: usize,
    acquired: Vec<Resource>,
    released: usize,
    failure: Option<ExportError>,
    reqs: Vec<MemoryRequirements>,
    plan: Option<MemoryPlan>,
    modifiers: Vec<u64>,
    layouts: Vec<PlaneLayout>,
}

impl View for ExportMachine {
    type V = ExportState;

    closed spec fn view(&self) -> ExportState {
        ExportState {
            planes: self.planes@,
            script: self.script@,
            usage: self.usage,
            dedicated: self.dedicated,
            pc: self.pc as int,
            acquired: self.acquired@,
            released: self.released as int,
            failure: self.failure,
            reqs: self.reqs@,
            type_index: match self.plan {
                Some(plan) => Some(plan.type_index),
                None => None,
            },
            modifiers: self.modifiers@,
            layouts: self.layouts@,
        }
    }
}

impl ExportMachine {
    /// The machine is in a state that a run leads to, and its plan follows from the requirements.
    pub closed spec fn wf(self) -> bool {
        &&& self@.inv()
        &&& self.plan matches Some(plan) ==> {
            &&& plan.offsets@.len() == self.reqs@.len()
            &&& forall|k: int|
                0 <= k < self.reqs@.len() ==> #[trigger] plan.offsets@[k]
                    == crate::memory::plane_offset(self.reqs@, k)
            &&& plan.total_size == crate::memory::total_size(self.reqs@)
            &&& self.pc >= 2 * self.planes@.len() + 1
        }
    }

    pub(crate) fn start(planes: Vec<PlaneSpec>, script: Vec<Op>, usage: u32, dedicated: bool) -> (m: Self)
        requires
            script_ok(planes@.len() as int, script@),
        ensures
            m.wf(),
            m@ == ExportState::start(planes@, script@, usage, dedicated),
    {
        let m = ExportMachine {
            planes,
            script,
            usage,
            dedicated,
            pc: 0,
            acquired: Vec::new(),
            released: 0,
            failure: None,
            reqs: Vec::new(),
            plan: None,
            modifiers: Vec::new(),
            layouts: Vec::new(),
        };
        assert(acquisitions(planes@.len() as int, 0) =~= Seq::<Resource>::empty());
        assert(m@.acquired =~= Seq::<Resource>::empty());
        assert(m@.reqs =~= Seq::<MemoryRequirements>::empty());
        assert(m@.modifiers =~= Seq::<u64>::empty());
        assert(m@.layouts =~= Seq::<PlaneLayout>::empty());
        assert(m.planes.len() == m.planes@.len());
        m
    }

    /// What to do next.
    pub fn next_step(&self) -> (step: Step)
        requires
            self.wf(),
        ensures
            step == self@.step(),
    {
        let ghost n = self.planes@.len() as int;
        if self.failure.is_some() {
            if self.released < self.acquired.len() {
                return Step::Release(self.acquired[self.acquired.len() - 1 - self.released]);
            }
            return Step::Stop;
        }
        if self.pc >= self.script.len() {
            return Step::Stop;
        }
        assert(op_in_place(n, self.script@, self.pc as int));
        match self.script[self.pc] {
            Op::CreateImage { plane, .. } => Step::CreateImage {
                plane,
                image: self.planes[plane],
                usage: self.usage,
            },
            Op::QueryRequirements { plane } => Step::QueryRequirements { plane },
            Op::QueryMemoryTypes => Step::QueryMemoryTypes,
            Op::AllocateMemory { .. } => {
                let plan = self.plan.as_ref().unwrap();
                Step::AllocateMemory {
                    size: plan.total_size,
                    type_index: plan.type_index,
                    dedicated: self.dedicated,
                }
            },
            Op::BindImage { plane, .. } => {
                let plan = self.plan.as_ref().unwrap();
                Step::BindImage { plane, offset: plan.offsets[plane] }
            },
            Op::ExportFd { .. } => Step::ExportFd,
            Op::QueryModifier { plane, .. } => Step::QueryModifier { plane },
            Op::QueryLayout { plane } => Step::QueryLayout { plane },
            Op::Import => Step::Import,
        }
    }

    /// Take the driver's reply to the step that `next_step` named.
    pub fn advance(&mut self, reply: Reply)
        requires
            old(self).wf(),
            old(self)@.accepts(reply),
        ensures
            final(self).wf(),
            final(self)@ == old(self)@.after(reply),
    {
        let ghost before = self@;
        let ghost n = self.planes@.len() as int;
        proof {
            lemma_invariant(before, reply);
        }
        if self.failure.is_some() {
            self.released = self.released + 1;
            return ;
        }
        assert(op_in_place(n, self.script@, self.pc as int));
        assert(self.pc < self.script.len());
        let op = self.script[self.pc];
        match reply {
            Reply::Failed(code) => {
                let call: &'static str = match op {
                    Op::CreateImage { call, .. } => call,
                    Op::AllocateMemory { call } => call,
                    Op::BindImage { call, .. } => call,
                    Op::ExportFd { call } => call,
                    Op::QueryModifier { call, .. } => call,
                    _ => "",
                };
                self.failure = Some(ExportError::Vk(code, call));
            },
            Reply::Requirements(r) => {
                self.reqs.push(r);
                self.pc = self.pc + 1;
                if self.reqs.len() == self.planes.len() && combined_types(self.reqs.as_slice())
                    == 0 {
                    self.failure = Some(ExportError::NoMemoryType);
                }
            },
            Reply::MemoryTypes(types) => {
                let bits: u32 = combined_types(self.reqs.as_slice());
                match select_memory_type(types.as_slice(), bits) {
                    Some(i) => {
                        self.plan = Some(plan_memory(self.reqs.as_slice(), i));
                        self.pc = self.pc + 1;
                    },
                    None => {
                        self.failure = Some(ExportError::NoMemoryType);
                    },
                }
            },
            Reply::Modifier(m) => {
                self.modifiers.push(m);
                self.pc = self.pc + 1;
            },
            Reply::Layout(l) => {
                self.layouts.push(l);
                self.pc = self.pc + 1;
            },
            Reply::Done => {
                match op {
                    Op::CreateImage { plane, .. } => {
                        self.acquired.push(Resource::Image(plane));
                    },
                    Op::AllocateMemory { .. } => {
                        self.acquired.push(Resource::Memory);
                    },
                    _ => {},
                }
                self.pc = self.pc + 1;
            },
        }
        assert(self@ == before.after(reply));
    }
}

/// No layout is read before the file descriptor is exported.
proof fn lemma_no_layout_before_export(n: int, script: Seq<Op>, i: int)
    requires
        script_ok(n, script),
        0 <= i <= 3 * n + 3,
    ensures
        layouts_before(script, i) == 0,
    decreases i,
{
    if i > 0 {
        assert(op_in_place(n, script, i - 1));
        lemma_no_layout_before_export(n, script, i - 1);
    }
}

/// Every reply the driver may give leads from one proper state to another.
proof fn lemma_invariant(st: ExportState, reply: Reply)
    requires
        st.inv(),
        st.accepts(reply),
    ensures
        st.after(reply).inv(),
{
    let n = st.planes.len() as int;
    let next = st.after(reply);
    assert(next.planes == st.planes && next.pc >= st.pc);
    if st.failure is None {
        assert(op_in_place(n, st.script, st.pc));
        assert(st.acquired == acquisitions(n, st.pc));
        if next.failure is None {
            assert(next.pc == st.pc + 1);
            assert(next.acquired =~= acquisitions(n, next.pc));
            assert(next.layouts.len() == layouts_before(st.script, next.pc));
            assert(next.modifiers.len() == modifiers_before(st.script, next.pc));
            assert(next.reqs.len() == (if next.pc < n {
                0
            } else if next.pc < 2 * n {
                next.pc - n
            } else {
                n
            }));
            assert(next.pc >= 2 * n + 1 ==> crate::memory::requirements_in_range(next.reqs));
            assert forall|k: int| 0 <= k < next.layouts.len() implies crate::memory::plane_offset(
                next.reqs,
                k,
            ) + (#[trigger] next.layouts[k]).offset <= u64::MAX by {
                if st.pc <= 3 * n + 2 {
                    lemma_no_layout_before_export(n, st.script, next.pc);
                } else if k < st.layouts.len() {
                    assert(next.layouts[k] == st.layouts[k]);
                }
            }
            assert(next.proceeding());
            assert(next.acquired_by_some_prefix());
        } else {
            assert(next.acquired == acquisitions(n, st.pc));
            assert(next.acquired_by_some_prefix());
        }
    } else {
        let pc = choose|pc: int| 0 <= pc <= st.pc && st.acquired == #[trigger] acquisitions(n, pc);
        assert(next.acquired == acquisitions(n, pc));
        assert(next.acquired_by_some_prefix());
    }
}

/// An exported surface: one allocation with every plane's place in it.
#[derive(Debug)]
pub struct ExportedPlanes {
    /// Size of the allocation.
    pub size: u64,
    /// Modifier that the driver picked for the first plane.
    pub modifier: u64,
    /// Offset in the allocation and row pitch of each plane.
    pub planes: Vec<PlaneLayout>,
}

impl ExportMachine {
    /// The outcome, once nothing is left to do: the first failure, or where the planes lie.
    pub fn finish(self) -> (r: Result<ExportedPlanes, ExportError>)
        requires
            self.wf(),
            self@.step() is Stop,
        ensures
            r is Err == self@.failure is Some,
            r matches Err(e) ==> self@.failure == Some(e),
            r matches Ok(x) ==> {
                &&& x.size == crate::memory::total_size(self@.reqs)
                &&& x.modifier == self@.modifiers[0]
                &&& x.planes@.len() == self@.planes.len()
                &&& forall|k: int|
                    0 <= k < x.planes@.len() ==> {
                        &&& (#[trigger] x.planes@[k]).offset == crate::memory::plane_offset(
                            self@.reqs,
                            k,
                        ) + self@.layouts[k].offset
                        &&& x.planes@[k].row_pitch == self@.layouts[k].row_pitch
                    }
            },
    {
        match self.failure {
            Some(e) => {
                return Err(e);
            },
            None => {},
        }
        let plan = self.plan.unwrap();
        let n: usize = self.planes.len();
        let mut planes: Vec<PlaneLayout> = Vec::new();
        let mut k: usize = 0;
        while k < n
            invariant
                n == self.planes@.len() == plan.offsets@.len() == self.layouts@.len(),
                n == self.reqs@.len(),
                k <= n,
                forall|j: int|
                    0 <= j < n ==> #[trigger] plan.offsets@[j] == crate::memory::plane_offset(
                        self.reqs@,
                        j,
                    ),
                forall|j: int|
                    0 <= j < n ==> crate::memory::plane_offset(self.reqs@, j) + (
                    #[trigger] self.layouts@[j]).offset <= u64::MAX,
                planes@.len() == k,
                forall|j: int|
                    0 <= j < k ==> {
                        &&& (#[trigger] planes@[j]).offset == crate::memory::plane_offset(
                            self.reqs@,
                            j,
                        ) + self.layouts@[j].offset
                        &&& planes@[j].row_pitch == self.layouts@[j].row_pitch
                    },
            decreases n - k,
        {
            let layout = self.layouts[k];
            assert(plan.offsets@[k as int] + self.layouts@[k as int].offset <= u64::MAX);
            planes.push(
                PlaneLayout {
                    offset: plan.offsets[k] + layout.offset,
                    row_pitch: layout.row_pitch,
                },
            );
            k = k + 1;
        }
        Ok(ExportedPlanes { size: plan.total_size, modifier: self.modifiers[0], planes })
    }
}

/// The state that a sequence of replies leads to.
pub open spec fn run(start: ExportState, replies: Seq<Reply>) -> ExportState
    decreases replies.len(),
{
    if replies.len() == 0 {
        start
    } else {
        run(start, replies.drop_last()).after(replies.last())
    }
}

/// Every reply is one that the driver may give where it comes.
pub open spec fn legal(start: ExportState, replies: Seq<Reply>) -> bool
    decreases replies.len(),
{
    replies.len() == 0 || (legal(start, replies.drop_last()) && run(
        start,
        replies.drop_last(),
    ).accepts(replies.last()))
}

/// What the driver handed out in a run, in order: each image and allocation whose creation it
/// confirmed.
pub open spec fn handed_out(start: ExportState, replies: Seq<Reply>) -> Seq<Resource>
    decreases replies.len(),
{
    if replies.len() == 0 {
        Seq::empty()
    } else {
        let before = handed_out(start, replies.drop_last());
        match run(start, replies.drop_last()).step() {
            Step::CreateImage { plane, .. } if replies.last() is Done => before.push(
                Resource::Image(plane),
            ),
            Step::AllocateMemory { .. } if replies.last() is Done => before.push(Resource::Memory),
            _ => before,
        }
    }
}

/// What was given back to the driver in a run, in order.
pub open spec fn given_back(start: ExportState, replies: Seq<Reply>) -> Seq<Resource>
    decreases replies.len(),
{
    if replies.len() == 0 {
        Seq::empty()
    } else {
        let before = given_back(start, replies.drop_last());
        match run(start, replies.drop_last()).step() {
            Step::Release(r) => before.push(r),
            _ => before,
        }
    }
}

/// The bookkeeping of a run is what the driver saw.
proof fn lemma_ledger(start: ExportState, replies: Seq<Reply>)
    requires
        start == ExportState::start(start.planes, start.script, start.usage, start.dedicated),
        script_ok(start.planes.len() as int, start.script),
        start.planes.len() <= usize::MAX,
        legal(start, replies),
    ensures
        run(start, replies).inv(),
        run(start, replies).planes == start.planes,
        run(start, replies).script == start.script,
        run(start, replies).acquired == handed_out(start, replies),
        given_back(start, replies) == handed_out(start, replies).reverse().take(
            run(start, replies).released,
        ),
    decreases replies.len(),
{
    let n = start.planes.len() as int;
    if replies.len() == 0 {
        assert(acquisitions(n, 0) =~= Seq::<Resource>::empty());
        assert(start.acquired_by_some_prefix());
        assert(given_back(start, replies) =~= handed_out(start, replies).reverse().take(0));
    } else {
        let rest = replies.drop_last();
        let st = run(start, rest);
        let reply = replies.last();
        lemma_ledger(start, rest);
        lemma_invariant(st, reply);
        let end = run(start, replies);
        assert(end == st.after(reply));
        if st.failure is Some {
            assert(handed_out(start, replies) == handed_out(start, rest));
            assert(st.released < st.acquired.len());
            let all = handed_out(start, replies).reverse();
            assert(all[st.released] == st.acquired[st.acquired.len() - 1 - st.released]);
            assert(given_back(start, replies) =~= all.take(end.released));
        } else {
            assert(op_in_place(n, st.script, st.pc));
            assert(st.released == 0 && end.released == 0);
            assert(given_back(start, replies) == given_back(start, rest));
            assert(given_back(start, replies) =~= handed_out(start, replies).reverse().take(0));
            assert(end.acquired =~= handed_out(start, replies));
        }
    }
}

/// A failed export leaks nothing and releases nothing twice: when it stops, everything the
/// driver handed out was given back exactly once, the last first.
pub proof fn failed_export_gives_everything_back(start: ExportState, replies: Seq<Reply>)
    requires
        start == ExportState::start(start.planes, start.script, start.usage, start.dedicated),
        script_ok(start.planes.len() as int, start.script),
        start.planes.len() <= usize::MAX,
        legal(start, replies),
        run(start, replies).step() is Stop,
        run(start, replies).failure is Some,
    ensures
        given_back(start, replies) == handed_out(start, replies).reverse(),
{
    lemma_ledger(start, replies);
    let all = handed_out(start, replies).reverse();
    assert(all.take(all.len() as int) =~= all);
}

/// A successful export gives nothing back: every plane's image and the memory behind them are
/// the importer's.
pub proof fn successful_export_keeps_everything(start: ExportState, replies: Seq<Reply>)
    requires
        start == ExportState::start(start.planes, start.script, start.usage, start.dedicated),
        script_ok(start.planes.len() as int, start.script),
        start.planes.len() <= usize::MAX,
        legal(start, replies),
        run(start, replies).step() is Stop,
        run(start, replies).failure is None,
    ensures
        given_back(start, replies) == Seq::<Resource>::empty(),
        handed_out(start, replies) == Seq::new(
            start.planes.len(),
            |i: int| Resource::Image(i as usize),
        ).push(Resource::Memory),
{
    lemma_ledger(start, replies);
    assert(handed_out(start, replies).reverse().take(0) =~= Seq::<Resource>::empty());
}

/// An image is bound only while it and the memory it is bound to are held.
pub proof fn binding_touches_held_resources_only(st: ExportState, plane: usize, offset: u64)
    requires
        st.inv(),
        st.step() == (Step::BindImage { plane, offset }),
    ensures
        st.released == 0,
        st.acquired.contains(Resource::Image(plane)),
        st.acquired.contains(Resource::Memory),
{
    let n = st.planes.len() as int;
    assert(op_in_place(n, st.script, st.pc));
    assert(st.acquired[plane as int] == Resource::Image(plane));
    assert(st.acquired[n] == Resource::Memory);
}

/// How many replies an export can still take.
pub open spec fn remaining(st: ExportState) -> int {
    if st.failure is Some {
        st.acquired.len() - st.released
    } else {
        st.script.len() - st.pc + st.planes.len() + 2
    }
}

/// Every export stops: each reply leaves fewer to come.
pub proof fn every_reply_makes_progress(st: ExportState, reply: Reply)
    requires
        st.inv(),
        st.accepts(reply),
    ensures
        0 <= remaining(st.after(reply)) < remaining(st),
{
    let n = st.planes.len() as int;
    lemma_invariant(st, reply);
    if st.failure is None {
        assert(op_in_place(n, st.script, st.pc));
        assert(st.acquired.len() <= n + 1);
        assert(st.after(reply).acquired.len() <= n + 1);
    }
}

/// The requirements in a reply.
pub open spec fn requirements_in(reply: Reply) -> Option<MemoryRequirements> {
    match reply {
        Reply::Requirements(r) => Some(r),
        _ => None,
    }
}

/// The modifier in a reply.
pub open spec fn modifier_in(reply: Reply) -> Option<u64> {
    match reply {
        Reply::Modifier(m) => Some(m),
        _ => None,
    }
}

/// The layout in a reply.
pub open spec fn layout_in(reply: Reply) -> Option<PlaneLayout> {
    match reply {
        Reply::Layout(l) => Some(l),
        _ => None,
    }
}

/// An export knows what the driver answered, all of it and in that order: the planes' requirements,
/// modifiers and layouts.
pub proof fn answers_are_kept_in_order(start: ExportState, replies: Seq<Reply>)
    requires
        start == ExportState::start(start.planes, start.script, start.usage, start.dedicated),
        script_ok(start.planes.len() as int, start.script),
        start.planes.len() <= usize::MAX,
        legal(start, replies),
    ensures
        run(start, replies).reqs == replies.filter_map(|r: Reply| requirements_in(r)),
        run(start, replies).modifiers == replies.filter_map(|r: Reply| modifier_in(r)),
        run(start, replies).layouts == replies.filter_map(|r: Reply| layout_in(r)),
    decreases replies.len(),
{
    if replies.len() > 0 {
        let rest = replies.drop_last();
        answers_are_kept_in_order(start, rest);
        lemma_ledger(start, rest);
        let st = run(start, rest);
        let reply = replies.last();
        assert(st.accepts(reply));
        if st.failure is Some {
            assert(reply is Done);
        }
    }
}

/// The allocation holds every image where it is bound: within the block, at a multiple of its own
/// alignment, and apart from every other.
pub proof fn bound_images_fit_the_allocation(
    allocating: ExportState,
    binding: ExportState,
    other: ExportState,
    size: u64,
    type_index: u32,
    dedicated: bool,
    plane: usize,
    offset: u64,
    other_plane: usize,
    other_offset: u64,
)
    requires
        allocating.inv(),
        binding.inv(),
        other.inv(),
        binding.planes == allocating.planes,
        other.planes == allocating.planes,
        binding.reqs == allocating.reqs,
        other.reqs == allocating.reqs,
        allocating.step() == (Step::AllocateMemory { size, type_index, dedicated }),
        binding.step() == (Step::BindImage { plane, offset }),
        other.step() == (Step::BindImage { plane: other_plane, offset: other_offset }),
        plane < other_plane,
    ensures
        ({
            let reqs = allocating.reqs;
            &&& other_plane < reqs.len()
            &&& offset as int % reqs[plane as int].alignment as int == 0
            &&& other_offset as int % reqs[other_plane as int].alignment as int == 0
            &&& offset + reqs[plane as int].size <= other_offset
            &&& other_offset + reqs[other_plane as int].size <= size
        }),
{
    let reqs = allocating.reqs;
    let n = allocating.planes.len() as int;
    assert(op_in_place(n, allocating.script, allocating.pc));
    assert(op_in_place(n, binding.script, binding.pc));
    assert(op_in_place(n, other.script, other.pc));
    crate::memory::planes_are_aligned_and_disjoint(reqs);
    let (a, b) = (plane as int, other_plane as int);
    assert(crate::memory::plane_offset(reqs, a) + reqs[a].size <= crate::memory::plane_offset(
        reqs,
        b,
    ));
    assert(reqs[a].alignment == reqs[a].alignment && reqs[b].alignment == reqs[b].alignment);
    assert(crate::memory::plane_offset(reqs, b) + reqs[b].size <= crate::memory::total_size(reqs));
    assert(0 <= crate::memory::plane_offset(reqs, a) && 0 <= crate::memory::plane_offset(reqs, b));
}

/// Where memory is asked for, it is of a type of the device that every image allows. If there is
/// no such type the export fails for that reason.
pub proof fn memory_suits_every_image(st: ExportState, types: Vec<u32>, k: int)
    requires
        st.inv(),
        st.step() is QueryMemoryTypes,
        st.accepts(Reply::MemoryTypes(types)),
        0 <= k < st.reqs.len(),
    ensures
        ({
            let next = st.after(Reply::MemoryTypes(types));
            match next.failure {
                None => {
                    &&& next.type_index matches Some(i) && i < types@.len() && st.reqs[k].type_bits & (
                    1u32 << i) != 0
                    &&& next.acquired == st.acquired
                },
                Some(e) => e is NoMemoryType && forall|i: int|
                    0 <= i < types@.len() ==> st.type_bits() & (#[trigger] (1u32 << (i as u32)))
                        == 0,
            }
        }),
{
    let r = crate::memory::memory_type_of(types@, st.type_bits());
    crate::memory::lemma_memory_type_exists(types@, st.type_bits());
    if let Some(i) = r {
        assert(crate::memory::memory_type_fits(
            types@,
            st.type_bits(),
            crate::memory::MEMORY_PROPERTY_DEVICE_LOCAL,
            i as int,
        ) || crate::memory::memory_type_fits(
            types@,
            st.type_bits(),
            crate::memory::MEMORY_PROPERTY_NONE,
            i as int,
        ));
        crate::memory::shared_memory_suits_every_image(st.reqs, st.reqs.len() as int, i);
    } else {
        assert forall|i: int| 0 <= i < types@.len() implies st.type_bits() & (#[trigger] (1u32 << (
        i as u32))) == 0 by {
            if st.type_bits() & (1u32 << (i as u32)) != 0 {
                crate::memory::the_first_local_memory_is_taken(types@, st.type_bits(), r, i);
            }
        }
    }
}

/// A failed call is reported with the driver's code and the call's name, and the failure that
/// came first is the one that stays.
pub proof fn the_first_failure_is_reported(st: ExportState, code: i32, later: Reply)
    ensures
        st.failure is None ==> st.after(Reply::Failed(code)).failure == Some(
            ExportError::Vk(code, call_name(st.script[st.pc])),
        ),
        st.failure is None ==> st.after(Reply::Failed(code)).acquired == st.acquired,
        st.failure is Some ==> st.after(later).failure == st.failure,
        match st.script[st.pc] {
            Op::CreateImage { call, .. } => call_name(st.script[st.pc])@ == call@,
            Op::AllocateMemory { call } => call_name(st.script[st.pc])@ == call@,
            Op::BindImage { call, .. } => call_name(st.script[st.pc])@ == call@,
            Op::ExportFd { call } => call_name(st.script[st.pc])@ == call@,
            Op::QueryModifier { call, .. } => call_name(st.script[st.pc])@ == call@,
            _ => true,
        },
{
}

/// Each image is created as it was specified and for the uses that were asked for, and the script
/// is followed call by call as long as nothing fails.
pub proof fn calls_follow_the_script(st: ExportState)
    requires
        st.inv(),
        st.failure is None,
        st.pc < st.script.len(),
    ensures
        match st.script[st.pc] {
            Op::CreateImage { plane, .. } => st.step() matches Step::CreateImage {
                plane: p,
                image,
                usage,
            } && p == plane && image == st.planes[plane as int] && usage == st.usage,
            Op::QueryRequirements { plane } => st.step() == (Step::QueryRequirements { plane }),
            Op::QueryMemoryTypes => st.step() is QueryMemoryTypes,
            Op::AllocateMemory { .. } => st.step() matches Step::AllocateMemory {
                type_index,
                dedicated,
                ..
            } && st.type_index == Some(type_index) && dedicated == st.dedicated,
            Op::BindImage { plane, .. } => st.step() matches Step::BindImage { plane: p, .. } && p
                == plane,
            Op::ExportFd { .. } => st.step() is ExportFd,
            Op::QueryModifier { plane, .. } => st.step() == (Step::QueryModifier { plane }),
            Op::QueryLayout { plane } => st.step() == (Step::QueryLayout { plane }),
            Op::Import => st.step() is Import,
        },
{
    assert(op_in_place(st.planes.len() as int, st.script, st.pc));
}

} // verus!
