//! Dispatch and tape bookkeeping of the elementwise activations `exp`,
//! `gelu`, `silu` and `sigmoid`: which path a forward pass takes, what it
//! records for the backward pass, and which path and shapes a backward pass
//! uses. The numeric kernels themselves run on the backend.

use vstd::prelude::*;

verus! {

/// Identifies a tensor in a tensor store.
pub type TensorId = usize;

/// Where the current value of a tensor lives.
#[derive(Clone, Copy, Debug, PartialEq, Eq, Structural)]
pub enum Dirty {
    /// Only the host copy is current.
    Host,
    /// Only the device copy is current.
    Device,
    /// Both copies are current.
    Both,
}

/// What the activations read of a stored tensor.
#[derive(Clone, Debug, PartialEq, Eq)]
pub struct TensorState {
    pub shape: Vec<usize>,
    pub requires_grad: bool,
    pub dirty: Dirty,
    pub has_device_handle: bool,
}

/// The tensors of a computation, indexed by id.
#[derive(Clone, Debug, PartialEq, Eq)]
pub struct TensorStore {
    pub tensors: Vec<TensorState>,
}

/// Backward operation of a tape entry.
#[derive(Clone, Copy, Debug, PartialEq, Eq, Structural)]
pub enum BackwardOp {
    Exp,
    Gelu,
    Silu,
    Sigmoid,
}

/// What a tape entry keeps for its backward pass.
#[derive(Clone, Copy, Debug, PartialEq, Eq, Structural)]
pub enum SavedContext {
    /// The forward output (`exp`).
    Tensor(TensorId),
    /// The forward input (`gelu`).
    GeluCtx { x: TensorId },
    /// The forward input (`silu`).
    SiluCtx { x: TensorId },
    /// The forward output (`sigmoid`).
    SigmoidCtx { y: TensorId },
}

/// One recorded operation.
#[derive(Clone, Debug, PartialEq, Eq)]
pub struct TapeEntry {
    pub op: BackwardOp,
    pub output_id: TensorId,
    pub input_ids: Vec<TensorId>,
    pub saved: SavedContext,
}

/// The operations recorded for the backward pass, in order.
#[derive(Clone, Debug, PartialEq, Eq)]
pub struct Tape {
    pub entries: Vec<TapeEntry>,
}

/// Which part of a tape entry is missing or of the wrong kind.
#[derive(Clone, Copy, Debug, PartialEq, Eq, Structural)]
pub enum TapeFault {
    /// The entry lists no input tensor.
    MissingInput,
    /// The entry does not keep the forward output.
    MissingSavedOutput,
    /// The entry does not keep the forward input.
    MissingSavedInput,
}

/// Why an activation could not run.
#[derive(Clone, Debug, PartialEq, Eq)]
pub enum AutogradError {
    /// No tensor with this id is in the store.
    UnknownTensor(TensorId),
    /// A tape entry of `op` is malformed.
    TapeInvariant { op: BackwardOp, fault: TapeFault },
    /// The saved tensor and the upstream gradient differ in shape.
    ShapeMismatch { expected: Vec<usize>, got: Vec<usize> },
}

/// Which implementation a forward pass runs.
#[derive(Clone, Copy, Debug, PartialEq, Eq, Structural)]
pub enum ForwardPath {
    /// Appends a lazy node to the device graph.
    DeviceLazy,
    /// Computes on the host copy.
    HostEager,
}

/// The result of a forward pass: the new tensor and the path that fills it.
#[derive(Clone, Copy, Debug, PartialEq, Eq, Structural)]
pub struct ForwardStep {
    pub output: TensorId,
    pub path: ForwardPath,
}

/// The result of a backward pass.
#[derive(Clone, Copy, Debug, PartialEq, Eq, Structural)]
pub enum BackwardStep {
    /// The input needs no gradient.
    NoGrad,
    /// Gradient `grad` of `x`, computed on the device from `upstream` and `saved`.
    Device { x: TensorId, upstream: TensorId, saved: TensorId, grad: TensorId },
    /// Gradient `grad` of `x`, computed on the host from `upstream` and `saved`.
    Host { x: TensorId, upstream: TensorId, saved: TensorId, grad: TensorId },
}

impl TensorStore {
    /// The state of tensor `id`.
    pub fn tensor(&self, id: TensorId) -> (r: Result<&TensorState, AutogradError>)
        ensures
            id < self.tensors@.len() ==> r == Ok::<&TensorState, AutogradError>(&self.tensors@[id as int]),
            id >= self.tensors@.len() ==> r == Err::<&TensorState, AutogradError>(
                AutogradError::UnknownTensor(id),
            ),
    {
        if id < self.tensors.len() {
            Ok(&self.tensors[id])
        } else {
            Err(AutogradError::UnknownTensor(id))
        }
    }
}

/// The tensor's device copy is usable: it has a handle and is not stale.
pub open spec fn device_resident(t: TensorState) -> bool {
    t.has_device_handle && t.dirty != Dirty::Host
}

/// `exp` and `silu` stay lazy only for device-only tensors; `gelu` and
/// `sigmoid` for any tensor whose device copy is usable.
pub open spec fn forward_path_spec(op: BackwardOp, t: TensorState) -> ForwardPath {
    match op {
        BackwardOp::Exp | BackwardOp::Silu => if t.dirty == Dirty::Device {
            ForwardPath::DeviceLazy
        } else {
            ForwardPath::HostEager
        },
        BackwardOp::Gelu | BackwardOp::Sigmoid => if device_resident(t) {
            ForwardPath::DeviceLazy
        } else {
            ForwardPath::HostEager
        },
    }
}

/// The state of a freshly allocated output: same shape as its source, on the
/// device for a lazy pass, on the host for an eager one.
pub open spec fn allocated_as(path: ForwardPath, shape: Seq<usize>, requires_grad: bool, t: TensorState) -> bool {
    &&& t.shape@ == shape
    &&& t.requires_grad == requires_grad
    &&& match path {
        ForwardPath::DeviceLazy => t.dirty == Dirty::Device && t.has_device_handle,
        ForwardPath::HostEager => t.dirty == Dirty::Host && !t.has_device_handle,
    }
}

/// What each activation keeps for its backward pass: `exp` and `sigmoid`
/// their output, `gelu` and `silu` their input.
pub open spec fn saved_context_spec(op: BackwardOp, x: TensorId, output_id: TensorId) -> SavedContext {
    match op {
        BackwardOp::Exp => SavedContext::Tensor(output_id),
        BackwardOp::Gelu => SavedContext::GeluCtx { x },
        BackwardOp::Silu => SavedContext::SiluCtx { x },
        BackwardOp::Sigmoid => SavedContext::SigmoidCtx { y: output_id },
    }
}

/// `e` is the entry that the forward pass of `op` from `x` to `output` records.
pub open spec fn is_entry_for(e: TapeEntry, op: BackwardOp, x: TensorId, output: TensorId) -> bool {
    &&& e.op == op
    &&& e.output_id == output
    &&& e.input_ids@ == seq![x]
    &&& e.saved == saved_context_spec(op, x, output)
}

/// The effect of the forward pass of `op` on `x`: an unknown input leaves
/// store and tape alone; otherwise one tensor is appended to the store, its
/// id is returned with the path chosen by `forward_path_spec`, and an entry
/// is appended to the tape exactly when the input requires a gradient.
pub open spec fn forward_effect(
    op: BackwardOp,
    x: TensorId,
    s0: Seq<TensorState>,
    s1: Seq<TensorState>,
    t0: Seq<TapeEntry>,
    t1: Seq<TapeEntry>,
    r: Result<ForwardStep, AutogradError>,
) -> bool {
    if !(x < s0.len()) {
        &&& r == Err::<ForwardStep, AutogradError>(AutogradError::UnknownTensor(x))
        &&& s1 == s0
        &&& t1 == t0
    } else {
        let input = s0[x as int];
        let path = forward_path_spec(op, input);
        let out = s0.len() as usize;
        &&& r == Ok::<ForwardStep, AutogradError>(ForwardStep { output: out, path })
        &&& s1.len() == s0.len() + 1
        &&& s1.subrange(0, s0.len() as int) == s0
        &&& allocated_as(path, input.shape@, input.requires_grad, s1.last())
        &&& if input.requires_grad {
            &&& t1.len() == t0.len() + 1
            &&& t1.subrange(0, t0.len() as int) == t0
            &&& is_entry_for(t1.last(), op, x, out)
        } else {
            t1 == t0
        }
    }
}

impl TensorStore {
    /// Appends a tensor of the given shape and returns its id.
    fn allocate(&mut self, shape: Vec<usize>, requires_grad: bool, on_device: bool) -> (id: TensorId)
        requires
            old(self).tensors@.len() < usize::MAX,
        ensures
            id == old(self).tensors@.len(),
            final(self).tensors@.len() == old(self).tensors@.len() + 1,
            final(self).tensors@.subrange(0, id as int) == old(self).tensors@,
            final(self).tensors@.last().shape@ == shape@,
            final(self).tensors@.last().requires_grad == requires_grad,
            final(self).tensors@.last().dirty == (if on_device { Dirty::Device } else { Dirty::Host }),
            final(self).tensors@.last().has_device_handle == on_device,
    {
        let id = self.tensors.len();
        let dirty = if on_device { Dirty::Device } else { Dirty::Host };
        let ghost before = self.tensors@;
        self.tensors.push(TensorState { shape, requires_grad, dirty, has_device_handle: on_device });
        assert(self.tensors@.subrange(0, id as int) =~= before);
        id
    }
}

/// Records the forward pass of `op` from `x` to `output_id` on the tape
/// when the input requires a gradient; otherwise the tape is unchanged.
pub fn record_activation(
    tape: &mut Tape,
    op: BackwardOp,
    x: TensorId,
    output_id: TensorId,
    requires_grad: bool,
)
    ensures
        !requires_grad ==> final(tape).entries@ == old(tape).entries@,
        requires_grad ==> {
            &&& final(tape).entries@.len() == old(tape).entries@.len() + 1
            &&& final(tape).entries@.subrange(0, old(tape).entries@.len() as int) == old(tape).entries@
            &&& is_entry_for(final(tape).entries@.last(), op, x, output_id)
        },
{
    if requires_grad {
        let saved = match op {
            BackwardOp::Exp => SavedContext::Tensor(output_id),
            BackwardOp::Gelu => SavedContext::GeluCtx { x },
            BackwardOp::Silu => SavedContext::SiluCtx { x },
            BackwardOp::Sigmoid => SavedContext::SigmoidCtx { y: output_id },
        };
        let mut input_ids: Vec<TensorId> = Vec::new();
        input_ids.push(x);
        let ghost before = tape.entries@;
        tape.entries.push(TapeEntry { op, output_id, input_ids, saved });
        assert(tape.entries@.subrange(0, before.len() as int) =~= before);
    }
}

/// Runs the bookkeeping of the forward pass of `op`: chooses the path,
/// allocates the output and records the tape entry.
fn forward(op: BackwardOp, x: TensorId, store: &mut TensorStore, tape: &mut Tape) -> (r: Result<
    ForwardStep,
    AutogradError,
>)
    requires
        old(store).tensors@.len() < usize::MAX,
    ensures
        forward_effect(op, x, old(store).tensors@, final(store).tensors@, old(tape).entries@, final(tape).entries@, r),
{
    let t = store.tensor(x)?;
    let path = match op {
        BackwardOp::Exp | BackwardOp::Silu => if t.dirty == Dirty::Device {
            ForwardPath::DeviceLazy
        } else {
            ForwardPath::HostEager
        },
        BackwardOp::Gelu | BackwardOp::Sigmoid => if t.has_device_handle && t.dirty != Dirty::Host {
            ForwardPath::DeviceLazy
        } else {
            ForwardPath::HostEager
        },
    };
    let shape = t.shape.clone();
    let requires_grad = t.requires_grad;
    let on_device = match path {
        ForwardPath::DeviceLazy => true,
        ForwardPath::HostEager => false,
    };
    let output = store.allocate(shape, requires_grad, on_device);
    record_activation(tape, op, x, output, requires_grad);
    Ok(ForwardStep { output, path })
}

/// Forward pass of `exp`: lazy on the device for device-only inputs, eager
/// on the host otherwise; the tape keeps the output.
pub fn exp(x: TensorId, store: &mut TensorStore, tape: &mut Tape) -> (r: Result<ForwardStep, AutogradError>)
    requires
        old(store).tensors@.len() < usize::MAX,
    ensures
        forward_effect(BackwardOp::Exp, x, old(store).tensors@, final(store).tensors@, old(tape).entries@, final(tape).entries@, r),
{
    forward(BackwardOp::Exp, x, store, tape)
}

/// Forward pass of `gelu`: lazy on the device when the input's device copy
/// is usable, eager on the host otherwise; the tape keeps the input.
pub fn gelu(x: TensorId, store: &mut TensorStore, tape: &mut Tape) -> (r: Result<ForwardStep, AutogradError>)
    requires
        old(store).tensors@.len() < usize::MAX,
    ensures
        forward_effect(BackwardOp::Gelu, x, old(store).tensors@, final(store).tensors@, old(tape).entries@, final(tape).entries@, r),
{
    forward(BackwardOp::Gelu, x, store, tape)
}

/// Forward pass of `silu`: lazy on the device for device-only inputs, eager
/// on the host otherwise; the tape keeps the input.
pub fn silu(x: TensorId, store: &mut TensorStore, tape: &mut Tape) -> (r: Result<ForwardStep, AutogradError>)
    requires
        old(store).tensors@.len() < usize::MAX,
    ensures
        forward_effect(BackwardOp::Silu, x, old(store).tensors@, final(store).tensors@, old(tape).entries@, final(tape).entries@, r),
{
    forward(BackwardOp::Silu, x, store, tape)
}

/// Forward pass of `sigmoid`: lazy on the device when the input's device
/// copy is usable, eager on the host otherwise; the tape keeps the output.
pub fn sigmoid(x: TensorId, store: &mut TensorStore, tape: &mut Tape) -> (r: Result<ForwardStep, AutogradError>)
    requires
        old(store).tensors@.len() < usize::MAX,
    ensures
        forward_effect(BackwardOp::Sigmoid, x, old(store).tensors@, final(store).tensors@, old(tape).entries@, final(tape).entries@, r),
{
    forward(BackwardOp::Sigmoid, x, store, tape)
}

/// The effect of computing the gradient of `x` from the upstream gradient
/// and the saved tensor: no gradient when `x` does not require one; an
/// error for an unknown tensor or for shapes that differ; otherwise a
/// gradient tensor of the saved tensor's shape is appended to the store, on
/// the device when both operands are device-resident and on the host
/// otherwise.
pub open spec fn grad_effect(
    x: TensorId,
    saved: TensorId,
    upstream: TensorId,
    s0: Seq<TensorState>,
    s1: Seq<TensorState>,
    r: Result<BackwardStep, AutogradError>,
) -> bool {
    if !(x < s0.len()) {
        r == Err::<BackwardStep, AutogradError>(AutogradError::UnknownTensor(x)) && s1 == s0
    } else if !s0[x as int].requires_grad {
        r == Ok::<BackwardStep, AutogradError>(BackwardStep::NoGrad) && s1 == s0
    } else if !(upstream < s0.len()) {
        r == Err::<BackwardStep, AutogradError>(AutogradError::UnknownTensor(upstream)) && s1 == s0
    } else if !(saved < s0.len()) {
        r == Err::<BackwardStep, AutogradError>(AutogradError::UnknownTensor(saved)) && s1 == s0
    } else if s0[saved as int].shape@ != s0[upstream as int].shape@ {
        &&& r matches Err(AutogradError::ShapeMismatch { expected, got })
        &&& expected@ == s0[saved as int].shape@
        &&& got@ == s0[upstream as int].shape@
        &&& s1 == s0
    } else {
        let device = device_resident(s0[upstream as int]) && device_resident(s0[saved as int]);
        let grad = s0.len() as usize;
        &&& r == Ok::<BackwardStep, AutogradError>(
            if device {
                BackwardStep::Device { x, upstream, saved, grad }
            } else {
                BackwardStep::Host { x, upstream, saved, grad }
            },
        )
        &&& s1.len() == s0.len() + 1
        &&& s1.subrange(0, s0.len() as int) == s0
        &&& allocated_as(
            if device { ForwardPath::DeviceLazy } else { ForwardPath::HostEager },
            s0[saved as int].shape@,
            false,
            s1.last(),
        )
    }
}

/// The forward output that an entry of `op` keeps, for the activations
/// that keep their output.
pub open spec fn saved_output_of(op: BackwardOp, saved: SavedContext) -> Option<TensorId> {
    match (op, saved) {
        (BackwardOp::Exp, SavedContext::Tensor(y)) => Some(y),
        (BackwardOp::Sigmoid, SavedContext::SigmoidCtx { y }) => Some(y),
        _ => None,
    }
}

/// The forward input that an entry of `op` keeps, for the activations that
/// keep their input.
pub open spec fn saved_input_of(op: BackwardOp, saved: SavedContext) -> Option<TensorId> {
    match (op, saved) {
        (BackwardOp::Gelu, SavedContext::GeluCtx { x }) => Some(x),
        (BackwardOp::Silu, SavedContext::SiluCtx { x }) => Some(x),
        _ => None,
    }
}

/// The effect of the backward pass of `op` on a tape entry. `exp` and
/// `sigmoid` take the input from the entry's first input and the saved
/// output from the entry; `gelu` and `silu` take the input from the entry's
/// saved context and use it as the saved tensor too.
pub open spec fn backward_effect(
    op: BackwardOp,
    entry: TapeEntry,
    upstream: TensorId,
    s0: Seq<TensorState>,
    s1: Seq<TensorState>,
    r: Result<BackwardStep, AutogradError>,
) -> bool {
    match op {
        BackwardOp::Exp | BackwardOp::Sigmoid => if entry.input_ids@.len() == 0 {
            &&& r == Err::<BackwardStep, AutogradError>(
                AutogradError::TapeInvariant { op, fault: TapeFault::MissingInput },
            )
            &&& s1 == s0
        } else {
            let x = entry.input_ids@[0];
            if !(x < s0.len()) {
                r == Err::<BackwardStep, AutogradError>(AutogradError::UnknownTensor(x)) && s1 == s0
            } else if !s0[x as int].requires_grad {
                r == Ok::<BackwardStep, AutogradError>(BackwardStep::NoGrad) && s1 == s0
            } else {
                match saved_output_of(op, entry.saved) {
                    Some(y) => grad_effect(x, y, upstream, s0, s1, r),
                    None => {
                        &&& r == Err::<BackwardStep, AutogradError>(
                            AutogradError::TapeInvariant { op, fault: TapeFault::MissingSavedOutput },
                        )
                        &&& s1 == s0
                    },
                }
            }
        },
        BackwardOp::Gelu | BackwardOp::Silu => match saved_input_of(op, entry.saved) {
            Some(x) => grad_effect(x, x, upstream, s0, s1, r),
            None => {
                &&& r == Err::<BackwardStep, AutogradError>(
                    AutogradError::TapeInvariant { op, fault: TapeFault::MissingSavedInput },
                )
                &&& s1 == s0
            },
        },
    }
}

fn shapes_equal(a: &Vec<usize>, b: &Vec<usize>) -> (r: bool)
    ensures
        r == (a@ == b@),
{
    if a.len() != b.len() {
        return false;
    }
    let mut i: usize = 0;
    while i < a.len()
        invariant
            a@.len() == b@.len(),
            i <= a@.len(),
            forall|k: int| 0 <= k < i ==> a@[k] == b@[k],
        decreases a.len() - i,
    {
        if a[i] != b[i] {
            return false;
        }
        i = i + 1;
    }
    assert(a@ =~= b@);
    true
}

fn grad_step(x: TensorId, saved: TensorId, upstream: TensorId, store: &mut TensorStore) -> (r: Result<
    BackwardStep,
    AutogradError,
>)
    requires
        old(store).tensors@.len() < usize::MAX,
    ensures
        grad_effect(x, saved, upstream, old(store).tensors@, final(store).tensors@, r),
{
    if !store.tensor(x)?.requires_grad {
        return Ok(BackwardStep::NoGrad);
    }
    let up = store.tensor(upstream)?;
    let sv = store.tensor(saved)?;
    if !shapes_equal(&sv.shape, &up.shape) {
        let expected = sv.shape.clone();
        let got = up.shape.clone();
        assert(expected@ =~= sv.shape@);
        assert(got@ =~= up.shape@);
        return Err(AutogradError::ShapeMismatch { expected, got });
    }
    let device = up.dirty != Dirty::Host && up.has_device_handle && sv.dirty != Dirty::Host
        && sv.has_device_handle;
    let shape = sv.shape.clone();
    assert(shape@ =~= sv.shape@);
    let grad = store.allocate(shape, false, device);
    if device {
        Ok(BackwardStep::Device { x, upstream, saved, grad })
    } else {
        Ok(BackwardStep::Host { x, upstream, saved, grad })
    }
}

/// Backward pass of an activation that keeps its output (`exp`, `sigmoid`).
fn output_saving_backward(
    op: BackwardOp,
    entry: &TapeEntry,
    output_grad_id: TensorId,
    store: &mut TensorStore,
) -> (r: Result<BackwardStep, AutogradError>)
    requires
        op == BackwardOp::Exp || op == BackwardOp::Sigmoid,
        old(store).tensors@.len() < usize::MAX,
    ensures
        backward_effect(op, *entry, output_grad_id, old(store).tensors@, final(store).tensors@, r),
{
    if entry.input_ids.len() == 0 {
        return Err(AutogradError::TapeInvariant { op, fault: TapeFault::MissingInput });
    }
    let x = entry.input_ids[0];
    if !store.tensor(x)?.requires_grad {
        return Ok(BackwardStep::NoGrad);
    }
    let y = match (op, entry.saved) {
        (BackwardOp::Exp, SavedContext::Tensor(y)) => y,
        (BackwardOp::Sigmoid, SavedContext::SigmoidCtx { y }) => y,
        _ => {
            return Err(AutogradError::TapeInvariant { op, fault: TapeFault::MissingSavedOutput });
        },
    };
    grad_step(x, y, output_grad_id, store)
}

/// Backward pass of an activation that keeps its input (`gelu`, `silu`).
fn input_saving_backward(
    op: BackwardOp,
    entry: &TapeEntry,
    output_grad_id: TensorId,
    store: &mut TensorStore,
) -> (r: Result<BackwardStep, AutogradError>)
    requires
        op == BackwardOp::Gelu || op == BackwardOp::Silu,
        old(store).tensors@.len() < usize::MAX,
    ensures
        backward_effect(op, *entry, output_grad_id, old(store).tensors@, final(store).tensors@, r),
{
    let x = match (op, entry.saved) {
        (BackwardOp::Gelu, SavedContext::GeluCtx { x }) => x,
        (BackwardOp::Silu, SavedContext::SiluCtx { x }) => x,
        _ => {
            return Err(AutogradError::TapeInvariant { op, fault: TapeFault::MissingSavedInput });
        },
    };
    grad_step(x, x, output_grad_id, store)
}

/// Backward pass of `exp`: the gradient of the entry's input, from the
/// saved output and the upstream gradient.
pub fn exp_backward(entry: &TapeEntry, output_grad_id: TensorId, store: &mut TensorStore) -> (r: Result<
    BackwardStep,
    AutogradError,
>)
    requires
        old(store).tensors@.len() < usize::MAX,
    ensures
        backward_effect(BackwardOp::Exp, *entry, output_grad_id, old(store).tensors@, final(store).tensors@, r),
{
    output_saving_backward(BackwardOp::Exp, entry, output_grad_id, store)
}

/// Backward pass of `gelu`: the gradient of the saved input, from that
/// input and the upstream gradient.
pub fn gelu_backward(entry: &TapeEntry, output_grad_id: TensorId, store: &mut TensorStore) -> (r: Result<
    BackwardStep,
    AutogradError,
>)
    requires
        old(store).tensors@.len() < usize::MAX,
    ensures
        backward_effect(BackwardOp::Gelu, *entry, output_grad_id, old(store).tensors@, final(store).tensors@, r),
{
    input_saving_backward(BackwardOp::Gelu, entry, output_grad_id, store)
}

/// Backward pass of `silu`: the gradient of the saved input, from that
/// input and the upstream gradient.
pub fn silu_backward(entry: &TapeEntry, output_grad_id: TensorId, store: &mut TensorStore) -> (r: Result<
    BackwardStep,
    AutogradError,
>)
    requires
        old(store).tensors@.len() < usize::MAX,
    ensures
        backward_effect(BackwardOp::Silu, *entry, output_grad_id, old(store).tensors@, final(store).tensors@, r),
{
    input_saving_backward(BackwardOp::Silu, entry, output_grad_id, store)
}

/// Backward pass of `sigmoid`: the gradient of the entry's input, from the
/// saved output and the upstream gradient.
pub fn sigmoid_backward(entry: &TapeEntry, output_grad_id: TensorId, store: &mut TensorStore) -> (r: Result<
    BackwardStep,
    AutogradError,
>)
    requires
        old(store).tensors@.len() < usize::MAX,
    ensures
        backward_effect(BackwardOp::Sigmoid, *entry, output_grad_id, old(store).tensors@, final(store).tensors@, r),
{
    output_saving_backward(BackwardOp::Sigmoid, entry, output_grad_id, store)
}

impl BackwardStep {
    /// The (input, gradient) pairs of this step: none without a gradient,
    /// otherwise the one pair of `x` and its gradient tensor.
    pub fn grad_pairs(&self) -> (pairs: Vec<(TensorId, TensorId)>)
        ensures
            pairs@ == match *self {
                BackwardStep::NoGrad => Seq::<(TensorId, TensorId)>::empty(),
                BackwardStep::Device { x, grad, .. } => seq![(x, grad)],
                BackwardStep::Host { x, grad, .. } => seq![(x, grad)],
            },
    {
        let mut pairs: Vec<(TensorId, TensorId)> = Vec::new();
        match *self {
            BackwardStep::NoGrad => {},
            BackwardStep::Device { x, grad, .. } => pairs.push((x, grad)),
            BackwardStep::Host { x, grad, .. } => pairs.push((x, grad)),
        }
        assert(pairs@ =~= match *self {
            BackwardStep::NoGrad => Seq::<(TensorId, TensorId)>::empty(),
            BackwardStep::Device { x, grad, .. } => seq![(x, grad)],
            BackwardStep::Host { x, grad, .. } => seq![(x, grad)],
        });
        pairs
    }
}

/// The entry that a forward pass records is well-formed for its backward
/// pass: given an upstream gradient of the output's shape, the backward pass
/// of that entry yields a gradient of the forward input `x` whenever `x`
/// requires one, and never reports a malformed entry.
pub proof fn lemma_recorded_entry_backward(
    e: TapeEntry,
    op: BackwardOp,
    x: TensorId,
    out: TensorId,
    upstream: TensorId,
    s0: Seq<TensorState>,
    s1: Seq<TensorState>,
    r: Result<BackwardStep, AutogradError>,
)
    requires
        is_entry_for(e, op, x, out),
        x < s0.len(),
        out < s0.len(),
        upstream < s0.len(),
        s0[out as int].shape@ == s0[x as int].shape@,
        s0[upstream as int].shape@ == s0[x as int].shape@,
        backward_effect(op, e, upstream, s0, s1, r),
    ensures
        !(r matches Err(AutogradError::TapeInvariant { .. })),
        s0[x as int].requires_grad ==> (r matches Ok(BackwardStep::Device { x: gx, .. }) && gx == x)
            || (r matches Ok(BackwardStep::Host { x: gx, .. }) && gx == x),
        !s0[x as int].requires_grad ==> r == Ok::<BackwardStep, AutogradError>(BackwardStep::NoGrad),
{
    assert(e.input_ids@[0] == x);
}

} // verus!
