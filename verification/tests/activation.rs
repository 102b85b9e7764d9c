use arle::activation::{
    exp, exp_backward, gelu, gelu_backward, sigmoid, sigmoid_backward, silu, silu_backward,
    AutogradError, BackwardOp, BackwardStep, Dirty, ForwardPath, ForwardStep, SavedContext, Tape,
    TapeEntry, TapeFault, TensorState, TensorStore,
};

fn tensor(shape: &[usize], requires_grad: bool, dirty: Dirty, has_device_handle: bool) -> TensorState {
    TensorState { shape: shape.to_vec(), requires_grad, dirty, has_device_handle }
}

fn store_of(tensors: Vec<TensorState>) -> TensorStore {
    TensorStore { tensors }
}

#[test]
fn exp_and_silu_stay_lazy_only_for_device_only_inputs() {
    let mut store = store_of(vec![
        tensor(&[2, 3], true, Dirty::Device, true),
        tensor(&[2, 3], true, Dirty::Both, true),
    ]);
    let mut tape = Tape { entries: vec![] };
    assert_eq!(
        exp(0, &mut store, &mut tape),
        Ok(ForwardStep { output: 2, path: ForwardPath::DeviceLazy })
    );
    assert_eq!(
        silu(1, &mut store, &mut tape),
        Ok(ForwardStep { output: 3, path: ForwardPath::HostEager })
    );
    assert_eq!(store.tensors[2], tensor(&[2, 3], true, Dirty::Device, true));
    assert_eq!(store.tensors[3], tensor(&[2, 3], true, Dirty::Host, false));
    assert_eq!(tape.entries.len(), 2);
    assert_eq!(tape.entries[0].saved, SavedContext::Tensor(2));
    assert_eq!(tape.entries[1].saved, SavedContext::SiluCtx { x: 1 });
}

#[test]
fn gelu_and_sigmoid_stay_lazy_for_usable_device_copies() {
    let mut store = store_of(vec![
        tensor(&[4], false, Dirty::Both, true),
        tensor(&[4], true, Dirty::Device, false),
    ]);
    let mut tape = Tape { entries: vec![] };
    assert_eq!(
        gelu(0, &mut store, &mut tape),
        Ok(ForwardStep { output: 2, path: ForwardPath::DeviceLazy })
    );
    assert!(tape.entries.is_empty());
    assert_eq!(
        sigmoid(1, &mut store, &mut tape),
        Ok(ForwardStep { output: 3, path: ForwardPath::HostEager })
    );
    assert_eq!(
        tape.entries,
        vec![TapeEntry {
            op: BackwardOp::Sigmoid,
            output_id: 3,
            input_ids: vec![1],
            saved: SavedContext::SigmoidCtx { y: 3 },
        }]
    );
}

#[test]
fn unknown_inputs_change_nothing() {
    let mut store = store_of(vec![]);
    let mut tape = Tape { entries: vec![] };
    assert_eq!(gelu(0, &mut store, &mut tape), Err(AutogradError::UnknownTensor(0)));
    assert!(store.tensors.is_empty());
    assert!(tape.entries.is_empty());
}

#[test]
fn forward_then_backward_yields_the_input_gradient() {
    let mut store = store_of(vec![tensor(&[3], true, Dirty::Host, false)]);
    let mut tape = Tape { entries: vec![] };
    let step = exp(0, &mut store, &mut tape).unwrap();
    store.tensors.push(tensor(&[3], false, Dirty::Host, false));
    let upstream = store.tensors.len() - 1;
    let entry = tape.entries[0].clone();
    let back = exp_backward(&entry, upstream, &mut store).unwrap();
    assert_eq!(back, BackwardStep::Host { x: 0, upstream, saved: step.output, grad: 3 });
    assert_eq!(back.grad_pairs(), vec![(0, 3)]);
    assert_eq!(store.tensors[3], tensor(&[3], false, Dirty::Host, false));
}

#[test]
fn backward_uses_the_device_when_both_operands_are_resident() {
    let mut store = store_of(vec![
        tensor(&[2], true, Dirty::Both, true),
        tensor(&[2], false, Dirty::Device, true),
    ]);
    let entry = TapeEntry {
        op: BackwardOp::Gelu,
        output_id: 5,
        input_ids: vec![0],
        saved: SavedContext::GeluCtx { x: 0 },
    };
    assert_eq!(
        gelu_backward(&entry, 1, &mut store),
        Ok(BackwardStep::Device { x: 0, upstream: 1, saved: 0, grad: 2 })
    );
    assert_eq!(store.tensors[2], tensor(&[2], false, Dirty::Device, true));
}

#[test]
fn backward_without_required_gradient_does_nothing() {
    let mut store = store_of(vec![tensor(&[2], false, Dirty::Host, false)]);
    let entry = TapeEntry {
        op: BackwardOp::Silu,
        output_id: 1,
        input_ids: vec![0],
        saved: SavedContext::SiluCtx { x: 0 },
    };
    let step = silu_backward(&entry, 7, &mut store).unwrap();
    assert_eq!(step, BackwardStep::NoGrad);
    assert!(step.grad_pairs().is_empty());
    assert_eq!(store.tensors.len(), 1);
}

#[test]
fn malformed_entries_are_reported() {
    let mut store = store_of(vec![tensor(&[2], true, Dirty::Host, false)]);
    let no_input = TapeEntry {
        op: BackwardOp::Exp,
        output_id: 0,
        input_ids: vec![],
        saved: SavedContext::Tensor(0),
    };
    assert_eq!(
        exp_backward(&no_input, 0, &mut store),
        Err(AutogradError::TapeInvariant { op: BackwardOp::Exp, fault: TapeFault::MissingInput })
    );
    let wrong_saved = TapeEntry {
        op: BackwardOp::Sigmoid,
        output_id: 0,
        input_ids: vec![0],
        saved: SavedContext::GeluCtx { x: 0 },
    };
    assert_eq!(
        sigmoid_backward(&wrong_saved, 0, &mut store),
        Err(AutogradError::TapeInvariant { op: BackwardOp::Sigmoid, fault: TapeFault::MissingSavedOutput })
    );
    assert_eq!(
        gelu_backward(&no_input, 0, &mut store),
        Err(AutogradError::TapeInvariant { op: BackwardOp::Gelu, fault: TapeFault::MissingSavedInput })
    );
}

#[test]
fn shape_mismatch_names_both_shapes() {
    let mut store = store_of(vec![
        tensor(&[2, 2], true, Dirty::Host, false),
        tensor(&[4], false, Dirty::Host, false),
    ]);
    let entry = TapeEntry {
        op: BackwardOp::Silu,
        output_id: 9,
        input_ids: vec![0],
        saved: SavedContext::SiluCtx { x: 0 },
    };
    assert_eq!(
        silu_backward(&entry, 1, &mut store),
        Err(AutogradError::ShapeMismatch { expected: vec![2, 2], got: vec![4] })
    );
    assert_eq!(silu_backward(&entry, 2, &mut store), Err(AutogradError::UnknownTensor(2)));
}
