//! The recurrent state of linear-attention layers: per layer a recurrent
//! state buffer and a causal-conv state buffer, the number of tokens the
//! state has absorbed, and the post-prefill snapshot that a prefix-cache
//! hit rolls back to. The element types are generic: `S` for the recurrent
//! state, `C` for the conv state.

use vstd::prelude::*;

verus! {

/// Buffer sizes of the recurrent state of a model's linear-attention layers.
#[derive(Clone, Copy, Debug, PartialEq, Eq, Structural)]
pub struct RecurrentLayout {
    /// One recurrent state per layer that is not full attention.
    pub num_linear_layers: usize,
    /// Elements of one layer's recurrent state: heads x key dim x value dim.
    pub state_size: usize,
    /// Elements of one layer's conv state: the last `kernel - 1` inputs.
    pub conv_state_size: usize,
}

/// The buffer sizes of a model with `num_hidden_layers` layers of which
/// `num_full_attention_layers` use full attention.
pub fn recurrent_layout(
    num_hidden_layers: usize,
    num_full_attention_layers: usize,
    num_value_heads: usize,
    key_head_dim: usize,
    value_head_dim: usize,
    qkv_dim: usize,
    conv_kernel_dim: usize,
) -> (r: RecurrentLayout)
    requires
        num_full_attention_layers <= num_hidden_layers,
        conv_kernel_dim >= 1,
        num_value_heads * key_head_dim <= usize::MAX,
        num_value_heads * key_head_dim * value_head_dim <= usize::MAX,
        qkv_dim * (conv_kernel_dim - 1) <= usize::MAX,
    ensures
        r.num_linear_layers == num_hidden_layers - num_full_attention_layers,
        r.state_size == num_value_heads * key_head_dim * value_head_dim,
        r.conv_state_size == qkv_dim * (conv_kernel_dim - 1),
{
    RecurrentLayout {
        num_linear_layers: num_hidden_layers - num_full_attention_layers,
        state_size: num_value_heads * key_head_dim * value_head_dim,
        conv_state_size: qkv_dim * (conv_kernel_dim - 1),
    }
}

/// The buffers of one linear-attention layer.
#[derive(Clone, Debug, PartialEq)]
pub struct LayerRecurrentState<S, C> {
    pub state: Vec<S>,
    pub conv_state: Vec<C>,
}

/// A copy of all layers' buffers and the token count at the time it was
/// taken.
#[derive(Clone, Debug, PartialEq)]
pub struct RecurrentSnapshot<S, C> {
    pub layers: Vec<LayerRecurrentState<S, C>>,
    pub seq_len: usize,
}

/// The recurrent state of all linear-attention layers of one sequence.
#[derive(Clone, Debug, PartialEq)]
pub struct RecurrentState<S, C> {
    pub layout: RecurrentLayout,
    pub layers: Vec<LayerRecurrentState<S, C>>,
    /// Tokens processed so far.
    pub seq_len: usize,
    /// The post-prefill snapshot, once saved.
    pub snapshot: Option<RecurrentSnapshot<S, C>>,
}

/// The contents of a list of layers: each layer's two buffers.
pub open spec fn layers_view<S, C>(ls: Seq<LayerRecurrentState<S, C>>) -> Seq<(Seq<S>, Seq<C>)> {
    ls.map_values(|l: LayerRecurrentState<S, C>| (l.state@, l.conv_state@))
}

/// The contents of a state, its layout aside: its layers' buffers, its
/// token count, and its snapshot's buffers and token count.
pub open spec fn contents_view<S, C>(s: RecurrentState<S, C>) -> (
    Seq<(Seq<S>, Seq<C>)>,
    usize,
    Option<(Seq<(Seq<S>, Seq<C>)>, usize)>,
) {
    (
        layers_view(s.layers@),
        s.seq_len,
        match s.snapshot {
            Some(snap) => Some((layers_view(snap.layers@), snap.seq_len)),
            None => None,
        },
    )
}

/// Every layer zeroed: the buffers keep their lengths and hold only zeros.
pub open spec fn zeroed_layers<S, C>(ls: Seq<(Seq<S>, Seq<C>)>, zero_s: S, zero_c: C) -> Seq<
    (Seq<S>, Seq<C>),
> {
    ls.map_values(
        |l: (Seq<S>, Seq<C>)|
            (Seq::new(l.0.len(), |i: int| zero_s), Seq::new(l.1.len(), |i: int| zero_c)),
    )
}

/// The contents after a reset: the buffers zeroed, no tokens, the snapshot
/// kept.
pub open spec fn reset_spec<S, C>(
    v: (Seq<(Seq<S>, Seq<C>)>, usize, Option<(Seq<(Seq<S>, Seq<C>)>, usize)>),
    zero_s: S,
    zero_c: C,
) -> (Seq<(Seq<S>, Seq<C>)>, usize, Option<(Seq<(Seq<S>, Seq<C>)>, usize)>) {
    (zeroed_layers(v.0, zero_s, zero_c), 0, v.2)
}

/// The contents after saving: the snapshot becomes a copy of the buffers
/// and the token count; the live state is unchanged.
pub open spec fn save_spec<S, C>(
    v: (Seq<(Seq<S>, Seq<C>)>, usize, Option<(Seq<(Seq<S>, Seq<C>)>, usize)>),
) -> (Seq<(Seq<S>, Seq<C>)>, usize, Option<(Seq<(Seq<S>, Seq<C>)>, usize)>) {
    (v.0, v.1, Some((v.0, v.1)))
}

/// The contents after a restore, and whether there was a snapshot: each
/// layer the snapshot holds gets the snapshot's buffers back, and the token
/// count becomes the snapshot's; without a snapshot nothing changes.
pub open spec fn restore_spec<S, C>(
    v: (Seq<(Seq<S>, Seq<C>)>, usize, Option<(Seq<(Seq<S>, Seq<C>)>, usize)>),
) -> ((Seq<(Seq<S>, Seq<C>)>, usize, Option<(Seq<(Seq<S>, Seq<C>)>, usize)>), bool) {
    match v.2 {
        Some((ls, n)) => ((ls + v.0.subrange(ls.len() as int, v.0.len() as int), n, v.2), true),
        None => (v, false),
    }
}

/// A vector of `n` copies of `x`.
fn filled<T: Copy>(n: usize, x: T) -> (r: Vec<T>)
    ensures
        r@ == Seq::new(n as nat, |i: int| x),
{
    let mut v: Vec<T> = Vec::new();
    let mut i: usize = 0;
    while i < n
        invariant
            i <= n,
            v@ == Seq::new(i as nat, |k: int| x),
        decreases n - i,
    {
        v.push(x);
        i = i + 1;
        assert(v@ =~= Seq::new(i as nat, |k: int| x));
    }
    v
}

/// An element-by-element copy of a buffer.
fn copy_buffer<T: Copy>(v: &Vec<T>) -> (r: Vec<T>)
    ensures
        r@ == v@,
{
    let mut out: Vec<T> = Vec::new();
    let mut i: usize = 0;
    while i < v.len()
        invariant
            i <= v@.len(),
            out@ == v@.subrange(0, i as int),
        decreases v.len() - i,
    {
        out.push(v[i]);
        i = i + 1;
        assert(out@ =~= v@.subrange(0, i as int));
    }
    assert(v@.subrange(0, v@.len() as int) =~= v@);
    out
}

/// A copy of every layer's buffers.
fn copy_layers<S: Copy, C: Copy>(ls: &Vec<LayerRecurrentState<S, C>>) -> (r: Vec<
    LayerRecurrentState<S, C>,
>)
    ensures
        layers_view(r@) == layers_view(ls@),
{
    let mut out: Vec<LayerRecurrentState<S, C>> = Vec::new();
    let mut i: usize = 0;
    while i < ls.len()
        invariant
            i <= ls@.len(),
            layers_view(out@) == layers_view(ls@.subrange(0, i as int)),
        decreases ls.len() - i,
    {
        let layer = LayerRecurrentState {
            state: copy_buffer(&ls[i].state),
            conv_state: copy_buffer(&ls[i].conv_state),
        };
        let ghost before = out@;
        out.push(layer);
        i = i + 1;
        assert(layers_view(out@) =~= layers_view(before).push((layer.state@, layer.conv_state@)));
        assert(layers_view(ls@.subrange(0, i as int)) =~= layers_view(ls@.subrange(0, i - 1)).push(
            (ls@[i - 1].state@, ls@[i - 1].conv_state@),
        ));
    }
    assert(ls@.subrange(0, ls@.len() as int) =~= ls@);
    out
}

impl<S: Copy, C: Copy> RecurrentState<S, C> {
    /// A zeroed state for `layout`: every layer's buffers hold only zeros,
    /// no tokens are counted and there is no snapshot.
    pub fn new(layout: RecurrentLayout, zero_s: S, zero_c: C) -> (r: Self)
        ensures
            r.layout == layout,
            r.seq_len == 0,
            r.snapshot is None,
            layers_view(r.layers@) == Seq::new(
                layout.num_linear_layers as nat,
                |i: int|
                    (
                        Seq::new(layout.state_size as nat, |k: int| zero_s),
                        Seq::new(layout.conv_state_size as nat, |k: int| zero_c),
                    ),
            ),
    {
        let ghost target = Seq::new(
            layout.num_linear_layers as nat,
            |i: int|
                (
                    Seq::new(layout.state_size as nat, |k: int| zero_s),
                    Seq::new(layout.conv_state_size as nat, |k: int| zero_c),
                ),
        );
        let mut layers: Vec<LayerRecurrentState<S, C>> = Vec::new();
        let mut i: usize = 0;
        while i < layout.num_linear_layers
            invariant
                i <= layout.num_linear_layers,
                target == Seq::new(
                    layout.num_linear_layers as nat,
                    |i: int|
                        (
                            Seq::new(layout.state_size as nat, |k: int| zero_s),
                            Seq::new(layout.conv_state_size as nat, |k: int| zero_c),
                        ),
                ),
                layers_view(layers@) == target.subrange(0, i as int),
            decreases layout.num_linear_layers - i,
        {
            let layer = LayerRecurrentState {
                state: filled(layout.state_size, zero_s),
                conv_state: filled(layout.conv_state_size, zero_c),
            };
            let ghost before = layers@;
            layers.push(layer);
            i = i + 1;
            assert(layers_view(layers@) =~= layers_view(before).push((layer.state@, layer.conv_state@)));
            assert(layers_view(layers@) =~= target.subrange(0, i as int));
        }
        assert(target.subrange(0, target.len() as int) =~= target);
        RecurrentState { layout, layers, seq_len: 0, snapshot: None }
    }

    /// Starts a new generation: every buffer is zeroed in place and no
    /// token is counted; a saved snapshot stays.
    pub fn reset(&mut self, zero_s: S, zero_c: C)
        ensures
            contents_view(*final(self)) == reset_spec(contents_view(*old(self)), zero_s, zero_c),
            final(self).layout == old(self).layout,
    {
        let ghost old_layers = layers_view(self.layers@);
        let mut layers: Vec<LayerRecurrentState<S, C>> = Vec::new();
        let mut i: usize = 0;
        while i < self.layers.len()
            invariant
                i <= self.layers@.len(),
                old_layers == layers_view(self.layers@),
                layers_view(layers@) == zeroed_layers(old_layers.subrange(0, i as int), zero_s, zero_c),
            decreases self.layers.len() - i,
        {
            let layer = LayerRecurrentState {
                state: filled(self.layers[i].state.len(), zero_s),
                conv_state: filled(self.layers[i].conv_state.len(), zero_c),
            };
            let ghost before = layers@;
            layers.push(layer);
            i = i + 1;
            assert(layers_view(layers@) =~= layers_view(before).push((layer.state@, layer.conv_state@)));
            assert(zeroed_layers(old_layers.subrange(0, i as int), zero_s, zero_c) =~= zeroed_layers(
                old_layers.subrange(0, i - 1),
                zero_s,
                zero_c,
            ).push(
                (
                    Seq::new(old_layers[i - 1].0.len(), |k: int| zero_s),
                    Seq::new(old_layers[i - 1].1.len(), |k: int| zero_c),
                ),
            ));
            assert(layers_view(layers@) =~= zeroed_layers(old_layers.subrange(0, i as int), zero_s, zero_c));
        }
        assert(old_layers.subrange(0, old_layers.len() as int) =~= old_layers);
        self.layers = layers;
        self.seq_len = 0;
    }

    /// Saves the current buffers and token count as the snapshot, replacing
    /// any earlier one.
    pub fn save_snapshot(&mut self)
        ensures
            contents_view(*final(self)) == save_spec(contents_view(*old(self))),
            final(self).layout == old(self).layout,
    {
        let layers = copy_layers(&self.layers);
        self.snapshot = Some(RecurrentSnapshot { layers, seq_len: self.seq_len });
    }

    /// Rolls the buffers and token count back to the saved snapshot, layer
    /// by layer, and reports whether there was one; without a snapshot
    /// nothing changes. The state must still have every layer the snapshot
    /// holds.
    pub fn restore_snapshot(&mut self) -> (restored: bool)
        requires
            old(self).snapshot matches Some(snap) ==> snap.layers@.len() <= old(self).layers@.len(),
        ensures
            (contents_view(*final(self)), restored) == restore_spec(contents_view(*old(self))),
            final(self).layout == old(self).layout,
    {
        let ghost v0 = contents_view(*self);
        let copied = match &self.snapshot {
            Some(snap) => Some((copy_layers(&snap.layers), snap.seq_len)),
            None => None,
        };
        match copied {
            Some((layers, n)) => {
                let ghost live = layers_view(self.layers@);
                let ghost saved = layers_view(layers@);
                let ghost snapshot0 = self.snapshot;
                let ghost layout0 = self.layout;
                assert(v0.2 == Some((saved, n)));
                assert(layers@.len() == saved.len());
                assert(self.layers@.len() == live.len());
                assert(self.snapshot matches Some(sn) && layers_view(sn.layers@).len() == sn.layers@.len());
                let mut i: usize = 0;
                while i < layers.len()
                    invariant
                        i <= layers@.len(),
                        self.snapshot == snapshot0,
                        self.layout == layout0,
                        layers@.len() <= self.layers@.len(),
                        saved == layers_view(layers@),
                        live.len() == self.layers@.len(),
                        layers_view(self.layers@) == saved.subrange(0, i as int) + live.subrange(
                            i as int,
                            live.len() as int,
                        ),
                    decreases layers.len() - i,
                {
                    let layer = LayerRecurrentState {
                        state: copy_buffer(&layers[i].state),
                        conv_state: copy_buffer(&layers[i].conv_state),
                    };
                    let ghost before = self.layers@;
                    self.layers.set(i, layer);
                    assert(layers_view(self.layers@) =~= layers_view(before).update(
                        i as int,
                        (layer.state@, layer.conv_state@),
                    ));
                    i = i + 1;
                    assert(layers_view(self.layers@) =~= saved.subrange(0, i as int) + live.subrange(
                        i as int,
                        live.len() as int,
                    ));
                }
                assert(saved.subrange(0, saved.len() as int) =~= saved);
                self.seq_len = n;
                assert(contents_view(*self).2 == v0.2);
                true
            },
            None => false,
        }
    }
}

/// Restoring after a save gives back the buffers and the token count at the
/// save, whatever was written to the buffers (of the same layers), however
/// many tokens were processed, and whether or not the state was reset in
/// between; the snapshot survives the restore.
pub proof fn lemma_restore_returns_saved<S, C>(
    v: (Seq<(Seq<S>, Seq<C>)>, usize, Option<(Seq<(Seq<S>, Seq<C>)>, usize)>),
    later_layers: Seq<(Seq<S>, Seq<C>)>,
    later_seq_len: usize,
    reset_between: bool,
    zero_s: S,
    zero_c: C,
)
    requires
        later_layers.len() == v.0.len(),
    ensures
        ({
            let saved = save_spec(v);
            let advanced = (later_layers, later_seq_len, saved.2);
            let before = if reset_between {
                reset_spec(advanced, zero_s, zero_c)
            } else {
                advanced
            };
            restore_spec(before) == ((v.0, v.1, Some((v.0, v.1))), true)
        }),
{
    assert(v.0 + later_layers.subrange(v.0.len() as int, later_layers.len() as int) =~= v.0);
    let z = zeroed_layers(later_layers, zero_s, zero_c);
    assert(v.0 + z.subrange(v.0.len() as int, z.len() as int) =~= v.0);
}

/// Restoring twice is the same as restoring once.
pub proof fn lemma_restore_idempotent<S, C>(
    v: (Seq<(Seq<S>, Seq<C>)>, usize, Option<(Seq<(Seq<S>, Seq<C>)>, usize)>),
)
    ensures
        restore_spec(restore_spec(v).0).0 == restore_spec(v).0,
{
}

/// Without a saved snapshot a restore changes nothing and reports so.
pub proof fn lemma_restore_without_snapshot<S, C>(
    v: (Seq<(Seq<S>, Seq<C>)>, usize, Option<(Seq<(Seq<S>, Seq<C>)>, usize)>),
)
    requires
        v.2 is None,
    ensures
        restore_spec(v) == (v, false),
{
}

/// A reset zeroes every buffer of every layer, the conv state as well as
/// the recurrent state, keeps each buffer's length and the number of
/// layers, clears the token count and keeps the snapshot.
pub proof fn lemma_reset_zeroes_every_buffer<S, C>(
    v: (Seq<(Seq<S>, Seq<C>)>, usize, Option<(Seq<(Seq<S>, Seq<C>)>, usize)>),
    zero_s: S,
    zero_c: C,
)
    ensures
        ({
            let r = reset_spec(v, zero_s, zero_c);
            &&& r.0.len() == v.0.len()
            &&& r.1 == 0
            &&& r.2 == v.2
            &&& forall|i: int|
                0 <= i < v.0.len() ==> {
                    &&& (#[trigger] r.0[i]).0.len() == v.0[i].0.len()
                    &&& r.0[i].1.len() == v.0[i].1.len()
                    &&& forall|j: int| 0 <= j < r.0[i].0.len() ==> r.0[i].0[j] == zero_s
                    &&& forall|j: int| 0 <= j < r.0[i].1.len() ==> r.0[i].1[j] == zero_c
                }
        }),
{
}

} // verus!
