//! wlr-layer-shell policy: which output a new layer surface lands on, and
//! which layer holds exclusive keyboard focus.

use vstd::prelude::*;

use crate::frontend::WaylandFrontend;
use crate::topology::OutputId;

verus! {

/// The stacking layer of a layer surface.
#[derive(Clone, Copy, Debug, PartialEq, Eq, Structural)]
pub enum LayerKind {
    Background,
    Bottom,
    Top,
    Overlay,
}

/// A mapped layer surface: its surface, layer, and whether it asked for
/// exclusive keyboard interactivity.
#[derive(Clone, Copy, Debug, PartialEq, Eq, Structural)]
pub struct MappedLayer {
    pub surface: u64,
    pub kind: LayerKind,
    pub exclusive_keyboard: bool,
}

/// The topmost layer of `kind` among `layers` (bottom first) that wants
/// exclusive keyboard focus.
pub open spec fn topmost_exclusive(layers: Seq<MappedLayer>, kind: LayerKind) -> Option<u64>
    decreases layers.len(),
{
    if layers.len() == 0 {
        None
    } else if layers.last().kind == kind && layers.last().exclusive_keyboard {
        Some(layers.last().surface)
    } else {
        topmost_exclusive(layers.drop_last(), kind)
    }
}

/// The first output, in order, with such a layer of `kind`, and that layer.
pub open spec fn first_output_exclusive(outputs: Seq<Seq<MappedLayer>>, kind: LayerKind) -> Option<u64>
    decreases outputs.len(),
{
    if outputs.len() == 0 {
        None
    } else {
        match first_output_exclusive(outputs.drop_last(), kind) {
            Some(surface) => Some(surface),
            None => topmost_exclusive(outputs.last(), kind),
        }
    }
}

/// The layer that holds exclusive keyboard focus: an overlay layer before a
/// top layer, the first output first, the topmost layer of an output first.
pub open spec fn spec_exclusive_layer_keyboard_focus(outputs: Seq<Seq<MappedLayer>>) -> Option<u64> {
    match first_output_exclusive(outputs, LayerKind::Overlay) {
        Some(surface) => Some(surface),
        None => first_output_exclusive(outputs, LayerKind::Top),
    }
}

fn topmost_exclusive_layer(layers: &Vec<MappedLayer>, kind: LayerKind) -> (surface: Option<u64>)
    ensures
        surface == topmost_exclusive(layers@, kind),
{
    let mut j: usize = layers.len();
    assert(layers@.subrange(0, j as int) =~= layers@);
    while j > 0
        invariant
            j <= layers@.len(),
            topmost_exclusive(layers@, kind) == topmost_exclusive(layers@.subrange(0, j as int), kind),
        decreases j,
    {
        let layer = layers[j - 1];
        proof {
            let prefix = layers@.subrange(0, j as int);
            assert(prefix.last() == layer);
            assert(prefix.drop_last() =~= layers@.subrange(0, j - 1));
        }
        if layer.kind == kind && layer.exclusive_keyboard {
            return Some(layer.surface);
        }
        j = j - 1;
    }
    assert(layers@.subrange(0, 0) =~= Seq::<MappedLayer>::empty());
    None
}

/// The layers of each output, as sequences.
pub open spec fn layer_views(outputs: Seq<Vec<MappedLayer>>) -> Seq<Seq<MappedLayer>> {
    outputs.map_values(|layers: Vec<MappedLayer>| layers@)
}

fn first_output_exclusive_layer(outputs: &Vec<Vec<MappedLayer>>, kind: LayerKind) -> (surface: Option<u64>)
    ensures
        surface == first_output_exclusive(layer_views(outputs@), kind),
{
    let ghost views = layer_views(outputs@);
    let mut i: usize = 0;
    while i < outputs.len()
        invariant
            i <= outputs@.len(),
            views == layer_views(outputs@),
            first_output_exclusive(views.subrange(0, i as int), kind) is None,
        decreases outputs@.len() - i,
    {
        let found = topmost_exclusive_layer(&outputs[i], kind);
        proof {
            let prefix = views.subrange(0, i + 1);
            assert(prefix.drop_last() =~= views.subrange(0, i as int));
            assert(prefix.last() == outputs@[i as int]@);
            lemma_first_output_exclusive_prefix(views, kind, i + 1);
        }
        if found.is_some() {
            return found;
        }
        i = i + 1;
    }
    assert(views.subrange(0, views.len() as int) =~= views);
    None
}

/// Once a prefix of the outputs has such a layer, the whole list answers
/// with that prefix's layer.
proof fn lemma_first_output_exclusive_prefix(outputs: Seq<Seq<MappedLayer>>, kind: LayerKind, n: int)
    requires
        0 <= n <= outputs.len(),
    ensures
        first_output_exclusive(outputs.subrange(0, n), kind) is Some
            ==> first_output_exclusive(outputs, kind) == first_output_exclusive(outputs.subrange(0, n), kind),
    decreases outputs.len() - n,
{
    if n < outputs.len() {
        lemma_first_output_exclusive_prefix(outputs, kind, n + 1);
        let longer = outputs.subrange(0, n + 1);
        assert(longer.drop_last() =~= outputs.subrange(0, n));
    } else {
        assert(outputs.subrange(0, n) =~= outputs);
    }
}

/// The layer surface that keeps keyboard focus whatever the pointer does,
/// given each output's mapped layers bottom first.
pub fn exclusive_layer_keyboard_focus(outputs: &Vec<Vec<MappedLayer>>) -> (surface: Option<u64>)
    ensures
        surface == spec_exclusive_layer_keyboard_focus(layer_views(outputs@)),
{
    match first_output_exclusive_layer(outputs, LayerKind::Overlay) {
        Some(surface) => Some(surface),
        None => first_output_exclusive_layer(outputs, LayerKind::Top),
    }
}

fn output_connected(outputs: &Vec<OutputId>, output: OutputId) -> (connected: bool)
    ensures
        connected == outputs@.contains(output),
{
    let mut i: usize = 0;
    while i < outputs.len()
        invariant
            i <= outputs@.len(),
            forall|j: int| 0 <= j < i ==> outputs@[j] != output,
        decreases outputs@.len() - i,
    {
        if outputs[i].0 == output.0 {
            assert(outputs@[i as int] == output);
            return true;
        }
        i = i + 1;
    }
    false
}

/// The output a new layer surface lands on: the one it asked for when that
/// output is connected, else the first connected output.
pub fn layer_surface_output(requested: Option<OutputId>, outputs: &Vec<OutputId>) -> (output: Option<OutputId>)
    ensures
        output == (if requested is Some && outputs@.contains(requested->0) {
            requested
        } else if outputs@.len() > 0 {
            Some(outputs@[0])
        } else {
            None
        }),
{
    match requested {
        Some(wanted) => {
            if output_connected(outputs, wanted) {
                return requested;
            }
        },
        None => {},
    }
    if outputs.len() > 0 {
        Some(outputs[0])
    } else {
        None
    }
}

/// What a commit of a layer surface does.
#[derive(Clone, Copy, Debug, PartialEq, Eq, Structural)]
pub enum LayerCommit {
    /// Not a layer root on a connected output: nothing to arrange.
    Ignored,
    /// Arrange the output's layers, and send the first configure when
    /// `send_initial_configure`.
    Arrange { send_initial_configure: bool },
}

/// Decides a layer-shell commit: only the root surface of a layer on a
/// connected output is arranged, and a mapped layer that has not had its
/// first configure gets it.
pub fn commit_layer_surface(
    committed_is_root: bool,
    output_connected: bool,
    initial_configure_sent: bool,
    layer_mapped: bool,
) -> (commit: LayerCommit)
    ensures
        commit == (if committed_is_root && output_connected {
            LayerCommit::Arrange { send_initial_configure: !initial_configure_sent && layer_mapped }
        } else {
            LayerCommit::Ignored
        }),
{
    if committed_is_root && output_connected {
        LayerCommit::Arrange { send_initial_configure: !initial_configure_sent && layer_mapped }
    } else {
        LayerCommit::Ignored
    }
}

/// The layers mapped on an output, bottom first: those of its first map
/// entry, none when it has no entry.
pub open spec fn layers_of(maps: Seq<(OutputId, Vec<MappedLayer>)>, output: OutputId) -> Seq<MappedLayer>
    decreases maps.len(),
{
    if maps.len() == 0 {
        Seq::empty()
    } else if maps[0].0 == output {
        maps[0].1@
    } else {
        layers_of(maps.drop_first(), output)
    }
}

fn layers_for_output(maps: &Vec<(OutputId, Vec<MappedLayer>)>, output: OutputId) -> (layers: Vec<MappedLayer>)
    ensures
        layers@ == layers_of(maps@, output),
{
    let mut i: usize = 0;
    assert(maps@.subrange(0, maps@.len() as int) =~= maps@);
    while i < maps.len()
        invariant
            i <= maps@.len(),
            layers_of(maps@, output) == layers_of(maps@.subrange(i as int, maps@.len() as int), output),
        decreases maps@.len() - i,
    {
        let ghost rest = maps@.subrange(i as int, maps@.len() as int);
        assert(rest[0] == maps@[i as int]);
        assert(rest.drop_first() =~= maps@.subrange(i + 1, maps@.len() as int));
        if maps[i].0.0 == output.0 {
            return maps[i].1.clone();
        }
        i = i + 1;
    }
    Vec::new()
}

impl WaylandFrontend {
    /// The layer surface that keeps keyboard focus, from each output's layer
    /// map; outputs are taken in the frontend's order.
    pub fn exclusive_layer_keyboard_focus(&self, maps: &Vec<(OutputId, Vec<MappedLayer>)>) -> (surface: Option<u64>)
        ensures
            surface == spec_exclusive_layer_keyboard_focus(
                Seq::new(self@.outputs.len(), |i: int| layers_of(maps@, self@.outputs[i])),
            ),
    {
        let mut ordered: Vec<Vec<MappedLayer>> = Vec::new();
        let mut i: usize = 0;
        while i < self.outputs.len()
            invariant
                i <= self@.outputs.len(),
                self@.outputs == self.outputs@,
                ordered@.len() == i,
                forall|j: int| 0 <= j < i ==> (#[trigger] ordered@[j])@ == layers_of(maps@, self@.outputs[j]),
            decreases self@.outputs.len() - i,
        {
            ordered.push(layers_for_output(maps, self.outputs[i]));
            i = i + 1;
        }
        proof {
            assert(layer_views(ordered@) =~= Seq::new(self@.outputs.len(), |k: int| layers_of(maps@, self@.outputs[k])));
        }
        exclusive_layer_keyboard_focus(&ordered)
    }
}

} // verus!
