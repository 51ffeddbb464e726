//! What the effect graph canvas does with the clicks and drags it sees:
//! selecting a node, starting a connection at an output pin and finishing
//! it on an input pin, taking an undo snapshot when a node starts to move,
//! and a click on the empty canvas dropping the connection and the
//! selection. The graph edits themselves are the graph's own.
use vstd::prelude::*;

verus! {

/// A pin of a node: the node's id and the port's id.
#[derive(Clone, Debug)]
pub struct PortKey {
    pub node_id: String,
    pub port_id: String,
}

/// The canvas's selection and the connection being drawn.
pub struct GraphCanvas {
    pub selected_nodes: Vec<String>,
    pub selected_edge_id: Option<String>,
    /// The output pin a connection is being drawn from.
    pub connecting_from_port: Option<PortKey>,
    /// A node kind being dragged in from the palette.
    pub drag_palette_kind: Option<String>,
    /// The background is being dragged to pan the view.
    pub background_panning: bool,
    /// The node the view is to be centred on.
    pub focus_node_id: Option<String>,
}

/// What happened on the canvas in a frame.
pub enum CanvasEvent {
    /// A node's body was clicked.
    NodeClicked { node_id: String },
    /// An output pin was clicked.
    OutputPinClicked { pin: PortKey },
    /// The pointer was released over an input pin.
    ReleasedOnInputPin { pin: PortKey },
    /// A node's title started to be dragged.
    TitleDragStarted,
    /// The empty canvas was clicked.
    CanvasClicked,
}

/// What the canvas asks the graph to do.
pub enum CanvasAction {
    Nothing,
    /// Connect the output pin `from` to the input pin `to`.
    Connect { from: PortKey, to: PortKey },
    /// Remember the graph as it is, to undo the move that starts.
    PushUndoSnapshot,
    /// Remove the selected nodes and edge from the graph.
    RemoveSelected,
}

/// A key the graph workspace answers to.
#[derive(Clone, Copy, Debug, PartialEq, Eq, Structural)]
pub enum GraphShortcut {
    /// Delete: remove the selection.
    Delete,
    /// Escape: drop what is being drawn or dragged, and the selected edge.
    Escape,
    /// F: centre the view on the first selected node.
    Focus,
}

/// The canvas after `event`, and what it asks of the graph.
pub open spec fn canvas_step_outcome(
    before: GraphCanvas,
    after: GraphCanvas,
    event: CanvasEvent,
    action: CanvasAction,
) -> bool {
    match event {
        CanvasEvent::NodeClicked { node_id } => {
            &&& after.drag_palette_kind == before.drag_palette_kind
            &&& after.background_panning == before.background_panning
            &&& after.focus_node_id == before.focus_node_id
            &&& after.selected_nodes@.len() == 1
            &&& after.selected_nodes@[0]@ == node_id@
            &&& after.selected_edge_id is None
            &&& after.connecting_from_port == before.connecting_from_port
            &&& action is Nothing
        },
        CanvasEvent::OutputPinClicked { pin } => {
            &&& after.drag_palette_kind == before.drag_palette_kind
            &&& after.background_panning == before.background_panning
            &&& after.focus_node_id == before.focus_node_id
            &&& after.selected_nodes == before.selected_nodes
            &&& after.selected_edge_id == before.selected_edge_id
            &&& after.connecting_from_port matches Some(p) && p.node_id@ == pin.node_id@
                && p.port_id@ == pin.port_id@
            &&& action is Nothing
        },
        CanvasEvent::ReleasedOnInputPin { pin } => {
            &&& after.drag_palette_kind == before.drag_palette_kind
            &&& after.background_panning == before.background_panning
            &&& after.focus_node_id == before.focus_node_id
            &&& after.selected_nodes == before.selected_nodes
            &&& after.selected_edge_id == before.selected_edge_id
            &&& after.connecting_from_port is None
            &&& match before.connecting_from_port {
                Some(from) => action matches CanvasAction::Connect { from: f, to: t } && f.node_id@
                    == from.node_id@ && f.port_id@ == from.port_id@ && t.node_id@ == pin.node_id@
                    && t.port_id@ == pin.port_id@,
                None => action is Nothing,
            }
        },
        CanvasEvent::TitleDragStarted => {
            &&& after == before
            &&& action is PushUndoSnapshot
        },
        CanvasEvent::CanvasClicked => {
            &&& after.drag_palette_kind == before.drag_palette_kind
            &&& after.background_panning == before.background_panning
            &&& after.focus_node_id == before.focus_node_id
            &&& after.selected_nodes@.len() == 0
            &&& after.selected_edge_id is None
            &&& after.connecting_from_port is None
            &&& action is Nothing
        },
    }
}

impl GraphCanvas {
    /// Handles one event of the canvas (see `canvas_step_outcome`).
    pub fn effect_graph_canvas_step(&mut self, event: CanvasEvent) -> (action: CanvasAction)
        ensures
            canvas_step_outcome(*old(self), *final(self), event, action),
    {
        match event {
            CanvasEvent::NodeClicked { node_id } => {
                let mut only: Vec<String> = Vec::new();
                only.push(node_id);
                self.selected_nodes = only;
                self.selected_edge_id = None;
                CanvasAction::Nothing
            },
            CanvasEvent::OutputPinClicked { pin } => {
                self.connecting_from_port = Some(pin);
                CanvasAction::Nothing
            },
            CanvasEvent::ReleasedOnInputPin { pin } => {
                let from = self.connecting_from_port.take();
                match from {
                    Some(f) => CanvasAction::Connect { from: f, to: pin },
                    None => CanvasAction::Nothing,
                }
            },
            CanvasEvent::TitleDragStarted => CanvasAction::PushUndoSnapshot,
            CanvasEvent::CanvasClicked => {
                self.connecting_from_port = None;
                self.selected_nodes = Vec::new();
                self.selected_edge_id = None;
                CanvasAction::Nothing
            },
        }
    }
}

/// The canvas after a workspace shortcut, and what it asks of the graph.
pub open spec fn shortcut_outcome(before: GraphCanvas, after: GraphCanvas, key: GraphShortcut, action: CanvasAction) -> bool {
    match key {
        GraphShortcut::Delete => after == before && action is RemoveSelected,
        GraphShortcut::Escape => {
            &&& after == (GraphCanvas {
                connecting_from_port: None,
                drag_palette_kind: None,
                selected_edge_id: None,
                background_panning: false,
                ..before
            })
            &&& action is Nothing
        },
        GraphShortcut::Focus => {
            &&& after == (GraphCanvas {
                focus_node_id: if before.selected_nodes@.len() > 0 {
                    Some(before.selected_nodes@[0])
                } else {
                    before.focus_node_id
                },
                ..before
            })
            &&& action is Nothing
        },
    }
}

impl GraphCanvas {
    /// Handles a shortcut of the graph workspace (see `shortcut_outcome`).
    pub fn effect_graph_shortcut(&mut self, key: GraphShortcut) -> (action: CanvasAction)
        ensures
            shortcut_outcome(*old(self), *final(self), key, action),
    {
        match key {
            GraphShortcut::Delete => CanvasAction::RemoveSelected,
            GraphShortcut::Escape => {
                self.connecting_from_port = None;
                self.drag_palette_kind = None;
                self.selected_edge_id = None;
                self.background_panning = false;
                CanvasAction::Nothing
            },
            GraphShortcut::Focus => {
                if self.selected_nodes.len() > 0 {
                    self.focus_node_id = Some(self.selected_nodes[0].clone());
                }
                CanvasAction::Nothing
            },
        }
    }
}

/// A connection ends with the release on an input pin: afterwards none is
/// being drawn, and one release connects at most once.
pub proof fn lemma_release_connects_once(
    before: GraphCanvas,
    mid: GraphCanvas,
    after: GraphCanvas,
    first_pin: PortKey,
    second_pin: PortKey,
    first: CanvasAction,
    second: CanvasAction,
)
    requires
        canvas_step_outcome(before, mid, CanvasEvent::ReleasedOnInputPin { pin: first_pin }, first),
        canvas_step_outcome(mid, after, CanvasEvent::ReleasedOnInputPin { pin: second_pin }, second),
    ensures
        second is Nothing,
        after.connecting_from_port is None,
{
}

/// How many channel boxes a mono mix node shows: one per channel it knows
/// of, eight at least.
pub fn mono_mix_channel_rows(ignored_len: usize) -> (count: usize)
    ensures
        count == if ignored_len >= 8 { ignored_len } else { 8 },
{
    if ignored_len >= 8 {
        ignored_len
    } else {
        8
    }
}

/// The mono mix node's ignored channels after channel `channel`'s box was
/// set to `checked`: the list grows with unignored channels up to it when
/// needed. The caller takes an undo snapshot and stores the list.
pub fn set_ignored_channel(ignored: &mut Vec<bool>, channel: usize, checked: bool)
    requires
        channel < usize::MAX,
    ensures
        final(ignored)@.len() == if channel < old(ignored)@.len() {
            old(ignored)@.len()
        } else {
            (channel + 1) as nat
        },
        final(ignored)@[channel as int] == checked,
        forall|k: int|
            0 <= k < final(ignored)@.len() && k != channel ==> #[trigger] final(ignored)@[k] == if k
                < old(ignored)@.len() {
                old(ignored)@[k]
            } else {
                false
            },
{
    while ignored.len() <= channel
        invariant
            channel < usize::MAX,
            ignored@.len() >= old(ignored)@.len(),
            ignored@.len() <= if channel < old(ignored)@.len() {
                old(ignored)@.len()
            } else {
                (channel + 1) as nat
            },
            forall|k: int|
                0 <= k < ignored@.len() ==> #[trigger] ignored@[k] == if k < old(ignored)@.len() {
                    old(ignored)@[k]
                } else {
                    false
                },
        decreases channel + 1 - ignored@.len(),
    {
        ignored.push(false);
    }
    ignored.set(channel, checked);
}

/// The depths a bit depth node offers.
#[derive(Clone, Copy, Debug, PartialEq, Eq, Structural)]
pub enum GraphBitDepth {
    Pcm16,
    Pcm24,
    Float32,
}

/// The bit depth node's depth after `option` was clicked: a new depth
/// (after an undo snapshot, marking the draft edited and checking it again)
/// only when it differs from the current one.
pub fn choose_bit_depth(current: GraphBitDepth, option: GraphBitDepth) -> (change: Option<GraphBitDepth>)
    ensures
        change == if option == current {
            None
        } else {
            Some(option)
        },
{
    if option == current {
        None
    } else {
        Some(option)
    }
}

} // verus!
