use micro_platform::ir::{FontFamily, FontWeight, FunctionId, NodeId, TextStyle, UiKind};
use micro_platform::render::{
    patch_commands, tree_commands, DomCommand, MicroUiNode, MicroUiTree, RenderPatch, RenderPort, WebDom,
    WebRenderer,
};

#[derive(Default)]
struct FakeDom {
    calls: Vec<String>,
    refuse_at: Option<usize>,
}

impl FakeDom {
    fn record(&mut self, call: String) -> Result<(), String> {
        if self.refuse_at == Some(self.calls.len()) {
            return Err(format!("refused {call}"));
        }
        self.calls.push(call);
        Ok(())
    }
}

impl WebDom for FakeDom {
    fn create_column(&mut self, node: NodeId, parent: Option<NodeId>) -> Result<(), String> {
        self.record(format!("column {} {:?}", node.0, parent.map(|p| p.0)))
    }

    fn create_text(
        &mut self,
        node: NodeId,
        parent: Option<NodeId>,
        text: &str,
        style: Option<&TextStyle>,
    ) -> Result<(), String> {
        self.record(format!("text {} {:?} {text} {:?}", node.0, parent.map(|p| p.0), style.map(|s| s.size_px)))
    }

    fn create_button(
        &mut self,
        node: NodeId,
        parent: Option<NodeId>,
        text: &str,
        handler: FunctionId,
        _style: Option<&TextStyle>,
    ) -> Result<(), String> {
        self.record(format!("button {} {:?} {text} {}", node.0, parent.map(|p| p.0), handler.0))
    }

    fn set_text(&mut self, node: NodeId, text: &str) -> Result<(), String> {
        self.record(format!("set {} {text}", node.0))
    }
}

fn style() -> TextStyle {
    TextStyle { family: FontFamily::UiSans, size_px: 24, weight: FontWeight::Regular, line_height_px: 28 }
}

fn node(id: u32, kind: UiKind, children: Vec<u32>, text: &str, on_click: Option<u32>) -> MicroUiNode {
    MicroUiNode {
        id: NodeId(id),
        kind,
        children: children.into_iter().map(NodeId).collect(),
        text: text.to_string(),
        on_click: on_click.map(FunctionId),
        text_style: None,
    }
}

fn counter_tree() -> MicroUiTree {
    let mut label = node(1, UiKind::Text, vec![], "Count: 0", None);
    label.text_style = Some(style());
    MicroUiTree {
        nodes: vec![
            node(0, UiKind::Column, vec![1, 2], "", None),
            label,
            node(2, UiKind::Button, vec![], "Add", Some(3)),
        ],
        root: NodeId(0),
    }
}

#[test]
fn web_tree_maps_nodes_depth_first_under_their_parents() {
    let (commands, error) = tree_commands(&counter_tree());
    assert_eq!(error, None);
    assert_eq!(
        commands,
        vec![
            DomCommand::CreateColumn { node: NodeId(0), parent: None },
            DomCommand::CreateText {
                node: NodeId(1),
                parent: Some(NodeId(0)),
                text: "Count: 0".to_string(),
                style: Some(style()),
            },
            DomCommand::CreateButton {
                node: NodeId(2),
                parent: Some(NodeId(0)),
                text: "Add".to_string(),
                handler: FunctionId(3),
                style: None,
            },
        ]
    );
}

#[test]
fn web_renderer_creates_tree_through_the_dom_port() {
    let mut renderer = WebRenderer::new(FakeDom::default());
    assert_eq!(renderer.create_tree(&counter_tree()), Ok(()));
    assert_eq!(
        renderer.dom().calls,
        vec![
            "column 0 None".to_string(),
            "text 1 Some(0) Count: 0 Some(24)".to_string(),
            "button 2 Some(0) Add 3".to_string(),
        ]
    );
}

#[test]
fn web_patches_become_set_text_calls_in_order() {
    let patches = vec![
        RenderPatch::SetText { node: NodeId(1), text: "Count: 1".to_string() },
        RenderPatch::SetText { node: NodeId(1), text: "Count: 2".to_string() },
    ];
    assert_eq!(
        patch_commands(&patches),
        vec![
            DomCommand::SetText { node: NodeId(1), text: "Count: 1".to_string() },
            DomCommand::SetText { node: NodeId(1), text: "Count: 2".to_string() },
        ]
    );
    let mut renderer = WebRenderer::new(FakeDom::default());
    assert_eq!(renderer.apply(&patches), Ok(()));
    assert_eq!(renderer.dom().calls, vec!["set 1 Count: 1".to_string(), "set 1 Count: 2".to_string()]);
}

#[test]
fn web_missing_child_stops_the_walk_with_its_number() {
    let tree = MicroUiTree {
        nodes: vec![node(0, UiKind::Column, vec![1, 7, 1], "", None), node(1, UiKind::Text, vec![], "a", None)],
        root: NodeId(0),
    };
    let (commands, error) = tree_commands(&tree);
    assert_eq!(commands.len(), 2);
    assert_eq!(error.map(|e| e.to_string()), Some("node 7 is missing".to_string()));
    let mut renderer = WebRenderer::new(FakeDom::default());
    let result = renderer.create_tree(&tree);
    assert_eq!(result.map_err(|e| e.to_string()), Err("node 7 is missing".to_string()));
    assert_eq!(renderer.dom().calls.len(), 2);
}

#[test]
fn web_button_without_handler_is_refused() {
    let tree = MicroUiTree {
        nodes: vec![node(0, UiKind::Column, vec![1], "", None), node(1, UiKind::Button, vec![], "Go", None)],
        root: NodeId(0),
    };
    let (commands, error) = tree_commands(&tree);
    assert_eq!(commands, vec![DomCommand::CreateColumn { node: NodeId(0), parent: None }]);
    assert_eq!(error.map(|e| e.to_string()), Some("button 1 has no handler".to_string()));
}

#[test]
fn web_node_without_widget_is_refused() {
    let tree = MicroUiTree { nodes: vec![node(0, UiKind::Slider, vec![], "", None)], root: NodeId(0) };
    let (commands, error) = tree_commands(&tree);
    assert!(commands.is_empty());
    assert_eq!(error.map(|e| e.to_string()), Some("node 0 has no web widget".to_string()));
}

#[test]
fn web_dom_refusal_ends_creation_with_its_message() {
    let mut renderer = WebRenderer::new(FakeDom { calls: Vec::new(), refuse_at: Some(1) });
    let result = renderer.create_tree(&counter_tree());
    assert_eq!(result.map_err(|e| e.to_string()), Err("refused text 1 Some(0) Count: 0 Some(24)".to_string()));
    assert_eq!(renderer.dom().calls, vec!["column 0 None".to_string()]);
    renderer.dom_mut().refuse_at = None;
    assert_eq!(renderer.apply(&[RenderPatch::SetText { node: NodeId(2), text: "x".to_string() }]), Ok(()));
    assert_eq!(renderer.dom().calls.len(), 2);
}
