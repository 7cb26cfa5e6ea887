//! The platform-neutral UI tree, its patches, and the web renderer that
//! turns them into commands for a narrow DOM port.
//!
//! Creating the tree walks it depth first from the root: each node becomes
//! one DOM command under its parent, then its children follow in order. The
//! web port draws columns, texts and buttons; a missing node, a button
//! without a handler, or a node of another kind ends the walk with an error.
use vstd::prelude::*;
use vstd::string::StringExecFns;
use crate::ir::{FunctionId, NodeId, TextStyle, UiKind};
use crate::text::{decimal, push_decimal};

verus! {

#[derive(Debug, Clone, PartialEq, Eq)]
pub struct MicroUiNode {
    pub id: NodeId,
    pub kind: UiKind,
    pub children: Vec<NodeId>,
    pub text: String,
    pub on_click: Option<FunctionId>,
    pub text_style: Option<TextStyle>,
}

#[derive(Debug, Clone, PartialEq, Eq)]
pub struct MicroUiTree {
    pub nodes: Vec<MicroUiNode>,
    pub root: NodeId,
}

#[derive(Debug, Clone, PartialEq, Eq)]
pub enum RenderPatch {
    SetText { node: NodeId, text: String },
}

#[derive(Debug, Clone, PartialEq, Eq)]
pub struct RenderError(pub String);

impl RenderError {
    /// The message.
    pub fn to_string(&self) -> (text: String)
        ensures
            text@ == self.0@,
    {
        self.0.clone()
    }
}

/// A UI node as values.
pub struct NodeValue {
    pub id: NodeId,
    pub kind: UiKind,
    pub children: Seq<NodeId>,
    pub text: Seq<char>,
    pub on_click: Option<FunctionId>,
    pub text_style: Option<TextStyle>,
}

impl View for MicroUiNode {
    type V = NodeValue;

    open spec fn view(&self) -> NodeValue {
        NodeValue {
            id: self.id,
            kind: self.kind,
            children: self.children@,
            text: self.text@,
            on_click: self.on_click,
            text_style: self.text_style,
        }
    }
}

/// One call on the DOM port.
#[derive(Debug, Clone, PartialEq, Eq)]
pub enum DomCommand {
    CreateColumn { node: NodeId, parent: Option<NodeId> },
    CreateText { node: NodeId, parent: Option<NodeId>, text: String, style: Option<TextStyle> },
    CreateButton {
        node: NodeId,
        parent: Option<NodeId>,
        text: String,
        handler: FunctionId,
        style: Option<TextStyle>,
    },
    SetText { node: NodeId, text: String },
}

/// A DOM command as values.
pub enum CommandValue {
    CreateColumn(NodeId, Option<NodeId>),
    CreateText(NodeId, Option<NodeId>, Seq<char>, Option<TextStyle>),
    CreateButton(NodeId, Option<NodeId>, Seq<char>, FunctionId, Option<TextStyle>),
    SetText(NodeId, Seq<char>),
}

impl View for DomCommand {
    type V = CommandValue;

    open spec fn view(&self) -> CommandValue {
        match self {
            DomCommand::CreateColumn { node, parent } => CommandValue::CreateColumn(*node, *parent),
            DomCommand::CreateText { node, parent, text, style } => CommandValue::CreateText(
                *node,
                *parent,
                text@,
                *style,
            ),
            DomCommand::CreateButton { node, parent, text, handler, style } => CommandValue::CreateButton(
                *node,
                *parent,
                text@,
                *handler,
                *style,
            ),
            DomCommand::SetText { node, text } => CommandValue::SetText(*node, text@),
        }
    }
}

pub open spec fn commands_view(commands: Seq<DomCommand>) -> Seq<CommandValue> {
    commands.map_values(|c: DomCommand| c@)
}

pub open spec fn missing_text(id: NodeId) -> Seq<char> {
    "node "@ + decimal(id.0 as nat) + " is missing"@
}

pub open spec fn no_handler_text(id: NodeId) -> Seq<char> {
    "button "@ + decimal(id.0 as nat) + " has no handler"@
}

pub open spec fn unsupported_text(id: NodeId) -> Seq<char> {
    "node "@ + decimal(id.0 as nat) + " has no web widget"@
}

/// The command that creates `node` under `parent`, or why it cannot be
/// created.
pub open spec fn node_command(node: NodeValue, parent: Option<NodeId>) -> Result<CommandValue, Seq<char>> {
    match node.kind {
        UiKind::Column => Ok(CommandValue::CreateColumn(node.id, parent)),
        UiKind::Text => Ok(CommandValue::CreateText(node.id, parent, node.text, node.text_style)),
        UiKind::Button => match node.on_click {
            Some(handler) => Ok(CommandValue::CreateButton(node.id, parent, node.text, handler, node.text_style)),
            None => Err(no_handler_text(node.id)),
        },
        _ => Err(unsupported_text(node.id)),
    }
}

/// The walk from node `id` under `parent`: the commands issued and the
/// error that ended it, if one did. `None` when the walk goes deeper than
/// `fuel` nodes, which a tree without cycles on its walk never does with
/// fuel equal to its node count.
pub open spec fn walk(nodes: Seq<NodeValue>, id: NodeId, parent: Option<NodeId>, fuel: nat) -> Option<
    (Seq<CommandValue>, Option<Seq<char>>),
>
    decreases fuel, 0int, 0int,
{
    if id.0 >= nodes.len() {
        Some((Seq::empty(), Some(missing_text(id))))
    } else if fuel == 0 {
        None
    } else {
        let node = nodes[id.0 as int];
        match node_command(node, parent) {
            Err(message) => Some((Seq::empty(), Some(message))),
            Ok(command) => match walk_children(nodes, node.children, Some(node.id), (fuel - 1) as nat) {
                None => None,
                Some((rest, error)) => Some((seq![command] + rest, error)),
            },
        }
    }
}

/// The walks of `children` in order, stopping at the first error.
pub open spec fn walk_children(nodes: Seq<NodeValue>, children: Seq<NodeId>, parent: Option<NodeId>, fuel: nat) -> Option<
    (Seq<CommandValue>, Option<Seq<char>>),
>
    decreases fuel, 1int, children.len(),
{
    if children.len() == 0 {
        Some((Seq::empty(), None))
    } else {
        match walk(nodes, children[0], parent, fuel) {
            None => None,
            Some((first, Some(error))) => Some((first, Some(error))),
            Some((first, None)) => match walk_children(nodes, children.drop_first(), parent, fuel) {
                None => None,
                Some((rest, error)) => Some((first + rest, error)),
            },
        }
    }
}

/// The commands a walk issued.
pub open spec fn issued(walked: Option<(Seq<CommandValue>, Option<Seq<char>>)>) -> Seq<CommandValue> {
    match walked {
        Some((commands, _)) => commands,
        None => Seq::empty(),
    }
}

/// The node a creating command makes.
pub open spec fn created_node(command: CommandValue) -> NodeId {
    match command {
        CommandValue::CreateColumn(node, _) => node,
        CommandValue::CreateText(node, _, _, _) => node,
        CommandValue::CreateButton(node, _, _, _, _) => node,
        CommandValue::SetText(node, _) => node,
    }
}

/// The parent a creating command puts its node under.
pub open spec fn created_under(command: CommandValue) -> Option<NodeId> {
    match command {
        CommandValue::CreateColumn(_, parent) => parent,
        CommandValue::CreateText(_, parent, _, _) => parent,
        CommandValue::CreateButton(_, parent, _, _, _) => parent,
        CommandValue::SetText(_, _) => None,
    }
}

/// `parent`, when there is one, is the id of a node whose children list
/// holds the node at `child`.
pub open spec fn holds_child(nodes: Seq<NodeValue>, parent: Option<NodeId>, child: NodeId) -> bool {
    match parent {
        None => true,
        Some(p) => exists|i: int| 0 <= i < nodes.len() && nodes[i].id == p && #[trigger] nodes[i].children.contains(child),
    }
}

/// The parent `command` names, if any, lists the node it creates among its
/// children.
pub open spec fn listed_under(nodes: Seq<NodeValue>, command: CommandValue) -> bool {
    match created_under(command) {
        None => true,
        Some(p) => exists|i: int, x: NodeId|
            0 <= i < nodes.len() && nodes[i].id == p && #[trigger] nodes[i].children.contains(x) && x.0 < nodes.len()
                && nodes[x.0 as int].id == created_node(command),
    }
}

/// `command` creates a node of `nodes` as that node is: a column for a
/// column, a text with the node's text and style, a button with its text,
/// handler and style.
pub open spec fn draws_node(nodes: Seq<NodeValue>, command: CommandValue) -> bool {
    exists|x: int|
        0 <= x < nodes.len() && #[trigger] nodes[x].id == created_node(command) && match command {
            CommandValue::CreateColumn(_, _) => nodes[x].kind == UiKind::Column,
            CommandValue::CreateText(_, _, text, style) => nodes[x].kind == UiKind::Text && nodes[x].text == text
                && nodes[x].text_style == style,
            CommandValue::CreateButton(_, _, text, handler, style) => nodes[x].kind == UiKind::Button && nodes[x].text
                == text && nodes[x].on_click == Some(handler) && nodes[x].text_style == style,
            CommandValue::SetText(_, _) => false,
        }
}

/// Every command of `commands` is under `parent` or under a node an
/// earlier command created.
pub open spec fn hung_from(commands: Seq<CommandValue>, parent: Option<NodeId>) -> bool {
    forall|k: int|
        0 <= k < commands.len() ==> created_under(#[trigger] commands[k]) == parent || exists|j: int|
            0 <= j < k && created_under(commands[k]) == Some(created_node(commands[j]))
}

/// The first command is under `parent`, every later one under a node an
/// earlier command created.
pub open spec fn rooted_at(commands: Seq<CommandValue>, parent: Option<NodeId>) -> bool {
    &&& commands.len() > 0 ==> created_under(commands[0]) == parent
    &&& forall|k: int|
        0 < k < commands.len() ==> exists|j: int|
            0 <= j < k && created_under(#[trigger] commands[k]) == Some(created_node(commands[j]))
}

pub open spec fn tree_nodes(tree: &MicroUiTree) -> Seq<NodeValue> {
    tree.nodes@.map_values(|n: MicroUiNode| n@)
}

/// Creating `tree` comes to an end: no cycle is met on the walk.
pub open spec fn walk_ends(tree: &MicroUiTree) -> bool {
    walk(tree_nodes(tree), tree.root, None, tree.nodes@.len()) is Some
}

fn numbered_error(prefix: &str, id: NodeId, suffix: &str) -> (error: RenderError)
    ensures
        error.0@ == prefix@ + decimal(id.0 as nat) + suffix@,
{
    let mut text = String::from_str(prefix);
    push_decimal(&mut text, id.0 as u64);
    text.append(suffix);
    RenderError(text)
}

fn command_for(node: &MicroUiNode, parent: Option<NodeId>) -> (r: Result<DomCommand, RenderError>)
    ensures
        match r {
            Ok(command) => node_command(node@, parent) == Ok::<CommandValue, Seq<char>>(command@),
            Err(error) => node_command(node@, parent) == Err::<CommandValue, Seq<char>>(error.0@),
        },
{
    match node.kind {
        UiKind::Column => Ok(DomCommand::CreateColumn { node: node.id, parent }),
        UiKind::Text => Ok(
            DomCommand::CreateText { node: node.id, parent, text: node.text.clone(), style: node.text_style },
        ),
        UiKind::Button => match node.on_click {
            Some(handler) => Ok(
                DomCommand::CreateButton {
                    node: node.id,
                    parent,
                    text: node.text.clone(),
                    handler,
                    style: node.text_style,
                },
            ),
            None => Err(numbered_error("button ", node.id, " has no handler")),
        },
        _ => Err(numbered_error("node ", node.id, " has no web widget")),
    }
}

fn walk_node(tree: &MicroUiTree, id: NodeId, parent: Option<NodeId>, fuel: usize, out: &mut Vec<DomCommand>) -> (r:
    Result<(), RenderError>)
    requires
        walk(tree_nodes(tree), id, parent, fuel as nat) is Some,
    ensures
        ({
            let (commands, error) = walk(tree_nodes(tree), id, parent, fuel as nat)->0;
            &&& commands_view(final(out)@) == commands_view(old(out)@) + commands
            &&& match r {
                Ok(_) => error is None,
                Err(e) => error == Some(e.0@),
            }
        }),
    decreases fuel, 0int, 0int,
{
    if id.0 as usize >= tree.nodes.len() {
        assert(commands_view(out@) =~= commands_view(old(out)@) + Seq::<CommandValue>::empty());
        return Err(numbered_error("node ", id, " is missing"));
    }
    let node = &tree.nodes[id.0 as usize];
    assert(tree_nodes(tree)[id.0 as int] == node@);
    let command = match command_for(node, parent) {
        Ok(command) => command,
        Err(error) => {
            assert(commands_view(out@) =~= commands_view(old(out)@) + Seq::<CommandValue>::empty());
            return Err(error);
        },
    };
    let ghost before = out@;
    out.push(command);
    assert(commands_view(out@) =~= commands_view(before).push(command@));
    assert(node@.children.skip(0) =~= node@.children);
    assert(node.children@ == node@.children);
    let r = walk_list(tree, &node.children, 0, Some(node.id), fuel - 1, out);
    proof {
        let rest = issued(walk_children(tree_nodes(tree), node@.children, Some(node.id), (fuel - 1) as nat));
        assert(node@.children.skip(0) =~= node@.children);
        assert(commands_view(before).push(command@) + rest =~= commands_view(before) + (seq![command@] + rest));
    }
    r
}

fn walk_list(
    tree: &MicroUiTree,
    children: &Vec<NodeId>,
    from: usize,
    parent: Option<NodeId>,
    fuel: usize,
    out: &mut Vec<DomCommand>,
) -> (r: Result<(), RenderError>)
    requires
        from <= children@.len(),
        walk_children(tree_nodes(tree), children@.skip(from as int), parent, fuel as nat) is Some,
    ensures
        ({
            let (commands, error) = walk_children(tree_nodes(tree), children@.skip(from as int), parent, fuel as nat)->0;
            &&& commands_view(final(out)@) == commands_view(old(out)@) + commands
            &&& match r {
                Ok(_) => error is None,
                Err(e) => error == Some(e.0@),
            }
        }),
    decreases fuel, 1int, children@.len() - from,
{
    let ghost rest = children@.skip(from as int);
    if from >= children.len() {
        assert(commands_view(out@) =~= commands_view(old(out)@) + Seq::<CommandValue>::empty());
        return Ok(());
    }
    assert(rest[0] == children@[from as int]);
    assert(rest.drop_first() =~= children@.skip(from + 1));
    let ghost before = out@;
    match walk_node(tree, children[from], parent, fuel, out) {
        Err(error) => Err(error),
        Ok(()) => {
            let ghost mid = out@;
            let r = walk_list(tree, children, from + 1, parent, fuel, out);
            proof {
                let first = issued(walk(tree_nodes(tree), rest[0], parent, fuel as nat));
                let tail = issued(walk_children(tree_nodes(tree), children@.skip(from + 1), parent, fuel as nat));
                assert(commands_view(before) + first + tail =~= commands_view(before) + (first + tail));
            }
            r
        },
    }
}

/// The commands that create `tree`, from the root down, and the error
/// that ended the walk early, if one did.
pub fn tree_commands(tree: &MicroUiTree) -> (r: (Vec<DomCommand>, Option<RenderError>))
    requires
        walk_ends(tree),
    ensures
        ({
            let (commands, error) = walk(tree_nodes(tree), tree.root, None, tree.nodes@.len())->0;
            &&& commands_view(r.0@) == commands
            &&& match r.1 {
                None => error is None,
                Some(e) => error == Some(e.0@),
            }
        }),
{
    let mut out: Vec<DomCommand> = Vec::new();
    let r = walk_node(tree, tree.root, None, tree.nodes.len(), &mut out);
    assert(commands_view(Seq::<DomCommand>::empty()) =~= Seq::<CommandValue>::empty());
    assert(commands_view(Seq::<DomCommand>::empty()) + issued(walk(tree_nodes(tree), tree.root, None, tree.nodes@.len()))
        =~= issued(walk(tree_nodes(tree), tree.root, None, tree.nodes@.len())));
    match r {
        Ok(()) => (out, None),
        Err(error) => (out, Some(error)),
    }
}

/// The commands that apply `patches`, one `SetText` per patch, in order.
pub fn patch_commands(patches: &[RenderPatch]) -> (commands: Vec<DomCommand>)
    ensures
        commands@.len() == patches@.len(),
        forall|i: int| 0 <= i < patches@.len() ==> match #[trigger] patches@[i] {
            RenderPatch::SetText { node, text } => commands@[i]@ == CommandValue::SetText(node, text@),
        },
{
    let mut commands: Vec<DomCommand> = Vec::new();
    let mut i: usize = 0;
    while i < patches.len()
        invariant
            i <= patches@.len(),
            commands@.len() == i,
            forall|j: int| 0 <= j < i ==> match #[trigger] patches@[j] {
                RenderPatch::SetText { node, text } => commands@[j]@ == CommandValue::SetText(node, text@),
            },
        decreases patches@.len() - i,
    {
        match &patches[i] {
            RenderPatch::SetText { node, text } => {
                commands.push(DomCommand::SetText { node: *node, text: text.clone() });
            },
        }
        i = i + 1;
    }
    commands
}

/// The DOM a web renderer draws into: columns, texts and buttons, and text
/// updates. Each call answers `Err` with a message when the DOM refuses.
pub trait WebDom {
    fn create_column(&mut self, node: NodeId, parent: Option<NodeId>) -> Result<(), String>;

    fn create_text(&mut self, node: NodeId, parent: Option<NodeId>, text: &str, style: Option<&TextStyle>) -> Result<
        (),
        String,
    >;

    fn create_button(
        &mut self,
        node: NodeId,
        parent: Option<NodeId>,
        text: &str,
        handler: FunctionId,
        style: Option<&TextStyle>,
    ) -> Result<(), String>;

    fn set_text(&mut self, node: NodeId, text: &str) -> Result<(), String>;
}

/// A renderer's port: create a tree once, then apply patches to it.
pub trait RenderPort {
    fn create_tree(&mut self, tree: &MicroUiTree) -> Result<(), RenderError>
        requires
            walk_ends(tree),
    ;

    fn apply(&mut self, patches: &[RenderPatch]) -> Result<(), RenderError>;
}

/// The commands a list of patches becomes, one `SetText` per patch.
pub open spec fn patches_view(patches: Seq<RenderPatch>) -> Seq<CommandValue> {
    patches.map_values(
        |p: RenderPatch|
            match p {
                RenderPatch::SetText { node, text } => CommandValue::SetText(node, text@),
            },
    )
}

/// `after` is `before` followed by some first commands of `commands`, the
/// last of them the one the DOM refused.
pub open spec fn refused_within(before: Seq<CommandValue>, after: Seq<CommandValue>, commands: Seq<CommandValue>) -> bool {
    exists|k: int| 0 <= k < commands.len() && after == before + #[trigger] commands.take(k + 1)
}

/// A renderer over a DOM port. Besides the DOM it keeps, as a ghost log,
/// every call it has made on the port, in order, the refused ones included.
pub struct WebRenderer<D> {
    dom: D,
    log: Ghost<Seq<CommandValue>>,
}

impl<D> WebRenderer<D> {
    pub fn new(dom: D) -> (renderer: Self)
        ensures
            renderer.dom_value() == dom,
            renderer.calls() == Seq::<CommandValue>::empty(),
    {
        WebRenderer { dom, log: Ghost(Seq::empty()) }
    }

    pub closed spec fn dom_value(&self) -> D {
        self.dom
    }

    /// The calls made on the DOM port so far, in order.
    pub closed spec fn calls(&self) -> Seq<CommandValue> {
        self.log@
    }

    pub fn dom(&self) -> (dom: &D)
        ensures
            *dom == self.dom_value(),
    {
        &self.dom
    }

    pub fn dom_mut(&mut self) -> (dom: &mut D)
        ensures
            *dom == old(self).dom_value(),
            final(self).dom_value() == *final(dom),
            final(self).calls() == old(self).calls(),
    {
        &mut self.dom
    }
}

impl<D: WebDom> WebRenderer<D> {
    /// Carries out `commands` in order, stopping at the first refusal.
    fn run(&mut self, commands: &Vec<DomCommand>) -> (r: Result<(), RenderError>)
        ensures
            match r {
                Ok(_) => final(self).calls() == old(self).calls() + commands_view(commands@),
                Err(_) => refused_within(old(self).calls(), final(self).calls(), commands_view(commands@)),
            },
    {
        let ghost all = commands_view(commands@);
        let mut i: usize = 0;
        while i < commands.len()
            invariant
                i <= commands@.len(),
                all == commands_view(commands@),
                self.log@ == old(self).log@ + all.take(i as int),
            decreases commands@.len() - i,
        {
            proof {
                self.log@ = self.log@.push(commands@[i as int]@);
                assert(all.take(i as int).push(all[i as int]) =~= all.take(i + 1));
            }
            let done = match &commands[i] {
                DomCommand::CreateColumn { node, parent } => self.dom.create_column(*node, *parent),
                DomCommand::CreateText { node, parent, text, style } => self.dom.create_text(
                    *node,
                    *parent,
                    text.as_str(),
                    style.as_ref(),
                ),
                DomCommand::CreateButton { node, parent, text, handler, style } => self.dom.create_button(
                    *node,
                    *parent,
                    text.as_str(),
                    *handler,
                    style.as_ref(),
                ),
                DomCommand::SetText { node, text } => self.dom.set_text(*node, text.as_str()),
            };
            if let Err(message) = done {
                assert(self.log@ == old(self).log@ + all.take(i + 1));
                return Err(RenderError(message));
            }
            i = i + 1;
        }
        assert(all.take(i as int) =~= all);
        Ok(())
    }
}

impl<D: WebDom> RenderPort for WebRenderer<D> {
    /// Issues the commands of `tree_commands` in order. A refusal by the
    /// DOM ends creation with the DOM's message; otherwise the walk's own
    /// error, if any, is the answer.
    fn create_tree(&mut self, tree: &MicroUiTree) -> (r: Result<(), RenderError>)
        ensures
            ({
                let (commands, error) = walk(tree_nodes(tree), tree.root, None, tree.nodes@.len())->0;
                match r {
                    Ok(_) => error is None && final(self).calls() == old(self).calls() + commands,
                    Err(e) => (final(self).calls() == old(self).calls() + commands && error == Some(e.0@))
                        || refused_within(old(self).calls(), final(self).calls(), commands),
                }
            }),
    {
        let (commands, error) = tree_commands(tree);
        if let Err(refused) = self.run(&commands) {
            return Err(refused);
        }
        match error {
            Some(error) => Err(error),
            None => Ok(()),
        }
    }

    /// Issues one `SetText` per patch, in order, stopping at the first
    /// refusal.
    fn apply(&mut self, patches: &[RenderPatch]) -> (r: Result<(), RenderError>)
        ensures
            patches@.len() == 0 ==> r is Ok,
            match r {
                Ok(_) => final(self).calls() == old(self).calls() + patches_view(patches@),
                Err(_) => refused_within(old(self).calls(), final(self).calls(), patches_view(patches@)),
            },
    {
        let commands = patch_commands(patches);
        assert(commands_view(commands@) =~= patches_view(patches@));
        self.run(&commands)
    }
}

proof fn lemma_walk_parents(nodes: Seq<NodeValue>, id: NodeId, parent: Option<NodeId>, fuel: nat)
    requires
        holds_child(nodes, parent, id),
    ensures
        walk(nodes, id, parent, fuel) matches Some((commands, _)) ==> rooted_at(commands, parent) && forall|k: int|
            0 <= k < commands.len() ==> (listed_under(nodes, #[trigger] commands[k]) && draws_node(nodes, commands[k])),
    decreases fuel, 0int, 0int,
{
    if id.0 < nodes.len() && fuel > 0 {
        let node = nodes[id.0 as int];
        match node_command(node, parent) {
            Err(_) => {},
            Ok(command) => {
                assert forall|c: NodeId| #[trigger] node.children.contains(c) implies holds_child(
                    nodes,
                    Some(node.id),
                    c,
                ) by {
                    assert(nodes[id.0 as int].children.contains(c));
                }
                lemma_walk_children_parents(nodes, node.children, Some(node.id), (fuel - 1) as nat);
                match walk_children(nodes, node.children, Some(node.id), (fuel - 1) as nat) {
                    None => {},
                    Some((rest, _)) => {
                        let commands = seq![command] + rest;
                        assert(created_node(command) == node.id);
                        assert(draws_node(nodes, command)) by {
                            assert(nodes[id.0 as int].id == created_node(command));
                        }
                        assert(listed_under(nodes, command)) by {
                            if let Some(p) = parent {
                                let i = choose|i: int|
                                    0 <= i < nodes.len() && nodes[i].id == p && #[trigger] nodes[i].children.contains(id);
                                assert(nodes[i].children.contains(id) && id.0 < nodes.len() && nodes[id.0 as int].id
                                    == created_node(command));
                            }
                        }
                        assert forall|k: int| 0 < k < commands.len() implies exists|j: int|
                            0 <= j < k && created_under(#[trigger] commands[k]) == Some(created_node(commands[j])) by {
                            assert(commands[k] == rest[k - 1]);
                            if created_under(rest[k - 1]) == Some(node.id) {
                                assert(commands[0] == command);
                            } else {
                                let j = choose|j: int|
                                    0 <= j < k - 1 && created_under(rest[k - 1]) == Some(created_node(rest[j]));
                                assert(commands[j + 1] == rest[j]);
                            }
                        }
                        assert forall|k: int| 0 <= k < commands.len() implies (listed_under(nodes, #[trigger] commands[k]) && draws_node(nodes, commands[k]))
                            by {
                            if k > 0 {
                                assert(commands[k] == rest[k - 1]);
                            }
                        }
                    },
                }
            },
        }
    }
}

proof fn lemma_walk_children_parents(nodes: Seq<NodeValue>, children: Seq<NodeId>, parent: Option<NodeId>, fuel: nat)
    requires
        forall|c: NodeId| #[trigger] children.contains(c) ==> holds_child(nodes, parent, c),
    ensures
        walk_children(nodes, children, parent, fuel) matches Some((commands, _)) ==> hung_from(commands, parent)
            && forall|k: int| 0 <= k < commands.len() ==> (listed_under(nodes, #[trigger] commands[k]) && draws_node(nodes, commands[k])),
    decreases fuel, 1int, children.len(),
{
    if children.len() > 0 {
        assert(children.contains(children[0]));
        lemma_walk_parents(nodes, children[0], parent, fuel);
        match walk(nodes, children[0], parent, fuel) {
            None => {},
            Some((_, Some(_))) => {},
            Some((first, None)) => {
                assert forall|c: NodeId| #[trigger] children.drop_first().contains(c) implies holds_child(
                    nodes,
                    parent,
                    c,
                ) by {
                    let i = choose|i: int| 0 <= i < children.drop_first().len() && children.drop_first()[i] == c;
                    assert(children[i + 1] == c);
                    assert(children.contains(c));
                }
                lemma_walk_children_parents(nodes, children.drop_first(), parent, fuel);
                match walk_children(nodes, children.drop_first(), parent, fuel) {
                    None => {},
                    Some((rest, _)) => {
                        let commands = first + rest;
                        assert forall|k: int| 0 <= k < commands.len() implies created_under(#[trigger] commands[k])
                            == parent || exists|j: int|
                            0 <= j < k && created_under(commands[k]) == Some(created_node(commands[j])) by {
                            if k < first.len() {
                                assert(commands[k] == first[k]);
                                if k > 0 {
                                    let j = choose|j: int|
                                        0 <= j < k && created_under(first[k]) == Some(created_node(first[j]));
                                    assert(commands[j] == first[j]);
                                }
                            } else {
                                let r = k - first.len();
                                assert(commands[k] == rest[r]);
                                if created_under(rest[r]) != parent {
                                    let j = choose|j: int|
                                        0 <= j < r && created_under(rest[r]) == Some(created_node(rest[j]));
                                    assert(commands[j + first.len()] == rest[j]);
                                }
                            }
                        }
                        assert forall|k: int| 0 <= k < commands.len() implies (listed_under(nodes, #[trigger] commands[k]) && draws_node(nodes, commands[k]))
                            by {
                            if k < first.len() {
                                assert(commands[k] == first[k]);
                            } else {
                                assert(commands[k] == rest[k - first.len()]);
                            }
                        }
                    },
                }
            },
        }
    }
}

/// Creating a tree puts the root under no parent and every other node under
/// a node created before it, namely one whose children list holds it.
pub proof fn lemma_tree_parents(tree: &MicroUiTree)
    requires
        walk_ends(tree),
    ensures
        ({
            let (commands, _) = walk(tree_nodes(tree), tree.root, None, tree.nodes@.len())->0;
            &&& rooted_at(commands, None)
            &&& forall|k: int|
                0 <= k < commands.len() ==> (listed_under(tree_nodes(tree), #[trigger] commands[k]) && draws_node(
                    tree_nodes(tree),
                    commands[k],
                ))
        }),
{
    lemma_walk_parents(tree_nodes(tree), tree.root, None, tree.nodes@.len());
}

} // verus!
