//! The Micro Bytecode data model: constants, state slots, functions of
//! stack-machine instructions and the UI node table of an app image, with
//! the rules that make an image valid.
//!
//! Numbers are IEEE-754 doubles; the model carries them as their 64-bit
//! patterns (`f64::to_bits`), which is also how the binary format stores
//! them.
use vstd::prelude::*;
use vstd::string::StringExecFns;
use crate::text::push_decimal;

verus! {

#[derive(Debug, Clone, Copy, PartialEq, Eq, PartialOrd, Ord, Hash, Structural)]
pub struct StateId(pub u32);

#[derive(Debug, Clone, Copy, PartialEq, Eq, PartialOrd, Ord, Hash, Structural)]
pub struct FunctionId(pub u32);

#[derive(Debug, Clone, Copy, PartialEq, Eq, PartialOrd, Ord, Hash, Structural)]
pub struct BindingId(pub u32);

#[derive(Debug, Clone, Copy, PartialEq, Eq, PartialOrd, Ord, Hash, Structural)]
pub struct HandlerId(pub u32);

#[derive(Debug, Clone, Copy, PartialEq, Eq, PartialOrd, Ord, Hash, Structural)]
pub struct NodeId(pub u32);

#[derive(Debug, Clone, Copy, PartialEq, Eq, Structural)]
pub enum ScalarType {
    Number,
    String,
    Bool,
    Null,
}

/// A constant of the image. `Number` holds the bit pattern of a double.
#[derive(Debug, Clone, PartialEq)]
pub enum Constant {
    Number(u64),
    String(String),
    Bool(bool),
    Null,
}

pub open spec fn constant_type(constant: ConstantModel) -> ScalarType {
    match constant {
        ConstantModel::Number(_) => ScalarType::Number,
        ConstantModel::Text(_) => ScalarType::String,
        ConstantModel::Bool(_) => ScalarType::Bool,
        ConstantModel::Null => ScalarType::Null,
    }
}

impl Constant {
    pub fn scalar_type(&self) -> (ty: ScalarType)
        ensures
            ty == constant_type(self@),
    {
        match self {
            Constant::Number(_) => ScalarType::Number,
            Constant::String(_) => ScalarType::String,
            Constant::Bool(_) => ScalarType::Bool,
            Constant::Null => ScalarType::Null,
        }
    }
}

#[derive(Debug, Clone, Copy, PartialEq, Eq, Structural)]
pub struct StateDecl {
    pub ty: ScalarType,
    pub initial: u32,
}

#[derive(Debug, Clone, Copy, PartialEq, Eq, Structural)]
pub enum FunctionKind {
    Init,
    Binding(BindingId),
    Handler(HandlerId),
}

#[derive(Debug, Clone, Copy, PartialEq, Eq, Structural)]
pub enum Instruction {
    Const(u32),
    LoadLocal(u16),
    StoreLocal(u16),
    LoadState(StateId),
    StoreState(StateId),
    Add,
    Sub,
    Mul,
    Div,
    Mod,
    Eq,
    Lt,
    Gt,
    Not,
    ToString,
    Concat,
    Pop,
    Dup,
    Jump(u32),
    JumpIfFalse(u32),
    Return,
    /// Pushes the runtime-supplied argument of a one-argument handler.
    LoadArg,
}

/// A function: its role, how many arguments a handler receives (`1` only
/// for handlers fed a new widget value), its locals, its declared stack
/// height and its code.
#[derive(Debug, Clone, PartialEq, Eq)]
pub struct Function {
    pub kind: FunctionKind,
    pub arg_count: u8,
    pub locals: u16,
    pub max_stack: u16,
    pub code: Vec<Instruction>,
}

#[derive(Debug, Clone, Copy, PartialEq, Eq, Structural)]
pub enum UiKind {
    Column,
    Text,
    Button,
    Row,
    Progress,
    Switch,
    Input,
    Slider,
    Checkbox,
    Dropdown,
    Roller,
    Led,
    Spinner,
    Scale,
    List,
    Tabview,
}

#[derive(Debug, Clone, Copy, PartialEq, Eq, Structural)]
pub enum TextSource {
    Constant(u32),
    Binding(FunctionId),
}

#[derive(Debug, Clone, Copy, PartialEq, Eq, Structural)]
pub enum ValueSource {
    Constant(u32),
    Binding(FunctionId),
}

#[derive(Debug, Clone, Copy, PartialEq, Eq, Structural)]
pub enum FontFamily {
    UiSans,
}

#[derive(Debug, Clone, Copy, PartialEq, Eq, Structural)]
pub enum FontWeight {
    Regular,
}

/// An exact text style: a family, a pixel size and the one line height the
/// generated font assets have for that size.
#[derive(Debug, Clone, Copy, PartialEq, Eq, Structural)]
pub struct TextStyle {
    pub family: FontFamily,
    pub size_px: u8,
    pub weight: FontWeight,
    pub line_height_px: u8,
}

#[derive(Debug, Clone, Copy, PartialEq, Eq, Structural)]
pub enum TextStyleError {
    UnsupportedSize(u8),
    UnsupportedLineHeight { size_px: u8, line_height_px: u8, supported_line_height_px: u8 },
}

/// The line height generated for each UI Sans size: 12/14, 14/18, 18/24,
/// 24/32 and 32/40 pixels.
pub open spec fn ui_sans_line_height(size_px: u8) -> Option<u8> {
    if size_px == 12 {
        Some(14u8)
    } else if size_px == 14 {
        Some(18u8)
    } else if size_px == 18 {
        Some(24u8)
    } else if size_px == 24 {
        Some(32u8)
    } else if size_px == 32 {
        Some(40u8)
    } else {
        None
    }
}

/// What `TextStyle::new` answers for these fields.
pub open spec fn style_check(family: FontFamily, size_px: u8, weight: FontWeight, line_height_px: u8) -> Result<
    TextStyle,
    TextStyleError,
> {
    match ui_sans_line_height(size_px) {
        None => Err(TextStyleError::UnsupportedSize(size_px)),
        Some(supported) => if line_height_px != supported {
            Err(
                TextStyleError::UnsupportedLineHeight {
                    size_px,
                    line_height_px,
                    supported_line_height_px: supported,
                },
            )
        } else {
            Ok(TextStyle { family, size_px, weight, line_height_px })
        },
    }
}

pub open spec fn style_valid(style: TextStyle) -> bool {
    ui_sans_line_height(style.size_px) == Some(style.line_height_px)
}

fn supported_line_height(size_px: u8) -> (line_height: Option<u8>)
    ensures
        line_height == ui_sans_line_height(size_px),
{
    match size_px {
        12 => Some(14),
        14 => Some(18),
        18 => Some(24),
        24 => Some(32),
        32 => Some(40),
        _ => None,
    }
}

/// The default text style of a widget kind: 24/32 for text and inputs,
/// 14/18 for buttons, none for the rest.
pub open spec fn default_style(kind: UiKind) -> Option<TextStyle> {
    match kind {
        UiKind::Text | UiKind::Input => Some(
            TextStyle { family: FontFamily::UiSans, size_px: 24, weight: FontWeight::Regular, line_height_px: 32 },
        ),
        UiKind::Button => Some(
            TextStyle { family: FontFamily::UiSans, size_px: 14, weight: FontWeight::Regular, line_height_px: 18 },
        ),
        _ => None,
    }
}

/// The message of a text style error.
pub open spec fn style_error_text(error: TextStyleError) -> Seq<char> {
    match error {
        TextStyleError::UnsupportedSize(size_px) => "unsupported text size "@ + crate::text::decimal(size_px as nat)
            + "px"@,
        TextStyleError::UnsupportedLineHeight { size_px, line_height_px, supported_line_height_px } => "unsupported "@
            + crate::text::decimal(line_height_px as nat) + "px line height for "@ + crate::text::decimal(
            size_px as nat,
        ) + "px text; use "@ + crate::text::decimal(supported_line_height_px as nat) + "px"@,
    }
}

impl TextStyleError {
    /// The human-readable message of this error.
    pub fn message(&self) -> (text: String)
        ensures
            text@ == style_error_text(*self),
    {
        let mut text = String::new();
        match self {
            TextStyleError::UnsupportedSize(size_px) => {
                text.append("unsupported text size ");
                push_decimal(&mut text, *size_px as u64);
                text.append("px");
            },
            TextStyleError::UnsupportedLineHeight { size_px, line_height_px, supported_line_height_px } => {
                text.append("unsupported ");
                push_decimal(&mut text, *line_height_px as u64);
                text.append("px line height for ");
                push_decimal(&mut text, *size_px as u64);
                text.append("px text; use ");
                push_decimal(&mut text, *supported_line_height_px as u64);
                text.append("px");
            },
        }
        assert(text@ =~= style_error_text(*self));
        text
    }
}

impl TextStyle {
    /// Accepts exactly the generated size and line-height pairs.
    pub fn new(family: FontFamily, size_px: u8, weight: FontWeight, line_height_px: u8) -> (style: Result<
        TextStyle,
        TextStyleError,
    >)
        ensures
            style == style_check(family, size_px, weight, line_height_px),
    {
        match supported_line_height(size_px) {
            None => Err(TextStyleError::UnsupportedSize(size_px)),
            Some(supported_line_height_px) => {
                if line_height_px != supported_line_height_px {
                    Err(TextStyleError::UnsupportedLineHeight { size_px, line_height_px, supported_line_height_px })
                } else {
                    Ok(TextStyle { family, size_px, weight, line_height_px })
                }
            },
        }
    }

    /// A UI Sans style.
    pub fn ui_sans(size_px: u8, weight: FontWeight, line_height_px: u8) -> (style: Result<TextStyle, TextStyleError>)
        ensures
            style == style_check(FontFamily::UiSans, size_px, weight, line_height_px),
    {
        TextStyle::new(FontFamily::UiSans, size_px, weight, line_height_px)
    }

    /// The style a widget of `kind` uses when its source sets none.
    pub fn default_for(kind: UiKind) -> (style: Option<TextStyle>)
        ensures
            style == default_style(kind),
    {
        match kind {
            UiKind::Text | UiKind::Input => Some(
                TextStyle { family: FontFamily::UiSans, size_px: 24, weight: FontWeight::Regular, line_height_px: 32 },
            ),
            UiKind::Button => Some(
                TextStyle { family: FontFamily::UiSans, size_px: 14, weight: FontWeight::Regular, line_height_px: 18 },
            ),
            _ => None,
        }
    }

    fn validate(self) -> (r: Result<(), TextStyleError>)
        ensures
            r is Ok <==> style_valid(self),
            r matches Err(e) ==> style_check(self.family, self.size_px, self.weight, self.line_height_px) == Err::<
                TextStyle,
                TextStyleError,
            >(e),
    {
        match TextStyle::new(self.family, self.size_px, self.weight, self.line_height_px) {
            Ok(_) => Ok(()),
            Err(e) => Err(e),
        }
    }
}

/// The edges a node keeps to its parent, as bit patterns of doubles.
#[derive(Debug, Clone, Copy, PartialEq, Eq, Structural, Default)]
pub struct AnchorSpec {
    pub left: Option<u64>,
    pub top: Option<u64>,
    pub right: Option<u64>,
    pub bottom: Option<u64>,
}

/// Where a node is placed: its base geometry (left, top, width, height)
/// and its anchors, each value the bit pattern of a double.
#[derive(Debug, Clone, Copy, PartialEq, Eq, Structural, Default)]
pub struct LayoutSpec {
    pub left: Option<u64>,
    pub top: Option<u64>,
    pub width: Option<u64>,
    pub height: Option<u64>,
    pub anchor: AnchorSpec,
}

/// One node of the UI table. `range` holds the bit patterns of the
/// (min, max) doubles of a value widget, when it sets one; `options` the
/// string constants of a selection widget's choices or a tab view's titles;
/// `layout` its placement, when it has one.
#[derive(Debug, Clone, PartialEq)]
pub struct UiNodeSpec {
    pub id: NodeId,
    pub kind: UiKind,
    pub children: Vec<NodeId>,
    pub text: Option<TextSource>,
    pub value: Option<ValueSource>,
    pub on_click: Option<FunctionId>,
    pub text_style: Option<TextStyle>,
    pub range: Option<(u64, u64)>,
    pub options: Vec<u32>,
    pub layout: Option<LayoutSpec>,
}

#[derive(Debug, Clone, PartialEq)]
pub struct AppImage {
    pub constants: Vec<Constant>,
    pub states: Vec<StateDecl>,
    pub functions: Vec<Function>,
    pub nodes: Vec<UiNodeSpec>,
    pub root: NodeId,
}

#[derive(Debug, Clone, PartialEq, Eq)]
pub struct ValidationError(pub String);

/// A constant as a value: text constants by their characters.
pub enum ConstantModel {
    Number(u64),
    Text(Seq<char>),
    Bool(bool),
    Null,
}

pub struct FunctionModel {
    pub kind: FunctionKind,
    pub arg_count: u8,
    pub locals: u16,
    pub max_stack: u16,
    pub code: Seq<Instruction>,
}

pub struct NodeModel {
    pub id: NodeId,
    pub kind: UiKind,
    pub children: Seq<NodeId>,
    pub text: Option<TextSource>,
    pub value: Option<ValueSource>,
    pub on_click: Option<FunctionId>,
    pub text_style: Option<TextStyle>,
    pub range: Option<(u64, u64)>,
    pub options: Seq<u32>,
    pub layout: Option<LayoutSpec>,
}

/// An app image as a value.
pub struct ImageModel {
    pub constants: Seq<ConstantModel>,
    pub states: Seq<StateDecl>,
    pub functions: Seq<FunctionModel>,
    pub nodes: Seq<NodeModel>,
    pub root: NodeId,
}

impl View for Constant {
    type V = ConstantModel;

    open spec fn view(&self) -> ConstantModel {
        match self {
            Constant::Number(bits) => ConstantModel::Number(*bits),
            Constant::String(text) => ConstantModel::Text(text@),
            Constant::Bool(b) => ConstantModel::Bool(*b),
            Constant::Null => ConstantModel::Null,
        }
    }
}

impl View for Function {
    type V = FunctionModel;

    open spec fn view(&self) -> FunctionModel {
        FunctionModel {
            kind: self.kind,
            arg_count: self.arg_count,
            locals: self.locals,
            max_stack: self.max_stack,
            code: self.code@,
        }
    }
}

impl View for UiNodeSpec {
    type V = NodeModel;

    open spec fn view(&self) -> NodeModel {
        NodeModel {
            id: self.id,
            kind: self.kind,
            children: self.children@,
            text: self.text,
            value: self.value,
            on_click: self.on_click,
            text_style: self.text_style,
            range: self.range,
            options: self.options@,
            layout: self.layout,
        }
    }
}

impl View for AppImage {
    type V = ImageModel;

    open spec fn view(&self) -> ImageModel {
        ImageModel {
            constants: self.constants@.map_values(|c: Constant| c@),
            states: self.states@,
            functions: self.functions@.map_values(|f: Function| f@),
            nodes: self.nodes@.map_values(|n: UiNodeSpec| n@),
            root: self.root,
        }
    }
}

// ---------------------------------------------------------------------
// Validity

pub open spec fn state_ok(image: ImageModel, state: StateDecl) -> bool {
    &&& state.initial < image.constants.len()
    &&& constant_type(image.constants[state.initial as int]) == state.ty
}

pub open spec fn operand_ok(image: ImageModel, function: FunctionModel, instruction: Instruction) -> bool {
    match instruction {
        Instruction::Const(id) => id < image.constants.len(),
        Instruction::LoadState(id) => id.0 < image.states.len(),
        Instruction::StoreState(id) => id.0 < image.states.len(),
        Instruction::LoadLocal(id) => id < function.locals,
        Instruction::StoreLocal(id) => id < function.locals,
        Instruction::LoadArg => function.arg_count >= 1,
        _ => true,
    }
}

/// How many values an instruction needs on the stack.
pub open spec fn stack_needed(instruction: Instruction) -> int {
    match instruction {
        Instruction::Const(_) | Instruction::LoadLocal(_) | Instruction::LoadState(_) | Instruction::LoadArg => 0,
        Instruction::StoreLocal(_) | Instruction::StoreState(_) | Instruction::Pop => 1,
        Instruction::Add | Instruction::Sub | Instruction::Mul | Instruction::Div | Instruction::Mod
        | Instruction::Eq | Instruction::Lt | Instruction::Gt | Instruction::Concat => 2,
        Instruction::Not | Instruction::ToString => 1,
        Instruction::JumpIfFalse(_) => 1,
        Instruction::Dup => 1,
        Instruction::Jump(_) | Instruction::Return => 0,
    }
}

/// How an instruction changes the stack height.
pub open spec fn stack_delta(instruction: Instruction) -> int {
    match instruction {
        Instruction::Const(_) | Instruction::LoadLocal(_) | Instruction::LoadState(_) | Instruction::LoadArg => 1,
        Instruction::StoreLocal(_) | Instruction::StoreState(_) | Instruction::Pop => -1,
        Instruction::Add | Instruction::Sub | Instruction::Mul | Instruction::Div | Instruction::Mod
        | Instruction::Eq | Instruction::Lt | Instruction::Gt | Instruction::Concat => -1,
        Instruction::Not | Instruction::ToString => 0,
        Instruction::JumpIfFalse(_) => -1,
        Instruction::Dup => 1,
        Instruction::Jump(_) | Instruction::Return => 0,
    }
}

/// The stack height at which a function of this kind returns: a binding
/// returns its value, the others return nothing.
pub open spec fn return_height(kind: FunctionKind) -> int {
    match kind {
        FunctionKind::Binding(_) => 1,
        _ => 0,
    }
}

/// The instruction at `pc`, entered with height `heights[pc]`, is well
/// typed: its operand is in range, the stack holds what it needs, its
/// result fits the declared stack, and each successor is an instruction
/// entered with the resulting height.
pub open spec fn typed_at(image: ImageModel, function: FunctionModel, heights: Seq<int>, pc: int) -> bool {
    let code = function.code;
    let instruction = code[pc];
    let height = heights[pc];
    let next = height + stack_delta(instruction);
    &&& operand_ok(image, function, instruction)
    &&& height >= stack_needed(instruction)
    &&& next <= function.max_stack
    &&& match instruction {
        Instruction::Return => height == return_height(function.kind),
        Instruction::Jump(target) => target < code.len() && heights[target as int] == next,
        Instruction::JumpIfFalse(target) => {
            &&& target < code.len()
            &&& heights[target as int] == next
            &&& pc + 1 < code.len()
            &&& heights[pc + 1] == next
        },
        _ => pc + 1 < code.len() && heights[pc + 1] == next,
    }
}

/// `heights` gives every instruction reached from the entry its stack
/// height (unreached ones are negative), and each reached one is well typed.
pub open spec fn is_typing(image: ImageModel, function: FunctionModel, heights: Seq<int>) -> bool {
    &&& heights.len() == function.code.len()
    &&& function.code.len() > 0
    &&& heights[0] == 0
    &&& forall|pc: int| 0 <= pc < heights.len() && heights[pc] >= 0 ==> #[trigger] typed_at(image, function, heights, pc)
}

/// A function is valid when some stack typing of its code exists.
pub open spec fn function_ok(image: ImageModel, function: FunctionModel) -> bool {
    exists|heights: Seq<int>| is_typing(image, function, heights)
}

pub open spec fn is_binding(image: ImageModel, id: FunctionId) -> bool {
    id.0 < image.functions.len() && image.functions[id.0 as int].kind is Binding
}

pub open spec fn node_ok(image: ImageModel, index: int, node: NodeModel) -> bool {
    &&& node.id.0 == index
    &&& forall|k: int| 0 <= k < node.children.len() ==> (#[trigger] node.children[k]).0 < image.nodes.len()
    &&& match node.text {
        Some(TextSource::Constant(id)) => id < image.constants.len(),
        Some(TextSource::Binding(id)) => is_binding(image, id),
        None => true,
    }
    &&& match node.value {
        Some(ValueSource::Constant(id)) => id < image.constants.len(),
        Some(ValueSource::Binding(id)) => is_binding(image, id),
        None => true,
    }
    &&& match node.on_click {
        Some(id) => id.0 < image.functions.len() && image.functions[id.0 as int].kind is Handler,
        None => true,
    }
    &&& match node.text_style {
        Some(style) => style_valid(style),
        None => true,
    }
}

/// A valid image: a non-empty UI table with the root inside it, every
/// state initialised from a constant of its type, every function stack
/// typed, and every node canonical with in-range references.
pub open spec fn image_valid(image: ImageModel) -> bool {
    &&& image.nodes.len() > 0
    &&& image.root.0 < image.nodes.len()
    &&& forall|i: int| 0 <= i < image.states.len() ==> state_ok(image, #[trigger] image.states[i])
    &&& forall|i: int| 0 <= i < image.functions.len() ==> function_ok(image, #[trigger] image.functions[i])
    &&& forall|i: int| 0 <= i < image.nodes.len() ==> node_ok(image, i, #[trigger] image.nodes[i])
}


// ---------------------------------------------------------------------
// Which rule is reported first

pub open spec fn numbered(prefix: Seq<char>, index: int, suffix: Seq<char>) -> Seq<char> {
    prefix + crate::text::decimal(index as nat) + suffix
}

/// The message of the first broken rule of state `i`, if any.
pub open spec fn state_fault(image: ImageModel, i: int) -> Option<Seq<char>> {
    let state = image.states[i];
    if state.initial >= image.constants.len() {
        Some(numbered("state "@, i, " has an invalid initial constant"@))
    } else if constant_type(image.constants[state.initial as int]) != state.ty {
        Some(numbered("state "@, i, " initial type does not match"@))
    } else {
        None
    }
}

/// The message of the first broken rule of node `i`, if any.
pub open spec fn node_fault(image: ImageModel, i: int) -> Option<Seq<char>> {
    let node = image.nodes[i];
    if node.id.0 != i {
        Some(numbered("node id "@, node.id.0 as int, " is not canonical"@))
    } else if exists|k: int| 0 <= k < node.children.len() && (#[trigger] node.children[k]).0 >= image.nodes.len() {
        Some(numbered("node "@, i, " has an invalid child"@))
    } else if node.text matches Some(TextSource::Constant(id)) && id >= image.constants.len() {
        Some(numbered("node "@, i, " has an invalid text constant"@))
    } else if node.text matches Some(TextSource::Binding(id)) && !is_binding(image, id) {
        Some(numbered("node "@, i, " has an invalid binding"@))
    } else if node.value matches Some(ValueSource::Constant(id)) && id >= image.constants.len() {
        Some(numbered("node "@, i, " has an invalid value constant"@))
    } else if node.value matches Some(ValueSource::Binding(id)) && !is_binding(image, id) {
        Some(numbered("node "@, i, " has an invalid binding"@))
    } else if node.on_click matches Some(id) && !(id.0 < image.functions.len()
        && image.functions[id.0 as int].kind is Handler) {
        Some(numbered("node "@, i, " has an invalid click handler"@))
    } else {
        match node.text_style {
            Some(style) => match style_check(style.family, style.size_px, style.weight, style.line_height_px) {
                Err(error) => Some(numbered("node "@, i, " has an invalid text style: "@) + style_error_text(error)),
                Ok(_) => None,
            },
            None => None,
        }
    }
}

/// The first state from `k` on with a broken rule.
pub open spec fn states_fault_from(image: ImageModel, k: int) -> Option<Seq<char>>
    decreases image.states.len() - k,
{
    if k < 0 || k >= image.states.len() {
        None
    } else {
        match state_fault(image, k) {
            Some(text) => Some(text),
            None => states_fault_from(image, k + 1),
        }
    }
}

/// The first node from `k` on with a broken rule.
pub open spec fn nodes_fault_from(image: ImageModel, k: int) -> Option<Seq<char>>
    decreases image.nodes.len() - k,
{
    if k < 0 || k >= image.nodes.len() {
        None
    } else {
        match node_fault(image, k) {
            Some(text) => Some(text),
            None => nodes_fault_from(image, k + 1),
        }
    }
}

/// The first function from `k` on without a stack typing.
pub open spec fn functions_fault_from(image: ImageModel, k: int) -> Option<int>
    decreases image.functions.len() - k,
{
    if k < 0 || k >= image.functions.len() {
        None
    } else if !function_ok(image, image.functions[k]) {
        Some(k)
    } else {
        functions_fault_from(image, k + 1)
    }
}

/// What validation reports: the text of the first broken rule, or a
/// function whose code has no stack typing, by its index.
pub enum Fault {
    Rule(Seq<char>),
    InFunction(int),
}

/// The rules in the order they are checked: the UI table is non-empty, the
/// root is in it, then each state, each function and each node in turn.
pub open spec fn first_fault(image: ImageModel) -> Option<Fault> {
    if image.nodes.len() == 0 {
        Some(Fault::Rule("UI tree is empty"@))
    } else if image.root.0 >= image.nodes.len() {
        Some(Fault::Rule("root node is out of range"@))
    } else {
        match states_fault_from(image, 0) {
            Some(text) => Some(Fault::Rule(text)),
            None => match functions_fault_from(image, 0) {
                Some(i) => Some(Fault::InFunction(i)),
                None => match nodes_fault_from(image, 0) {
                    Some(text) => Some(Fault::Rule(text)),
                    None => None,
                },
            },
        }
    }
}

/// `message` is the message of the first broken rule; for a function, the
/// function's index followed by what the scan of its code found.
pub open spec fn reports(image: ImageModel, message: Seq<char>, fault: Option<Fault>) -> bool {
    match fault {
        Some(Fault::Rule(text)) => message == text,
        Some(Fault::InFunction(i)) => message == "function "@ + crate::text::decimal(i as nat) + function_report(
            image,
            image.functions[i],
        ),
        None => false,
    }
}

proof fn lemma_states_fault_from(image: ImageModel, k: int)
    requires
        0 <= k <= image.states.len(),
    ensures
        states_fault_from(image, k) is None <==> forall|i: int| k <= i < image.states.len() ==> state_ok(
            image,
            #[trigger] image.states[i],
        ),
    decreases image.states.len() - k,
{
    if k < image.states.len() {
        lemma_states_fault_from(image, k + 1);
        if states_fault_from(image, k) is None {
            assert forall|i: int| k <= i < image.states.len() implies state_ok(image, #[trigger] image.states[i]) by {
                if i > k {
                } else {
                    assert(state_fault(image, k) is None);
                }
            }
        } else {
            if state_fault(image, k) is None {
            } else {
                assert(!state_ok(image, image.states[k]));
            }
        }
    }
}

proof fn lemma_nodes_fault_from(image: ImageModel, k: int)
    requires
        0 <= k <= image.nodes.len(),
    ensures
        nodes_fault_from(image, k) is None <==> forall|i: int| k <= i < image.nodes.len() ==> node_ok(
            image,
            i,
            #[trigger] image.nodes[i],
        ),
    decreases image.nodes.len() - k,
{
    if k < image.nodes.len() {
        lemma_nodes_fault_from(image, k + 1);
        lemma_node_fault(image, k);
        if nodes_fault_from(image, k) is None {
            assert forall|i: int| k <= i < image.nodes.len() implies node_ok(image, i, #[trigger] image.nodes[i]) by {
                if i > k {
                }
            }
        }
    }
}

proof fn lemma_node_fault(image: ImageModel, i: int)
    requires
        0 <= i < image.nodes.len(),
    ensures
        node_fault(image, i) is None <==> node_ok(image, i, image.nodes[i]),
{
}

proof fn lemma_functions_fault_from(image: ImageModel, k: int)
    requires
        0 <= k <= image.functions.len(),
    ensures
        functions_fault_from(image, k) is None <==> forall|i: int| k <= i < image.functions.len() ==> function_ok(
            image,
            #[trigger] image.functions[i],
        ),
        functions_fault_from(image, k) matches Some(i) ==> k <= i < image.functions.len() && !function_ok(
            image,
            image.functions[i],
        ) && forall|j: int| k <= j < i ==> function_ok(image, #[trigger] image.functions[j]),
    decreases image.functions.len() - k,
{
    if k < image.functions.len() {
        lemma_functions_fault_from(image, k + 1);
    }
}

proof fn lemma_first_fault(image: ImageModel)
    ensures
        first_fault(image) is None <==> image_valid(image),
{
    lemma_states_fault_from(image, 0);
    lemma_functions_fault_from(image, 0);
    lemma_nodes_fault_from(image, 0);
}

// ---------------------------------------------------------------------
// Checking an image

fn indexed(prefix: &str, index: u64, suffix: &str) -> (error: ValidationError)
    ensures
        error.0@ == numbered(prefix@, index as int, suffix@),
{
    let mut text = String::from_str(prefix);
    push_decimal(&mut text, index);
    text.append(suffix);
    ValidationError(text)
}

fn operand_check(image: &AppImage, function: &Function, index: usize, instruction: Instruction) -> (r: Result<
    (),
    ValidationError,
>)
    ensures
        r is Ok <==> operand_ok(image@, function@, instruction),
        r is Ok <==> operand_fault(image@, function@, instruction) is None,
        r matches Err(e) ==> e.0@ == "function "@ + crate::text::decimal(index as nat) + operand_fault(
            image@,
            function@,
            instruction,
        )->0,
{
    match instruction {
        Instruction::Const(id) => if id as usize >= image.constants.len() {
            return Err(indexed("function ", index as u64, " has an invalid constant"));
        },
        Instruction::LoadState(id) | Instruction::StoreState(id) => if id.0 as usize >= image.states.len() {
            return Err(indexed("function ", index as u64, " has an invalid state"));
        },
        Instruction::LoadLocal(id) | Instruction::StoreLocal(id) => if id >= function.locals {
            return Err(indexed("function ", index as u64, " has an invalid local"));
        },
        Instruction::LoadArg => if function.arg_count < 1 {
            return Err(indexed("function ", index as u64, " uses LoadArg without an argument"));
        },
        _ => {},
    }
    Ok(())
}

/// How many values an instruction needs, and how it changes the height.
fn stack_effect(instruction: Instruction) -> (effect: (i128, i128))
    ensures
        effect.0 == stack_needed(instruction),
        effect.1 == stack_delta(instruction),
{
    match instruction {
        Instruction::Const(_) | Instruction::LoadLocal(_) | Instruction::LoadState(_) | Instruction::LoadArg => (0, 1),
        Instruction::StoreLocal(_) | Instruction::StoreState(_) | Instruction::Pop => (1, -1),
        Instruction::Add | Instruction::Sub | Instruction::Mul | Instruction::Div | Instruction::Mod
        | Instruction::Eq | Instruction::Lt | Instruction::Gt | Instruction::Concat => (2, -1),
        Instruction::Not | Instruction::ToString => (1, 0),
        Instruction::JumpIfFalse(_) => (1, -1),
        Instruction::Dup => (1, 1),
        Instruction::Jump(_) | Instruction::Return => (0, 0),
    }
}

/// How many instructions have been given a height.
pub open spec fn visited(heights: Seq<Option<i128>>) -> nat
    decreases heights.len(),
{
    if heights.len() == 0 {
        0
    } else {
        visited(heights.drop_last()) + if heights.last() is Some { 1nat } else { 0nat }
    }
}

/// No more instructions are reached than there are.
pub proof fn lemma_visited_bound(heights: Seq<Option<i128>>)
    ensures
        visited(heights) <= heights.len(),
    decreases heights.len(),
{
    if heights.len() > 0 {
        lemma_visited_bound(heights.drop_last());
    }
}

/// Reaching a new instruction adds one to the count.
pub proof fn lemma_visited_update(heights: Seq<Option<i128>>, i: int, value: i128)
    requires
        0 <= i < heights.len(),
        heights[i] is None,
    ensures
        visited(heights.update(i, Some(value))) == visited(heights) + 1,
    decreases heights.len(),
{
    let updated = heights.update(i, Some(value));
    if i == heights.len() - 1 {
        assert(updated.drop_last() =~= heights.drop_last());
    } else {
        assert(updated.drop_last() =~= heights.drop_last().update(i, Some(value)));
        lemma_visited_update(heights.drop_last(), i, value);
    }
}

/// Some entry of the work list is `(pc, height)`.
spec fn queued(queue: Seq<(usize, i128)>, pc: int, height: int) -> bool {
    exists|j: int| 0 <= j < queue.len() && queue[j].0 == pc && queue[j].1 == height
}

/// The checks made when the instruction at `pc` was reached with
/// `heights[pc]`: what `typed_at` asks, with successors still on the work
/// list instead of already reached.
spec fn explored(
    image: ImageModel,
    function: FunctionModel,
    heights: Seq<Option<i128>>,
    queue: Seq<(usize, i128)>,
    observed: int,
    pc: int,
) -> bool {
    let code = function.code;
    let instruction = code[pc];
    let height = heights[pc]->0 as int;
    let next = height + stack_delta(instruction);
    &&& operand_ok(image, function, instruction)
    &&& height >= stack_needed(instruction)
    &&& next <= observed
    &&& match instruction {
        Instruction::Return => height == return_height(function.kind),
        Instruction::Jump(target) => target < code.len() && queued(queue, target as int, next),
        Instruction::JumpIfFalse(target) => {
            &&& target < code.len()
            &&& queued(queue, target as int, next)
            &&& queued(queue, pc + 1, next)
        },
        _ => queued(queue, pc + 1, next),
    }
}

proof fn lemma_queued_push(queue: Seq<(usize, i128)>, entry: (usize, i128))
    ensures
        forall|pc: int, height: int| queued(queue, pc, height) ==> #[trigger] queued(queue.push(entry), pc, height),
        queued(queue.push(entry), entry.0 as int, entry.1 as int),
{
    assert forall|pc: int, height: int| queued(queue, pc, height) implies #[trigger] queued(
        queue.push(entry),
        pc,
        height,
    ) by {
        let j = choose|j: int| 0 <= j < queue.len() && queue[j].0 == pc && queue[j].1 == height;
        assert(queue.push(entry)[j] == queue[j]);
    }
    assert(queue.push(entry)[queue.len() as int] == entry);
}

proof fn lemma_explored_push(
    image: ImageModel,
    function: FunctionModel,
    heights: Seq<Option<i128>>,
    queue: Seq<(usize, i128)>,
    observed: int,
    entry: (usize, i128),
    except: int,
)
    requires
        forall|pc: int|
            0 <= pc < heights.len() && heights[pc] is Some && pc != except ==> #[trigger] explored(
                image,
                function,
                heights,
                queue,
                observed,
                pc,
            ),
    ensures
        forall|pc: int|
            0 <= pc < heights.len() && heights[pc] is Some && pc != except ==> #[trigger] explored(
                image,
                function,
                heights,
                queue.push(entry),
                observed,
                pc,
            ),
{
    lemma_queued_push(queue, entry);
    assert forall|pc: int| 0 <= pc < heights.len() && heights[pc] is Some && pc != except implies #[trigger] explored(
        image,
        function,
        heights,
        queue.push(entry),
        observed,
        pc,
    ) by {
        assert(explored(image, function, heights, queue, observed, pc));
    }
}

/// The message tail for an operand that is out of range, if any.
pub open spec fn operand_fault(image: ImageModel, function: FunctionModel, instruction: Instruction) -> Option<
    Seq<char>,
> {
    match instruction {
        Instruction::Const(id) => if id >= image.constants.len() {
            Some(" has an invalid constant"@)
        } else {
            None
        },
        Instruction::LoadState(id) | Instruction::StoreState(id) => if id.0 >= image.states.len() {
            Some(" has an invalid state"@)
        } else {
            None
        },
        Instruction::LoadLocal(id) | Instruction::StoreLocal(id) => if id >= function.locals {
            Some(" has an invalid local"@)
        } else {
            None
        },
        Instruction::LoadArg => if function.arg_count < 1 {
            Some(" uses LoadArg without an argument"@)
        } else {
            None
        },
        _ => None,
    }
}

/// The work list of (instruction, stack height) entries from `head` on,
/// followed in order: an entry outside the code, a height that disagrees
/// with an earlier visit, a bad operand, a stack underflow, a return at the
/// wrong height or a jump outside the code ends the scan with its message
/// tail; a newly reached instruction queues its successors. When the list
/// is exhausted, the highest height seen must fit the declared stack.
pub open spec fn scan(
    image: ImageModel,
    function: FunctionModel,
    heights: Seq<Option<i128>>,
    queue: Seq<(usize, i128)>,
    head: int,
    observed: i128,
) -> Result<(), Seq<char>>
    decreases heights.len() - visited(heights), queue.len() - head,
{
    let code = function.code;
    if head < 0 || head >= queue.len() {
        if observed > function.max_stack {
            Err(" declares too little stack"@)
        } else {
            Ok(())
        }
    } else {
        let pc = queue[head].0 as int;
        let height = queue[head].1;
        if pc >= code.len() || pc >= heights.len() {
            Err(" falls off the end"@)
        } else {
            match heights[pc] {
                Some(previous) => if previous != height {
                    Err(" has inconsistent stack depth"@)
                } else {
                    scan(image, function, heights, queue, head + 1, observed)
                },
                None => {
                    let reached = heights.update(pc, Some(height));
                    proof {
                        lemma_visited_update(heights, pc, height);
                        lemma_visited_bound(reached);
                    }
                    let instruction = code[pc];
                    let next = (height + stack_delta(instruction)) as i128;
                    let seen = if next > observed { next } else { observed };
                    match operand_fault(image, function, instruction) {
                        Some(tail) => Err(tail),
                        None => if height < stack_needed(instruction) {
                            Err(" underflows its stack"@)
                        } else {
                            match instruction {
                                Instruction::Return => if height != return_height(function.kind) {
                                    Err(" returns with wrong stack depth"@)
                                } else {
                                    scan(image, function, reached, queue, head + 1, seen)
                                },
                                Instruction::Jump(target) => if target >= code.len() {
                                    Err(" has an invalid jump"@)
                                } else {
                                    scan(image, function, reached, queue.push((target as usize, next)), head + 1, seen)
                                },
                                Instruction::JumpIfFalse(target) => if target >= code.len() {
                                    Err(" has an invalid jump"@)
                                } else {
                                    scan(
                                        image,
                                        function,
                                        reached,
                                        queue.push((target as usize, next)).push(((pc + 1) as usize, next)),
                                        head + 1,
                                        seen,
                                    )
                                },
                                _ => scan(image, function, reached, queue.push(((pc + 1) as usize, next)), head + 1, seen),
                            }
                        },
                    }
                },
            }
        }
    }
}

/// What checking a function's code finds: an empty body, or the scan of
/// the work list that starts at instruction 0 with an empty stack.
pub open spec fn function_check(image: ImageModel, function: FunctionModel) -> Result<(), Seq<char>> {
    if function.code.len() == 0 {
        Err(" is empty"@)
    } else {
        scan(image, function, Seq::new(function.code.len(), |pc: int| None::<i128>), seq![(0usize, 0i128)], 0, 0)
    }
}

/// The message tail that checking the function reports.
pub open spec fn function_report(image: ImageModel, function: FunctionModel) -> Seq<char> {
    match function_check(image, function) {
        Err(tail) => tail,
        Ok(_) => Seq::empty(),
    }
}

/// Follows every path from the entry with its stack height, as a work
/// list, and accepts the function exactly when its code has a stack typing.
fn validate_function(image: &AppImage, index: usize, function: &Function) -> (r: Result<(), ValidationError>)
    ensures
        r is Ok <==> function_ok(image@, function@),
        r is Ok <==> function_check(image@, function@) is Ok,
        r matches Err(e) ==> e.0@ == "function "@ + crate::text::decimal(index as nat) + function_report(
            image@,
            function@,
        ),
{
    let n = function.code.len();
    if n == 0 {
        assert(!function_ok(image@, function@));
        return Err(indexed("function ", index as u64, " is empty"));
    }
    let ghost typed = function_ok(image@, function@);
    let ghost t = choose|heights: Seq<int>| is_typing(image@, function@, heights);
    let mut heights: Vec<Option<i128>> = Vec::new();
    let mut k: usize = 0;
    while k < n
        invariant
            heights@.len() == k,
            k <= n,
            forall|j: int| 0 <= j < k ==> heights@[j] is None,
        decreases n - k,
    {
        heights.push(None);
        k = k + 1;
    }
    proof {
        assert(visited(heights@) == 0) by {
            lemma_visited_none(heights@);
        }
    }
    let mut queue: Vec<(usize, i128)> = Vec::new();
    queue.push((0, 0));
    let mut head: usize = 0;
    let mut observed_max: i128 = 0;
    assert(heights@ =~= Seq::new(n as nat, |pc: int| None::<i128>));
    assert(queue@ =~= seq![(0usize, 0i128)]);
    while head < queue.len()
        invariant
            function_check(image@, function@) == scan(image@, function@, heights@, queue@, head as int, observed_max),
            n == function.code@.len(),
            n > 0,
            heights@.len() == n,
            1 <= queue@.len(),
            head <= queue@.len(),
            queue@[0] == (0usize, 0i128),
            0 <= observed_max <= visited(heights@),
            visited(heights@) <= n,
            typed == function_ok(image@, function@),
            typed ==> is_typing(image@, function@, t),
            forall|j: int| 0 <= j < queue@.len() ==> (#[trigger] queue@[j]).0 <= n && 0 <= queue@[j].1 <= visited(heights@),
            forall|pc: int|
                0 <= pc < n && (#[trigger] heights@[pc]) is Some ==> 0 <= heights@[pc]->0 <= visited(heights@),
            forall|j: int|
                0 <= j < head ==> (#[trigger] queue@[j]).0 < n && heights@[queue@[j].0 as int] == Some(queue@[j].1),
            forall|pc: int|
                0 <= pc < n && heights@[pc] is Some ==> #[trigger] explored(
                    image@,
                    function@,
                    heights@,
                    queue@,
                    observed_max as int,
                    pc,
                ),
            typed ==> forall|j: int| 0 <= j < queue@.len() ==> (#[trigger] queue@[j]).0 < n && t[queue@[j].0 as int] == queue@[j].1,
            typed ==> forall|pc: int| 0 <= pc < n && (#[trigger] heights@[pc]) is Some ==> heights@[pc]->0 == t[pc],
            typed ==> observed_max <= function.max_stack,
        decreases 3 * (n - visited(heights@)) + queue@.len() - head,
    {
        let entry = queue[head];
        let pc = entry.0;
        let height = entry.1;
        proof {
            lemma_visited_bound(heights@);
        }
        if pc >= n {
            assert(!typed);
            return Err(indexed("function ", index as u64, " falls off the end"));
        }
        match heights[pc] {
            Some(previous) => {
                if previous != height {
                    assert(!typed);
                    return Err(indexed("function ", index as u64, " has inconsistent stack depth"));
                }
                head = head + 1;
                continue;
            },
            None => {},
        }
        let ghost before = heights@;
        heights.set(pc, Some(height));
        proof {
            lemma_visited_update(before, pc as int, height);
            lemma_visited_bound(heights@);
        }
        let instruction = function.code[pc];
        if let Err(error) = operand_check(image, function, index, instruction) {
            proof {
                if typed {
                    assert(typed_at(image@, function@, t, pc as int));
                }
            }
            return Err(error);
        }
        let (needed, delta) = stack_effect(instruction);
        if height < needed {
            proof {
                if typed {
                    assert(typed_at(image@, function@, t, pc as int));
                }
            }
            return Err(indexed("function ", index as u64, " underflows its stack"));
        }
        let next = height + delta;
        let ghost old_observed = observed_max;
        if next > observed_max {
            observed_max = next;
        }
        proof {
            if typed {
                assert(typed_at(image@, function@, t, pc as int));
            }
        }
        assert(forall|q: int| 0 <= q < n && before[q] is Some ==> #[trigger] explored(image@, function@, before, queue@, old_observed as int, q));
        assert(forall|q: int| 0 <= q < n && heights@[q] is Some && q != pc ==> #[trigger] explored(image@, function@, heights@, queue@, observed_max as int, q)) by {
            assert forall|q: int| 0 <= q < n && heights@[q] is Some && q != pc implies #[trigger] explored(image@, function@, heights@, queue@, observed_max as int, q) by {
                assert(explored(image@, function@, before, queue@, old_observed as int, q));
                assert(heights@[q] == before[q]);
            }
        }
        match instruction {
            Instruction::Return => {
                let expected: i128 = match function.kind {
                    FunctionKind::Binding(_) => 1,
                    _ => 0,
                };
                if height != expected {
                    assert(!typed);
                    return Err(indexed("function ", index as u64, " returns with wrong stack depth"));
                }
            },
            Instruction::Jump(target) => {
                if target as usize >= n {
                    assert(!typed);
                    return Err(indexed("function ", index as u64, " has an invalid jump"));
                }
                let ghost q0 = queue@;
                queue.push((target as usize, next));
                proof {
                    lemma_explored_push(image@, function@, heights@, q0, observed_max as int, (target as usize, next), pc as int);
                    lemma_queued_push(q0, (target as usize, next));
                }
            },
            Instruction::JumpIfFalse(target) => {
                if target as usize >= n {
                    assert(!typed);
                    return Err(indexed("function ", index as u64, " has an invalid jump"));
                }
                let ghost q0 = queue@;
                queue.push((target as usize, next));
                proof {
                    lemma_explored_push(image@, function@, heights@, q0, observed_max as int, (target as usize, next), pc as int);
                    lemma_queued_push(q0, (target as usize, next));
                }
                let ghost q1 = queue@;
                queue.push(((pc + 1) as usize, next));
                proof {
                    lemma_explored_push(image@, function@, heights@, q1, observed_max as int, ((pc + 1) as usize, next), pc as int);
                    lemma_queued_push(q1, ((pc + 1) as usize, next));
                }
            },
            _ => {
                let ghost q0 = queue@;
                queue.push(((pc + 1) as usize, next));
                proof {
                    lemma_explored_push(image@, function@, heights@, q0, observed_max as int, ((pc + 1) as usize, next), pc as int);
                    lemma_queued_push(q0, ((pc + 1) as usize, next));
                }
            },
        }
        assert(explored(image@, function@, heights@, queue@, observed_max as int, pc as int));
        assert(forall|q: int| 0 <= q < n && heights@[q] is Some ==> #[trigger] explored(image@, function@, heights@, queue@, observed_max as int, q)) by {
            assert forall|q: int| 0 <= q < n && heights@[q] is Some implies #[trigger] explored(image@, function@, heights@, queue@, observed_max as int, q) by {
                if q == pc as int {
                } else {
                }
            }
        }
        head = head + 1;
    }
    if observed_max > function.max_stack as i128 {
        assert(!typed);
        return Err(indexed("function ", index as u64, " declares too little stack"));
    }
    let ghost found = Seq::new(n as nat, |pc: int| match heights@[pc] {
        Some(height) => height as int,
        None => -1,
    });
    assert(is_typing(image@, function@, found)) by {
        assert(heights@[0] == Some(0i128));
        assert forall|pc: int| 0 <= pc < found.len() && found[pc] >= 0 implies #[trigger] typed_at(
            image@,
            function@,
            found,
            pc,
        ) by {
            assert(heights@[pc] is Some);
            assert(explored(image@, function@, heights@, queue@, observed_max as int, pc));
            let instruction = function.code@[pc];
            let next = heights@[pc]->0 + stack_delta(instruction);
            match instruction {
                Instruction::Return => {},
                Instruction::Jump(target) => {
                    let j = choose|j: int| 0 <= j < queue@.len() && queue@[j].0 == target as int && queue@[j].1 == next;
                    assert(queue@[j].0 < n);
                },
                Instruction::JumpIfFalse(target) => {
                    let j = choose|j: int| 0 <= j < queue@.len() && queue@[j].0 == target as int && queue@[j].1 == next;
                    assert(queue@[j].0 < n);
                    let j2 = choose|j: int| 0 <= j < queue@.len() && queue@[j].0 == pc + 1 && queue@[j].1 == next;
                    assert(queue@[j2].0 < n);
                },
                _ => {
                    let j = choose|j: int| 0 <= j < queue@.len() && queue@[j].0 == pc + 1 && queue@[j].1 == next;
                    assert(queue@[j].0 < n);
                },
            }
        }
    }
    Ok(())
}

proof fn lemma_visited_none(heights: Seq<Option<i128>>)
    requires
        forall|j: int| 0 <= j < heights.len() ==> heights[j] is None,
    ensures
        visited(heights) == 0,
    decreases heights.len(),
{
    if heights.len() > 0 {
        lemma_visited_none(heights.drop_last());
    }
}


fn binding_check(image: &AppImage, id: FunctionId) -> (ok: bool)
    ensures
        ok == is_binding(image@, id),
{
    if (id.0 as usize) < image.functions.len() {
        match image.functions[id.0 as usize].kind {
            FunctionKind::Binding(_) => true,
            _ => false,
        }
    } else {
        false
    }
}

fn node_check(image: &AppImage, index: usize, node: &UiNodeSpec) -> (r: Result<(), ValidationError>)
    requires
        index < image@.nodes.len(),
        image@.nodes[index as int] == node@,
    ensures
        r is Ok <==> node_ok(image@, index as int, node@),
        match r {
            Ok(()) => node_fault(image@, index as int) is None,
            Err(e) => node_fault(image@, index as int) == Some(e.0@),
        },
{
    if node.id.0 as usize != index {
        return Err(indexed("node id ", node.id.0 as u64, " is not canonical"));
    }
    let mut k: usize = 0;
    while k < node.children.len()
        invariant
            k <= node.children@.len(),
            index < image@.nodes.len(),
            image@.nodes[index as int] == node@,
            node.id.0 == index,
            forall|c: int| 0 <= c < k ==> (#[trigger] node.children@[c]).0 < image@.nodes.len(),
        decreases node.children@.len() - k,
    {
        if node.children[k].0 as usize >= image.nodes.len() {
            assert(node@.children[k as int] == node.children@[k as int]);
            assert(image@.nodes[index as int].children[k as int].0 >= image@.nodes.len());
            assert(image@.nodes[index as int].id.0 == index as int);
            assert(node_fault(image@, index as int) == Some(numbered("node "@, index as int, " has an invalid child"@)));
            return Err(indexed("node ", index as u64, " has an invalid child"));
        }
        k = k + 1;
    }
    match node.text {
        Some(TextSource::Constant(id)) => if id as usize >= image.constants.len() {
            return Err(indexed("node ", index as u64, " has an invalid text constant"));
        },
        Some(TextSource::Binding(id)) => if !binding_check(image, id) {
            return Err(indexed("node ", index as u64, " has an invalid binding"));
        },
        None => {},
    }
    match node.value {
        Some(ValueSource::Constant(id)) => if id as usize >= image.constants.len() {
            return Err(indexed("node ", index as u64, " has an invalid value constant"));
        },
        Some(ValueSource::Binding(id)) => if !binding_check(image, id) {
            return Err(indexed("node ", index as u64, " has an invalid binding"));
        },
        None => {},
    }
    if let Some(id) = node.on_click {
        let handler = (id.0 as usize) < image.functions.len() && match image.functions[id.0 as usize].kind {
            FunctionKind::Handler(_) => true,
            _ => false,
        };
        if !handler {
            return Err(indexed("node ", index as u64, " has an invalid click handler"));
        }
    }
    if let Some(style) = node.text_style {
        if let Err(error) = style.validate() {
            let mut text = indexed("node ", index as u64, " has an invalid text style: ").0;
            let message = error.message();
            text.append(message.as_str());
            assert(text@ =~= numbered("node "@, index as int, " has an invalid text style: "@) + style_error_text(error));
            return Err(ValidationError(text));
        }
    }
    Ok(())
}

/// Checks every rule of a valid image; the first broken rule is reported.
pub fn validate(image: &AppImage) -> (r: Result<(), ValidationError>)
    ensures
        r is Ok <==> image_valid(image@),
        r matches Err(e) ==> reports(image@, e.0@, first_fault(image@)),
{
    proof {
        lemma_first_fault(image@);
    }
    if image.nodes.len() == 0 {
        return Err(ValidationError(String::from_str("UI tree is empty")));
    }
    if image.root.0 as usize >= image.nodes.len() {
        return Err(ValidationError(String::from_str("root node is out of range")));
    }
    let mut index: usize = 0;
    while index < image.states.len()
        invariant
            index <= image.states@.len(),
            image@.states.len() == image.states@.len(),
            image@.nodes.len() > 0,
            image@.root.0 < image@.nodes.len(),
            states_fault_from(image@, 0) == states_fault_from(image@, index as int),
        decreases image.states@.len() - index,
    {
        let state = image.states[index];
        assert(image@.states[index as int] == state);
        if state.initial as usize >= image.constants.len() {
            return Err(indexed("state ", index as u64, " has an invalid initial constant"));
        }
        assert(image@.constants[state.initial as int] == image.constants@[state.initial as int]@);
        if image.constants[state.initial as usize].scalar_type() != state.ty {
            return Err(indexed("state ", index as u64, " initial type does not match"));
        }
        index = index + 1;
    }
    let mut index: usize = 0;
    while index < image.functions.len()
        invariant
            index <= image.functions@.len(),
            image@.functions.len() == image.functions@.len(),
            image@.nodes.len() > 0,
            image@.root.0 < image@.nodes.len(),
            states_fault_from(image@, 0) is None,
            functions_fault_from(image@, 0) == functions_fault_from(image@, index as int),
        decreases image.functions@.len() - index,
    {
        assert(image@.functions[index as int] == image.functions@[index as int]@);
        let checked = validate_function(image, index, &image.functions[index]);
        if let Err(error) = checked {
            assert(functions_fault_from(image@, index as int) == Some(index as int));
            return Err(error);
        }
        index = index + 1;
    }
    let mut index: usize = 0;
    while index < image.nodes.len()
        invariant
            index <= image.nodes@.len(),
            image@.nodes.len() == image.nodes@.len(),
            image@.nodes.len() > 0,
            image@.root.0 < image@.nodes.len(),
            states_fault_from(image@, 0) is None,
            functions_fault_from(image@, 0) is None,
            nodes_fault_from(image@, 0) == nodes_fault_from(image@, index as int),
        decreases image.nodes@.len() - index,
    {
        assert(image@.nodes[index as int] == image.nodes@[index as int]@);
        let checked = node_check(image, index, &image.nodes[index]);
        if let Err(error) = checked {
            assert(nodes_fault_from(image@, index as int) == Some(error.0@));
            return Err(error);
        }
        index = index + 1;
    }
    Ok(())
}

} // verus!
