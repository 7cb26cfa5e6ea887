//! The TypeScript subset that apps are written in, and its checker.
//!
//! A module is given as a syntax model: the statements and expressions the
//! subset knows, each with its position, and everything else reduced to the
//! position where it starts. The checker walks the model in source order
//! and reports each construct outside the subset: unsupported syntax as
//! `MTS001`, misuse of the SDK as `MTS002`, a second `ui.mount` as `MTS003`.
use vstd::prelude::*;
use vstd::string::StringExecFns;
use crate::ir::{style_check, style_error_text, FontFamily, FontWeight, TextStyle};
use crate::text::{decimal, push_decimal};

verus! {

/// A position in the source: line from 1, column from 1.
#[derive(Debug, Clone, Copy, PartialEq, Eq, Structural)]
pub struct Pos {
    pub line: usize,
    pub column: usize,
}

/// A module item.
#[derive(Debug, PartialEq, Eq)]
pub enum ItemModel {
    Statement(StmtModel),
    /// An import, export or other module declaration.
    ModuleDeclaration(Pos),
}

#[derive(Debug, PartialEq, Eq)]
pub enum StmtModel {
    /// `const`, `let` or `var` declarations.
    Declare { pos: Pos, is_var: bool, declarators: Vec<DeclaratorModel> },
    Expression(ExprModel),
    Block(Vec<StmtModel>),
    If { test: ExprModel, then: Box<StmtModel>, otherwise: Option<Box<StmtModel>> },
    While { test: ExprModel, body: Box<StmtModel> },
    Return(Option<ExprModel>),
    Empty,
    /// A function, class or other declaration.
    OtherDeclaration(Pos),
    /// Any other statement.
    Other(Pos),
}

#[derive(Debug, PartialEq, Eq)]
pub struct DeclaratorModel {
    pub binding: BindingModel,
    pub init: Option<ExprModel>,
}

/// A name bound by a declaration or a parameter, or a destructuring
/// pattern at its position.
#[derive(Debug, PartialEq, Eq)]
pub enum BindingModel {
    Name(String),
    Pattern(Pos),
}

#[derive(Debug, PartialEq, Eq)]
pub struct ExprModel {
    pub pos: Pos,
    pub kind: ExprKind,
}

#[derive(Debug, PartialEq, Eq)]
pub enum ExprKind {
    /// A string, boolean, null or number literal.
    Literal(LiteralValue),
    Name(String),
    Call { callee: Box<ExprModel>, args: Vec<ArgModel> },
    /// `object.property`; `None` for a computed or private property.
    Member { object: Box<ExprModel>, property: Option<String> },
    Arrow(ArrowModel),
    Template(Vec<ExprModel>),
    Binary(Box<ExprModel>, Box<ExprModel>),
    Unary(Box<ExprModel>),
    Update(Box<ExprModel>),
    Assign { target: TargetModel, value: Box<ExprModel> },
    Conditional(Box<ExprModel>, Box<ExprModel>, Box<ExprModel>),
    Paren(Box<ExprModel>),
    /// Array elements; `None` for a hole.
    Array(Vec<Option<ArgModel>>),
    Object(Vec<PropModel>),
    Other,
}

/// A literal's value, as far as the subset reads it: a string's text
/// (`None` when it holds a lone surrogate), and a number's value when it
/// is a whole number from 0 to 255.
#[derive(Debug, Clone, PartialEq, Eq)]
pub enum LiteralValue {
    Text(Option<String>),
    Number(Option<u8>),
    Bool(bool),
    Null,
}

/// A call argument or array element, with its position and whether it is
/// spread.
#[derive(Debug, PartialEq, Eq)]
pub struct ArgModel {
    pub pos: Pos,
    pub spread: bool,
    pub value: ExprModel,
}

#[derive(Debug, PartialEq, Eq)]
pub enum TargetModel {
    Name(String, Pos),
    Member { pos: Pos, object: Box<ExprModel>, property: Option<String> },
    Other(Pos),
}

#[derive(Debug, PartialEq, Eq)]
pub struct ArrowModel {
    pub is_async_or_generator: bool,
    pub params: Vec<BindingModel>,
    pub body: ArrowBody,
}

#[derive(Debug, PartialEq, Eq)]
pub enum ArrowBody {
    Block(Vec<StmtModel>),
    Expression(Box<ExprModel>),
}

/// An object literal property.
#[derive(Debug, PartialEq, Eq)]
pub enum PropModel {
    Spread(Pos),
    /// A shorthand, method, getter or setter.
    NotKeyValue(Pos),
    /// A key-value property whose key is not a plain name.
    Computed(Pos),
    KeyValue { name: String, name_pos: Pos, value: ExprModel },
}

/// A finding as values.
pub struct Fault {
    pub code: Seq<char>,
    pub pos: Pos,
    pub message: Seq<char>,
}

/// The checker's state: the names in scope, whether `ui.mount` was seen,
/// and the findings so far, in order.
pub struct Check {
    pub known: Seq<Seq<char>>,
    pub mounted: bool,
    pub faults: Seq<Fault>,
}

/// The object literals the SDK reads: widget options, list items, tabs.
#[derive(Debug, Clone, Copy, PartialEq, Eq, Structural)]
pub enum Shape {
    Button,
    Switch,
    Input,
    Slider,
    Checkbox,
    Dropdown,
    Scale,
    ListItem,
    Tab,
}

pub open spec fn add_fault(st: Check, code: Seq<char>, pos: Pos, message: Seq<char>) -> Check {
    Check { faults: st.faults.push(Fault { code, pos, message }), ..st }
}

pub open spec fn unsupported(st: Check, pos: Pos, construct: Seq<char>) -> Check {
    add_fault(st, "MTS001"@, pos, "unsupported syntax: "@ + construct)
}

pub open spec fn sdk_error(st: Check, pos: Pos, message: Seq<char>) -> Check {
    add_fault(st, "MTS002"@, pos, message)
}

pub open spec fn ticked(text: Seq<char>) -> Seq<char> {
    "`"@ + text + "`"@
}

/// Names every module may use without declaring them.
pub open spec fn is_global(name: Seq<char>) -> bool {
    name == "state"@ || name == "bind"@ || name == "ui"@
}

/// How many arguments each SDK and host call takes, least and most.
pub open spec fn arity(name: Seq<char>) -> Option<(nat, nat)> {
    if name == "state"@ || name == "bind"@ || name == "ui.mount"@ || name == "ui.column"@ || name == "ui.row"@
        || name == "ui.progress"@ || name == "ui.led"@ || name == "ui.spinner"@ || name == "ui.list"@
        || name == "ui.tabview"@ {
        Some((1, 1))
    } else if name == "ui.text"@ || name == "ui.switch"@ || name == "ui.input"@ || name == "ui.slider"@
        || name == "ui.scale"@ {
        Some((1, 2))
    } else if name == "ui.checkbox"@ || name == "ui.dropdown"@ || name == "ui.roller"@ {
        Some((2, 3))
    } else if name == "ui.button"@ || name == "net.wifiConnect"@ || name == "net.httpGet"@ || name == "os.delay"@ {
        Some((2, 2))
    } else if name == "device.setBacklight"@ || name == "net.scanWifi"@ || name == "os.appName"@
        || name == "os.appIcon"@ || name == "os.launchIndex"@ {
        Some((1, 1))
    } else if name == "device.chip"@ || name == "device.flashBytes"@ || name == "net.wifiState"@
        || name == "net.wifiSsid"@ || name == "net.wifiDisconnect"@ || name == "os.goBack"@ {
        Some((0, 0))
    } else {
        None
    }
}

/// Host calls whose last argument is a callback taking the result.
pub open spec fn takes_callback(name: Seq<char>) -> bool {
    name == "net.scanWifi"@ || name == "net.httpGet"@ || name == "os.delay"@
}

pub open spec fn expected_text(least: nat, most: nat) -> Seq<char> {
    if least == most {
        decimal(least)
    } else {
        decimal(least) + " or "@ + decimal(most)
    }
}

pub open spec fn shape_word(shape: Shape) -> Seq<char> {
    match shape {
        Shape::Button => "button"@,
        Shape::Switch => "switch"@,
        Shape::Input => "input"@,
        Shape::Slider => "slider"@,
        Shape::Checkbox => "checkbox"@,
        Shape::Dropdown => "dropdown"@,
        Shape::Scale => "scale"@,
        Shape::ListItem => "list item"@,
        Shape::Tab => "tab"@,
    }
}

/// The property names a shape takes.
pub open spec fn allowed(shape: Shape, name: Seq<char>) -> bool {
    match shape {
        Shape::Button => name == "onClick"@ || name == "textStyle"@,
        Shape::Switch => name == "onToggle"@,
        Shape::Input => name == "onChange"@ || name == "placeholder"@,
        Shape::Slider => name == "onChange"@ || name == "min"@ || name == "max"@,
        Shape::Checkbox | Shape::Dropdown => name == "onChange"@,
        Shape::Scale => name == "min"@ || name == "max"@,
        Shape::ListItem => name == "text"@ || name == "onClick"@,
        Shape::Tab => name == "title"@ || name == "content"@,
    }
}

/// The properties whose values are checked, and how many parameters an
/// arrow function given there may take.
pub open spec fn checked_value(shape: Shape, name: Seq<char>) -> Option<nat> {
    match shape {
        Shape::Button | Shape::ListItem => if name == "onClick"@ { Some(0) } else { None },
        Shape::Switch => if name == "onToggle"@ { Some(0) } else { None },
        Shape::Input | Shape::Slider | Shape::Checkbox | Shape::Dropdown => if name == "onChange"@ {
            Some(1)
        } else {
            None
        },
        Shape::Scale => None,
        Shape::Tab => if name == "content"@ { Some(0) } else { None },
    }
}

pub open spec fn unknown_message(shape: Shape, name: Seq<char>) -> Seq<char> {
    match shape {
        Shape::ListItem | Shape::Tab => "unknown "@ + shape_word(shape) + " property "@ + ticked(name),
        _ => "unknown ui."@ + shape_word(shape) + " property "@ + ticked(name),
    }
}

/// What a shape's value must be when it is not an object (options) or not
/// an array (lists and tabs).
pub open spec fn misplaced_message(shape: Shape) -> Seq<char> {
    match shape {
        Shape::ListItem => "ui.list expects an item array"@,
        Shape::Tab => "ui.tabview expects a tab array"@,
        _ => "ui."@ + shape_word(shape) + " options must be an object"@,
    }
}

/// The name a call is made through: a plain name, or `object.property`
/// of two plain names.
pub open spec fn call_name(callee: ExprModel) -> Option<Seq<char>> {
    match callee.kind {
        ExprKind::Name(name) => Some(name@),
        ExprKind::Member { object, property } => match (object.kind, property) {
            (ExprKind::Name(o), Some(p)) => Some(o@ + "."@ + p@),
            _ => None,
        },
        _ => None,
    }
}

pub open spec fn has_spread(args: Seq<ArgModel>) -> bool {
    exists|j: int| 0 <= j < args.len() && #[trigger] args[j].spread
}

/// Checks an expression.
pub open spec fn v_expr(e: ExprModel, st: Check) -> Check
    decreases e, 0nat,
{
    match e.kind {
        ExprKind::Literal(_) => st,
        ExprKind::Name(name) => if st.known.contains(name@) || is_global(name@) {
            st
        } else {
            unsupported(st, e.pos, "global "@ + ticked(name@))
        },
        ExprKind::Call { callee, args } => v_call(e.pos, *callee, args@, st),
        ExprKind::Member { object, property } => v_member(e.pos, *object, property, st),
        ExprKind::Arrow(arrow) => v_arrow(arrow, e.pos, 0, st),
        ExprKind::Template(parts) => v_exprs(parts@, 0, st),
        ExprKind::Binary(left, right) => v_expr(*right, v_expr(*left, st)),
        ExprKind::Unary(inner) => v_expr(*inner, st),
        ExprKind::Update(inner) => v_assignable(*inner, st),
        ExprKind::Assign { target, value } => {
            let after = v_expr(*value, st);
            match target {
                TargetModel::Name(name, pos) => if after.known.contains(name@) {
                    after
                } else {
                    unsupported(after, pos, "assignment target"@)
                },
                TargetModel::Member { pos, object, property } => v_member(pos, *object, property, after),
                TargetModel::Other(pos) => unsupported(after, pos, "assignment target"@),
            }
        },
        ExprKind::Conditional(test, yes, no) => v_expr(*no, v_expr(*yes, v_expr(*test, st))),
        ExprKind::Paren(inner) => v_expr(*inner, st),
        ExprKind::Array(elements) => v_elements(e.pos, elements@, 0, st),
        ExprKind::Object(_) | ExprKind::Other => unsupported(st, e.pos, "expression"@),
    }
}

/// Checks `object.property`: only `.value` is readable.
pub open spec fn v_member(pos: Pos, object: ExprModel, property: Option<String>, st: Check) -> Check
    decreases object, 1nat,
{
    match property {
        None => unsupported(st, pos, "computed property access"@),
        Some(p) => {
            let after = if p@ == "value"@ {
                st
            } else {
                unsupported(st, pos, "property "@ + ticked(p@))
            };
            v_expr(object, after)
        },
    }
}

/// Checks the target of `++` or `--`.
pub open spec fn v_assignable(e: ExprModel, st: Check) -> Check
    decreases e, 1nat,
{
    match e.kind {
        ExprKind::Name(name) => if st.known.contains(name@) {
            st
        } else {
            unsupported(st, e.pos, "update target"@)
        },
        ExprKind::Member { object, property } => v_member(e.pos, *object, property, st),
        _ => unsupported(st, e.pos, "update target"@),
    }
}

/// Checks a value given where an arrow function of up to `params`
/// parameters may stand.
pub open spec fn v_callback(e: ExprModel, params: nat, st: Check) -> Check
    decreases e, 1nat,
{
    match e.kind {
        ExprKind::Arrow(arrow) => v_arrow(arrow, e.pos, params, st),
        _ => v_expr(e, st),
    }
}

/// Checks an arrow function: not async, at most `params` parameters; its
/// parameters are in scope for its body only.
pub open spec fn v_arrow(arrow: ArrowModel, pos: Pos, params: nat, st: Check) -> Check
    decreases arrow, 0nat,
{
    if arrow.is_async_or_generator {
        unsupported(st, pos, "async or generator arrow function"@)
    } else if arrow.params@.len() > params {
        sdk_error(
            st,
            pos,
            "arrow expects at most "@ + decimal(params) + " parameter(s), found "@ + decimal(arrow.params@.len()),
        )
    } else {
        let bound = v_params(arrow.params@, 0, st);
        let done = match arrow.body {
            ArrowBody::Block(body) => v_stmts(body@, 0, bound),
            ArrowBody::Expression(body) => v_expr(*body, bound),
        };
        Check { known: st.known, ..done }
    }
}

/// Brings arrow parameters into scope.
pub open spec fn v_params(params: Seq<BindingModel>, i: int, st: Check) -> Check
    decreases params, params.len() - i,
{
    if i < 0 || i >= params.len() {
        st
    } else {
        let after = match params[i] {
            BindingModel::Name(name) => Check { known: st.known.push(name@), ..st },
            BindingModel::Pattern(pos) => unsupported(st, pos, "arrow parameter"@),
        };
        v_params(params, i + 1, after)
    }
}

pub open spec fn v_exprs(es: Seq<ExprModel>, i: int, st: Check) -> Check
    decreases es, es.len() - i,
{
    if i < 0 || i >= es.len() {
        st
    } else {
        v_exprs(es, i + 1, v_expr(es[i], st))
    }
}

/// Checks the values of `args[i..end]`.
pub open spec fn v_args(args: Seq<ArgModel>, i: int, end: int, st: Check) -> Check
    decreases args, end - i,
{
    if i < 0 || i >= end || end > args.len() {
        st
    } else {
        v_args(args, i + 1, end, v_expr(args[i].value, st))
    }
}

/// Checks array elements: no spreads, no holes.
pub open spec fn v_elements(pos: Pos, elements: Seq<Option<ArgModel>>, i: int, st: Check) -> Check
    decreases elements, elements.len() - i,
{
    if i < 0 || i >= elements.len() {
        st
    } else {
        let after = match elements[i] {
            Some(element) => if element.spread {
                unsupported(st, element.pos, "spread"@)
            } else {
                v_expr(element.value, st)
            },
            None => unsupported(st, pos, "array holes"@),
        };
        v_elements(pos, elements, i + 1, after)
    }
}

/// Checks the object of options a widget call takes.
pub open spec fn v_options(shape: Shape, e: ExprModel, st: Check) -> Check
    decreases e, 0nat,
{
    match e.kind {
        ExprKind::Object(props) => v_props(shape, props@, 0, st),
        _ => sdk_error(st, e.pos, misplaced_message(shape)),
    }
}

/// Checks the array of list items or tabs.
pub open spec fn v_collection(shape: Shape, e: ExprModel, st: Check) -> Check
    decreases e, 0nat,
{
    match e.kind {
        ExprKind::Array(elements) => v_entries(shape, elements@, 0, st),
        _ => sdk_error(st, e.pos, misplaced_message(shape)),
    }
}

/// Checks list items or tabs, skipping holes: each must be an object.
pub open spec fn v_entries(shape: Shape, elements: Seq<Option<ArgModel>>, i: int, st: Check) -> Check
    decreases elements, elements.len() - i,
{
    if i < 0 || i >= elements.len() {
        st
    } else {
        let after = match elements[i] {
            Some(element) => match element.value.kind {
                ExprKind::Object(props) => v_props(shape, props@, 0, st),
                _ => unsupported(st, element.value.pos, shape_word(shape)),
            },
            None => st,
        };
        v_entries(shape, elements, i + 1, after)
    }
}

/// Checks the properties of an object the SDK reads.
pub open spec fn v_props(shape: Shape, props: Seq<PropModel>, i: int, st: Check) -> Check
    decreases props, props.len() - i,
{
    if i < 0 || i >= props.len() {
        st
    } else {
        let after = match props[i] {
            PropModel::Spread(pos) => unsupported(st, pos, "spread"@),
            PropModel::NotKeyValue(pos) => unsupported(st, pos, shape_word(shape) + " property"@),
            PropModel::Computed(pos) => unsupported(st, pos, "computed "@ + shape_word(shape) + " property"@),
            PropModel::KeyValue { name, name_pos, value } => {
                let named = if allowed(shape, name@) {
                    st
                } else {
                    add_fault(st, "MTS002"@, name_pos, unknown_message(shape, name@))
                };
                match checked_value(shape, name@) {
                    Some(params) => v_callback(value, params, named),
                    None => named,
                }
            },
        };
        v_props(shape, props, i + 1, after)
    }
}

/// The options each SDK object takes: a property whose value is a literal
/// draws a finding exactly when its name is not one the object documents.
/// Buttons take `onClick` and `textStyle`, switches `onToggle`, inputs
/// `onChange` and `placeholder`, sliders `onChange`, `min` and `max`,
/// checkboxes and dropdowns (and rollers) `onChange`, scales `min` and
/// `max`, list items `text` and `onClick`, tabs `title` and `content`.
pub proof fn lemma_option_names(shape: Shape, prop: PropModel, st: Check)
    requires
        prop is KeyValue,
        value_of(prop)->0.kind is Literal,
    ensures
        ({
            let name = key_of(prop)->0;
            let documented = match shape {
                Shape::Button => ("textStyle"@ == name || "onClick"@ == name),
                Shape::Switch => ("onToggle"@ == name),
                Shape::Input => ("placeholder"@ == name || "onChange"@ == name),
                Shape::Slider => ("max"@ == name || "min"@ == name || "onChange"@ == name),
                Shape::Checkbox | Shape::Dropdown => ("onChange"@ == name),
                Shape::Scale => ("max"@ == name || "min"@ == name),
                Shape::ListItem => ("onClick"@ == name || "text"@ == name),
                Shape::Tab => ("content"@ == name || "title"@ == name),
            };
            &&& documented ==> v_props(shape, seq![prop], 0, st) == st
            &&& !documented ==> v_props(shape, seq![prop], 0, st).faults.len() == st.faults.len() + 1
        }),
{
    reveal_with_fuel(v_props, 2);
    match prop {
        PropModel::KeyValue { name, name_pos, value } => {
            let named = if allowed(shape, name@) {
                st
            } else {
                add_fault(st, "MTS002"@, name_pos, unknown_message(shape, name@))
            };
            match checked_value(shape, name@) {
                Some(params) => {
                    assert(v_callback(value, params, named) == v_expr(value, named));
                },
                None => {},
            }
        },
        _ => {},
    }
}

/// Which option values are checked: the value of a documented handler
/// (`onClick` of buttons and list items, `onToggle` of switches,
/// `onChange` of inputs, sliders, checkboxes and dropdowns, `content` of
/// tabs) is checked like any expression, so a value outside the subset
/// there draws its finding; the value of any other documented option
/// (`textStyle`, `placeholder`, `min`, `max`, `text`, `title`) is not.
pub proof fn lemma_option_values(shape: Shape, prop: PropModel, st: Check)
    requires
        prop is KeyValue,
        value_of(prop)->0.kind is Other,
    ensures
        ({
            let name = key_of(prop)->0;
            let value = value_of(prop)->0;
            let handler = match shape {
                Shape::Button | Shape::ListItem => ("onClick"@ == name),
                Shape::Switch => ("onToggle"@ == name),
                Shape::Input | Shape::Slider | Shape::Checkbox | Shape::Dropdown => ("onChange"@ == name),
                Shape::Scale => false,
                Shape::Tab => ("content"@ == name),
            };
            let passive = match shape {
                Shape::Button => ("textStyle"@ == name),
                Shape::Input => ("placeholder"@ == name),
                Shape::Slider | Shape::Scale => ("max"@ == name || "min"@ == name),
                Shape::ListItem => ("text"@ == name),
                Shape::Tab => ("title"@ == name),
                _ => false,
            };
            &&& handler ==> v_props(shape, seq![prop], 0, st) == unsupported(st, value.pos, "expression"@)
            &&& passive ==> v_props(shape, seq![prop], 0, st) == st
        }),
{
    reveal_strlit("onClick");
    reveal_strlit("onToggle");
    reveal_strlit("onChange");
    reveal_strlit("content");
    reveal_strlit("textStyle");
    reveal_strlit("placeholder");
    reveal_strlit("max");
    reveal_strlit("min");
    reveal_strlit("text");
    reveal_strlit("title");
    reveal_with_fuel(v_props, 2);
    match prop {
        PropModel::KeyValue { name, name_pos, value } => {
            assert(!("max"@ == "onChange"@)) by {
                assert("max"@[0] != "onChange"@[0]);
            }
            assert(!("min"@ == "onChange"@)) by {
                assert("min"@[0] != "onChange"@[0]);
            }
            assert(!("textStyle"@ == "onClick"@)) by {
                assert("textStyle"@[0] != "onClick"@[0]);
            }
            assert(!("placeholder"@ == "onChange"@)) by {
                assert("placeholder"@[0] != "onChange"@[0]);
            }
            assert(!("text"@ == "onClick"@)) by {
                assert("text"@[0] != "onClick"@[0]);
            }
            assert(!("title"@ == "content"@)) by {
                assert("title"@[0] != "content"@[0]);
            }
            assert(!("max"@ == "min"@)) by {
                assert("max"@[1] != "min"@[1]);
            }
            match checked_value(shape, name@) {
                Some(params) => {
                    assert(v_callback(value, params, st) == v_expr(value, st));
                },
                None => {},
            }
        },
        _ => {},
    }
}

/// Checks the arguments of a call to `name`, whose count is right.
pub open spec fn v_call_args(name: Seq<char>, args: Seq<ArgModel>, st: Check) -> Check
    decreases args, args.len() + 1,
{
    let n = args.len() as int;
    if name == "ui.button"@ && n >= 2 {
        v_options(Shape::Button, args[1].value, v_expr(args[0].value, st))
    } else if name == "ui.text"@ && n >= 1 {
        v_expr(args[0].value, st)
    } else if (name == "ui.switch"@ || name == "ui.input"@ || name == "ui.slider"@ || name == "ui.scale"@) && n >= 1 {
        let shape = if name == "ui.switch"@ {
            Shape::Switch
        } else if name == "ui.input"@ {
            Shape::Input
        } else if name == "ui.slider"@ {
            Shape::Slider
        } else {
            Shape::Scale
        };
        let first = v_expr(args[0].value, st);
        if n == 2 {
            v_options(shape, args[1].value, first)
        } else {
            first
        }
    } else if (name == "ui.checkbox"@ || name == "ui.dropdown"@ || name == "ui.roller"@) && n >= 2 {
        let shape = if name == "ui.checkbox"@ {
            Shape::Checkbox
        } else {
            Shape::Dropdown
        };
        let first = v_expr(args[1].value, v_expr(args[0].value, st));
        if n == 3 {
            v_options(shape, args[2].value, first)
        } else {
            first
        }
    } else if name == "ui.list"@ && n >= 1 {
        v_collection(Shape::ListItem, args[0].value, st)
    } else if name == "ui.tabview"@ && n >= 1 {
        v_collection(Shape::Tab, args[0].value, st)
    } else if takes_callback(name) && n > 0 {
        v_callback(args[n - 1].value, 1, v_args(args, 0, n - 1, st))
    } else {
        v_args(args, 0, n, st)
    }
}

/// Checks a call: a known SDK or host call, with the right number of
/// arguments and no spread, and at most one `ui.mount`.
pub open spec fn v_call(pos: Pos, callee: ExprModel, args: Seq<ArgModel>, st: Check) -> Check
    decreases args, args.len() + 2,
{
    match call_name(callee) {
        None => unsupported(st, pos, "call target"@),
        Some(name) => match arity(name) {
            None => unsupported(st, pos, "call "@ + ticked(name)),
            Some((least, most)) => if args.len() < least || args.len() > most || has_spread(args) {
                sdk_error(st, pos, ticked(name) + " expects "@ + expected_text(least, most) + " argument(s)"@)
            } else {
                let mounted = if name == "ui.mount"@ {
                    let once = Check { mounted: true, ..st };
                    if st.mounted {
                        add_fault(once, "MTS003"@, pos, "exactly one ui.mount call is allowed"@)
                    } else {
                        once
                    }
                } else {
                    st
                };
                v_call_args(name, args, mounted)
            },
        },
    }
}

/// Checks a statement.
pub open spec fn v_stmt(s: StmtModel, st: Check) -> Check
    decreases s, 0nat,
{
    match s {
        StmtModel::Declare { pos, is_var, declarators } => {
            let kind_checked = if is_var {
                unsupported(st, pos, "var declarations"@)
            } else {
                st
            };
            v_declarators(declarators@, 0, kind_checked)
        },
        StmtModel::Expression(e) => v_expr(e, st),
        StmtModel::Block(body) => v_stmts(body@, 0, st),
        StmtModel::If { test, then, otherwise } => {
            let after = v_stmt(*then, v_expr(test, st));
            match otherwise {
                Some(alternate) => v_stmt(*alternate, after),
                None => after,
            }
        },
        StmtModel::While { test, body } => v_stmt(*body, v_expr(test, st)),
        StmtModel::Return(value) => match value {
            Some(e) => v_expr(e, st),
            None => st,
        },
        StmtModel::Empty => st,
        StmtModel::OtherDeclaration(pos) => unsupported(st, pos, "declaration"@),
        StmtModel::Other(pos) => unsupported(st, pos, "statement"@),
    }
}

pub open spec fn v_stmts(body: Seq<StmtModel>, i: int, st: Check) -> Check
    decreases body, body.len() - i,
{
    if i < 0 || i >= body.len() {
        st
    } else {
        v_stmts(body, i + 1, v_stmt(body[i], st))
    }
}

/// Checks declarators: each binds a plain name, after its initializer.
pub open spec fn v_declarators(ds: Seq<DeclaratorModel>, i: int, st: Check) -> Check
    decreases ds, ds.len() - i,
{
    if i < 0 || i >= ds.len() {
        st
    } else {
        let after = match ds[i].binding {
            BindingModel::Pattern(pos) => unsupported(st, pos, "destructuring"@),
            BindingModel::Name(name) => {
                let checked = match ds[i].init {
                    Some(init) => v_expr(init, st),
                    None => st,
                };
                Check { known: checked.known.push(name@), ..checked }
            },
        };
        v_declarators(ds, i + 1, after)
    }
}

pub open spec fn v_items(items: Seq<ItemModel>, i: int, st: Check) -> Check
    decreases items, items.len() - i,
{
    if i < 0 || i >= items.len() {
        st
    } else {
        let after = match items[i] {
            ItemModel::Statement(s) => v_stmt(s, st),
            ItemModel::ModuleDeclaration(pos) => unsupported(st, pos, "runtime module declarations"@),
        };
        v_items(items, i + 1, after)
    }
}

/// The findings on a module, in source order.
pub open spec fn subset_faults(items: Seq<ItemModel>) -> Seq<Fault> {
    v_items(items, 0, Check { known: Seq::empty(), mounted: false, faults: Seq::empty() }).faults
}


/// A finding of the checker.
#[derive(Debug, PartialEq, Eq)]
pub struct Finding {
    pub code: String,
    pub pos: Pos,
    pub message: String,
}

impl View for Finding {
    type V = Fault;

    open spec fn view(&self) -> Fault {
        Fault { code: self.code@, pos: self.pos, message: self.message@ }
    }
}

fn same_text(name: &String, literal: &str) -> (b: bool)
    ensures
        b == (name@ == literal@),
{
    let other = String::from_str(literal);
    *name == other
}

fn ticked_string(prefix: &str, name: &String) -> (r: String)
    ensures
        r@ == prefix@ + ticked(name@),
{
    let mut r = String::from_str(prefix);
    r.append("`");
    r.append(name.as_str());
    r.append("`");
    assert(r@ =~= prefix@ + ticked(name@));
    r
}

fn is_global_name(name: &String) -> (b: bool)
    ensures
        b == is_global(name@),
{
    same_text(name, "state") || same_text(name, "bind") || same_text(name, "ui")
}

fn arity_of(name: &String) -> (r: Option<(usize, usize)>)
    ensures
        match r {
            Some((least, most)) => arity(name@) == Some((least as nat, most as nat)),
            None => arity(name@) is None,
        },
{
    if same_text(name, "state") || same_text(name, "bind") || same_text(name, "ui.mount") || same_text(name, "ui.column") || same_text(name, "ui.row")
        || same_text(name, "ui.progress") || same_text(name, "ui.led") || same_text(name, "ui.spinner") || same_text(name, "ui.list") || same_text(
        name,
        "ui.tabview",
    ) {
        Some((1, 1))
    } else if same_text(name, "ui.text") || same_text(name, "ui.switch") || same_text(name, "ui.input") || same_text(name, "ui.slider") || same_text(
        name,
        "ui.scale",
    ) {
        Some((1, 2))
    } else if same_text(name, "ui.checkbox") || same_text(name, "ui.dropdown") || same_text(name, "ui.roller") {
        Some((2, 3))
    } else if same_text(name, "ui.button") || same_text(name, "net.wifiConnect") || same_text(name, "net.httpGet") || same_text(name, "os.delay") {
        Some((2, 2))
    } else if same_text(name, "device.setBacklight") || same_text(name, "net.scanWifi") || same_text(name, "os.appName") || same_text(
        name,
        "os.appIcon",
    ) || same_text(name, "os.launchIndex") {
        Some((1, 1))
    } else if same_text(name, "device.chip") || same_text(name, "device.flashBytes") || same_text(name, "net.wifiState") || same_text(
        name,
        "net.wifiSsid",
    ) || same_text(name, "net.wifiDisconnect") || same_text(name, "os.goBack") {
        Some((0, 0))
    } else {
        None
    }
}

fn expected_string(least: usize, most: usize) -> (r: String)
    ensures
        r@ == expected_text(least as nat, most as nat),
{
    let mut r = String::new();
    push_decimal(&mut r, least as u64);
    if least != most {
        r.append(" or ");
        push_decimal(&mut r, most as u64);
    }
    r
}

fn call_name_of(callee: &ExprModel) -> (r: Option<String>)
    ensures
        match r {
            Some(name) => call_name(*callee) == Some(name@),
            None => call_name(*callee) is None,
        },
{
    match &callee.kind {
        ExprKind::Name(name) => Some(name.clone()),
        ExprKind::Member { object, property } => match (&object.kind, property) {
            (ExprKind::Name(o), Some(p)) => {
                let mut r = o.clone();
                r.append(".");
                r.append(p.as_str());
                Some(r)
            },
            _ => None,
        },
        _ => None,
    }
}

fn any_spread(args: &Vec<ArgModel>) -> (b: bool)
    ensures
        b == has_spread(args@),
{
    let mut j: usize = 0;
    while j < args.len()
        invariant
            j <= args@.len(),
            forall|k: int| 0 <= k < j ==> !#[trigger] args@[k].spread,
        decreases args@.len() - j,
    {
        if args[j].spread {
            return true;
        }
        j = j + 1;
    }
    false
}

fn shape_text(shape: Shape) -> (r: &'static str)
    ensures
        r@ == shape_word(shape),
{
    match shape {
        Shape::Button => "button",
        Shape::Switch => "switch",
        Shape::Input => "input",
        Shape::Slider => "slider",
        Shape::Checkbox => "checkbox",
        Shape::Dropdown => "dropdown",
        Shape::Scale => "scale",
        Shape::ListItem => "list item",
        Shape::Tab => "tab",
    }
}

fn is_allowed(shape: Shape, name: &String) -> (b: bool)
    ensures
        b == allowed(shape, name@),
{
    match shape {
        Shape::Button => same_text(name, "onClick") || same_text(name, "textStyle"),
        Shape::Switch => same_text(name, "onToggle"),
        Shape::Input => same_text(name, "onChange") || same_text(name, "placeholder"),
        Shape::Slider => same_text(name, "onChange") || same_text(name, "min") || same_text(name, "max"),
        Shape::Checkbox | Shape::Dropdown => same_text(name, "onChange"),
        Shape::Scale => same_text(name, "min") || same_text(name, "max"),
        Shape::ListItem => same_text(name, "text") || same_text(name, "onClick"),
        Shape::Tab => same_text(name, "title") || same_text(name, "content"),
    }
}

fn checked_params(shape: Shape, name: &String) -> (r: Option<usize>)
    ensures
        match r {
            Some(k) => checked_value(shape, name@) == Some(k as nat),
            None => checked_value(shape, name@) is None,
        },
{
    match shape {
        Shape::Button | Shape::ListItem => if same_text(name, "onClick") { Some(0) } else { None },
        Shape::Switch => if same_text(name, "onToggle") { Some(0) } else { None },
        Shape::Input | Shape::Slider | Shape::Checkbox | Shape::Dropdown => if same_text(name, "onChange") {
            Some(1)
        } else {
            None
        },
        Shape::Scale => None,
        Shape::Tab => if same_text(name, "content") { Some(0) } else { None },
    }
}

fn unknown_string(shape: Shape, name: &String) -> (r: String)
    ensures
        r@ == unknown_message(shape, name@),
{
    let mut r = match shape {
        Shape::ListItem | Shape::Tab => String::from_str("unknown "),
        _ => String::from_str("unknown ui."),
    };
    r.append(shape_text(shape));
    r.append(" property ");
    r.append("`");
    r.append(name.as_str());
    r.append("`");
    assert(r@ =~= unknown_message(shape, name@));
    r
}

fn misplaced_string(shape: Shape) -> (r: String)
    ensures
        r@ == misplaced_message(shape),
{
    match shape {
        Shape::ListItem => String::from_str("ui.list expects an item array"),
        Shape::Tab => String::from_str("ui.tabview expects a tab array"),
        _ => {
            let mut r = String::from_str("ui.");
            r.append(shape_text(shape));
            r.append(" options must be an object");
            r
        },
    }
}

struct Checker {
    known: Vec<String>,
    mounted: bool,
    findings: Vec<Finding>,
}

impl Checker {
    spec fn check(&self) -> Check {
        Check {
            known: self.known@.map_values(|n: String| n@),
            mounted: self.mounted,
            faults: self.findings@.map_values(|f: Finding| f@),
        }
    }

    fn fault(&mut self, code: &str, pos: Pos, message: String)
        ensures
            final(self).check() == add_fault(old(self).check(), code@, pos, message@),
    {
        self.findings.push(Finding { code: String::from_str(code), pos, message });
        assert(self.check().faults =~= old(self).check().faults.push(Fault { code: code@, pos, message: message@ }));
        assert(self.check().known =~= old(self).check().known);
    }

    fn unsupported(&mut self, pos: Pos, construct: &str)
        ensures
            final(self).check() == unsupported(old(self).check(), pos, construct@),
    {
        let mut message = String::from_str("unsupported syntax: ");
        message.append(construct);
        self.fault("MTS001", pos, message);
    }

    fn unsupported_named(&mut self, pos: Pos, prefix: &str, name: &String)
        ensures
            final(self).check() == unsupported(old(self).check(), pos, prefix@ + ticked(name@)),
    {
        let construct = ticked_string(prefix, name);
        self.unsupported(pos, construct.as_str());
    }

    fn knows(&self, name: &String) -> (b: bool)
        ensures
            b == self.check().known.contains(name@),
    {
        let mut j: usize = 0;
        while j < self.known.len()
            invariant
                j <= self.known@.len(),
                forall|k: int| 0 <= k < j ==> #[trigger] self.known@[k]@ != name@,
            decreases self.known@.len() - j,
        {
            if self.known[j] == *name {
                assert(self.check().known[j as int] == name@);
                return true;
            }
            j = j + 1;
        }
        assert(!self.check().known.contains(name@)) by {
            if self.check().known.contains(name@) {
                let k = choose|k: int| 0 <= k < self.check().known.len() && self.check().known[k] == name@;
                assert(self.known@[k]@ == name@);
            }
        }
        false
    }

    fn learn(&mut self, name: &String)
        ensures
            final(self).check() == (Check { known: old(self).check().known.push(name@), ..old(self).check() }),
    {
        self.known.push(name.clone());
        assert(self.check().known =~= old(self).check().known.push(name@));
        assert(self.check().faults =~= old(self).check().faults);
    }

    fn expr(&mut self, e: &ExprModel)
        ensures
            final(self).check() == v_expr(*e, old(self).check()),
        decreases e, 0nat,
    {
        match &e.kind {
            ExprKind::Literal(_) => {},
            ExprKind::Name(name) => {
                if !(self.knows(name) || is_global_name(name)) {
                    self.unsupported_named(e.pos, "global ", name);
                }
            },
            ExprKind::Call { callee, args } => self.call(e.pos, callee, args),
            ExprKind::Member { object, property } => self.member(e.pos, object, property),
            ExprKind::Arrow(arrow) => self.arrow(arrow, e.pos, 0),
            ExprKind::Template(parts) => self.exprs(parts, 0),
            ExprKind::Binary(left, right) => {
                self.expr(left);
                self.expr(right);
            },
            ExprKind::Unary(inner) => self.expr(inner),
            ExprKind::Update(inner) => self.assignable(inner),
            ExprKind::Assign { target, value } => {
                self.expr(value);
                match target {
                    TargetModel::Name(name, pos) => {
                        if !self.knows(name) {
                            self.unsupported(*pos, "assignment target");
                        }
                    },
                    TargetModel::Member { pos, object, property } => self.member(*pos, object, property),
                    TargetModel::Other(pos) => self.unsupported(*pos, "assignment target"),
                }
            },
            ExprKind::Conditional(test, yes, no) => {
                self.expr(test);
                self.expr(yes);
                self.expr(no);
            },
            ExprKind::Paren(inner) => self.expr(inner),
            ExprKind::Array(elements) => self.elements(e.pos, elements, 0),
            ExprKind::Object(_) | ExprKind::Other => self.unsupported(e.pos, "expression"),
        }
    }

    fn member(&mut self, pos: Pos, object: &ExprModel, property: &Option<String>)
        ensures
            final(self).check() == v_member(pos, *object, *property, old(self).check()),
        decreases object, 1nat,
    {
        match property {
            None => self.unsupported(pos, "computed property access"),
            Some(p) => {
                if !same_text(p, "value") {
                    self.unsupported_named(pos, "property ", p);
                }
                self.expr(object);
            },
        }
    }

    fn assignable(&mut self, e: &ExprModel)
        ensures
            final(self).check() == v_assignable(*e, old(self).check()),
        decreases e, 1nat,
    {
        match &e.kind {
            ExprKind::Name(name) => {
                if !self.knows(name) {
                    self.unsupported(e.pos, "update target");
                }
            },
            ExprKind::Member { object, property } => self.member(e.pos, object, property),
            _ => self.unsupported(e.pos, "update target"),
        }
    }

    fn callback(&mut self, e: &ExprModel, params: usize)
        ensures
            final(self).check() == v_callback(*e, params as nat, old(self).check()),
        decreases e, 1nat,
    {
        match &e.kind {
            ExprKind::Arrow(arrow) => self.arrow(arrow, e.pos, params),
            _ => self.expr(e),
        }
    }

    fn arrow(&mut self, arrow: &ArrowModel, pos: Pos, params: usize)
        ensures
            final(self).check() == v_arrow(*arrow, pos, params as nat, old(self).check()),
        decreases arrow, 0nat,
    {
        if arrow.is_async_or_generator {
            self.unsupported(pos, "async or generator arrow function");
        } else if arrow.params.len() > params {
            let mut message = String::from_str("arrow expects at most ");
            push_decimal(&mut message, params as u64);
            message.append(" parameter(s), found ");
            push_decimal(&mut message, arrow.params.len() as u64);
            assert(message@ =~= "arrow expects at most "@ + decimal(params as nat) + " parameter(s), found "@
                + decimal(arrow.params@.len()));
            self.fault("MTS002", pos, message);
        } else {
            let saved = self.known.clone();
            proof {
                assert forall|k: int| 0 <= k < saved@.len() implies saved@[k] == self.known@[k] by {
                    assert(cloned::<String>(self.known@[k], saved@[k]));
                }
                assert(saved@ =~= self.known@);
            }
            self.params(&arrow.params, 0);
            match &arrow.body {
                ArrowBody::Block(body) => self.stmts(body, 0),
                ArrowBody::Expression(body) => self.expr(body),
            }
            self.known = saved;
        }
    }

    fn params(&mut self, params: &Vec<BindingModel>, i: usize)
        requires
            i <= params@.len(),
        ensures
            final(self).check() == v_params(params@, i as int, old(self).check()),
        decreases params@, params@.len() - i,
    {
        if i < params.len() {
            match &params[i] {
                BindingModel::Name(name) => self.learn(name),
                BindingModel::Pattern(pos) => self.unsupported(*pos, "arrow parameter"),
            }
            self.params(params, i + 1);
        }
    }

    fn exprs(&mut self, es: &Vec<ExprModel>, i: usize)
        requires
            i <= es@.len(),
        ensures
            final(self).check() == v_exprs(es@, i as int, old(self).check()),
        decreases es@, es@.len() - i,
    {
        if i < es.len() {
            self.expr(&es[i]);
            self.exprs(es, i + 1);
        }
    }

    fn args(&mut self, args: &Vec<ArgModel>, i: usize, end: usize)
        requires
            i <= end <= args@.len(),
        ensures
            final(self).check() == v_args(args@, i as int, end as int, old(self).check()),
        decreases args@, end - i,
    {
        if i < end {
            self.expr(&args[i].value);
            self.args(args, i + 1, end);
        }
    }

    fn elements(&mut self, pos: Pos, elements: &Vec<Option<ArgModel>>, i: usize)
        requires
            i <= elements@.len(),
        ensures
            final(self).check() == v_elements(pos, elements@, i as int, old(self).check()),
        decreases elements@, elements@.len() - i,
    {
        if i < elements.len() {
            match &elements[i] {
                Some(element) => {
                    if element.spread {
                        self.unsupported(element.pos, "spread");
                    } else {
                        self.expr(&element.value);
                    }
                },
                None => self.unsupported(pos, "array holes"),
            }
            self.elements(pos, elements, i + 1);
        }
    }

    fn options(&mut self, shape: Shape, e: &ExprModel)
        ensures
            final(self).check() == v_options(shape, *e, old(self).check()),
        decreases e, 0nat,
    {
        match &e.kind {
            ExprKind::Object(props) => self.props(shape, props, 0),
            _ => self.fault("MTS002", e.pos, misplaced_string(shape)),
        }
    }

    fn collection(&mut self, shape: Shape, e: &ExprModel)
        ensures
            final(self).check() == v_collection(shape, *e, old(self).check()),
        decreases e, 0nat,
    {
        match &e.kind {
            ExprKind::Array(elements) => self.entries(shape, elements, 0),
            _ => self.fault("MTS002", e.pos, misplaced_string(shape)),
        }
    }

    fn entries(&mut self, shape: Shape, elements: &Vec<Option<ArgModel>>, i: usize)
        requires
            i <= elements@.len(),
        ensures
            final(self).check() == v_entries(shape, elements@, i as int, old(self).check()),
        decreases elements@, elements@.len() - i,
    {
        if i < elements.len() {
            match &elements[i] {
                Some(element) => match &element.value.kind {
                    ExprKind::Object(props) => self.props(shape, props, 0),
                    _ => self.unsupported(element.value.pos, shape_text(shape)),
                },
                None => {},
            }
            self.entries(shape, elements, i + 1);
        }
    }

    fn props(&mut self, shape: Shape, props: &Vec<PropModel>, i: usize)
        requires
            i <= props@.len(),
        ensures
            final(self).check() == v_props(shape, props@, i as int, old(self).check()),
        decreases props@, props@.len() - i,
    {
        if i < props.len() {
            match &props[i] {
                PropModel::Spread(pos) => self.unsupported(*pos, "spread"),
                PropModel::NotKeyValue(pos) => {
                    let mut construct = String::from_str(shape_text(shape));
                    construct.append(" property");
                    self.unsupported(*pos, construct.as_str());
                },
                PropModel::Computed(pos) => {
                    let mut construct = String::from_str("computed ");
                    construct.append(shape_text(shape));
                    construct.append(" property");
                    assert(construct@ =~= "computed "@ + shape_word(shape) + " property"@);
                    self.unsupported(*pos, construct.as_str());
                },
                PropModel::KeyValue { name, name_pos, value } => {
                    if !is_allowed(shape, name) {
                        self.fault("MTS002", *name_pos, unknown_string(shape, name));
                    }
                    match checked_params(shape, name) {
                        Some(params) => self.callback(value, params),
                        None => {},
                    }
                },
            }
            self.props(shape, props, i + 1);
        }
    }

    fn call_args(&mut self, name: &String, args: &Vec<ArgModel>)
        ensures
            final(self).check() == v_call_args(name@, args@, old(self).check()),
        decreases args@, args@.len() + 1,
    {
        let n = args.len();
        if same_text(name, "ui.button") && n >= 2 {
            self.expr(&args[0].value);
            self.options(Shape::Button, &args[1].value);
        } else if same_text(name, "ui.text") && n >= 1 {
            self.expr(&args[0].value);
        } else if (same_text(name, "ui.switch") || same_text(name, "ui.input") || same_text(name, "ui.slider") || same_text(name, "ui.scale"))
            && n >= 1 {
            let shape = if same_text(name, "ui.switch") {
                Shape::Switch
            } else if same_text(name, "ui.input") {
                Shape::Input
            } else if same_text(name, "ui.slider") {
                Shape::Slider
            } else {
                Shape::Scale
            };
            self.expr(&args[0].value);
            if n == 2 {
                self.options(shape, &args[1].value);
            }
        } else if (same_text(name, "ui.checkbox") || same_text(name, "ui.dropdown") || same_text(name, "ui.roller")) && n >= 2 {
            let shape = if same_text(name, "ui.checkbox") {
                Shape::Checkbox
            } else {
                Shape::Dropdown
            };
            self.expr(&args[0].value);
            self.expr(&args[1].value);
            if n == 3 {
                self.options(shape, &args[2].value);
            }
        } else if same_text(name, "ui.list") && n >= 1 {
            self.collection(Shape::ListItem, &args[0].value);
        } else if same_text(name, "ui.tabview") && n >= 1 {
            self.collection(Shape::Tab, &args[0].value);
        } else if (same_text(name, "net.scanWifi") || same_text(name, "net.httpGet") || same_text(name, "os.delay")) && n > 0 {
            self.args(args, 0, n - 1);
            self.callback(&args[n - 1].value, 1);
        } else {
            self.args(args, 0, n);
        }
    }

    fn call(&mut self, pos: Pos, callee: &ExprModel, args: &Vec<ArgModel>)
        ensures
            final(self).check() == v_call(pos, *callee, args@, old(self).check()),
        decreases args@, args@.len() + 2,
    {
        let name = match call_name_of(callee) {
            None => {
                self.unsupported(pos, "call target");
                return;
            },
            Some(name) => name,
        };
        let (least, most) = match arity_of(&name) {
            None => {
                self.unsupported_named(pos, "call ", &name);
                return;
            },
            Some(bounds) => bounds,
        };
        if args.len() < least || args.len() > most || any_spread(args) {
            let mut message = String::from_str("`");
            message.append(name.as_str());
            message.append("`");
            message.append(" expects ");
            let expected = expected_string(least, most);
            message.append(expected.as_str());
            message.append(" argument(s)");
            assert(message@ =~= ticked(name@) + " expects "@ + expected_text(least as nat, most as nat)
                + " argument(s)"@);
            self.fault("MTS002", pos, message);
            return;
        }
        if same_text(&name, "ui.mount") {
            let again = self.mounted;
            self.mounted = true;
            assert(self.check() == (Check { mounted: true, ..old(self).check() }));
            if again {
                self.fault("MTS003", pos, String::from_str("exactly one ui.mount call is allowed"));
            }
        }
        self.call_args(&name, args);
    }

    fn stmt(&mut self, s: &StmtModel)
        ensures
            final(self).check() == v_stmt(*s, old(self).check()),
        decreases s, 0nat,
    {
        match s {
            StmtModel::Declare { pos, is_var, declarators } => {
                if *is_var {
                    self.unsupported(*pos, "var declarations");
                }
                self.declarators(declarators, 0);
            },
            StmtModel::Expression(e) => self.expr(e),
            StmtModel::Block(body) => self.stmts(body, 0),
            StmtModel::If { test, then, otherwise } => {
                self.expr(test);
                self.stmt(then);
                match otherwise {
                    Some(alternate) => self.stmt(alternate),
                    None => {},
                }
            },
            StmtModel::While { test, body } => {
                self.expr(test);
                self.stmt(body);
            },
            StmtModel::Return(value) => match value {
                Some(e) => self.expr(e),
                None => {},
            },
            StmtModel::Empty => {},
            StmtModel::OtherDeclaration(pos) => self.unsupported(*pos, "declaration"),
            StmtModel::Other(pos) => self.unsupported(*pos, "statement"),
        }
    }

    fn stmts(&mut self, body: &Vec<StmtModel>, i: usize)
        requires
            i <= body@.len(),
        ensures
            final(self).check() == v_stmts(body@, i as int, old(self).check()),
        decreases body@, body@.len() - i,
    {
        if i < body.len() {
            self.stmt(&body[i]);
            self.stmts(body, i + 1);
        }
    }

    fn declarators(&mut self, ds: &Vec<DeclaratorModel>, i: usize)
        requires
            i <= ds@.len(),
        ensures
            final(self).check() == v_declarators(ds@, i as int, old(self).check()),
        decreases ds@, ds@.len() - i,
    {
        if i < ds.len() {
            match &ds[i].binding {
                BindingModel::Pattern(pos) => self.unsupported(*pos, "destructuring"),
                BindingModel::Name(name) => {
                    match &ds[i].init {
                        Some(init) => self.expr(init),
                        None => {},
                    }
                    self.learn(name);
                },
            }
            self.declarators(ds, i + 1);
        }
    }

    fn items(&mut self, items: &Vec<ItemModel>, i: usize)
        requires
            i <= items@.len(),
        ensures
            final(self).check() == v_items(items@, i as int, old(self).check()),
        decreases items@.len() - i,
    {
        if i < items.len() {
            match &items[i] {
                ItemModel::Statement(s) => self.stmt(s),
                ItemModel::ModuleDeclaration(pos) => self.unsupported(*pos, "runtime module declarations"),
            }
            self.items(items, i + 1);
        }
    }
}


/// A finding reported against a file: its stable code, where it is, and
/// what is wrong.
#[derive(Debug, Clone, PartialEq, Eq)]
pub struct Diagnostic {
    pub code: String,
    pub path: String,
    pub line: usize,
    pub column: usize,
    pub message: String,
    pub hint: Option<String>,
}

/// A diagnostic as values.
pub struct DiagnosticValue {
    pub code: Seq<char>,
    pub path: Seq<char>,
    pub line: usize,
    pub column: usize,
    pub message: Seq<char>,
    pub hint: Option<Seq<char>>,
}

impl View for Diagnostic {
    type V = DiagnosticValue;

    open spec fn view(&self) -> DiagnosticValue {
        DiagnosticValue {
            code: self.code@,
            path: self.path@,
            line: self.line,
            column: self.column,
            message: self.message@,
            hint: match self.hint {
                Some(h) => Some(h@),
                None => None,
            },
        }
    }
}

/// The diagnostic that reports `fault` in the file at `path`.
pub open spec fn diagnostic_of(path: Seq<char>, fault: Fault) -> DiagnosticValue {
    DiagnosticValue {
        code: fault.code,
        path,
        line: fault.pos.line,
        column: fault.pos.column,
        message: fault.message,
        hint: None,
    }
}

impl Diagnostic {
    /// `path:line:column: code: message`.
    pub fn to_string(&self) -> (text: String)
        ensures
            text@ == self.path@ + ":"@ + decimal(self.line as nat) + ":"@ + decimal(self.column as nat) + ": "@
                + self.code@ + ": "@ + self.message@,
    {
        let mut text = self.path.clone();
        text.append(":");
        push_decimal(&mut text, self.line as u64);
        text.append(":");
        push_decimal(&mut text, self.column as u64);
        text.append(": ");
        text.append(self.code.as_str());
        text.append(": ");
        text.append(self.message.as_str());
        text
    }
}

/// Checks a module of the subset: `Ok` when nothing is outside it, else
/// every finding in source order, reported against `path`.
pub fn validate_module(path: &str, items: &Vec<ItemModel>) -> (r: Result<(), Vec<Diagnostic>>)
    ensures
        r is Ok <==> subset_faults(items@).len() == 0,
        r matches Err(d) ==> d@.map_values(|x: Diagnostic| x@) == subset_faults(items@).map_values(
            |f: Fault| diagnostic_of(path@, f),
        ),
{
    let mut checker = Checker { known: Vec::new(), mounted: false, findings: Vec::new() };
    assert(checker.check().known =~= Seq::<Seq<char>>::empty());
    assert(checker.check().faults =~= Seq::<Fault>::empty());
    checker.items(items, 0);
    let findings = &checker.findings;
    if findings.len() == 0 {
        return Ok(());
    }
    let ghost faults = subset_faults(items@);
    let mut out: Vec<Diagnostic> = Vec::new();
    let mut i: usize = 0;
    while i < findings.len()
        invariant
            i <= findings@.len(),
            faults == findings@.map_values(|f: Finding| f@),
            out@.len() == i,
            forall|k: int| 0 <= k < i ==> #[trigger] out@[k]@ == diagnostic_of(path@, faults[k]),
        decreases findings@.len() - i,
    {
        let finding = &findings[i];
        out.push(
            Diagnostic {
                code: finding.code.clone(),
                path: String::from_str(path),
                line: finding.pos.line,
                column: finding.pos.column,
                message: finding.message.clone(),
                hint: None,
            },
        );
        i = i + 1;
    }
    assert(out@.map_values(|x: Diagnostic| x@) =~= faults.map_values(|f: Fault| diagnostic_of(path@, f)));
    Err(out)
}

/// A finding on a text style.
pub open spec fn style_fault(pos: Pos, message: Seq<char>) -> Fault {
    Fault { code: "MTS014"@, pos, message }
}

pub open spec fn is_style_field(name: Seq<char>) -> bool {
    name == "font"@ || name == "size"@ || name == "weight"@ || name == "lineHeight"@
}

pub open spec fn key_of(prop: PropModel) -> Option<Seq<char>> {
    match prop {
        PropModel::KeyValue { name, .. } => Some(name@),
        _ => None,
    }
}

pub open spec fn value_of(prop: PropModel) -> Option<ExprModel> {
    match prop {
        PropModel::KeyValue { value, .. } => Some(value),
        _ => None,
    }
}

/// Some property before `i` has the key `name`.
pub open spec fn named_before(props: Seq<PropModel>, i: int, name: Seq<char>) -> bool {
    exists|j: int| 0 <= j < i && #[trigger] key_of(props[j]) == Some(name)
}

/// The first fault among the properties of a text style from `i` on: a
/// spread, a property that is not `key: value`, a key that is not a plain
/// name, an unknown field, or a field given twice.
pub open spec fn style_scan(props: Seq<PropModel>, i: int) -> Option<Fault>
    decreases props.len() - i,
{
    if i < 0 || i >= props.len() {
        None
    } else {
        match props[i] {
            PropModel::Spread(pos) => Some(style_fault(pos, "text style cannot use spread"@)),
            PropModel::NotKeyValue(pos) => Some(style_fault(pos, "text style fields must be literal key-value pairs"@)),
            PropModel::Computed(pos) => Some(style_fault(pos, "text style field names must be identifiers"@)),
            PropModel::KeyValue { name, name_pos, .. } => if !is_style_field(name@) {
                Some(style_fault(name_pos, "unknown text style field "@ + ticked(name@)))
            } else if named_before(props, i, name@) {
                Some(style_fault(name_pos, "duplicate text style field "@ + ticked(name@)))
            } else {
                style_scan(props, i + 1)
            },
        }
    }
}

/// The value of the first property from `i` on with the key `name`.
pub open spec fn field_value(props: Seq<PropModel>, name: Seq<char>, i: int) -> Option<ExprModel>
    decreases props.len() - i,
{
    if i < 0 || i >= props.len() {
        None
    } else if key_of(props[i]) == Some(name) {
        value_of(props[i])
    } else {
        field_value(props, name, i + 1)
    }
}

pub open spec fn text_literal(e: ExprModel) -> Option<Seq<char>> {
    match e.kind {
        ExprKind::Literal(LiteralValue::Text(Some(text))) => Some(text@),
        _ => None,
    }
}

pub open spec fn byte_literal(e: ExprModel) -> Option<u8> {
    match e.kind {
        ExprKind::Literal(LiteralValue::Number(Some(value))) => Some(value),
        _ => None,
    }
}

pub open spec fn required_fault(pos: Pos, name: Seq<char>) -> Fault {
    style_fault(pos, "text style field "@ + ticked(name) + " is required"@)
}

/// The text style an options object gives: `font: "uiSans"`, a whole-pixel
/// `size`, `weight: "regular"` and the `lineHeight` the generated assets
/// have for that size, each exactly once and nothing else.
pub open spec fn text_style_of(e: ExprModel) -> Result<TextStyle, Fault> {
    match e.kind {
        ExprKind::Object(props) => {
            let ps = props@;
            match style_scan(ps, 0) {
                Some(fault) => Err(fault),
                None => if field_value(ps, "font"@, 0) is None {
                    Err(required_fault(e.pos, "font"@))
                } else if field_value(ps, "size"@, 0) is None {
                    Err(required_fault(e.pos, "size"@))
                } else if field_value(ps, "weight"@, 0) is None {
                    Err(required_fault(e.pos, "weight"@))
                } else if field_value(ps, "lineHeight"@, 0) is None {
                    Err(required_fault(e.pos, "lineHeight"@))
                } else {
                    let font = field_value(ps, "font"@, 0)->0;
                    let size = field_value(ps, "size"@, 0)->0;
                    let weight = field_value(ps, "weight"@, 0)->0;
                    let line_height = field_value(ps, "lineHeight"@, 0)->0;
                    match text_literal(font) {
                        None => Err(style_fault(font.pos, "text style `font` must be a string literal"@)),
                        Some(f) => if f != "uiSans"@ {
                            Err(style_fault(font.pos, "unknown font "@ + ticked(f)))
                        } else {
                            match text_literal(weight) {
                                None => Err(style_fault(weight.pos, "text style `weight` must be a string literal"@)),
                                Some(w) => if w == "medium"@ || w == "bold"@ {
                                    Err(
                                        style_fault(
                                            weight.pos,
                                            "font weight "@ + ticked(w) + " has no generated uiSans asset; use `regular`"@,
                                        ),
                                    )
                                } else if w != "regular"@ {
                                    Err(style_fault(weight.pos, "unknown font weight "@ + ticked(w)))
                                } else {
                                    match byte_literal(size) {
                                        None => Err(
                                            style_fault(
                                                size.pos,
                                                "text style `size` must be an unsigned 8-bit integer literal"@,
                                            ),
                                        ),
                                        Some(size_px) => match byte_literal(line_height) {
                                            None => Err(
                                                style_fault(
                                                    line_height.pos,
                                                    "text style `lineHeight` must be an unsigned 8-bit integer literal"@,
                                                ),
                                            ),
                                            Some(line_px) => match style_check(
                                                FontFamily::UiSans,
                                                size_px,
                                                FontWeight::Regular,
                                                line_px,
                                            ) {
                                                Ok(style) => Ok(style),
                                                Err(error) => Err(style_fault(e.pos, style_error_text(error))),
                                            },
                                        },
                                    }
                                },
                            }
                        },
                    }
                },
            }
        },
        _ => Err(style_fault(e.pos, "text style must be an object literal"@)),
    }
}

fn style_finding(pos: Pos, message: String) -> (f: Finding)
    ensures
        f@ == style_fault(pos, message@),
{
    Finding { code: String::from_str("MTS014"), pos, message }
}

fn ticked_message(before: &str, name: &String, after: &str) -> (r: String)
    ensures
        r@ == before@ + ticked(name@) + after@,
{
    let mut r = String::from_str(before);
    r.append("`");
    r.append(name.as_str());
    r.append("`");
    r.append(after);
    assert(r@ =~= before@ + ticked(name@) + after@);
    r
}

fn named_earlier(props: &Vec<PropModel>, i: usize, name: &String) -> (b: bool)
    requires
        i <= props@.len(),
    ensures
        b == named_before(props@, i as int, name@),
{
    let mut j: usize = 0;
    while j < i
        invariant
            j <= i <= props@.len(),
            forall|k: int| 0 <= k < j ==> #[trigger] key_of(props@[k]) != Some(name@),
        decreases i - j,
    {
        match &props[j] {
            PropModel::KeyValue { name: other, .. } => {
                if *other == *name {
                    assert(key_of(props@[j as int]) == Some(name@));
                    return true;
                }
            },
            _ => {},
        }
        j = j + 1;
    }
    false
}

fn scan_style(props: &Vec<PropModel>) -> (r: Option<Finding>)
    ensures
        match r {
            Some(f) => style_scan(props@, 0) == Some(f@),
            None => style_scan(props@, 0) is None,
        },
{
    let mut i: usize = 0;
    while i < props.len()
        invariant
            i <= props@.len(),
            style_scan(props@, 0) == style_scan(props@, i as int),
        decreases props@.len() - i,
    {
        match &props[i] {
            PropModel::Spread(pos) => return Some(
                style_finding(*pos, String::from_str("text style cannot use spread")),
            ),
            PropModel::NotKeyValue(pos) => return Some(
                style_finding(*pos, String::from_str("text style fields must be literal key-value pairs")),
            ),
            PropModel::Computed(pos) => return Some(
                style_finding(*pos, String::from_str("text style field names must be identifiers")),
            ),
            PropModel::KeyValue { name, name_pos, .. } => {
                if !(same_text(name, "font") || same_text(name, "size") || same_text(name, "weight") || same_text(
                    name,
                    "lineHeight",
                )) {
                    return Some(style_finding(*name_pos, ticked_string("unknown text style field ", name)));
                }
                if named_earlier(props, i, name) {
                    return Some(style_finding(*name_pos, ticked_string("duplicate text style field ", name)));
                }
            },
        }
        i = i + 1;
    }
    None
}

fn find_field<'a>(props: &'a Vec<PropModel>, name: &str) -> (r: Option<&'a ExprModel>)
    ensures
        match r {
            Some(value) => field_value(props@, name@, 0) == Some(*value),
            None => field_value(props@, name@, 0) is None,
        },
{
    let key = String::from_str(name);
    let mut i: usize = 0;
    while i < props.len()
        invariant
            i <= props@.len(),
            key@ == name@,
            field_value(props@, name@, 0) == field_value(props@, name@, i as int),
        decreases props@.len() - i,
    {
        match &props[i] {
            PropModel::KeyValue { name: other, value, .. } => {
                if *other == key {
                    return Some(value);
                }
            },
            _ => {},
        }
        i = i + 1;
    }
    None
}

fn text_of(e: &ExprModel) -> (r: Option<&String>)
    ensures
        match r {
            Some(text) => text_literal(*e) == Some(text@),
            None => text_literal(*e) is None,
        },
{
    match &e.kind {
        ExprKind::Literal(LiteralValue::Text(Some(text))) => Some(text),
        _ => None,
    }
}

fn byte_of(e: &ExprModel) -> (r: Option<u8>)
    ensures
        r == byte_literal(*e),
{
    match &e.kind {
        ExprKind::Literal(LiteralValue::Number(Some(value))) => Some(*value),
        _ => None,
    }
}

/// Reads the text style given by an options object, or the first reason
/// it is not one.
pub fn lower_text_style(style: &ExprModel) -> (r: Result<TextStyle, Finding>)
    ensures
        match r {
            Ok(t) => text_style_of(*style) == Ok::<TextStyle, Fault>(t),
            Err(f) => text_style_of(*style) == Err::<TextStyle, Fault>(f@),
        },
{
    let props = match &style.kind {
        ExprKind::Object(props) => props,
        _ => return Err(style_finding(style.pos, String::from_str("text style must be an object literal"))),
    };
    if let Some(finding) = scan_style(props) {
        return Err(finding);
    }
    let font = match find_field(props, "font") {
        Some(value) => value,
        None => return Err(style_finding(style.pos, ticked_message("text style field ", &String::from_str("font"), " is required"))),
    };
    let size = match find_field(props, "size") {
        Some(value) => value,
        None => return Err(style_finding(style.pos, ticked_message("text style field ", &String::from_str("size"), " is required"))),
    };
    let weight = match find_field(props, "weight") {
        Some(value) => value,
        None => return Err(style_finding(style.pos, ticked_message("text style field ", &String::from_str("weight"), " is required"))),
    };
    let line_height = match find_field(props, "lineHeight") {
        Some(value) => value,
        None => return Err(
            style_finding(style.pos, ticked_message("text style field ", &String::from_str("lineHeight"), " is required")),
        ),
    };
    let family = match text_of(font) {
        None => return Err(style_finding(font.pos, String::from_str("text style `font` must be a string literal"))),
        Some(f) => {
            if !same_text(f, "uiSans") {
                return Err(style_finding(font.pos, ticked_string("unknown font ", f)));
            }
            FontFamily::UiSans
        },
    };
    match text_of(weight) {
        None => return Err(style_finding(weight.pos, String::from_str("text style `weight` must be a string literal"))),
        Some(w) => {
            if same_text(w, "medium") || same_text(w, "bold") {
                return Err(
                    style_finding(
                        weight.pos,
                        ticked_message("font weight ", w, " has no generated uiSans asset; use `regular`"),
                    ),
                );
            }
            if !same_text(w, "regular") {
                return Err(style_finding(weight.pos, ticked_string("unknown font weight ", w)));
            }
        },
    }
    let size_px = match byte_of(size) {
        None => return Err(
            style_finding(size.pos, String::from_str("text style `size` must be an unsigned 8-bit integer literal")),
        ),
        Some(value) => value,
    };
    let line_px = match byte_of(line_height) {
        None => return Err(
            style_finding(
                line_height.pos,
                String::from_str("text style `lineHeight` must be an unsigned 8-bit integer literal"),
            ),
        ),
        Some(value) => value,
    };
    match TextStyle::new(family, size_px, FontWeight::Regular, line_px) {
        Ok(result) => Ok(result),
        Err(error) => Err(style_finding(style.pos, error.message())),
    }
}

} // verus!
