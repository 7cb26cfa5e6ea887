use micro_platform::ir::{FontFamily, FontWeight, TextStyle};
use micro_platform::subset::{
    lower_text_style, validate_module, ArgModel, ArrowBody, ArrowModel, BindingModel, DeclaratorModel, Diagnostic, ExprKind,
    ExprModel, ItemModel, LiteralValue, Pos, PropModel, StmtModel, TargetModel,
};

fn at(line: usize, column: usize) -> Pos {
    Pos { line, column }
}

fn scalar(pos: Pos) -> ExprModel {
    ExprModel { pos, kind: ExprKind::Literal(LiteralValue::Bool(true)) }
}

fn name(pos: Pos, text: &str) -> ExprModel {
    ExprModel { pos, kind: ExprKind::Name(text.to_string()) }
}

fn member(pos: Pos, object: ExprModel, property: Option<&str>) -> ExprModel {
    ExprModel {
        pos,
        kind: ExprKind::Member { object: Box::new(object), property: property.map(|p| p.to_string()) },
    }
}

/// `object.property` as written at `pos`, both plain names.
fn dotted(pos: Pos, object: &str, property: &str) -> ExprModel {
    member(pos, name(pos, object), Some(property))
}

fn arg(value: ExprModel) -> ArgModel {
    ArgModel { pos: value.pos, spread: false, value }
}

fn call(pos: Pos, callee: ExprModel, args: Vec<ExprModel>) -> ExprModel {
    ExprModel {
        pos,
        kind: ExprKind::Call { callee: Box::new(callee), args: args.into_iter().map(arg).collect() },
    }
}

fn sdk(pos: Pos, object: &str, property: &str, args: Vec<ExprModel>) -> ExprModel {
    call(pos, dotted(pos, object, property), args)
}

fn arrow(pos: Pos, params: &[&str], body: Vec<StmtModel>) -> ExprModel {
    ExprModel {
        pos,
        kind: ExprKind::Arrow(ArrowModel {
            is_async_or_generator: false,
            params: params.iter().map(|p| BindingModel::Name(p.to_string())).collect(),
            body: ArrowBody::Block(body),
        }),
    }
}

fn object(pos: Pos, props: Vec<(&str, Pos, ExprModel)>) -> ExprModel {
    ExprModel {
        pos,
        kind: ExprKind::Object(
            props
                .into_iter()
                .map(|(key, name_pos, value)| PropModel::KeyValue { name: key.to_string(), name_pos, value })
                .collect(),
        ),
    }
}

fn statement(e: ExprModel) -> ItemModel {
    ItemModel::Statement(StmtModel::Expression(e))
}

fn declare(pos: Pos, binding: BindingModel, init: Option<ExprModel>) -> ItemModel {
    ItemModel::Statement(StmtModel::Declare {
        pos,
        is_var: false,
        declarators: vec![DeclaratorModel { binding, init }],
    })
}

fn bound(text: &str) -> BindingModel {
    BindingModel::Name(text.to_string())
}

fn first(path: &str, items: &Vec<ItemModel>) -> Diagnostic {
    let errors = validate_module(path, items).unwrap_err();
    errors.into_iter().next().unwrap()
}

#[test]
fn subset_rejects_unsupported_constructs_with_locations() {
    let async_arrow = ExprModel {
        pos: at(1, 13),
        kind: ExprKind::Arrow(ArrowModel {
            is_async_or_generator: true,
            params: vec![],
            body: ArrowBody::Expression(Box::new(scalar(at(1, 25)))),
        }),
    };
    let spread = ExprModel {
        pos: at(1, 11),
        kind: ExprKind::Array(vec![Some(ArgModel { pos: at(1, 12), spread: true, value: name(at(1, 15), "items") })]),
    };
    let cases: Vec<(&str, Vec<ItemModel>, &str, usize, usize, &str)> = vec![
        ("class.ts", vec![ItemModel::Statement(StmtModel::OtherDeclaration(at(1, 1)))], "MTS001", 1, 1, "declaration"),
        ("async.ts", vec![declare(at(1, 1), bound("run"), Some(async_arrow))], "MTS001", 1, 13,
            "async or generator arrow function"),
        ("import.ts", vec![ItemModel::ModuleDeclaration(at(1, 1))], "MTS001", 1, 1, "runtime module declarations"),
        ("spread.ts", vec![declare(at(1, 1), bound("x"), Some(spread))], "MTS001", 1, 12, "spread"),
        ("destructure.ts", vec![declare(at(1, 1), BindingModel::Pattern(at(1, 7)), Some(name(at(1, 19), "item")))],
            "MTS001", 1, 7, "destructuring"),
        (
            "dynamic.ts",
            vec![
                declare(at(1, 1), bound("x"), Some(call(at(1, 11), name(at(1, 11), "state"), vec![scalar(at(1, 17))]))),
                statement(member(at(1, 21), name(at(1, 21), "x"), None)),
            ],
            "MTS001",
            1,
            21,
            "computed property access",
        ),
        ("global.ts", vec![statement(sdk(at(1, 1), "console", "log", vec![scalar(at(1, 13))]))], "MTS001", 1, 1,
            "call `console.log`"),
    ];
    for (path, items, code, line, column, construct) in cases {
        let error = first(path, &items);
        assert_eq!(error.code, code, "{path}");
        assert_eq!((error.line, error.column), (line, column), "{path}");
        assert_eq!(error.message, format!("unsupported syntax: {construct}"), "{path}");
        assert!(error.to_string().starts_with(&format!("{path}:{line}:{column}")));
    }
}

#[test]
fn subset_accepts_host_call_surface() {
    let p = at(1, 1);
    let items = vec![
        declare(p, bound("list"), Some(call(p, name(p, "state"), vec![scalar(p)]))),
        statement(sdk(p, "ui", "mount", vec![sdk(p, "ui", "column", vec![ExprModel {
            pos: p,
            kind: ExprKind::Array(vec![
                Some(arg(sdk(p, "ui", "text", vec![call(p, name(p, "bind"), vec![arrow(p, &[], vec![
                    StmtModel::Return(Some(sdk(p, "device", "chip", vec![]))),
                ])])]))),
                Some(arg(sdk(p, "ui", "button", vec![scalar(p), object(p, vec![("onClick", p, arrow(p, &[], vec![
                    StmtModel::Expression(sdk(p, "device", "setBacklight", vec![scalar(p)])),
                ]))])]))),
                Some(arg(sdk(p, "ui", "button", vec![scalar(p), object(p, vec![("onClick", p, arrow(p, &[], vec![
                    StmtModel::Expression(sdk(p, "net", "scanWifi", vec![arrow(p, &["l"], vec![
                        StmtModel::Expression(ExprModel {
                            pos: p,
                            kind: ExprKind::Assign {
                                target: TargetModel::Member {
                                    pos: p,
                                    object: Box::new(name(p, "list")),
                                    property: Some("value".to_string()),
                                },
                                value: Box::new(name(p, "l")),
                            },
                        }),
                    ])])),
                ]))])]))),
            ]),
        }])])),
    ];
    assert_eq!(validate_module("host.ts", &items), Ok(()));
}

#[test]
fn subset_rejects_unknown_host_calls() {
    let unknown = vec![statement(sdk(at(1, 1), "ui", "mount", vec![sdk(at(1, 10), "ui", "text", vec![sdk(
        at(1, 18),
        "os",
        "bogus",
        vec![],
    )])]))];
    let error = first("os-bogus.ts", &unknown);
    assert_eq!((error.code.as_str(), error.line, error.column), ("MTS001", 1, 18));
    assert_eq!(error.message, "unsupported syntax: call `os.bogus`");

    let read = vec![declare(at(1, 1), bound("x"), Some(dotted(at(1, 11), "net", "wifiState")))];
    let errors = validate_module("net-member.ts", &read).unwrap_err();
    assert_eq!((errors[0].code.as_str(), errors[0].line, errors[0].column), ("MTS001", 1, 11));
    assert_eq!(errors[0].message, "unsupported syntax: property `wifiState`");
    assert_eq!(errors[1].message, "unsupported syntax: global `net`");
}

#[test]
fn subset_rejects_host_call_wrong_arity() {
    let p = at(1, 1);
    let items = vec![statement(sdk(p, "ui", "mount", vec![sdk(p, "ui", "button", vec![
        scalar(p),
        object(p, vec![("onClick", p, arrow(p, &[], vec![StmtModel::Expression(sdk(
            at(1, 44),
            "device",
            "setBacklight",
            vec![],
        ))]))]),
    ])]))];
    let error = first("arity.ts", &items);
    assert_eq!(error.code, "MTS002");
    assert_eq!(error.message, "`device.setBacklight` expects 1 argument(s)");
    assert_eq!((error.line, error.column), (1, 44));
}

#[test]
fn subset_rejects_unknown_props_and_multiple_mounts() {
    let p = at(1, 1);
    let unknown = vec![statement(sdk(p, "ui", "mount", vec![sdk(p, "ui", "button", vec![
        scalar(p),
        object(p, vec![("onTap", at(1, 29), arrow(p, &[], vec![]))]),
    ])]))];
    let error = first("prop.ts", &unknown);
    assert_eq!(error.code, "MTS002");
    assert_eq!(error.message, "unknown ui.button property `onTap`");
    assert_eq!((error.line, error.column), (1, 29));

    let mounts = vec![
        statement(sdk(at(1, 1), "ui", "mount", vec![sdk(at(1, 10), "ui", "text", vec![scalar(at(1, 18))])])),
        statement(sdk(at(2, 1), "ui", "mount", vec![sdk(at(2, 10), "ui", "text", vec![scalar(at(2, 18))])])),
    ];
    let errors = validate_module("mount.ts", &mounts).unwrap_err();
    assert_eq!(errors.len(), 1);
    assert_eq!(errors[0].code, "MTS003");
    assert_eq!((errors[0].line, errors[0].column), (2, 1));
    assert_eq!(errors[0].message, "exactly one ui.mount call is allowed");

    let switch = vec![statement(sdk(p, "ui", "mount", vec![sdk(p, "ui", "switch", vec![
        call(p, name(p, "bind"), vec![arrow(p, &[], vec![StmtModel::Return(Some(scalar(p)))])]),
        object(p, vec![("color", at(1, 40), scalar(p))]),
    ])]))];
    let error = first("switch-prop.ts", &switch);
    assert_eq!((error.code.as_str(), error.message.as_str()), ("MTS002", "unknown ui.switch property `color`"));
}

#[test]
fn subset_limits_callback_parameters_and_scopes_them() {
    let p = at(1, 1);
    let two = vec![statement(sdk(p, "ui", "mount", vec![sdk(p, "ui", "input", vec![
        scalar(p),
        object(p, vec![("onChange", p, arrow(at(1, 30), &["a", "b"], vec![]))]),
    ])]))];
    let error = first("params.ts", &two);
    assert_eq!(error.code, "MTS002");
    assert_eq!(error.message, "arrow expects at most 1 parameter(s), found 2");
    assert_eq!((error.line, error.column), (1, 30));

    // A parameter is in scope inside its arrow only.
    let leaked = vec![
        statement(sdk(p, "ui", "mount", vec![sdk(p, "ui", "input", vec![
            scalar(p),
            object(p, vec![("onChange", p, arrow(p, &["text"], vec![StmtModel::Expression(name(p, "text"))]))]),
        ])])),
        statement(name(at(2, 1), "text")),
    ];
    let errors = validate_module("scope.ts", &leaked).unwrap_err();
    assert_eq!(errors.len(), 1);
    assert_eq!((errors[0].line, errors[0].message.as_str()), (2, "unsupported syntax: global `text`"));
}

#[test]
fn subset_reports_every_finding_in_order() {
    let items = vec![
        ItemModel::Statement(StmtModel::Declare {
            pos: at(1, 1),
            is_var: true,
            declarators: vec![DeclaratorModel { binding: bound("a"), init: Some(scalar(at(1, 9))) }],
        }),
        statement(ExprModel {
            pos: at(2, 1),
            kind: ExprKind::Array(vec![None, Some(ArgModel { pos: at(2, 3), spread: false, value: name(at(2, 3), "a") })]),
        }),
        statement(sdk(at(3, 1), "ui", "list", vec![scalar(at(3, 9))])),
        ItemModel::Statement(StmtModel::Other(at(4, 1))),
    ];
    let errors = validate_module("many.ts", &items).unwrap_err();
    let found: Vec<(usize, &str, &str)> =
        errors.iter().map(|e| (e.line, e.code.as_str(), e.message.as_str())).collect();
    assert_eq!(
        found,
        vec![
            (1, "MTS001", "unsupported syntax: var declarations"),
            (2, "MTS001", "unsupported syntax: array holes"),
            (3, "MTS002", "ui.list expects an item array"),
            (4, "MTS001", "unsupported syntax: statement"),
        ]
    );
    assert!(errors.iter().all(|e| e.path == "many.ts" && e.hint.is_none()));
    assert_eq!(errors[0].to_string(), "many.ts:1:1: MTS001: unsupported syntax: var declarations");
}

#[test]
fn subset_checks_list_items_and_tabs() {
    let p = at(1, 1);
    let items = vec![statement(sdk(p, "ui", "mount", vec![sdk(p, "ui", "tabview", vec![ExprModel {
        pos: p,
        kind: ExprKind::Array(vec![
            Some(arg(object(p, vec![("title", p, scalar(p)), ("content", p, sdk(p, "ui", "list", vec![ExprModel {
                pos: p,
                kind: ExprKind::Array(vec![
                    Some(arg(object(p, vec![("text", p, scalar(p)), ("onClick", p, arrow(p, &[], vec![]))]))),
                    Some(arg(object(p, vec![("label", at(1, 50), scalar(p))]))),
                ]),
            }]))]))),
            Some(arg(scalar(at(1, 70)))),
        ]),
    }])]))];
    let errors = validate_module("tabs.ts", &items).unwrap_err();
    let found: Vec<(&str, usize, &str)> =
        errors.iter().map(|e| (e.code.as_str(), e.column, e.message.as_str())).collect();
    assert_eq!(
        found,
        vec![
            ("MTS002", 50, "unknown list item property `label`"),
            ("MTS001", 70, "unsupported syntax: tab"),
        ]
    );
}

fn text(pos: Pos, value: &str) -> ExprModel {
    ExprModel { pos, kind: ExprKind::Literal(LiteralValue::Text(Some(value.to_string()))) }
}

fn number(pos: Pos, value: Option<u8>) -> ExprModel {
    ExprModel { pos, kind: ExprKind::Literal(LiteralValue::Number(value)) }
}

fn style(font: &str, size: Option<u8>, weight: &str, line: Option<u8>) -> ExprModel {
    object(at(1, 20), vec![
        ("font", at(1, 22), text(at(1, 28), font)),
        ("size", at(1, 38), number(at(1, 44), size)),
        ("weight", at(1, 48), text(at(1, 56), weight)),
        ("lineHeight", at(1, 67), number(at(1, 79), line)),
    ])
}

#[test]
fn text_styles_lower_exactly() {
    assert_eq!(
        lower_text_style(&style("uiSans", Some(24), "regular", Some(32))),
        Ok(TextStyle { family: FontFamily::UiSans, size_px: 24, weight: FontWeight::Regular, line_height_px: 32 })
    );
}

#[test]
fn text_style_faults_name_the_field() {
    let cases: Vec<(ExprModel, usize, &str)> = vec![
        (style("uiSans", Some(24), "bold", Some(32)), 56,
            "font weight `bold` has no generated uiSans asset; use `regular`"),
        (style("uiSans", Some(24), "heavy", Some(32)), 56, "unknown font weight `heavy`"),
        (style("serif", Some(24), "regular", Some(32)), 28, "unknown font `serif`"),
        (style("uiSans", None, "regular", Some(32)), 44, "text style `size` must be an unsigned 8-bit integer literal"),
        (style("uiSans", Some(24), "regular", None), 79,
            "text style `lineHeight` must be an unsigned 8-bit integer literal"),
        (style("uiSans", Some(24), "regular", Some(30)), 20, "unsupported 30px line height for 24px text; use 32px"),
        (object(at(1, 20), vec![("font", at(1, 22), text(at(1, 28), "uiSans"))]), 20,
            "text style field `size` is required"),
        (object(at(1, 20), vec![("color", at(1, 22), text(at(1, 29), "red"))]), 22, "unknown text style field `color`"),
        (object(at(1, 20), vec![("font", at(1, 22), text(at(1, 28), "uiSans")), ("font", at(1, 38), text(at(1, 44), "x"))]),
            38, "duplicate text style field `font`"),
        (text(at(1, 20), "big"), 20, "text style must be an object literal"),
    ];
    for (expression, column, message) in cases {
        let finding = lower_text_style(&expression).unwrap_err();
        assert_eq!(finding.code, "MTS014");
        assert_eq!((finding.pos.column, finding.message.as_str()), (column, message));
    }
}
