use irgen::ast::Block;
use irgen::ast::BlockItem;
use irgen::ast::BinaryOp;
use irgen::ast::CompUnit;
use irgen::ast::ConstDef;
use irgen::ast::ConstExp;
use irgen::ast::Decl;
use irgen::ast::Exp;
use irgen::ast::FuncDef;
use irgen::ast::FuncParam;
use irgen::ast::GlobalItem;
use irgen::ast::InitVal;
use irgen::ast::Stmt;
use irgen::ast::UnaryOp;
use irgen::ast::VarDef;
use irgen::generate_program;
use irgen::Error;

fn num(v: i32) -> Exp {
    Exp::Num(v)
}

fn lval(id: &str, indices: Vec<Exp>) -> Exp {
    Exp::LVal(id.to_string(), indices)
}

fn dims(values: Vec<Exp>) -> Vec<ConstExp> {
    values.into_iter().map(ConstExp).collect()
}

fn int_var(id: &str, dim_exps: Vec<Exp>, init: Option<InitVal>) -> Decl {
    Decl::Var(VarDef { id: id.to_string(), dims: dims(dim_exps), init })
}

fn func(ret_void: bool, id: &str, params: Vec<&str>, items: Vec<BlockItem>) -> GlobalItem {
    GlobalItem::Func(FuncDef {
        ret_void,
        id: id.to_string(),
        params: params.into_iter().map(|p| FuncParam { id: p.to_string() }).collect(),
        body: Block { items },
    })
}

fn main_with(items: Vec<BlockItem>) -> CompUnit {
    CompUnit { items: vec![func(false, "main", vec![], items)] }
}

fn ret(e: Option<Exp>) -> BlockItem {
    BlockItem::Stmt(Stmt::Return(e))
}

fn err_of(unit: &CompUnit) -> Error {
    match generate_program(unit) {
        Err(e) => e,
        Ok(_) => panic!("generation unexpectedly succeeded"),
    }
}

#[test]
fn empty_unit_generates() {
    let unit = CompUnit { items: vec![] };
    assert!(generate_program(&unit).is_ok());
}

#[test]
fn two_dims_declare_and_index() {
    // int main() { int a[2][3]; int x = a[1][2]; return x; }
    let unit = main_with(vec![
        BlockItem::Decl(int_var("a", vec![num(2), num(3)], None)),
        BlockItem::Decl(int_var(
            "x",
            vec![],
            Some(InitVal::Single(lval("a", vec![num(1), num(2)]))),
        )),
        ret(Some(lval("x", vec![]))),
    ]);
    let prog = generate_program(&unit).unwrap();
    assert_eq!(prog.func_layout().len(), 1);
}

#[test]
fn zero_length_array_rejected() {
    // int a[0]; at the top level
    let unit = CompUnit { items: vec![GlobalItem::Decl(int_var("a", vec![num(0)], None))] };
    assert_eq!(err_of(&unit), Error::InvalidArrayLen);
}

#[test]
fn negative_array_length_rejected() {
    let neg = Exp::Unary(UnaryOp::Neg, Box::new(num(2)));
    let unit = main_with(vec![BlockItem::Decl(int_var("a", vec![neg], None)), ret(Some(num(0)))]);
    assert_eq!(err_of(&unit), Error::InvalidArrayLen);
}

#[test]
fn runtime_dimension_fails_to_fold() {
    // int main() { int n; int a[n]; }
    let unit = main_with(vec![
        BlockItem::Decl(int_var("n", vec![], None)),
        BlockItem::Decl(int_var("a", vec![lval("n", vec![])], None)),
    ]);
    assert_eq!(err_of(&unit), Error::FailedToEval);
}

#[test]
fn unfoldable_division_in_dimension() {
    // int a[1 / 0];
    let bad = Exp::Binary(BinaryOp::Div, Box::new(num(1)), Box::new(num(0)));
    let unit = main_with(vec![BlockItem::Decl(int_var("a", vec![bad], None))]);
    assert_eq!(err_of(&unit), Error::FailedToEval);
}

#[test]
fn call_with_missing_argument() {
    // int f(int x, int y) { return x; }  int main() { return f(1); }
    let unit = CompUnit {
        items: vec![
            func(false, "f", vec!["x", "y"], vec![ret(Some(lval("x", vec![])))]),
            func(
                false,
                "main",
                vec![],
                vec![ret(Some(Exp::Call("f".to_string(), vec![num(1)])))],
            ),
        ],
    };
    assert_eq!(err_of(&unit), Error::ArgMismatch);
}

#[test]
fn call_with_matching_arguments() {
    let body = Exp::Binary(
        BinaryOp::Add,
        Box::new(lval("x", vec![])),
        Box::new(lval("y", vec![])),
    );
    let unit = CompUnit {
        items: vec![
            func(false, "f", vec!["x", "y"], vec![ret(Some(body))]),
            func(
                false,
                "main",
                vec![],
                vec![ret(Some(Exp::Call("f".to_string(), vec![num(1), num(2)])))],
            ),
        ],
    };
    let prog = generate_program(&unit).unwrap();
    assert_eq!(prog.func_layout().len(), 2);
}

#[test]
fn break_outside_loop() {
    let unit = main_with(vec![BlockItem::Stmt(Stmt::Break)]);
    assert_eq!(err_of(&unit), Error::NotInLoop);
}

#[test]
fn continue_outside_loop() {
    let unit = main_with(vec![BlockItem::Stmt(Stmt::Continue)]);
    assert_eq!(err_of(&unit), Error::NotInLoop);
}

#[test]
fn break_inside_loop_succeeds() {
    // int main() { while (1) { break; } return 0; }
    let unit = main_with(vec![
        BlockItem::Stmt(Stmt::While(num(1), Box::new(Stmt::Break))),
        ret(Some(num(0))),
    ]);
    assert!(generate_program(&unit).is_ok());
}

#[test]
fn continue_inside_nested_loop_succeeds() {
    // int main() { while (1) { while (0) { continue; } break; } return 0; }
    let inner = Stmt::While(num(0), Box::new(Stmt::Continue));
    let body = Stmt::Block(Block {
        items: vec![BlockItem::Stmt(inner), BlockItem::Stmt(Stmt::Break)],
    });
    let unit = main_with(vec![
        BlockItem::Stmt(Stmt::While(num(1), Box::new(body))),
        ret(Some(num(0))),
    ]);
    assert!(generate_program(&unit).is_ok());
}

#[test]
fn return_value_in_void_function() {
    let unit = CompUnit { items: vec![func(true, "f", vec![], vec![ret(Some(num(1)))])] };
    assert_eq!(err_of(&unit), Error::RetValInVoidFunc);
}

#[test]
fn return_nothing_in_void_function() {
    let unit = CompUnit { items: vec![func(true, "f", vec![], vec![ret(None)])] };
    assert!(generate_program(&unit).is_ok());
}

#[test]
fn duplicate_definition_in_one_scope() {
    let unit = main_with(vec![
        BlockItem::Decl(int_var("x", vec![], None)),
        BlockItem::Decl(int_var("x", vec![], None)),
    ]);
    assert_eq!(err_of(&unit), Error::DuplicatedDef);
}

#[test]
fn redefinition_after_scope_closes() {
    // int main() { { int x; } int x; return 0; }
    let inner = Stmt::Block(Block { items: vec![BlockItem::Decl(int_var("x", vec![], None))] });
    let unit = main_with(vec![
        BlockItem::Stmt(inner),
        BlockItem::Decl(int_var("x", vec![], None)),
        ret(Some(num(0))),
    ]);
    assert!(generate_program(&unit).is_ok());
}

#[test]
fn duplicate_parameter_names() {
    let unit = CompUnit {
        items: vec![func(false, "f", vec!["x", "x"], vec![ret(Some(num(0)))])],
    };
    assert_eq!(err_of(&unit), Error::DuplicatedDef);
}

#[test]
fn duplicate_function_names() {
    let unit = CompUnit {
        items: vec![
            func(false, "f", vec![], vec![ret(Some(num(0)))]),
            func(false, "f", vec![], vec![ret(Some(num(0)))]),
        ],
    };
    assert_eq!(err_of(&unit), Error::DuplicatedDef);
}

#[test]
fn shadowing_outer_symbol() {
    // const a = 1 at the top level, int a = 2 inside main
    let unit = CompUnit {
        items: vec![
            GlobalItem::Decl(Decl::Const(ConstDef {
                id: "a".to_string(),
                dims: vec![],
                init: InitVal::Single(num(1)),
            })),
            func(
                false,
                "main",
                vec![],
                vec![
                    BlockItem::Decl(int_var("a", vec![], Some(InitVal::Single(num(2))))),
                    ret(Some(lval("a", vec![]))),
                ],
            ),
        ],
    };
    assert!(generate_program(&unit).is_ok());
}

#[test]
fn unknown_symbol() {
    let unit = main_with(vec![ret(Some(lval("y", vec![])))]);
    assert_eq!(err_of(&unit), Error::SymbolNotFound);
}

#[test]
fn assigning_whole_array() {
    let unit = main_with(vec![
        BlockItem::Decl(int_var("a", vec![num(2)], None)),
        BlockItem::Stmt(Stmt::Assign("a".to_string(), vec![], num(1))),
    ]);
    assert_eq!(err_of(&unit), Error::ArrayAssign);
}

#[test]
fn assigning_one_element() {
    let unit = main_with(vec![
        BlockItem::Decl(int_var("a", vec![num(2)], None)),
        BlockItem::Stmt(Stmt::Assign("a".to_string(), vec![num(0)], num(5))),
        ret(Some(lval("a", vec![num(0)]))),
    ]);
    assert!(generate_program(&unit).is_ok());
}

#[test]
fn indexing_a_scalar() {
    let unit = main_with(vec![
        BlockItem::Decl(int_var("x", vec![], None)),
        ret(Some(lval("x", vec![num(0)]))),
    ]);
    assert_eq!(err_of(&unit), Error::DerefInt);
}

#[test]
fn using_a_void_result() {
    let unit = CompUnit {
        items: vec![
            func(true, "f", vec![], vec![ret(None)]),
            func(
                false,
                "main",
                vec![],
                vec![ret(Some(Exp::Call("f".to_string(), vec![])))],
            ),
        ],
    };
    assert_eq!(err_of(&unit), Error::UseVoidValue);
}

#[test]
fn array_in_arithmetic() {
    let sum = Exp::Binary(
        BinaryOp::Add,
        Box::new(lval("a", vec![])),
        Box::new(num(1)),
    );
    let unit = main_with(vec![
        BlockItem::Decl(int_var("a", vec![num(2)], None)),
        ret(Some(sum)),
    ]);
    assert_eq!(err_of(&unit), Error::NonIntCalc);
}

#[test]
fn list_initializer_for_scalar() {
    let init = InitVal::List(vec![InitVal::Single(num(1))]);
    let unit = CompUnit { items: vec![GlobalItem::Decl(int_var("x", vec![], Some(init)))] };
    assert_eq!(err_of(&unit), Error::InvalidInit);
}

#[test]
fn scalar_initializer_for_array() {
    let unit = main_with(vec![BlockItem::Decl(int_var(
        "a",
        vec![num(2)],
        Some(InitVal::Single(num(5))),
    ))]);
    assert_eq!(err_of(&unit), Error::InvalidInit);
}

#[test]
fn oversized_initializer_list() {
    let init = InitVal::List(vec![
        InitVal::Single(num(1)),
        InitVal::Single(num(2)),
        InitVal::Single(num(3)),
    ]);
    let unit = main_with(vec![BlockItem::Decl(int_var("a", vec![num(2)], Some(init)))]);
    assert_eq!(err_of(&unit), Error::InvalidInit);
}

#[test]
fn constant_array_folds_at_use() {
    // const int a[2] = {7, 8};  int main() { return a[1]; }
    let init = InitVal::List(vec![InitVal::Single(num(7)), InitVal::Single(num(8))]);
    let unit = CompUnit {
        items: vec![
            GlobalItem::Decl(Decl::Const(ConstDef {
                id: "a".to_string(),
                dims: dims(vec![num(2)]),
                init,
            })),
            func(false, "main", vec![], vec![ret(Some(lval("a", vec![num(1)])))]),
        ],
    };
    assert!(generate_program(&unit).is_ok());
}

#[test]
fn global_variable_with_folded_initializer() {
    let unit = CompUnit {
        items: vec![
            GlobalItem::Decl(int_var("g", vec![], Some(InitVal::Single(num(3))))),
            func(false, "main", vec![], vec![ret(Some(lval("g", vec![])))]),
        ],
    };
    assert!(generate_program(&unit).is_ok());
}

#[test]
fn global_initializer_must_fold() {
    // int g;  int h = g;  — a runtime value cannot initialize a global
    let unit = CompUnit {
        items: vec![
            GlobalItem::Decl(int_var("g", vec![], None)),
            GlobalItem::Decl(int_var("h", vec![], Some(InitVal::Single(lval("g", vec![]))))),
        ],
    };
    assert_eq!(err_of(&unit), Error::FailedToEval);
}

#[test]
fn if_else_generates() {
    let stmt = Stmt::If(
        num(1),
        Box::new(Stmt::Return(Some(num(1)))),
        Some(Box::new(Stmt::Return(Some(num(2))))),
    );
    let unit = main_with(vec![BlockItem::Stmt(stmt), ret(Some(num(0)))]);
    assert!(generate_program(&unit).is_ok());
}

#[test]
fn recursive_call_generates() {
    // int f(int n) { return f(n); }
    let unit = CompUnit {
        items: vec![func(
            false,
            "f",
            vec!["n"],
            vec![ret(Some(Exp::Call("f".to_string(), vec![lval("n", vec![])])))],
        )],
    };
    assert!(generate_program(&unit).is_ok());
}

#[test]
fn first_error_wins() {
    // the duplicate in the first function is reported, not the unknown
    // symbol in the second
    let unit = CompUnit {
        items: vec![
            func(
                false,
                "f",
                vec![],
                vec![
                    BlockItem::Decl(int_var("x", vec![], None)),
                    BlockItem::Decl(int_var("x", vec![], None)),
                ],
            ),
            func(false, "main", vec![], vec![ret(Some(lval("zzz", vec![])))]),
        ],
    };
    assert_eq!(err_of(&unit), Error::DuplicatedDef);
}
