use irgen::ast::BinaryOp;
use irgen::ast::ConstExp;
use irgen::ast::Exp;
use irgen::ast::UnaryOp;
use irgen::eval::eval;
use irgen::scopes::Scopes;
use irgen::symbol::ConstVal;
use irgen::symbol::Symbol;
use irgen::types::to_type;
use irgen::types::Ty;
use irgen::Error;

fn num(v: i32) -> Exp {
    Exp::Num(v)
}

fn bin(op: BinaryOp, l: Exp, r: Exp) -> Exp {
    Exp::Binary(op, Box::new(l), Box::new(r))
}

#[test]
fn error_messages_are_fixed() {
    assert_eq!(Error::DuplicatedDef.message(), "duplicated symbol definition");
    assert_eq!(Error::SymbolNotFound.message(), "symbol not found");
    assert_eq!(Error::FailedToEval.message(), "failed to evaluate constant");
    assert_eq!(Error::InvalidArrayLen.message(), "invalid array length");
    assert_eq!(Error::InvalidInit.message(), "invalid initializer");
    assert_eq!(Error::ArrayAssign.message(), "assigning to array");
    assert_eq!(Error::NotInLoop.message(), "using break/continue outside of loop");
    assert_eq!(Error::RetValInVoidFunc.message(), "returning value in void function");
    assert_eq!(Error::DerefInt.message(), "dereferencing an integer");
    assert_eq!(Error::UseVoidValue.message(), "using a void value");
    assert_eq!(Error::ArgMismatch.message(), "argument mismatch");
    assert_eq!(Error::NonIntCalc.message(), "non-integer calculation");
}

#[test]
fn empty_dimensions_give_the_scalar() {
    let scopes = Scopes::new();
    assert_eq!(to_type(&vec![], &scopes), Ok(Ty::I32));
}

#[test]
fn dimensions_wrap_right_to_left() {
    let scopes = Scopes::new();
    let dims = vec![ConstExp(num(2)), ConstExp(num(3))];
    let expected = Ty::Array(Box::new(Ty::Array(Box::new(Ty::I32), 3)), 2);
    assert_eq!(to_type(&dims, &scopes), Ok(expected));
}

#[test]
fn zero_dimension_is_invalid() {
    let scopes = Scopes::new();
    let dims = vec![ConstExp(num(0))];
    assert_eq!(to_type(&dims, &scopes), Err(Error::InvalidArrayLen));
}

#[test]
fn unknown_name_in_dimension_does_not_fold() {
    let scopes = Scopes::new();
    let dims = vec![ConstExp(Exp::LVal("n".to_string(), vec![]))];
    assert_eq!(to_type(&dims, &scopes), Err(Error::FailedToEval));
}

#[test]
fn inner_dimension_fails_first() {
    // the fold walks right to left, so the unfoldable inner dimension
    // is reported before the invalid outer one
    let scopes = Scopes::new();
    let dims = vec![ConstExp(num(0)), ConstExp(Exp::LVal("n".to_string(), vec![]))];
    assert_eq!(to_type(&dims, &scopes), Err(Error::FailedToEval));
}

#[test]
fn literals_and_arithmetic_fold() {
    let scopes = Scopes::new();
    assert_eq!(eval(&num(42), &scopes), Some(42));
    assert_eq!(eval(&bin(BinaryOp::Add, num(2), num(3)), &scopes), Some(5));
    assert_eq!(eval(&bin(BinaryOp::Mul, num(6), num(7)), &scopes), Some(42));
    assert_eq!(eval(&bin(BinaryOp::Mod, num(7), num(3)), &scopes), Some(1));
    assert_eq!(eval(&bin(BinaryOp::Lt, num(2), num(3)), &scopes), Some(1));
    assert_eq!(eval(&bin(BinaryOp::Ge, num(2), num(3)), &scopes), Some(0));
    assert_eq!(eval(&Exp::Unary(UnaryOp::Neg, Box::new(num(5))), &scopes), Some(-5));
    assert_eq!(eval(&Exp::Unary(UnaryOp::Not, Box::new(num(0))), &scopes), Some(1));
}

#[test]
fn addition_wraps_around() {
    let scopes = Scopes::new();
    let e = bin(BinaryOp::Add, num(i32::MAX), num(1));
    assert_eq!(eval(&e, &scopes), Some(i32::MIN));
}

#[test]
fn division_by_zero_does_not_fold() {
    let scopes = Scopes::new();
    assert_eq!(eval(&bin(BinaryOp::Div, num(1), num(0)), &scopes), None);
    assert_eq!(eval(&bin(BinaryOp::Mod, num(1), num(0)), &scopes), None);
}

#[test]
fn logical_operators_fold_to_bits() {
    let scopes = Scopes::new();
    assert_eq!(eval(&bin(BinaryOp::And, num(2), num(3)), &scopes), Some(1));
    assert_eq!(eval(&bin(BinaryOp::And, num(2), num(0)), &scopes), Some(0));
    assert_eq!(eval(&bin(BinaryOp::Or, num(0), num(0)), &scopes), Some(0));
    assert_eq!(eval(&bin(BinaryOp::Or, num(0), num(9)), &scopes), Some(1));
}

#[test]
fn calls_never_fold() {
    let scopes = Scopes::new();
    let e = Exp::Call("f".to_string(), vec![]);
    assert_eq!(eval(&e, &scopes), None);
}

#[test]
fn constant_array_indexing_folds() {
    let mut scopes = Scopes::new();
    let arr = ConstVal::List(vec![ConstVal::Int(7), ConstVal::Int(8)]);
    scopes.define("a".to_string(), Symbol::Const(arr)).unwrap();
    let ok = Exp::LVal("a".to_string(), vec![num(1)]);
    assert_eq!(eval(&ok, &scopes), Some(8));
    let out_of_range = Exp::LVal("a".to_string(), vec![num(5)]);
    assert_eq!(eval(&out_of_range, &scopes), None);
    let negative = Exp::LVal("a".to_string(), vec![Exp::Unary(UnaryOp::Neg, Box::new(num(1)))]);
    assert_eq!(eval(&negative, &scopes), None);
    let too_shallow = Exp::LVal("a".to_string(), vec![]);
    assert_eq!(eval(&too_shallow, &scopes), None);
}

#[test]
fn shadowed_constant_folds_to_inner_value() {
    let mut scopes = Scopes::new();
    scopes.define("x".to_string(), Symbol::Const(ConstVal::Int(1))).unwrap();
    scopes.enter_scope();
    scopes.define("x".to_string(), Symbol::Const(ConstVal::Int(2))).unwrap();
    let use_x = Exp::LVal("x".to_string(), vec![]);
    assert_eq!(eval(&use_x, &scopes), Some(2));
    scopes.exit_scope();
    assert_eq!(eval(&use_x, &scopes), Some(1));
}

#[test]
fn define_then_lookup() {
    let mut scopes = Scopes::new();
    scopes.define("x".to_string(), Symbol::Const(ConstVal::Int(5))).unwrap();
    let name = "x".to_string();
    match scopes.lookup(&name) {
        Ok(Symbol::Const(ConstVal::Int(v))) => assert_eq!(*v, 5),
        other => panic!("unexpected lookup result: {:?}", other),
    }
}

#[test]
fn lookup_of_missing_name() {
    let scopes = Scopes::new();
    let name = "nowhere".to_string();
    match scopes.lookup(&name) {
        Err(e) => assert_eq!(e, Error::SymbolNotFound),
        Ok(_) => panic!("found a symbol that was never defined"),
    }
}

#[test]
fn double_definition_is_rejected() {
    let mut scopes = Scopes::new();
    scopes.define("x".to_string(), Symbol::Const(ConstVal::Int(1))).unwrap();
    let r = scopes.define("x".to_string(), Symbol::Const(ConstVal::Int(2)));
    assert_eq!(r, Err(Error::DuplicatedDef));
}

#[test]
fn inner_scope_shadows_and_forgets() {
    let mut scopes = Scopes::new();
    scopes.define("x".to_string(), Symbol::Const(ConstVal::Int(1))).unwrap();
    scopes.enter_scope();
    scopes.define("x".to_string(), Symbol::Const(ConstVal::Int(2))).unwrap();
    let name = "x".to_string();
    match scopes.lookup(&name) {
        Ok(Symbol::Const(ConstVal::Int(v))) => assert_eq!(*v, 2),
        other => panic!("unexpected lookup result: {:?}", other),
    }
    scopes.exit_scope();
    match scopes.lookup(&name) {
        Ok(Symbol::Const(ConstVal::Int(v))) => assert_eq!(*v, 1),
        other => panic!("unexpected lookup result: {:?}", other),
    }
    // the name freed by the closed scope may be defined afresh
    scopes.enter_scope();
    assert!(scopes.define("x".to_string(), Symbol::Const(ConstVal::Int(3))).is_ok());
}
