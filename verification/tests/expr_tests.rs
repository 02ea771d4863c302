use drakkar_vfx::expr::types::TypeTable;
use drakkar_vfx::expr::xexpr::XExpr;
use drakkar_vfx::expr::xop::{XBinaryOp, XBuiltInOp, XUnaryOp};
use drakkar_vfx::expr::xparser::XParseError;
use drakkar_vfx::expr::xval::{XExprReturnType, XFloat, XValue};

/// The decimal written as `text`, e.g. `"-15.0"`.
fn f(text: &str) -> XFloat {
    let (negative, digits) = match text.strip_prefix('-') {
        Some(rest) => (true, rest),
        None => (false, text),
    };
    let (whole, frac) = match digits.split_once('.') {
        Some((w, fr)) => (w, fr),
        None => (digits, ""),
    };
    XFloat::from_parts(negative, whole, frac).unwrap()
}

fn lit_f(text: &str) -> XExpr {
    XExpr::lit(XValue::Float(f(text)))
}

fn lit_i(v: i32) -> XExpr {
    XExpr::lit(XValue::Integer(v))
}

#[test]
fn test_value_constructors() {
    assert_eq!(XValue::float(f("1.5")), XValue::Float(f("1.5")));
    assert_eq!(XValue::integer(42), XValue::Integer(42));
    assert_eq!(XValue::vec2(f("1.0"), f("2.0")), XValue::Vec2(f("1.0"), f("2.0")));
    assert_eq!(
        XValue::vec3(f("1.0"), f("2.0"), f("3.0")),
        XValue::Vec3(f("1.0"), f("2.0"), f("3.0"))
    );
}

#[test]
fn test_value_display() {
    assert_eq!(XValue::Float(f("1.5")).to_string(), "1.5");
    assert_eq!(XValue::Integer(42).to_string(), "42");
    assert_eq!(XValue::Vec2(f("1.0"), f("2.0")).to_string(), "vec2(1.0, 2.0)");
    assert_eq!(XValue::Vec3(f("1.0"), f("2.0"), f("3.0")).to_string(), "vec3(1.0, 2.0, 3.0)");
}

#[test]
fn test_basic_expr_construction() {
    let expr = XExpr::binary(lit_f("1.0"), XBinaryOp::Add, lit_f("2.0"));
    assert_eq!(expr.to_string(), "1.0 + 2.0");
}

#[test]
fn test_parse_literals() {
    assert_eq!(XExpr::parse("42").unwrap(), XExpr::lit(XValue::Integer(42)));
    assert_eq!(XExpr::parse("3.14").unwrap(), XExpr::lit(XValue::Float(f("3.14"))));
}

#[test]
fn test_parse_binary_operations() {
    assert_eq!(
        XExpr::parse("1 + 2").unwrap(),
        XExpr::binary(lit_i(1), XBinaryOp::Add, lit_i(2))
    );
    assert_eq!(
        XExpr::parse("3.0 * 4.5").unwrap(),
        XExpr::binary(lit_f("3.0"), XBinaryOp::Mul, lit_f("4.5"))
    );
}

#[test]
fn test_parse_unary_operations() {
    assert_eq!(XExpr::parse("-5").unwrap(), XExpr::unary(XUnaryOp::Neg, lit_i(5)));
    assert_eq!(XExpr::parse("sin(1.0)").unwrap(), XExpr::sin(lit_f("1.0")));
    assert_eq!(
        XExpr::parse("cos(time)").unwrap(),
        XExpr::cos(XExpr::builtin(XBuiltInOp::Time))
    );
    assert_eq!(
        XExpr::parse("abs(-3.14)").unwrap(),
        XExpr::abs(XExpr::unary(XUnaryOp::Neg, lit_f("3.14")))
    );
    assert_eq!(XExpr::parse("norm(velocity)").unwrap(), XExpr::norm(XExpr::attr("velocity")));
}

#[test]
fn test_parse_builtin_operators() {
    assert_eq!(XExpr::parse("time").unwrap(), XExpr::builtin(XBuiltInOp::Time));
    assert_eq!(XExpr::parse("delta_time").unwrap(), XExpr::builtin(XBuiltInOp::DeltaTime));
    assert_eq!(XExpr::parse("rand").unwrap(), XExpr::builtin(XBuiltInOp::Rand));
    assert_eq!(XExpr::parse("alpha_cutoff").unwrap(), XExpr::builtin(XBuiltInOp::AlphaCutoff));
    assert_eq!(XExpr::parse("particle_id").unwrap(), XExpr::builtin(XBuiltInOp::ParticleId));
}

#[test]
fn test_parse_attributes_and_properties() {
    assert_eq!(XExpr::parse("velocity").unwrap(), XExpr::attr("velocity"));
    assert_eq!(XExpr::parse("attr(\"position\")").unwrap(), XExpr::attr("position"));
    assert_eq!(XExpr::parse("prop(\"speed\")").unwrap(), XExpr::prop("speed"));
    assert_eq!(XExpr::parse("attr(lifetime)").unwrap(), XExpr::attr("lifetime"));
}

#[test]
fn test_parse_vector_constructors() {
    assert_eq!(
        XExpr::parse("vec2(1.0, 2.0)").unwrap(),
        XExpr::lit(XValue::vec2(f("1.0"), f("2.0")))
    );
    assert_eq!(
        XExpr::parse("vec3(1.0, 2.0, 3.0)").unwrap(),
        XExpr::lit(XValue::vec3(f("1.0"), f("2.0"), f("3.0")))
    );
}

#[test]
fn test_parse_vector_constructors_with_negative_literals() {
    assert_eq!(
        XExpr::parse("vec2(-1.0, -2.0)").unwrap(),
        XExpr::lit(XValue::vec2(f("-1.0"), f("-2.0")))
    );
    assert_eq!(
        XExpr::parse("vec3(-0.0, -15.0, -0.0)").unwrap(),
        XExpr::lit(XValue::vec3(f("-0.0"), f("-15.0"), f("-0.0")))
    );
    let result = XExpr::parse("(vec3(-0.0, -15.0, -0.0) - (rand * vec3(0.0, 15.0, 0.0)))");
    assert!(
        result.is_ok(),
        "Should parse expression with negative literals in vec3: {:?}",
        result.err()
    );
}

#[test]
fn test_parse_binary_functions() {
    assert_eq!(
        XExpr::parse("dot(a, b)").unwrap(),
        XExpr::binary(XExpr::attr("a"), XBinaryOp::Dot, XExpr::attr("b"))
    );
    assert_eq!(
        XExpr::parse("cross(vec3(1.0, 0.0, 0.0), vec3(0.0, 1.0, 0.0))").unwrap(),
        XExpr::binary(
            XExpr::lit(XValue::vec3(f("1.0"), f("0.0"), f("0.0"))),
            XBinaryOp::Cross,
            XExpr::lit(XValue::vec3(f("0.0"), f("1.0"), f("0.0")))
        )
    );
    assert_eq!(
        XExpr::parse("min(x, y)").unwrap(),
        XExpr::binary(XExpr::attr("x"), XBinaryOp::Min, XExpr::attr("y"))
    );
    assert_eq!(
        XExpr::parse("max(5.0, 10.0)").unwrap(),
        XExpr::binary(lit_f("5.0"), XBinaryOp::Max, lit_f("10.0"))
    );
}

#[test]
fn test_parse_comparison_operators() {
    assert_eq!(
        XExpr::parse("x < y").unwrap(),
        XExpr::binary(XExpr::attr("x"), XBinaryOp::Lt, XExpr::attr("y"))
    );
    assert_eq!(
        XExpr::parse("a <= b").unwrap(),
        XExpr::binary(XExpr::attr("a"), XBinaryOp::Lte, XExpr::attr("b"))
    );
    assert_eq!(
        XExpr::parse("1.0 > 0.5").unwrap(),
        XExpr::binary(lit_f("1.0"), XBinaryOp::Ge, lit_f("0.5"))
    );
    assert_eq!(
        XExpr::parse("x >= y").unwrap(),
        XExpr::binary(XExpr::attr("x"), XBinaryOp::Gte, XExpr::attr("y"))
    );
    assert_eq!(
        XExpr::parse("a == b").unwrap(),
        XExpr::binary(XExpr::attr("a"), XBinaryOp::Eq, XExpr::attr("b"))
    );
    assert_eq!(
        XExpr::parse("x != y").unwrap(),
        XExpr::binary(XExpr::attr("x"), XBinaryOp::Neq, XExpr::attr("y"))
    );
}

#[test]
fn test_parse_complex_expressions() {
    assert_eq!(
        XExpr::parse("1 + 2 * 3").unwrap(),
        XExpr::binary(
            lit_i(1),
            XBinaryOp::Add,
            XExpr::binary(lit_i(2), XBinaryOp::Mul, lit_i(3))
        )
    );
    assert_eq!(
        XExpr::parse("(1 + 2) * 3").unwrap(),
        XExpr::binary(
            XExpr::binary(lit_i(1), XBinaryOp::Add, lit_i(2)),
            XBinaryOp::Mul,
            lit_i(3)
        )
    );
    let complex = XExpr::parse("sin(time * 2.0) + cos(time * 3.0)").unwrap();
    assert!(matches!(complex, XExpr::Binary { op: XBinaryOp::Add, .. }));
}

#[test]
fn test_high_level_api() {
    let expr1 = lit_f("1.0").add(lit_f("2.0"));
    assert_eq!(expr1.to_string(), "1.0 + 2.0");
    let expr2 = lit_f("10.0").sub(lit_f("5.0"));
    assert_eq!(expr2.to_string(), "10.0 - 5.0");
    let expr3 = lit_f("3.0").mul(lit_f("4.0"));
    assert_eq!(expr3.to_string(), "3.0 * 4.0");
    let expr4 = lit_f("8.0").div(lit_f("2.0"));
    assert_eq!(expr4.to_string(), "8.0 / 2.0");
}

#[test]
fn test_parse_errors() {
    assert!(matches!(XExpr::parse("").unwrap_err(), XParseError::UnexpectedEndOfInput));
    assert!(matches!(XExpr::parse("1 +").unwrap_err(), XParseError::UnexpectedEndOfInput));
    assert!(matches!(XExpr::parse("sin(").unwrap_err(), XParseError::UnexpectedEndOfInput));
    assert!(matches!(
        XExpr::parse("unknown_func(x)").unwrap_err(),
        XParseError::UnknownFunction(_)
    ));
    assert!(matches!(XExpr::parse("(1 + 2").unwrap_err(), XParseError::UnmatchedParenthesis));
    assert!(matches!(XExpr::parse("1.2.3").unwrap_err(), XParseError::UnexpectedToken(_)));
}

#[test]
fn test_all_any_functions() {
    assert_eq!(
        XExpr::parse("all(vec3(1.0, 1.0, 1.0))").unwrap(),
        XExpr::unary(XUnaryOp::All, XExpr::lit(XValue::vec3(f("1.0"), f("1.0"), f("1.0"))))
    );
    assert_eq!(
        XExpr::parse("any(flags)").unwrap(),
        XExpr::unary(XUnaryOp::Any, XExpr::attr("flags"))
    );
}

#[test]
fn test_whitespace_handling() {
    assert_eq!(XExpr::parse("  1  +  2  ").unwrap(), XExpr::parse("1+2").unwrap());
    assert_eq!(XExpr::parse("sin( time )").unwrap(), XExpr::parse("sin(time)").unwrap());
    assert_eq!(
        XExpr::parse("vec2( 1.0 , 2.0 )").unwrap(),
        XExpr::parse("vec2(1.0,2.0)").unwrap()
    );
}

#[test]
fn test_expression_display() {
    let expr = XExpr::sin(XExpr::attr("time"));
    assert_eq!(expr.to_string(), "sin(attr(time))");
    let expr = XExpr::binary(
        XExpr::lit(XValue::vec2(f("1.0"), f("0.0"))),
        XBinaryOp::Dot,
        XExpr::lit(XValue::vec2(f("0.0"), f("1.0"))),
    );
    assert_eq!(expr.to_string(), "dot(vec2(1.0, 0.0), vec2(0.0, 1.0))");
}

#[test]
fn test_box_conversions() {
    let expr = lit_f("1.0");
    let _boxed: Box<XExpr> = expr.into();
}

#[test]
fn test_type_inference_literals() {
    let attributes = TypeTable::new();
    let props = TypeTable::new();
    assert_eq!(lit_f("1.0").get_result_type(&attributes, &props), Some(XExprReturnType::Float));
    assert_eq!(lit_i(42).get_result_type(&attributes, &props), Some(XExprReturnType::Integer));
    assert_eq!(
        XExpr::lit(XValue::Vec2(f("1.0"), f("2.0"))).get_result_type(&attributes, &props),
        Some(XExprReturnType::Vec2)
    );
    assert_eq!(
        XExpr::lit(XValue::Vec3(f("1.0"), f("2.0"), f("3.0"))).get_result_type(&attributes, &props),
        Some(XExprReturnType::Vec3)
    );
}

#[test]
fn test_type_inference_attributes_and_props() {
    let mut attributes = TypeTable::new();
    attributes.insert("position", XExprReturnType::Vec3);
    attributes.insert("velocity", XExprReturnType::Vec2);
    let mut props = TypeTable::new();
    props.insert("mass", XExprReturnType::Float);
    props.insert("id", XExprReturnType::Integer);

    assert_eq!(
        XExpr::attr("position").get_result_type(&attributes, &props),
        Some(XExprReturnType::Vec3)
    );
    assert_eq!(
        XExpr::prop("mass").get_result_type(&attributes, &props),
        Some(XExprReturnType::Float)
    );
    assert_eq!(XExpr::attr("unknown").get_result_type(&attributes, &props), None);
}

#[test]
fn test_type_inference_builtins() {
    let attributes = TypeTable::new();
    let props = TypeTable::new();
    assert_eq!(
        XExpr::builtin(XBuiltInOp::Time).get_result_type(&attributes, &props),
        Some(XExprReturnType::Float)
    );
    assert_eq!(
        XExpr::builtin(XBuiltInOp::Rand).get_result_type(&attributes, &props),
        Some(XExprReturnType::Float)
    );
}

#[test]
fn test_type_inference_unary_operations() {
    let attributes = TypeTable::new();
    let props = TypeTable::new();
    assert_eq!(
        XExpr::sin(XExpr::lit(XValue::Vec2(f("1.0"), f("2.0")))).get_result_type(&attributes, &props),
        Some(XExprReturnType::Vec2)
    );
    assert_eq!(
        XExpr::abs(lit_f("-1.0")).get_result_type(&attributes, &props),
        Some(XExprReturnType::Float)
    );
    assert_eq!(
        XExpr::norm(XExpr::lit(XValue::Vec3(f("1.0"), f("2.0"), f("3.0"))))
            .get_result_type(&attributes, &props),
        Some(XExprReturnType::Float)
    );
    assert_eq!(
        XExpr::unary(XUnaryOp::All, XExpr::lit(XValue::Vec2(f("1.0"), f("0.0"))))
            .get_result_type(&attributes, &props),
        Some(XExprReturnType::Float)
    );
    assert_eq!(
        XExpr::unary(XUnaryOp::All, lit_f("1.0")).get_result_type(&attributes, &props),
        Some(XExprReturnType::Error)
    );
}

#[test]
fn test_type_inference_binary_operations() {
    let attributes = TypeTable::new();
    let props = TypeTable::new();
    assert_eq!(
        XExpr::add(lit_f("1.0"), lit_f("2.0")).get_result_type(&attributes, &props),
        Some(XExprReturnType::Float)
    );
    assert_eq!(
        XExpr::add(
            XExpr::lit(XValue::Vec2(f("1.0"), f("2.0"))),
            XExpr::lit(XValue::Vec2(f("3.0"), f("4.0")))
        )
        .get_result_type(&attributes, &props),
        Some(XExprReturnType::Vec2)
    );
    assert_eq!(
        XExpr::mul(lit_f("2.0"), XExpr::lit(XValue::Vec3(f("1.0"), f("2.0"), f("3.0"))))
            .get_result_type(&attributes, &props),
        Some(XExprReturnType::Vec3)
    );
    assert_eq!(
        XExpr::mul(
            XExpr::lit(XValue::Vec2(f("1.0"), f("2.0"))),
            XExpr::lit(XValue::Vec3(f("1.0"), f("2.0"), f("3.0")))
        )
        .get_result_type(&attributes, &props),
        Some(XExprReturnType::Error)
    );
    assert_eq!(
        XExpr::binary(
            XExpr::lit(XValue::Vec2(f("1.0"), f("2.0"))),
            XBinaryOp::Dot,
            XExpr::lit(XValue::Vec2(f("3.0"), f("4.0")))
        )
        .get_result_type(&attributes, &props),
        Some(XExprReturnType::Float)
    );
    assert_eq!(
        XExpr::binary(
            XExpr::lit(XValue::Vec3(f("1.0"), f("2.0"), f("3.0"))),
            XBinaryOp::Cross,
            XExpr::lit(XValue::Vec3(f("4.0"), f("5.0"), f("6.0")))
        )
        .get_result_type(&attributes, &props),
        Some(XExprReturnType::Vec3)
    );
    assert_eq!(
        XExpr::binary(
            XExpr::lit(XValue::Vec2(f("1.0"), f("2.0"))),
            XBinaryOp::Cross,
            XExpr::lit(XValue::Vec2(f("3.0"), f("4.0")))
        )
        .get_result_type(&attributes, &props),
        Some(XExprReturnType::Error)
    );
    assert_eq!(
        XExpr::binary(lit_f("1.0"), XBinaryOp::Lt, lit_f("2.0")).get_result_type(&attributes, &props),
        Some(XExprReturnType::Float)
    );
}

#[test]
fn test_type_inference_complex_expressions() {
    let mut attributes = TypeTable::new();
    attributes.insert("pos", XExprReturnType::Vec3);
    attributes.insert("vel", XExprReturnType::Vec2);
    let mut props = TypeTable::new();
    props.insert("scale", XExprReturnType::Float);

    let expr = XExpr::mul(XExpr::norm(XExpr::attr("pos")), XExpr::prop("scale"));
    assert_eq!(expr.get_result_type(&attributes, &props), Some(XExprReturnType::Float));
    let expr = XExpr::sin(XExpr::attr("vel"));
    assert_eq!(expr.get_result_type(&attributes, &props), Some(XExprReturnType::Vec2));
    let expr = XExpr::add(XExpr::attr("pos"), XExpr::attr("vel"));
    assert_eq!(expr.get_result_type(&attributes, &props), Some(XExprReturnType::Error));
}

#[test]
fn test_type_inference_missing_attributes() {
    let attributes = TypeTable::new();
    let props = TypeTable::new();
    assert_eq!(XExpr::attr("unknown").get_result_type(&attributes, &props), None);
    let expr = XExpr::add(lit_f("1.0"), XExpr::attr("unknown"));
    assert_eq!(expr.get_result_type(&attributes, &props), None);
}

#[test]
fn test_type_inference_workflow_example() {
    let mut attributes = TypeTable::new();
    attributes.insert("position", XExprReturnType::Vec3);
    attributes.insert("velocity", XExprReturnType::Vec2);
    attributes.insert("age", XExprReturnType::Float);
    let mut props = TypeTable::new();
    props.insert("gravity", XExprReturnType::Float);
    props.insert("wind_force", XExprReturnType::Vec2);

    let examples = vec![
        ("5.0", Some(XExprReturnType::Float)),
        ("42", Some(XExprReturnType::Integer)),
        ("vec2(1.0, 2.0)", Some(XExprReturnType::Vec2)),
        ("vec3(1.0, 2.0, 3.0)", Some(XExprReturnType::Vec3)),
        ("attr(position)", Some(XExprReturnType::Vec3)),
        ("prop(gravity)", Some(XExprReturnType::Float)),
        ("time", Some(XExprReturnType::Float)),
        ("rand", Some(XExprReturnType::Float)),
        ("sin(attr(age))", Some(XExprReturnType::Float)),
        ("norm(attr(position))", Some(XExprReturnType::Float)),
        ("attr(velocity) + prop(wind_force)", Some(XExprReturnType::Vec2)),
        ("attr(age) * prop(gravity)", Some(XExprReturnType::Float)),
        ("dot(attr(position), vec3(0.0, 1.0, 0.0))", Some(XExprReturnType::Float)),
        ("attr(position) + attr(velocity)", Some(XExprReturnType::Error)),
        ("attr(unknown)", None),
    ];
    for (expr_str, expected) in examples {
        let expr = XExpr::parse(expr_str).unwrap();
        let inferred_type = expr.get_result_type(&attributes, &props);
        assert_eq!(inferred_type, expected, "Failed for expression: {}", expr_str);
    }
}

#[test]
fn test_parse_complex_vector_expression() {
    let expr_str = "(vec3(-0.0, -15.0, -0.0) - (rand * vec3(0.0, 15.0, 0.0)))";
    let parsed = XExpr::parse(expr_str).unwrap();
    match parsed {
        XExpr::Binary { left, op: XBinaryOp::Sub, right } => {
            match *left {
                XExpr::Lit(XValue::Vec3(x, y, z)) => {
                    assert_eq!(x, f("-0.0"));
                    assert_eq!(y, f("-15.0"));
                    assert_eq!(z, f("-0.0"));
                },
                _ => panic!("Expected left side to be a vec3 literal with negative values"),
            }
            match *right {
                XExpr::Binary { left: rand_expr, op: XBinaryOp::Mul, right: vec_expr } => {
                    assert!(matches!(*rand_expr, XExpr::BuiltIn(XBuiltInOp::Rand)));
                    assert_eq!(*vec_expr, XExpr::lit(XValue::vec3(f("0.0"), f("15.0"), f("0.0"))));
                },
                _ => panic!("Expected right side to be multiplication of rand and vec3"),
            }
        },
        _ => panic!("Expected binary subtraction expression"),
    }
}

#[test]
fn test_expression_formatting_without_redundant_parentheses() {
    let expr = XExpr::add(
        lit_f("1.0"),
        XExpr::mul(XExpr::builtin(XBuiltInOp::Rand), XExpr::sin(XExpr::builtin(XBuiltInOp::Time))),
    );
    assert_eq!(expr.to_string(), "1.0 + rand * sin(time)");
    let nested_expr = XExpr::mul(XExpr::add(lit_f("1.0"), lit_f("2.0")), lit_f("3.0"));
    assert_eq!(nested_expr.to_string(), "(1.0 + 2.0) * 3.0");
    let dot_expr = XExpr::binary(
        XExpr::lit(XValue::vec3(f("1.0"), f("2.0"), f("3.0"))),
        XBinaryOp::Dot,
        XExpr::lit(XValue::vec3(f("4.0"), f("5.0"), f("6.0"))),
    );
    assert_eq!(dot_expr.to_string(), "dot(vec3(1.0, 2.0, 3.0), vec3(4.0, 5.0, 6.0))");
}

#[test]
fn integer_vector_arguments_stay_a_construction() {
    assert_eq!(
        XExpr::parse("vec2(1, 2)").unwrap(),
        XExpr::binary(lit_i(1), XBinaryOp::Vec2, lit_i(2))
    );
    assert_eq!(
        XExpr::parse("vec3(1.0, 2, 3.0)").unwrap(),
        XExpr::binary(XExpr::binary(lit_f("1.0"), XBinaryOp::Vec2, lit_i(2)), XBinaryOp::Vec3, lit_f("3.0"))
    );
    assert_eq!(XExpr::parse("vec2(-1.0, 2.0)").unwrap(), XExpr::lit(XValue::vec2(f("-1.0"), f("2.0"))));
}

#[test]
fn call_arity_decides_success() {
    assert!(XExpr::parse("sin(1)").is_ok());
    assert!(XExpr::parse("sin(1, 2)").is_err());
    assert!(XExpr::parse("dot(1)").is_err());
    assert!(XExpr::parse("dot(1, 2)").is_ok());
    assert!(XExpr::parse("dot(1, 2, 3)").is_err());
    assert!(XExpr::parse("vec3(1, 2)").is_err());
    assert!(XExpr::parse("vec3(1, 2, 3)").is_ok());
}

#[test]
fn leading_whitespace_is_ignored() {
    assert_eq!(XExpr::parse(" \t\n1 + 2"), XExpr::parse("1 + 2"));
    assert_eq!(XExpr::parse("\u{3000}sin(time)"), XExpr::parse("sin(time)"));
}

#[test]
fn right_operand_of_equal_precedence_keeps_parentheses() {
    let e = XExpr::sub(lit_f("1.0"), XExpr::sub(lit_f("2.0"), lit_f("3.0")));
    assert_eq!(e.to_string(), "1.0 - (2.0 - 3.0)");
    assert_eq!(XExpr::parse(&e.to_string()), Ok(e));
    let d = XExpr::div(lit_f("8.0"), XExpr::mul(lit_f("2.0"), lit_f("2.0")));
    assert_eq!(d.to_string(), "8.0 / (2.0 * 2.0)");
    assert_eq!(XExpr::parse(&d.to_string()), Ok(d));
    let left = XExpr::sub(XExpr::sub(lit_f("1.0"), lit_f("2.0")), lit_f("3.0"));
    assert_eq!(left.to_string(), "1.0 - 2.0 - 3.0");
    assert_eq!(XExpr::parse(&left.to_string()), Ok(left));
}

#[test]
fn call_arity_with_expression_arguments() {
    assert!(XExpr::parse("sin(time * 2.0)").is_ok());
    assert_eq!(XExpr::parse("sin(time, delta_time)"), Err(XParseError::UnmatchedParenthesis));
    assert_eq!(XExpr::parse("dot(speed)"), Err(XParseError::UnexpectedToken(")".to_string())));
    assert!(XExpr::parse("dot(speed, attr(\"velocity\"))").is_ok());
    assert_eq!(XExpr::parse("max(a, b, c)"), Err(XParseError::UnmatchedParenthesis));
    assert_eq!(XExpr::parse("vec2(a + 1.0)"), Err(XParseError::InvalidVectorLiteral));
    assert_eq!(XExpr::parse("vec3(a, b)"), Err(XParseError::InvalidVectorLiteral));
    assert!(XExpr::parse("vec3(a, b * 2.0, -c)").is_ok());
    assert_eq!(XExpr::parse("vec3(a, b, c, d)"), Err(XParseError::UnmatchedParenthesis));
    assert_eq!(XExpr::parse("foo(1)"), Err(XParseError::UnknownFunction("foo".to_string())));
}

#[test]
fn shown_expressions_read_back() {
    let cases = vec![
        XExpr::sub(lit_f("1.0"), XExpr::add(XExpr::builtin(XBuiltInOp::Time), lit_i(2))),
        XExpr::mul(
            XExpr::unary(XUnaryOp::Neg, XExpr::attr("speed")),
            XExpr::div(lit_f("0.5"), XExpr::builtin(XBuiltInOp::Rand)),
        ),
        XExpr::binary(
            XExpr::binary(lit_i(1), XBinaryOp::Lt, lit_i(2)),
            XBinaryOp::Eq,
            XExpr::binary(lit_i(3), XBinaryOp::Gte, lit_i(4)),
        ),
        XExpr::lit(XValue::vec2(f("-1.5"), f("2.0"))),
        XExpr::lit(XValue::vec3(f("0.25"), f("-2.0"), f("3.0"))),
        XExpr::binary(
            XExpr::prop("size"),
            XBinaryOp::Max,
            XExpr::sin(XExpr::unary(XUnaryOp::Neg, XExpr::unary(XUnaryOp::Neg, lit_f("1.0")))),
        ),
        XExpr::binary(XExpr::attr("position"), XBinaryOp::Vec2, lit_f("2.0")),
        XExpr::div(lit_i(8), XExpr::div(lit_i(4), lit_i(2))),
    ];
    for e in cases {
        let text = e.to_string();
        assert_eq!(XExpr::parse(&text), Ok(e), "{}", text);
    }
}

#[test]
fn whitespace_between_tokens_keeps_the_parse() {
    let pairs = [
        ("1+2*3", "1 + 2 * 3"),
        ("sin(time)", "sin( time )"),
        ("vec2(1.0,2.0)", "vec2( 1.0 , 2.0 )"),
        ("a<=b", "a <= b"),
        ("-(x-1)", "- ( x - 1 )"),
        ("dot(a,attr(\"v\"))", "dot( a , attr(\"v\") )"),
        ("1+", "1 + "),
        ("(1", "( 1"),
        ("max(a,b,c)", "max( a , b , c )"),
        ("attr(\"a\")+attr(\"b\")", "attr(\"a\") + attr(\"b\")"),
    ];
    for (tight, spaced) in pairs {
        assert_eq!(XExpr::parse(tight), XExpr::parse(spaced), "{} / {}", tight, spaced);
    }
    assert!(XExpr::parse("a<=b").is_ok());
    assert!(XExpr::parse("1+").is_err());
}
