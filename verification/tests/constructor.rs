use std::collections::VecDeque;
use zest::constructor::{read_scene, Constructor};
use zest::error::ParseError;
use zest::machine::Step;
use zest::scene::{Expression, ObjectType, Property, Scene};
use zest::tokeniser::{Token, Tokeniser};

fn tokens_of(text: &str) -> VecDeque<Token> {
    Tokeniser::new(text.to_string()).tokens().unwrap()
}

fn constructor(text: &str) -> Constructor {
    Constructor::new(tokens_of(text))
}

fn identifier(text: &str) -> Token {
    Token::Identifier(text.to_string())
}

fn any_identifier() -> Token {
    Token::Identifier(String::new())
}

fn number(text: &str) -> Expression {
    Expression::Number(text.to_string())
}

fn parse(text: &str) -> Result<Scene, ParseError> {
    read_scene(text.to_string())
}

#[test]
fn a_new_constructor_holds_an_empty_scene() {
    let c = constructor("a b");
    assert_eq!(c.engine.scene.name, "scene");
    assert!(c.engine.scene.objects.is_empty());
    assert_eq!(c.tokens.len(), 2);
}

#[test]
fn pop_front_takes_and_peek_leaves() {
    let mut c = constructor("a {");
    assert_eq!(c.peek(), identifier("a"));
    assert_eq!(c.peek(), identifier("a"));
    assert!(c.at(&identifier("a")));
    assert!(!c.at(&Token::LBrace));
    assert_eq!(c.pop_front(), identifier("a"));
    assert_eq!(c.pop_front(), Token::LBrace);
    assert_eq!(c.peek(), Token::EoF);
    assert!(c.at(&Token::EoF));
    assert_eq!(c.pop_front(), Token::EoF);
    assert_eq!(c.pop_front(), Token::EoF);
}

#[test]
fn ensure_takes_the_token_whether_it_fits_or_not() {
    let mut c = constructor("{ } ,");
    assert_eq!(c.ensure(Token::LBrace), Ok(()));
    assert_eq!(
        c.ensure(Token::LBrace),
        Err(ParseError::UnexpectedToken {
            expected: Token::LBrace,
            actual: Token::RBrace,
            position: 1,
        })
    );
    assert_eq!(c.ensure(Token::Comma), Ok(()));
    assert_eq!(c.ensure(Token::Comma), Err(ParseError::UnexpectedEndOfInput));
    assert_eq!(c.ensure(Token::EoF), Ok(()));
}

#[test]
fn identifier_hands_out_the_text() {
    let mut c = constructor("cam 5");
    assert_eq!(c.identifier(), Ok("cam".to_string()));
    assert_eq!(
        c.identifier(),
        Err(ParseError::UnexpectedToken {
            expected: any_identifier(),
            actual: Token::Number("5".to_string()),
            position: 1,
        })
    );
    assert_eq!(c.identifier(), Err(ParseError::UnexpectedEndOfInput));
}

#[test]
fn the_steps_follow_each_other() {
    let mut c = constructor("scene Demo { Camera cam { .fov = 90 } Light l { } }");
    assert_eq!(c.start(), Ok(Step::Scene));
    assert_eq!(c.engine.scene.name, "Demo");
    assert_eq!(c.scene(), Ok(Step::Object));
    assert_eq!(c.object(), Ok(Step::PropertyName));
    assert_eq!(c.engine.scene.objects.len(), 1);
    assert_eq!(c.engine.scene.objects[0].name, "cam");
    assert_eq!(c.engine.scene.objects[0].obj_type, ObjectType::Camera);
    assert!(c.engine.scene.objects[0].properties.is_empty());
    assert_eq!(c.property_name(), Ok(Step::PropertyValue));
    assert_eq!(
        c.engine.scene.objects[0].properties,
        vec![Property { name: "fov".to_string(), value: Expression::Empty }]
    );
    assert_eq!(c.property_value(), Ok(Step::PropertyName));
    assert_eq!(
        c.engine.scene.objects[0].properties,
        vec![Property { name: "fov".to_string(), value: number("90") }]
    );
    assert_eq!(c.property_name(), Ok(Step::ObjectEnd));
    assert_eq!(c.object_end(), Ok(Step::Object));
    assert_eq!(c.object(), Ok(Step::PropertyName));
    assert_eq!(c.property_name(), Ok(Step::ObjectEnd));
    assert_eq!(c.object_end(), Ok(Step::End));
    assert_eq!(c.tokens.len(), 0);
    assert_eq!(c.engine.scene.objects.len(), 2);
    assert_eq!(c.engine.scene.objects[1].obj_type, ObjectType::Light);
}

#[test]
fn start_wants_the_keyword_and_a_name() {
    assert_eq!(
        constructor("Scene X").start(),
        Err(ParseError::UnexpectedToken {
            expected: identifier("scene"),
            actual: identifier("Scene"),
            position: 0,
        })
    );
    assert_eq!(
        constructor("scene {").start(),
        Err(ParseError::UnexpectedToken {
            expected: any_identifier(),
            actual: Token::LBrace,
            position: 1,
        })
    );
    assert_eq!(constructor("scene").start(), Err(ParseError::UnexpectedEndOfInput));
    assert_eq!(constructor("").start(), Err(ParseError::UnexpectedEndOfInput));
}

#[test]
fn scene_wants_an_opening_brace() {
    assert_eq!(constructor("{").scene(), Ok(Step::Object));
    assert_eq!(
        constructor("(").scene(),
        Err(ParseError::UnexpectedToken {
            expected: Token::LBrace,
            actual: Token::LParen,
            position: 0,
        })
    );
}

#[test]
fn object_knows_every_object_type() {
    let types = [
        ("Camera", ObjectType::Camera),
        ("Light", ObjectType::Light),
        ("Physics", ObjectType::Physics),
        ("Material", ObjectType::Material),
        ("Controller", ObjectType::Controller),
        ("Sphere", ObjectType::Sphere),
        ("Rectangle", ObjectType::Rectangle),
        ("Image", ObjectType::Image),
        ("Active", ObjectType::Active),
    ];
    for (name, obj_type) in types {
        assert_eq!(ObjectType::named(&name.to_string()), Some(obj_type));
        let mut c = constructor(&format!("{} x {{", name));
        assert_eq!(c.object(), Ok(Step::PropertyName));
        assert_eq!(c.engine.scene.objects[0].obj_type, obj_type);
    }
    assert_eq!(ObjectType::named(&"camera".to_string()), None);
    assert_eq!(ObjectType::named(&"Object".to_string()), None);
    assert_eq!(ObjectType::named(&String::new()), None);
}

#[test]
fn object_refuses_what_does_not_fit() {
    assert_eq!(
        constructor("Foo f {").object(),
        Err(ParseError::InvalidObjectType { name: "Foo".to_string() })
    );
    assert_eq!(
        constructor("CAMERA f {").object(),
        Err(ParseError::InvalidObjectType { name: "CAMERA".to_string() })
    );
    assert_eq!(
        constructor("} f {").object(),
        Err(ParseError::UnexpectedToken {
            expected: any_identifier(),
            actual: Token::RBrace,
            position: 0,
        })
    );
    assert_eq!(
        constructor("Camera 1 {").object(),
        Err(ParseError::UnexpectedToken {
            expected: any_identifier(),
            actual: Token::Number("1".to_string()),
            position: 1,
        })
    );
    assert_eq!(
        constructor("Camera c =").object(),
        Err(ParseError::UnexpectedToken {
            expected: Token::LBrace,
            actual: Token::Equal,
            position: 2,
        })
    );
    let mut c = constructor("Camera c");
    assert_eq!(c.object(), Err(ParseError::UnexpectedEndOfInput));
    assert!(c.engine.scene.objects.is_empty());
}

#[test]
fn property_name_wants_dot_name_and_equal() {
    let mut c = constructor("Camera c { x");
    assert_eq!(c.object(), Ok(Step::PropertyName));
    assert_eq!(
        c.property_name(),
        Err(ParseError::UnexpectedToken {
            expected: Token::Dot,
            actual: identifier("x"),
            position: 3,
        })
    );
    let mut c = constructor("Camera c { . 5");
    assert_eq!(c.object(), Ok(Step::PropertyName));
    assert_eq!(
        c.property_name(),
        Err(ParseError::UnexpectedToken {
            expected: any_identifier(),
            actual: Token::Number("5".to_string()),
            position: 4,
        })
    );
    let mut c = constructor("Camera c { .x 5");
    assert_eq!(c.object(), Ok(Step::PropertyName));
    assert_eq!(
        c.property_name(),
        Err(ParseError::UnexpectedToken {
            expected: Token::Equal,
            actual: Token::Number("5".to_string()),
            position: 5,
        })
    );
    assert!(c.engine.scene.objects[0].properties.is_empty());
}

#[test]
fn expression_reads_scalars() {
    assert_eq!(constructor("5").expression(), Ok(number("5")));
    assert_eq!(constructor("mat").expression(), Ok(Expression::Identifier("mat".to_string())));
    assert_eq!(
        constructor("\"file.png\"").expression(),
        Ok(Expression::String("file.png".to_string()))
    );
}

#[test]
fn expression_reads_a_group_in_order() {
    assert_eq!(
        constructor("(0, 1, 2)").expression(),
        Ok(Expression::Group(vec![number("0"), number("1"), number("2")]))
    );
    assert_eq!(
        constructor("(a, \"b\", -3.5)").expression(),
        Ok(Expression::Group(vec![
            Expression::Identifier("a".to_string()),
            Expression::String("b".to_string()),
            number("-3.5"),
        ]))
    );
    assert_eq!(constructor("(7)").expression(), Ok(Expression::Group(vec![number("7")])));
    let mut c = constructor("(1, 2) }");
    assert!(c.expression().is_ok());
    assert_eq!(c.peek(), Token::RBrace);
}

#[test]
fn a_group_may_be_empty_or_end_with_a_comma() {
    assert_eq!(constructor("()").expression(), Ok(Expression::Group(vec![])));
    assert_eq!(
        constructor("(1, 2,)").expression(),
        Ok(Expression::Group(vec![number("1"), number("2")]))
    );
}

#[test]
fn expression_refuses_what_is_no_value() {
    assert_eq!(
        constructor("}").expression(),
        Err(ParseError::InvalidExpressionToken { token: Token::RBrace })
    );
    assert_eq!(
        constructor("=").expression(),
        Err(ParseError::InvalidExpressionToken { token: Token::Equal })
    );
    assert_eq!(constructor("").expression(), Err(ParseError::UnexpectedEndOfInput));
}

#[test]
fn a_group_holds_scalars_only() {
    assert_eq!(
        constructor("(1, (2, 3))").expression(),
        Err(ParseError::InvalidExpressionToken { token: Token::LParen })
    );
    assert_eq!(
        constructor("(,)").expression(),
        Err(ParseError::InvalidExpressionToken { token: Token::Comma })
    );
    assert_eq!(
        constructor("(1 2)").expression(),
        Err(ParseError::UnexpectedToken {
            expected: Token::Comma,
            actual: Token::Number("2".to_string()),
            position: 2,
        })
    );
    assert_eq!(constructor("(1, 2").expression(), Err(ParseError::UnexpectedEndOfInput));
    assert_eq!(constructor("(1,").expression(), Err(ParseError::UnexpectedEndOfInput));
    assert_eq!(constructor("(").expression(), Err(ParseError::UnexpectedEndOfInput));
}

#[test]
fn make_expression_maps_scalars() {
    let c = constructor("");
    assert_eq!(c.make_expression(&Token::Number("1".to_string())), Ok(number("1")));
    assert_eq!(
        c.make_expression(&identifier("x")),
        Ok(Expression::Identifier("x".to_string()))
    );
    assert_eq!(
        c.make_expression(&Token::String("s".to_string())),
        Ok(Expression::String("s".to_string()))
    );
    assert_eq!(
        c.make_expression(&Token::Dot),
        Err(ParseError::InvalidExpressionToken { token: Token::Dot })
    );
    assert_eq!(
        c.make_expression(&Token::Unknown),
        Err(ParseError::InvalidExpressionToken { token: Token::Unknown })
    );
    assert_eq!(c.make_expression(&Token::EoF), Err(ParseError::UnexpectedEndOfInput));
}

#[test]
fn object_end_closes_the_scene_or_goes_on() {
    let mut c = constructor("}");
    assert_eq!(c.object_end(), Ok(Step::End));
    assert_eq!(c.tokens.len(), 0);
    let mut c = constructor("Camera");
    assert_eq!(c.object_end(), Ok(Step::Object));
    assert_eq!(c.tokens.len(), 1);
    assert_eq!(constructor("").object_end(), Ok(Step::Object));
}

#[test]
fn a_trailing_comma_before_the_closing_brace_is_accepted() {
    let with = parse("scene X { Sphere s { .radius = 5, .material = mat, } }").unwrap();
    let without = parse("scene X { Sphere s { .radius = 5, .material = mat } }").unwrap();
    assert_eq!(with, without);
    assert_eq!(with.objects[0].properties.len(), 2);
}

#[test]
fn a_missing_comma_between_two_properties_is_refused() {
    assert_eq!(
        parse("scene X { Sphere s { .radius = 5 .material = mat } }"),
        Err(ParseError::UnexpectedToken {
            expected: Token::Comma,
            actual: Token::Dot,
            position: 10,
        })
    );
    assert_eq!(
        parse("scene X { Sphere s { .position = (1, 2, 3) .material = mat } }"),
        Err(ParseError::UnexpectedToken {
            expected: Token::Comma,
            actual: Token::Dot,
            position: 16,
        })
    );
}

#[test]
fn objects_come_out_in_source_order() {
    let scene = parse(
        "scene Many { Material red { .color = (255, 0, 0) } Sphere ball { .radius = 1, \
         .material = red } Camera cam { } Active a { .camera = cam } }",
    )
    .unwrap();
    assert_eq!(scene.name, "Many");
    let names: Vec<&str> = scene.objects.iter().map(|o| o.name.as_str()).collect();
    assert_eq!(names, vec!["red", "ball", "cam", "a"]);
    let types: Vec<ObjectType> = scene.objects.iter().map(|o| o.obj_type).collect();
    assert_eq!(
        types,
        vec![ObjectType::Material, ObjectType::Sphere, ObjectType::Camera, ObjectType::Active]
    );
    assert!(scene.objects[2].properties.is_empty());
}

#[test]
fn no_property_is_left_without_a_value() {
    let scene = parse(
        "scene S { Light l { .position = (0, 10, 0), .intensity = (1, 1, 1) } Image i { .file \
         = \"a.png\" } }",
    )
    .unwrap();
    for object in &scene.objects {
        for property in &object.properties {
            assert_ne!(property.value, Expression::Empty);
        }
    }
}

#[test]
fn a_scene_without_objects_is_refused_at_the_object_header() {
    assert_eq!(
        parse("scene X { }"),
        Err(ParseError::UnexpectedToken {
            expected: any_identifier(),
            actual: Token::RBrace,
            position: 3,
        })
    );
}

#[test]
fn tokens_behind_the_scene_are_refused() {
    assert_eq!(
        parse("scene X { Camera c { } } }"),
        Err(ParseError::UnexpectedToken {
            expected: Token::EoF,
            actual: Token::RBrace,
            position: 8,
        })
    );
    assert_eq!(
        parse("scene X { Camera c { } } scene"),
        Err(ParseError::UnexpectedToken {
            expected: Token::EoF,
            actual: identifier("scene"),
            position: 8,
        })
    );
}

#[test]
fn a_scene_that_ends_too_soon_is_refused() {
    assert_eq!(parse("scene X { Camera c { .a = 1"), Err(ParseError::UnexpectedEndOfInput));
    assert_eq!(parse("scene X { Camera c { }"), Err(ParseError::UnexpectedEndOfInput));
    assert_eq!(parse("scene X"), Err(ParseError::UnexpectedEndOfInput));
    assert_eq!(parse(""), Err(ParseError::UnexpectedEndOfInput));
}

#[test]
fn an_unrecognised_character_ends_the_parse() {
    assert_eq!(
        parse("scene X { Camera c { .a = 1; } }"),
        Err(ParseError::UnrecognizedCharacter { character: ';', position: 27 })
    );
}

#[test]
fn construct_runs_from_the_tokens_it_was_given() {
    let scene = constructor("scene T { Rectangle r { .inverted = false } }").construct().unwrap();
    assert_eq!(scene.name, "T");
    assert_eq!(scene.objects[0].obj_type, ObjectType::Rectangle);
    assert_eq!(
        scene.objects[0].properties,
        vec![Property {
            name: "inverted".to_string(),
            value: Expression::Identifier("false".to_string()),
        }]
    );
}

#[test]
fn names_may_repeat() {
    let scene = parse("scene X { Camera c { .a = 1, .a = 2 } Camera c { } }").unwrap();
    assert_eq!(scene.objects.len(), 2);
    assert_eq!(scene.objects[0].name, scene.objects[1].name);
    assert_eq!(
        scene.objects[0].properties,
        vec![
            Property { name: "a".to_string(), value: number("1") },
            Property { name: "a".to_string(), value: number("2") },
        ]
    );
}

#[test]
fn names_with_digits_or_underscores_are_no_identifiers() {
    assert_eq!(
        parse("scene X { Rectangle r { .v0 = (1, 2, 3) } }"),
        Err(ParseError::UnexpectedToken {
            expected: Token::Equal,
            actual: Token::Number("0".to_string()),
            position: 8,
        })
    );
    assert_eq!(
        parse("scene X { Controller c { .mouse_movement = true } }"),
        Err(ParseError::UnrecognizedCharacter { character: '_', position: 31 })
    );
}
