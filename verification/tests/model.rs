use afmt::config::{Config, ConfigError, Session};
use afmt::data_model::{
    Annotation, ArgumentList, Block, ClassBody, ClassDeclaration, DmlType, MethodInvocation,
    Modifiers, ParenthesizedExpression, ReturnStatement, TernaryExpression, VariableDeclarator,
};
use afmt::doc::PrettyConfig;
use afmt::doc_builder::DocBuilder;
use afmt::enum_def::{
    Expression, Literal_, Modifier, PrimaryExpression, PropertyNavigation, Statement,
    TriggerEvent,
};

fn builder() -> DocBuilder {
    DocBuilder::new(PrettyConfig::new(2).unwrap())
}

#[test]
fn config_defaults() {
    let c = Config::default();
    assert_eq!(c.max_width(), 80);
    assert_eq!(c.indent_size(), 2);
    let c2 = Config::new(100);
    assert_eq!(c2.max_width(), 100);
    assert_eq!(c2.indent_size(), 2);
}

#[test]
fn session_rejects_zero_indent_config() {
    let mut c = Config::new(80);
    c.indent_size = 0;
    let r = Session::create_from_config(Some(c), vec![]);
    assert_eq!(r.err().unwrap(), ConfigError::ZeroIndentSize);
}

#[test]
fn session_falls_back_to_defaults() {
    let s = Session::create_from_config(None, vec![String::from("a.cls")]).unwrap();
    assert_eq!(s.config().max_width(), 80);
    assert_eq!(s.config().indent_size(), 2);
    assert_eq!(s.source_files().len(), 1);
}

#[test]
fn config_error_message() {
    assert_eq!(
        ConfigError::ZeroIndentSize.message(),
        "indent_size must be greater than 0"
    );
}

#[test]
fn dml_type_keywords() {
    assert_eq!(DmlType::Insert.as_str(), "insert");
    assert_eq!(DmlType::Upsert.as_str(), "upsert");
    assert_eq!(DmlType::Merge.as_str(), "merge");
}

#[test]
fn statement_is_block() {
    let blk = Statement::Block(Box::new(Block { statements: vec![] }));
    assert!(blk.is_block());
    assert!(!Statement::SemiColumn.is_block());
}

#[test]
fn empty_class_renders_as_empty_block() {
    let mut b = builder();
    let decl = ClassDeclaration {
        buckets: None,
        modifiers: None,
        name: String::from("Greeter"),
        type_parameters: None,
        superclass: None,
        interface: None,
        body: ClassBody { class_members: vec![] },
        range: range_zero(),
    };
    let doc = decl.build(&mut b);
    assert_eq!(b.pretty(doc, 80), "class Greeter {\n}");
}

#[test]
fn modifiers_precede_the_keyword() {
    let mut b = builder();
    let decl = ClassDeclaration {
        buckets: None,
        modifiers: Some(Modifiers {
            annotation: Some(Annotation { name: String::from("isTest"), arguments: None }),
            modifiers: vec![Modifier::Public, Modifier::WithSharing],
        }),
        name: String::from("T"),
        type_parameters: None,
        superclass: None,
        interface: None,
        body: ClassBody { class_members: vec![] },
        range: range_zero(),
    };
    let doc = decl.build(&mut b);
    assert_eq!(b.pretty(doc, 80), "@isTest\npublic with sharing class T {\n}");
}

#[test]
fn return_statement_renders_expression() {
    let mut b = builder();
    let ret = ReturnStatement {
        exp: Some(Expression::Primary(Box::new(PrimaryExpression::Literal(Literal_::Int(
            String::from("42"),
        ))))),
    };
    let doc = ret.build(&mut b);
    assert_eq!(b.pretty(doc, 80), "return 42;");
}

#[test]
fn ternary_expression_layout() {
    let mut b = builder();
    let t = TernaryExpression {
        condition: ident("c"),
        consequence: ident("x"),
        alternative: ident("y"),
    };
    let doc = t.build(&mut b);
    assert_eq!(b.pretty(doc, 80), "c ? x : y");
}

#[test]
fn method_invocation_breaks_arguments_when_narrow() {
    let mut b = builder();
    let call = MethodInvocation {
        is_base: true,
        object: None,
        property_navigation: None,
        type_arguments: None,
        name: String::from("run"),
        arguments: ArgumentList {
            expressions: vec![ident("alpha"), ident("beta")],
        },
    };
    let doc = call.build(&mut b);
    assert_eq!(b.pretty(doc, 80), "run(alpha, beta)");
    // the call itself adds one indent unit and the argument list another;
    // the closing bracket's dedent steps back out
    assert_eq!(b.pretty(doc, 10), "run(\n    alpha,\n    beta\n)");
}

#[test]
fn parenthesized_expression_stays_tight_when_it_fits() {
    let mut b = builder();
    let p = ParenthesizedExpression { exp: ident("flag") };
    let doc = p.build(&mut b);
    assert_eq!(b.pretty(doc, 80), "(flag)");
}

#[test]
fn variable_declarator_with_value() {
    let mut b = builder();
    let d = VariableDeclarator {
        name: String::from("n"),
        value: Some(afmt::enum_def::VariableInitializer::Exp(ident("m"))),
    };
    let doc = d.build(&mut b);
    assert_eq!(b.pretty(doc, 80), "n = m");
}

#[test]
fn statement_semicolon_and_expression() {
    let mut b = builder();
    let doc = Statement::SemiColumn.build(&mut b);
    assert_eq!(b.pretty(doc, 80), ";");
    let mut b2 = builder();
    let st = Statement::Exp(ident("go"));
    let doc2 = st.build(&mut b2);
    assert_eq!(b2.pretty(doc2, 80), "go;");
}

#[test]
fn property_navigation_tokens() {
    let mut b = builder();
    let d1 = PropertyNavigation::Dot.build(&mut b);
    let d2 = PropertyNavigation::SafeNavigationOperator.build(&mut b);
    assert_eq!(b.pretty(d1, 80), ".");
    assert_eq!(b.pretty(d2, 80), "?.");
}

#[test]
fn trigger_event_words() {
    let mut b = builder();
    let d = TriggerEvent::BeforeInsert.build(&mut b);
    assert_eq!(b.pretty(d, 80), "before insert");
}

fn ident(s: &str) -> Expression {
    Expression::Primary(Box::new(PrimaryExpression::Identifier(String::from(s))))
}

fn range_zero() -> afmt::data_model::DataRange {
    afmt::data_model::DataRange {
        start_byte: 0,
        end_byte: 0,
        start_point: afmt::data_model::DataPoint { row: 0, column: 0 },
        end_point: afmt::data_model::DataPoint { row: 0, column: 0 },
    }
}
