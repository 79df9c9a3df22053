use gdlk::lang::ast::{Instr, Operator, RegisterRef, ValueSource};
use gdlk::lang::Compiler;

/// Parses the source, expecting success, and returns the program body.
fn parse_gdlk(src: &str) -> Vec<Instr> {
    Compiler::new(src.into()).parse().unwrap().0.body
}

#[test]
fn test_parse_read_write() {
    assert_eq!(
        parse_gdlk(
            "
                ReAd RX0
                WrItE RX0
                "
        ),
        vec![
            Instr::Operator(Operator::Read(RegisterRef::User(0))),
            Instr::Operator(Operator::Write(RegisterRef::User(0)))
        ]
    )
}

#[test]
fn test_set_and_registers() {
    assert_eq!(
        parse_gdlk(
            "
                Set RX1 4
                SET RX1 RLI
                SET RX1 RS0
                "
        ),
        vec![
            Instr::Operator(Operator::Assign(RegisterRef::User(1), ValueSource::Const(4))),
            Instr::Operator(Operator::Assign(
                RegisterRef::User(1),
                ValueSource::Register(RegisterRef::InputLength),
            )),
            Instr::Operator(Operator::Assign(
                RegisterRef::User(1),
                ValueSource::Register(RegisterRef::StackLength(0)),
            )),
        ]
    )
}

#[test]
fn test_add() {
    assert_eq!(
        parse_gdlk("Add RX1 RX4"),
        vec![Instr::Operator(Operator::Add(
            RegisterRef::User(1),
            ValueSource::Register(RegisterRef::User(4))
        ))]
    )
}

#[test]
fn test_sub() {
    assert_eq!(
        parse_gdlk("Sub RX1 RX4"),
        vec![Instr::Operator(Operator::Sub(
            RegisterRef::User(1),
            ValueSource::Register(RegisterRef::User(4))
        ))]
    )
}

#[test]
fn test_mul() {
    assert_eq!(
        parse_gdlk("Mul rx1 rx0"),
        vec![Instr::Operator(Operator::Mul(
            RegisterRef::User(1),
            ValueSource::Register(RegisterRef::User(0))
        ))]
    )
}

#[test]
fn test_push() {
    assert_eq!(
        parse_gdlk("Push RX2 S4"),
        vec![Instr::Operator(Operator::Push(ValueSource::Register(RegisterRef::User(2)), 4))]
    )
}

#[test]
fn test_pop() {
    assert_eq!(
        parse_gdlk("Pop S4 RX2"),
        vec![Instr::Operator(Operator::Pop(4, RegisterRef::User(2)))]
    )
}

#[test]
fn test_parse_if() {
    assert_eq!(
        parse_gdlk(
            "IF RX10 {
            Read RX10
            write RX10
        }"
        ),
        vec![Instr::If(
            RegisterRef::User(10),
            vec![
                Instr::Operator(Operator::Read(RegisterRef::User(10))),
                Instr::Operator(Operator::Write(RegisterRef::User(10))),
            ]
        )]
    )
}

#[test]
fn test_parse_while() {
    assert_eq!(
        parse_gdlk(
            "WHiLE RX0 {
            READ RX0
            Write RX0
        }"
        ),
        vec![Instr::While(
            RegisterRef::User(0),
            vec![
                Instr::Operator(Operator::Read(RegisterRef::User(0))),
                Instr::Operator(Operator::Write(RegisterRef::User(0))),
            ]
        )]
    )
}

#[test]
fn test_parse_empty_if_and_while() {
    assert_eq!(
        parse_gdlk("while RX0 {}if RX1{}"),
        vec![
            Instr::While(RegisterRef::User(0), vec![]),
            Instr::If(RegisterRef::User(1), vec![])
        ]
    )
}

#[test]
fn test_parse_simple_file() {
    assert_eq!(
        parse_gdlk(
            "
            Read RX0
            Set RX0 2
            Write RX0
            Read RX1
            Set RX1 3
            Write RX1
            Read RX2
            Set RX2 4
            Write RX2
        "
        ),
        vec![
            Instr::Operator(Operator::Read(RegisterRef::User(0))),
            Instr::Operator(Operator::Assign(RegisterRef::User(0), ValueSource::Const(2))),
            Instr::Operator(Operator::Write(RegisterRef::User(0))),
            Instr::Operator(Operator::Read(RegisterRef::User(1))),
            Instr::Operator(Operator::Assign(RegisterRef::User(1), ValueSource::Const(3))),
            Instr::Operator(Operator::Write(RegisterRef::User(1))),
            Instr::Operator(Operator::Read(RegisterRef::User(2))),
            Instr::Operator(Operator::Assign(RegisterRef::User(2), ValueSource::Const(4))),
            Instr::Operator(Operator::Write(RegisterRef::User(2)))
        ]
    )
}

#[test]
fn test_parse_empty_source() {
    assert_eq!(parse_gdlk(""), vec![]);
}

#[test]
fn test_parse_rejects_negative_constant() {
    // Constants are unsigned digit strings in the source.
    assert!(Compiler::new("SET RX0 -12".into()).parse().is_err());
}

#[test]
fn test_parse_ignores_case() {
    let mixed = "wHiLe rX0 {\n  ReAd Rx0\n  PuSh rLi s1\n  pOp S1 RX0\n}";
    assert_eq!(parse_gdlk(mixed), parse_gdlk(&mixed.to_ascii_lowercase()));
    assert_eq!(parse_gdlk(mixed), parse_gdlk(&mixed.to_ascii_uppercase()));
    // A failure happens at the same place in any case.
    let bad = "READ RX0\nJUMP";
    let e1 = Compiler::new(bad.into()).parse().unwrap_err();
    let e2 = Compiler::new(bad.to_ascii_lowercase()).parse().unwrap_err();
    assert_eq!(e1.errors, e2.errors);
}
