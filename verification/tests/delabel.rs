use gdlk::lang::diet::{DietInstr, MachineInstr};
use gdlk::lang::Compiler;

#[test]
fn test_simple() {
    let compiler = Compiler(vec![
        DietInstr::Assign(0),
        DietInstr::Jez("label_0".into()),
        DietInstr::Assign(2),
        DietInstr::Label("label_0".into()),
        DietInstr::Assign(1),
    ]);

    assert_eq!(
        compiler.delabel().0,
        vec![
            MachineInstr::Assign(0),
            MachineInstr::Jez(3), // --+
            MachineInstr::Assign(2), //   |
            MachineInstr::Assign(1), // <-+
        ]
    );
}

#[test]
fn test_multiple_labels() {
    let compiler = Compiler(vec![
        DietInstr::Assign(0),
        DietInstr::Jez("label_0".into()),
        DietInstr::Assign(2),
        DietInstr::Label("label_0".into()),
        DietInstr::Assign(1),
        DietInstr::Jez("label_1".into()),
        DietInstr::Assign(3),
        DietInstr::Label("label_1".into()),
        DietInstr::Assign(1),
    ]);

    assert_eq!(
        compiler.delabel().0,
        vec![
            MachineInstr::Assign(0),
            MachineInstr::Jez(3), // --+
            MachineInstr::Assign(2), //   |
            MachineInstr::Assign(1), // <-+
            MachineInstr::Jez(6), // --+
            MachineInstr::Assign(3), //   |
            MachineInstr::Assign(1), // <-+
        ]
    );
}

#[test]
fn test_delabel_backward_jump_and_stacks() {
    let compiler = Compiler(vec![
        DietInstr::Label("top".into()),
        DietInstr::Read,
        DietInstr::Push(0),
        DietInstr::Pop(0),
        DietInstr::Write,
        DietInstr::Jnz("top".into()),
        DietInstr::Label("end".into()),
    ]);

    assert_eq!(
        compiler.delabel().0,
        vec![
            MachineInstr::Read,
            MachineInstr::Push(0),
            MachineInstr::Pop(0),
            MachineInstr::Write,
            MachineInstr::Jnz(0),
        ]
    );
}

#[test]
fn test_delabel_label_at_end() {
    let compiler = Compiler(vec![DietInstr::Jez("end".into()), DietInstr::Label("end".into())]);
    assert_eq!(compiler.delabel().0, vec![MachineInstr::Jez(1)]);
}
