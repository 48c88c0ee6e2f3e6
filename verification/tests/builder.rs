use pycall::literal::Value;
use pycall::program::Indents;
use pycall::program::MatPlotLib;
use pycall::program::PythonProgram;

#[test]
fn new_program_is_empty() {
    let p = PythonProgram::new();
    assert_eq!(p.to_text(), "");
}

#[test]
fn write_line_appends_with_newline() {
    let mut p = PythonProgram::new();
    p.write_line("print(1)");
    p.write_line("print(2)");
    assert_eq!(p.to_text(), "print(1)\nprint(2)\n");
}

#[test]
fn define_variable_emits_list_literal() {
    let mut p = PythonProgram::new();
    p.define_variable("x", &vec![1, 2, 3]);
    assert_eq!(p.to_text(), "x = [1,2,3,]\n");
}

#[test]
fn define_variable_emits_value_literal() {
    let mut p = PythonProgram::new();
    p.define_variable("cfg", &Value::Dict(vec![(String::from("n"), Value::Int(4))]));
    assert_eq!(p.to_text(), "cfg = {\"\"\"n\"\"\":4,}\n");
}

#[test]
fn import_emits_import_statement() {
    let mut p = PythonProgram::new();
    p.import("os");
    assert_eq!(p.to_text(), "import os\n");
}

#[test]
fn import_as_emits_aliased_import() {
    let mut p = PythonProgram::new();
    p.import_as("matplotlib.pyplot", "plt");
    assert_eq!(p.to_text(), "import matplotlib.pyplot as plt\n");
}

#[test]
fn if_elif_else_indentation() {
    let mut p = PythonProgram::new();
    p.if_block("a > 1");
    p.write_line("pass");
    p.elif("a > 0");
    p.write_line("pass");
    p.else_block();
    p.write_line("pass");
    p.end_block();
    p.write_line("done");
    assert_eq!(
        p.to_text(),
        "if a > 1:\n\tpass\nelif a > 0:\n\tpass\nelse:\n\tpass\ndone\n"
    );
}

#[test]
fn nested_for_while_indentation() {
    let mut p = PythonProgram::new();
    p.for_block("i in range(3)");
    p.while_block("i < 2");
    p.define_variable("y", &1u32);
    p.end_block();
    p.end_block();
    p.write_line("print(y)");
    assert_eq!(
        p.to_text(),
        "for i in range(3):\n\twhile i < 2:\n\t\ty = 1\nprint(y)\n"
    );
}

#[test]
fn indent_moves_by_signed_steps() {
    let mut p = PythonProgram::new();
    p.indent(2);
    p.write_line("deep");
    p.indent(-2);
    p.write_line("flat");
    assert_eq!(p.to_text(), "\t\tdeep\nflat\n");
}

#[test]
fn negative_depth_renders_no_indentation() {
    let mut p = PythonProgram::new();
    p.end_block();
    p.write_line("x");
    assert_eq!(p.to_text(), "x\n");
}

#[test]
fn indents_render_one_tab_per_level() {
    assert_eq!(Indents(0).render(), "");
    assert_eq!(Indents(3).render(), "\t\t\t");
    assert_eq!(Indents(-1).render(), "");
}

#[test]
fn to_text_matches_accumulated_text_exactly() {
    let mut p = PythonProgram::new();
    p.import("math");
    p.if_block("True");
    p.write_line("print(math.pi)");
    p.end_block();
    let first = p.to_text();
    assert_eq!(first, "import math\nif True:\n\tprint(math.pi)\n");
    assert_eq!(p.to_text(), first);
    assert_eq!(p.to_text().into_bytes(), first.into_bytes());
}

#[test]
fn matplotlib_plot_statements() {
    let mut p = PythonProgram::new();
    p.import_pyplot_as_plt();
    p.plot_y(&Value::List(vec![Value::Int(1), Value::Int(4)]));
    p.plot_xy(&Value::Int(1), &Value::Int(2));
    p.plot_xyargs(&Value::Int(1), &Value::Int(2), "'r+'");
    p.show();
    assert_eq!(
        p.to_text(),
        "import matplotlib.pyplot as plt\nplt.plot([1,4,])\nplt.plot(1,2)\nplt.plot(1,2,'r+')\nplt.show()\n"
    );
}

#[test]
fn matplotlib_semilogy_statements() {
    let mut p = PythonProgram::new();
    p.semilogy_y(&Value::List(vec![Value::UInt(10), Value::UInt(100)]));
    p.semilogy_xy(&Value::Int(1), &Value::UInt(10));
    p.semilogy_xyargs(&Value::Int(1), &Value::UInt(10), "'b-'");
    assert_eq!(
        p.to_text(),
        "plt.semilogy([10,100,])\nplt.semilogy(1,10)\nplt.semilogy(1,10,'b-')\n"
    );
}

#[test]
fn matplotlib_statements_respect_indentation() {
    let mut p = PythonProgram::new();
    p.if_block("show_it");
    p.show();
    p.end_block();
    assert_eq!(p.to_text(), "if show_it:\n\tplt.show()\n");
}

#[test]
fn elif_at_outermost_level_is_transient() {
    let mut p = PythonProgram::new();
    p.elif("x");
    p.write_line("back at level zero");
    assert_eq!(p.to_text(), "elif x:\nback at level zero\n");
}
