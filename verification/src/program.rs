//! The program builder: an append-only, line-oriented text buffer with a
//! mutable indentation cursor.
//!
//! The buffer lives in memory; the surrounding application materialises it
//! to disk or hands it to an interpreter when asked to.

use crate::literal::AsPythonLitteral;
use crate::literal::Value;
use crate::literal::value_literal;
use vstd::prelude::*;
use vstd::string::*;

verus! {

/// The indentation cursor: a signed nesting depth, rendered as one tab per
/// level. Callers may drive it negative; negative depths render as no
/// indentation at all.
#[derive(Clone, Copy, Debug, PartialEq, Eq, Structural)]
pub struct Indents(pub isize);

/// The indentation prefix for depth `n`: one tab character per level, and
/// none at all when `n` is zero or negative.
pub open spec fn indent_chars(n: int) -> Seq<char>
    decreases n,
{
    if n <= 0 {
        Seq::empty()
    } else {
        indent_chars(n - 1).push('\t')
    }
}

impl Indents {
    /// The run of tab characters for this depth.
    pub fn render(&self) -> (s: String)
        ensures
            s@ == indent_chars(self.0 as int),
    {
        let mut out = String::new();
        if self.0 <= 0 {
            return out;
        }
        let k: usize = self.0 as usize;
        let mut i: usize = 0;
        while i < k
            invariant
                i <= k,
                k == self.0 as int,
                out@ == indent_chars(i as int),
            decreases k - i,
        {
            out.append("\t");
            proof {
                reveal_strlit("\t");
                assert(out@ =~= indent_chars(i as int + 1));
            }
            i = i + 1;
        }
        out
    }
}

/// One emitted line: the indentation prefix for `depth`, the statement
/// body, and a line feed.
pub open spec fn line_at(depth: int, body: Seq<char>) -> Seq<char> {
    indent_chars(depth) + body + seq!['\n']
}

/// The statement `name = literal`.
pub open spec fn assign_stmt(name: Seq<char>, lit: Seq<char>) -> Seq<char> {
    name + seq![' ', '=', ' '] + lit
}

/// The statement `import dependency`.
pub open spec fn import_stmt(dependency: Seq<char>) -> Seq<char> {
    seq!['i', 'm', 'p', 'o', 'r', 't', ' '] + dependency
}

/// The statement `import dependency as rename`.
pub open spec fn import_as_stmt(dependency: Seq<char>, rename: Seq<char>) -> Seq<char> {
    import_stmt(dependency) + seq![' ', 'a', 's', ' '] + rename
}

/// The block header `if condition:`.
pub open spec fn if_stmt(condition: Seq<char>) -> Seq<char> {
    seq!['i', 'f', ' '] + condition + seq![':']
}

/// The block header `elif condition:`.
pub open spec fn elif_stmt(condition: Seq<char>) -> Seq<char> {
    seq!['e', 'l', 'i', 'f', ' '] + condition + seq![':']
}

/// The block header `else:`.
pub open spec fn else_stmt() -> Seq<char> {
    seq!['e', 'l', 's', 'e', ':']
}

/// The block header `for range:`.
pub open spec fn for_stmt(range: Seq<char>) -> Seq<char> {
    seq!['f', 'o', 'r', ' '] + range + seq![':']
}

/// The block header `while condition:`.
pub open spec fn while_stmt(condition: Seq<char>) -> Seq<char> {
    seq!['w', 'h', 'i', 'l', 'e', ' '] + condition + seq![':']
}

/// An append-only Python script under construction, together with the
/// current indentation depth.
pub struct PythonProgram {
    text: String,
    indents: Indents,
}

impl PythonProgram {
    /// The accumulated script text.
    pub closed spec fn content(&self) -> Seq<char> {
        self.text@
    }

    /// The current indentation depth.
    pub closed spec fn depth(&self) -> int {
        self.indents.0 as int
    }

    /// Creates an empty program at indentation depth zero. The buffer is
    /// in memory, so construction cannot fail.
    pub fn new() -> (p: PythonProgram)
        ensures
            p.content() == Seq::<char>::empty(),
            p.depth() == 0,
    {
        PythonProgram { text: String::new(), indents: Indents(0) }
    }

    /// Appends `line` prefixed by the current indentation and followed by
    /// a line feed.
    pub fn write_line(&mut self, line: &str)
        ensures
            final(self).content() == old(self).content() + line_at(old(self).depth(), line@),
            final(self).depth() == old(self).depth(),
    {
        let prefix = self.indents.render();
        self.text.append(prefix.as_str());
        self.text.append(line);
        self.text.append("\n");
        proof {
            reveal_strlit("\n");
            assert(self.text@ =~= old(self).content() + line_at(old(self).depth(), line@));
        }
    }

    /// The full accumulated text, exactly as the builder wrote it.
    pub fn to_text(&self) -> (s: String)
        ensures
            s@ == self.content(),
    {
        self.text.clone()
    }

    /// Appends `name = value` with `value` rendered as a Python literal.
    /// The builder does not check that `name` is a valid Python name.
    pub fn define_variable<T: AsPythonLitteral + ?Sized>(&mut self, name: &str, value: &T)
        ensures
            final(self).content() == old(self).content() + line_at(
                old(self).depth(),
                assign_stmt(name@, value.literal()),
            ),
            final(self).depth() == old(self).depth(),
    {
        let mut stmt = String::from_str(name);
        stmt.append(" = ");
        let lit = value.to_literal();
        stmt.append(lit.as_str());
        proof {
            reveal_strlit(" = ");
            assert(stmt@ =~= assign_stmt(name@, value.literal()));
        }
        self.write_line(stmt.as_str());
    }

    /// Appends `import dependency`.
    pub fn import(&mut self, dependency: &str)
        ensures
            final(self).content() == old(self).content() + line_at(
                old(self).depth(),
                import_stmt(dependency@),
            ),
            final(self).depth() == old(self).depth(),
    {
        let mut stmt = String::from_str("import ");
        stmt.append(dependency);
        proof {
            reveal_strlit("import ");
            assert(stmt@ =~= import_stmt(dependency@));
        }
        self.write_line(stmt.as_str());
    }

    /// Appends `import dependency as rename`.
    pub fn import_as(&mut self, dependency: &str, rename: &str)
        ensures
            final(self).content() == old(self).content() + line_at(
                old(self).depth(),
                import_as_stmt(dependency@, rename@),
            ),
            final(self).depth() == old(self).depth(),
    {
        let mut stmt = String::from_str("import ");
        stmt.append(dependency);
        stmt.append(" as ");
        stmt.append(rename);
        proof {
            reveal_strlit("import ");
            reveal_strlit(" as ");
            assert(stmt@ =~= import_as_stmt(dependency@, rename@));
        }
        self.write_line(stmt.as_str());
    }

    /// Appends `if condition:` and opens a block: one more indentation
    /// level. The condition is written through verbatim.
    pub fn if_block(&mut self, condition: &str)
        requires
            old(self).depth() < isize::MAX as int,
        ensures
            final(self).content() == old(self).content() + line_at(
                old(self).depth(),
                if_stmt(condition@),
            ),
            final(self).depth() == old(self).depth() + 1,
    {
        let mut stmt = String::from_str("if ");
        stmt.append(condition);
        stmt.append(":");
        proof {
            reveal_strlit("if ");
            reveal_strlit(":");
            assert(stmt@ =~= if_stmt(condition@));
        }
        self.write_line(stmt.as_str());
        self.indents.0 = self.indents.0 + 1;
    }

    /// Appends `elif condition:` one level shallower than the block it
    /// continues, then reopens that block: the depth is unchanged overall.
    pub fn elif(&mut self, condition: &str)
        requires
            old(self).depth() > isize::MIN as int,
        ensures
            final(self).content() == old(self).content() + line_at(
                old(self).depth() - 1,
                elif_stmt(condition@),
            ),
            final(self).depth() == old(self).depth(),
    {
        self.indents.0 = self.indents.0 - 1;
        let mut stmt = String::from_str("elif ");
        stmt.append(condition);
        stmt.append(":");
        proof {
            reveal_strlit("elif ");
            reveal_strlit(":");
            assert(stmt@ =~= elif_stmt(condition@));
        }
        self.write_line(stmt.as_str());
        self.indents.0 = self.indents.0 + 1;
    }

    /// Appends `else:` one level shallower than the block it continues,
    /// then reopens that block: the depth is unchanged overall.
    pub fn else_block(&mut self)
        requires
            old(self).depth() > isize::MIN as int,
        ensures
            final(self).content() == old(self).content() + line_at(
                old(self).depth() - 1,
                else_stmt(),
            ),
            final(self).depth() == old(self).depth(),
    {
        self.indents.0 = self.indents.0 - 1;
        proof {
            reveal_strlit("else:");
            assert("else:"@ =~= else_stmt());
        }
        self.write_line("else:");
        self.indents.0 = self.indents.0 + 1;
    }

    /// Appends `for range:` and opens a block. The range expression is
    /// written through verbatim.
    pub fn for_block(&mut self, range: &str)
        requires
            old(self).depth() < isize::MAX as int,
        ensures
            final(self).content() == old(self).content() + line_at(
                old(self).depth(),
                for_stmt(range@),
            ),
            final(self).depth() == old(self).depth() + 1,
    {
        let mut stmt = String::from_str("for ");
        stmt.append(range);
        stmt.append(":");
        proof {
            reveal_strlit("for ");
            reveal_strlit(":");
            assert(stmt@ =~= for_stmt(range@));
        }
        self.write_line(stmt.as_str());
        self.indents.0 = self.indents.0 + 1;
    }

    /// Appends `while condition:` and opens a block. The condition is
    /// written through verbatim.
    pub fn while_block(&mut self, condition: &str)
        requires
            old(self).depth() < isize::MAX as int,
        ensures
            final(self).content() == old(self).content() + line_at(
                old(self).depth(),
                while_stmt(condition@),
            ),
            final(self).depth() == old(self).depth() + 1,
    {
        let mut stmt = String::from_str("while ");
        stmt.append(condition);
        stmt.append(":");
        proof {
            reveal_strlit("while ");
            reveal_strlit(":");
            assert(stmt@ =~= while_stmt(condition@));
        }
        self.write_line(stmt.as_str());
        self.indents.0 = self.indents.0 + 1;
    }

    /// Closes one block: removes one indentation level and emits nothing.
    /// No lower bound is enforced; callers balance openers and closers.
    pub fn end_block(&mut self)
        requires
            old(self).depth() > isize::MIN as int,
        ensures
            final(self).content() == old(self).content(),
            final(self).depth() == old(self).depth() - 1,
    {
        self.indents.0 = self.indents.0 - 1;
    }

    /// Moves the indentation depth by `n`, emitting nothing. The
    /// structured block operations are preferred; this is the escape
    /// hatch for irregular nesting.
    pub fn indent(&mut self, n: isize)
        requires
            isize::MIN as int <= old(self).depth() + n as int <= isize::MAX as int,
        ensures
            final(self).content() == old(self).content(),
            final(self).depth() == old(self).depth() + n as int,
    {
        self.indents.0 = self.indents.0 + n;
    }
}

/// The characters of `plt.plot(`.
pub open spec fn plot_open() -> Seq<char> {
    seq!['p', 'l', 't', '.', 'p', 'l', 'o', 't', '(']
}

/// The characters of `plt.semilogy(`.
pub open spec fn semilogy_open() -> Seq<char> {
    seq!['p', 'l', 't', '.', 's', 'e', 'm', 'i', 'l', 'o', 'g', 'y', '(']
}

/// The statement `plt.plot(args)`.
pub open spec fn plot_stmt(args: Seq<char>) -> Seq<char> {
    plot_open() + args + seq![')']
}

/// The statement `plt.semilogy(args)`.
pub open spec fn semilogy_stmt(args: Seq<char>) -> Seq<char> {
    semilogy_open() + args + seq![')']
}

/// The statement `plt.show()`.
pub open spec fn show_stmt() -> Seq<char> {
    seq!['p', 'l', 't', '.', 's', 'h', 'o', 'w', '(', ')']
}

/// The characters of `matplotlib.pyplot`.
pub open spec fn pyplot_module() -> Seq<char> {
    seq!['m', 'a', 't', 'p', 'l', 'o', 't', 'l', 'i', 'b', '.', 'p', 'y', 'p', 'l', 'o', 't']
}

/// The characters of `plt`.
pub open spec fn plt_alias() -> Seq<char> {
    seq!['p', 'l', 't']
}

/// Convenience emitters for matplotlib calls on a program builder. Every
/// method appends one statement at the current depth and leaves the depth
/// unchanged.
pub trait MatPlotLib {
    /// The accumulated script text of this builder.
    spec fn script(&self) -> Seq<char>;

    /// The current indentation depth of this builder.
    spec fn level(&self) -> int;

    /// Appends `import matplotlib.pyplot as plt`.
    fn import_pyplot_as_plt(&mut self)
        ensures
            final(self).script() == old(self).script() + line_at(
                old(self).level(),
                import_as_stmt(pyplot_module(), plt_alias()),
            ),
            final(self).level() == old(self).level(),
    ;

    /// Appends `plt.plot(y)` with `y` rendered as a literal.
    fn plot_y(&mut self, y: &Value)
        ensures
            final(self).script() == old(self).script() + line_at(
                old(self).level(),
                plot_stmt(value_literal(*y)),
            ),
            final(self).level() == old(self).level(),
    ;

    /// Appends `plt.plot(x,y)` with both arguments rendered as literals.
    fn plot_xy(&mut self, x: &Value, y: &Value)
        ensures
            final(self).script() == old(self).script() + line_at(
                old(self).level(),
                plot_stmt(value_literal(*x) + seq![','] + value_literal(*y)),
            ),
            final(self).level() == old(self).level(),
    ;

    /// Appends `plt.plot(x,y,args)`: the data rendered as literals, the
    /// style arguments written through verbatim.
    fn plot_xyargs(&mut self, x: &Value, y: &Value, args: &str)
        ensures
            final(self).script() == old(self).script() + line_at(
                old(self).level(),
                plot_stmt(value_literal(*x) + seq![','] + value_literal(*y) + seq![','] + args@),
            ),
            final(self).level() == old(self).level(),
    ;

    /// Appends `plt.semilogy(y)` with `y` rendered as a literal.
    fn semilogy_y(&mut self, y: &Value)
        ensures
            final(self).script() == old(self).script() + line_at(
                old(self).level(),
                semilogy_stmt(value_literal(*y)),
            ),
            final(self).level() == old(self).level(),
    ;

    /// Appends `plt.semilogy(x,y)` with both arguments rendered as
    /// literals.
    fn semilogy_xy(&mut self, x: &Value, y: &Value)
        ensures
            final(self).script() == old(self).script() + line_at(
                old(self).level(),
                semilogy_stmt(value_literal(*x) + seq![','] + value_literal(*y)),
            ),
            final(self).level() == old(self).level(),
    ;

    /// Appends `plt.semilogy(x,y,args)`: the data rendered as literals,
    /// the style arguments written through verbatim.
    fn semilogy_xyargs(&mut self, x: &Value, y: &Value, args: &str)
        ensures
            final(self).script() == old(self).script() + line_at(
                old(self).level(),
                semilogy_stmt(
                    value_literal(*x) + seq![','] + value_literal(*y) + seq![','] + args@,
                ),
            ),
            final(self).level() == old(self).level(),
    ;

    /// Appends `plt.show()`.
    fn show(&mut self)
        ensures
            final(self).script() == old(self).script() + line_at(old(self).level(), show_stmt()),
            final(self).level() == old(self).level(),
    ;
}

impl MatPlotLib for PythonProgram {
    open spec fn script(&self) -> Seq<char> {
        self.content()
    }

    open spec fn level(&self) -> int {
        self.depth()
    }

    fn import_pyplot_as_plt(&mut self) {
        proof {
            reveal_strlit("matplotlib.pyplot");
            reveal_strlit("plt");
            assert("matplotlib.pyplot"@ =~= pyplot_module());
            assert("plt"@ =~= plt_alias());
        }
        self.import_as("matplotlib.pyplot", "plt");
    }

    fn plot_y(&mut self, y: &Value) {
        let mut stmt = String::from_str("plt.plot(");
        let lit = y.render();
        stmt.append(lit.as_str());
        stmt.append(")");
        proof {
            reveal_strlit("plt.plot(");
            reveal_strlit(")");
            assert(stmt@ =~= plot_stmt(value_literal(*y)));
        }
        self.write_line(stmt.as_str());
    }

    fn plot_xy(&mut self, x: &Value, y: &Value) {
        let mut stmt = String::from_str("plt.plot(");
        let litx = x.render();
        stmt.append(litx.as_str());
        stmt.append(",");
        let lity = y.render();
        stmt.append(lity.as_str());
        stmt.append(")");
        proof {
            reveal_strlit("plt.plot(");
            reveal_strlit(",");
            reveal_strlit(")");
            assert(stmt@ =~= plot_stmt(value_literal(*x) + seq![','] + value_literal(*y)));
        }
        self.write_line(stmt.as_str());
    }

    fn plot_xyargs(&mut self, x: &Value, y: &Value, args: &str) {
        let mut stmt = String::from_str("plt.plot(");
        let litx = x.render();
        stmt.append(litx.as_str());
        stmt.append(",");
        let lity = y.render();
        stmt.append(lity.as_str());
        stmt.append(",");
        stmt.append(args);
        stmt.append(")");
        proof {
            reveal_strlit("plt.plot(");
            reveal_strlit(",");
            reveal_strlit(")");
            assert(stmt@ =~= plot_stmt(
                value_literal(*x) + seq![','] + value_literal(*y) + seq![','] + args@,
            ));
        }
        self.write_line(stmt.as_str());
    }

    fn semilogy_y(&mut self, y: &Value) {
        let mut stmt = String::from_str("plt.semilogy(");
        let lit = y.render();
        stmt.append(lit.as_str());
        stmt.append(")");
        proof {
            reveal_strlit("plt.semilogy(");
            reveal_strlit(")");
            assert(stmt@ =~= semilogy_stmt(value_literal(*y)));
        }
        self.write_line(stmt.as_str());
    }

    fn semilogy_xy(&mut self, x: &Value, y: &Value) {
        let mut stmt = String::from_str("plt.semilogy(");
        let litx = x.render();
        stmt.append(litx.as_str());
        stmt.append(",");
        let lity = y.render();
        stmt.append(lity.as_str());
        stmt.append(")");
        proof {
            reveal_strlit("plt.semilogy(");
            reveal_strlit(",");
            reveal_strlit(")");
            assert(stmt@ =~= semilogy_stmt(value_literal(*x) + seq![','] + value_literal(*y)));
        }
        self.write_line(stmt.as_str());
    }

    fn semilogy_xyargs(&mut self, x: &Value, y: &Value, args: &str) {
        let mut stmt = String::from_str("plt.semilogy(");
        let litx = x.render();
        stmt.append(litx.as_str());
        stmt.append(",");
        let lity = y.render();
        stmt.append(lity.as_str());
        stmt.append(",");
        stmt.append(args);
        stmt.append(")");
        proof {
            reveal_strlit("plt.semilogy(");
            reveal_strlit(",");
            reveal_strlit(")");
            assert(stmt@ =~= semilogy_stmt(
                value_literal(*x) + seq![','] + value_literal(*y) + seq![','] + args@,
            ));
        }
        self.write_line(stmt.as_str());
    }

    fn show(&mut self) {
        proof {
            reveal_strlit("plt.show()");
            assert("plt.show()"@ =~= show_stmt());
        }
        self.write_line("plt.show()");
    }
}

} // verus!
