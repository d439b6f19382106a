//! Indentation-aware line output for generated source code.

use vstd::prelude::*;
use vstd::string::StringExecFns;

use crate::text::{split_char, split_on, texts};

use super::writer::{WriteError, Writer};

verus! {

/// A line of generated code: its depth of indentation, relative to a base
/// level, and its text.
pub type CodeLine = (nat, Seq<char>);

/// The whitespace of `level` levels of indentation, four spaces each.
pub open spec fn indentation(level: nat) -> Seq<char>
    decreases level,
{
    if level == 0 {
        Seq::empty()
    } else {
        indentation((level - 1) as nat) + "    "@
    }
}

/// The output of one line: an empty line is a bare line break (no trailing
/// whitespace); any other is indented to `level` and ends with a line break.
pub open spec fn line_text(level: nat, text: Seq<char>) -> Seq<char> {
    if text.len() == 0 {
        "\n"@
    } else {
        indentation(level) + text + "\n"@
    }
}

/// The output of `lines`, each indented to `base` plus its own depth.
pub open spec fn lines_text(lines: Seq<CodeLine>, base: nat) -> Seq<char>
    decreases lines.len(),
{
    if lines.len() == 0 {
        Seq::empty()
    } else {
        lines_text(lines.drop_last(), base) + line_text(base + lines.last().0, lines.last().1)
    }
}

/// A documentation comment line for one line of text.
pub open spec fn comment_line(text: Seq<char>) -> Seq<char> {
    if text.len() == 0 {
        "///"@
    } else {
        "/// "@ + text
    }
}

/// The documentation comment lines for `text`: one per line of `text`.
pub open spec fn comment_lines(depth: nat, text: Seq<char>) -> Seq<CodeLine> {
    split_on(text, '\n').map_values(|l: Seq<char>| (depth, comment_line(l)))
}

/// The documentation comment lines for an optional documentation text.
pub open spec fn doc_lines(depth: nat, doc: Option<Seq<char>>) -> Seq<CodeLine> {
    match doc {
        Some(d) => comment_lines(depth, d),
        None => Seq::empty(),
    }
}

/// The view of an optional owned text.
pub open spec fn opt_text(doc: Option<String>) -> Option<Seq<char>> {
    match doc {
        Some(d) => Some(d@),
        None => None,
    }
}

/// Indentation adds up.
pub proof fn lemma_indentation_add(a: nat, b: nat)
    ensures
        indentation(a + b) == indentation(a) + indentation(b),
    decreases b,
{
    if b == 0 {
        assert(indentation(a) + Seq::<char>::empty() =~= indentation(a));
    } else {
        lemma_indentation_add(a, (b - 1) as nat);
        assert(indentation(a) + indentation((b - 1) as nat) + "    "@ =~= indentation(a) + (
        indentation((b - 1) as nat) + "    "@));
    }
}

/// Appends `level` levels of indentation to `out`.
fn push_indentation(out: &mut String, level: usize)
    ensures
        final(out)@ == old(out)@ + indentation(level as nat),
{
    let mut i: usize = 0;
    while i < level
        invariant
            i <= level,
            out@ == old(out)@ + indentation(i as nat),
        decreases level - i,
    {
        out.append("    ");
        i = i + 1;
        assert(out@ =~= old(out)@ + indentation(i as nat));
    }
}

/// The output of one line, `text` at `level` levels of indentation.
fn render_line(level: usize, depth: usize, text: &str) -> (r: String)
    ensures
        r@ == line_text((level + depth) as nat, text@),
{
    let mut out = String::new();
    if text.unicode_len() > 0 {
        push_indentation(&mut out, level);
        push_indentation(&mut out, depth);
        out.append(text);
        proof {
            lemma_indentation_add(level as nat, depth as nat);
        }
    }
    out.append("\n");
    proof {
        if text@.len() > 0 {
            let i1 = indentation(level as nat);
            let i2 = indentation(depth as nat);
            assert(Seq::<char>::empty() + i1 + i2 + text@ + "\n"@ =~= (i1 + i2) + text@ + "\n"@);
        } else {
            assert(Seq::<char>::empty() + "\n"@ =~= "\n"@);
        }
    }
    out
}

/// Generated code under construction: a run of lines, all indented from one
/// base level, each line ready to be written.
pub struct CodeText {
    base: usize,
    rendered: Vec<String>,
    lines: Ghost<Seq<CodeLine>>,
}

impl CodeText {
    /// The lines so far.
    pub closed spec fn lines(&self) -> Seq<CodeLine> {
        self.lines@
    }

    /// The base level of indentation.
    pub closed spec fn base(&self) -> nat {
        self.base as nat
    }

    /// Each line is held as its output.
    pub closed spec fn wf(&self) -> bool {
        &&& self.rendered@.len() == self.lines@.len()
        &&& forall|i: int|
            0 <= i < self.lines@.len() ==> (#[trigger] self.rendered@[i])@ == line_text(
                (self.base + self.lines@[i].0) as nat,
                self.lines@[i].1,
            )
    }

    /// An empty text at `base` levels of indentation.
    pub fn new(base: usize) -> (r: Self)
        ensures
            r.wf(),
            r.lines() == Seq::<CodeLine>::empty(),
            r.base() == base,
    {
        CodeText { base, rendered: Vec::new(), lines: Ghost(Seq::empty()) }
    }

    /// Adds a line of `text` at `depth` levels below the base.
    pub fn line(&mut self, depth: usize, text: &str)
        requires
            old(self).wf(),
        ensures
            final(self).wf(),
            final(self).base() == old(self).base(),
            final(self).lines() == old(self).lines().push((depth as nat, text@)),
    {
        let r = render_line(self.base, depth, text);
        self.rendered.push(r);
        self.lines = Ghost(self.lines@.push((depth as nat, text@)));
    }

    /// Writes the lines to `w`, one write per line, stopping at the first
    /// write that fails and handing back its error.
    pub fn write_to<W: Writer>(&self, w: &mut W) -> (r: Result<(), WriteError>)
        requires
            self.wf(),
        ensures
            r is Ok ==> final(w).written() == old(w).written() + lines_text(
                self.lines(),
                self.base(),
            ),
            old(w).infallible() ==> r is Ok && final(w).infallible(),
    {
        let mut i: usize = 0;
        while i < self.rendered.len()
            invariant
                self.wf(),
                i <= self.rendered@.len(),
                w.written() == old(w).written() + lines_text(
                    self.lines@.take(i as int),
                    self.base as nat,
                ),
                old(w).infallible() ==> w.infallible(),
            decreases self.rendered.len() - i,
        {
            let ghost before = w.written();
            match w.write(self.rendered[i].as_str()) {
                Ok(()) => {},
                Err(e) => {
                    return Err(e);
                },
            }
            proof {
                let t = self.lines@.take(i + 1);
                assert(t.drop_last() =~= self.lines@.take(i as int));
                assert(t.last() == self.lines@[i as int]);
                assert(w.written() =~= old(w).written() + lines_text(t, self.base as nat));
            }
            i = i + 1;
        }
        proof {
            assert(self.lines@.take(i as int) =~= self.lines@);
        }
        Ok(())
    }

    /// Adds an empty line.
    pub fn blank(&mut self)
        requires
            old(self).wf(),
        ensures
            final(self).wf(),
            final(self).base() == old(self).base(),
            final(self).lines() == old(self).lines().push((0nat, Seq::<char>::empty())),
    {
        self.line(0, "");
        proof {
            reveal_strlit("");
            assert(""@ =~= Seq::<char>::empty());
        }
    }

    /// Adds the documentation comment lines for `text` at `depth`.
    pub fn comment(&mut self, depth: usize, text: &str)
        requires
            old(self).wf(),
        ensures
            final(self).wf(),
            final(self).base() == old(self).base(),
            final(self).lines() == old(self).lines() + comment_lines(depth as nat, text@),
    {
        let parts = split_char(text, '\n');
        let ghost t = texts(parts@);
        let ghost start = self.lines();
        let ghost f = |l: Seq<char>| (depth as nat, comment_line(l));
        let mut i: usize = 0;
        while i < parts.len()
            invariant
                self.wf(),
                self.base() == old(self).base(),
                start == old(self).lines(),
                t == texts(parts@),
                t == split_on(text@, '\n'),
                f == (|l: Seq<char>| (depth as nat, comment_line(l))),
                i <= parts.len(),
                self.lines() == start + t.take(i as int).map_values(f),
            decreases parts.len() - i,
        {
            let part = parts[i].as_str();
            let line = if part.unicode_len() == 0 {
                String::from_str("///")
            } else {
                let mut l = String::from_str("/// ");
                l.append(part);
                l
            };
            proof {
                assert(t[i as int] == part@);
                assert(line@ == comment_line(part@));
            }
            self.line(depth, line.as_str());
            proof {
                assert(t.take(i + 1).map_values(f) =~= t.take(i as int).map_values(f).push(
                    f(t[i as int]),
                ));
                assert(self.lines() =~= start + t.take(i + 1).map_values(f));
            }
            i = i + 1;
        }
        proof {
            assert(t.take(i as int) =~= t);
        }
    }

    /// Adds the documentation comment lines for `doc`, if there is one.
    pub fn comment_opt(&mut self, depth: usize, doc: &Option<String>)
        requires
            old(self).wf(),
        ensures
            final(self).wf(),
            final(self).base() == old(self).base(),
            final(self).lines() == old(self).lines() + doc_lines(depth as nat, opt_text(*doc)),
    {
        match doc {
            Some(d) => self.comment(depth, d.as_str()),
            None => {
                assert(old(self).lines() + Seq::<CodeLine>::empty() =~= old(self).lines());
            },
        }
    }
}

/// Tracks the current indentation level of generated code.
pub struct CodeWriter {
    level: usize,
}

impl CodeWriter {
    /// The current indentation level.
    pub closed spec fn indent_level(&self) -> nat {
        self.level as nat
    }

    /// A code writer for Rust source: four spaces per level, starting at
    /// level 0.
    pub fn rust() -> (r: Self)
        ensures
            r.indent_level() == 0,
    {
        CodeWriter { level: 0 }
    }

    /// The current indentation level.
    pub fn level(&self) -> (r: usize)
        ensures
            r == self.indent_level(),
    {
        self.level
    }

    /// Increases the indentation by one level.
    pub fn indent(&mut self)
        requires
            old(self).indent_level() < usize::MAX,
        ensures
            final(self).indent_level() == old(self).indent_level() + 1,
    {
        self.level = self.level + 1;
    }

    /// Decreases the indentation by one level; at level 0 it stays at 0.
    pub fn outdent(&mut self)
        ensures
            final(self).indent_level() == if old(self).indent_level() == 0 {
                0
            } else {
                (old(self).indent_level() - 1) as nat
            },
    {
        if self.level > 0 {
            self.level = self.level - 1;
        }
    }

    /// Writes one line of `text` at the current indentation.
    pub fn writeln<W: Writer>(&self, w: &mut W, text: &str) -> (r: Result<(), WriteError>)
        ensures
            old(w).infallible() ==> r is Ok && final(w).infallible(),
            r is Ok ==> final(w).written() == old(w).written() + line_text(
                self.indent_level(),
                text@,
            ),
    {
        let mut out = CodeText::new(self.level);
        out.line(0, text);
        proof {
            reveal_with_fuel(lines_text, 2);
            assert(out.lines().drop_last() =~= Seq::<CodeLine>::empty());
        }
        out.write_to(w)
    }

    /// Writes an empty line.
    pub fn blank_line<W: Writer>(&self, w: &mut W) -> (r: Result<(), WriteError>)
        ensures
            old(w).infallible() ==> r is Ok && final(w).infallible(),
            r is Ok ==> final(w).written() == old(w).written() + "\n"@,
    {
        let r = self.writeln(w, "");
        proof {
            reveal_strlit("");
        }
        r
    }

    /// Writes the documentation comment lines for `text` at the current
    /// indentation.
    pub fn comment<W: Writer>(&self, w: &mut W, text: &str) -> (r: Result<(), WriteError>)
        ensures
            old(w).infallible() ==> r is Ok && final(w).infallible(),
            r is Ok ==> final(w).written() == old(w).written() + lines_text(
                comment_lines(0, text@),
                self.indent_level(),
            ),
    {
        let mut out = CodeText::new(self.level);
        out.comment(0, text);
        proof {
            assert(Seq::<CodeLine>::empty() + comment_lines(0, text@) =~= comment_lines(0, text@));
        }
        out.write_to(w)
    }

    /// Writes the documentation comment lines for `doc`, if there is one.
    pub fn comment_opt<W: Writer>(&self, w: &mut W, doc: &Option<String>) -> (r: Result<
        (),
        WriteError,
    >)
        ensures
            old(w).infallible() ==> r is Ok && final(w).infallible(),
            r is Ok ==> final(w).written() == old(w).written() + lines_text(
                doc_lines(0, opt_text(*doc)),
                self.indent_level(),
            ),
    {
        let mut out = CodeText::new(self.level);
        out.comment_opt(0, doc);
        proof {
            assert(Seq::<CodeLine>::empty() + doc_lines(0, opt_text(*doc)) =~= doc_lines(
                0,
                opt_text(*doc),
            ));
        }
        out.write_to(w)
    }
}

} // verus!
