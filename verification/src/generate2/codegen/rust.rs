//! The Rust code generator: the text of structs, enums and stub encode and
//! decode methods, with the naming rules for types, default values and files.

use vstd::prelude::*;
use vstd::string::StringExecFns;

use crate::generate2::code::code_writer::{
    doc_lines, lines_text, opt_text, CodeLine, CodeText, CodeWriter,
};
use crate::generate2::code::writer::{WriteError, Writer};
use crate::ir::{self, NativeType};
use crate::text::{decimal, free_of, join, join_strings, lemma_split_join, lemma_split_nonempty, push_decimal, split_char, split_on, texts};

verus! {

/// The last piece of `s` after splitting at `.`.
pub open spec fn last_segment(s: Seq<char>) -> Seq<char> {
    split_on(s, '.').last()
}

/// The Rust type for a descriptor `d` seen from package `pkg`: the bare type
/// name when `d` lies inside `pkg`, else a `crate::` path.
pub open spec fn descriptor_rust_type(d: Seq<char>, pkg: Seq<char>) -> Seq<char> {
    let parts = split_on(d, '.');
    let current = split_on(pkg, '.');
    if parts.len() > current.len() && parts.take(current.len() as int) == current {
        parts.last()
    } else {
        "crate::"@ + join(parts, "::"@)
    }
}

/// The Rust type of a native type, seen from package `pkg`.
pub open spec fn spec_rust_type(n: NativeType, pkg: Seq<char>) -> Seq<char>
    decreases n,
{
    match n {
        NativeType::Bool => "bool"@,
        NativeType::Int { bits, signed } => (if signed {
            "i"@
        } else {
            "u"@
        }) + decimal(bits as nat),
        NativeType::Float { bits } => "f"@ + decimal(bits as nat),
        NativeType::String => "String"@,
        NativeType::Bytes => "Vec<u8>"@,
        NativeType::Array { element } => "Vec<"@ + spec_rust_type(element.native, pkg) + ">"@,
        NativeType::Mapping { key, value } => "HashMap<"@ + spec_rust_type(key.native, pkg) + ", "@
            + spec_rust_type(value.native, pkg) + ">"@,
        NativeType::Message { descriptor } => descriptor_rust_type(descriptor@, pkg),
        NativeType::Enum { descriptor } => descriptor_rust_type(descriptor@, pkg),
    }
}

/// The Rust expression for the default value of a native type.
pub open spec fn rust_default_value(n: NativeType) -> Seq<char> {
    match n {
        NativeType::Bool => "false"@,
        NativeType::Int { .. } => "0"@,
        NativeType::Float { .. } => "0.0"@,
        NativeType::String => "String::new()"@,
        NativeType::Bytes => "Vec::new()"@,
        NativeType::Array { .. } => "Vec::new()"@,
        NativeType::Mapping { .. } => "HashMap::new()"@,
        NativeType::Message { descriptor } => last_segment(descriptor@) + "::new()"@,
        NativeType::Enum { descriptor } => last_segment(descriptor@) + "::default()"@,
    }
}

/// The non-empty pieces of `parts`, in order.
pub open spec fn nonempty_pieces(parts: Seq<Seq<char>>) -> Seq<Seq<char>>
    decreases parts.len(),
{
    if parts.len() == 0 {
        Seq::empty()
    } else if parts.last().len() == 0 {
        nonempty_pieces(parts.drop_last())
    } else {
        nonempty_pieces(parts.drop_last()).push(parts.last())
    }
}

/// The relative file path of a package, e.g. `foo.bar` gives `foo/bar.rs`:
/// the leading pieces become directories (empty pieces add none) and the
/// last piece names the file.
pub open spec fn package_file_path(package_path: Seq<char>) -> Seq<char> {
    let parts = split_on(package_path, '.');
    join(nonempty_pieces(parts.drop_last()).push(parts.last() + ".rs"@), "/"@)
}

/// The name of a message: the last component of its descriptor's path.
pub open spec fn message_name(m: ir::Message) -> Seq<char> {
    if m.descriptor.path@.len() > 0 {
        m.descriptor.path@.last()@
    } else {
        Seq::empty()
    }
}

/// The name of an enum: the last component of its descriptor's path.
pub open spec fn enum_name(e: ir::Enum) -> Seq<char> {
    if e.descriptor.path@.len() > 0 {
        e.descriptor.path@.last()@
    } else {
        Seq::empty()
    }
}

/// The file header of a package's module.
pub open spec fn package_begin_lines(path: Seq<char>) -> Seq<CodeLine> {
    seq![
        (0nat, "//! Generated code for package `"@ + path + "`."@),
        (0nat, "//!"@),
        (0nat, "//! This file was automatically generated by baproto."@),
        (0nat, "//! Do not edit manually."@),
        (0nat, Seq::empty()),
        (0nat, "use std::collections::HashMap;"@),
        (0nat, "use std::io::{Read, Write};"@),
        (0nat, Seq::empty()),
    ]
}

/// The opening of a message's struct: its documentation, derives and
/// header.
pub open spec fn message_begin_lines(m: ir::Message) -> Seq<CodeLine> {
    doc_lines(0, opt_text(m.doc)) + seq![
        (0nat, "#[derive(Debug, Clone, PartialEq)]"@),
        (0nat, "pub struct "@ + message_name(m) + " {"@),
    ]
}

/// The initializer line of one field in a message's constructor.
pub open spec fn field_default_line(f: ir::Field) -> CodeLine {
    (3nat, f.name@ + ": "@ + rust_default_value(f.encoding.native) + ","@)
}

/// The start of a message's `impl` block, up to the field initializers.
pub open spec fn message_end_head(name: Seq<char>) -> Seq<CodeLine> {
    seq![
        (0nat, "}"@),
        (0nat, Seq::empty()),
        (0nat, "impl "@ + name + " {"@),
        (1nat, "/// Creates a new instance with default values."@),
        (1nat, "pub fn new() -> Self {"@),
        (2nat, "Self {"@),
    ]
}

/// The rest of a message's `impl` block and its `Default` impl.
pub open spec fn message_end_tail(name: Seq<char>) -> Seq<CodeLine> {
    seq![
        (2nat, "}"@),
        (1nat, "}"@),
        (0nat, Seq::empty()),
        (1nat, "/// Encodes this message to a writer."@),
        (1nat, "pub fn encode(&self, _writer: &mut [u8]) -> std::io::Result<()> {"@),
        (2nat, "todo!(\"serialization not yet implemented\")"@),
        (1nat, "}"@),
        (0nat, Seq::empty()),
        (1nat, "/// Decodes a message from a reader."@),
        (1nat, "pub fn decode(_reader: &[u8]) -> std::io::Result<Self> {"@),
        (2nat, "todo!(\"deserialization not yet implemented\")"@),
        (1nat, "}"@),
        (0nat, "}"@),
        (0nat, Seq::empty()),
        (0nat, "impl Default for "@ + name + " {"@),
        (1nat, "fn default() -> Self {"@),
        (2nat, "Self::new()"@),
        (1nat, "}"@),
        (0nat, "}"@),
        (0nat, Seq::empty()),
    ]
}

/// The close of a message's struct, then its `impl` block (a constructor
/// that sets each field, in order, to its default value, and the encode and
/// decode stubs) and its `Default` impl.
pub open spec fn message_end_lines(m: ir::Message) -> Seq<CodeLine> {
    message_end_head(message_name(m)) + m.fields@.map_values(|f: ir::Field| field_default_line(f))
        + message_end_tail(message_name(m))
}

/// The opening of an enum: its documentation, derives and header.
pub open spec fn enum_begin_lines(e: ir::Enum) -> Seq<CodeLine> {
    doc_lines(0, opt_text(e.doc)) + seq![
        (0nat, "#[derive(Debug, Clone, Copy, PartialEq, Eq)]"@),
        (0nat, "pub enum "@ + enum_name(e) + " {"@),
    ]
}

/// The close of an enum.
pub open spec fn enum_end_lines() -> Seq<CodeLine> {
    seq![(0nat, "}"@), (0nat, Seq::empty())]
}

/// A struct field: its documentation and declaration.
pub open spec fn field_lines(f: ir::Field, pkg: Seq<char>) -> Seq<CodeLine> {
    doc_lines(0, opt_text(f.doc)) + seq![
        (0nat, "pub "@ + f.name@ + ": "@ + spec_rust_type(f.encoding.native, pkg) + ","@),
    ]
}

/// An enum variant: its documentation and declaration.
pub open spec fn variant_lines(v: ir::Variant, pkg: Seq<char>) -> Seq<CodeLine> {
    match v {
        ir::Variant::Unit { name, doc, .. } => doc_lines(0, opt_text(doc)) + seq![
            (0nat, name@ + ","@),
        ],
        ir::Variant::Field { name, field, doc, .. } => doc_lines(0, opt_text(doc)) + seq![
            (0nat, name@ + "("@ + spec_rust_type(field.encoding.native, pkg) + "),"@),
        ],
    }
}

/// One level less, but not below zero.
pub open spec fn level_below(level: nat) -> nat {
    if level == 0 {
        0
    } else {
        (level - 1) as nat
    }
}

proof fn lemma_nonempty_pieces_all(parts: Seq<Seq<char>>)
    requires
        forall|i: int| 0 <= i < parts.len() ==> (#[trigger] parts[i]).len() > 0,
    ensures
        nonempty_pieces(parts) == parts,
    decreases parts.len(),
{
    if parts.len() > 0 {
        let p = parts.drop_last();
        assert forall|i: int| 0 <= i < p.len() implies (#[trigger] p[i]).len() > 0 by {
            assert(p[i] == parts[i]);
        }
        lemma_nonempty_pieces_all(p);
        assert(parts.last() == parts[parts.len() - 1]);
        assert(p.push(parts.last()) =~= parts);
    }
}

/// The file of the package `c1.c2. ... .cn` (non-empty components without
/// `.`) is `c1/c2/.../cn.rs`: every leading component becomes a directory,
/// in order, and the last one names the file.
pub proof fn lemma_package_file_path(comps: Seq<Seq<char>>)
    requires
        comps.len() >= 1,
        forall|i: int|
            0 <= i < comps.len() ==> (#[trigger] comps[i]).len() > 0 && free_of(comps[i], '.'),
    ensures
        package_file_path(join(comps, seq!['.'])) == if comps.len() == 1 {
            comps[0] + seq!['.', 'r', 's']
        } else {
            join(comps.drop_last(), seq!['/']) + seq!['/'] + comps.last() + seq!['.', 'r', 's']
        },
{
    reveal_strlit(".rs");
    reveal_strlit("/");
    assert(".rs"@ =~= seq!['.', 'r', 's']);
    assert("/"@ =~= seq!['/']);
    lemma_split_join(comps, '.');
    let d = comps.drop_last();
    assert forall|i: int| 0 <= i < d.len() implies (#[trigger] d[i]).len() > 0 by {
        assert(d[i] == comps[i]);
    }
    lemma_nonempty_pieces_all(d);
    let x = comps.last() + ".rs"@;
    if comps.len() > 1 {
        assert(d.push(x).drop_last() =~= d);
    }
}

/// A type is named by its bare name exactly when every component of the
/// current package equals the corresponding leading component of its
/// descriptor (and the descriptor has more components); otherwise it is
/// `crate::` followed by all components joined with `::`. Components are
/// free of `.` and joined with `.` into the descriptor and the package.
pub proof fn lemma_descriptor_rust_type(desc: Seq<Seq<char>>, pkg: Seq<Seq<char>>)
    requires
        desc.len() >= 1,
        pkg.len() >= 1,
        forall|i: int| 0 <= i < desc.len() ==> free_of(#[trigger] desc[i], '.'),
        forall|i: int| 0 <= i < pkg.len() ==> free_of(#[trigger] pkg[i], '.'),
    ensures
        (desc.len() > pkg.len() && forall|i: int| 0 <= i < pkg.len() ==> desc[i] == pkg[i])
            ==> descriptor_rust_type(join(desc, seq!['.']), join(pkg, seq!['.'])) == desc.last(),
        (desc.len() <= pkg.len() || exists|i: int| 0 <= i < pkg.len() && desc[i] != pkg[i])
            ==> descriptor_rust_type(join(desc, seq!['.']), join(pkg, seq!['.'])) == "crate::"@
            + join(desc, "::"@),
{
    lemma_split_join(desc, '.');
    lemma_split_join(pkg, '.');
    if desc.len() > pkg.len() {
        if forall|i: int| 0 <= i < pkg.len() ==> desc[i] == pkg[i] {
            assert(desc.take(pkg.len() as int) =~= pkg);
        } else {
            let i = choose|i: int| 0 <= i < pkg.len() && desc[i] != pkg[i];
            assert(desc.take(pkg.len() as int)[i] == desc[i]);
        }
    }
}

/// Opening a message or an enum and then closing it gives back the
/// indentation level that it started from.
pub proof fn lemma_open_close_balanced(level: nat)
    ensures
        level_below(level + 1) == level,
{
}

/// Rust code generator: emits structs, enums and stub encode/decode methods
/// for the packages of a schema, keeping track of the indentation.
pub struct RustCodeGen {
    cw: CodeWriter,
}

impl Default for RustCodeGen {
    fn default() -> (r: Self)
        ensures
            r.indent() == 0,
    {
        RustCodeGen { cw: CodeWriter::rust() }
    }
}

impl RustCodeGen {
    /// The current indentation level.
    pub closed spec fn indent(&self) -> nat {
        self.cw.indent_level()
    }

    /// Creates a new Rust code generator, at indentation level 0.
    pub fn new() -> (r: Self)
        ensures
            r.indent() == 0,
    {
        RustCodeGen { cw: CodeWriter::rust() }
    }

    /// The code writer, which tracks the indentation.
    pub fn code_writer(&self) -> (r: &CodeWriter)
        ensures
            r.indent_level() == self.indent(),
    {
        &self.cw
    }

    /// The code writer, for changing the indentation.
    pub fn code_writer_mut(&mut self) -> (r: &mut CodeWriter)
        ensures
            r.indent_level() == old(self).indent(),
            final(self).indent() == final(r).indent_level(),
    {
        &mut self.cw
    }

    /// The relative path of the file generated for `pkg`.
    pub fn file_path(&self, pkg: &ir::Package) -> (r: String)
        ensures
            r@ == package_file_path(pkg.path@),
    {
        self.package_to_path(pkg.path.as_str())
    }

    /// Writes the file header of a package: its doc comment and imports.
    pub fn gen_package_begin<W: Writer>(&mut self, pkg: &ir::Package, w: &mut W) -> (r: Result<
        (),
        WriteError,
    >)
        ensures
            old(w).infallible() ==> r is Ok && final(w).infallible(),
            final(self).indent() == old(self).indent(),
            r is Ok ==> final(w).written() == old(w).written() + lines_text(
                package_begin_lines(pkg.path@),
                old(self).indent(),
            ),
    {
        let mut out = CodeText::new(self.cw.level());
        let mut head = String::from_str("//! Generated code for package `");
        head.append(pkg.path.as_str());
        head.append("`.");
        out.line(0, head.as_str());
        out.line(0, "//!");
        out.line(0, "//! This file was automatically generated by baproto.");
        out.line(0, "//! Do not edit manually.");
        out.blank();
        out.line(0, "use std::collections::HashMap;");
        out.line(0, "use std::io::{Read, Write};");
        out.blank();
        assert(out.lines() =~= package_begin_lines(pkg.path@));
        out.write_to(w)
    }

    /// Ends a package's file; a Rust module needs no footer.
    pub fn gen_package_end<W: Writer>(&mut self, _pkg: &ir::Package, w: &mut W) -> (r: Result<
        (),
        WriteError,
    >)
        ensures
            r is Ok,
            final(self).indent() == old(self).indent(),
            *final(w) == *old(w),
    {
        Ok(())
    }

    /// Opens a message's struct and indents for its fields.
    pub fn gen_message_begin<W: Writer>(&mut self, msg: &ir::Message, w: &mut W) -> (r: Result<
        (),
        WriteError,
    >)
        requires
            old(self).indent() < usize::MAX,
        ensures
            old(w).infallible() ==> r is Ok && final(w).infallible(),
            r is Ok ==> final(w).written() == old(w).written() + lines_text(
                message_begin_lines(*msg),
                old(self).indent(),
            ),
            final(self).indent() == if r is Ok {
                old(self).indent() + 1
            } else {
                old(self).indent()
            },
    {
        let mut out = CodeText::new(self.cw.level());
        out.comment_opt(0, &msg.doc);
        out.line(0, "#[derive(Debug, Clone, PartialEq)]");
        let mut head = String::from_str("pub struct ");
        head.append(name_or_empty(msg.name()));
        head.append(" {");
        out.line(0, head.as_str());
        assert(out.lines() =~= message_begin_lines(*msg));
        let r = out.write_to(w);
        if r.is_ok() {
            self.cw.indent();
        }
        r
    }

    /// Closes a message's struct, then writes its `impl` block (constructor
    /// with default field values, encode and decode stubs) and its `Default`
    /// impl, one indentation level out.
    pub fn gen_message_end<W: Writer>(&mut self, msg: &ir::Message, w: &mut W) -> (r: Result<
        (),
        WriteError,
    >)
        ensures
            old(w).infallible() ==> r is Ok && final(w).infallible(),
            final(self).indent() == level_below(old(self).indent()),
            r is Ok ==> final(w).written() == old(w).written() + lines_text(
                message_end_lines(*msg),
                level_below(old(self).indent()),
            ),
    {
        self.cw.outdent();
        let name = name_or_empty(msg.name());
        let mut out = CodeText::new(self.cw.level());
        out.line(0, "}");
        out.blank();
        let mut head = String::from_str("impl ");
        head.append(name);
        head.append(" {");
        out.line(0, head.as_str());
        out.line(1, "/// Creates a new instance with default values.");
        out.line(1, "pub fn new() -> Self {");
        out.line(2, "Self {");
        let ghost start = out.lines();
        assert(start =~= message_end_head(message_name(*msg)));
        let ghost g = |f: ir::Field| field_default_line(f);
        let mut i: usize = 0;
        while i < msg.fields.len()
            invariant
                out.wf(),
                out.base() == self.cw.indent_level(),
                start == message_end_head(message_name(*msg)),
                g == (|f: ir::Field| field_default_line(f)),
                i <= msg.fields.len(),
                out.lines() == start + msg.fields@.take(i as int).map_values(g),
            decreases msg.fields.len() - i,
        {
            let f = &msg.fields[i];
            let mut line = f.name.clone();
            line.append(": ");
            let d = self.default_value(&f.encoding.native);
            line.append(d.as_str());
            line.append(",");
            out.line(3, line.as_str());
            proof {
                assert(msg.fields@.take(i + 1).map_values(g) =~= msg.fields@.take(
                    i as int,
                ).map_values(g).push(g(msg.fields@[i as int])));
                assert(out.lines() =~= start + msg.fields@.take(i + 1).map_values(g));
            }
            i = i + 1;
        }
        let ghost mid = out.lines();
        assert(msg.fields@.take(i as int) =~= msg.fields@);
        out.line(2, "}");
        out.line(1, "}");
        out.blank();
        out.line(1, "/// Encodes this message to a writer.");
        out.line(1, "pub fn encode(&self, _writer: &mut [u8]) -> std::io::Result<()> {");
        out.line(2, "todo!(\"serialization not yet implemented\")");
        out.line(1, "}");
        out.blank();
        out.line(1, "/// Decodes a message from a reader.");
        out.line(1, "pub fn decode(_reader: &[u8]) -> std::io::Result<Self> {");
        out.line(2, "todo!(\"deserialization not yet implemented\")");
        out.line(1, "}");
        out.line(0, "}");
        out.blank();
        let mut dflt = String::from_str("impl Default for ");
        dflt.append(name);
        dflt.append(" {");
        out.line(0, dflt.as_str());
        out.line(1, "fn default() -> Self {");
        out.line(2, "Self::new()");
        out.line(1, "}");
        out.line(0, "}");
        out.blank();
        assert(out.lines() =~= mid + message_end_tail(message_name(*msg)));
        assert(out.lines() =~= message_end_lines(*msg));
        out.write_to(w)
    }

    /// Opens an enum and indents for its variants.
    pub fn gen_enum_begin<W: Writer>(&mut self, e: &ir::Enum, w: &mut W) -> (r: Result<
        (),
        WriteError,
    >)
        requires
            old(self).indent() < usize::MAX,
        ensures
            old(w).infallible() ==> r is Ok && final(w).infallible(),
            r is Ok ==> final(w).written() == old(w).written() + lines_text(
                enum_begin_lines(*e),
                old(self).indent(),
            ),
            final(self).indent() == if r is Ok {
                old(self).indent() + 1
            } else {
                old(self).indent()
            },
    {
        let mut out = CodeText::new(self.cw.level());
        out.comment_opt(0, &e.doc);
        out.line(0, "#[derive(Debug, Clone, Copy, PartialEq, Eq)]");
        let mut head = String::from_str("pub enum ");
        head.append(name_or_empty(e.name()));
        head.append(" {");
        out.line(0, head.as_str());
        assert(out.lines() =~= enum_begin_lines(*e));
        let r = out.write_to(w);
        if r.is_ok() {
            self.cw.indent();
        }
        r
    }

    /// Closes an enum, one indentation level out.
    pub fn gen_enum_end<W: Writer>(&mut self, _e: &ir::Enum, w: &mut W) -> (r: Result<
        (),
        WriteError,
    >)
        ensures
            old(w).infallible() ==> r is Ok && final(w).infallible(),
            final(self).indent() == level_below(old(self).indent()),
            r is Ok ==> final(w).written() == old(w).written() + lines_text(
                enum_end_lines(),
                level_below(old(self).indent()),
            ),
    {
        self.cw.outdent();
        let mut out = CodeText::new(self.cw.level());
        out.line(0, "}");
        out.blank();
        assert(out.lines() =~= enum_end_lines());
        out.write_to(w)
    }

    /// Writes a struct field, its type seen from `current_package`.
    pub fn gen_field<W: Writer>(
        &mut self,
        field: &ir::Field,
        current_package: &str,
        w: &mut W,
    ) -> (r: Result<(), WriteError>)
        ensures
            old(w).infallible() ==> r is Ok && final(w).infallible(),
            final(self).indent() == old(self).indent(),
            r is Ok ==> final(w).written() == old(w).written() + lines_text(
                field_lines(*field, current_package@),
                old(self).indent(),
            ),
    {
        let mut out = CodeText::new(self.cw.level());
        out.comment_opt(0, &field.doc);
        let mut line = String::from_str("pub ");
        line.append(field.name.as_str());
        line.append(": ");
        let ty = self.rust_type_name(&field.encoding.native, current_package);
        line.append(ty.as_str());
        line.append(",");
        out.line(0, line.as_str());
        assert(out.lines() =~= field_lines(*field, current_package@));
        out.write_to(w)
    }

    /// Writes an enum variant, the type of its field seen from
    /// `current_package`.
    pub fn gen_variant<W: Writer>(
        &mut self,
        variant: &ir::Variant,
        current_package: &str,
        w: &mut W,
    ) -> (r: Result<(), WriteError>)
        ensures
            old(w).infallible() ==> r is Ok && final(w).infallible(),
            final(self).indent() == old(self).indent(),
            r is Ok ==> final(w).written() == old(w).written() + lines_text(
                variant_lines(*variant, current_package@),
                old(self).indent(),
            ),
    {
        let mut out = CodeText::new(self.cw.level());
        match variant {
            ir::Variant::Unit { name, doc, .. } => {
                out.comment_opt(0, doc);
                let mut line = name.clone();
                line.append(",");
                out.line(0, line.as_str());
            },
            ir::Variant::Field { name, field, doc, .. } => {
                out.comment_opt(0, doc);
                let mut line = name.clone();
                line.append("(");
                let ty = self.rust_type_name(&field.encoding.native, current_package);
                line.append(ty.as_str());
                line.append("),");
                out.line(0, line.as_str());
            },
        }
        assert(out.lines() =~= variant_lines(*variant, current_package@));
        out.write_to(w)
    }

    /// Converts a package path to a relative file path, e.g. `foo.bar` to
    /// `foo/bar.rs`.
    pub fn package_to_path(&self, package_path: &str) -> (r: String)
        ensures
            r@ == package_file_path(package_path@),
    {
        let parts = split_char(package_path, '.');
        proof {
            lemma_split_nonempty(package_path@, '.');
        }
        let ghost t = texts(parts@);
        let mut pieces: Vec<String> = Vec::new();
        let mut i: usize = 0;
        while i + 1 < parts.len()
            invariant
                t == texts(parts@),
                parts@.len() >= 1,
                i + 1 <= parts@.len(),
                texts(pieces@) == nonempty_pieces(t.take(i as int)),
            decreases parts.len() - i,
        {
            proof {
                assert(t.take(i + 1).drop_last() =~= t.take(i as int));
                assert(t.take(i + 1).last() == t[i as int]);
            }
            if parts[i].as_str().is_empty() {
            } else {
                let ghost before = pieces@;
                pieces.push(parts[i].clone());
                proof {
                    assert(texts(pieces@) =~= texts(before).push(t[i as int]));
                }
            }
            i = i + 1;
        }
        proof {
            assert(t.take(i as int) =~= t.drop_last());
        }
        let mut file = parts[parts.len() - 1].clone();
        file.append(".rs");
        let ghost before = pieces@;
        pieces.push(file);
        proof {
            assert(texts(pieces@) =~= texts(before).push(t.last() + ".rs"@));
        }
        join_strings(&pieces, "/")
    }

    /// Converts a descriptor to a Rust type name: same-package types use
    /// their bare name, others a `crate::` qualified path.
    pub fn descriptor_to_rust_type(&self, descriptor: &str, current_package: &str) -> (r: String)
        ensures
            r@ == descriptor_rust_type(descriptor@, current_package@),
    {
        let parts = split_char(descriptor, '.');
        let current = split_char(current_package, '.');
        proof {
            lemma_split_nonempty(descriptor@, '.');
        }
        let ghost tp = texts(parts@);
        let ghost tc = texts(current@);
        let mut same = parts.len() > current.len();
        if same {
            let mut i: usize = 0;
            while i < current.len()
                invariant
                    tp == texts(parts@),
                    tc == texts(current@),
                    parts@.len() > current@.len(),
                    i <= current@.len(),
                    same == (forall|j: int| 0 <= j < i ==> tp[j] == tc[j]),
                decreases current.len() - i,
            {
                assert(tp[i as int] == parts@[i as int]@ && tc[i as int] == current@[i as int]@);
                if !(parts[i] == current[i]) {
                    same = false;
                }
                i = i + 1;
            }
            proof {
                if same {
                    assert(tp.take(tc.len() as int) =~= tc);
                } else {
                    let j = choose|j: int| 0 <= j < tc.len() && tp[j] != tc[j];
                    assert(tp.take(tc.len() as int)[j] == tp[j]);
                }
            }
        }
        if same {
            parts[parts.len() - 1].clone()
        } else {
            let mut out = String::from_str("crate::");
            let joined = join_strings(&parts, "::");
            out.append(joined.as_str());
            out
        }
    }

    /// The Rust type for a native type, seen from `current_package`.
    pub fn rust_type_name(&self, native: &NativeType, current_package: &str) -> (r: String)
        ensures
            r@ == spec_rust_type(*native, current_package@),
        decreases native,
    {
        match native {
            NativeType::Bool => String::from_str("bool"),
            NativeType::Int { bits, signed } => {
                let mut s = if *signed {
                    String::from_str("i")
                } else {
                    String::from_str("u")
                };
                push_decimal(&mut s, *bits as u64);
                s
            },
            NativeType::Float { bits } => {
                let mut s = String::from_str("f");
                push_decimal(&mut s, *bits as u64);
                s
            },
            NativeType::String => String::from_str("String"),
            NativeType::Bytes => String::from_str("Vec<u8>"),
            NativeType::Array { element } => {
                let inner = self.rust_type_name(&element.native, current_package);
                let mut s = String::from_str("Vec<");
                s.append(inner.as_str());
                s.append(">");
                s
            },
            NativeType::Mapping { key, value } => {
                let k = self.rust_type_name(&key.native, current_package);
                let v = self.rust_type_name(&value.native, current_package);
                let mut s = String::from_str("HashMap<");
                s.append(k.as_str());
                s.append(", ");
                s.append(v.as_str());
                s.append(">");
                s
            },
            NativeType::Message { descriptor } => self.descriptor_to_rust_type(
                descriptor.as_str(),
                current_package,
            ),
            NativeType::Enum { descriptor } => self.descriptor_to_rust_type(
                descriptor.as_str(),
                current_package,
            ),
        }
    }

    /// A default value expression for a native type.
    pub fn default_value(&self, native: &NativeType) -> (r: String)
        ensures
            r@ == rust_default_value(*native),
    {
        match native {
            NativeType::Bool => String::from_str("false"),
            NativeType::Int { .. } => String::from_str("0"),
            NativeType::Float { .. } => String::from_str("0.0"),
            NativeType::String => String::from_str("String::new()"),
            NativeType::Bytes => String::from_str("Vec::new()"),
            NativeType::Array { .. } => String::from_str("Vec::new()"),
            NativeType::Mapping { .. } => String::from_str("HashMap::new()"),
            NativeType::Message { descriptor } => {
                let mut s = last_piece(descriptor.as_str());
                s.append("::new()");
                s
            },
            NativeType::Enum { descriptor } => {
                let mut s = last_piece(descriptor.as_str());
                s.append("::default()");
                s
            },
        }
    }
}

/// A name, or the empty text where there is none.
fn name_or_empty(name: Option<&str>) -> (r: &str)
    ensures
        r@ == match name {
            Some(n) => n@,
            None => Seq::empty(),
        },
{
    match name {
        Some(n) => n,
        None => {
            proof {
                reveal_strlit("");
            }
            assert(""@ =~= Seq::<char>::empty());
            ""
        },
    }
}

/// The last piece of `s` after splitting at `.`.
fn last_piece(s: &str) -> (r: String)
    ensures
        r@ == last_segment(s@),
{
    let parts = split_char(s, '.');
    proof {
        lemma_split_nonempty(s@, '.');
    }
    parts[parts.len() - 1].clone()
}

} // verus!
