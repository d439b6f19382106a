//! Code generation framework for schemas.
//!
//! Generators are either native (implementations of [`Generator`]) or
//! external binaries that receive the JSON-serialized schema on stdin and
//! answer with `{"files": {"<relative path>": "<content>"}}` on stdout.

use vstd::prelude::*;

pub mod code;
pub mod codegen;
pub mod external;
pub mod generator;
pub mod writer;

pub use code::{CodeWriter, StringWriter, WriteError, Writer};
pub use codegen::RustCodeGen;
pub use external::ExternalGenerator;
pub use generator::Generator;
pub use writer::FileWriter;

verus! {

#[verifier::external_type_specification]
#[verifier::external_body]
pub struct ExIoError(std::io::Error);

/// The map from paths to contents described by `entries`, later entries
/// overriding earlier ones.
pub open spec fn entries_map(entries: Seq<(String, String)>) -> Map<Seq<char>, Seq<char>>
    decreases entries.len(),
{
    if entries.len() == 0 {
        Map::empty()
    } else {
        entries_map(entries.drop_last()).insert(entries.last().0@, entries.last().1@)
    }
}

/// No two entries share a path.
pub open spec fn distinct_paths(entries: Seq<(String, String)>) -> bool {
    forall|i: int, j: int|
        0 <= i < entries.len() && 0 <= j < entries.len() && i != j ==> (#[trigger] entries[i]).0@
            != (#[trigger] entries[j]).0@
}

proof fn lemma_entries_map_dom(entries: Seq<(String, String)>, k: Seq<char>)
    ensures
        entries_map(entries).dom().contains(k) <==> exists|i: int|
            0 <= i < entries.len() && (#[trigger] entries[i]).0@ == k,
    decreases entries.len(),
{
    if entries.len() > 0 {
        lemma_entries_map_dom(entries.drop_last(), k);
        if entries_map(entries.drop_last()).dom().contains(k) {
            let i = choose|i: int| 0 <= i < entries.drop_last().len() && (
            #[trigger] entries.drop_last()[i]).0@ == k;
            assert(entries[i] == entries.drop_last()[i]);
        }
        if exists|i: int| 0 <= i < entries.len() && (#[trigger] entries[i]).0@ == k {
            let i = choose|i: int| 0 <= i < entries.len() && (#[trigger] entries[i]).0@ == k;
            if i < entries.len() - 1 {
                assert(entries.drop_last()[i] == entries[i]);
            }
        }
    }
}

proof fn lemma_entries_map_update(entries: Seq<(String, String)>, i: int, e: (String, String))
    requires
        distinct_paths(entries),
        0 <= i < entries.len(),
        entries[i].0@ == e.0@,
    ensures
        entries_map(entries.update(i, e)) == entries_map(entries).insert(e.0@, e.1@),
        distinct_paths(entries.update(i, e)),
    decreases entries.len(),
{
    let u = entries.update(i, e);
    if i == entries.len() - 1 {
        assert(u.drop_last() =~= entries.drop_last());
        assert(entries_map(u) =~= entries_map(entries).insert(e.0@, e.1@));
    } else {
        assert(u.drop_last() =~= entries.drop_last().update(i, e));
        lemma_entries_map_update(entries.drop_last(), i, e);
        assert(entries.last().0@ != e.0@) by {
            assert(entries[entries.len() - 1] == entries.last());
        }
        assert(entries_map(u) =~= entries_map(entries).insert(e.0@, e.1@));
    }
    assert forall|a: int, b: int| 0 <= a < u.len() && 0 <= b < u.len() && a != b implies (
    #[trigger] u[a]).0@ != (#[trigger] u[b]).0@ by {
        if a != i && b != i {
            assert(u[a] == entries[a] && u[b] == entries[b]);
        } else if a == i {
            assert(u[b] == entries[b]);
        } else {
            assert(u[a] == entries[a]);
        }
    }
}

/// Adding a file at `path` (whose output goes from `before` to
/// `before.insert(path, content)`) makes `get` find `content` there, leaves
/// every other path as it was, and adds one file unless the path was
/// present already.
pub proof fn lemma_add_then_get(
    before: Map<Seq<char>, Seq<char>>,
    path: Seq<char>,
    content: Seq<char>,
    other: Seq<char>,
)
    requires
        before.dom().finite(),
    ensures
        before.insert(path, content).dom().contains(path),
        before.insert(path, content)[path] == content,
        other != path ==> before.insert(path, content).dom().contains(other) == before.dom().contains(
            other,
        ),
        other != path && before.dom().contains(other) ==> before.insert(path, content)[other]
            == before[other],
        before.insert(path, content).len() == if before.dom().contains(path) {
            before.len()
        } else {
            before.len() + 1
        },
{
    if before.dom().contains(path) {
        assert(before.insert(path, content).dom() =~= before.dom());
    }
}

/// Output of a generator: relative file paths and their generated contents.
#[derive(Debug)]
pub struct GeneratorOutput {
    files: Vec<(String, String)>,
}

impl View for GeneratorOutput {
    type V = Map<Seq<char>, Seq<char>>;

    closed spec fn view(&self) -> Map<Seq<char>, Seq<char>> {
        entries_map(self.files@)
    }
}

impl GeneratorOutput {
    #[verifier::type_invariant]
    spec fn wf(&self) -> bool {
        distinct_paths(self.files@)
    }

    /// Creates an empty output.
    pub fn new() -> (r: Self)
        ensures
            r@ == Map::<Seq<char>, Seq<char>>::empty(),
            r@.dom().finite(),
    {
        GeneratorOutput { files: Vec::new() }
    }

    /// Adds a file, replacing any earlier content at the same path.
    pub fn add(&mut self, path: &str, content: &str)
        ensures
            final(self)@ == old(self)@.insert(path@, content@),
            old(self)@.dom().finite(),
            final(self)@.dom().finite(),
            final(self)@.len() == if old(self)@.dom().contains(path@) {
                old(self)@.len()
            } else {
                old(self)@.len() + 1
            },
    {
        proof {
            use_type_invariant(&*self);
            lemma_entries_map_len(self.files@);
            lemma_add_then_get(self@, path@, content@, path@);
        }
        let key = path.to_owned();
        let entry = (path.to_owned(), content.to_owned());
        let mut i: usize = 0;
        while i < self.files.len()
            invariant
                i <= self.files.len(),
                key@ == path@,
                self.files@ == old(self).files@,
                old(self)@.dom().finite(),
                old(self)@.insert(path@, content@).len() == if old(self)@.dom().contains(path@) {
                    old(self)@.len()
                } else {
                    old(self)@.len() + 1
                },
                entry.0@ == path@,
                entry.1@ == content@,
                distinct_paths(self.files@),
                forall|j: int| 0 <= j < i ==> (#[trigger] self.files@[j]).0@ != path@,
            decreases self.files.len() - i,
        {
            if self.files[i].0 == key {
                proof {
                    lemma_entries_map_update(self.files@, i as int, entry);
                }
                let mut files: Vec<(String, String)> = Vec::new();
        std::mem::swap(&mut files, &mut self.files);
                files.set(i, entry);
                proof {
                    lemma_entries_map_len(files@);
                }
                self.files = files;
                return ;
            }
            i = i + 1;
        }
        proof {
            lemma_entries_map_dom(self.files@, path@);
        }
        let mut files: Vec<(String, String)> = Vec::new();
        std::mem::swap(&mut files, &mut self.files);
        let ghost before = files@;
        files.push(entry);
        assert(files@.drop_last() =~= before);
        proof {
            lemma_entries_map_len(files@);
        }
        self.files = files;
    }

    /// The number of files.
    pub fn len(&self) -> (r: usize)
        ensures
            r == self@.len(),
            self@.dom().finite(),
    {
        proof {
            use_type_invariant(self);
            lemma_entries_map_len(self.files@);
        }
        self.files.len()
    }

    /// The content stored at `path`, if any.
    pub fn get(&self, path: &str) -> (r: Option<&String>)
        ensures
            match r {
                Some(c) => self@.dom().contains(path@) && self@[path@] == c@,
                None => !self@.dom().contains(path@),
            },
    {
        proof {
            use_type_invariant(self);
        }
        let key = path.to_owned();
        let mut i: usize = 0;
        while i < self.files.len()
            invariant
                i <= self.files.len(),
                key@ == path@,
                distinct_paths(self.files@),
                forall|j: int| 0 <= j < i ==> (#[trigger] self.files@[j]).0@ != path@,
            decreases self.files.len() - i,
        {
            if self.files[i].0 == key {
                proof {
                    lemma_entries_map_lookup(self.files@, i as int);
                }
                return Some(&self.files[i].1);
            }
            i = i + 1;
        }
        proof {
            lemma_entries_map_dom(self.files@, path@);
        }
        None
    }

    /// All `(path, content)` entries, each path once, in no particular order.
    pub fn entries(&self) -> (r: &Vec<(String, String)>)
        ensures
            entries_map(r@) == self@,
            distinct_paths(r@),
    {
        proof {
            use_type_invariant(self);
        }
        &self.files
    }
}

proof fn lemma_entries_map_lookup(entries: Seq<(String, String)>, i: int)
    requires
        distinct_paths(entries),
        0 <= i < entries.len(),
    ensures
        entries_map(entries).dom().contains(entries[i].0@),
        entries_map(entries)[entries[i].0@] == entries[i].1@,
    decreases entries.len(),
{
    if i < entries.len() - 1 {
        assert(entries.drop_last()[i] == entries[i]);
        assert(distinct_paths(entries.drop_last()));
        lemma_entries_map_lookup(entries.drop_last(), i);
        assert(entries[entries.len() - 1].0@ != entries[i].0@);
    }
}

proof fn lemma_entries_map_len(entries: Seq<(String, String)>)
    requires
        distinct_paths(entries),
    ensures
        entries_map(entries).dom().finite(),
        entries_map(entries).len() == entries.len(),
    decreases entries.len(),
{
    if entries.len() > 0 {
        let d = entries.drop_last();
        assert(distinct_paths(d));
        lemma_entries_map_len(d);
        lemma_entries_map_dom(d, entries.last().0@);
        if entries_map(d).dom().contains(entries.last().0@) {
            let i = choose|i: int| 0 <= i < d.len() && (#[trigger] d[i]).0@ == entries.last().0@;
            assert(entries[i] == d[i]);
            assert(entries[entries.len() - 1] == entries.last());
        }
    }
}

/// Errors that can occur during code generation.
#[derive(Debug)]
pub enum GeneratorError {
    /// Failed to serialize the schema for an external generator.
    Serialization(String),
    /// An external generator process failed.
    Process(String),
    /// An external generator produced invalid output.
    InvalidOutput(String),
    /// General generation failure.
    Generation(String),
    /// I/O error during generation.
    Io(std::io::Error),
}

} // verus!
