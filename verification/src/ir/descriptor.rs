//! Descriptors: fully qualified type names.

use vstd::prelude::*;
use vstd::string::StringExecFns;

use crate::text::{join, join_strings, lemma_texts_push, lemma_texts_take, texts};

verus! {

/// Uniquely identifies a type: its package and its path of enclosing types,
/// ending with the type's own name.
#[derive(Debug, Clone, PartialEq)]
pub struct Descriptor {
    /// Package components, e.g. `["foo", "bar"]`.
    pub package: Vec<String>,
    /// Enclosing type names followed by the type's name.
    pub path: Vec<String>,
}

/// The dotted text of a descriptor: package components, then path components.
pub open spec fn descriptor_text(package: Seq<Seq<char>>, path: Seq<Seq<char>>) -> Seq<char> {
    join(package + path, "."@)
}

impl Descriptor {
    /// The name of the described type (its last path component).
    pub fn name(&self) -> (r: Option<&str>)
        ensures
            r.is_some() == (self.path@.len() > 0),
            r matches Some(n) ==> n@ == self.path@.last()@,
    {
        if self.path.len() == 0 {
            None
        } else {
            Some(self.path[self.path.len() - 1].as_str())
        }
    }

    /// The descriptor extended by one more path component.
    pub fn child(&self, name: &str) -> (r: Descriptor)
        ensures
            texts(r.package@) == texts(self.package@),
            texts(r.path@) == texts(self.path@).push(name@),
    {
        let mut path: Vec<String> = Vec::new();
        let mut i: usize = 0;
        while i < self.path.len()
            invariant
                i <= self.path.len(),
                texts(path@) == texts(self.path@).take(i as int),
            decreases self.path.len() - i,
        {
            let ghost before = path@;
            let c = self.path[i].clone();
            path.push(c);
            proof {
                lemma_texts_push(before, c);
                lemma_texts_take(self.path@, i as int);
            }
            i = i + 1;
        }
        proof {
            assert(texts(self.path@).take(self.path@.len() as int) =~= texts(self.path@));
        }
        let ghost before = path@;
        let n = name.to_owned();
        path.push(n);
        proof {
            lemma_texts_push(before, n);
        }
        let package = clone_strings(&self.package);
        Descriptor { package, path }
    }

    /// The dotted form, e.g. `foo.bar.Outer.Inner`.
    pub fn to_string(&self) -> (r: String)
        ensures
            r@ == descriptor_text(texts(self.package@), texts(self.path@)),
    {
        let all = concat_strings(&self.package, &self.path);
        join_strings(&all, ".")
    }
}

/// A copy of a vector of strings.
pub fn clone_strings(v: &Vec<String>) -> (r: Vec<String>)
    ensures
        texts(r@) == texts(v@),
{
    let mut out: Vec<String> = Vec::new();
    let mut i: usize = 0;
    while i < v.len()
        invariant
            i <= v.len(),
            texts(out@) == texts(v@).take(i as int),
        decreases v.len() - i,
    {
        let ghost before = out@;
        let c = v[i].clone();
        out.push(c);
        proof {
            lemma_texts_push(before, c);
            lemma_texts_take(v@, i as int);
        }
        i = i + 1;
    }
    assert(texts(v@).take(v.len() as int) =~= texts(v@));
    out
}

/// The strings of `a` followed by those of `b`.
pub fn concat_strings(a: &Vec<String>, b: &Vec<String>) -> (r: Vec<String>)
    ensures
        texts(r@) == texts(a@) + texts(b@),
{
    let mut out = clone_strings(a);
    let mut i: usize = 0;
    while i < b.len()
        invariant
            i <= b.len(),
            texts(out@) == texts(a@) + texts(b@).take(i as int),
        decreases b.len() - i,
    {
        let ghost before = out@;
        let c = b[i].clone();
        out.push(c);
        proof {
            lemma_texts_push(before, c);
            lemma_texts_take(b@, i as int);
            assert(texts(a@) + texts(b@).take(i + 1) =~= (texts(a@) + texts(b@).take(i as int)).push(c@));
        }
        i = i + 1;
    }
    assert(texts(b@).take(b.len() as int) =~= texts(b@));
    out
}

} // verus!
