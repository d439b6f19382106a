//! Validated references to named types in a schema.

use vstd::prelude::*;
use vstd::string::StringExecFns;

use crate::text::{all_word, all_word_chars, join, texts, AsText};

verus! {

/// Errors raised when a [`Reference`] is constructed from invalid parts.
#[derive(Debug, Clone, PartialEq)]
pub enum ReferenceError {
    /// The reference name is empty.
    EmptyName,
    /// The reference name holds a character outside `[a-zA-Z0-9_]`.
    InvalidNameCharacters(String),
    /// A path segment holds a character outside `[a-zA-Z0-9_]`.
    InvalidPathCharacters(String),
}

impl ReferenceError {
    /// The human readable description of the error.
    pub fn message(&self) -> (r: String)
        ensures
            r@ == self.message_text(),
    {
        match self {
            ReferenceError::EmptyName => String::from_str("reference name cannot be empty"),
            ReferenceError::InvalidNameCharacters(name) => {
                let mut s = String::from_str("invalid reference name '");
                s.append(name.as_str());
                s.append("' (only [a-zA-Z0-9_] allowed)");
                s
            },
            ReferenceError::InvalidPathCharacters(seg) => {
                let mut s = String::from_str("invalid path segment '");
                s.append(seg.as_str());
                s.append("' (only [a-zA-Z0-9_] allowed)");
                s
            },
        }
    }

    pub open spec fn message_text(&self) -> Seq<char> {
        match self {
            ReferenceError::EmptyName => "reference name cannot be empty"@,
            ReferenceError::InvalidNameCharacters(name) => "invalid reference name '"@ + name@
                + "' (only [a-zA-Z0-9_] allowed)"@,
            ReferenceError::InvalidPathCharacters(seg) => "invalid path segment '"@ + seg@
                + "' (only [a-zA-Z0-9_] allowed)"@,
        }
    }
}

/// A validated reference to another type in the schema.
///
/// References are either absolute (written with a leading `.`) or relative
/// (resolved from the current scope outward). The name is non-empty and the
/// name and every path segment hold only ASCII letters, digits and `_`.
#[derive(Debug, PartialEq)]
pub struct Reference {
    absolute: bool,
    path: Vec<String>,
    name: String,
}

/// The abstract value of a [`Reference`].
pub struct ReferenceView {
    pub absolute: bool,
    pub path: Seq<Seq<char>>,
    pub name: Seq<char>,
}


/// A reference name is valid when it is non-empty and made of word characters.
pub open spec fn valid_name(name: Seq<char>) -> bool {
    name.len() > 0 && all_word_chars(name)
}

/// Every path segment is made of word characters.
pub open spec fn valid_path(path: Seq<Seq<char>>) -> bool {
    forall|i: int| 0 <= i < path.len() ==> all_word_chars(#[trigger] path[i])
}

/// Index of the first path segment that holds an invalid character.
pub open spec fn first_invalid_segment(path: Seq<Seq<char>>) -> int
    decreases path.len(),
{
    if path.len() == 0 {
        0
    } else if !all_word_chars(path[0]) {
        0
    } else {
        1 + first_invalid_segment(path.drop_first())
    }
}

/// The textual form of a reference: `[.]seg.seg.Name`.
pub open spec fn reference_text(r: ReferenceView) -> Seq<char> {
    (if r.absolute { "."@ } else { Seq::empty() }) + join(r.path, "."@) + (if r.path.len()
        > 0 {
        "."@
    } else {
        Seq::empty()
    }) + r.name
}

/// The outcome of building a reference from `path`, `name` and `absolute`.
pub open spec fn build_reference(path: Seq<Seq<char>>, name: Seq<char>, absolute: bool) -> Result<
    ReferenceView,
    ReferenceError,
> {
    if name.len() == 0 {
        Err(ReferenceError::EmptyName)
    } else if !all_word_chars(name) {
        Err(ReferenceError::InvalidNameCharacters(arbitrary()))
    } else if !valid_path(path) {
        Err(ReferenceError::InvalidPathCharacters(arbitrary()))
    } else {
        Ok(ReferenceView { absolute, path, name })
    }
}

impl View for Reference {
    type V = ReferenceView;

    closed spec fn view(&self) -> ReferenceView {
        ReferenceView { absolute: self.absolute, path: texts(self.path@), name: self.name@ }
    }
}

/// The texts of each element of a sequence of text values.
pub open spec fn text_seq<T: AsText>(v: Seq<T>) -> Seq<Seq<char>> {
    v.map_values(|t: T| t.text())
}

/// Relates a result of [`Reference::try_new_absolute`] (and friends) to its inputs.
pub open spec fn reference_result(
    r: Result<Reference, ReferenceError>,
    path: Seq<Seq<char>>,
    name: Seq<char>,
    absolute: bool,
) -> bool {
    match build_reference(path, name, absolute) {
        Ok(v) => r matches Ok(reference) && reference@ == v,
        Err(ReferenceError::EmptyName) => r == Err::<Reference, ReferenceError>(
            ReferenceError::EmptyName,
        ),
        Err(ReferenceError::InvalidNameCharacters(_)) => r matches Err(
            ReferenceError::InvalidNameCharacters(n),
        ) && n@ == name,
        Err(ReferenceError::InvalidPathCharacters(_)) => r matches Err(
            ReferenceError::InvalidPathCharacters(seg),
        ) && seg@ == path[first_invalid_segment(path)],
    }
}

impl Reference {
    #[verifier::type_invariant]
    spec fn wf(&self) -> bool {
        valid_name(self.name@) && valid_path(texts(self.path@))
    }

    /// Whether the reference is absolute (written with a leading `.`).
    pub fn is_absolute(&self) -> (r: bool)
        ensures
            r == self@.absolute,
    {
        self.absolute
    }

    /// The reference's name (its final identifier).
    pub fn name(&self) -> (r: &str)
        ensures
            r@ == self@.name,
            valid_name(r@),
    {
        proof {
            use_type_invariant(self);
        }
        self.name.as_str()
    }

    /// The reference's path segments.
    pub fn path(&self) -> (r: &[String])
        ensures
            texts(r@) == self@.path,
            valid_path(self@.path),
    {
        proof {
            use_type_invariant(self);
        }
        self.path.as_slice()
    }

    /// Builds an absolute reference from the scope `path` and the `name`,
    /// validating every identifier.
    pub fn try_new_absolute<T: AsText, U: AsText>(path: Vec<T>, name: U) -> (r: Result<
        Self,
        ReferenceError,
    >)
        ensures
            reference_result(r, text_seq(path@), name.text(), true),
    {
        Self::try_new(path, name, true)
    }

    /// Builds a relative reference from the scope `path` and the `name`,
    /// validating every identifier.
    pub fn try_new_relative<T: AsText, U: AsText>(path: Vec<T>, name: U) -> (r: Result<
        Self,
        ReferenceError,
    >)
        ensures
            reference_result(r, text_seq(path@), name.text(), false),
    {
        Self::try_new(path, name, false)
    }

    fn try_new<T: AsText, U: AsText>(path: Vec<T>, name: U, absolute: bool) -> (r: Result<
        Self,
        ReferenceError,
    >)
        ensures
            reference_result(r, text_seq(path@), name.text(), absolute),
    {
        let ghost p = text_seq(path@);
        let n = name.as_text();
        if n.is_empty() {
            return Err(ReferenceError::EmptyName);
        }
        if !all_word(n) {
            return Err(ReferenceError::InvalidNameCharacters(n.to_owned()));
        }
        let mut segments: Vec<String> = Vec::new();
        let mut i: usize = 0;
        while i < path.len()
            invariant
                p == text_seq(path@),
                n@ == name.text(),
                valid_name(n@),
                i <= path.len(),
                segments@.len() == i,
                forall|j: int| 0 <= j < i ==> (#[trigger] segments@[j])@ == p[j],
                forall|j: int| 0 <= j < i ==> all_word_chars(#[trigger] p[j]),
            decreases path.len() - i,
        {
            let seg = path[i].as_text();
            assert(seg@ == p[i as int]);
            if !all_word(seg) {
                proof {
                    lemma_first_invalid(p, i as int);
                }
                return Err(ReferenceError::InvalidPathCharacters(seg.to_owned()));
            }
            segments.push(seg.to_owned());
            i = i + 1;
        }
        assert(texts(segments@) =~= p);
        let r = Reference { absolute, path: segments, name: n.to_owned() };
        Ok(r)
    }

    /// The textual form of the reference, e.g. `.foo.bar.Baz`.
    pub fn to_string(&self) -> (r: String)
        ensures
            r@ == reference_text(self@),
    {
        let mut s = if self.absolute {
            String::from_str(".")
        } else {
            String::new()
        };
        let ghost start = s@;
        let mut i: usize = 0;
        while i < self.path.len()
            invariant
                i <= self.path.len(),
                s@ == start + join(texts(self.path@).take(i as int), "."@),
            decreases self.path.len() - i,
        {
            if i > 0 {
                s.append(".");
            }
            s.append(self.path[i].as_str());
            proof {
                let t = texts(self.path@);
                assert(t.take(i + 1).drop_last() =~= t.take(i as int));
                if i == 0 {
                    assert(join(t.take(1), "."@) == t[0]);
                }
                assert(start + join(t.take(i as int), "."@) + "."@ + t[i as int] =~= start + (join(
                    t.take(i as int),
                    "."@,
                ) + "."@ + t[i as int]));
            }
            i = i + 1;
        }
        assert(texts(self.path@).take(self.path.len() as int) =~= texts(self.path@));
        if self.path.len() > 0 {
            s.append(".");
        }
        s.append(self.name.as_str());
        s
    }
}

impl Clone for Reference {
    fn clone(&self) -> (r: Self)
        ensures
            r@ == self@,
    {
        proof {
            use_type_invariant(self);
        }
        let mut path: Vec<String> = Vec::new();
        let mut i: usize = 0;
        while i < self.path.len()
            invariant
                i <= self.path.len(),
                path@.len() == i,
                forall|j: int| 0 <= j < i ==> (#[trigger] path@[j])@ == self.path@[j]@,
            decreases self.path.len() - i,
        {
            path.push(self.path[i].clone());
            i = i + 1;
        }
        assert(texts(path@) =~= texts(self.path@));
        Reference { absolute: self.absolute, path, name: self.name.clone() }
    }
}

proof fn lemma_first_invalid(p: Seq<Seq<char>>, i: int)
    requires
        0 <= i < p.len(),
        !all_word_chars(p[i]),
        forall|j: int| 0 <= j < i ==> all_word_chars(#[trigger] p[j]),
    ensures
        first_invalid_segment(p) == i,
        !valid_path(p),
    decreases i,
{
    if i > 0 {
        assert(all_word_chars(p[0]));
        assert forall|j: int| 0 <= j < i - 1 implies all_word_chars(#[trigger] p.drop_first()[j]) by {
            assert(p.drop_first()[j] == p[j + 1]);
        }
        lemma_first_invalid(p.drop_first(), i - 1);
    }
}

} // verus!
