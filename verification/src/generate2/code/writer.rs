//! Output destinations for generated code.

use vstd::prelude::*;
use vstd::string::StringExecFns;
use vstd::utf8::encode_utf8;

use crate::text::lemma_encode_concat;

verus! {

/// An error raised by a [`Writer`].
#[derive(Debug, Clone, PartialEq)]
pub struct WriteError {
    pub message: String,
}

/// An output destination for generated code.
///
/// Writers accumulate text through [`Writer::write`] calls and produce the
/// final output through [`Writer::finish`].
pub trait Writer: Sized {
    /// The text accumulated so far.
    spec fn written(&self) -> Seq<char>;

    /// Whether this writer never fails: every write and the final `finish`
    /// succeed.
    spec fn infallible(&self) -> bool;

    /// Appends text to the output.
    fn write(&mut self, text: &str) -> (r: Result<(), WriteError>)
        ensures
            r is Ok ==> final(self).written() == old(self).written() + text@,
            old(self).infallible() ==> r is Ok && final(self).infallible(),
    ;

    /// Consumes the writer and returns the accumulated output.
    fn finish(self) -> (r: Result<String, WriteError>)
        ensures
            r matches Ok(s) ==> s@ == self.written(),
            self.infallible() ==> r is Ok,
    ;
}

/// Only the empty text has an empty encoding.
pub proof fn lemma_encode_empty(s: Seq<char>)
    ensures
        (encode_utf8(s).len() == 0) == (s.len() == 0),
{
    if s.len() == 0 {
        assert(encode_utf8(s) =~= Seq::<u8>::empty());
    } else {
        assert(vstd::utf8::encode_scalar(s[0] as u32).len() >= 1);
    }
}

/// An in-memory writer that accumulates all written text in a `String`.
#[derive(Clone, Debug)]
pub struct StringWriter(String);

impl View for StringWriter {
    type V = Seq<char>;

    closed spec fn view(&self) -> Seq<char> {
        self.0@
    }
}

impl Default for StringWriter {
    fn default() -> (r: Self)
        ensures
            r@ == Seq::<char>::empty(),
    {
        StringWriter(String::new())
    }
}

impl StringWriter {
    /// Creates a new empty `StringWriter`.
    pub fn new() -> (r: Self)
        ensures
            r@ == Seq::<char>::empty(),
    {
        StringWriter(String::new())
    }

    /// The current contents.
    pub fn as_str(&self) -> (r: &str)
        ensures
            r@ == self@,
    {
        self.0.as_str()
    }

    /// The length, in bytes of UTF-8, of the accumulated text.
    pub fn len(&self) -> (r: usize)
        ensures
            r == encode_utf8(self@).len(),
            (r == 0) == (self@.len() == 0),
    {
        let bytes = self.0.as_str().as_bytes();
        proof {
            lemma_encode_empty(self@);
        }
        bytes.len()
    }

    /// Whether nothing has been written yet.
    pub fn is_empty(&self) -> (r: bool)
        ensures
            r == (self@.len() == 0),
            r == (encode_utf8(self@).len() == 0),
    {
        proof {
            lemma_encode_empty(self@);
        }
        self.0.as_str().is_empty()
    }
}

impl Writer for StringWriter {
    open spec fn written(&self) -> Seq<char> {
        self@
    }

    open spec fn infallible(&self) -> bool {
        true
    }

    /// Appends `text`; never fails.
    fn write(&mut self, text: &str) -> (r: Result<(), WriteError>)
        ensures
            r is Ok,
            final(self)@ == old(self)@ + text@,
            encode_utf8(final(self)@).len() == encode_utf8(old(self)@).len() + encode_utf8(
                text@,
            ).len(),
    {
        self.0.append(text);
        proof {
            lemma_encode_concat(old(self)@, text@);
        }
        Ok(())
    }

    /// Returns the accumulated text; never fails.
    fn finish(self) -> (r: Result<String, WriteError>)
        ensures
            r matches Ok(s) && s@ == self@,
    {
        Ok(self.0)
    }
}

} // verus!
