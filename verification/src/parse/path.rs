//! Validation of include paths.
//!
//! An include path is a `/`-separated list of segments. Each segment is
//! non-empty, holds only ASCII letters, digits, `_`, `-` and `.`, is neither
//! `.` nor `..`, and does not end with `.`. The last segment names a
//! `.baproto` file with a non-empty stem. Segments are checked in order, and
//! the file name after all segments passed.

use vstd::prelude::*;
use vstd::string::{StrSliceExecFns, StringExecFns};

use crate::text::{
    ends_with, free_of, is_ascii_alnum, join, lemma_split_join, lemma_split_nonempty, split_char, split_on, text_ends_with,
    text_eq, texts,
};

verus! {

/// Why an include path was rejected.
#[derive(Debug, Clone, PartialEq)]
pub enum ImportPathError {
    /// A segment is `.` or `..`.
    RelativeSegment(String),
    /// The path does not end with `.baproto`.
    InvalidExtension,
    /// A segment ends with `.`.
    TrailingDot(String),
    /// The file name is `.baproto` alone.
    EmptyFilename,
    /// Two separators follow each other, or the path starts or ends with one.
    EmptySegment,
    /// A character outside ASCII letters, digits, `_`, `-`, `.` and `/`.
    InvalidCharacter,
}

/// The abstract value of an [`ImportPathError`].
pub enum ImportPathErrorView {
    RelativeSegment(Seq<char>),
    InvalidExtension,
    TrailingDot(Seq<char>),
    EmptyFilename,
    EmptySegment,
    InvalidCharacter,
}

impl ImportPathError {
    pub open spec fn view_error(&self) -> ImportPathErrorView {
        match self {
            ImportPathError::RelativeSegment(s) => ImportPathErrorView::RelativeSegment(s@),
            ImportPathError::InvalidExtension => ImportPathErrorView::InvalidExtension,
            ImportPathError::TrailingDot(s) => ImportPathErrorView::TrailingDot(s@),
            ImportPathError::EmptyFilename => ImportPathErrorView::EmptyFilename,
            ImportPathError::EmptySegment => ImportPathErrorView::EmptySegment,
            ImportPathError::InvalidCharacter => ImportPathErrorView::InvalidCharacter,
        }
    }

    /// The human readable description of the error.
    pub fn message(&self) -> (r: String)
        ensures
            r@ == import_error_text(self.view_error()),
    {
        match self {
            ImportPathError::RelativeSegment(s) => {
                let mut m = String::from_str("relative segment '");
                m.append(s.as_str());
                m.append("' not allowed in import path");
                m
            },
            ImportPathError::InvalidExtension => String::from_str(
                "import path must end with '.baproto'",
            ),
            ImportPathError::TrailingDot(s) => {
                let mut m = String::from_str("path segment cannot end with '.': ");
                m.append(s.as_str());
                m
            },
            ImportPathError::EmptyFilename => String::from_str("filename cannot be just '.baproto'"),
            ImportPathError::EmptySegment => String::from_str("import path segments cannot be empty"),
            ImportPathError::InvalidCharacter => String::from_str(
                "import path may only contain ASCII letters, digits, '_', '-', '.' and '/'",
            ),
        }
    }
}

/// The description of an include path error.
pub open spec fn import_error_text(e: ImportPathErrorView) -> Seq<char> {
    match e {
        ImportPathErrorView::RelativeSegment(s) => "relative segment '"@ + s
            + "' not allowed in import path"@,
        ImportPathErrorView::InvalidExtension => "import path must end with '.baproto'"@,
        ImportPathErrorView::TrailingDot(s) => "path segment cannot end with '.': "@ + s,
        ImportPathErrorView::EmptyFilename => "filename cannot be just '.baproto'"@,
        ImportPathErrorView::EmptySegment => "import path segments cannot be empty"@,
        ImportPathErrorView::InvalidCharacter =>
            "import path may only contain ASCII letters, digits, '_', '-', '.' and '/'"@,
    }
}

/// A character allowed in a path segment.
pub open spec fn path_char(c: char) -> bool {
    is_ascii_alnum(c) || c == '_' || c == '-' || c == '.'
}

/// The reason segment `s` is rejected, if any.
pub open spec fn segment_error(s: Seq<char>) -> Option<ImportPathErrorView> {
    if s.len() == 0 {
        Some(ImportPathErrorView::EmptySegment)
    } else if !(forall|k: int| 0 <= k < s.len() ==> path_char(#[trigger] s[k])) {
        Some(ImportPathErrorView::InvalidCharacter)
    } else if s == "."@ || s == ".."@ {
        Some(ImportPathErrorView::RelativeSegment(s))
    } else if s.last() == '.' {
        Some(ImportPathErrorView::TrailingDot(s))
    } else {
        None
    }
}

/// The first rejected segment's error among `segs[k..]`.
pub open spec fn first_segment_error(segs: Seq<Seq<char>>, k: int) -> Option<ImportPathErrorView>
    decreases segs.len() - k,
{
    if 0 <= k < segs.len() {
        match segment_error(segs[k]) {
            Some(e) => Some(e),
            None => first_segment_error(segs, k + 1),
        }
    } else {
        None
    }
}

/// The segments of the include path `s`, or why it is rejected.
pub open spec fn import_path_result(s: Seq<char>) -> Result<Seq<Seq<char>>, ImportPathErrorView> {
    let segs = split_on(s, '/');
    match first_segment_error(segs, 0) {
        Some(e) => Err(e),
        None => if !ends_with(segs.last(), ".baproto"@) {
            Err(ImportPathErrorView::InvalidExtension)
        } else if segs.last() == ".baproto"@ {
            Err(ImportPathErrorView::EmptyFilename)
        } else {
            Ok(segs)
        },
    }
}

fn check_segment(s: &str) -> (r: Option<ImportPathError>)
    ensures
        match r {
            Some(e) => segment_error(s@) == Some(e.view_error()),
            None => segment_error(s@) is None,
        },
{
    let n = s.unicode_len();
    if n == 0 {
        return Some(ImportPathError::EmptySegment);
    }
    let mut i: usize = 0;
    while i < n
        invariant
            n == s@.len(),
            i <= n,
            forall|k: int| 0 <= k < i ==> path_char(#[trigger] s@[k]),
        decreases n - i,
    {
        let c = s.get_char(i);
        let ok = ('a' <= c && c <= 'z') || ('A' <= c && c <= 'Z') || ('0' <= c && c <= '9') || c
            == '_' || c == '-' || c == '.';
        if !ok {
            assert(!path_char(s@[i as int]));
            return Some(ImportPathError::InvalidCharacter);
        }
        i = i + 1;
    }
    if text_eq(s, ".") || text_eq(s, "..") {
        return Some(ImportPathError::RelativeSegment(s.to_string()));
    }
    if s.get_char(n - 1) == '.' {
        return Some(ImportPathError::TrailingDot(s.to_string()));
    }
    None
}

/// Validates the include path `path` and splits it into its segments.
pub fn import_path(path: &str) -> (r: Result<Vec<String>, ImportPathError>)
    ensures
        match r {
            Ok(segs) => import_path_result(path@) == Ok::<Seq<Seq<char>>, ImportPathErrorView>(
                texts(segs@),
            ),
            Err(e) => import_path_result(path@) == Err::<Seq<Seq<char>>, ImportPathErrorView>(
                e.view_error(),
            ),
        },
{
    let segs = split_char(path, '/');
    let ghost sv = texts(segs@);
    let mut i: usize = 0;
    while i < segs.len()
        invariant
            i <= segs.len(),
            sv == texts(segs@),
            sv == split_on(path@, '/'),
            first_segment_error(sv, 0) == first_segment_error(sv, i as int),
        decreases segs.len() - i,
    {
        match check_segment(segs[i].as_str()) {
            Some(e) => {
                return Err(e);
            },
            None => {},
        }
        i = i + 1;
    }
    proof {
        crate::text::lemma_split_nonempty(path@, '/');
    }
    let last = segs[segs.len() - 1].as_str();
    assert(last@ == sv.last());
    if !text_ends_with(last, ".baproto") {
        return Err(ImportPathError::InvalidExtension);
    }
    if text_eq(last, ".baproto") {
        return Err(ImportPathError::EmptyFilename);
    }
    Ok(segs)
}

/// Splitting at a separator and joining with it gives the text back.
pub proof fn lemma_join_split(s: Seq<char>, sep: char)
    ensures
        join(split_on(s, sep), seq![sep]) == s,
    decreases s.len(),
{
    if s.len() > 0 {
        let t = s.drop_last();
        lemma_join_split(t, sep);
        lemma_split_nonempty(t, sep);
        let r = split_on(t, sep);
        if s.last() == sep {
            let u = r.push(Seq::<char>::empty());
            assert(u.drop_last() =~= r);
            assert(join(u, seq![sep]) =~= s);
        } else {
            let u = r.update(r.len() - 1, r.last().push(s.last()));
            if r.len() == 1 {
                assert(join(u, seq![sep]) =~= s);
            } else {
                assert(u.drop_last() =~= r.drop_last());
                assert(u.last() == r.last().push(s.last()));
                assert(join(r, seq![sep]) == join(r.drop_last(), seq![sep]) + seq![sep] + r.last());
                assert(join(u, seq![sep]) == join(r.drop_last(), seq![sep]) + seq![sep] + u.last());
                assert(s =~= t.push(s.last()));
                assert(join(u, seq![sep]) =~= s);
            }
        }
    }
}

proof fn lemma_first_segment_error_none(segs: Seq<Seq<char>>, k: int)
    requires
        0 <= k,
        first_segment_error(segs, k) is None,
    ensures
        forall|j: int| k <= j < segs.len() ==> segment_error(#[trigger] segs[j]) is None,
    decreases segs.len() - k,
{
    if k < segs.len() {
        lemma_first_segment_error_none(segs, k + 1);
    }
}

/// An accepted include path is its segments joined with `/`; each segment is
/// non-empty, made of allowed characters, neither `.` nor `..`, and does not
/// end with `.`; the last names a `.baproto` file with a non-empty stem.
pub proof fn lemma_accepted_path(s: Seq<char>)
    ensures
        import_path_result(s) matches Ok(segs) ==> {
            &&& join(segs, seq!['/']) == s
            &&& segs.len() >= 1
            &&& forall|j: int| 0 <= j < segs.len() ==> segment_error(#[trigger] segs[j]) is None
            &&& forall|j: int|
                0 <= j < segs.len() ==> {
                    let t = #[trigger] segs[j];
                    &&& t.len() > 0
                    &&& forall|k: int|
                        0 <= k < t.len() ==> {
                            let c = #[trigger] t[k];
                            ('a' <= c && c <= 'z') || ('A' <= c && c <= 'Z') || ('0' <= c && c
                                <= '9') || c == '_' || c == '-' || c == '.'
                        }
                    &&& t != seq!['.']
                    &&& t != seq!['.', '.']
                    &&& t.last() != '.'
                }
            &&& ends_with(segs.last(), ".baproto"@)
            &&& segs.last() != ".baproto"@
            &&& segs.last().len() > 8
            &&& segs.last().subrange(segs.last().len() - 8, segs.last().len() as int) == seq![
                '.',
                'b',
                'a',
                'p',
                'r',
                'o',
                't',
                'o',
            ]
        },
{
    lemma_join_split(s, '/');
    lemma_split_nonempty(s, '/');
    reveal_strlit(".");
    reveal_strlit("..");
    reveal_strlit(".baproto");
    assert("."@ =~= seq!['.']);
    assert(".."@ =~= seq!['.', '.']);
    assert(".baproto"@ =~= seq!['.', 'b', 'a', 'p', 'r', 'o', 't', 'o']);
    if import_path_result(s) is Ok {
        let segs = split_on(s, '/');
        lemma_first_segment_error_none(segs, 0);
        assert forall|j: int| 0 <= j < segs.len() implies {
            let t = #[trigger] segs[j];
            &&& t.len() > 0
            &&& forall|k: int|
                0 <= k < t.len() ==> {
                    let c = #[trigger] t[k];
                    ('a' <= c && c <= 'z') || ('A' <= c && c <= 'Z') || ('0' <= c && c <= '9')
                        || c == '_' || c == '-' || c == '.'
                }
            &&& t != seq!['.']
            &&& t != seq!['.', '.']
            &&& t.last() != '.'
        } by {
            let t = segs[j];
            assert(segment_error(t) is None);
            assert forall|k: int| 0 <= k < t.len() implies {
                let c = #[trigger] t[k];
                ('a' <= c && c <= 'z') || ('A' <= c && c <= 'Z') || ('0' <= c && c <= '9')
                    || c == '_' || c == '-' || c == '.'
            } by {
                assert(path_char(t[k]));
            }
        }
        let l = segs.last();
        if l.len() == 8 {
            assert(l.subrange(0, 8) =~= l);
        }
    }
}

proof fn lemma_first_segment_error_all_none(segs: Seq<Seq<char>>, k: int)
    requires
        0 <= k,
        forall|j: int| k <= j < segs.len() ==> segment_error(#[trigger] segs[j]) is None,
    ensures
        first_segment_error(segs, k) is None,
    decreases segs.len() - k,
{
    if k < segs.len() {
        lemma_first_segment_error_all_none(segs, k + 1);
    }
}

/// Every include path made of segments that are non-empty, hold only ASCII
/// letters, digits, `_`, `-` and `.`, are neither `.` nor `..` and do not
/// end with `.`, whose last segment is a `.baproto` file name with a
/// non-empty stem, is accepted, and splits back into those segments.
pub proof fn lemma_valid_path_accepted(segs: Seq<Seq<char>>)
    requires
        segs.len() >= 1,
        forall|j: int|
            0 <= j < segs.len() ==> {
                let s = #[trigger] segs[j];
                &&& s.len() > 0
                &&& forall|k: int|
                    0 <= k < s.len() ==> {
                        let c = #[trigger] s[k];
                        ('a' <= c && c <= 'z') || ('A' <= c && c <= 'Z') || ('0' <= c && c <= '9')
                            || c == '_' || c == '-' || c == '.'
                    }
                &&& s != seq!['.']
                &&& s != seq!['.', '.']
                &&& s.last() != '.'
            },
        segs.last().len() > 8,
        segs.last().subrange(segs.last().len() - 8, segs.last().len() as int) == seq![
            '.',
            'b',
            'a',
            'p',
            'r',
            'o',
            't',
            'o',
        ],
    ensures
        import_path_result(join(segs, seq!['/'])) == Ok::<
            Seq<Seq<char>>,
            ImportPathErrorView,
        >(segs),
{
    reveal_strlit(".");
    reveal_strlit("..");
    reveal_strlit(".baproto");
    assert("."@ =~= seq!['.']);
    assert(".."@ =~= seq!['.', '.']);
    assert(".baproto"@ =~= seq!['.', 'b', 'a', 'p', 'r', 'o', 't', 'o']);
    assert forall|j: int| 0 <= j < segs.len() implies free_of(#[trigger] segs[j], '/') by {
        let s = segs[j];
        assert forall|k: int| 0 <= k < s.len() implies s[k] != '/' by {
            let c = s[k];
            assert(('a' <= c && c <= 'z') || ('A' <= c && c <= 'Z') || ('0' <= c && c <= '9')
                || c == '_' || c == '-' || c == '.');
        }
    }
    lemma_split_join(segs, '/');
    assert forall|j: int| 0 <= j < segs.len() implies segment_error(#[trigger] segs[j]) is None by {
        let s = segs[j];
        assert forall|k: int| 0 <= k < s.len() implies path_char(#[trigger] s[k]) by {
            let c = s[k];
            assert(('a' <= c && c <= 'z') || ('A' <= c && c <= 'Z') || ('0' <= c && c <= '9')
                || c == '_' || c == '-' || c == '.');
        }
    }
    lemma_first_segment_error_all_none(segs, 0);
    assert(segs.last() != ".baproto"@);
}

} // verus!
