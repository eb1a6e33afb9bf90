//! Error types of the engine and the classification of backend error messages.

use vstd::prelude::*;
use vstd::string::StrSliceExecFns;

verus! {

/// Errors reported by the rendering backend, classified from their message.
#[derive(Debug)]
pub enum TypedBackendError {
    SurfaceLost,
    OutOfMemory,
    SurfaceTimeout,
    Internal(String),
    Validation(String),
    ContextNotFound,
    BindGroupNotFound,
    NoSuitableSurfaceFormat,
    Other(String),
}

/// `TypedBackendError` with its messages taken as character sequences.
pub enum TypedBackendErrorView {
    SurfaceLost,
    OutOfMemory,
    SurfaceTimeout,
    Internal(Seq<char>),
    Validation(Seq<char>),
    ContextNotFound,
    BindGroupNotFound,
    NoSuitableSurfaceFormat,
    Other(Seq<char>),
}

impl View for TypedBackendError {
    type V = TypedBackendErrorView;

    open spec fn view(&self) -> TypedBackendErrorView {
        match self {
            TypedBackendError::SurfaceLost => TypedBackendErrorView::SurfaceLost,
            TypedBackendError::OutOfMemory => TypedBackendErrorView::OutOfMemory,
            TypedBackendError::SurfaceTimeout => TypedBackendErrorView::SurfaceTimeout,
            TypedBackendError::Internal(m) => TypedBackendErrorView::Internal(m@),
            TypedBackendError::Validation(m) => TypedBackendErrorView::Validation(m@),
            TypedBackendError::ContextNotFound => TypedBackendErrorView::ContextNotFound,
            TypedBackendError::BindGroupNotFound => TypedBackendErrorView::BindGroupNotFound,
            TypedBackendError::NoSuitableSurfaceFormat => TypedBackendErrorView::NoSuitableSurfaceFormat,
            TypedBackendError::Other(m) => TypedBackendErrorView::Other(m@),
        }
    }
}

/// `pat` occurs in `s` as a contiguous run of characters.
pub open spec fn has_substring(s: Seq<char>, pat: Seq<char>) -> bool {
    exists|i: int| 0 <= i && i + pat.len() <= s.len() && #[trigger] s.subrange(i, i + pat.len()) == pat
}

/// The classification of a backend message: the first key phrase found, in a
/// fixed order, decides the kind; unclassified messages are kept as `Other`.
pub open spec fn classify_backend_message(s: Seq<char>) -> TypedBackendErrorView {
    if has_substring(s, "OutOfMemory"@) {
        TypedBackendErrorView::OutOfMemory
    } else if has_substring(s, "Lost"@) {
        TypedBackendErrorView::SurfaceLost
    } else if has_substring(s, "Timeout"@) {
        TypedBackendErrorView::SurfaceTimeout
    } else if has_substring(s, "Context not found"@) {
        TypedBackendErrorView::ContextNotFound
    } else if has_substring(s, "Bind group not found"@) {
        TypedBackendErrorView::BindGroupNotFound
    } else if has_substring(s, "No suitable surface format"@) {
        TypedBackendErrorView::NoSuitableSurfaceFormat
    } else if has_substring(s, "Internal"@) {
        TypedBackendErrorView::Internal(s)
    } else if has_substring(s, "Validation"@) {
        TypedBackendErrorView::Validation(s)
    } else {
        TypedBackendErrorView::Other(s)
    }
}

/// The characters of a string slice, in order.
pub fn chars_of(s: &str) -> (r: Vec<char>)
    ensures
        r@ == s@,
{
    let n = s.unicode_len();
    let mut v: Vec<char> = Vec::new();
    let mut i: usize = 0;
    while i < n
        invariant
            n == s@.len(),
            i <= n,
            v@ == s@.subrange(0, i as int),
        decreases n - i,
    {
        let c = s.get_char(i);
        v.push(c);
        i = i + 1;
        assert(v@ =~= s@.subrange(0, i as int));
    }
    assert(v@ =~= s@);
    v
}

fn matches_at(s: &Vec<char>, pat: &Vec<char>, i: usize) -> (r: bool)
    requires
        i + pat@.len() <= s@.len(),
    ensures
        r == (s@.subrange(i as int, i + pat@.len()) == pat@),
{
    let m = pat.len();
    let mut j: usize = 0;
    while j < m
        invariant
            m == pat@.len(),
            i + m <= s@.len(),
            s@.len() == s.len(),
            j <= m,
            forall|k: int| 0 <= k < j ==> s@[i + k] == pat@[k],
        decreases m - j,
    {
        if s[i + j] != pat[j] {
            assert(s@.subrange(i as int, i + m)[j as int] != pat@[j as int]);
            return false;
        }
        j = j + 1;
    }
    assert(s@.subrange(i as int, i + m) =~= pat@);
    true
}

/// Substring search over character vectors.
pub fn contains_chars(s: &Vec<char>, pat: &Vec<char>) -> (r: bool)
    ensures
        r == has_substring(s@, pat@),
{
    let n = s.len();
    let m = pat.len();
    if m > n {
        assert(!has_substring(s@, pat@));
        return false;
    }
    let last = n - m;
    let mut i: usize = 0;
    loop
        invariant
            n == s@.len(),
            m == pat@.len(),
            m <= n,
            last == n - m,
            i <= last,
            forall|k: int| 0 <= k < i ==> #[trigger] s@.subrange(k, k + m) != pat@,
        ensures
            forall|k: int| 0 <= k <= last ==> #[trigger] s@.subrange(k, k + m) != pat@,
        decreases last - i,
    {
        if matches_at(s, pat, i) {
            return true;
        }
        if i == last {
            break;
        }
        i = i + 1;
    }
    assert forall|k: int| 0 <= k && k + pat@.len() <= s@.len() implies #[trigger] s@.subrange(k, k + pat@.len()) != pat@ by {
        assert(k <= last);
    }
    false
}

/// Substring search over string slices.
pub fn str_contains(s: &str, pat: &str) -> (r: bool)
    ensures
        r == has_substring(s@, pat@),
{
    let sc = chars_of(s);
    let pc = chars_of(pat);
    contains_chars(&sc, &pc)
}

impl TypedBackendError {
    /// Classifies a backend error message.
    pub fn from_message(s: &str) -> (r: TypedBackendError)
        ensures
            r@ == classify_backend_message(s@),
    {
        if str_contains(s, "OutOfMemory") {
            TypedBackendError::OutOfMemory
        } else if str_contains(s, "Lost") {
            TypedBackendError::SurfaceLost
        } else if str_contains(s, "Timeout") {
            TypedBackendError::SurfaceTimeout
        } else if str_contains(s, "Context not found") {
            TypedBackendError::ContextNotFound
        } else if str_contains(s, "Bind group not found") {
            TypedBackendError::BindGroupNotFound
        } else if str_contains(s, "No suitable surface format") {
            TypedBackendError::NoSuitableSurfaceFormat
        } else if str_contains(s, "Internal") {
            TypedBackendError::Internal(String::from_str(s))
        } else if str_contains(s, "Validation") {
            TypedBackendError::Validation(String::from_str(s))
        } else {
            TypedBackendError::Other(String::from_str(s))
        }
    }
}

impl<'a> From<&'a str> for TypedBackendError {
    /// Classifies a backend error message (see `from_message`).
    fn from(s: &'a str) -> (r: TypedBackendError)
        ensures
            r@ == classify_backend_message(s@),
    {
        TypedBackendError::from_message(s)
    }
}

impl<'a> vstd::std_specs::convert::FromSpecImpl<&'a str> for TypedBackendError {
    /// The result holds freshly allocated strings, which no spec value names, so
    /// the contract of `from` is given by its own `ensures` instead.
    open spec fn obeys_from_spec() -> bool {
        false
    }

    open spec fn from_spec(v: &'a str) -> TypedBackendError {
        TypedBackendError::SurfaceLost
    }
}

/// Errors of the text subsystem.
#[derive(Debug)]
pub enum TextError {
    /// A backend failure, with its message.
    Backend(String),
    /// A layout or rasterisation failure, with its message.
    Paint(String),
    FontNotFound(usize),
    AtlasFull,
    AtlasCreationFailed,
    BindGroupMissing,
    TextureNotFound,
    Internal(String),
}

/// Errors of the engine.
#[derive(Debug)]
pub enum MoonWalkError {
    AdapterRequestError,
    DeviceRequestError,
    CreateSurfaceError,
    SurfaceLostError,
    OutOfMemoryError,
    TimeoutError,
    SurfaceError(String),
    ContextNotFoundError,
    BindGroupNotFoundError,
    NoSuitableSurfaceFormat,
    ShaderCompilation(String),
    FontLoading(String),
    TextureLoading(String),
    IOError(String),
    ShaderError(String),
    BackendError(String),
    TextError(TextError),
}

} // verus!
