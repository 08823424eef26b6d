use vstd::prelude::*;
use vstd::utf8::encode_utf8;

verus! {

/// The length of the extended-length prefix `\\?\`.
pub const WIN_EXTENDED_PATH_PREFIX_LEN: usize = 4;

/// Below this many bytes (after the prefix) a path needs no extended-length form.
pub const WIN_STANDARD_MAX_PATH_LEN: usize = 160;

/// The path starts with the extended-length prefix `\\?\`.
pub open spec fn has_extended_prefix(p: Seq<char>) -> bool {
    p.len() >= 4 && p[0] == '\\' && p[1] == '\\' && p[2] == '?' && p[3] == '\\'
}

/// The prefix can be dropped: the path has it, and is short enough without it.
pub open spec fn is_sliceable(p: Seq<char>) -> bool {
    has_extended_prefix(p) && (encode_utf8(p).len() as usize) < WIN_STANDARD_MAX_PATH_LEN
        + WIN_EXTENDED_PATH_PREFIX_LEN
}

/// The text that a path is shown as; the prefix is dropped on Windows only.
pub open spec fn normalized_text(p: Seq<char>, windows: bool) -> Seq<char> {
    if windows && is_sliceable(p) {
        p.subrange(WIN_EXTENDED_PATH_PREFIX_LEN as int, p.len() as int)
    } else {
        p
    }
}

/// A path as it is shown to the user: on Windows, an extended-length path
/// that fits in the standard limit is shown without its prefix. Elsewhere a
/// path is shown as it is.
pub enum NormalizedPath {
    Untouched(String),
    Sliced(String),
}

impl NormalizedPath {
    pub open spec fn text(&self) -> Seq<char> {
        match self {
            NormalizedPath::Untouched(s) => s@,
            NormalizedPath::Sliced(s) => s@,
        }
    }

    /// `windows` tells whether the program runs on Windows, where the
    /// extended-length prefix exists.
    pub fn new(path: &str, windows: bool) -> (r: NormalizedPath)
        ensures
            !windows ==> r is Untouched && r.text() == path@,
            windows ==> (r is Sliced) == is_sliceable(path@),
            r.text() == normalized_text(path@, windows),
    {
        let n = path.unicode_len();
        if windows && n >= WIN_EXTENDED_PATH_PREFIX_LEN && path.get_char(0) == '\\' && path.get_char(1) == '\\'
            && path.get_char(2) == '?' && path.get_char(3) == '\\' && path.len()
            < WIN_STANDARD_MAX_PATH_LEN + WIN_EXTENDED_PATH_PREFIX_LEN {
            let rest = path.substring_char(WIN_EXTENDED_PATH_PREFIX_LEN, n);
            NormalizedPath::Sliced(rest.to_owned())
        } else {
            NormalizedPath::Untouched(path.to_owned())
        }
    }

    /// The text to show.
    pub fn as_str(&self) -> (r: &str)
        ensures
            r@ == self.text(),
    {
        match self {
            NormalizedPath::Untouched(s) => s.as_str(),
            NormalizedPath::Sliced(s) => s.as_str(),
        }
    }
}

/// A path named in a message: first as it was found, then in canonical form.
pub enum WorkPath {
    Unresolved(String),
    Canonical(String),
}

impl WorkPath {
    pub open spec fn text(&self) -> Seq<char> {
        match self {
            WorkPath::Unresolved(s) => s@,
            WorkPath::Canonical(s) => s@,
        }
    }

    pub fn new(path: &str) -> (r: WorkPath)
        ensures
            r is Unresolved,
            r.text() == path@,
    {
        WorkPath::Unresolved(path.to_owned())
    }

    pub fn as_maybe_unresolved_path(&self) -> (r: &str)
        ensures
            r@ == self.text(),
    {
        match self {
            WorkPath::Unresolved(p) => p.as_str(),
            WorkPath::Canonical(p) => p.as_str(),
        }
    }

    /// Settles an unresolved path on its canonical form, as the filesystem
    /// gave it; where the filesystem could not, the path stays as found.
    /// A path that is already canonical is left alone.
    pub fn resolve_canonical(&mut self, canonical: Option<String>)
        ensures
            *final(self) is Canonical,
            *old(self) is Canonical ==> *final(self) == *old(self),
            *old(self) is Unresolved ==> final(self).text() == match canonical {
                Some(c) => c@,
                None => old(self).text(),
            },
    {
        if let WorkPath::Unresolved(path) = self {
            let resolved = match canonical {
                Some(c) => c,
                None => path.clone(),
            };
            *self = WorkPath::Canonical(resolved);
        }
    }

    /// The canonical text, once the path has been resolved.
    pub fn canonical(&self) -> (r: Option<&str>)
        ensures
            r is Some == self is Canonical,
            r matches Some(s) ==> s@ == self.text(),
    {
        match self {
            WorkPath::Unresolved(_) => None,
            WorkPath::Canonical(p) => Some(p.as_str()),
        }
    }
}

} // verus!
