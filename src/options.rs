use vstd::prelude::*;

verus! {

/// The depth limit used when none is given, or when the given one does not parse.
pub const DEFAULT_MAX_DEPTH: usize = 10;

pub open spec fn is_decimal_digit(c: char) -> bool {
    '0' <= c && c <= '9'
}

pub open spec fn digit_value(c: char) -> nat {
    ((c as u32) - ('0' as u32)) as nat
}

/// The number written by a sequence of decimal digits (0 for the empty sequence).
pub open spec fn decimal_value(s: Seq<char>) -> nat
    decreases s.len(),
{
    if s.len() == 0 {
        0
    } else {
        decimal_value(s.drop_last()) * 10 + digit_value(s.last())
    }
}

/// The digits of an unsigned number: the text without one leading `+`.
pub open spec fn unsigned_digits(s: Seq<char>) -> Seq<char> {
    if s.len() > 0 && s[0] == '+' {
        s.subrange(1, s.len() as int)
    } else {
        s
    }
}

/// What reading `s` as a `usize` gives: an optional `+`, then at least one
/// decimal digit and nothing else, with a value that fits.
pub open spec fn parsed_usize(s: Seq<char>) -> Option<nat> {
    let d = unsigned_digits(s);
    if d.len() > 0 && (forall|i: int| 0 <= i < d.len() ==> is_decimal_digit(#[trigger] d[i]))
        && decimal_value(d) <= usize::MAX {
        Some(decimal_value(d))
    } else {
        None
    }
}

proof fn lemma_decimal_value_grows(s: Seq<char>, i: int, j: int)
    requires
        0 <= i <= j <= s.len(),
    ensures
        decimal_value(s.subrange(0, i)) <= decimal_value(s.subrange(0, j)),
    decreases j - i,
{
    if i < j {
        lemma_decimal_value_grows(s, i, j - 1);
        assert(s.subrange(0, j).drop_last() =~= s.subrange(0, j - 1));
    }
}

/// Reads a depth limit written in decimal, as `usize`'s `FromStr` does.
pub fn parse_depth(s: &str) -> (r: Option<usize>)
    ensures
        r == match parsed_usize(s@) {
            Some(v) => Some(v as usize),
            None => None::<usize>,
        },
{
    let n = s.unicode_len();
    let mut start: usize = 0;
    if n > 0 && s.get_char(0) == '+' {
        start = 1;
    }
    let ghost d = unsigned_digits(s@);
    assert(d =~= s@.subrange(start as int, n as int));
    if start >= n {
        return None;
    }
    let mut acc: usize = 0;
    let mut i: usize = start;
    while i < n
        invariant
            start <= i <= n,
            n == s@.len(),
            d == unsigned_digits(s@),
            d =~= s@.subrange(start as int, n as int),
            acc as nat == decimal_value(d.subrange(0, i - start)),
            forall|j: int| 0 <= j < i - start ==> is_decimal_digit(#[trigger] d[j]),
        decreases n - i,
    {
        let c = s.get_char(i);
        let k = i - start;
        assert(d[k as int] == c);
        if !('0' <= c && c <= '9') {
            assert(!is_decimal_digit(d[k as int]));
            return None;
        }
        let digit = ((c as u32) - ('0' as u32)) as usize;
        assert(d.subrange(0, k + 1).drop_last() =~= d.subrange(0, k as int));
        assert(d.subrange(0, k + 1).last() == c);
        assert(decimal_value(d.subrange(0, k + 1)) == decimal_value(d.subrange(0, k as int)) * 10
            + digit_value(c));
        match acc.checked_mul(10) {
            None => {
                proof {
                    lemma_decimal_value_grows(d, k + 1, d.len() as int);
                    assert(d.subrange(0, d.len() as int) =~= d);
                }
                return None;
            },
            Some(m) => match m.checked_add(digit) {
                None => {
                    proof {
                        lemma_decimal_value_grows(d, k + 1, d.len() as int);
                        assert(d.subrange(0, d.len() as int) =~= d);
                    }
                    return None;
                },
                Some(v) => {
                    acc = v;
                },
            },
        }
        i = i + 1;
    }
    assert(d.subrange(0, n - start) =~= d);
    Some(acc)
}

/// The immutable configuration of one search.
pub struct InvokeOptions {
    /// The canonical directory where the search begins.
    pub search_root: String,
    pub follow_symlinks: bool,
    pub show_all: bool,
    pub paranoid: bool,
    pub verbose: bool,
    /// No directory deeper than this below the root is considered.
    pub max_depth: usize,
}

impl InvokeOptions {
    pub fn new(
        search_root: String,
        follow_symlinks: bool,
        show_all: bool,
        paranoid: bool,
        verbose: bool,
        max_depth: usize,
    ) -> (r: InvokeOptions)
        ensures
            r.search_root@ == search_root@,
            r.follow_symlinks == follow_symlinks,
            r.show_all == show_all,
            r.paranoid == paranoid,
            r.verbose == verbose,
            r.max_depth == max_depth,
    {
        InvokeOptions { search_root, follow_symlinks, show_all, paranoid, verbose, max_depth }
    }

    /// Builds the options from the command-line flags. `--any-depth` lifts the
    /// depth limit altogether; otherwise the `--max-depth` text is read, and the
    /// default limit stands in when it is absent or does not parse.
    pub fn from_flags(
        search_root: String,
        follow_symlinks: bool,
        show_all: bool,
        paranoid: bool,
        verbose: bool,
        any_depth: bool,
        max_depth: Option<&str>,
    ) -> (r: InvokeOptions)
        ensures
            r.search_root@ == search_root@,
            r.follow_symlinks == follow_symlinks,
            r.show_all == show_all,
            r.paranoid == paranoid,
            r.verbose == verbose,
            any_depth ==> r.max_depth == usize::MAX,
            !any_depth ==> r.max_depth == match max_depth {
                Some(t) => match parsed_usize(t@) {
                    Some(v) => v,
                    None => DEFAULT_MAX_DEPTH as nat,
                },
                None => DEFAULT_MAX_DEPTH as nat,
            },
    {
        let limit = if any_depth {
            usize::MAX
        } else {
            match max_depth {
                Some(t) => match parse_depth(t) {
                    Some(v) => v,
                    None => DEFAULT_MAX_DEPTH,
                },
                None => DEFAULT_MAX_DEPTH,
            }
        };
        InvokeOptions::new(search_root, follow_symlinks, show_all, paranoid, verbose, limit)
    }

    pub fn search_root(&self) -> (r: &str)
        ensures
            r@ == self.search_root@,
    {
        self.search_root.as_str()
    }

    pub fn follow_symlinks(&self) -> (r: bool)
        ensures
            r == self.follow_symlinks,
    {
        self.follow_symlinks
    }

    pub fn show_all(&self) -> (r: bool)
        ensures
            r == self.show_all,
    {
        self.show_all
    }

    pub fn paranoid(&self) -> (r: bool)
        ensures
            r == self.paranoid,
    {
        self.paranoid
    }

    pub fn verbose(&self) -> (r: bool)
        ensures
            r == self.verbose,
    {
        self.verbose
    }

    pub fn max_depth(&self) -> (r: usize)
        ensures
            r == self.max_depth,
    {
        self.max_depth
    }
}

} // verus!
