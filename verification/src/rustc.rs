//! The toolchain descriptor: which compiler version runs the build, and on
//! which channel; and how it is read from the compiler's report on itself.

use vstd::prelude::*;
use semver::Version;
use crate::error::Failure;
use crate::range::version_of_text;

verus! {

/// The version of the toolchain and whether it is a pre-release (nightly)
/// build. Made once per evaluation and only read afterwards.
pub struct VersionData {
    pub version: Version,
    pub nightly: bool,
}

/// How many characters stand before the first `sep` of a text: all of them
/// where it holds none.
pub open spec fn head_len(s: Seq<char>, sep: char) -> nat
    decreases s.len(),
{
    if s.len() == 0 || s[0] == sep {
        0
    } else {
        1 + head_len(s.drop_first(), sep)
    }
}

/// The piece with index `n` (from 0) of a text cut at every `sep`, or `None`
/// where the text has no more than `n` pieces.
pub open spec fn piece(s: Seq<char>, sep: char, n: nat) -> Option<Seq<char>>
    decreases n,
{
    let k = head_len(s, sep) as int;
    if n == 0 {
        Some(s.subrange(0, k))
    } else if k >= s.len() {
        None
    } else {
        piece(s.subrange(k + 1, s.len() as int), sep, (n - 1) as nat)
    }
}

/// The version token of the compiler's verbose report: the second word of
/// its sixth line.
pub open spec fn release_token(raw: Seq<char>) -> Option<Seq<char>> {
    match piece(raw, '\n', 5) {
        None => None,
        Some(line) => piece(line, ' ', 1),
    }
}

/// The descriptor that a report gives. The token is cut at every hyphen:
/// what stands before the first is the version, and the toolchain is a
/// pre-release one exactly where the next piece is `nightly`. A token
/// without a hyphen is a stable release.
pub open spec fn described(raw: Seq<char>) -> Result<VersionData, Failure> {
    match release_token(raw) {
        None => Err(Failure::ToolchainProbe),
        Some(token) => match version_of_text(piece(token, '-', 0).unwrap()) {
            None => Err(Failure::ToolchainProbe),
            Some(version) => Ok(
                (VersionData { version, nightly: piece(token, '-', 1) == Some("nightly"@) }),
            ),
        },
    }
}

impl VersionData {
    pub fn new(version: Version, nightly: bool) -> (r: Self)
        ensures
            r.version == version,
            r.nightly == nightly,
    {
        Self { version, nightly }
    }

    /// Reads the descriptor from the text that the compiler prints when
    /// asked for its version in verbose form.
    pub fn from_report(raw: &str) -> (r: Result<Self, Failure>)
        ensures
            r == described(raw@),
    {
        let line = match nth_piece(raw, '\n', 5) {
            Some(line) => line,
            None => { return Err(Failure::ToolchainProbe); },
        };
        let token = match nth_piece(line, ' ', 1) {
            Some(token) => token,
            None => { return Err(Failure::ToolchainProbe); },
        };
        let number = match nth_piece(token, '-', 0) {
            Some(number) => number,
            None => { return Err(Failure::ToolchainProbe); },
        };
        let version = match Version::parse(number) {
            Ok(version) => version,
            Err(_) => { return Err(Failure::ToolchainProbe); },
        };
        let nightly = match nth_piece(token, '-', 1) {
            Some(channel) => channel.to_owned() == "nightly".to_owned(),
            None => false,
        };
        Ok(VersionData { version, nightly })
    }
}

/// Counts the characters before the first `sep`.
pub fn head_length(s: &str, sep: char) -> (k: usize)
    ensures
        k == head_len(s@, sep),
        k <= s@.len(),
{
    let n = s.unicode_len();
    let mut i: usize = 0;
    while i < n
        invariant
            i <= n,
            n == s@.len(),
            forall|j: int| 0 <= j < i ==> s@[j] != sep,
        decreases n - i,
    {
        if s.get_char(i) == sep {
            proof {
                lemma_head_len(s@, sep, i as int);
            }
            return i;
        }
        i = i + 1;
    }
    proof {
        lemma_head_len(s@, sep, n as int);
    }
    n
}

/// Cuts a text at every `sep` and gives the piece with index `n`.
pub fn nth_piece<'a>(s: &'a str, sep: char, n: usize) -> (r: Option<&'a str>)
    ensures
        match r {
            Some(found) => piece(s@, sep, n as nat) == Some(found@),
            None => piece(s@, sep, n as nat) is None,
        },
{
    let mut rest: &'a str = s;
    let mut left: usize = n;
    loop
        invariant
            piece(s@, sep, n as nat) == piece(rest@, sep, left as nat),
        decreases left,
    {
        let k = head_length(rest, sep);
        let len = rest.unicode_len();
        if left == 0 {
            return Some(rest.substring_char(0, k));
        }
        if k >= len {
            return None;
        }
        rest = rest.substring_char(k + 1, len);
        left = left - 1;
    }
}

/// The first `sep` of a text stands where nothing before it is `sep`.
proof fn lemma_head_len(s: Seq<char>, sep: char, k: int)
    requires
        0 <= k <= s.len(),
        forall|j: int| 0 <= j < k ==> s[j] != sep,
        k == s.len() || s[k] == sep,
    ensures
        head_len(s, sep) == k,
    decreases k,
{
    if k > 0 {
        let t = s.drop_first();
        assert forall|j: int| 0 <= j < k - 1 implies t[j] != sep by {
            assert(t[j] == s[j + 1]);
        }
        lemma_head_len(t, sep, k - 1);
    }
}

} // verus!
