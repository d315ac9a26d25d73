//! Classified build failures.
//!
//! Exactly two kinds of failure exist, both terminal for a build: an `IO`
//! failure wrapping an operating-system error, and a `Configuration` failure
//! wrapping a schema or syntax violation.  Each carries the path involved;
//! a `Configuration` failure may also carry the line and column of the first
//! offending token.  Every error exposes a short machine-stable kind name
//! and a human-readable detail string.

use vstd::prelude::*;
use vstd::string::*;

verus! {

/// Common shape of every classified build failure: a machine-stable kind
/// name and a human-readable detail string.
pub trait Error {
    /// The kind name this error's `name` method returns.
    spec fn spec_name(&self) -> Seq<char>;

    /// The detail text this error's `info` method returns.
    spec fn spec_info(&self) -> Seq<char>;

    fn name(&self) -> (r: String)
        ensures
            r@ == self.spec_name(),
    ;

    fn info(&self) -> (r: String)
        ensures
            r@ == self.spec_info(),
    ;
}

/// A failure in a file-related operation: carries the path involved and the
/// operating-system message verbatim.
pub struct IO {
    pub path: String,
    pub msg: String,
}

impl IO {
    pub fn new(path: String, msg: String) -> (r: Self)
        ensures
            r.path@ == path@,
            r.msg@ == msg@,
    {
        Self { path, msg }
    }
}

impl Error for IO {
    open spec fn spec_name(&self) -> Seq<char> {
        "FileError"@
    }

    open spec fn spec_info(&self) -> Seq<char> {
        "Failed to process "@ + self.path@ + ": "@ + self.msg@
    }

    fn name(&self) -> (r: String) {
        String::from_str("FileError")
    }

    fn info(&self) -> (r: String) {
        let mut s = String::from_str("Failed to process ");
        s.append(self.path.as_str());
        s.append(": ");
        s.append(self.msg.as_str());
        s
    }
}


/// The decimal digit character for `d`.
pub open spec fn digit_char(d: nat) -> char {
    if d == 0 {
        '0'
    } else if d == 1 {
        '1'
    } else if d == 2 {
        '2'
    } else if d == 3 {
        '3'
    } else if d == 4 {
        '4'
    } else if d == 5 {
        '5'
    } else if d == 6 {
        '6'
    } else if d == 7 {
        '7'
    } else if d == 8 {
        '8'
    } else {
        '9'
    }
}

/// The decimal text of `n`.
pub open spec fn dec_str(n: nat) -> Seq<char>
    decreases n,
{
    if n < 10 {
        seq![digit_char(n)]
    } else {
        dec_str(n / 10) + seq![digit_char(n % 10)]
    }
}

/// Appends one decimal digit.
fn push_digit(s: &mut String, d: usize)
    requires
        d < 10,
    ensures
        final(s)@ == old(s)@ + seq![digit_char(d as nat)],
{
    proof {
        reveal_strlit("0");
        reveal_strlit("1");
        reveal_strlit("2");
        reveal_strlit("3");
        reveal_strlit("4");
        reveal_strlit("5");
        reveal_strlit("6");
        reveal_strlit("7");
        reveal_strlit("8");
        reveal_strlit("9");
    }
    if d == 0 {
        s.append("0");
    } else if d == 1 {
        s.append("1");
    } else if d == 2 {
        s.append("2");
    } else if d == 3 {
        s.append("3");
    } else if d == 4 {
        s.append("4");
    } else if d == 5 {
        s.append("5");
    } else if d == 6 {
        s.append("6");
    } else if d == 7 {
        s.append("7");
    } else if d == 8 {
        s.append("8");
    } else {
        s.append("9");
    }
    assert(s@ =~= old(s)@ + seq![digit_char(d as nat)]);
}

/// Appends the decimal text of `n`.
fn push_dec(s: &mut String, n: usize)
    ensures
        final(s)@ == old(s)@ + dec_str(n as nat),
    decreases n,
{
    if n >= 10 {
        push_dec(s, n / 10);
    }
    push_digit(s, n % 10);
    proof {
        assert(s@ =~= old(s)@ + dec_str(n as nat));
    }
}

/// A failure in a configuration file: carries the path, a detail message,
/// and, when one can be attributed, the line and column of the violation —
/// reported by the underlying parser for a syntax failure, found by the
/// library's own location scan for a schema violation.
pub struct Configuration {
    pub path: String,
    pub msg: String,
    pub location: Option<(usize, usize)>,
}

impl Configuration {
    pub fn new(path: String, msg: String) -> (r: Self)
        ensures
            r.path@ == path@,
            r.msg@ == msg@,
            r.location is None,
    {
        Self { path, msg, location: None }
    }

    /// A configuration failure whose line and column are known.
    pub fn new_located(path: String, msg: String, line: usize, column: usize) -> (r: Self)
        ensures
            r.path@ == path@,
            r.msg@ == msg@,
            r.location == Some((line, column)),
    {
        Self { path, msg, location: Some((line, column)) }
    }
}

impl Error for Configuration {
    open spec fn spec_name(&self) -> Seq<char> {
        "ConfigurationError"@
    }

    open spec fn spec_info(&self) -> Seq<char> {
        "Configuration error in "@ + self.path@ + ": "@ + self.msg@ + match self.location {
            Option::Some(lc) => " at line "@ + dec_str(lc.0 as nat) + " column "@ + dec_str(
                lc.1 as nat,
            ),
            Option::None => Seq::empty(),
        }
    }

    fn name(&self) -> (r: String) {
        String::from_str("ConfigurationError")
    }

    fn info(&self) -> (r: String) {
        let mut s = String::from_str("Configuration error in ");
        s.append(self.path.as_str());
        s.append(": ");
        s.append(self.msg.as_str());
        match self.location {
            Some((line, column)) => {
                s.append(" at line ");
                push_dec(&mut s, line);
                s.append(" column ");
                push_dec(&mut s, column);
            },
            None => {},
        }
        assert(s@ =~= self.spec_info());
        s
    }
}

/// The closed set of failure kinds a build can end with: a tagged union
/// rather than an open hierarchy, so that a caller matches on the tag.
pub enum BuildError {
    IO(IO),
    Configuration(Configuration),
}

impl BuildError {
    /// The machine-stable kind name of this failure.
    pub fn name(&self) -> (r: String)
        ensures
            self matches BuildError::IO(e) ==> r@ == e.spec_name(),
            self matches BuildError::Configuration(e) ==> r@ == e.spec_name(),
    {
        match self {
            BuildError::IO(e) => e.name(),
            BuildError::Configuration(e) => e.name(),
        }
    }

    /// The human-readable detail of this failure.
    pub fn info(&self) -> (r: String)
        ensures
            self matches BuildError::IO(e) ==> r@ == e.spec_info(),
            self matches BuildError::Configuration(e) ==> r@ == e.spec_info(),
    {
        match self {
            BuildError::IO(e) => e.info(),
            BuildError::Configuration(e) => e.info(),
        }
    }
}

/// Wraps an operating-system failure message as a classified `IO` error.
pub fn make_io_error(path: String, msg: String) -> (r: BuildError)
    ensures
        r matches BuildError::IO(e) && e.path@ == path@ && e.msg@ == msg@,
{
    BuildError::IO(IO::new(path, msg))
}

} // verus!
