//! Where command results and error messages are written.

use std::io::Write;

use vstd::prelude::*;

verus! {

/// Trait for abstracting output operations in CNI command handlers
pub trait OutputWriter {
    /// Whether the writer keeps a record of what is written, which
    /// `outputs` and `errors` then give.
    spec fn keeps_record() -> bool;

    /// The lines written to the primary output so far.
    spec fn outputs(&self) -> Seq<Seq<char>>;

    /// The lines written to the error output so far.
    spec fn errors(&self) -> Seq<Seq<char>>;

    /// Write data to the primary output (stdout equivalent)
    fn write_output(&mut self, data: &str) -> (r: Result<(), String>)
        ensures
            Self::keeps_record() ==> r is Ok && final(self).outputs() == old(self).outputs().push(data@)
                && final(self).errors() == old(self).errors(),
    ;

    /// Write error/warning data to the error output (stderr equivalent)
    fn write_error(&mut self, data: &str) -> (r: Result<(), String>)
        ensures
            Self::keeps_record() ==> r is Ok && final(self).errors() == old(self).errors().push(data@)
                && final(self).outputs() == old(self).outputs(),
    ;
}

/// The texts of a list of strings.
pub open spec fn lines_of(v: Seq<String>) -> Seq<Seq<char>> {
    v.map_values(|s: String| s@)
}

/// `lines` separated by newlines.
pub open spec fn newline_joined(lines: Seq<Seq<char>>) -> Seq<char>
    decreases lines.len(),
{
    if lines.len() == 0 {
        Seq::empty()
    } else if lines.len() == 1 {
        lines[0]
    } else {
        newline_joined(lines.drop_last()) + seq!['\n'] + lines.last()
    }
}

/// Mock implementation for testing that captures output
#[derive(Debug)]
pub struct MockOutputWriter {
    output: Vec<String>,
    errors: Vec<String>,
}

/// A copy of a list of strings.
fn copy_lines(v: &Vec<String>) -> (r: Vec<String>)
    ensures
        r@ == v@,
{
    let mut out: Vec<String> = Vec::new();
    let n = v.len();
    let mut i: usize = 0;
    while i < n
        invariant
            n == v@.len(),
            i <= n,
            out@ == v@.subrange(0, i as int),
        decreases n - i,
    {
        out.push(v[i].clone());
        proof {
            assert(out@ =~= v@.subrange(0, i + 1));
        }
        i = i + 1;
    }
    proof {
        assert(out@ =~= v@);
    }
    out
}

/// The lines of `v` joined by newlines.
fn join_lines(v: &Vec<String>) -> (s: String)
    ensures
        s@ == newline_joined(lines_of(v@)),
{
    let mut s = String::new();
    let n = v.len();
    let mut i: usize = 0;
    while i < n
        invariant
            n == v@.len(),
            i <= n,
            s@ == newline_joined(lines_of(v@.subrange(0, i as int))),
        decreases n - i,
    {
        proof {
            reveal_strlit("\n");
        }
        if i > 0 {
            s.append("\n");
        }
        s.append(v[i].as_str());
        proof {
            let sub = lines_of(v@.subrange(0, i + 1));
            assert(sub.drop_last() =~= lines_of(v@.subrange(0, i as int)));
            if i == 0 {
                assert(newline_joined(sub) == sub[0]);
                assert(newline_joined(lines_of(v@.subrange(0, 0))) =~= Seq::<char>::empty());
            }
            assert(s@ =~= newline_joined(sub));
        }
        i = i + 1;
    }
    proof {
        assert(v@.subrange(0, n as int) =~= v@);
    }
    s
}

impl MockOutputWriter {
    /// A writer that has recorded nothing.
    pub fn new() -> (w: Self)
        ensures
            w.outputs() == Seq::<Seq<char>>::empty(),
            w.errors() == Seq::<Seq<char>>::empty(),
    {
        let w = MockOutputWriter { output: Vec::new(), errors: Vec::new() };
        assert(w.outputs() =~= Seq::<Seq<char>>::empty());
        assert(w.errors() =~= Seq::<Seq<char>>::empty());
        w
    }

    /// Forgets everything recorded.
    pub fn clear(&mut self)
        ensures
            final(self).outputs() == Seq::<Seq<char>>::empty(),
            final(self).errors() == Seq::<Seq<char>>::empty(),
    {
        self.output = Vec::new();
        self.errors = Vec::new();
        assert(self.outputs() =~= Seq::<Seq<char>>::empty());
        assert(self.errors() =~= Seq::<Seq<char>>::empty());
    }

    /// The lines written to the primary output.
    pub fn get_output(&self) -> (v: Vec<String>)
        ensures
            lines_of(v@) == self.outputs(),
    {
        copy_lines(&self.output)
    }

    /// The lines written to the error output.
    pub fn get_errors(&self) -> (v: Vec<String>)
        ensures
            lines_of(v@) == self.errors(),
    {
        copy_lines(&self.errors)
    }

    /// The primary output as one text, lines separated by newlines.
    pub fn get_combined_output(&self) -> (s: String)
        ensures
            s@ == newline_joined(self.outputs()),
    {
        join_lines(&self.output)
    }

    /// The error output as one text, lines separated by newlines.
    pub fn get_combined_errors(&self) -> (s: String)
        ensures
            s@ == newline_joined(self.errors()),
    {
        join_lines(&self.errors)
    }
}

impl Default for MockOutputWriter {
    fn default() -> (w: Self)
        ensures
            w.outputs() == Seq::<Seq<char>>::empty(),
            w.errors() == Seq::<Seq<char>>::empty(),
    {
        Self::new()
    }
}

impl OutputWriter for MockOutputWriter {
    open spec fn keeps_record() -> bool {
        true
    }

    closed spec fn outputs(&self) -> Seq<Seq<char>> {
        lines_of(self.output@)
    }

    closed spec fn errors(&self) -> Seq<Seq<char>> {
        lines_of(self.errors@)
    }

    fn write_output(&mut self, data: &str) -> (r: Result<(), String>) {
        let ghost before = self.output@;
        self.output.push(String::from_str(data));
        proof {
            assert(lines_of(self.output@) =~= lines_of(before).push(data@));
        }
        Ok(())
    }

    fn write_error(&mut self, data: &str) -> (r: Result<(), String>) {
        let ghost before = self.errors@;
        self.errors.push(String::from_str(data));
        proof {
            assert(lines_of(self.errors@) =~= lines_of(before).push(data@));
        }
        Ok(())
    }
}

/// Writes `data` and a newline to standard output with `writeln!`.
/// Trusted for its type only: whether the write succeeds is not promised.
#[verifier::external_body]
fn write_stdout_line(data: &str) -> Result<(), String> {
    writeln!(std::io::stdout(), "{}", data).map_err(|e| e.to_string())
}

/// Writes `data` and a newline to standard error with `writeln!`.
/// Trusted for its type only: whether the write succeeds is not promised.
#[verifier::external_body]
fn write_stderr_line(data: &str) -> Result<(), String> {
    writeln!(std::io::stderr(), "{}", data).map_err(|e| e.to_string())
}

/// Standard implementation that writes to stdout/stderr, one line per
/// write; a failed write is returned as its error.
#[derive(Debug, Default)]
pub struct StandardOutputWriter;

impl OutputWriter for StandardOutputWriter {
    open spec fn keeps_record() -> bool {
        false
    }

    open spec fn outputs(&self) -> Seq<Seq<char>> {
        Seq::empty()
    }

    open spec fn errors(&self) -> Seq<Seq<char>> {
        Seq::empty()
    }

    fn write_output(&mut self, data: &str) -> (r: Result<(), String>) {
        write_stdout_line(data)
    }

    fn write_error(&mut self, data: &str) -> (r: Result<(), String>) {
        write_stderr_line(data)
    }
}

/// Silent implementation that discards all output (useful for testing)
#[derive(Debug)]
pub struct SilentOutputWriter;

impl OutputWriter for SilentOutputWriter {
    open spec fn keeps_record() -> bool {
        false
    }

    open spec fn outputs(&self) -> Seq<Seq<char>> {
        Seq::empty()
    }

    open spec fn errors(&self) -> Seq<Seq<char>> {
        Seq::empty()
    }

    fn write_output(&mut self, data: &str) -> (r: Result<(), String>)
        ensures
            r is Ok,
    {
        Ok(())
    }

    fn write_error(&mut self, data: &str) -> (r: Result<(), String>)
        ensures
            r is Ok,
    {
        Ok(())
    }
}

} // verus!
