//! Where rows go. A sink is modelled as the sequence of lines handed to it,
//! so the benchmark loop's contract can pin down exactly what was emitted:
//! the console sink streams each line to standard output the moment it
//! arrives, the memory sink keeps the lines in a vector.

use std::io::Write;
use vstd::prelude::*;

verus! {

#[verifier::external_type_specification]
#[verifier::external_body]
pub struct ExStdout(std::io::Stdout);

/// Relies on std::io::stdout: a handle to the process's output stream.
#[verifier::external_body]
fn stdout_handle() -> (r: std::io::Stdout) {
    std::io::stdout()
}

/// Relies on the writeln macro over std::io::Stdout: writes exactly one
/// line, the given text followed by a newline, to the output stream. A
/// write error is ignored: the stream is best-effort, and lines already
/// written are unaffected.
#[verifier::external_body]
fn stdout_write_line(out: &mut std::io::Stdout, line: &String) {
    let _ = writeln!(out, "{}", line);
}

/// The process's output stream, together with the lines handed to it.
pub struct ConsoleOut {
    out: std::io::Stdout,
    history: Ghost<Seq<Seq<char>>>,
}

impl View for ConsoleOut {
    type V = Seq<Seq<char>>;

    closed spec fn view(&self) -> Seq<Seq<char>> {
        self.history@
    }
}

impl ConsoleOut {
    /// A fresh console sink: no line has been handed to it yet.
    pub fn new() -> (r: ConsoleOut)
        ensures
            r@ == Seq::<Seq<char>>::empty(),
    {
        ConsoleOut { out: stdout_handle(), history: Ghost(Seq::empty()) }
    }

    /// Hand one line to the output stream.
    pub fn push_line(&mut self, line: &String)
        ensures
            final(self)@ == old(self)@.push(line@),
    {
        stdout_write_line(&mut self.out, line);
        self.history = Ghost(self.history@.push(line@));
    }
}

/// A destination for CSV lines: the console (streaming), or memory.
pub enum CsvSink {
    Console(ConsoleOut),
    Memory(Vec<String>),
}

impl View for CsvSink {
    type V = Seq<Seq<char>>;

    closed spec fn view(&self) -> Seq<Seq<char>> {
        match self {
            CsvSink::Console(c) => c@,
            CsvSink::Memory(v) => v.deep_view(),
        }
    }
}

impl CsvSink {
    /// A sink that streams every line to standard output.
    pub fn console() -> (r: CsvSink)
        ensures
            r@ == Seq::<Seq<char>>::empty(),
    {
        CsvSink::Console(ConsoleOut::new())
    }

    /// A sink that keeps every line in memory.
    pub fn memory() -> (r: CsvSink)
        ensures
            r@ == Seq::<Seq<char>>::empty(),
    {
        let v: Vec<String> = Vec::new();
        proof {
            assert(v.deep_view() =~= Seq::<Seq<char>>::empty());
        }
        CsvSink::Memory(v)
    }

    /// Hand one line to the sink.
    pub fn push_line(&mut self, line: String)
        ensures
            final(self)@ == old(self)@.push(line@),
    {
        match self {
            CsvSink::Console(c) => {
                c.push_line(&line);
            },
            CsvSink::Memory(v) => {
                v.push(line);
                proof {
                    assert(v.deep_view() =~= old(self)@.push(line@));
                }
            },
        }
    }
}

} // verus!
