//! The diagnostics sink that the lexer and the parser report to.

use vstd::prelude::*;

verus! {

/// One reported problem: the 1-based line it was found on and a message.
#[derive(Debug)]
pub struct Diagnostic {
    pub line: u32,
    pub message: String,
}

/// Mathematical model of the sink.
pub struct EnvironmentView {
    pub had_error: bool,
    pub diagnostics: Seq<(nat, Seq<char>)>,
}

/// Accumulates line-tagged diagnostics and remembers whether any was
/// reported, which decides the exit status of a run.
pub struct Environment {
    had_error: bool,
    diagnostics: Vec<Diagnostic>,
}

impl View for Environment {
    type V = EnvironmentView;

    closed spec fn view(&self) -> EnvironmentView {
        EnvironmentView {
            had_error: self.had_error,
            diagnostics: self.diagnostics@.map_values(|d: Diagnostic| (d.line as nat, d.message@)),
        }
    }
}

/// Exit status that a run reports: 65 after an error, else 0.
pub open spec fn exit_code_of(had_error: bool) -> i32 {
    if had_error {
        65
    } else {
        0
    }
}

impl Environment {
    pub fn new() -> (r: Self)
        ensures
            !r@.had_error,
            r@.diagnostics == Seq::<(nat, Seq<char>)>::empty(),
    {
        let r = Environment { had_error: false, diagnostics: Vec::new() };
        assert(r@.diagnostics =~= Seq::<(nat, Seq<char>)>::empty());
        r
    }

    /// Records `msg` at `line` and sets the error flag.
    pub fn error(&mut self, line: u32, msg: &str)
        ensures
            final(self)@.had_error,
            final(self)@.diagnostics == old(self)@.diagnostics.push((line as nat, msg@)),
    {
        let d = Diagnostic { line, message: String::from_str(msg) };
        self.diagnostics.push(d);
        self.had_error = true;
        assert(self@.diagnostics =~= old(self)@.diagnostics.push((line as nat, msg@)));
    }

    pub fn had_error(&self) -> (r: bool)
        ensures
            r == self@.had_error,
    {
        self.had_error
    }

    pub fn get_exit_code(&self) -> (r: i32)
        ensures
            r == exit_code_of(self@.had_error),
    {
        if self.had_error {
            65
        } else {
            0
        }
    }

    /// The diagnostics reported so far, oldest first.
    pub fn diagnostics(&self) -> (r: &Vec<Diagnostic>)
        ensures
            r@.map_values(|d: Diagnostic| (d.line as nat, d.message@)) == self@.diagnostics,
    {
        &self.diagnostics
    }
}

} // verus!
