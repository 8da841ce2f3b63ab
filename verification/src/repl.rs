use vstd::prelude::*;

verus! {

/// What the caller of the read-eval-print loop does with a line.
#[derive(Debug, PartialEq, Eq, Clone, Copy, Structural)]
pub enum Action {
    /// Leave the loop.
    Quit,
    /// Show every line entered so far.
    History,
    /// Evaluate the line.
    Evaluate,
}

/// The action that a line asks for: `.quit` and `.history` are commands,
/// anything else is source text.
pub open spec fn action_of(line: Seq<char>) -> Action {
    if line == ".quit"@ {
        Action::Quit
    } else if line == ".history"@ {
        Action::History
    } else {
        Action::Evaluate
    }
}

/// The state of a read-eval-print loop: the lines entered so far.
pub struct REPL {
    commands: Vec<String>,
}

impl REPL {
    /// The lines entered so far, oldest first.
    pub closed spec fn history(&self) -> Seq<Seq<char>> {
        Seq::new(self.commands@.len(), |i: int| self.commands@[i]@)
    }

    /// A loop into which nothing was entered yet.
    pub fn new() -> (repl: REPL)
        ensures
            repl.history() == Seq::<Seq<char>>::empty(),
    {
        let repl = REPL { commands: Vec::new() };
        assert(repl.history() =~= Seq::<Seq<char>>::empty());
        repl
    }

    /// Records `line` and tells what to do with it.
    pub fn step(&mut self, line: &str) -> (action: Action)
        ensures
            final(self).history() == old(self).history().push(line@),
            action == action_of(line@),
    {
        let owned = line.to_owned();
        let quit = ".quit".to_owned();
        let history = ".history".to_owned();
        let action = if owned == quit {
            Action::Quit
        } else if owned == history {
            Action::History
        } else {
            Action::Evaluate
        };
        self.commands.push(owned);
        assert(self.history() =~= old(self).history().push(line@));
        action
    }

    /// The number of lines entered so far.
    pub fn len(&self) -> (n: usize)
        ensures
            n == self.history().len(),
    {
        self.commands.len()
    }

    /// The line entered as the `i`-th, counting from 0.
    pub fn line(&self, i: usize) -> (line: &String)
        requires
            i < self.history().len(),
        ensures
            line@ == self.history()[i as int],
    {
        &self.commands[i]
    }
}

} // verus!
