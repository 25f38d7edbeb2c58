use vstd::prelude::*;

use crate::ast::AstProgram;
use crate::execution::{initial_state, spec_execute, spec_init_globals, spec_run_handler, EState, Execution};
use crate::keys::{key_to_number, spec_key};
use crate::message::{group_commands, spec_blocks, spec_error_code, CommandBlock, CommandStatus, RuntimeError};
use crate::program::{create_program, spec_check_program, SErr};
use crate::value::SValue;

verus! {

/// A checked program being run for a host: the evaluator, the budget each
/// entry point runs with, and the first error met, if any.
#[derive(Debug)]
pub struct Runtime {
    pub main_execution: Execution,
    pub fuel: u64,
    pub runtime_error: RuntimeError,
}

/// The host's error record for an outcome: code 0 for success.
pub open spec fn recorded(e: RuntimeError, r: Result<(), SErr>) -> bool {
    match r {
        Ok(_) => e.error_code == 0,
        Err(se) => e.error_code == spec_error_code(se.0) && e.start_row == se.1.0 && e.start_column == se.1.1
            && e.end_row == se.1.2 && e.end_column == se.1.3 && (se.2 is Some ==> e.error_message@ == se.2->0),
    }
}

impl Runtime {
    pub open spec fn wf(&self) -> bool {
        self.main_execution.wf()
    }

    /// A runtime fresh from `new`: the program's globals evaluated from the
    /// initial state, and an error there recorded.
    pub open spec fn built_from(&self, lines: AstProgram, seed: u64, fuel: u64) -> bool {
        &&& self.wf()
        &&& self.main_execution.lines == lines
        &&& self.fuel == fuel
        &&& match lines {
            AstProgram::Block(_) => self.runtime_error.error_code == 0 && self.main_execution.state() == initial_state(seed),
            AstProgram::Forest(forest) => {
                let (s, res) = spec_init_globals(forest.0@, initial_state(seed), forest.1@, fuel as nat);
                recorded(self.runtime_error, res) && self.main_execution.state() == s
            },
        }
    }

    /// A runtime for a program: its globals are evaluated now, and an error
    /// there is kept for the host.
    pub fn new(lines: AstProgram, seed: u64, fuel: u64) -> (r: Runtime)
        ensures
            r.built_from(lines, seed, fuel),
    {
        let mut exec = Execution::new(lines, seed);
        let runtime_error = match exec.init_globals(fuel) {
            Ok(()) => RuntimeError::zero(),
            Err(e) => RuntimeError::new(e),
        };
        Runtime { main_execution: exec, fuel, runtime_error }
    }

    /// Runs the program unless an error was met before; an error now is
    /// kept for the host.
    pub fn execute(&mut self)
        requires
            old(self).wf(),
        ensures
            final(self).wf(),
            old(self).runtime_error.error_code != 0 ==> *final(self) == *old(self),
            old(self).runtime_error.error_code == 0 ==> {
                let (s, res) = spec_execute(old(self).main_execution.lines, old(self).main_execution.state(), old(self).fuel as nat);
                recorded(final(self).runtime_error, res) && final(self).main_execution.state() == s
            },
    {
        if self.runtime_error.error_code != 0 {
            return;
        }
        match self.main_execution.execute(self.fuel) {
            Ok(()) => {},
            Err(e) => {
                self.runtime_error = RuntimeError::new(e);
            },
        }
    }

    /// Runs the `keyboard` handler for a key name, if the name is known.
    pub fn execute_key(&mut self, key: &str)
        requires
            old(self).wf(),
        ensures
            final(self).wf(),
            old(self).runtime_error.error_code != 0 || spec_key(key@) is None ==> *final(self) == *old(self),
            old(self).runtime_error.error_code == 0 && spec_key(key@) is Some ==> {
                let (s, res) = spec_run_handler(
                    old(self).main_execution.lines,
                    old(self).main_execution.state(),
                    "keyboard"@,
                    seq![SValue::Int(spec_key(key@)->0)],
                    old(self).fuel as nat,
                );
                recorded(final(self).runtime_error, res) && final(self).main_execution.state() == s
            },
    {
        if self.runtime_error.error_code != 0 {
            return;
        }
        if let Some(code) = key_to_number(key) {
            match self.main_execution.execute_key(code, self.fuel) {
                Ok(()) => {},
                Err(e) => {
                    self.runtime_error = RuntimeError::new(e);
                },
            }
        }
    }

    /// Runs the `mouse` handler for a click.
    pub fn execute_mouse(&mut self, x: i32, y: i32)
        requires
            old(self).wf(),
        ensures
            final(self).wf(),
            old(self).runtime_error.error_code != 0 ==> *final(self) == *old(self),
            old(self).runtime_error.error_code == 0 ==> {
                let (s, res) = spec_run_handler(
                    old(self).main_execution.lines,
                    old(self).main_execution.state(),
                    "mouse"@,
                    seq![SValue::Int(x), SValue::Int(y)],
                    old(self).fuel as nat,
                );
                recorded(final(self).runtime_error, res) && final(self).main_execution.state() == s
            },
    {
        if self.runtime_error.error_code != 0 {
            return;
        }
        match self.main_execution.execute_mouse(x, y, self.fuel) {
            Ok(()) => {},
            Err(e) => {
                self.runtime_error = RuntimeError::new(e);
            },
        }
    }

    /// Hands over the commands emitted since the last call, grouped into
    /// blocks; after an error, a single block that reports it.
    pub fn get_commands(&mut self) -> (r: Vec<CommandBlock>)
        requires
            old(self).wf(),
        ensures
            final(self).wf(),
            old(self).runtime_error.error_code != 0 ==> r@.len() == 1 && r@[0].status == CommandStatus::Error,
            old(self).runtime_error.error_code == 0 ==> r@.map_values(|b: CommandBlock| b.view_block()) == spec_blocks(
                old(self).main_execution.state().cmds,
            ),
            final(self).main_execution.state() == (EState { cmds: seq![], ..old(self).main_execution.state() }),
            final(self).main_execution.lines == old(self).main_execution.lines,
    {
        let mut cmds: Vec<String> = Vec::new();
        std::mem::swap(&mut self.main_execution.commands, &mut cmds);
        proof {
            assert(self.main_execution.state().cmds =~= seq![]);
            assert(self.main_execution.state() =~= (EState { cmds: seq![], ..old(self).main_execution.state() }));
        }
        if self.runtime_error.error_code != 0 {
            let mut block = CommandBlock::new();
            block.set_status(3);
            let mut r: Vec<CommandBlock> = Vec::new();
            r.push(block);
            return r;
        }
        group_commands(&cmds)
    }

    pub fn get_runtime_error(&self) -> (r: RuntimeError)
        ensures
            r == self.runtime_error,
    {
        self.runtime_error.clone()
    }
}

/// What compiling a program gives the host: an error code (0 for success)
/// with the error, or a runtime ready to run.
#[derive(Debug)]
pub struct CompilationMessage {
    pub error_code: u32,
    pub error: Option<RuntimeError>,
    pub runtime: Option<Runtime>,
}

/// Type-checks a parsed program and, when it is well typed, prepares a
/// runtime for it.
pub fn compile_program(ast: AstProgram, seed: u64, fuel: u64) -> (r: CompilationMessage)
    ensures
        match spec_check_program(ast) {
            Ok(_) => r.error_code == 0 && r.error is None && r.runtime is Some && r.runtime->0.built_from(ast, seed, fuel),
            Err(se) => r.error_code == spec_error_code(se.0) && r.runtime is None && r.error is Some && recorded(
                r.error->0,
                Err(se),
            ),
        },
{
    let mut program = create_program(ast);
    match program.type_check() {
        Err(e) => {
            let err = RuntimeError::new(e);
            CompilationMessage { error_code: err.error_code, error: Some(err), runtime: None }
        },
        Ok(_) => CompilationMessage { error_code: 0, error: None, runtime: Some(Runtime::new(program.lines, seed, fuel)) },
    }
}

impl CompilationMessage {
    pub fn get_error(&self) -> (r: Option<RuntimeError>)
        ensures
            r == self.error,
    {
        match &self.error {
            Some(e) => Some(e.clone()),
            None => None,
        }
    }

    /// The error's message, or nothing when compiling succeeded.
    pub fn get_error_message(&self) -> (r: String)
        ensures
            match self.error {
                Some(e) => r@ == e.message_view(),
                None => r@ == Seq::<char>::empty(),
            },
    {
        match &self.error {
            Some(e) => e.get_error_message(),
            None => String::new(),
        }
    }
}

} // verus!
