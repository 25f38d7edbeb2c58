use vstd::prelude::*;

use crate::error::{Error, ErrorType};
use crate::text::str_eq;

verus! {

/// How a block of commands ends.
#[derive(Debug, Clone, Copy, PartialEq, Eq, Structural)]
pub enum CommandStatus {
    OkDraw,
    OkNoDraw,
    End,
    Error,
}

/// Drawing commands up to a separator, with what the separator asks for: a
/// pause in milliseconds (`-1` after the last block), a frame to be drawn,
/// or the end of the program.
#[derive(Debug)]
pub struct CommandBlock {
    pub status: CommandStatus,
    pub commands: Vec<String>,
    pub sleep_for: i32,
}

/// A block of commands as contracts see it.
pub struct SBlock {
    pub status: CommandStatus,
    pub commands: Seq<Seq<char>>,
    pub sleep_for: i32,
}

pub open spec fn empty_block() -> SBlock {
    SBlock { status: CommandStatus::OkNoDraw, commands: seq![], sleep_for: 0 }
}

pub open spec fn is_digit(c: char) -> bool {
    48 <= (c as u32) <= 57
}

pub open spec fn digit_val(c: char) -> int {
    (c as u32) as int - 48
}

/// The value of a string of digits, most significant first.
pub open spec fn spec_digits_val(s: Seq<char>) -> int
    decreases s.len(),
{
    if s.len() == 0 {
        0
    } else {
        spec_digits_val(s.drop_last()) * 10 + digit_val(s.last())
    }
}

/// The value of a non-empty string of decimal digits.
pub open spec fn spec_parse_nat(s: Seq<char>) -> Option<int> {
    if s.len() > 0 && (forall|j: int| 0 <= j < s.len() ==> #[trigger] is_digit(s[j])) {
        Some(spec_digits_val(s))
    } else {
        None
    }
}

/// The pause a `sleep` command asks for.
pub open spec fn spec_sleep_time(c: Seq<char>) -> Option<i32> {
    if c.len() > 6 && c.subrange(0, 6) == "sleep "@ {
        match spec_parse_nat(c.subrange(6, c.len() as int)) {
            Some(n) => if n <= i32::MAX { Some(n as i32) } else { None },
            None => None,
        }
    } else {
        None
    }
}

/// Folds commands into blocks: `(finished blocks, open block, ended)`.
pub open spec fn spec_group(cmds: Seq<Seq<char>>) -> (Seq<SBlock>, SBlock, bool)
    decreases cmds.len(),
{
    if cmds.len() == 0 {
        (seq![], empty_block(), false)
    } else {
        let (done, open, ended) = spec_group(cmds.drop_last());
        let c = cmds.last();
        if ended {
            (done, open, ended)
        } else if c == "end"@ {
            (done.push(SBlock { status: CommandStatus::End, sleep_for: -1i32, ..open }), empty_block(), true)
        } else if c == "frame"@ {
            (done.push(SBlock { status: CommandStatus::OkDraw, ..open }), empty_block(), false)
        } else {
            match spec_sleep_time(c) {
                Some(t) => (done.push(SBlock { sleep_for: t, ..open }), empty_block(), false),
                None => (done, SBlock { commands: open.commands.push(c), ..open }, false),
            }
        }
    }
}

/// The blocks that a command sequence splits into: up to and including the
/// one that `end` closes, or, without `end`, all closed ones and the open one.
pub open spec fn spec_blocks(cmds: Seq<Seq<char>>) -> Seq<SBlock> {
    let (done, open, ended) = spec_group(cmds);
    if ended {
        done
    } else {
        done.push(open)
    }
}

impl CommandBlock {
    pub open spec fn view_block(&self) -> SBlock {
        SBlock { status: self.status, commands: self.commands@.map_values(|c: String| c@), sleep_for: self.sleep_for }
    }

    pub fn new() -> (r: CommandBlock)
        ensures
            r.view_block() == empty_block(),
    {
        let r = CommandBlock { commands: Vec::new(), sleep_for: 0, status: CommandStatus::OkNoDraw };
        proof {
            assert(r.view_block().commands =~= seq![]);
        }
        r
    }

    /// The block's drawing commands.
    pub fn get_commands(&self) -> (r: Vec<String>)
        ensures
            r@.map_values(|c: String| c@) == self.view_block().commands,
    {
        let mut out: Vec<String> = Vec::new();
        let mut i: usize = 0;
        while i < self.commands.len()
            invariant
                i <= self.commands@.len(),
                out@.len() == i,
                forall|j: int| 0 <= j < i ==> #[trigger] out@[j]@ == self.commands@[j]@,
            decreases self.commands.len() - i,
        {
            out.push(self.commands[i].clone());
            i += 1;
        }
        proof {
            assert(out@.map_values(|c: String| c@) =~= self.commands@.map_values(|c: String| c@));
        }
        out
    }

    /// The status code: 0 draw a frame, 1 go on, 2 end, 3 error.
    pub fn get_status(&self) -> (r: u8)
        ensures
            r == match self.status {
                CommandStatus::OkDraw => 0u8,
                CommandStatus::OkNoDraw => 1u8,
                CommandStatus::End => 2u8,
                CommandStatus::Error => 3u8,
            },
    {
        match self.status {
            CommandStatus::OkDraw => 0,
            CommandStatus::OkNoDraw => 1,
            CommandStatus::End => 2,
            CommandStatus::Error => 3,
        }
    }

    /// Sets the status from its code; an unknown code means "go on".
    pub fn set_status(&mut self, status: u8)
        ensures
            final(self).status == match status {
                0u8 => CommandStatus::OkDraw,
                2u8 => CommandStatus::End,
                3u8 => CommandStatus::Error,
                _ => CommandStatus::OkNoDraw,
            },
            final(self).commands == old(self).commands,
            final(self).sleep_for == old(self).sleep_for,
    {
        self.status = match status {
            0 => CommandStatus::OkDraw,
            1 => CommandStatus::OkNoDraw,
            2 => CommandStatus::End,
            3 => CommandStatus::Error,
            _ => CommandStatus::OkNoDraw,
        };
    }

    /// Appends a drawing command; returns a copy of the block as it is then.
    pub fn push(&mut self, command: String) -> (r: CommandBlock)
        ensures
            final(self).view_block() == (SBlock { commands: old(self).view_block().commands.push(command@), ..old(self).view_block() }),
            r.view_block() == final(self).view_block(),
    {
        self.commands.push(command);
        proof {
            assert(self.view_block().commands =~= old(self).view_block().commands.push(command@));
        }
        self.copy()
    }

    fn append(&mut self, command: String)
        ensures
            final(self).view_block() == (SBlock { commands: old(self).view_block().commands.push(command@), ..old(self).view_block() }),
    {
        self.commands.push(command);
        proof {
            assert(self.view_block().commands =~= old(self).view_block().commands.push(command@));
        }
    }

    /// A copy of the block.
    pub fn copy(&self) -> (r: CommandBlock)
        ensures
            r.view_block() == self.view_block(),
    {
        CommandBlock { status: self.status, commands: self.get_commands(), sleep_for: self.sleep_for }
    }
}

fn parse_nat(s: &str, from: usize) -> (r: Option<i64>)
    requires
        from <= s@.len(),
    ensures
        match spec_parse_nat(s@.subrange(from as int, s@.len() as int)) {
            Some(n) => if n <= i32::MAX { r == Some(n as i64) } else { r is None },
            None => r is None,
        },
        r is Some ==> 0 <= r->0 <= i32::MAX,
{
    let n = s.unicode_len();
    let ghost whole = s@.subrange(from as int, n as int);
    if from == n {
        return None;
    }
    let mut acc: i64 = 0;
    let mut i: usize = from;
    proof {
        assert(whole.subrange(0, 0) =~= seq![]);
    }
    while i < n
        invariant
            from <= i <= n,
            n == s@.len(),
            whole == s@.subrange(from as int, n as int),
            forall|j: int| 0 <= j < i - from ==> #[trigger] is_digit(whole[j]),
            acc as int == spec_digits_val(whole.subrange(0, i - from)),
            0 <= acc <= i32::MAX,
        decreases n - i,
    {
        let c = s.get_char(i);
        proof {
            assert(whole[i - from] == c);
            assert(whole.subrange(0, i + 1 - from).drop_last() =~= whole.subrange(0, i - from));
        }
        if !(48 <= (c as u32) && (c as u32) <= 57) {
            proof {
                assert(!is_digit(whole[i - from]));
            }
            return None;
        }
        let d = ((c as u32) - 48) as i64;
        if acc * 10 + d > i32::MAX as i64 {
            proof {
                if forall|j: int| 0 <= j < whole.len() ==> #[trigger] is_digit(whole[j]) {
                    lemma_digits_val_grows(whole, (i + 1 - from) as int);
                }
            }
            return None;
        }
        acc = acc * 10 + d;
        i += 1;
    }
    proof {
        assert(whole.subrange(0, i - from) =~= whole);
    }
    Some(acc)
}

/// The value of digits is at least that of any of their prefixes.
proof fn lemma_digits_val_grows(s: Seq<char>, k: int)
    requires
        0 <= k <= s.len(),
        forall|j: int| 0 <= j < s.len() ==> #[trigger] is_digit(s[j]),
    ensures
        spec_digits_val(s) >= spec_digits_val(s.subrange(0, k)),
    decreases s.len(),
{
    if k < s.len() {
        assert(s.drop_last().subrange(0, k) =~= s.subrange(0, k));
        assert forall|j: int| 0 <= j < s.drop_last().len() implies #[trigger] is_digit(s.drop_last()[j]) by {
            assert(s.drop_last()[j] == s[j]);
        }
        lemma_digits_val_grows(s.drop_last(), k);
        lemma_digits_val_nonneg(s.drop_last());
        assert(is_digit(s[s.len() - 1]));
    } else {
        assert(s.subrange(0, k) =~= s);
    }
}

proof fn lemma_digits_val_nonneg(s: Seq<char>)
    requires
        forall|j: int| 0 <= j < s.len() ==> #[trigger] is_digit(s[j]),
    ensures
        spec_digits_val(s) >= 0,
    decreases s.len(),
{
    if s.len() > 0 {
        assert forall|j: int| 0 <= j < s.drop_last().len() implies #[trigger] is_digit(s.drop_last()[j]) by {
            assert(s.drop_last()[j] == s[j]);
        }
        lemma_digits_val_nonneg(s.drop_last());
        assert(is_digit(s[s.len() - 1]));
    }
}

/// The pause that a `sleep` command asks for, if it is one.
fn sleep_time(c: &String) -> (r: Option<i32>)
    ensures
        r == spec_sleep_time(c@),
{
    let s = c.as_str();
    let n = s.unicode_len();
    if n <= 6 {
        return None;
    }
    let head = s.substring_char(0, 6);
    if !str_eq(head, "sleep ") {
        return None;
    }
    proof {
        let sub = s@.subrange(6, s@.len() as int);
        if spec_parse_nat(sub) is Some {
            lemma_digits_val_nonneg(sub);
        }
    }
    match parse_nat(s, 6) {
        Some(v) => Some(v as i32),
        None => None,
    }
}

/// Splits emitted commands into blocks at `sleep`, `frame` and `end`.
pub fn group_commands(cmds: &Vec<String>) -> (r: Vec<CommandBlock>)
    ensures
        r@.map_values(|b: CommandBlock| b.view_block()) == spec_blocks(cmds@.map_values(|c: String| c@)),
{
    let ghost cv = cmds@.map_values(|c: String| c@);
    let mut result: Vec<CommandBlock> = Vec::new();
    let mut block = CommandBlock::new();
    let mut i: usize = 0;
    proof {
        assert(cv.subrange(0, 0) =~= seq![]);
        assert(result@.map_values(|b: CommandBlock| b.view_block()) =~= seq![]);
    }
    while i < cmds.len()
        invariant
            i <= cmds@.len(),
            cv == cmds@.map_values(|c: String| c@),
            spec_group(cv.subrange(0, i as int)) == (result@.map_values(|b: CommandBlock| b.view_block()), block.view_block(), false),
        decreases cmds.len() - i,
    {
        proof {
            assert(cv.subrange(0, i + 1).drop_last() =~= cv.subrange(0, i as int));
        }
        let c = &cmds[i];
        let ghost before = result@;
        if str_eq(c.as_str(), "end") {
            block.sleep_for = -1;
            block.status = CommandStatus::End;
            result.push(block);
            proof {
                assert(result@.map_values(|b: CommandBlock| b.view_block()) =~= before.map_values(|b: CommandBlock| b.view_block()).push(result@.last().view_block()));
                lemma_group_stays_ended(cv, (i + 1) as int);
                assert(cv.subrange(0, cv.len() as int) =~= cv);
            }
            return result;
        } else if str_eq(c.as_str(), "frame") {
            block.status = CommandStatus::OkDraw;
            result.push(block);
            block = CommandBlock::new();
            proof {
                assert(result@.map_values(|b: CommandBlock| b.view_block()) =~= before.map_values(|b: CommandBlock| b.view_block()).push(result@.last().view_block()));
            }
        } else {
            match sleep_time(c) {
                Some(t) => {
                    block.sleep_for = t;
                    result.push(block);
                    block = CommandBlock::new();
                    proof {
                        assert(result@.map_values(|b: CommandBlock| b.view_block()) =~= before.map_values(|b: CommandBlock| b.view_block()).push(result@.last().view_block()));
                    }
                },
                None => {
                    block.append(c.clone());
                },
            }
        }
        i += 1;
    }
    proof {
        assert(cv.subrange(0, i as int) =~= cv);
    }
    result.push(block);
    proof {
        assert(result@.map_values(|b: CommandBlock| b.view_block()) =~= spec_blocks(cv));
    }
    result
}

/// Once `end` has been seen, later commands change nothing.
proof fn lemma_group_stays_ended(cv: Seq<Seq<char>>, k: int)
    requires
        0 <= k <= cv.len(),
        spec_group(cv.subrange(0, k)).2,
    ensures
        spec_group(cv) == spec_group(cv.subrange(0, k)),
    decreases cv.len() - k,
{
    if k < cv.len() {
        assert(cv.subrange(0, k + 1).drop_last() =~= cv.subrange(0, k));
        lemma_group_stays_ended(cv, k + 1);
    } else {
        assert(cv.subrange(0, k) =~= cv);
    }
}

/// The numeric code of an error kind: 1 parse, 2 logic, 3 type, 4 runtime.
pub open spec fn spec_error_code(t: ErrorType) -> u32 {
    match t {
        ErrorType::ParseError => 1,
        ErrorType::LogicError => 2,
        ErrorType::TypeError => 3,
        ErrorType::RuntimeError => 4,
    }
}

/// An error as the host sees it: a code (0 for none), a message and a span.
#[derive(Debug)]
pub struct RuntimeError {
    pub error_code: u32,
    pub error_message: String,
    pub start_row: usize,
    pub start_column: usize,
    pub end_row: usize,
    pub end_column: usize,
}

impl RuntimeError {
    pub open spec fn message_view(&self) -> Seq<char> {
        self.error_message@
    }

    pub fn get_error_message(&self) -> (r: String)
        ensures
            r@ == self.message_view(),
    {
        self.error_message.clone()
    }

    /// No error.
    pub fn zero() -> (r: RuntimeError)
        ensures
            r.error_code == 0,
            r.message_view() == Seq::<char>::empty(),
            r.start_row == 0 && r.start_column == 0 && r.end_row == 0 && r.end_column == 0,
    {
        RuntimeError { error_code: 0, error_message: String::new(), start_row: 0, start_column: 0, end_row: 0, end_column: 0 }
    }

    /// The host's view of an error.
    pub fn new(error: Error) -> (r: RuntimeError)
        ensures
            r.error_code == spec_error_code(error.error_type),
            r.message_view() == error.message@,
            r.start_row == error.start.0 && r.start_column == error.start.1,
            r.end_row == error.finish.0 && r.end_column == error.finish.1,
    {
        let code: u32 = match error.error_type {
            ErrorType::ParseError => 1,
            ErrorType::LogicError => 2,
            ErrorType::TypeError => 3,
            ErrorType::RuntimeError => 4,
        };
        RuntimeError {
            error_code: code,
            error_message: error.message,
            start_row: error.start.0,
            start_column: error.start.1,
            end_row: error.finish.0,
            end_column: error.finish.1,
        }
    }
}

impl Clone for RuntimeError {
    fn clone(&self) -> (r: Self)
        ensures
            r == *self,
    {
        RuntimeError {
            error_code: self.error_code,
            error_message: self.error_message.clone(),
            start_row: self.start_row,
            start_column: self.start_column,
            end_row: self.end_row,
            end_column: self.end_column,
        }
    }
}

} // verus!
