//! The game loop's decisions: the prompt, and what one line of input does
//! to the world.  Reading the line, printing, saving and the interactive
//! combat belong to the program that runs the loop.

use vstd::prelude::*;
use vstd::string::*;
use crate::command::{exec_outcome, execute_at, parse, parse_result, CommandModel, ExecResult};
use crate::engine::current_unix_secs;
use crate::engine::entity::EntityId;
use crate::engine::world::World;
use crate::text::{chars_of, str_is_empty, string_of, trim, trim_vec};
use crate::vfs::Vfs;

verus! {

/// What the loop does after one line of input.
pub enum Step {
    /// Nothing to show.
    Idle,
    /// Text to print.
    Show(String),
    /// Save the game.
    Save,
    /// Say goodbye, save and stop.
    Quit,
    /// Run the combat against this monster, then hand its outcome to
    /// `command::finish_attack`.
    Fight(EntityId),
}

/// The prompt: `name@area cwd $ `.
pub open spec fn prompt_spec(w: World, cwd: Seq<char>) -> Seq<char> {
    w.player.name@ + "@"@ + w.player_area@ + " "@ + cwd + " $ "@
}

/// The prompt shown before each line of input.
pub fn prompt(world: &World, vfs: &Vfs) -> (r: String)
    ensures
        r@ == prompt_spec(*world, vfs.cwd_view()),
{
    let mut s = world.player.name.clone();
    s.append("@");
    s.append(world.player_area.as_str());
    s.append(" ");
    s.append(vfs.pwd());
    s.append(" $ ");
    s
}

/// The name given to a new character when none is typed.
pub const DEFAULT_CHARACTER_NAME: &'static str = "勇者";

/// The name of a new character: the typed line without surrounding white
/// space, or [`DEFAULT_CHARACTER_NAME`] when nothing is left.
pub fn character_name(input: &str) -> (r: String)
    ensures
        r@ == (if trim(input@).len() == 0 { DEFAULT_CHARACTER_NAME@ } else { trim(input@) }),
{
    let t = trim_vec(&chars_of(input));
    if t.len() == 0 {
        String::from_str(DEFAULT_CHARACTER_NAME)
    } else {
        string_of(&t)
    }
}

/// The step that an execution result asks for.
pub open spec fn step_of(r: ExecResult, s: Step) -> bool {
    match r {
        ExecResult::Output(t) => if t@.len() == 0 {
            s is Idle
        } else {
            s matches Step::Show(u) && u@ == t@
        },
        ExecResult::Done => s is Idle,
        ExecResult::Quit => s is Quit,
        ExecResult::Fight(id) => s == Step::Fight(id),
    }
}

/// The effect of one line of input at time `now`.
pub open spec fn step_outcome(input: Seq<char>, w0: World, w1: World, cwd0: Seq<char>, cwd1: Seq<char>, now: u64, s: Step) -> bool {
    let line = trim(input);
    if line.len() == 0 {
        s is Idle && w1 == w0 && cwd1 == cwd0
    } else {
        match parse_result(line) {
            Err(e) => w1 == w0 && cwd1 == cwd0 && if e.len() == 0 {
                s is Idle
            } else {
                s matches Step::Show(u) && u@ == e
            },
            Ok(CommandModel::Save) => s is Save && w1 == w0 && cwd1 == cwd0,
            Ok(c) => exists|r: ExecResult| exec_outcome(c, w0, w1, cwd0, cwd1, now, r) && step_of(r, s),
        }
    }
}

/// What one line of input does, with crop and animal readiness judged at
/// time `now`.
pub fn step_at(input: &str, world: &mut World, vfs: &mut Vfs, now: u64) -> (s: Step)
    requires
        old(world).wf(),
        old(world).next_id + 5 <= u64::MAX,
    ensures
        final(world).wf(),
        step_outcome(input@, *old(world), *final(world), old(vfs).cwd_view(), final(vfs).cwd_view(), now, s),
{
    let line = string_of(&trim_vec(&chars_of(input)));
    if str_is_empty(line.as_str()) {
        return Step::Idle;
    }
    let cmd = match parse(line.as_str()) {
        Ok(c) => c,
        Err(e) => {
            if str_is_empty(e.as_str()) {
                return Step::Idle;
            }
            return Step::Show(e);
        },
    };
    if let crate::command::Command::Save = cmd {
        return Step::Save;
    }
    let ghost c = cmd@;
    let r = execute_at(cmd, world, vfs, now);
    let ghost rr = r;
    let s = match r {
        ExecResult::Output(t) => if str_is_empty(t.as_str()) {
            Step::Idle
        } else {
            Step::Show(t)
        },
        ExecResult::Done => Step::Idle,
        ExecResult::Quit => Step::Quit,
        ExecResult::Fight(id) => Step::Fight(id),
    };
    assert(step_of(rr, s));
    assert(parse_result(trim(input@)) == Ok::<CommandModel, Seq<char>>(c));
    s
}

/// What one line of input does, with crop and animal readiness judged by
/// the clock.
pub fn step(input: &str, world: &mut World, vfs: &mut Vfs) -> (s: Step)
    requires
        old(world).wf(),
        old(world).next_id + 5 <= u64::MAX,
    ensures
        final(world).wf(),
        exists|now: u64| step_outcome(input@, *old(world), *final(world), old(vfs).cwd_view(), final(vfs).cwd_view(), now, s),
{
    let now = current_unix_secs();
    step_at(input, world, vfs, now)
}

} // verus!
