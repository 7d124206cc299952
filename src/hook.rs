//! Hooks: the external commands that a branch type runs around its workflows.
use vstd::prelude::*;
use vstd::string::*;
use crate::config::{strs, BranchType, Command};
use crate::template::{substitute, substituted};

verus! {

/// A point of a workflow where a hook may run. Hooks before an action gate
/// it; hooks after an action are best-effort.
#[derive(Clone, Copy, Debug, PartialEq, Eq, Structural)]
pub enum Hook {
    BeforeStart,
    AfterStart,
    BeforeFinish,
    AfterFinish,
    BeforeDrop,
    AfterDrop,
}

/// The command that `bt` runs at `hook`, if any.
pub open spec fn hook_of(bt: BranchType, hook: Hook) -> Option<Command> {
    match hook {
        Hook::BeforeStart => bt.before_start,
        Hook::AfterStart => bt.after_start,
        Hook::BeforeFinish => bt.before_finish,
        Hook::AfterFinish => bt.after_finish,
        Hook::BeforeDrop => bt.before_drop,
        Hook::AfterDrop => bt.after_drop,
    }
}

/// Each argument with the short name put in for its placeholder.
pub open spec fn hook_args_of(args: Seq<Seq<char>>, short_name: Seq<char>) -> Seq<Seq<char>> {
    args.map_values(|a: Seq<char>| substituted(a, short_name))
}

/// The arguments of `command` with `short_name` put in for the placeholder.
pub fn hook_args(command: &Command, short_name: &str) -> (r: Vec<String>)
    ensures
        strs(r@) == hook_args_of(strs(command.args@), short_name@),
{
    let mut r: Vec<String> = Vec::new();
    let mut i: usize = 0;
    while i < command.args.len()
        invariant
            i <= command.args@.len(),
            strs(r@) == hook_args_of(strs(command.args@.subrange(0, i as int)), short_name@),
        decreases command.args@.len() - i,
    {
        let a = substitute(command.args[i].as_str(), short_name);
        let ghost before = r@;
        r.push(a);
        assert(strs(r@) =~= strs(before).push(a@));
        assert(hook_args_of(strs(command.args@.subrange(0, i + 1)), short_name@) =~= hook_args_of(
            strs(command.args@.subrange(0, i as int)),
            short_name@,
        ).push(a@));
        i = i + 1;
    }
    assert(command.args@.subrange(0, command.args@.len() as int) =~= command.args@);
    r
}

/// The command that `bt` runs at `hook`, with its arguments filled in.
pub fn exec_hook(bt: &BranchType, hook: Hook, short_name: &str) -> (r: Option<Command>)
    ensures
        r is Some <==> hook_of(*bt, hook) is Some,
        r matches Some(c) ==> c.command@ == hook_of(*bt, hook)->0.command@ && strs(c.args@)
            == hook_args_of(strs(hook_of(*bt, hook)->0.args@), short_name@),
{
    let configured = match hook {
        Hook::BeforeStart => &bt.before_start,
        Hook::AfterStart => &bt.after_start,
        Hook::BeforeFinish => &bt.before_finish,
        Hook::AfterFinish => &bt.after_finish,
        Hook::BeforeDrop => &bt.before_drop,
        Hook::AfterDrop => &bt.after_drop,
    };
    match configured {
        None => None,
        Some(c) => Some(
            Command { command: String::from_str(c.command.as_str()), args: hook_args(c, short_name) },
        ),
    }
}

/// The strings of `parts` with one space between each two.
pub open spec fn joined(parts: Seq<Seq<char>>) -> Seq<char>
    decreases parts.len(),
{
    if parts.len() == 0 {
        seq![]
    } else if parts.len() == 1 {
        parts[0]
    } else {
        joined(parts.drop_last()) + " "@ + parts.last()
    }
}

/// A hook as one line of text: the command, a space, and its arguments
/// separated by spaces; nothing when there is no hook.
pub open spec fn command_line(c: Option<Command>) -> Seq<char> {
    match c {
        None => seq![],
        Some(c) => c.command@ + " "@ + joined(strs(c.args@)),
    }
}

/// The hook `command` as one line of text.
pub fn command_to_string(command: &Option<Command>) -> (r: String)
    ensures
        r@ == command_line(*command),
{
    match command {
        None => String::new(),
        Some(c) => {
            let mut r = String::from_str(c.command.as_str());
            r.append(" ");
            let ghost head = r@;
            let mut i: usize = 0;
            while i < c.args.len()
                invariant
                    i <= c.args@.len(),
                    r@ == head + joined(strs(c.args@).subrange(0, i as int)),
                decreases c.args@.len() - i,
            {
                let ghost prev = strs(c.args@).subrange(0, i as int);
                let ghost next = strs(c.args@).subrange(0, i + 1);
                assert(next.drop_last() =~= prev);
                assert(next.last() == c.args@[i as int]@);
                if i > 0 {
                    r.append(" ");
                }
                r.append(c.args[i].as_str());
                proof {
                    if i == 0 {
                        assert(joined(next) == next[0]);
                        assert(prev =~= Seq::<Seq<char>>::empty());
                    }
                }
                assert(r@ =~= head + joined(next));
                i = i + 1;
            }
            assert(strs(c.args@).subrange(0, c.args@.len() as int) =~= strs(c.args@));
            r
        },
    }
}

} // verus!
