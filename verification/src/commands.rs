use vstd::prelude::*;
use crate::text::{chars_of, trim, trim_bounds};

verus! {

/// A command typed on the console while the game runs.
#[derive(Debug, Copy, Clone, PartialEq, Eq, Structural)]
pub enum Command {
    Nop,
    SwitchRenderMode,
    ReloadActions,
    Quit,
    DecrementWalkTime,
    IncrementWalkTime,
}

/// The command a console line stands for: after trimming, `r` reloads the
/// actions, `m` switches the render mode, `q` quits, `d` and `w` shorten and
/// lengthen the walk cycle; anything else does nothing.
pub open spec fn spec_parse_command(line: Seq<char>) -> Command {
    let t = trim(line);
    if t == seq!['r'] {
        Command::ReloadActions
    } else if t == seq!['m'] {
        Command::SwitchRenderMode
    } else if t == seq!['q'] {
        Command::Quit
    } else if t == seq!['d'] {
        Command::DecrementWalkTime
    } else if t == seq!['w'] {
        Command::IncrementWalkTime
    } else {
        Command::Nop
    }
}

/// The command a console line stands for.
pub fn parse_command(input: &str) -> (c: Command)
    ensures
        c == spec_parse_command(input@),
{
    let v = chars_of(input);
    let (a, b) = trim_bounds(&v, 0, v.len());
    proof {
        assert(v@.subrange(0, v@.len() as int) =~= v@);
    }
    if b - a != 1 {
        proof {
            let t = trim(input@);
            assert(t.len() != 1);
            assert(t != seq!['r'] && t != seq!['m'] && t != seq!['q'] && t != seq!['d'] && t
                != seq!['w']);
        }
        return Command::Nop;
    }
    let c = v[a];
    proof {
        assert(trim(input@) =~= seq![c]);
        assert(seq![c][0] == c);
        assert(seq!['r'][0] == 'r' && seq!['m'][0] == 'm' && seq!['q'][0] == 'q');
        assert(seq!['d'][0] == 'd' && seq!['w'][0] == 'w');
    }
    if c == 'r' {
        Command::ReloadActions
    } else if c == 'm' {
        Command::SwitchRenderMode
    } else if c == 'q' {
        Command::Quit
    } else if c == 'd' {
        Command::DecrementWalkTime
    } else if c == 'w' {
        Command::IncrementWalkTime
    } else {
        Command::Nop
    }
}

} // verus!
