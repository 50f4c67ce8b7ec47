//! Lines the shell writes about jobs: a job started in the background, and
//! a foreground job that was stopped.

use vstd::prelude::*;
use crate::render::join_spaced;
use crate::text::{decimal, push_decimal_u64, push_str};

verus! {

/// `[id] pgid`, written when a background job starts.
pub open spec fn started_text(id: nat, pgid: nat) -> Seq<char> {
    "["@ + decimal(id) + "] "@ + decimal(pgid) + "\n"@
}

/// `[id]+  Suspended …  command`, written when a foreground job stops.
pub open spec fn suspended_text(id: nat, command: Seq<char>) -> Seq<char> {
    "["@ + decimal(id) + "]+  Suspended                 "@ + command + "\n"@
}

/// The text a job made of one command is listed under: its words joined
/// by single spaces.
pub fn job_command(argv: &Vec<String>) -> (s: String)
    ensures
        s@ == join_spaced(argv@),
{
    let mut s = String::new();
    let mut i: usize = 0;
    while i < argv.len()
        invariant
            i <= argv@.len(),
            s@ == join_spaced(argv@.take(i as int)),
        decreases argv.len() - i,
    {
        let ghost before = argv@.take(i as int);
        if i > 0 {
            push_str(&mut s, " ");
            proof {
                reveal_strlit(" ");
            }
        }
        push_str(&mut s, argv[i].as_str());
        proof {
            let now = argv@.take(i + 1);
            assert(now.drop_last() =~= before);
            assert(now.last() == argv@[i as int]);
            if i == 0 {
                assert(now.len() == 1);
                assert(s@ =~= now[0]@);
            } else {
                assert(s@ =~= join_spaced(before) + seq![' '] + now.last()@);
            }
        }
        i += 1;
    }
    assert(argv@.take(argv@.len() as int) =~= argv@);
    s
}

/// The line written when a background job starts.
pub fn started_notice(id: u64, pgid: u64) -> (s: String)
    ensures
        s@ == started_text(id as nat, pgid as nat),
{
    let mut s = String::new();
    push_str(&mut s, "[");
    push_decimal_u64(&mut s, id);
    push_str(&mut s, "] ");
    push_decimal_u64(&mut s, pgid);
    push_str(&mut s, "\n");
    proof {
        reveal_strlit("[");
        reveal_strlit("] ");
        reveal_strlit("\n");
        assert(s@ =~= started_text(id as nat, pgid as nat));
    }
    s
}

/// The line written when a foreground job is stopped.
pub fn suspended_notice(id: u64, command: &str) -> (s: String)
    ensures
        s@ == suspended_text(id as nat, command@),
{
    let mut s = String::new();
    push_str(&mut s, "[");
    push_decimal_u64(&mut s, id);
    push_str(&mut s, "]+  Suspended                 ");
    push_str(&mut s, command);
    push_str(&mut s, "\n");
    proof {
        reveal_strlit("[");
        reveal_strlit("]+  Suspended                 ");
        reveal_strlit("\n");
        assert(s@ =~= suspended_text(id as nat, command@));
    }
    s
}

} // verus!
