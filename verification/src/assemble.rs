//! The assembler: walks the history records in reverse — oldest layer
//! first, the order the original build script had — classifies each
//! record's command string, and collects the instructions that come back.
//! Also the renderer for the final output text, and the decision logic of
//! one whole run.

use vstd::prelude::*;
use crate::classify::{classify_spec, parse_created_by};
use crate::history::{history_spec, parse_history, HistoryRecord};
use crate::text::{trim_spec, trim_start_spec, trim_start_str, trim_str};

verus! {

/// The instructions one record contributes: its command string is trimmed
/// and classified, and a command the classifier maps to nothing contributes
/// none.
pub open spec fn instruction_of(cmd: Seq<char>) -> Seq<Seq<char>> {
    match classify_spec(trim_spec(cmd)) {
        None => Seq::empty(),
        Some(x) => seq![x],
    }
}

/// The assembled instruction list for command strings given newest-first:
/// the last (oldest) record's instruction comes first.
pub open spec fn assemble_spec(cmds: Seq<Seq<char>>) -> Seq<Seq<char>>
    decreases cmds.len(),
{
    if cmds.len() == 0 {
        Seq::empty()
    } else {
        assemble_spec(cmds.drop_first()) + instruction_of(cmds.first())
    }
}

/// The instruction list for command strings already in build order, walked
/// front to back.
pub open spec fn collect_in_order(cmds: Seq<Seq<char>>) -> Seq<Seq<char>>
    decreases cmds.len(),
{
    if cmds.len() == 0 {
        Seq::empty()
    } else {
        instruction_of(cmds.first()) + collect_in_order(cmds.drop_first())
    }
}

proof fn lemma_assemble_unfold_last(cmds: Seq<Seq<char>>)
    requires
        cmds.len() > 0,
    ensures
        assemble_spec(cmds) == instruction_of(cmds.last()) + assemble_spec(cmds.drop_last()),
    decreases cmds.len(),
{
    if cmds.len() == 1 {
        assert(cmds.drop_first() =~= Seq::<Seq<char>>::empty());
        assert(cmds.drop_last() =~= Seq::<Seq<char>>::empty());
        assert(Seq::<Seq<char>>::empty() + instruction_of(cmds.first()) =~= instruction_of(
            cmds.first(),
        ) + Seq::<Seq<char>>::empty());
    } else {
        let tail = cmds.drop_first();
        lemma_assemble_unfold_last(tail);
        assert(tail.last() == cmds.last());
        assert(tail.drop_last() =~= cmds.drop_last().drop_first());
        assert(cmds.drop_last().first() == cmds.first());
        assert(cmds.drop_last().len() > 0);
        assert((instruction_of(cmds.last()) + assemble_spec(tail.drop_last())) + instruction_of(
            cmds.first(),
        ) =~= instruction_of(cmds.last()) + (assemble_spec(cmds.drop_last().drop_first())
            + instruction_of(cmds.drop_last().first())));
    }
}

/// Law: assembling records given newest-first yields exactly the classifier
/// results of the reversed — build-order — command sequence, walked front to
/// back, with absent results omitted.
pub proof fn lemma_assemble_reverses(cmds: Seq<Seq<char>>)
    ensures
        assemble_spec(cmds) == collect_in_order(cmds.reverse()),
    decreases cmds.len(),
{
    if cmds.len() == 0 {
        assert(cmds.reverse() =~= Seq::<Seq<char>>::empty());
    } else {
        lemma_assemble_unfold_last(cmds);
        lemma_assemble_reverses(cmds.drop_last());
        assert(cmds.reverse().len() > 0);
        assert(cmds.reverse().first() == cmds.last());
        assert(cmds.reverse().drop_first() =~= cmds.drop_last().reverse());
    }
}

/// Assembles the reconstructed instruction lines from history records given
/// newest layer first: each record's command string is trimmed and
/// classified, in reverse record order, and the instructions are collected
/// in build order.
pub fn assemble(records: &Vec<HistoryRecord>) -> (r: Vec<String>)
    ensures
        r@.map_values(|s: String| s@) == assemble_spec(
            records@.map_values(|h: HistoryRecord| h@),
        ),
{
    let ghost cmds = records@.map_values(|h: HistoryRecord| h@);
    let mut out: Vec<String> = Vec::new();
    let mut i: usize = records.len();
    proof {
        assert(cmds.skip(records.len() as int) =~= Seq::<Seq<char>>::empty());
    }
    while i > 0
        invariant
            i <= records.len(),
            cmds == records@.map_values(|h: HistoryRecord| h@),
            out@.map_values(|s: String| s@) == assemble_spec(cmds.skip(i as int)),
        decreases i,
    {
        i = i - 1;
        let ghost suffix = cmds.skip(i as int);
        proof {
            assert(suffix.first() == cmds[i as int]);
            assert(suffix.drop_first() =~= cmds.skip(i as int + 1));
        }
        let cmd: String = trim_str(records[i].created_by.as_str());
        let ghost prev = out@;
        match parse_created_by(cmd.as_str()) {
            Some(instr) => {
                out.push(instr);
                proof {
                    assert(out@.map_values(|s: String| s@) =~= prev.map_values(|s: String| s@)
                        + instruction_of(suffix.first()));
                }
            },
            None => {
                proof {
                    assert(out@.map_values(|s: String| s@) =~= prev.map_values(|s: String| s@)
                        + instruction_of(suffix.first()));
                }
            },
        }
    }
    proof {
        assert(cmds.skip(0) =~= cmds);
    }
    out
}

/// The rendered output text: each instruction, leading whitespace removed,
/// followed by a blank line.
pub open spec fn render_spec(instrs: Seq<Seq<char>>) -> Seq<char>
    decreases instrs.len(),
{
    if instrs.len() == 0 {
        Seq::empty()
    } else {
        trim_start_spec(instrs.first()) + "\n\n"@ + render_spec(instrs.drop_first())
    }
}

/// Renders the assembled instructions as one text block per instruction,
/// each followed by a blank line, in the given order.
pub fn render(instrs: &Vec<String>) -> (r: String)
    ensures
        r@ == render_spec(instrs@.map_values(|s: String| s@)),
{
    let ghost full = instrs@.map_values(|s: String| s@);
    let mut r: String = String::new();
    let mut i: usize = 0;
    proof {
        assert(full.skip(0) =~= full);
    }
    while i < instrs.len()
        invariant
            i <= instrs.len(),
            full == instrs@.map_values(|s: String| s@),
            render_spec(full) == r@ + render_spec(full.skip(i as int)),
        decreases instrs.len() - i,
    {
        let ghost suffix = full.skip(i as int);
        proof {
            assert(suffix.first() == full[i as int]);
            assert(suffix.drop_first() =~= full.skip(i as int + 1));
        }
        let line: String = trim_start_str(instrs[i].as_str());
        let ghost prev = r@;
        r.append(line.as_str());
        r.append("\n\n");
        proof {
            assert(render_spec(suffix) == trim_start_spec(suffix.first()) + "\n\n"@ + render_spec(
                suffix.drop_first(),
            ));
            assert(prev + (trim_start_spec(suffix.first()) + "\n\n"@ + render_spec(
                full.skip(i as int + 1),
            )) =~= ((prev + trim_start_spec(suffix.first())) + "\n\n"@) + render_spec(full.skip(
                i as int + 1,
            )));
        }
        i += 1;
    }
    proof {
        assert(render_spec(full.skip(i as int)) =~= Seq::<char>::empty());
        assert(r@ + Seq::<char>::empty() =~= r@);
    }
    r
}

/// Why a run produced no instructions.
#[derive(Debug, PartialEq, Eq)]
pub enum RunError {
    /// The runtime invocation itself failed; the field carries its error
    /// text verbatim.
    Runtime(String),
    /// Some history line could not be parsed as a structured record, so no
    /// partial reconstruction is attempted.
    MalformedHistory,
}

/// The decision logic of one whole run: given whether the runtime
/// invocation succeeded, its error text and its raw history output, either
/// the assembled instruction lines in build order, or the reason the run
/// yields none.
pub fn process_run(success: bool, stderr: &str, stdout: &str) -> (r: Result<
    Vec<String>,
    RunError,
>)
    ensures
        !success ==> (r matches Err(RunError::Runtime(msg)) && msg@ == stderr@),
        success ==> (match history_spec(stdout@) {
            None => r matches Err(RunError::MalformedHistory),
            Some(cmds) => r matches Ok(out) && out@.map_values(|s: String| s@)
                == assemble_spec(cmds),
        }),
{
    if !success {
        return Err(RunError::Runtime(stderr.to_owned()));
    }
    match parse_history(stdout) {
        None => Err(RunError::MalformedHistory),
        Some(records) => Ok(assemble(&records)),
    }
}

} // verus!
