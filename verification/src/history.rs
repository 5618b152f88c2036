//! The record normalizer: turns the runtime's raw per-layer history output —
//! one self-contained JSON record per line, newest layer first — into an
//! ordered sequence of history records, each carrying its free-form
//! "created by" command string. Blank lines are discarded; a line that is
//! not a JSON document is fatal for the whole run.

use vstd::prelude::*;
use crate::text::{split_lines, split_lines_spec, trim_spec, trim_str};

verus! {

/// One entry of the image's layer history.
pub struct HistoryRecord {
    /// The free-form command string the build process recorded for the
    /// layer; empty when the record carries none.
    pub created_by: String,
}

impl View for HistoryRecord {
    type V = Seq<char>;

    open spec fn view(&self) -> Seq<char> {
        self.created_by@
    }
}

/// What one trimmed history line holds: nothing when the line is not a JSON
/// document, otherwise its `CreatedBy` string member (empty when the
/// document has no such string member).
pub uninterp spec fn created_by_of(line: Seq<char>) -> Option<Seq<char>>;

/// Relies on `serde_json::from_str::<serde_json::Value>`,
/// `serde_json::Value::get` and `serde_json::Value::as_str`: whether a line
/// parses as a JSON document, and what its `CreatedBy` member holds, are
/// functions of the line's characters alone. `None` stands for a line that
/// does not parse; otherwise the result is the document's `CreatedBy` string
/// member, or empty when there is no such string member.
#[verifier::external_body]
fn extract_created_by(line: &str) -> (r: Option<String>)
    ensures
        (r is Some) == (created_by_of(line@) is Some),
        r matches Some(c) ==> created_by_of(line@) == Some(c@),
{
    match serde_json::from_str::<serde_json::Value>(line) {
        Err(_) => None,
        Ok(v) => match v.get("CreatedBy") {
            None => Some(String::new()),
            Some(c) => match c.as_str() {
                None => Some(String::new()),
                Some(s) => Some(s.to_owned()),
            },
        },
    }
}

/// The command strings carried by a sequence of trimmed-and-kept lines:
/// blank lines drop out, and a line whose trimmed text is not a JSON
/// document poisons the whole result.
pub open spec fn history_of_lines(ls: Seq<Seq<char>>) -> Option<Seq<Seq<char>>>
    decreases ls.len(),
{
    if ls.len() == 0 {
        Some(Seq::empty())
    } else {
        let t = trim_spec(ls.first());
        if t.len() == 0 {
            history_of_lines(ls.drop_first())
        } else {
            match created_by_of(t) {
                None => None,
                Some(c) => match history_of_lines(ls.drop_first()) {
                    None => None,
                    Some(rest) => Some(seq![c] + rest),
                },
            }
        }
    }
}

/// The command strings of the whole raw history text, line order kept
/// (newest layer first), or nothing when some line is malformed.
pub open spec fn history_spec(raw: Seq<char>) -> Option<Seq<Seq<char>>> {
    history_of_lines(split_lines_spec(raw))
}

/// Parses the runtime's raw history output into records, newest layer
/// first. Blank and whitespace-only lines are discarded; `None` means some
/// remaining line is not a JSON document, which is fatal for the run.
pub fn parse_history(raw: &str) -> (r: Option<Vec<HistoryRecord>>)
    ensures
        (match r {
            Some(recs) => history_spec(raw@) == Some(
                recs@.map_values(|h: HistoryRecord| h@),
            ),
            None => history_spec(raw@) is None,
        }),
{
    let lines: Vec<String> = split_lines(raw);
    let ghost ls = lines@.map_values(|l: String| l@);
    let mut recs: Vec<HistoryRecord> = Vec::new();
    let mut i: usize = 0;
    proof {
        assert(ls.skip(0) =~= ls);
    }
    while i < lines.len()
        invariant
            i <= lines.len(),
            ls == lines@.map_values(|l: String| l@),
            ls == split_lines_spec(raw@),
            history_of_lines(ls) == (match history_of_lines(ls.skip(i as int)) {
                None => None::<Seq<Seq<char>>>,
                Some(rest) => Some(recs@.map_values(|h: HistoryRecord| h@) + rest),
            }),
        decreases lines.len() - i,
    {
        let t: String = trim_str(lines[i].as_str());
        let ghost suffix = ls.skip(i as int);
        proof {
            assert(suffix.first() == ls[i as int]);
            assert(suffix.drop_first() =~= ls.skip(i as int + 1));
        }
        if t.unicode_len() > 0 {
            match extract_created_by(t.as_str()) {
                Some(c) => {
                    let ghost prev = recs@;
                    recs.push(HistoryRecord { created_by: c });
                    proof {
                        assert(recs@.map_values(|h: HistoryRecord| h@) =~= prev.map_values(
                            |h: HistoryRecord| h@,
                        ) + seq![c@]);
                        let hrest = history_of_lines(ls.skip(i as int + 1));
                        if hrest is Some {
                            let rest = hrest->Some_0;
                            assert(prev.map_values(|h: HistoryRecord| h@) + (seq![c@] + rest)
                                =~= (prev.map_values(|h: HistoryRecord| h@) + seq![c@]) + rest);
                        }
                    }
                },
                None => {
                    return None;
                },
            }
        }
        i += 1;
    }
    proof {
        assert(ls.skip(i as int) =~= Seq::<Seq<char>>::empty());
        assert(recs@.map_values(|h: HistoryRecord| h@) + Seq::<Seq<char>>::empty()
            =~= recs@.map_values(|h: HistoryRecord| h@));
    }
    Some(recs)
}

} // verus!
