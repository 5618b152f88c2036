//! The history-entry classifier: maps one free-form "created by" command
//! string to zero or one reconstructed build instruction, by a fixed
//! precedence of pattern rules (first match wins):
//!
//! 1. an empty command yields no instruction;
//! 2. a command opening with the shell no-op marker yields the remainder
//!    unchanged (the runtime records metadata instructions this way, keyword
//!    included);
//! 3. a command opening with the plain shell marker yields `RUN ` followed
//!    by the remainder;
//! 4. a command opening with a known instruction keyword as a whole leading
//!    word yields the command unchanged;
//! 5. anything else yields a diagnostic marker followed by the command, so
//!    that no history entry is silently dropped.

use vstd::prelude::*;

verus! {

/// The marker the runtime writes in front of non-executing metadata
/// instructions.
pub open spec fn nop_prefix() -> Seq<char> {
    "/bin/sh -c #(nop) "@
}

/// The marker the runtime writes in front of shell-executed commands.
pub open spec fn shell_prefix() -> Seq<char> {
    "/bin/sh -c "@
}

/// The keyword prepended to a shell-executed command.
pub open spec fn run_prefix() -> Seq<char> {
    "RUN "@
}

/// The marker prepended to a command no rule recognizes.
pub open spec fn diag_prefix() -> Seq<char> {
    "# Unrecognized command: "@
}

/// The instruction keywords that may open a command verbatim.
pub open spec fn is_known_keyword(k: Seq<char>) -> bool {
    k == "ADD"@ || k == "ARG"@ || k == "COPY"@ || k == "RUN"@ || k == "ENV"@ || k == "CMD"@
        || k == "LABEL"@ || k == "EXPOSE"@ || k == "VOLUME"@ || k == "ENTRYPOINT"@
}

/// An ASCII letter, digit or underscore: the ASCII word characters of the
/// pattern language.
pub open spec fn is_ascii_word_char(c: char) -> bool {
    (('a' as u32) <= (c as u32) && (c as u32) <= ('z' as u32)) || (('A' as u32) <= (c as u32)
        && (c as u32) <= ('Z' as u32)) || (('0' as u32) <= (c as u32) && (c as u32) <= ('9' as u32))
        || c == '_'
}

/// `s` opens with keyword `k`, and the word boundary after it is decided by
/// ASCII alone: the keyword is the whole string, or the next character is an
/// ASCII character that is no word character.
pub open spec fn keyword_opens(s: Seq<char>, k: Seq<char>) -> bool {
    k.is_prefix_of(s) && (s.len() == k.len() || ((s[k.len() as int] as u32) < 128
        && !is_ascii_word_char(s[k.len() as int])))
}

/// Some known keyword opens `s` at an ASCII-decided word boundary.
pub open spec fn keyword_ascii_match(s: Seq<char>) -> bool {
    exists|k: Seq<char>| is_known_keyword(k) && #[trigger] keyword_opens(s, k)
}

/// Every known keyword that is a prefix of `s` is followed by an ASCII word
/// character, so the keyword rule cannot apply (vacuously true when no
/// keyword is a prefix at all).
pub open spec fn keyword_blocked(s: Seq<char>) -> bool {
    forall|k: Seq<char>|
        is_known_keyword(k) && #[trigger] k.is_prefix_of(s) ==> k.len() < s.len()
            && is_ascii_word_char(s[k.len() as int])
}

/// Whether the keyword rule matches `s`: a known keyword opens it as a whole
/// leading word. Decided by the pattern engine; the word boundary test on a
/// character outside ASCII is stated nowhere here.
pub uninterp spec fn keyword_rule_match(s: Seq<char>) -> bool;

/// Relies on `regex::Regex::is_match` with the anchored pattern
/// `^(ADD|ARG|COPY|RUN|ENV|CMD|LABEL|EXPOSE|VOLUME|ENTRYPOINT)\b`: the result
/// is a function of the command's characters alone. A known keyword prefix
/// followed by the end of the string or by an ASCII non-word character
/// matches; one followed by an ASCII word character does not (`\b` is a word
/// boundary, and the ASCII word characters are exactly `[0-9A-Za-z_]`).
#[verifier::external_body]
fn keyword_regex_is_match(command: &str) -> (r: bool)
    ensures
        r == keyword_rule_match(command@),
        keyword_ascii_match(command@) ==> r,
        keyword_blocked(command@) ==> !r,
{
    let re = regex::Regex::new(r"^(ADD|ARG|COPY|RUN|ENV|CMD|LABEL|EXPOSE|VOLUME|ENTRYPOINT)\b")
        .unwrap();
    re.is_match(command)
}

/// The classifier's result on one command string, rules in precedence order.
pub open spec fn classify_spec(s: Seq<char>) -> Option<Seq<char>> {
    if s.len() == 0 {
        None
    } else if nop_prefix().is_prefix_of(s) {
        Some(s.skip(nop_prefix().len() as int))
    } else if shell_prefix().is_prefix_of(s) {
        Some(run_prefix() + s.skip(shell_prefix().len() as int))
    } else if keyword_rule_match(s) {
        Some(s)
    } else {
        Some(diag_prefix() + s)
    }
}

/// Shape facts about the keyword and marker literals: every known keyword is
/// a short word of ASCII letters, while both shell markers open with a
/// slash, so no command can fall under a keyword rule and a marker rule at
/// once.
pub proof fn lemma_keyword_facts()
    ensures
        forall|k: Seq<char>| #[trigger] is_known_keyword(k) ==> 3 <= k.len() <= 10,
        forall|k: Seq<char>| #[trigger]
            is_known_keyword(k) ==> ('A' as u32) <= (k[0] as u32) <= ('Z' as u32),
        nop_prefix().len() == 18,
        shell_prefix().len() == 11,
        nop_prefix()[0] == '/',
        shell_prefix()[0] == '/',
        nop_prefix() == shell_prefix() + "#(nop) "@,
        run_prefix().len() == 4,
{
    reveal_strlit("ADD");
    reveal_strlit("ARG");
    reveal_strlit("COPY");
    reveal_strlit("RUN");
    reveal_strlit("ENV");
    reveal_strlit("CMD");
    reveal_strlit("LABEL");
    reveal_strlit("EXPOSE");
    reveal_strlit("VOLUME");
    reveal_strlit("ENTRYPOINT");
    reveal_strlit("/bin/sh -c #(nop) ");
    reveal_strlit("/bin/sh -c ");
    reveal_strlit("#(nop) ");
    reveal_strlit("RUN ");
    assert(nop_prefix() =~= shell_prefix() + "#(nop) "@);
}

/// If some known keyword opens `s` at an ASCII-decided boundary, then `s` is
/// non-empty and opens with a letter, so neither marker rule applies first.
proof fn lemma_keyword_start_excludes_markers(s: Seq<char>)
    requires
        keyword_ascii_match(s),
    ensures
        s.len() > 0,
        !nop_prefix().is_prefix_of(s),
        !shell_prefix().is_prefix_of(s),
{
    lemma_keyword_facts();
    let k = choose|k: Seq<char>| is_known_keyword(k) && #[trigger] keyword_opens(s, k);
    assert(s.subrange(0, k.len() as int)[0] == s[0]);
    assert(('A' as u32) <= (s[0] as u32) <= ('Z' as u32));
    if nop_prefix().is_prefix_of(s) {
        assert(s.subrange(0, 18)[0] == s[0]);
    }
    if shell_prefix().is_prefix_of(s) {
        assert(s.subrange(0, 11)[0] == s[0]);
    }
}

/// Classifies one "created by" command string: the reconstructed instruction
/// line, or nothing for an empty command. Never fails; an unrecognized
/// command comes back behind a diagnostic marker rather than being dropped.
pub fn parse_created_by(command: &str) -> (r: Option<String>)
    ensures
        (match r {
            None => classify_spec(command@) is None,
            Some(out) => classify_spec(command@) == Some(out@),
        }),
        r is None <==> command@.len() == 0,
        keyword_ascii_match(command@) ==> (r matches Some(out) && out@ == command@),
        (command@.len() > 0 && !nop_prefix().is_prefix_of(command@)
            && !shell_prefix().is_prefix_of(command@) && keyword_blocked(command@)) ==> (
        r matches Some(out) && out@ == diag_prefix() + command@),
{
    let len: usize = command.unicode_len();
    if len == 0 {
        proof {
            lemma_keyword_facts();
        }
        return None;
    }
    let nop: &str = "/bin/sh -c #(nop) ";
    let shell: &str = "/bin/sh -c ";
    if crate::text::str_starts_with(command, nop) {
        proof {
            if keyword_ascii_match(command@) {
                lemma_keyword_start_excludes_markers(command@);
            }
        }
        let pl: usize = nop.unicode_len();
        return Some(command.substring_char(pl, len).to_owned());
    }
    if crate::text::str_starts_with(command, shell) {
        proof {
            if keyword_ascii_match(command@) {
                lemma_keyword_start_excludes_markers(command@);
            }
        }
        let pl: usize = shell.unicode_len();
        let mut out: String = "RUN ".to_owned();
        out.append(command.substring_char(pl, len));
        return Some(out);
    }
    if keyword_regex_is_match(command) {
        return Some(command.to_owned());
    }
    let mut out: String = "# Unrecognized command: ".to_owned();
    out.append(command);
    Some(out)
}

/// Law: the empty command yields no instruction.
pub proof fn lemma_empty_not_classified()
    ensures
        classify_spec(Seq::<char>::empty()) is None,
{
}

/// Law: a command built as the no-op marker followed by any remainder `s`
/// classifies to exactly `s`.
pub proof fn lemma_nop_classified(s: Seq<char>)
    ensures
        classify_spec(nop_prefix() + s) == Some(s),
{
    lemma_keyword_facts();
    let w = nop_prefix() + s;
    assert(w.subrange(0, nop_prefix().len() as int) =~= nop_prefix());
    assert(w.skip(nop_prefix().len() as int) =~= s);
}

/// Law: a command built as the plain shell marker followed by a remainder
/// `s` classifies to `RUN ` followed by `s` — as long as `s` does not itself
/// open with the no-op tail `#(nop) `, which the preceding rule claims
/// first.
pub proof fn lemma_shell_classified(s: Seq<char>)
    requires
        !("#(nop) "@.is_prefix_of(s)),
    ensures
        classify_spec(shell_prefix() + s) == Some(run_prefix() + s),
{
    lemma_keyword_facts();
    let w = shell_prefix() + s;
    assert(w.subrange(0, shell_prefix().len() as int) =~= shell_prefix());
    assert(w.skip(shell_prefix().len() as int) =~= s);
    if nop_prefix().is_prefix_of(w) {
        assert("#(nop) "@.is_prefix_of(s)) by {
            assert forall|j: int| 0 <= j < 7 implies s[j] == "#(nop) "@[j] by {
                assert(w.subrange(0, 18)[11 + j] == w[11 + j]);
                assert((shell_prefix() + "#(nop) "@)[11 + j] == "#(nop) "@[j]);
            }
            assert(s.subrange(0, 7) =~= "#(nop) "@);
        }
    }
}

/// Law: a command built as a known keyword, a space, and any remainder falls
/// under the keyword rule at an ASCII-decided word boundary — no marker rule
/// claims it first, and the classifier keeps such a command unchanged.
pub proof fn lemma_keyword_classified(k: Seq<char>, s: Seq<char>)
    requires
        is_known_keyword(k),
    ensures
        keyword_ascii_match(k + " "@ + s),
        !nop_prefix().is_prefix_of(k + " "@ + s),
        !shell_prefix().is_prefix_of(k + " "@ + s),
        keyword_rule_match(k + " "@ + s) ==> classify_spec(k + " "@ + s) == Some(k + " "@ + s),
{
    lemma_keyword_facts();
    reveal_strlit(" ");
    let w = k + " "@ + s;
    assert(w.subrange(0, k.len() as int) =~= k);
    assert(w[k.len() as int] == ' ');
    assert(keyword_opens(w, k));
    lemma_keyword_start_excludes_markers(w);
}

/// Law: a non-empty command that no marker rule and no keyword rule claims
/// classifies to the diagnostic marker followed by the command, unchanged —
/// unclassifiable history is flagged, never dropped.
pub proof fn lemma_unrecognized_classified(s: Seq<char>)
    requires
        s.len() > 0,
        !nop_prefix().is_prefix_of(s),
        !shell_prefix().is_prefix_of(s),
        !keyword_rule_match(s),
    ensures
        classify_spec(s) == Some(diag_prefix() + s),
{
}

} // verus!
