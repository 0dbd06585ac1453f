//! The prompt context: a text listing the most recent correction patterns,
//! handed to the dictation pipeline to seed its language-model prompt.
use crate::records::Correction;
use vstd::prelude::*;

verus! {

pub const CONTEXT_HEADER: &'static str =
    "\n\nUser correction patterns (use these to better understand what the user means):";

pub const PATTERN_OPEN: &'static str = "- When transcribed as \"";

pub const PATTERN_MIDDLE: &'static str = "\", the user meant: \"";

pub const PATTERN_CLOSE: &'static str = "\"";

/// The most patterns a prompt context lists.
pub const MAX_CONTEXT_PATTERNS: usize = 20;

/// The line that lists one pattern; nothing in it is escaped.
pub open spec fn pattern_line(c: Correction) -> Seq<char> {
    PATTERN_OPEN@ + c.whisper_pattern@ + PATTERN_MIDDLE@ + c.intended_text@ + PATTERN_CLOSE@
}

/// The lines of the patterns, each after a line break.
pub open spec fn pattern_lines(cs: Seq<Correction>) -> Seq<char>
    decreases cs.len(),
{
    if cs.len() == 0 {
        Seq::empty()
    } else {
        pattern_lines(cs.drop_last()) + seq!['\n'] + pattern_line(cs.last())
    }
}

pub open spec fn listed_count(n: nat) -> nat {
    if n < MAX_CONTEXT_PATTERNS {
        n
    } else {
        MAX_CONTEXT_PATTERNS as nat
    }
}

/// The prompt context of the patterns `cs`, newest first: empty where there
/// are none, else the header and the lines of the first twenty.
pub open spec fn context_text(cs: Seq<Correction>) -> Seq<char> {
    if cs.len() == 0 {
        Seq::empty()
    } else {
        CONTEXT_HEADER@ + pattern_lines(cs.take(listed_count(cs.len()) as int))
    }
}

/// Builds the prompt context of `corrections`, given newest first.
pub fn prompt_context(corrections: &Vec<Correction>) -> (r: String)
    ensures
        r@ == context_text(corrections@),
{
    if corrections.len() == 0 {
        return String::new();
    }
    let ghost cs = corrections@;
    let k: usize = if corrections.len() < MAX_CONTEXT_PATTERNS {
        corrections.len()
    } else {
        MAX_CONTEXT_PATTERNS
    };
    let mut out = String::from_str(CONTEXT_HEADER);
    let mut i: usize = 0;
    assert(cs.take(0) =~= Seq::<Correction>::empty());
    while i < k
        invariant
            cs == corrections@,
            k <= cs.len(),
            i <= k,
            out@ == CONTEXT_HEADER@ + pattern_lines(cs.take(i as int)),
        decreases k - i,
    {
        proof {
            reveal_strlit("\n");
        }
        let c = &corrections[i];
        out.append("\n");
        out.append(PATTERN_OPEN);
        out.append(c.whisper_pattern.as_str());
        out.append(PATTERN_MIDDLE);
        out.append(c.intended_text.as_str());
        out.append(PATTERN_CLOSE);
        assert(cs.take(i + 1).drop_last() =~= cs.take(i as int));
        assert(out@ =~= CONTEXT_HEADER@ + pattern_lines(cs.take(i + 1)));
        i = i + 1;
    }
    out
}

/// The prompt context is empty exactly when there are no patterns, and
/// lists at most twenty: patterns after the twentieth never change it.
pub proof fn lemma_context_bound(cs: Seq<Correction>)
    ensures
        context_text(cs).len() == 0 <==> cs.len() == 0,
        cs.len() >= MAX_CONTEXT_PATTERNS ==> context_text(cs) == context_text(
            cs.take(MAX_CONTEXT_PATTERNS as int),
        ),
{
    reveal_strlit("\n\nUser correction patterns (use these to better understand what the user means):");
    if cs.len() >= MAX_CONTEXT_PATTERNS {
        let t = cs.take(MAX_CONTEXT_PATTERNS as int);
        assert(t.take(MAX_CONTEXT_PATTERNS as int) =~= cs.take(MAX_CONTEXT_PATTERNS as int));
    }
}

} // verus!
