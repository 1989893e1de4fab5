//! Planning of the statement-level timing rewrite.
//!
//! A function body is a sequence of statements. The rewrite keeps every
//! statement in place and follows each with a mark that records the time
//! spent on it under a short label. The last statement is captured into a
//! temporary, marked, and then returned, so that the accumulator finalizes
//! only after the value to return has been computed. The statement type is a
//! parameter: the plan says where each statement of the body goes and what each
//! mark is labelled, and the caller turns the plan into syntax.

use vstd::prelude::*;
use vstd::string::*;
use crate::text::{decimal, push_decimal};

verus! {

/// The number of characters of a statement's text kept in its mark label.
pub const LABEL_LENGTH: usize = 45;

/// One statement of a rewritten body.
#[derive(Debug, PartialEq, Eq)]
pub enum Step<S> {
    /// Constructs the accumulator, seeded with the function's name.
    Begin(String),
    /// A statement of the body, unchanged.
    Keep(S),
    /// Records the time since the previous mark under the given label.
    Mark(String),
    /// The last statement of the body, its value captured into a temporary.
    Capture(S),
    /// Returns the captured temporary.
    Return,
}

/// A statement's text on one line: each newline becomes a space.
pub open spec fn one_line(t: Seq<char>) -> Seq<char> {
    t.map_values(|c: char| if c == '\n' { ' ' } else { c })
}

/// The text of a statement shortened to `len` characters, with `...` appended
/// where anything was cut.
pub open spec fn truncated(t: Seq<char>, len: nat) -> Seq<char> {
    if one_line(t).len() > len {
        one_line(t).take(len as int) + seq!['.', '.', '.']
    } else {
        one_line(t)
    }
}

/// The label of the mark after the statement at `index` (not the last one).
pub open spec fn line_label(index: nat, short: Seq<char>) -> Seq<char> {
    seq!['L'] + decimal(index) + seq![':', ' '] + short
}

/// `step` constructs the accumulator for the function `name`.
pub open spec fn is_begin<S>(step: Step<S>, name: Seq<char>) -> bool {
    match step {
        Step::Begin(n) => n@ == name,
        _ => false,
    }
}

/// `step` is a mark labelled `label`.
pub open spec fn is_mark<S>(step: Step<S>, label: Seq<char>) -> bool {
    match step {
        Step::Mark(l) => l@ == label,
        _ => false,
    }
}

/// The rewritten body of a function named `name` whose statements are
/// `stmts`, the statement at `i` reading `texts[i]`: the accumulator first;
/// then each statement but the last, followed by its mark; then the last
/// statement captured, its mark, and the return of the captured value.
pub open spec fn is_rewrite<S>(
    r: Seq<Step<S>>,
    name: Seq<char>,
    stmts: Seq<S>,
    texts: Seq<Seq<char>>,
) -> bool {
    let n = stmts.len() as int;
    &&& r.len() == if n == 0 { 1 } else { 2 * n + 2 }
    &&& is_begin(r[0], name)
    &&& forall|i: int|
        0 <= i < n - 1 ==> {
            &&& #[trigger] r[2 * i + 1] == Step::Keep(stmts[i])
            &&& is_mark(r[2 * i + 2], line_label(i as nat, truncated(texts[i], LABEL_LENGTH as nat)))
        }
    &&& n > 0 ==> {
        &&& r[2 * n - 1] == Step::Capture(stmts[n - 1])
        &&& is_mark(r[2 * n], truncated(texts[n - 1], LABEL_LENGTH as nat))
        &&& r[2 * n + 1] is Return
    }
}

/// The text of a statement on one line, shortened to `len` characters with
/// `...` appended where anything was cut.
pub fn truncate(text: &str, len: usize) -> (r: String)
    ensures
        r@ == truncated(text@, len as nat),
{
    proof {
        reveal_strlit(" ");
        reveal_strlit("...");
    }
    let n = text.unicode_len();
    let keep = if n > len { len } else { n };
    let mut out = String::new();
    let mut i: usize = 0;
    while i < keep
        invariant
            keep <= n,
            n == text@.len(),
            i <= keep,
            out@ == one_line(text@).take(i as int),
        decreases keep - i,
    {
        let ghost before = out@;
        let c = text.get_char(i);
        if c == '\n' {
            let space = " ";
            proof {
                reveal_strlit(" ");
            }
            assert(space@ =~= seq![' ']);
            out.append(space);
        } else {
            let one = text.substring_char(i, i + 1);
            assert(one@ =~= seq![c]);
            out.append(one);
        }
        assert(one_line(text@)[i as int] == if c == '\n' { ' ' } else { c });
        assert(out@ =~= before + seq![one_line(text@)[i as int]]);
        i = i + 1;
        assert(out@ =~= one_line(text@).take(i as int));
    }
    if n > len {
        out.append("...");
    }
    assert(out@ =~= truncated(text@, len as nat));
    out
}

/// The label of the mark after the statement at `index`, not the last one.
fn mark_label(index: usize, text: &str) -> (r: String)
    ensures
        r@ == line_label(index as nat, truncated(text@, LABEL_LENGTH as nat)),
{
    proof {
        reveal_strlit("L");
        reveal_strlit(": ");
    }
    let short = truncate(text, LABEL_LENGTH);
    let mut out = String::from_str("L");
    push_decimal(&mut out, index as u64);
    out.append(": ");
    out.append(short.as_str());
    assert(out@ =~= line_label(index as nat, truncated(text@, LABEL_LENGTH as nat)));
    out
}

/// Rewrites the body of the function `name`, whose statements are `stmts`
/// and whose statement at `i` reads `texts[i]`, so that a mark follows every
/// statement and the value of the last one is returned after its mark.
pub fn rewrite_stmts<S>(name: String, stmts: Vec<S>, texts: &Vec<String>) -> (r: Vec<Step<S>>)
    requires
        stmts.len() == texts.len(),
    ensures
        is_rewrite(r@, name@, stmts@, texts@.map_values(|t: String| t@)),
{
    let ghost all = stmts@;
    let ghost views = texts@.map_values(|t: String| t@);
    let n = stmts.len();
    let mut rest = stmts;
    let mut out: Vec<Step<S>> = Vec::new();
    out.push(Step::Begin(name));
    if n == 0 {
        return out;
    }
    let mut k: usize = 0;
    while k + 1 < n
        invariant
            n == all.len(),
            n == texts.len(),
            n > 0,
            k < n,
            views == texts@.map_values(|t: String| t@),
            rest@ == all.subrange(k as int, n as int),
            out@.len() == 2 * k + 1,
            is_begin(out@[0], name@),
            forall|i: int|
                0 <= i < k ==> {
                    &&& #[trigger] out@[2 * i + 1] == Step::Keep(all[i])
                    &&& is_mark(out@[2 * i + 2], line_label(i as nat, truncated(views[i], LABEL_LENGTH as nat)))
                },
        decreases n - k,
    {
        let s = rest.remove(0);
        let label = mark_label(k, texts[k].as_str());
        out.push(Step::Keep(s));
        out.push(Step::Mark(label));
        k = k + 1;
        assert(rest@ =~= all.subrange(k as int, n as int));
    }
    let last = rest.remove(0);
    out.push(Step::Capture(last));
    out.push(Step::Mark(truncate(texts[n - 1].as_str(), LABEL_LENGTH)));
    out.push(Step::Return);
    out
}

} // verus!
