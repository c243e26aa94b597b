//! Replaying a history: the lines of a history text, read one by one, say
//! which update blocks and which routines to run and what to log again.

use vstd::prelude::*;
use crate::store::KG;
use crate::text::{
    append_chars, chars_of, contains_seq, ends_with_chars, find_from, has_prefix, has_suffix, lines, lines_of, matches_at, same_chars, slice_chars, starts_with_chars, string_of, strip_leading, texts, trim_chars, trimmed, without_leading,
};

verus! {

/// What a line of a history asks for.
#[derive(Debug, PartialEq, Eq)]
pub enum Work {
    /// Nothing is to be run.
    Nothing,
    /// The line closes an update block: run the block.
    Block(String),
    /// The line names a procedure of a routine file: run it.
    Routine { file: String, procedure: String },
}

/// What to do for one line of a history.
#[derive(Debug, PartialEq, Eq)]
pub struct Step {
    pub work: Work,
    /// The line as it is written to the history again once the work is
    /// done; a dump record is not written again.
    pub log: Option<String>,
}

/// How a query text is run.
#[derive(Debug, PartialEq, Eq)]
pub enum Plan {
    /// As one update.
    Update(String),
    /// As a selection whose rows each fill the update template.
    Iterative { select: String, update: String },
}

/// What a step asks for, as contracts see it.
pub enum WorkModel {
    Nothing,
    Block(Seq<char>),
    Routine { file: Seq<char>, procedure: Seq<char> },
}

/// A step as contracts see it.
pub struct StepModel {
    pub work: WorkModel,
    pub log: Option<Seq<char>>,
}

impl View for Work {
    type V = WorkModel;

    open spec fn view(&self) -> WorkModel {
        match self {
            Work::Nothing => WorkModel::Nothing,
            Work::Block(b) => WorkModel::Block(b@),
            Work::Routine { file, procedure } => WorkModel::Routine { file: file@, procedure: procedure@ },
        }
    }
}

impl View for Step {
    type V = StepModel;

    open spec fn view(&self) -> StepModel {
        StepModel {
            work: self.work@,
            log: match self.log {
                Some(l) => Some(l@),
                None => None,
            },
        }
    }
}

/// What the reader knows between two lines.
pub struct ReplayState {
    /// Whether the lines belong to an update block.
    pub in_block: bool,
    /// The lines of the block so far, each with a line feed.
    pub block: Seq<char>,
}

/// The first position at which `pat` occurs in `s`.
pub open spec fn first_match(s: Seq<char>, pat: Seq<char>) -> int {
    choose|i: int| matches_at(s, pat, i) && forall|j: int| 0 <= j < i ==> !matches_at(s, pat, j)
}

/// What line `line` asks for in state `st`.
pub open spec fn work_of(st: ReplayState, line: Seq<char>) -> WorkModel {
    if has_prefix(line, "```sparql"@) {
        WorkModel::Nothing
    } else if has_prefix(line, "```"@) && st.in_block {
        WorkModel::Block(st.block)
    } else if st.in_block {
        WorkModel::Nothing
    } else if contains_seq(line, "::"@) && !has_prefix(line, "Dumping"@) {
        WorkModel::Routine {
            file: line.take(first_match(line, "::"@)),
            procedure: line.skip(first_match(line, "::"@) + 2),
        }
    } else {
        WorkModel::Nothing
    }
}

/// The state after line `line`.
pub open spec fn state_after(st: ReplayState, line: Seq<char>) -> ReplayState {
    if has_prefix(line, "```sparql"@) {
        ReplayState { in_block: true, block: Seq::empty() }
    } else if has_prefix(line, "```"@) && st.in_block {
        ReplayState { in_block: false, block: st.block }
    } else if st.in_block {
        ReplayState { in_block: true, block: st.block + line + "\n"@ }
    } else {
        st
    }
}

/// The state before line `upto` of the trimmed lines `all`.
pub open spec fn state_before(all: Seq<Seq<char>>, upto: int) -> ReplayState
    decreases upto,
{
    if upto <= 0 {
        ReplayState { in_block: false, block: Seq::empty() }
    } else {
        state_after(state_before(all, upto - 1), trimmed(all[upto - 1]))
    }
}

/// The step for line `i` of the lines `all`.
pub open spec fn step_at(all: Seq<Seq<char>>, i: int) -> StepModel {
    let line = trimmed(all[i]);
    StepModel {
        work: work_of(state_before(all, i), line),
        log: if has_prefix(line, "Dumping"@) {
            None
        } else {
            Some(line)
        },
    }
}

/// The steps of `v`.
pub open spec fn step_models(v: Seq<Step>) -> Seq<StepModel> {
    Seq::new(v.len(), |i: int| v[i]@)
}

/// The number of positions at which `pat` occurs in the first `upto`
/// characters' worth of starts of `s`.
pub open spec fn occurrences(s: Seq<char>, pat: Seq<char>, upto: int) -> nat
    decreases upto,
{
    if upto <= 0 {
        0
    } else {
        occurrences(s, pat, upto - 1) + if matches_at(s, pat, upto - 1) {
            1nat
        } else {
            0nat
        }
    }
}

/// How `query` is run. A query that may be advanced and holds the
/// separator, a `#` at the end of a line, exactly once is run iteratively:
/// what stands before the separator selects, what stands after it is the
/// update template, both without surrounding white space.
pub open spec fn plan_of(query: Seq<char>, advanced: bool) -> PlanModel {
    if advanced && occurrences(query, "#\n"@, query.len() as int) == 1 {
        PlanModel::Iterative {
            select: trimmed(query.take(first_match(query, "#\n"@))),
            update: trimmed(query.skip(first_match(query, "#\n"@) + 2)),
        }
    } else {
        PlanModel::Update(query)
    }
}

/// A plan as contracts see it.
pub enum PlanModel {
    Update(Seq<char>),
    Iterative { select: Seq<char>, update: Seq<char> },
}

impl View for Plan {
    type V = PlanModel;

    open spec fn view(&self) -> PlanModel {
        match self {
            Plan::Update(q) => PlanModel::Update(q@),
            Plan::Iterative { select, update } => PlanModel::Iterative { select: select@, update: update@ },
        }
    }
}

proof fn lemma_occurrences_none(s: Seq<char>, pat: Seq<char>, from: int, upto: int)
    requires
        0 <= from <= upto,
        forall|j: int| from <= j < upto ==> !matches_at(s, pat, j),
    ensures
        occurrences(s, pat, upto) == occurrences(s, pat, from),
    decreases upto - from,
{
    if from < upto {
        lemma_occurrences_none(s, pat, from, upto - 1);
    }
}

proof fn lemma_occurrences_monotone(s: Seq<char>, pat: Seq<char>, a: int, b: int)
    requires
        a <= b,
    ensures
        occurrences(s, pat, a) <= occurrences(s, pat, b),
    decreases b - a,
{
    if a < b {
        lemma_occurrences_monotone(s, pat, a, b - 1);
    }
}

/// The first match is the match that no match comes before.
pub proof fn lemma_first_match_is(s: Seq<char>, pat: Seq<char>, at: int)
    requires
        matches_at(s, pat, at),
        forall|j: int| 0 <= j < at ==> !matches_at(s, pat, j),
    ensures
        first_match(s, pat) == at,
{
    let chosen = first_match(s, pat);
    if chosen < at {
        assert(!matches_at(s, pat, chosen));
    }
    if at < chosen {
        assert(!matches_at(s, pat, at));
    }
}

/// Plans how to run `query`.
pub fn plan(query: &str, advanced: bool) -> (p: Plan)
    ensures
        p@ == plan_of(query@, advanced),
{
    let text = chars_of(query);
    let separator = chars_of("#\n");
    assert(separator@.len() == 2) by {
        reveal_strlit("#\n");
    }
    if !advanced {
        return Plan::Update(query.to_string());
    }
    match find_from(&text, &separator, 0) {
        None => {
            proof {
                lemma_occurrences_none(text@, separator@, 0, text.len() as int);
            }
            Plan::Update(query.to_string())
        },
        Some(at) => {
            proof {
                lemma_first_match_is(text@, separator@, at as int);
                lemma_occurrences_none(text@, separator@, 0, at as int);
                assert(occurrences(text@, separator@, at + 1) == 1);
            }
            match find_from(&text, &separator, at + 1) {
                Some(next) => {
                    proof {
                        lemma_occurrences_none(text@, separator@, at + 1, next as int);
                        assert(occurrences(text@, separator@, next + 1) == 2);
                        lemma_occurrences_monotone(text@, separator@, next + 1, text.len() as int);
                    }
                    Plan::Update(query.to_string())
                },
                None => {
                    proof {
                        lemma_occurrences_none(text@, separator@, at + 1, text.len() as int);
                    }
                    let before = slice_chars(&text, 0, at);
                    let after = slice_chars(&text, at + 2, text.len());
                    assert(before@ =~= text@.take(at as int));
                    assert(after@ =~= text@.skip(at + 2));
                    Plan::Iterative {
                        select: string_of(&trim_chars(&before)),
                        update: string_of(&trim_chars(&after)),
                    }
                },
            }
        },
    }
}

impl KG {
    /// Reads a history and returns, for each of its lines, what replaying
    /// the line takes.
    ///
    /// Lines are read without surrounding white space. A line that starts
    /// with three back-ticks and `sparql` opens an update block, a later
    /// line that starts with three back-ticks closes it, and the lines
    /// between them are the block. Outside a block, a line with `::` in it
    /// names a routine file and one of its procedures, unless it records a
    /// dump.
    pub fn execute(&self, content: String) -> (steps: Vec<Step>)
        ensures
            steps.len() == lines(content@).len(),
            forall|i: int| 0 <= i < steps.len() ==> (#[trigger] steps[i])@ == step_at(lines(content@), i),
    {
        let all = lines_of(&chars_of(content.as_str()));
        let ghost listed = lines(content@);
        assert(texts(all@).len() == all.len());
        let fence = chars_of("```sparql");
        let close = chars_of("```");
        let dumping = chars_of("Dumping");
        let colons = chars_of("::");
        assert(colons@.len() == 2) by {
            reveal_strlit("::");
        }
        let mut steps: Vec<Step> = Vec::new();
        let mut in_block = false;
        let mut block: Vec<char> = Vec::new();
        let mut i: usize = 0;
        while i < all.len()
            invariant
                i <= all.len(),
                texts(all@) == listed,
                all.len() == listed.len(),
                fence@ == "```sparql"@,
                close@ == "```"@,
                dumping@ == "Dumping"@,
                colons@ == "::"@,
                colons@.len() == 2,
                steps.len() == i,
                state_before(listed, i as int) == (ReplayState { in_block: in_block, block: block@ }),
                forall|k: int| 0 <= k < i ==> (#[trigger] steps[k])@ == step_at(listed, k),
            decreases all.len() - i,
        {
            assert(texts(all@)[i as int] == all[i as int]@);
            let line = trim_chars(&all[i]);
            let work = if starts_with_chars(&line, &fence) {
                in_block = true;
                block = Vec::new();
                Work::Nothing
            } else if starts_with_chars(&line, &close) && in_block {
                in_block = false;
                Work::Block(string_of(&block))
            } else if in_block {
                append_chars(&mut block, &line);
                append_chars(&mut block, &chars_of("\n"));
                Work::Nothing
            } else if !starts_with_chars(&line, &dumping) {
                match find_from(&line, &colons, 0) {
                    Some(at) => {
                        proof {
                            lemma_first_match_is(line@, colons@, at as int);
                        }
                        assert(matches_at(line@, colons@, at as int));
                        assert(at + 2 <= line.len());
                        let file = slice_chars(&line, 0, at);
                        let procedure = slice_chars(&line, at + 2, line.len());
                        assert(file@ =~= line@.take(at as int));
                        assert(procedure@ =~= line@.skip(at + 2));
                        Work::Routine { file: string_of(&file), procedure: string_of(&procedure) }
                    },
                    None => Work::Nothing,
                }
            } else {
                Work::Nothing
            };
            let log = if starts_with_chars(&line, &dumping) {
                None
            } else {
                Some(string_of(&line))
            };
            steps.push(Step { work, log });
            i += 1;
        }
        steps
    }
}

/// What is known of a routine file while its lines are read.
pub struct RoutineState {
    /// The procedure that was looked for, once it is complete.
    pub found: Option<ProcedureModel>,
    pub name: Seq<char>,
    pub query: Seq<char>,
    pub in_proc: bool,
    pub advanced: bool,
}

/// A procedure of a routine file as contracts see it.
pub struct ProcedureModel {
    pub query: Seq<char>,
    pub advanced: bool,
}

/// A procedure of a routine file: its query, and whether its heading marks
/// it as advanced.
#[derive(Debug, PartialEq, Eq)]
pub struct Procedure {
    pub query: String,
    pub advanced: bool,
}

/// The state after one more line of a routine file. A line that starts
/// with `##` is a heading: it completes the procedure before it and opens
/// the procedure it names. Any other line belongs to the query of the
/// open procedure. Once the procedure looked for is complete, nothing
/// changes any more.
pub open spec fn routine_step(st: RoutineState, wanted: Seq<char>, line: Seq<char>) -> RoutineState {
    if st.found is Some {
        st
    } else if has_prefix(line, "##"@) {
        if st.in_proc && st.name == wanted {
            RoutineState { found: Some(ProcedureModel { query: st.query, advanced: st.advanced }), ..st }
        } else {
            RoutineState {
                found: None,
                name: trimmed(without_leading(line, "##"@)),
                query: Seq::empty(),
                in_proc: true,
                advanced: has_suffix(line, "@advanced"@),
            }
        }
    } else if st.in_proc {
        RoutineState { query: st.query + line + "\n"@, ..st }
    } else {
        st
    }
}

/// The state after the first `upto` lines of a routine file.
pub open spec fn routine_state(all: Seq<Seq<char>>, wanted: Seq<char>, upto: int) -> RoutineState
    decreases upto,
{
    if upto <= 0 {
        RoutineState {
            found: None,
            name: Seq::empty(),
            query: Seq::empty(),
            in_proc: false,
            advanced: false,
        }
    } else {
        routine_step(routine_state(all, wanted, upto - 1), wanted, all[upto - 1])
    }
}

/// The first procedure named `wanted` in a routine file.
pub open spec fn procedure_of(content: Seq<char>, wanted: Seq<char>) -> Option<ProcedureModel> {
    let all = lines(content);
    let st = routine_state(all, wanted, all.len() as int);
    if st.found is Some {
        st.found
    } else if st.in_proc && st.name == wanted {
        Some(ProcedureModel { query: st.query, advanced: st.advanced })
    } else {
        None
    }
}

/// Finds the procedure named `wanted` in the text of a routine file.
pub fn find_procedure(content: &str, wanted: &str) -> (r: Option<Procedure>)
    ensures
        match r {
            Some(p) => procedure_of(content@, wanted@) == Some(
                ProcedureModel { query: p.query@, advanced: p.advanced },
            ),
            None => procedure_of(content@, wanted@) is None,
        },
{
    let all = lines_of(&chars_of(content));
    let ghost listed = lines(content@);
    assert(texts(all@).len() == all.len());
    let target = chars_of(wanted);
    let heading = chars_of("##");
    let mark = chars_of("@advanced");
    let mut name: Vec<char> = Vec::new();
    let mut query: Vec<char> = Vec::new();
    let mut in_proc = false;
    let mut advanced = false;
    let mut i: usize = 0;
    while i < all.len()
        invariant
            i <= all.len(),
            texts(all@) == listed,
            all.len() == listed.len(),
            listed == lines(content@),
            target@ == wanted@,
            heading@ == "##"@,
            mark@ == "@advanced"@,
            routine_state(listed, wanted@, i as int) == (RoutineState {
                found: None,
                name: name@,
                query: query@,
                in_proc: in_proc,
                advanced: advanced,
            }),
        decreases all.len() - i,
    {
        let line = &all[i];
        assert(texts(all@)[i as int] == line@);
        if starts_with_chars(line, &heading) {
            if in_proc && same_chars(&name, &target) {
                proof {
                    assert(routine_state(listed, wanted@, i + 1) == routine_step(
                        routine_state(listed, wanted@, i as int),
                        wanted@,
                        listed[i as int],
                    ));
                    assert(routine_state(listed, wanted@, i + 1).found == Some(
                        ProcedureModel { query: query@, advanced: advanced },
                    ));
                    lemma_found_stays(listed, wanted@, i + 1, listed.len() as int);
                }
                return Some(Procedure { query: string_of(&query), advanced });
            }
            advanced = ends_with_chars(line, &mark);
            name = trim_chars(&strip_leading(line, &heading));
            query = Vec::new();
            in_proc = true;
        } else if in_proc {
            append_chars(&mut query, line);
            append_chars(&mut query, &chars_of("\n"));
        }
        i += 1;
    }
    if in_proc && same_chars(&name, &target) {
        Some(Procedure { query: string_of(&query), advanced })
    } else {
        None
    }
}

proof fn lemma_found_stays(all: Seq<Seq<char>>, wanted: Seq<char>, a: int, b: int)
    requires
        0 <= a <= b,
        routine_state(all, wanted, a).found is Some,
    ensures
        routine_state(all, wanted, b) == routine_state(all, wanted, a),
    decreases b - a,
{
    if a < b {
        lemma_found_stays(all, wanted, a, b - 1);
    }
}

} // verus!
