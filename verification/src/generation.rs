use vstd::prelude::*;

use crate::cleaning::{clean, spec_clean};
use crate::clock::{entropy, spec_seed_nanos, ClockReading};
use crate::prompt::{build_prompt, mix_seed, spec_build_prompt};
use crate::quality::{quality_issue, spec_quality_issue};
use crate::settings::{normalize_sharpness, normalize_style, spec_normalize_sharpness, spec_normalize_style};
use crate::text::{chars_of, lemma_texts_push, string_of, texts, trim, trim_chars, CharClass};

verus! {

/// The two command-line models that are asked for a sentence: within an attempt,
/// the preferred one first, then the fallback.
#[derive(Clone, Copy, Debug, PartialEq, Eq, Structural)]
pub enum Tool {
    Preferred,
    Fallback,
}

/// Why no sentence could be had.
#[derive(Clone, Copy, Debug, PartialEq, Eq, Structural)]
pub enum GenerateError {
    /// Neither tool gave any usable reply in any attempt.
    NoCliAvailable,
}

/// Where a generation stands.
#[derive(Clone, Copy, Debug, PartialEq, Eq, Structural)]
pub enum Stage {
    NotStarted,
    AwaitingPreferred,
    AwaitingFallback,
    Finished,
}

/// What the driver of a generation does next.
pub enum Step {
    /// Run `tool` with `prompt` and hand its output back.
    Ask { tool: Tool, prompt: String },
    /// The generation is over: the sentence and the tool that gave it, or why there
    /// is none.
    Done(Result<(String, Tool), GenerateError>),
}

/// A step as plain values.
pub enum StepModel {
    Ask(Tool, Seq<char>),
    Done(Result<(Seq<char>, Tool), GenerateError>),
}

pub open spec fn step_model(s: Step) -> StepModel {
    match s {
        Step::Ask { tool, prompt } => StepModel::Ask(tool, prompt@),
        Step::Done(Ok((t, tool))) => StepModel::Done(Ok((t@, tool))),
        Step::Done(Err(e)) => StepModel::Done(Err(e)),
    }
}

/// A generation as plain values.
#[verifier::ext_equal]
pub struct GenerationModel {
    /// The recent sentences that a new one must not repeat.
    pub recent: Seq<Seq<char>>,
    pub style: Seq<char>,
    pub sharpness: Seq<char>,
    pub personal_note: Seq<char>,
    /// The process id that seeds mix in.
    pub pid: u32,
    /// The attempt under way (or, once all are spent, their number).
    pub attempt: nat,
    pub stage: Stage,
    /// The prompt of the attempt under way.
    pub prompt: Seq<char>,
    /// Rejected candidates, each followed by the reason in brackets.
    pub failures: Seq<Seq<char>>,
    /// The last candidate that any tool gave, with the tool.
    pub last_candidate: Option<(Seq<char>, Tool)>,
}

/// How many attempts are made; each asks both tools.
pub open spec fn max_attempts() -> nat {
    3
}

/// A tool's reply, cleaned; `None` when the tool failed or the reply holds no
/// sentence.
pub open spec fn candidate_of(reply: Option<Seq<char>>) -> Option<Seq<char>> {
    match reply {
        Some(raw) => {
            let t = spec_clean(raw);
            if t.len() == 0 {
                None
            } else {
                Some(t)
            }
        },
        None => None,
    }
}

/// The prompt of the attempt under way, seeded from the clock reading.
pub open spec fn prompt_at(m: GenerationModel, clock: ClockReading) -> Seq<char> {
    spec_build_prompt(
        m.recent,
        m.failures,
        mix_seed(spec_seed_nanos(clock), m.pid, m.attempt as usize),
        m.style,
        m.sharpness,
        m.personal_note,
    )
}

/// The attempt under way starts: its prompt goes to the first tool.
pub open spec fn start_attempt(m: GenerationModel, clock: ClockReading) -> (GenerationModel, StepModel) {
    let p = prompt_at(m, clock);
    (
        GenerationModel { stage: Stage::AwaitingPreferred, prompt: p, ..m },
        StepModel::Ask(Tool::Preferred, p),
    )
}

/// After a tool's turn without an accepted sentence: the second tool gets the same
/// prompt; after the second tool, the next attempt starts; after the last attempt,
/// the last candidate is the result, or there is none.
pub open spec fn advance(m: GenerationModel, clock: ClockReading) -> (GenerationModel, StepModel) {
    if m.stage == Stage::AwaitingPreferred {
        (
            GenerationModel { stage: Stage::AwaitingFallback, ..m },
            StepModel::Ask(Tool::Fallback, m.prompt),
        )
    } else {
        let next = GenerationModel { attempt: m.attempt + 1, ..m };
        if next.attempt < max_attempts() {
            start_attempt(next, clock)
        } else {
            (
                GenerationModel { stage: Stage::Finished, ..next },
                StepModel::Done(
                    match m.last_candidate {
                        Some(c) => Ok(c),
                        None => Err(GenerateError::NoCliAvailable),
                    },
                ),
            )
        }
    }
}

/// The tool whose reply is awaited.
pub open spec fn awaited_tool(s: Stage) -> Tool {
    if s == Stage::AwaitingPreferred {
        Tool::Preferred
    } else {
        Tool::Fallback
    }
}

/// What a tool's reply does: a candidate that passes the quality checks ends the
/// generation; one that fails is recorded with its reason; either way it becomes
/// the last candidate. Then the generation advances.
pub open spec fn after_reply(m: GenerationModel, reply: Option<Seq<char>>, clock: ClockReading) -> (
    GenerationModel,
    StepModel,
) {
    let source = awaited_tool(m.stage);
    match candidate_of(reply) {
        Some(text) => {
            let m2 = GenerationModel { last_candidate: Some((text, source)), ..m };
            match spec_quality_issue(text, m.recent) {
                None => (
                    GenerationModel { stage: Stage::Finished, ..m2 },
                    StepModel::Done(Ok((text, source))),
                ),
                Some(reason) => advance(
                    GenerationModel {
                        failures: m.failures.push(text + "（"@ + reason + "）"@),
                        ..m2
                    },
                    clock,
                ),
            }
        },
        None => advance(m, clock),
    }
}

/// A generation that waits for a tool's reply.
pub open spec fn is_awaiting(m: GenerationModel) -> bool {
    (m.stage == Stage::AwaitingPreferred || m.stage == Stage::AwaitingFallback) && m.attempt
        < max_attempts()
}

/// One request for a sentence, driven step by step: each attempt asks the
/// preferred tool, then the fallback, with a fresh prompt; the first candidate that
/// passes the quality checks wins.
pub struct Generation {
    recent: Vec<String>,
    style: String,
    sharpness: String,
    personal_note: String,
    pid: u32,
    attempt: usize,
    stage: Stage,
    prompt: String,
    failures: Vec<String>,
    last_candidate: Option<(String, Tool)>,
}

impl View for Generation {
    type V = GenerationModel;

    closed spec fn view(&self) -> GenerationModel {
        GenerationModel {
            recent: texts(self.recent@),
            style: self.style@,
            sharpness: self.sharpness@,
            personal_note: self.personal_note@,
            pid: self.pid,
            attempt: self.attempt as nat,
            stage: self.stage,
            prompt: self.prompt@,
            failures: texts(self.failures@),
            last_candidate: match self.last_candidate {
                Some((t, tool)) => Some((t@, tool)),
                None => None,
            },
        }
    }
}

/// Starts a request for a sentence: the style and sharpness normalized, the note
/// trimmed, no attempt made yet.
pub fn generate(recent: Vec<String>, style: &str, sharpness: &str, personal_note: &str, pid: u32) -> (r:
    Generation)
    ensures
        r@ == (GenerationModel {
            recent: texts(recent@),
            style: spec_normalize_style(style@),
            sharpness: spec_normalize_sharpness(sharpness@),
            personal_note: trim(personal_note@),
            pid,
            attempt: 0,
            stage: Stage::NotStarted,
            prompt: Seq::empty(),
            failures: Seq::empty(),
            last_candidate: None,
        }),
{
    let note_chars = chars_of(personal_note);
    let note = trim_chars(&note_chars, CharClass::Whitespace);
    let r = Generation {
        recent,
        style: String::from_str(normalize_style(style)),
        sharpness: String::from_str(normalize_sharpness(sharpness)),
        personal_note: string_of(&note),
        pid,
        attempt: 0,
        stage: Stage::NotStarted,
        prompt: String::new(),
        failures: Vec::new(),
        last_candidate: None,
    };
    assert(texts(r.failures@) =~= Seq::<Seq<char>>::empty());
    assert(r@ =~= (GenerationModel {
        recent: texts(recent@),
        style: spec_normalize_style(style@),
        sharpness: spec_normalize_sharpness(sharpness@),
        personal_note: trim(personal_note@),
        pid,
        attempt: 0,
        stage: Stage::NotStarted,
        prompt: Seq::empty(),
        failures: Seq::empty(),
        last_candidate: None,
    }));
    r
}

impl Generation {
    /// Where the generation stands.
    pub fn stage(&self) -> (r: Stage)
        ensures
            r == self@.stage,
    {
        self.stage
    }

    /// Whether the generation waits for a tool's reply, which `on_reply` requires.
    pub fn awaits_reply(&self) -> (r: bool)
        ensures
            r == is_awaiting(self@),
    {
        (self.stage == Stage::AwaitingPreferred || self.stage == Stage::AwaitingFallback)
            && self.attempt < 3
    }

    fn start_attempt_exec(&mut self, clock: &ClockReading) -> (r: Step)
        requires
            old(self)@.attempt < max_attempts(),
        ensures
            (final(self)@, step_model(r)) == start_attempt(old(self)@, *clock),
    {
        let seed = entropy(clock, self.pid, self.attempt);
        let p = build_prompt(
            &self.recent,
            &self.failures,
            seed,
            self.style.as_str(),
            self.sharpness.as_str(),
            self.personal_note.as_str(),
        );
        self.stage = Stage::AwaitingPreferred;
        self.prompt = p.clone();
        Step::Ask { tool: Tool::Preferred, prompt: p }
    }

    fn advance_exec(&mut self, clock: &ClockReading) -> (r: Step)
        requires
            is_awaiting(old(self)@),
        ensures
            (final(self)@, step_model(r)) == advance(old(self)@, *clock),
    {
        if self.stage == Stage::AwaitingPreferred {
            self.stage = Stage::AwaitingFallback;
            return Step::Ask { tool: Tool::Fallback, prompt: self.prompt.clone() };
        }
        self.attempt = self.attempt + 1;
        if self.attempt < 3 {
            self.start_attempt_exec(clock)
        } else {
            self.stage = Stage::Finished;
            match &self.last_candidate {
                Some((t, tool)) => Step::Done(Ok((t.clone(), *tool))),
                None => Step::Done(Err(GenerateError::NoCliAvailable)),
            }
        }
    }

    /// Starts the first attempt: its prompt, seeded from the clock reading, goes to
    /// the preferred tool.
    pub fn begin(&mut self, clock: &ClockReading) -> (r: Step)
        requires
            old(self)@.stage == Stage::NotStarted,
            old(self)@.attempt == 0,
        ensures
            (final(self)@, step_model(r)) == start_attempt(old(self)@, *clock),
    {
        self.start_attempt_exec(clock)
    }

    /// Takes the awaited tool's output (`None` when the tool could not be run or
    /// failed) and says what comes next; a new attempt's prompt is seeded from the
    /// clock reading.
    pub fn on_reply(&mut self, reply: Option<String>, clock: &ClockReading) -> (r: Step)
        requires
            is_awaiting(old(self)@),
        ensures
            (final(self)@, step_model(r)) == after_reply(
                old(self)@,
                match reply {
                    Some(s) => Some(s@),
                    None => None,
                },
                *clock,
            ),
    {
        let ghost m = self@;
        let tool = if self.stage == Stage::AwaitingPreferred {
            Tool::Preferred
        } else {
            Tool::Fallback
        };
        let candidate = match reply {
            Some(raw) => {
                let t = clean(raw);
                if t.as_str().is_empty() {
                    None
                } else {
                    Some(t)
                }
            },
            None => None,
        };
        match candidate {
            Some(text) => {
                self.last_candidate = Some((text.clone(), tool));
                match quality_issue(text.as_str(), &self.recent) {
                    None => {
                        self.stage = Stage::Finished;
                        Step::Done(Ok((text, tool)))
                    },
                    Some(reason) => {
                        let mut failure = text.clone();
                        failure.append("（");
                        failure.append(reason.as_str());
                        failure.append("）");
                        let ghost before = self.failures@;
                        self.failures.push(failure);
                        proof {
                            lemma_texts_push(before, failure);
                        }
                        self.advance_exec(clock)
                    },
                }
            },
            None => self.advance_exec(clock),
        }
    }
}

} // verus!
