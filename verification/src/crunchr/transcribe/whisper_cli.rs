//! The Whisper command line backend: which models are tried, how a run goes on after each.
use vstd::prelude::*;

use crate::crunchr::transcribe;
use crate::crunchr::transcribe::{read_transcript, TranscriptionBackend, TranscriptionResult};
use crate::json;
use crate::number;
use crate::text;

verus! {

/// Whisper as a local command.
#[derive(Debug, Clone)]
pub struct WhisperCLIBackend {
    preferred_model: Option<String>,
    timeout_secs: u64,
}

#[verifier::ext_equal]
pub struct WhisperModel {
    pub preferred: Option<Seq<char>>,
    pub timeout_secs: u64,
}

impl DeepView for WhisperCLIBackend {
    type V = WhisperModel;

    closed spec fn deep_view(&self) -> WhisperModel {
        WhisperModel {
            preferred: self.preferred_model.deep_view(),
            timeout_secs: self.timeout_secs,
        }
    }
}

/// The models tried when the preferred one fails, in this order.
pub open spec fn fallbacks() -> Seq<Seq<char>> {
    seq!["base"@, "small"@, "medium"@, "large-v3"@]
}

/// `list` with those of `extra` behind it that it does not hold yet.
pub open spec fn with_missing(list: Seq<Seq<char>>, extra: Seq<Seq<char>>) -> Seq<Seq<char>>
    decreases extra.len(),
{
    if extra.len() == 0 {
        list
    } else {
        let before = with_missing(list, extra.drop_last());
        if before.contains(extra.last()) {
            before
        } else {
            before.push(extra.last())
        }
    }
}

/// The models to try: the preferred one first, then the fallbacks.
pub open spec fn models_for(preferred: Option<Seq<char>>) -> Seq<Seq<char>> {
    with_missing(
        match preferred {
            Some(m) => seq![m],
            None => Seq::empty(),
        },
        fallbacks(),
    )
}

/// What the command is called with.
pub open spec fn whisper_args(
    audio: Seq<char>,
    model: Seq<char>,
    dir: Seq<char>,
) -> Seq<Seq<char>> {
    seq![
        audio,
        "--model"@,
        model,
        "--output_format"@,
        "json"@,
        "--output_dir"@,
        dir,
        "--language"@,
        "en"@,
    ]
}

/// The audio file of a run, its path taken apart.
#[derive(Debug)]
pub struct AudioFile {
    /// The path as text; empty if it is not text.
    pub path: String,
    /// The directory as text, if there is one and it is text.
    pub dir: Option<String>,
    /// The file name without its extension, if there is one and it is text.
    pub stem: Option<String>,
}

#[verifier::ext_equal]
pub struct AudioModel {
    pub path: Seq<char>,
    pub dir: Option<Seq<char>>,
    pub stem: Option<Seq<char>>,
}

impl DeepView for AudioFile {
    type V = AudioModel;

    open spec fn deep_view(&self) -> AudioModel {
        AudioModel {
            path: self.path@,
            dir: self.dir.deep_view(),
            stem: self.stem.deep_view(),
        }
    }
}

/// A run over the models.
#[derive(Debug)]
pub struct WhisperRun {
    pub audio: AudioFile,
    pub timeout_secs: u64,
    pub models: Vec<String>,
    /// How many models have failed.
    pub tried: usize,
    pub last_error: String,
}

#[verifier::ext_equal]
pub struct RunModel {
    pub audio: AudioModel,
    pub timeout_secs: u64,
    pub models: Seq<Seq<char>>,
    pub tried: nat,
    pub last_error: Seq<char>,
}

impl DeepView for WhisperRun {
    type V = RunModel;

    open spec fn deep_view(&self) -> RunModel {
        RunModel {
            audio: self.audio.deep_view(),
            timeout_secs: self.timeout_secs,
            models: self.models.deep_view(),
            tried: self.tried as nat,
            last_error: self.last_error@,
        }
    }
}

impl WhisperModel {
    /// A run over the models for `audio`, before its first call.
    pub open spec fn run(self, audio: AudioModel) -> RunModel {
        RunModel {
            audio,
            timeout_secs: self.timeout_secs,
            models: models_for(self.preferred),
            tried: 0,
            last_error: Seq::empty(),
        }
    }
}

/// The transcript of the file that a successful call has left, as far as it could be read.
pub open spec fn transcript_of(content: Result<Seq<char>, Seq<char>>) -> Result<
    transcribe::TranscriptionModel,
    Seq<char>,
> {
    match content {
        Ok(text) => match json::json_document(text) {
            Ok(doc) => Ok(transcribe::transcript_from(doc)),
            Err(e) => Err(e),
        },
        Err(e) => Err(e),
    }
}

/// How one call of the command ended.
#[derive(Debug)]
pub enum WhisperOutcome {
    /// It could not be run, for this reason.
    Unstarted(String),
    TimedOut,
    /// It ended, with what it wrote to standard error.
    Exited { success: bool, stderr: String },
}

#[verifier::ext_equal]
pub enum OutcomeModel {
    Unstarted(Seq<char>),
    TimedOut,
    Exited { success: bool, stderr: Seq<char> },
}

impl DeepView for WhisperOutcome {
    type V = OutcomeModel;

    open spec fn deep_view(&self) -> OutcomeModel {
        match self {
            WhisperOutcome::Unstarted(e) => OutcomeModel::Unstarted(e@),
            WhisperOutcome::TimedOut => OutcomeModel::TimedOut,
            WhisperOutcome::Exited { success, stderr } => OutcomeModel::Exited {
                success: *success,
                stderr: stderr@,
            },
        }
    }
}

/// What a run does next.
#[derive(Debug)]
pub enum WhisperStep {
    /// Call the command with these arguments, for so many seconds at most.
    Call { args: Vec<String>, timeout_secs: u64 },
    /// Read the file of this name in the output directory.
    Read { file_name: String },
    /// Give up, for this reason.
    Fail(String),
}

#[verifier::ext_equal]
pub enum StepModel {
    Call { args: Seq<Seq<char>>, timeout_secs: u64 },
    Read { file_name: Seq<char> },
    Fail(Seq<char>),
}

impl DeepView for WhisperStep {
    type V = StepModel;

    open spec fn deep_view(&self) -> StepModel {
        match self {
            WhisperStep::Call { args, timeout_secs } => StepModel::Call {
                args: args.deep_view(),
                timeout_secs: *timeout_secs,
            },
            WhisperStep::Read { file_name } => StepModel::Read { file_name: file_name@ },
            WhisperStep::Fail(e) => StepModel::Fail(e@),
        }
    }
}

impl RunModel {
    /// The next model is tried, or the run has failed.
    pub open spec fn next(self) -> StepModel {
        if self.tried < self.models.len() {
            StepModel::Call {
                args: whisper_args(
                    self.audio.path,
                    self.models[self.tried as int],
                    match self.audio.dir {
                        Some(d) => d,
                        None => "."@,
                    },
                ),
                timeout_secs: self.timeout_secs,
            }
        } else {
            StepModel::Fail(
                "All whisper models failed. Last error: "@ + text::at_most(self.last_error, 200),
            )
        }
    }

    /// The run after the model in turn has failed with `error`.
    pub open spec fn failed(self, error: Seq<char>) -> RunModel {
        RunModel { tried: self.tried + 1, last_error: error, ..self }
    }

    /// The run after an outcome.
    pub open spec fn after(self, outcome: OutcomeModel) -> RunModel {
        match outcome {
            OutcomeModel::Unstarted(e) => self.failed("whisper process error: "@ + e),
            OutcomeModel::TimedOut => self.failed(
                "whisper model "@ + self.models[self.tried as int] + " timed out after "@
                    + number::decimal_of(self.timeout_secs as nat) + "s"@,
            ),
            OutcomeModel::Exited { success, stderr } => if success {
                self
            } else {
                self.failed(stderr)
            },
        }
    }

    /// What follows an outcome: after a success the result is read, else the run goes on.
    pub open spec fn follows(self, outcome: OutcomeModel) -> StepModel {
        if outcome matches OutcomeModel::Exited { success, stderr } && success {
            StepModel::Read {
                file_name: match self.audio.stem {
                    Some(s) => s,
                    None => "audio"@,
                } + ".json"@,
            }
        } else {
            self.after(outcome).next()
        }
    }
}

impl WhisperCLIBackend {
    pub fn new(preferred_model: Option<String>, timeout_secs: u64) -> (r: Self)
        ensures
            r.deep_view() == (WhisperModel {
                preferred: preferred_model.deep_view(),
                timeout_secs,
            }),
    {
        WhisperCLIBackend { preferred_model, timeout_secs }
    }

    /// The models to try: preferred first, then fallbacks.
    pub fn models(&self) -> (r: Vec<String>)
        ensures
            r.deep_view() == models_for(self.deep_view().preferred),
    {
        let mut models: Vec<String> = Vec::new();
        assert(models.deep_view() == Seq::<Seq<char>>::empty());
        match &self.preferred_model {
            Some(m) => {
                models.push(m.clone());
                assert(models.deep_view() == seq![m@]);
            },
            None => {},
        }
        let ghost first = models.deep_view();
        let extra = text::owned(&["base", "small", "medium", "large-v3"]);
        let ghost more = extra.deep_view();
        assert(more == fallbacks());
        assert(more.take(0) == Seq::<Seq<char>>::empty());
        let mut i: usize = 0;
        while i < extra.len()
            invariant
                i <= extra.len(),
                more == extra.deep_view(),
                models.deep_view() == with_missing(first, more.take(i as int)),
            decreases extra.len() - i,
        {
            let ghost before = models.deep_view();
            assert(more.take(i + 1).drop_last() == more.take(i as int));
            assert(more.take(i + 1).last() == extra[i as int]@);
            if !text::holds(&models, extra[i].as_str()) {
                models.push(extra[i].clone());
                assert(models.deep_view() == before.push(extra[i as int]@));
            }
            i = i + 1;
        }
        assert(more.take(extra.len() as int) == more);
        models
    }

    /// A run over the models for `audio`.
    pub fn start(&self, audio: AudioFile) -> (r: WhisperRun)
        ensures
            r.deep_view() == (RunModel {
                audio: audio.deep_view(),
                timeout_secs: self.deep_view().timeout_secs,
                models: models_for(self.deep_view().preferred),
                tried: 0,
                last_error: Seq::empty(),
            }),
            r.deep_view() == self.deep_view().run(audio.deep_view()),
    {
        WhisperRun {
            audio,
            timeout_secs: self.timeout_secs,
            models: self.models(),
            tried: 0,
            last_error: String::new(),
        }
    }
}

impl WhisperRun {
    /// What the run does next.
    pub fn next(&self) -> (r: WhisperStep)
        ensures
            r.deep_view() == self.deep_view().next(),
    {
        if self.tried < self.models.len() {
            let dir = match &self.audio.dir {
                Some(d) => d.as_str(),
                None => ".",
            };
            let model = self.models[self.tried].as_str();
            assert(model@ == self.models.deep_view()[self.tried as int]);
            let list = [
                self.audio.path.as_str(),
                "--model",
                model,
                "--output_format",
                "json",
                "--output_dir",
                dir,
                "--language",
                "en",
            ];
            let args = text::owned(&list);
            assert(args.deep_view() == whisper_args(self.audio.path@, model@, dir@));
            WhisperStep::Call { args, timeout_secs: self.timeout_secs }
        } else {
            let shown = text::first_chars(self.last_error.as_str(), 200);
            WhisperStep::Fail(
                text::cat("All whisper models failed. Last error: ", shown.as_str()),
            )
        }
    }

    /// Takes in how the last call ended, and says what follows.
    pub fn on_outcome(&mut self, outcome: WhisperOutcome) -> (r: WhisperStep)
        requires
            old(self).tried < old(self).models.len(),
        ensures
            final(self).deep_view() == old(self).deep_view().after(outcome.deep_view()),
            r.deep_view() == old(self).deep_view().follows(outcome.deep_view()),
    {
        match outcome {
            WhisperOutcome::Unstarted(e) => {
                self.last_error = text::cat("whisper process error: ", e.as_str());
                self.tried = self.tried + 1;
            },
            WhisperOutcome::TimedOut => {
                let model = self.models[self.tried].as_str();
                assert(model@ == self.models.deep_view()[self.tried as int]);
                let mut said = text::cat3("whisper model ", model, " timed out after ");
                let secs = number::decimal(self.timeout_secs);
                said.append(secs.as_str());
                said.append("s");
                self.last_error = said;
                self.tried = self.tried + 1;
            },
            WhisperOutcome::Exited { success, stderr } => {
                if success {
                    let stem = match &self.audio.stem {
                        Some(s) => s.as_str(),
                        None => "audio",
                    };
                    return WhisperStep::Read { file_name: text::cat(stem, ".json") };
                }
                self.last_error = stderr;
                self.tried = self.tried + 1;
            },
        }
        self.next()
    }

    /// The transcript of the file that a successful call has left, as far as it could be read.
    pub fn result(content: Result<String, String>) -> (r: Result<TranscriptionResult, String>)
        ensures
            match content {
                Ok(text) => match json::json_document(text@) {
                    Ok(doc) => r matches Ok(t) && t.deep_view() == transcribe::transcript_from(doc),
                    Err(e) => r matches Err(m) && m@ == e,
                },
                Err(e) => r matches Err(m) && m@ == e@,
            },
            match (
                r,
                transcript_of(
                    match content {
                        Ok(text) => Ok(text@),
                        Err(e) => Err(e@),
                    },
                ),
            ) {
                (Ok(t), Ok(m)) => t.deep_view() == m,
                (Err(e), Err(m)) => e@ == m,
                _ => false,
            },
    {
        match content {
            Ok(text) => match json::parse(text.as_str()) {
                Ok(doc) => Ok(read_transcript(&doc)),
                Err(e) => Err(e),
            },
            Err(e) => Err(e),
        }
    }
}

impl TranscriptionBackend for WhisperCLIBackend {
    open spec fn diarizes(&self) -> bool {
        false
    }

    open spec fn name(&self) -> Seq<char> {
        "whisper-cli"@
    }

    fn supports_diarization(&self) -> (r: bool) {
        false
    }

    fn backend_name(&self) -> (r: &'static str) {
        "whisper-cli"
    }
}

/// The models are tried without repetition, the preferred one first, and all fallbacks are among
/// them.
pub proof fn law_models(preferred: Option<Seq<char>>)
    ensures
        models_for(preferred).no_duplicates(),
        models_for(preferred).len() <= 5,
        preferred matches Some(m) ==> models_for(preferred)[0] == m,
        forall|k: int|
            0 <= k < fallbacks().len() ==> models_for(preferred).contains(
                #[trigger] fallbacks()[k],
            ),
{
    let first: Seq<Seq<char>> = match preferred {
        Some(m) => seq![m],
        None => Seq::empty(),
    };
    lemma_with_missing(first, fallbacks());
}

/// The run after outcomes, one after the other.
pub open spec fn after_all(run: RunModel, outcomes: Seq<OutcomeModel>) -> RunModel
    decreases outcomes.len(),
{
    if outcomes.len() == 0 {
        run
    } else {
        after_all(run, outcomes.drop_last()).after(outcomes.last())
    }
}

/// Whether a call of the command has failed.
pub open spec fn is_failure(outcome: OutcomeModel) -> bool {
    !(outcome matches OutcomeModel::Exited { success, stderr } && success)
}

/// A run in which every call fails tries each model once, in order, and then gives up with the
/// last error.
pub proof fn law_run_tries_all(run: RunModel, outcomes: Seq<OutcomeModel>)
    requires
        run.tried == 0,
        outcomes.len() <= run.models.len(),
        forall|i: int| 0 <= i < outcomes.len() ==> is_failure(#[trigger] outcomes[i]),
    ensures
        after_all(run, outcomes).tried == outcomes.len(),
        after_all(run, outcomes).models == run.models,
        after_all(run, outcomes).next() is Fail <==> outcomes.len() == run.models.len(),
    decreases outcomes.len(),
{
    if outcomes.len() > 0 {
        let t = outcomes.drop_last();
        assert forall|i: int| 0 <= i < t.len() implies is_failure(#[trigger] t[i]) by {
            assert(t[i] == outcomes[i]);
        }
        law_run_tries_all(run, t);
        assert(is_failure(outcomes[outcomes.len() - 1]));
    }
}

proof fn lemma_with_missing(list: Seq<Seq<char>>, extra: Seq<Seq<char>>)
    requires
        list.no_duplicates(),
    ensures
        with_missing(list, extra).no_duplicates(),
        list.len() <= with_missing(list, extra).len() <= list.len() + extra.len(),
        forall|k: int| 0 <= k < list.len() ==> #[trigger] with_missing(list, extra)[k] == list[k],
        forall|k: int|
            0 <= k < extra.len() ==> with_missing(list, extra).contains(#[trigger] extra[k]),
    decreases extra.len(),
{
    if extra.len() > 0 {
        let t = extra.drop_last();
        lemma_with_missing(list, t);
        let before = with_missing(list, t);
        let now = with_missing(list, extra);
        assert forall|k: int| 0 <= k < extra.len() implies now.contains(#[trigger] extra[k]) by {
            if k < t.len() {
                assert(before.contains(t[k]));
                let j = choose|j: int| 0 <= j < before.len() && before[j] == t[k];
                assert(now[j] == extra[k]);
            } else if !before.contains(extra.last()) {
                assert(now.last() == extra[k]);
            }
        }
        assert forall|i: int, j: int| 0 <= i < j < now.len() implies now[i] != now[j] by {
            if j < before.len() {
                assert(before[i] == now[i] && before[j] == now[j]);
            } else {
                assert(before[i] == now[i]);
            }
        }
        assert forall|k: int| 0 <= k < list.len() implies #[trigger] now[k] == list[k] by {
            assert(before[k] == list[k]);
        }
    }
}

/// The models that are tried are the preferred one, if any, and behind it the others, in their own
/// order.
pub proof fn law_models_in_order(preferred: Option<Seq<char>>)
    ensures
        match preferred {
            Some(m) => {
                &&& models_for(preferred).len() > 0
                &&& models_for(preferred)[0] == m
                &&& models_for(preferred).drop_first() == fallbacks().filter(
                    |x: Seq<char>| x != m,
                )
            },
            None => models_for(preferred) == fallbacks(),
        },
        fallbacks() == seq!["base"@, "small"@, "medium"@, "large-v3"@],
{
    reveal_strlit("base");
    reveal_strlit("small");
    reveal_strlit("medium");
    reveal_strlit("large-v3");
    let all = fallbacks();
    assert(all[0].len() == 4 && all[1].len() == 5 && all[2].len() == 6 && all[3].len() == 8);
    assert(all.no_duplicates());
    match preferred {
        Some(m) => {
            lemma_missing_in_order(m, all);
            assert(seq![m] + all.filter(|x: Seq<char>| x != m) == models_for(preferred));
            assert((seq![m] + all.filter(|x: Seq<char>| x != m)).drop_first() == all.filter(
                |x: Seq<char>| x != m,
            ));
        },
        None => {
            lemma_missing_all(all);
        },
    }
}

proof fn lemma_missing_all(extra: Seq<Seq<char>>)
    requires
        extra.no_duplicates(),
    ensures
        with_missing(Seq::empty(), extra) == extra,
    decreases extra.len(),
{
    if extra.len() > 0 {
        let t = extra.drop_last();
        lemma_missing_all(t);
        if t.contains(extra.last()) {
            let j = choose|j: int| 0 <= j < t.len() && t[j] == extra.last();
            assert(extra[j] == extra[extra.len() - 1]);
        }
        assert(t.push(extra.last()) == extra);
    }
}

proof fn lemma_missing_in_order(m: Seq<char>, extra: Seq<Seq<char>>)
    requires
        extra.no_duplicates(),
    ensures
        with_missing(seq![m], extra) == seq![m] + extra.filter(|x: Seq<char>| x != m),
    decreases extra.len(),
{
    reveal(Seq::filter);
    let other = |x: Seq<char>| x != m;
    if extra.len() == 0 {
        assert(seq![m] + extra.filter(other) == seq![m]);
    } else {
        let t = extra.drop_last();
        let last = extra.last();
        lemma_missing_in_order(m, t);
        let before = seq![m] + t.filter(other);
        if last == m {
            assert(before[0] == m);
            assert(before.contains(m));
        } else if before.contains(last) {
            let j = choose|j: int| 0 <= j < before.len() && before[j] == last;
            assert(t.filter(other)[j - 1] == last);
            assert(t.filter(other).contains(last));
            t.lemma_filter_contains_rev(other, last);
            let k = choose|k: int| 0 <= k < t.len() && t[k] == last;
            assert(extra[k] == extra[extra.len() - 1]);
        } else {
            assert(before.push(last) == seq![m] + extra.filter(other));
        }
    }
}

/// The command is called for the audio file with the model in turn, writes into the directory of
/// the audio or the current one, and gets the configured time.
pub proof fn law_call(run: RunModel)
    requires
        run.tried < run.models.len(),
    ensures
        run.next() matches StepModel::Call { args, timeout_secs } && {
            &&& args[0] == run.audio.path
            &&& text::given(args, "--model"@, run.models[run.tried as int])
            &&& text::given(args, "--output_format"@, "json"@)
            &&& text::given(args, "--language"@, "en"@)
            &&& run.audio.dir matches Some(d) ==> text::given(args, "--output_dir"@, d)
            &&& run.audio.dir is None ==> text::given(args, "--output_dir"@, "."@)
            &&& timeout_secs == run.timeout_secs
        },
{
    let args = run.next()->args;
    assert(args[1] == "--model"@);
    assert(args[3] == "--output_format"@);
    assert(args[5] == "--output_dir"@);
    assert(args[7] == "--language"@);
}

/// A call that succeeds ends the run: the file named like the audio is read, and no other model is
/// tried. One that fails leads on to the next model, and the reason is kept: what the command
/// complained of, or which model took too long, or why it did not run.
pub proof fn law_outcome(run: RunModel, stderr: Seq<char>, reason: Seq<char>)
    requires
        run.tried < run.models.len(),
    ensures
        ({
            let done = OutcomeModel::Exited { success: true, stderr };
            &&& run.after(done) == run
            &&& run.audio.stem matches Some(s) ==> run.follows(done) == (StepModel::Read {
                file_name: s + ".json"@,
            })
            &&& run.audio.stem is None ==> run.follows(done) == (StepModel::Read {
                file_name: "audio"@ + ".json"@,
            })
        }),
        ({
            let broken = OutcomeModel::Exited { success: false, stderr };
            &&& run.after(broken).last_error == stderr
            &&& run.after(OutcomeModel::TimedOut).last_error == "whisper model "@
                + run.models[run.tried as int] + " timed out after "@ + number::decimal_of(
                run.timeout_secs as nat,
            ) + "s"@
            &&& run.after(OutcomeModel::Unstarted(reason)).last_error
                == "whisper process error: "@ + reason
        }),
        forall|outcome: OutcomeModel| #[trigger]
            is_failure(outcome) ==> {
                let after = run.after(outcome);
                &&& after.tried == run.tried + 1
                &&& after.audio == run.audio
                &&& after.models == run.models
                &&& after.timeout_secs == run.timeout_secs
                &&& run.follows(outcome) == after.next()
            },
{
}

/// A run that gives up says the start of the last reason.
pub proof fn law_gives_up(run: RunModel)
    requires
        run.tried >= run.models.len(),
    ensures
        run.last_error.len() <= 200 ==> run.next() == StepModel::Fail(
            "All whisper models failed. Last error: "@ + run.last_error,
        ),
        run.last_error.len() > 200 ==> run.next() == StepModel::Fail(
            "All whisper models failed. Last error: "@ + run.last_error.take(200),
        ),
{
}

/// A run starts with the preferred model, or with the smallest one where none is preferred, on the
/// audio it is given and with the configured time limit, and has all models before it.
pub proof fn law_run_starts(w: WhisperModel, audio: AudioModel)
    ensures
        ({
            let run = w.run(audio);
            &&& run.audio == audio
            &&& run.timeout_secs == w.timeout_secs
            &&& run.tried == 0
            &&& run.last_error.len() == 0
            &&& run.models.len() >= 4
            &&& forall|k: int|
                0 <= k < fallbacks().len() ==> run.models.contains(#[trigger] fallbacks()[k])
            &&& run.next() matches StepModel::Call { args, timeout_secs } && {
                &&& args[0] == audio.path
                &&& timeout_secs == w.timeout_secs
                &&& w.preferred matches Some(m) ==> text::given(args, "--model"@, m)
                &&& w.preferred is None ==> text::given(args, "--model"@, "base"@)
            }
        }),
{
    let run = w.run(audio);
    law_models(w.preferred);
    law_models_in_order(w.preferred);
    lemma_at_least_fallbacks(w.preferred);
    law_call(run);
}

proof fn lemma_at_least_fallbacks(preferred: Option<Seq<char>>)
    ensures
        models_for(preferred).len() >= 4,
{
    law_models_in_order(preferred);
    match preferred {
        Some(m) => {
            let all = fallbacks();
            let other = |x: Seq<char>| x != m;
            reveal(Seq::filter);
            reveal_strlit("base");
            reveal_strlit("small");
            reveal_strlit("medium");
            reveal_strlit("large-v3");
            assert(all[0].len() == 4 && all[1].len() == 5 && all[2].len() == 6 && all[3].len()
                == 8);
            let a = all.drop_last();
            let b = a.drop_last();
            let c = b.drop_last();
            assert(c.drop_last() == Seq::<Seq<char>>::empty());
            assert(c.drop_last().filter(other).len() == 0);
            assert(c.filter(other).len() == if all[0] != m {
                1int
            } else {
                0
            });
            assert(b.filter(other).len() == c.filter(other).len() + if all[1] != m {
                1int
            } else {
                0
            });
            assert(a.filter(other).len() == b.filter(other).len() + if all[2] != m {
                1int
            } else {
                0
            });
            assert(all.filter(other).len() == a.filter(other).len() + if all[3] != m {
                1int
            } else {
                0
            });
        },
        None => {},
    }
}

/// A transcript comes exactly from a file that could be read and is a document; else the reason why
/// not is handed on.
pub proof fn law_transcript_read(text: Seq<char>, error: Seq<char>)
    ensures
        transcript_of(Err(error)) == Err::<transcribe::TranscriptionModel, _>(error),
        json::json_document(text) matches Ok(doc) ==> transcript_of(Ok(text)) == Ok::<_, Seq<char>>(
            transcribe::transcript_from(doc),
        ),
        json::json_document(text) matches Err(e) ==> transcript_of(Ok(text)) == Err::<
            transcribe::TranscriptionModel,
            _,
        >(e),
{
}

} // verus!
