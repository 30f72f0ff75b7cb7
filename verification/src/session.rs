//! The interactive commit-message session as a state machine: the
//! surrounding tool performs prompts, editor runs and model requests, and
//! feeds each outcome back as an event; every decision between them is made
//! here.

use vstd::prelude::*;
use vstd::string::StrSliceExecFns;
use vstd::string::StringExecFns;
use crate::message::Message;
use crate::message::Role;
use crate::textutil::match_at;
use crate::textutil::find_str;
use crate::textutil::str_eq_str;
use crate::textutil::trim_spec;
use crate::textutil::trim_str;

verus! {

/// What the user chose to do with the current message.
#[derive(Clone, Copy, PartialEq, Eq, Structural, Debug)]
pub enum Task {
    Commit,
    Edit,
    Revise,
    Abort,
}

impl Task {
    /// The task a menu label denotes.
    pub fn from_str(s: &str) -> (r: Self)
        requires
            s@ == "Commit it"@ || s@ == "Edit it & Commit"@ || s@ == "Revise"@ || s@
                == "Abort"@,
        ensures
            s@ == "Commit it"@ ==> r == Task::Commit,
            s@ == "Edit it & Commit"@ ==> r == Task::Edit,
            s@ == "Revise"@ ==> r == Task::Revise,
            s@ == "Abort"@ ==> r == Task::Abort,
    {
        proof {
            reveal_strlit("Commit it");
            reveal_strlit("Edit it & Commit");
            reveal_strlit("Revise");
            reveal_strlit("Abort");
            assert("Commit it"@.len() == 9);
            assert("Edit it & Commit"@.len() == 16);
            assert("Revise"@.len() == 6);
            assert("Abort"@.len() == 5);
        }
        if str_eq_str(s, "Commit it") {
            Task::Commit
        } else if str_eq_str(s, "Edit it & Commit") {
            Task::Edit
        } else if str_eq_str(s, "Revise") {
            Task::Revise
        } else {
            Task::Abort
        }
    }

    /// The menu label of a task.
    pub fn to_str(&self) -> (r: &str)
        ensures
            *self == Task::Commit ==> r@ == "Commit it"@,
            *self == Task::Edit ==> r@ == "Edit it & Commit"@,
            *self == Task::Revise ==> r@ == "Revise"@,
            *self == Task::Abort ==> r@ == "Abort"@,
    {
        match self {
            Task::Commit => "Commit it",
            Task::Edit => "Edit it & Commit",
            Task::Revise => "Revise",
            Task::Abort => "Abort",
        }
    }
}

/// Where the session stands.
#[derive(Clone, Copy, PartialEq, Eq, Structural, Debug)]
pub enum SessionPhase {
    /// A list of suggestions is out for the user to pick from.
    AwaitingSelection,
    /// The task menu is out.
    AwaitingChoice,
    /// The editor is open on the current message.
    AwaitingEditor,
    /// The revise-instruction prompt is out.
    AwaitingInstruction,
    /// A completion request is in flight.
    AwaitingCompletion,
    /// The session is over.
    Finished,
}

/// How a finished session ended.
#[derive(Clone, Copy, PartialEq, Eq, Structural, Debug)]
pub enum SessionOutcome {
    /// The current message was handed to the version-control write.
    Committed,
    /// The user chose to abort.
    Aborted,
    /// The user cancelled a prompt; nothing was written.
    Cancelled,
}

/// What the surrounding tool reports back to the session.
pub enum SessionEvent {
    /// The user picked this suggestion.
    SelectionMade(String),
    /// The user cancelled the selection prompt.
    SelectionCancelled,
    /// The user chose a task from the menu.
    Chose(Task),
    /// The editor closed with this text.
    EditorReturned(String),
    /// The user entered a revise instruction.
    InstructionEntered(String),
    /// The user cancelled the instruction prompt.
    InstructionCancelled,
    /// The model returned these rendered suggestions.
    SuggestionsReturned(Vec<String>),
}

/// What the surrounding tool must do next.
pub enum SessionAction {
    /// Offer the task menu.
    PromptTask,
    /// Write this message to the version-control system; the session is
    /// over.
    WriteVcs(String),
    /// Open the editor on this text.
    OpenEditor(String),
    /// Prompt for a revise instruction.
    PromptInstruction,
    /// Send the transcript to the model.
    RequestCompletion,
    /// Offer these suggestions for selection.
    PromptSelection(Vec<String>),
    /// Stop without writing anything.
    Exit(SessionOutcome),
}

/// The event fits the phase the session is in.
pub open spec fn event_fits(phase: SessionPhase, event: &SessionEvent) -> bool {
    match event {
        SessionEvent::SelectionMade(_) => phase == SessionPhase::AwaitingSelection,
        SessionEvent::SelectionCancelled => phase == SessionPhase::AwaitingSelection,
        SessionEvent::Chose(_) => phase == SessionPhase::AwaitingChoice,
        SessionEvent::EditorReturned(_) => phase == SessionPhase::AwaitingEditor,
        SessionEvent::InstructionEntered(_) => phase == SessionPhase::AwaitingInstruction,
        SessionEvent::InstructionCancelled => phase == SessionPhase::AwaitingInstruction,
        SessionEvent::SuggestionsReturned(_) => phase == SessionPhase::AwaitingCompletion,
    }
}

/// The transcript texts, with roles.
pub open spec fn transcript_view(t: Seq<Message>) -> Seq<(Role, Seq<char>)> {
    t.map(|i: int, m: Message| (m.role, m.content@))
}

/// The interactive session: the conversation transcript so far, the
/// currently selected message, and the phase.
pub struct Session {
    pub transcript: Vec<Message>,
    pub current: String,
    pub phase: SessionPhase,
}

impl Session {
    /// Opens a session after an initial generation: fails when no
    /// suggestions came back, else puts them out for selection.
    pub fn start(transcript: Vec<Message>, suggestions: Vec<String>) -> (r: Option<
        (Session, SessionAction),
    >)
        ensures
            suggestions@.len() == 0 <==> r is None,
            match r {
                Some((s, action)) => {
                    &&& s.phase == SessionPhase::AwaitingSelection
                    &&& transcript_view(s.transcript@) == transcript_view(transcript@)
                    &&& action matches SessionAction::PromptSelection(v) && v@ == suggestions@
                },
                None => true,
            },
    {
        if suggestions.len() == 0 {
            return None;
        }
        let s = Session {
            transcript,
            current: String::new(),
            phase: SessionPhase::AwaitingSelection,
        };
        Some((s, SessionAction::PromptSelection(suggestions)))
    }

    /// Feeds one event into the session and says what to do next:
    /// selection fixes the current message and opens the task menu;
    /// `Commit` hands the message over and ends the session; `Edit` routes
    /// through the editor and back to the menu; `Revise` appends the
    /// current message as an assistant turn, then the instruction as a user
    /// turn, and requests a completion - its first returned suggestion
    /// becomes the new current message and the menu reopens, while an empty
    /// batch ends the session without writing; `Abort` and cancelled
    /// prompts likewise end the session with nothing written.
    pub fn step(&mut self, event: SessionEvent) -> (action: SessionAction)
        requires
            event_fits(old(self).phase, &event),
        ensures
            match event {
                SessionEvent::SelectionMade(m) => {
                    &&& final(self).phase == SessionPhase::AwaitingChoice
                    &&& final(self).current@ == m@
                    &&& final(self).transcript@ == old(self).transcript@
                    &&& action == SessionAction::PromptTask
                },
                SessionEvent::SelectionCancelled => {
                    &&& final(self).phase == SessionPhase::Finished
                    &&& final(self).transcript@ == old(self).transcript@
                    &&& action == SessionAction::Exit(SessionOutcome::Cancelled)
                },
                SessionEvent::Chose(task) => match task {
                    Task::Commit => {
                        &&& final(self).phase == SessionPhase::Finished
                        &&& final(self).transcript@ == old(self).transcript@
                        &&& action matches SessionAction::WriteVcs(m) && m@ == old(
                            self,
                        ).current@
                    },
                    Task::Edit => {
                        &&& final(self).phase == SessionPhase::AwaitingEditor
                        &&& final(self).transcript@ == old(self).transcript@
                        &&& action matches SessionAction::OpenEditor(m) && m@ == old(
                            self,
                        ).current@
                    },
                    Task::Revise => {
                        &&& final(self).phase == SessionPhase::AwaitingInstruction
                        &&& transcript_view(final(self).transcript@) == transcript_view(
                            old(self).transcript@,
                        ).push((Role::Assistant, old(self).current@))
                        &&& action == SessionAction::PromptInstruction
                    },
                    Task::Abort => {
                        &&& final(self).phase == SessionPhase::Finished
                        &&& final(self).transcript@ == old(self).transcript@
                        &&& action == SessionAction::Exit(SessionOutcome::Aborted)
                    },
                },
                SessionEvent::EditorReturned(t) => {
                    &&& final(self).phase == SessionPhase::AwaitingChoice
                    &&& final(self).current@ == t@
                    &&& final(self).transcript@ == old(self).transcript@
                    &&& action == SessionAction::PromptTask
                },
                SessionEvent::InstructionEntered(instr) => {
                    &&& final(self).phase == SessionPhase::AwaitingCompletion
                    &&& transcript_view(final(self).transcript@) == transcript_view(
                        old(self).transcript@,
                    ).push((Role::User, instr@))
                    &&& action == SessionAction::RequestCompletion
                },
                SessionEvent::InstructionCancelled => {
                    &&& final(self).phase == SessionPhase::Finished
                    &&& action == SessionAction::Exit(SessionOutcome::Cancelled)
                },
                SessionEvent::SuggestionsReturned(v) => {
                    if v@.len() == 0 {
                        &&& final(self).phase == SessionPhase::Finished
                        &&& final(self).transcript@ == old(self).transcript@
                        &&& action == SessionAction::Exit(SessionOutcome::Cancelled)
                    } else {
                        &&& final(self).phase == SessionPhase::AwaitingChoice
                        &&& final(self).current@ == v@[0]@
                        &&& final(self).transcript@ == old(self).transcript@
                        &&& action == SessionAction::PromptTask
                    }
                },
            },
    {
        match event {
            SessionEvent::SelectionMade(m) => {
                self.current = m;
                self.phase = SessionPhase::AwaitingChoice;
                SessionAction::PromptTask
            },
            SessionEvent::SelectionCancelled => {
                self.phase = SessionPhase::Finished;
                SessionAction::Exit(SessionOutcome::Cancelled)
            },
            SessionEvent::Chose(task) => match task {
                Task::Commit => {
                    self.phase = SessionPhase::Finished;
                    SessionAction::WriteVcs(self.current.clone())
                },
                Task::Edit => {
                    self.phase = SessionPhase::AwaitingEditor;
                    SessionAction::OpenEditor(self.current.clone())
                },
                Task::Revise => {
                    let ghost before = self.transcript@;
                    self.transcript.push(Message::assistant(self.current.clone()));
                    self.phase = SessionPhase::AwaitingInstruction;
                    proof {
                        assert(transcript_view(self.transcript@) =~= transcript_view(
                            before,
                        ).push((Role::Assistant, old(self).current@)));
                    }
                    SessionAction::PromptInstruction
                },
                Task::Abort => {
                    self.phase = SessionPhase::Finished;
                    SessionAction::Exit(SessionOutcome::Aborted)
                },
            },
            SessionEvent::EditorReturned(t) => {
                self.current = t;
                self.phase = SessionPhase::AwaitingChoice;
                SessionAction::PromptTask
            },
            SessionEvent::InstructionEntered(instr) => {
                let ghost before = self.transcript@;
                self.transcript.push(Message::user(instr));
                self.phase = SessionPhase::AwaitingCompletion;
                proof {
                    assert(transcript_view(self.transcript@) =~= transcript_view(before).push(
                        (Role::User, instr@),
                    ));
                }
                SessionAction::RequestCompletion
            },
            SessionEvent::InstructionCancelled => {
                self.phase = SessionPhase::Finished;
                SessionAction::Exit(SessionOutcome::Cancelled)
            },
            SessionEvent::SuggestionsReturned(v) => {
                if v.len() == 0 {
                    self.phase = SessionPhase::Finished;
                    SessionAction::Exit(SessionOutcome::Cancelled)
                } else {
                    self.current = v[0].clone();
                    self.phase = SessionPhase::AwaitingChoice;
                    SessionAction::PromptTask
                }
            },
        }
    }
}

/// The message text a raw model response denotes: when the response holds
/// both a `<think>` opener and a `</think>` closer, everything after the
/// first closer, trimmed; otherwise the whole response, trimmed.
pub open spec fn spec_process_response(s: Seq<char>) -> Seq<char> {
    if (exists|i: int| match_at(s, "<think>"@, i)) && (exists|i: int|
        match_at(s, "</think>"@, i)) {
        let te = choose|te: int|
            match_at(s, "</think>"@, te) && (forall|j: int| 0 <= j < te ==> !match_at(
                s,
                "</think>"@,
                j,
            ));
        trim_spec(s.skip(te + 8))
    } else {
        trim_spec(s)
    }
}

/// Extracts the commit message from a raw model response, dropping any
/// leading think section and surrounding white space.
pub fn process_response(response: &str) -> (r: String)
    ensures
        r@ == spec_process_response(response@),
{
    proof {
        reveal_strlit("</think>");
    }
    let think_start = find_str(response, "<think>");
    let think_end = find_str(response, "</think>");
    match (think_start, think_end) {
        (Some(ts), Some(te)) => {
            proof {
                assert("</think>"@.len() == 8);
                assert(match_at(response@, "<think>"@, ts as int));
                assert(match_at(response@, "</think>"@, te as int));
                let c = choose|c: int|
                    match_at(response@, "</think>"@, c) && (forall|j: int|
                        0 <= j < c ==> !match_at(response@, "</think>"@, j));
                if c < te as int {
                    assert(!match_at(response@, "</think>"@, c));
                } else if (te as int) < c {
                    assert(!match_at(response@, "</think>"@, te as int));
                }
                assert(c == te as int);
            }
            let len = response.unicode_len();
            let tail = response.substring_char(te + 8, len);
            let r = trim_str(tail);
            proof {
                assert(tail@ =~= response@.skip(te as int + 8));
            }
            r
        },
        _ => trim_str(response),
    }
}

} // verus!
