use turbocommit::message::{
    ChoiceMessage, CommitSuggestion, ContentPart, Message, MessageContent, Role,
};
use turbocommit::session::{
    process_response, Session, SessionAction, SessionEvent, SessionOutcome, SessionPhase, Task,
};
use turbocommit::util::{count_lines, format_token_count, needs_file_selection};

#[test]
fn commit_suggestion_to_message_body_optional() {
    let suggestion = CommitSuggestion {
        title: "feat: example".to_string(),
        body: Some("Explain why".to_string()),
    };
    assert_eq!(
        suggestion.as_commit_message(),
        "feat: example\n\nExplain why".to_string()
    );

    let suggestion_no_body = CommitSuggestion {
        title: "fix: bug".to_string(),
        body: None,
    };
    assert_eq!(suggestion_no_body.as_commit_message(), "fix: bug");
}

#[test]
fn commit_suggestion_trims_and_drops_blank_bodies() {
    let s = CommitSuggestion {
        title: "  feat: x \n".to_string(),
        body: Some("  \n ".to_string()),
    };
    assert_eq!(s.as_commit_message(), "feat: x");
}

#[test]
fn message_constructors_set_roles() {
    assert_eq!(Message::system("a".to_string()).role, Role::System);
    assert_eq!(Message::developer("b".to_string()).role, Role::Developer);
    assert_eq!(Message::user("c".to_string()).role, Role::User);
    assert_eq!(Message::assistant("d".to_string()).role, Role::Assistant);
    assert_eq!(Message::user("c".to_string()).content, "c");
}

#[test]
fn task_labels_round_trip() {
    for task in [Task::Commit, Task::Edit, Task::Revise, Task::Abort] {
        assert_eq!(Task::from_str(task.to_str()), task);
    }
    assert_eq!(Task::from_str("Commit it"), Task::Commit);
    assert_eq!(Task::from_str("Edit it & Commit"), Task::Edit);
}

#[test]
fn session_requires_at_least_one_suggestion() {
    assert!(Session::start(vec![], vec![]).is_none());
}

#[test]
fn session_commit_flow_writes_the_selected_message() {
    let transcript = vec![Message::system("prompt".to_string())];
    let suggestions = vec!["feat: a".to_string(), "fix: b".to_string()];
    let (mut session, action) = Session::start(transcript, suggestions).unwrap();
    assert!(matches!(action, SessionAction::PromptSelection(v) if v.len() == 2));

    let action = session.step(SessionEvent::SelectionMade("feat: a".to_string()));
    assert!(matches!(action, SessionAction::PromptTask));
    assert_eq!(session.phase, SessionPhase::AwaitingChoice);

    let action = session.step(SessionEvent::Chose(Task::Commit));
    assert!(matches!(action, SessionAction::WriteVcs(m) if m == "feat: a"));
    assert_eq!(session.phase, SessionPhase::Finished);
}

#[test]
fn session_edit_flow_replaces_the_current_message() {
    let (mut session, _) = Session::start(vec![], vec!["m".to_string()]).unwrap();
    session.step(SessionEvent::SelectionMade("m".to_string()));
    let action = session.step(SessionEvent::Chose(Task::Edit));
    assert!(matches!(action, SessionAction::OpenEditor(m) if m == "m"));
    let action = session.step(SessionEvent::EditorReturned("edited".to_string()));
    assert!(matches!(action, SessionAction::PromptTask));
    let action = session.step(SessionEvent::Chose(Task::Commit));
    assert!(matches!(action, SessionAction::WriteVcs(m) if m == "edited"));
}

#[test]
fn session_revise_flow_extends_the_transcript() {
    let (mut session, _) = Session::start(vec![], vec!["m".to_string()]).unwrap();
    session.step(SessionEvent::SelectionMade("m".to_string()));
    let action = session.step(SessionEvent::Chose(Task::Revise));
    assert!(matches!(action, SessionAction::PromptInstruction));
    assert_eq!(session.transcript.len(), 1);
    assert_eq!(session.transcript[0].role, Role::Assistant);
    assert_eq!(session.transcript[0].content, "m");

    let action = session.step(SessionEvent::InstructionEntered("shorter".to_string()));
    assert!(matches!(action, SessionAction::RequestCompletion));
    assert_eq!(session.transcript.len(), 2);
    assert_eq!(session.transcript[1].role, Role::User);

    // the first returned suggestion becomes the current message
    let action = session.step(SessionEvent::SuggestionsReturned(vec![
        "feat: shorter".to_string(),
        "feat: other".to_string(),
    ]));
    assert!(matches!(action, SessionAction::PromptTask));
    assert_eq!(session.phase, SessionPhase::AwaitingChoice);
    let action = session.step(SessionEvent::Chose(Task::Commit));
    assert!(matches!(action, SessionAction::WriteVcs(m) if m == "feat: shorter"));
}

#[test]
fn session_empty_revise_batch_exits_without_commit() {
    let (mut session, _) = Session::start(vec![], vec!["m".to_string()]).unwrap();
    session.step(SessionEvent::SelectionMade("m".to_string()));
    session.step(SessionEvent::Chose(Task::Revise));
    session.step(SessionEvent::InstructionEntered("again".to_string()));
    let action = session.step(SessionEvent::SuggestionsReturned(vec![]));
    assert!(matches!(action, SessionAction::Exit(SessionOutcome::Cancelled)));
    assert_eq!(session.phase, SessionPhase::Finished);
}

#[test]
fn session_cancelled_instruction_exits_without_commit() {
    let (mut session, _) = Session::start(vec![], vec!["m".to_string()]).unwrap();
    session.step(SessionEvent::SelectionMade("m".to_string()));
    session.step(SessionEvent::Chose(Task::Revise));
    let action = session.step(SessionEvent::InstructionCancelled);
    assert!(matches!(action, SessionAction::Exit(SessionOutcome::Cancelled)));
}

#[test]
fn session_cancelled_selection_exits_without_commit() {
    let (mut session, _) = Session::start(vec![], vec!["m".to_string()]).unwrap();
    let action = session.step(SessionEvent::SelectionCancelled);
    assert!(matches!(action, SessionAction::Exit(SessionOutcome::Cancelled)));
}

#[test]
fn process_response_strips_think_sections() {
    assert_eq!(
        process_response("<think>internal notes</think>\n\nfeat: result"),
        "feat: result"
    );
    assert_eq!(process_response("  plain message \n"), "plain message");
}

#[test]
fn into_text_returns_plain_text_directly() {
    let m = ChoiceMessage {
        role: Role::Assistant,
        content: MessageContent::Text("hello".to_string()),
    };
    assert_eq!(m.into_text(), Some("hello".to_string()));
}

#[test]
fn into_text_concatenates_texty_parts_only() {
    let m = ChoiceMessage {
        role: Role::Assistant,
        content: MessageContent::Array(vec![
            ContentPart {
                kind: "output_text".to_string(),
                text: Some("a".to_string()),
            },
            ContentPart {
                kind: "reasoning".to_string(),
                text: Some("ignored".to_string()),
            },
            ContentPart {
                kind: "text".to_string(),
                text: Some("b".to_string()),
            },
            ContentPart {
                kind: "text".to_string(),
                text: None,
            },
        ]),
    };
    assert_eq!(m.into_text(), Some("ab".to_string()));
}

#[test]
fn into_text_is_none_for_empty_parts() {
    let m = ChoiceMessage {
        role: Role::Assistant,
        content: MessageContent::Array(vec![ContentPart {
            kind: "reasoning".to_string(),
            text: Some("x".to_string()),
        }]),
    };
    assert_eq!(m.into_text(), None);
}

#[test]
fn count_lines_counts_newlines_and_wraps() {
    assert_eq!(count_lines("", 10), 0);
    assert_eq!(count_lines("ab\ncd", 10), 2);
    assert_eq!(count_lines("abcd", 2), 2);
    // a lone carriage return is ignored entirely
    assert_eq!(count_lines("a\rb", 10), 1);
}

#[test]
fn format_token_count_renders_thousands_with_two_decimals() {
    assert_eq!(format_token_count(0), "0.00k");
    assert_eq!(format_token_count(50), "0.05k");
    assert_eq!(format_token_count(1234), "1.23k");
    assert_eq!(format_token_count(200000), "200.00k");
}

#[test]
fn file_selection_is_needed_when_over_context_or_forced() {
    assert!(needs_file_selection(10, 10, 15, false));
    assert!(!needs_file_selection(10, 10, 25, false));
    assert!(needs_file_selection(0, 0, 25, true));
}
