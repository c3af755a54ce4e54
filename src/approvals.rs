//! Tool approvals for Codex: the decision sent back on the wire and the feedback queue.
use vstd::prelude::*;
use vstd::string::*;
use crate::entry::{NormalizedEntry, NormalizedEntryType};
use crate::text::{ends_with, has_prefix, has_suffix, same_text, starts_with, trim, trimmed};

verus! {

/// Where a tool approval stands.
#[derive(Clone, Debug, PartialEq)]
pub enum ApprovalStatus {
    Pending,
    Approved,
    Denied { reason: Option<String> },
    TimedOut,
}

/// The decision sent back to Codex.
#[derive(Clone, Copy, Debug, PartialEq, Eq, Structural)]
pub enum ReviewDecision {
    Approved,
    ApprovedForSession,
    Denied,
    Abort,
}

/// The kind of tool that asks for approval.
#[derive(Clone, Copy, Debug, PartialEq, Eq, Structural)]
pub enum ApprovalKind {
    Exec,
    ApplyPatch,
}

/// A launch error of the Codex executor.
#[derive(Clone, Debug, PartialEq)]
pub enum Error {
    LaunchError { error: String },
}

impl Error {
    pub fn launch_error(error: String) -> (r: Error)
        ensures
            r == (Error::LaunchError { error }),
    {
        Error::LaunchError { error }
    }

    /// The error as an error entry.
    pub fn to_normalized_entry(&self) -> (r: NormalizedEntry)
        ensures
            r.entry_type is ErrorMessage,
            self matches Error::LaunchError { error } ==> r.content@ == error@,
    {
        match self {
            Error::LaunchError { error } => NormalizedEntry {
                entry_type: NormalizedEntryType::ErrorMessage,
                content: error.clone(),
            },
        }
    }
}

/// The outcome of an approval, as the executor records it.
#[derive(Clone, Debug, PartialEq)]
pub enum Approval {
    ApprovalResponse { call_id: String, tool_name: String, approval_status: ApprovalStatus },
}

/// The name under which a recorded tool is shown.
pub open spec fn display_name(tool_name: Seq<char>) -> Seq<char> {
    if tool_name == "codex.exec_command"@ {
        "Exec Command"@
    } else if tool_name == "codex.apply_patch"@ {
        "Edit"@
    } else {
        tool_name
    }
}

/// The entry for an approval outcome: a denial is the user's feedback (the reason, trimmed, or
/// a standard text), a timeout an error; other outcomes show nothing.
pub open spec fn approval_entry_ok(a: Approval, r: Option<NormalizedEntry>) -> bool {
    match a {
        Approval::ApprovalResponse { tool_name, approval_status, .. } => match approval_status {
            ApprovalStatus::Denied { reason } => r matches Some(e) && e.entry_type matches NormalizedEntryType::UserFeedback {
                denied_tool,
            } && denied_tool@ == display_name(tool_name@) && e.content@ == trimmed(match reason {
                Some(x) => x@,
                None => "User denied this tool use request"@,
            }),
            ApprovalStatus::TimedOut => r matches Some(e) && e.entry_type is ErrorMessage && e.content@
                == "Approval timed out for tool "@ + display_name(tool_name@),
            _ => r is None,
        },
    }
}

impl Approval {
    pub fn approval_response(call_id: String, tool_name: String, approval_status: ApprovalStatus) -> (r: Approval)
        ensures
            r == (Approval::ApprovalResponse { call_id, tool_name, approval_status }),
    {
        Approval::ApprovalResponse { call_id, tool_name, approval_status }
    }

    pub fn display_tool_name(&self) -> (r: String)
        ensures
            self matches Approval::ApprovalResponse { tool_name, .. } ==> r@ == display_name(tool_name@),
    {
        let Approval::ApprovalResponse { tool_name, .. } = self;
        if same_text(tool_name.as_str(), "codex.exec_command") {
            String::from_str("Exec Command")
        } else if same_text(tool_name.as_str(), "codex.apply_patch") {
            String::from_str("Edit")
        } else {
            tool_name.clone()
        }
    }

    pub fn to_normalized_entry_opt(&self) -> (r: Option<NormalizedEntry>)
        ensures
            approval_entry_ok(*self, r),
    {
        let tool_name = self.display_tool_name();
        let Approval::ApprovalResponse { approval_status, .. } = self;
        match approval_status {
            ApprovalStatus::Pending => None,
            ApprovalStatus::Approved => None,
            ApprovalStatus::Denied { reason } => {
                let content = match reason {
                    Some(x) => trim(x.as_str()),
                    None => trim("User denied this tool use request"),
                };
                Some(
                    NormalizedEntry {
                        entry_type: NormalizedEntryType::UserFeedback { denied_tool: tool_name },
                        content,
                    },
                )
            },
            ApprovalStatus::TimedOut => {
                let mut content = String::from_str("Approval timed out for tool ");
                content.append(tool_name.as_str());
                Some(NormalizedEntry { entry_type: NormalizedEntryType::ErrorMessage, content })
            },
        }
    }
}

/// The user's reason in a denial, trimmed, when it is not empty.
pub open spec fn denial_feedback(status: ApprovalStatus) -> Option<Seq<char>> {
    match status {
        ApprovalStatus::Denied { reason } => match reason {
            Some(x) => if trimmed(x@).len() > 0 { Some(trimmed(x@)) } else { None },
            None => None,
        },
        _ => None,
    }
}

/// The decision sent for an approval outcome: with auto-approval, approval for the session;
/// else approval, an abort when a denial gives a reason (which is fed back to the
/// conversation), and a denial in every other case.
pub open spec fn decision_of(auto_approve: bool, status: ApprovalStatus) -> ReviewDecision {
    if auto_approve {
        ReviewDecision::ApprovedForSession
    } else {
        match status {
            ApprovalStatus::Approved => ReviewDecision::Approved,
            ApprovalStatus::Denied { .. } => if denial_feedback(status) is Some {
                ReviewDecision::Abort
            } else {
                ReviewDecision::Denied
            },
            _ => ReviewDecision::Denied,
        }
    }
}

pub open spec fn opt_view(o: Option<String>) -> Option<Seq<char>> {
    match o {
        Some(s) => Some(s@),
        None => None,
    }
}

/// The decision to send for an approval outcome, and the feedback to queue.
pub fn review_decision(auto_approve: bool, status: &ApprovalStatus) -> (r: (ReviewDecision, Option<String>))
    ensures
        r.0 == decision_of(auto_approve, *status),
        opt_view(r.1) == (if auto_approve { None } else { denial_feedback(*status) }),
{
    if auto_approve {
        return (ReviewDecision::ApprovedForSession, None);
    }
    match status {
        ApprovalStatus::Approved => (ReviewDecision::Approved, None),
        ApprovalStatus::Denied { reason } => {
            let feedback = match reason {
                Some(x) => {
                    let t = trim(x.as_str());
                    if t.as_str().unicode_len() > 0 {
                        Some(t)
                    } else {
                        None
                    }
                },
                None => None,
            };
            if feedback.is_some() {
                (ReviewDecision::Abort, feedback)
            } else {
                (ReviewDecision::Denied, None)
            }
        },
        ApprovalStatus::TimedOut => (ReviewDecision::Denied, None),
        ApprovalStatus::Pending => (ReviewDecision::Denied, None),
    }
}

/// The name under which the approval service is asked about a tool.
pub fn approval_tool_name(kind: ApprovalKind) -> (r: &'static str)
    ensures
        kind == ApprovalKind::Exec ==> r@ == "bash"@,
        kind == ApprovalKind::ApplyPatch ==> r@ == "edit"@,
{
    match kind {
        ApprovalKind::Exec => "bash",
        ApprovalKind::ApplyPatch => "edit",
    }
}

/// The name under which an approval outcome is recorded.
pub fn recorded_tool_name(kind: ApprovalKind) -> (r: &'static str)
    ensures
        kind == ApprovalKind::Exec ==> r@ == "codex.exec_command"@,
        kind == ApprovalKind::ApplyPatch ==> r@ == "codex.apply_patch"@,
{
    match kind {
        ApprovalKind::Exec => "codex.exec_command",
        ApprovalKind::ApplyPatch => "codex.apply_patch",
    }
}

/// The outcome of an approval: approved outright with auto-approval; else what the approval
/// service answered, and a denial for a service error when it could not answer.
pub fn settle_approval(auto_approve: bool, answer: Option<ApprovalStatus>) -> (r: ApprovalStatus)
    ensures
        auto_approve ==> r == ApprovalStatus::Approved,
        !auto_approve && answer is Some ==> r == answer->0,
        !auto_approve && answer is None ==> (r matches ApprovalStatus::Denied { reason } && reason matches Some(x)
            && x@ == "approval service error"@),
{
    if auto_approve {
        return ApprovalStatus::Approved;
    }
    match answer {
        Some(s) => s,
        None => ApprovalStatus::Denied { reason: Some(String::from_str("approval service error")) },
    }
}

/// What a Codex notification asks of the client.
#[derive(Clone, Copy, Debug, PartialEq, Eq, Structural)]
pub enum NotificationAction {
    /// Nothing.
    Ignore,
    /// Send the queued feedback: the turn was aborted.
    FlushFeedback,
    /// The task is complete.
    Finished,
}

pub open spec fn notification_action_of(method: Seq<char>) -> NotificationAction {
    if !has_prefix(method, "codex/event"@) {
        NotificationAction::Ignore
    } else if has_suffix(method, "turn_aborted"@) {
        NotificationAction::FlushFeedback
    } else if method == "codex/event/task_complete"@ {
        NotificationAction::Finished
    } else {
        NotificationAction::Ignore
    }
}

pub fn notification_action(method: &str) -> (r: NotificationAction)
    ensures
        r == notification_action_of(method@),
{
    if !starts_with(method, "codex/event") {
        NotificationAction::Ignore
    } else if ends_with(method, "turn_aborted") {
        NotificationAction::FlushFeedback
    } else if same_text(method, "codex/event/task_complete") {
        NotificationAction::Finished
    } else {
        NotificationAction::Ignore
    }
}

/// The user message that carries a denial's reason back into the conversation.
pub open spec fn feedback_message(reason: Seq<char>) -> Seq<char> {
    "User feedback: "@ + reason
}

/// The messages to send for the queued feedback `q`: one for each that is not blank.
pub open spec fn feedback_messages(q: Seq<Seq<char>>) -> Seq<Seq<char>>
    decreases q.len(),
{
    if q.len() == 0 {
        Seq::empty()
    } else {
        let rest = feedback_messages(q.drop_last());
        let t = trimmed(q.last());
        if t.len() > 0 {
            rest.push(feedback_message(t))
        } else {
            rest
        }
    }
}

/// Feedback from denied approvals, waiting for a conversation to be sent to.
pub struct FeedbackQueue {
    pub pending: Vec<String>,
    pub conversation_id: Option<String>,
}

pub open spec fn views(v: Seq<String>) -> Seq<Seq<char>> {
    v.map_values(|s: String| s@)
}

impl FeedbackQueue {
    pub fn new() -> (r: FeedbackQueue)
        ensures
            r.pending@.len() == 0,
            r.conversation_id is None,
    {
        FeedbackQueue { pending: Vec::new(), conversation_id: None }
    }

    /// Queues a reason, unless it is blank.
    pub fn enqueue(&mut self, message: String)
        ensures
            trimmed(message@).len() > 0 ==> views(final(self).pending@) == views(old(self).pending@).push(message@),
            trimmed(message@).len() == 0 ==> final(self).pending@ == old(self).pending@,
            final(self).conversation_id == old(self).conversation_id,
    {
        let t = trim(message.as_str());
        if t.as_str().unicode_len() == 0 {
            return;
        }
        let ghost before = self.pending@;
        self.pending.push(message);
        assert(views(self.pending@) =~= views(before).push(message@));
    }

    /// Takes the queued feedback: with a conversation known, the messages to send to it, in
    /// order, and the queue is emptied; without one, the feedback stays queued.
    pub fn flush(&mut self) -> (r: Vec<String>)
        ensures
            final(self).conversation_id == old(self).conversation_id,
            old(self).conversation_id is Some ==> views(r@) == feedback_messages(views(old(self).pending@))
                && final(self).pending@.len() == 0,
            old(self).conversation_id is None ==> r@.len() == 0 && final(self).pending@ == old(self).pending@,
    {
        let mut out: Vec<String> = Vec::new();
        if self.conversation_id.is_none() {
            return out;
        }
        let mut k: usize = 0;
        while k < self.pending.len()
            invariant
                k <= self.pending.len(),
                self.pending@ == old(self).pending@,
                views(out@) == feedback_messages(views(self.pending@.subrange(0, k as int))),
            decreases self.pending.len() - k,
        {
            let ghost pre = views(self.pending@.subrange(0, k as int));
            assert(views(self.pending@.subrange(0, k + 1)).drop_last() =~= pre);
            assert(views(self.pending@.subrange(0, k + 1)).last() == self.pending@[k as int]@);
            let t = trim(self.pending[k].as_str());
            if t.as_str().unicode_len() > 0 {
                let mut m = String::from_str("User feedback: ");
                m.append(t.as_str());
                let ghost before = out@;
                out.push(m);
                assert(views(out@) =~= views(before).push(m@));
            }
            k = k + 1;
        }
        assert(self.pending@.subrange(0, k as int) =~= self.pending@);
        self.pending = Vec::new();
        out
    }

    /// Records the conversation and takes the feedback queued for it.
    pub fn register_session(&mut self, conversation_id: String) -> (r: Vec<String>)
        ensures
            final(self).conversation_id == Some(conversation_id),
            final(self).pending@.len() == 0,
            views(r@) == feedback_messages(views(old(self).pending@)),
    {
        self.conversation_id = Some(conversation_id);
        self.flush()
    }
}

} // verus!
