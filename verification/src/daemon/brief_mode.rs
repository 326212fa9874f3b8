//! One-line renderings of daemon activity.
use vstd::prelude::*;
use crate::daemon::types::Urgency;
use crate::text::{can_truncate, push_str, str_eq, truncate_ellipsis, truncated, utf8_len};

verus! {

/// Formats daemon activity for brief mode.
pub struct BriefFormatter;

/// The icon for an urgency.
pub open spec fn urgency_icon(u: Urgency) -> Seq<char> {
    match u {
        Urgency::Low => "i"@,
        Urgency::Medium => "!"@,
        Urgency::High => "!!"@,
        Urgency::Critical => "🚨"@,
    }
}

/// The emoji for an action type.
pub open spec fn emoji_for(action_type: Seq<char>) -> Seq<char> {
    if action_type == "RunTests"@ || action_type == "test"@ {
        "🧪"@
    } else if action_type == "FixBuildError"@ || action_type == "fix"@ {
        "🔧"@
    } else if action_type == "RespondToPR"@ || action_type == "pr"@ {
        "📋"@
    } else if action_type == "UpdateDocs"@ || action_type == "docs"@ {
        "📝"@
    } else if action_type == "SendNotification"@ || action_type == "notify"@ {
        "🔔"@
    } else {
        "⚡"@
    }
}

impl BriefFormatter {
    /// `[HH:MM] <emoji> <description> -> <result cut at 120 bytes>`; `clock`
    /// is the current time as `HH:MM`.
    pub fn format_action(clock: &str, action_type: &str, description: &str, result: &str) -> (r: String)
        requires
            can_truncate(result@, 120),
        ensures
            r@ == "["@ + clock@ + "] "@ + emoji_for(action_type@) + " "@ + description@ + " -> "@
                + truncated(result@, 120),
    {
        let mut r = String::new();
        push_str(&mut r, "[");
        push_str(&mut r, clock);
        push_str(&mut r, "] ");
        push_str(&mut r, Self::action_emoji(action_type));
        push_str(&mut r, " ");
        push_str(&mut r, description);
        push_str(&mut r, " -> ");
        let t = Self::truncate(result, 120);
        push_str(&mut r, t.as_str());
        r
    }

    /// `[HH:MM] <description cut at 150 bytes>`.
    pub fn format_observation(clock: &str, description: &str) -> (r: String)
        requires
            can_truncate(description@, 150),
        ensures
            r@ == "["@ + clock@ + "] "@ + truncated(description@, 150),
    {
        let mut r = String::new();
        push_str(&mut r, "[");
        push_str(&mut r, clock);
        push_str(&mut r, "] ");
        let t = Self::truncate(description, 150);
        push_str(&mut r, t.as_str());
        r
    }

    /// `<icon> <message>`.
    pub fn format_notification(message: &str, urgency: &Urgency) -> (r: String)
        ensures
            r@ == urgency_icon(*urgency) + " "@ + message@,
    {
        let icon = match urgency {
            Urgency::Low => "i",
            Urgency::Medium => "!",
            Urgency::High => "!!",
            Urgency::Critical => "🚨",
        };
        let mut r = String::new();
        push_str(&mut r, icon);
        push_str(&mut r, " ");
        push_str(&mut r, message);
        r
    }

    /// The approval prompt, with the action cut at 100 bytes and the
    /// reasoning at 200.
    pub fn format_approval_request(action: &str, reasoning: &str) -> (r: String)
        requires
            can_truncate(action@, 100),
            can_truncate(reasoning@, 200),
        ensures
            r@ == "🌙 KAIROS wants to act:\nAction: "@ + truncated(action@, 100) + "\nReason: "@
                + truncated(reasoning@, 200) + "\n[y/N] > "@,
    {
        let mut r = String::new();
        push_str(&mut r, "🌙 KAIROS wants to act:\nAction: ");
        let a = Self::truncate(action, 100);
        push_str(&mut r, a.as_str());
        push_str(&mut r, "\nReason: ");
        let b = Self::truncate(reasoning, 200);
        push_str(&mut r, b.as_str());
        push_str(&mut r, "\n[y/N] > ");
        r
    }

    /// The emoji for an action type.
    pub fn action_emoji(action_type: &str) -> (e: &'static str)
        ensures
            e@ == emoji_for(action_type@),
    {
        if str_eq(action_type, "RunTests") || str_eq(action_type, "test") {
            "🧪"
        } else if str_eq(action_type, "FixBuildError") || str_eq(action_type, "fix") {
            "🔧"
        } else if str_eq(action_type, "RespondToPR") || str_eq(action_type, "pr") {
            "📋"
        } else if str_eq(action_type, "UpdateDocs") || str_eq(action_type, "docs") {
            "📝"
        } else if str_eq(action_type, "SendNotification") || str_eq(action_type, "notify") {
            "🔔"
        } else {
            "⚡"
        }
    }

    /// Cuts `s` to at most `max` bytes, marking the cut with "...".
    pub fn truncate(s: &str, max: usize) -> (r: String)
        requires
            can_truncate(s@, max as nat),
        ensures
            r@ == truncated(s@, max as nat),
            utf8_len(r@) <= max || utf8_len(s@) <= max,
    {
        truncate_ellipsis(s, max)
    }
}

} // verus!
