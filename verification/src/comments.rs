//! What the list's Comments column says about one file's conversation.
use vstd::prelude::*;

use crate::text::{decimal, push_decimal};

verus! {

/// How much has been said about one file: comments in all, threads still
/// open, and comments this reader has not seen yet.
#[derive(Clone, Copy, Debug, PartialEq, Eq, Default)]
pub struct CommentPathSummary {
    pub total: usize,
    pub open: usize,
    pub unread: usize,
}

impl CommentPathSummary {
    /// Nothing has been said about the file.
    pub open spec fn spec_is_empty(self) -> bool {
        self.total == 0
    }

    /// Nothing has been said about the file.
    #[verifier::when_used_as_spec(spec_is_empty)]
    pub fn is_empty(self) -> (b: bool)
        ensures
            b == self.spec_is_empty(),
    {
        self.total == 0
    }
}

/// What the painted badge says, for the accessibility tree.
pub open spec fn comment_label_text(summary: CommentPathSummary) -> Seq<char> {
    if summary.total == 0 {
        "Comments: none"@
    } else {
        "Comments: "@ + decimal(summary.total as nat) + (if summary.unread > 0 {
            ", "@ + decimal(summary.unread as nat) + " unread"@
        } else {
            Seq::empty()
        }) + (if summary.open == 0 {
            ", all resolved"@
        } else {
            Seq::empty()
        })
    }
}

/// The tooltip of the cell: what has been said and what a click does.
pub open spec fn comment_hover_text(summary: CommentPathSummary) -> Seq<char> {
    if summary.total == 0 {
        "No comments about this file yet.\nClick to write one for the team."@
    } else {
        decimal(summary.total as nat) + " comment"@ + (if summary.total == 1 {
            ""@
        } else {
            "s"@
        }) + " about this file"@ + (if summary.unread > 0 {
            " · "@ + decimal(summary.unread as nat) + " unread"@
        } else {
            Seq::empty()
        }) + (if summary.open > 0 {
            "\nClick to read, reply, or resolve."@
        } else {
            " · every thread resolved\nClick to read or reopen."@
        })
    }
}

/// What the painted badge says, for the accessibility tree.
pub fn comment_cell_label(summary: CommentPathSummary) -> (label: String)
    ensures
        label@ == comment_label_text(summary),
{
    if summary.is_empty() {
        return String::from_str("Comments: none");
    }
    let mut label = String::from_str("Comments: ");
    push_decimal(&mut label, summary.total as u64);
    let ghost head = label@;
    if summary.unread > 0 {
        label.append(", ");
        push_decimal(&mut label, summary.unread as u64);
        label.append(" unread");
    }
    let ghost mid = label@;
    if summary.open == 0 {
        label.append(", all resolved");
    }
    proof {
        if summary.unread > 0 {
            assert(mid == head + (", "@ + decimal(summary.unread as nat) + " unread"@));
        } else {
            assert(mid == head + Seq::<char>::empty());
        }
        if summary.open == 0 {
            assert(label@ == mid + ", all resolved"@);
        } else {
            assert(label@ == mid + Seq::<char>::empty());
        }
    }
    label
}

/// The cell's tooltip.
pub fn comment_cell_hover(summary: CommentPathSummary) -> (text: String)
    ensures
        text@ == comment_hover_text(summary),
{
    if summary.is_empty() {
        return String::from_str("No comments about this file yet.\nClick to write one for the team.");
    }
    let mut text = String::new();
    push_decimal(&mut text, summary.total as u64);
    text.append(" comment");
    text.append(if summary.total == 1 { "" } else { "s" });
    text.append(" about this file");
    let ghost head = text@;
    if summary.unread > 0 {
        text.append(" · ");
        push_decimal(&mut text, summary.unread as u64);
        text.append(" unread");
    }
    let ghost mid = text@;
    text.append(
        if summary.open > 0 {
            "\nClick to read, reply, or resolve."
        } else {
            " · every thread resolved\nClick to read or reopen."
        },
    );
    proof {
        if summary.unread > 0 {
            assert(mid == head + (" · "@ + decimal(summary.unread as nat) + " unread"@));
        } else {
            assert(mid == head + Seq::<char>::empty());
        }
    }
    text
}

} // verus!
