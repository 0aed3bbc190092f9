//! The Markdown export of a meeting, and names derived from meetings.
use vstd::prelude::*;
use crate::text::{i64_to_decimal, signed_decimal};

verus! {

/// An action item as the export lists it.
#[derive(Debug)]
pub struct ActionRow {
    pub task: String,
    pub owner: Option<String>,
    pub deadline: Option<String>,
    pub status: String,
}

/// The checkbox of an item: ticked when its status is "done".
pub open spec fn checkbox(status: Seq<char>) -> Seq<char> {
    if status == "done"@ {
        "[x]"@
    } else {
        "[ ]"@
    }
}

/// Owner and deadline in full-width brackets, whichever are known.
pub open spec fn action_meta(owner: Option<Seq<char>>, deadline: Option<Seq<char>>) -> Seq<char> {
    match (owner, deadline) {
        (Some(o), Some(d)) => "（"@ + o + " / "@ + d + "）"@,
        (Some(o), None) => "（"@ + o + "）"@,
        (None, Some(d)) => "（"@ + d + "）"@,
        (None, None) => Seq::empty(),
    }
}

/// The optional text by its characters.
pub open spec fn ov(s: Option<String>) -> Option<Seq<char>> {
    crate::text::opt_view(s)
}

/// The Markdown line of an action item: "- [x] task（owner / deadline）".
pub open spec fn action_line(a: ActionRow) -> Seq<char> {
    "- "@ + checkbox(a.status@) + " "@ + a.task@ + action_meta(ov(a.owner), ov(a.deadline))
}

/// The Markdown line of an action item.
pub fn action_line_of(a: &ActionRow) -> (r: String)
    ensures
        r@ == action_line(*a),
{
    let mut s = "- ".to_owned();
    let done = "done".to_owned();
    if a.status == done {
        s.append("[x]");
    } else {
        s.append("[ ]");
    }
    s.append(" ");
    s.append(a.task.as_str());
    match (&a.owner, &a.deadline) {
        (Some(o), Some(d)) => {
            s.append("（");
            s.append(o.as_str());
            s.append(" / ");
            s.append(d.as_str());
            s.append("）");
        },
        (Some(o), None) => {
            s.append("（");
            s.append(o.as_str());
            s.append("）");
        },
        (None, Some(d)) => {
            s.append("（");
            s.append(d.as_str());
            s.append("）");
        },
        (None, None) => {},
    }
    proof {
        if a.owner is None && a.deadline is None {
            assert(s@ =~= action_line(*a));
        }
    }
    s
}

/// The action lines, each followed by a newline.
pub open spec fn action_block(items: Seq<ActionRow>) -> Seq<char>
    decreases items.len(),
{
    if items.len() == 0 {
        Seq::empty()
    } else {
        action_block(items.drop_last()) + action_line(items.last()) + "\n"@
    }
}

/// The exported Markdown of a meeting: title, date, summary, the action
/// items as a checklist, and the full report; missing parts are marked as
/// such.
pub open spec fn report_markdown(
    title: Seq<char>,
    start_time: Seq<char>,
    summary: Option<Seq<char>>,
    report: Option<Seq<char>>,
    items: Seq<ActionRow>,
) -> Seq<char> {
    "# "@ + title + "\n\n"@ + "**日期：** "@ + start_time + "\n\n"@ + "## 会议总结\n\n"@ + (match summary {
        Some(s) => s,
        None => "（暂无总结）"@,
    }) + "\n\n"@ + "## 行动项\n\n"@ + (if items.len() == 0 {
        "（暂无行动项）\n"@
    } else {
        action_block(items)
    }) + "\n"@ + "## 完整报告\n\n"@ + (match report {
        Some(r) => r,
        None => "（暂无报告）"@,
    }) + "\n"@
}

/// What follows the action items in an export: a blank line, the report
/// heading and the report (or its placeholder).
pub open spec fn report_tail(report: Option<Seq<char>>) -> Seq<char> {
    "\n"@ + "## 完整报告\n\n"@ + (match report {
        Some(r) => r,
        None => "（暂无报告）"@,
    }) + "\n"@
}

/// A first action item replaces the "no action items" line of the export
/// with its own line.
#[verifier::rlimit(60)]
pub proof fn law_first_item_replaces_placeholder(
    title: Seq<char>,
    start_time: Seq<char>,
    summary: Option<Seq<char>>,
    report: Option<Seq<char>>,
    x: ActionRow,
)
    ensures
        ({
            let none = report_markdown(title, start_time, summary, report, Seq::empty());
            let one = report_markdown(title, start_time, summary, report, seq![x]);
            let placeholder = "（暂无行动项）\n"@;
            let cut = none.len() - placeholder.len() - report_tail(report).len();
            &&& 0 <= cut
            &&& none == none.take(cut) + placeholder + report_tail(report)
            &&& one == none.take(cut) + action_line(x) + "\n"@ + report_tail(report)
        }),
{
    let rep = match report {
        Some(r) => r,
        None => "（暂无报告）"@,
    };
    let head = "# "@ + title + "\n\n"@ + "**日期：** "@ + start_time + "\n\n"@ + "## 会议总结\n\n"@ + (
    match summary {
        Some(s) => s,
        None => "（暂无总结）"@,
    }) + "\n\n"@ + "## 行动项\n\n"@;
    let tail = report_tail(report);
    let placeholder = "（暂无行动项）\n"@;
    let none = report_markdown(title, start_time, summary, report, Seq::empty());
    let one = report_markdown(title, start_time, summary, report, seq![x]);
    assert(seq![x].drop_last() =~= Seq::<ActionRow>::empty());
    assert(seq![x].last() == x);
    assert(action_block(Seq::<ActionRow>::empty()) =~= Seq::<char>::empty());
    assert(action_block(seq![x]) == action_block(seq![x].drop_last()) + action_line(x) + "\n"@);
    assert(action_block(seq![x]) =~= action_line(x) + "\n"@);
    assert(none =~= head + placeholder + tail);
    assert(one =~= head + (action_line(x) + "\n"@) + tail);
    let cut = none.len() - placeholder.len() - tail.len();
    assert(cut == head.len());
    assert(none.take(cut) =~= head);
    assert(none =~= none.take(cut) + placeholder + tail);
    assert(one =~= none.take(cut) + action_line(x) + "\n"@ + tail);
}

/// Each further action item adds its own line, followed by a newline, right
/// after the lines of the items before it: the export lists every item, in
/// order.
#[verifier::rlimit(60)]
pub proof fn law_next_item_adds_its_line(
    title: Seq<char>,
    start_time: Seq<char>,
    summary: Option<Seq<char>>,
    report: Option<Seq<char>>,
    items: Seq<ActionRow>,
    x: ActionRow,
)
    requires
        items.len() > 0,
    ensures
        ({
            let before = report_markdown(title, start_time, summary, report, items);
            let after = report_markdown(title, start_time, summary, report, items.push(x));
            let cut = before.len() - report_tail(report).len();
            &&& 0 <= cut
            &&& before == before.take(cut) + report_tail(report)
            &&& after == before.take(cut) + action_line(x) + "\n"@ + report_tail(report)
        }),
{
    let head = "# "@ + title + "\n\n"@ + "**日期：** "@ + start_time + "\n\n"@ + "## 会议总结\n\n"@ + (
    match summary {
        Some(s) => s,
        None => "（暂无总结）"@,
    }) + "\n\n"@ + "## 行动项\n\n"@;
    let tail = report_tail(report);
    let before = report_markdown(title, start_time, summary, report, items);
    let after = report_markdown(title, start_time, summary, report, items.push(x));
    let line = action_line(x) + "\n"@;
    let hb = head + action_block(items);
    assert(action_block(items.push(x)) == action_block(items) + line) by {
        assert(items.push(x).drop_last() =~= items);
        assert(items.push(x).last() == x);
        assert(action_block(items) + action_line(x) + "\n"@ =~= action_block(items) + line);
    }
    assert(before == hb + tail) by {
        assert(before =~= hb + tail);
    }
    assert(after == hb + line + tail) by {
        assert(after =~= hb + line + tail);
    }
    let cut = before.len() - tail.len();
    assert(before.take(cut) == hb) by {
        assert(before.take(cut) =~= hb);
    }
    assert(before =~= before.take(cut) + tail);
    assert(after =~= before.take(cut) + action_line(x) + "\n"@ + tail);
}

/// Renders the Markdown export of a meeting.
pub fn render_report(
    title: &str,
    start_time: &str,
    summary: Option<&str>,
    report: Option<&str>,
    items: &[ActionRow],
) -> (r: String)
    ensures
        r@ == report_markdown(
            title@,
            start_time@,
            match summary {
                Some(s) => Some(s@),
                None => None,
            },
            match report {
                Some(s) => Some(s@),
                None => None,
            },
            items@,
        ),
{
    let mut md = "# ".to_owned();
    md.append(title);
    md.append("\n\n");
    md.append("**日期：** ");
    md.append(start_time);
    md.append("\n\n");
    md.append("## 会议总结\n\n");
    match summary {
        Some(s) => md.append(s),
        None => md.append("（暂无总结）"),
    }
    md.append("\n\n");
    md.append("## 行动项\n\n");
    let ghost before_items = md@;
    if items.len() == 0 {
        md.append("（暂无行动项）\n");
    } else {
        let mut i: usize = 0;
        while i < items.len()
            invariant
                i <= items@.len(),
                md@ == before_items + action_block(items@.take(i as int)),
            decreases items.len() - i,
        {
            let line = action_line_of(&items[i]);
            md.append(line.as_str());
            md.append("\n");
            proof {
                let t = items@.take(i + 1);
                assert(t.drop_last() =~= items@.take(i as int));
                assert(t.last() == items@[i as int]);
                assert(md@ =~= before_items + action_block(t));
            }
            i = i + 1;
        }
        assert(items@.take(items@.len() as int) =~= items@);
    }
    md.append("\n");
    md.append("## 完整报告\n\n");
    match report {
        Some(s) => md.append(s),
        None => md.append("（暂无报告）"),
    }
    md.append("\n");
    md
}

/// The file name of a meeting's recording: "meeting_{id}.wav".
pub fn recording_filename(meeting_id: i64) -> (r: String)
    ensures
        r@ == "meeting_"@ + signed_decimal(meeting_id as int) + ".wav"@,
{
    let mut s = "meeting_".to_owned();
    let d = i64_to_decimal(meeting_id);
    s.append(d.as_str());
    s.append(".wav");
    s
}

/// The name under which a meeting's audio is streamed: "meeting_{id}".
pub fn stream_name(meeting_id: i64) -> (r: String)
    ensures
        r@ == "meeting_"@ + signed_decimal(meeting_id as int),
{
    let mut s = "meeting_".to_owned();
    let d = i64_to_decimal(meeting_id);
    s.append(d.as_str());
    s
}

/// The SQL `LIKE` pattern matching titles or summaries that contain `query`.
pub fn search_pattern(query: &str) -> (r: String)
    ensures
        r@ == "%"@ + query@ + "%"@,
{
    let mut s = "%".to_owned();
    s.append(query);
    s.append("%");
    s
}

} // verus!
