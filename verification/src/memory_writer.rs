//! Entries that the boot process adds to the agent's daily log.

use crate::scan::{contains_text, law_parts_are_found};
use crate::split::{trim, trimmed};
use crate::text::{byte_prefix, truncate_str};
use vstd::prelude::*;
use vstd::string::*;

verus! {

/// The bytes of an error report that go into a rollback entry.
pub const MAX_ERROR_BYTES: usize = 2000;

/// The entry that records a rollback.
pub open spec fn rollback_entry(
    from_version: Seq<char>,
    to_version: Seq<char>,
    reason: Seq<char>,
    errors: Option<Seq<char>>,
    user_feedback: Option<Seq<char>>,
) -> Seq<char> {
    let head = "**[SYSTEM ROLLBACK]** "@ + from_version + " → "@ + to_version
        + "\n\n**Reason:** "@ + reason;
    let with_errors = match errors {
        Some(e) => head + "\n\n**Errors:**\n```\n"@ + byte_prefix(e, MAX_ERROR_BYTES as nat)
            + "\n```"@,
        None => head,
    };
    match user_feedback {
        Some(f) => with_errors + "\n\n**User feedback:** "@ + f,
        None => with_errors,
    }
}

/// Builds the entry that records a rollback.
pub fn format_rollback_entry(
    from_version: &str,
    to_version: &str,
    reason: &str,
    errors: Option<&str>,
    user_feedback: Option<&str>,
) -> (entry: String)
    ensures
        entry@ == rollback_entry(
            from_version@,
            to_version@,
            reason@,
            match errors {
                Some(e) => Some(e@),
                None => None,
            },
            match user_feedback {
                Some(f) => Some(f@),
                None => None,
            },
        ),
{
    let mut entry = "**[SYSTEM ROLLBACK]** ".to_owned();
    entry.append(from_version);
    entry.append(" → ");
    entry.append(to_version);
    entry.append("\n\n**Reason:** ");
    entry.append(reason);
    match errors {
        Some(e) => {
            entry.append("\n\n**Errors:**\n```\n");
            entry.append(truncate_str(e, MAX_ERROR_BYTES));
            entry.append("\n```");
        },
        None => {},
    }
    match user_feedback {
        Some(f) => {
            entry.append("\n\n**User feedback:** ");
            entry.append(f);
        },
        None => {},
    }
    entry
}

/// The head of a daily log.
pub open spec fn log_header(date: Seq<char>) -> Seq<char> {
    "# Daily Log — "@ + date + "\n\n"@
}

/// One entry of a daily log.
pub open spec fn log_entry(time: Seq<char>, content: Seq<char>) -> Seq<char> {
    "### "@ + time + "\n\n"@ + trimmed(content) + "\n\n"@
}

/// The head of the log of a day.
pub fn daily_header(date: &str) -> (r: String)
    ensures
        r@ == log_header(date@),
{
    let mut r = "# Daily Log — ".to_owned();
    r.append(date);
    r.append("\n\n");
    r
}

/// An entry made at a time of day.
pub fn daily_entry(time: &str, content: &str) -> (r: String)
    ensures
        r@ == log_entry(time@, content@),
{
    let mut r = "### ".to_owned();
    r.append(time);
    r.append("\n\n");
    r.append(trim(content).as_str());
    r.append("\n\n");
    r
}

/// What is to be appended to the log of a day, which starts with the head
/// where there is no log yet.
pub fn append_to_daily_log(exists: bool, date: &str, time: &str, content: &str) -> (r: String)
    ensures
        r@ == (if exists {
            log_entry(time@, content@)
        } else {
            log_header(date@) + log_entry(time@, content@)
        }),
{
    let entry = daily_entry(time, content);
    if exists {
        entry
    } else {
        let mut r = daily_header(date);
        r.append(entry.as_str());
        r
    }
}

/// An entry holds its time and, without white space around it, its content.
pub proof fn law_entries_hold_time_and_content(time: Seq<char>, content: Seq<char>)
    ensures
        contains_text(log_entry(time, content), time),
        contains_text(log_entry(time, content), trimmed(content)),
{
    let e = log_entry(time, content);
    let tail = "\n\n"@ + trimmed(content) + "\n\n"@;
    assert(e =~= "### "@ + time + tail);
    law_parts_are_found("### "@, time, tail, e);
    law_parts_are_found("### "@ + time + "\n\n"@, trimmed(content), "\n\n"@, e);
}

/// The head of a log holds the date.
pub proof fn law_headers_hold_the_date(date: Seq<char>)
    ensures
        contains_text(log_header(date), date),
{
    law_parts_are_found("# Daily Log — "@, date, "\n\n"@, log_header(date));
}

/// The entry of a rollback names both versions and the reason, and what the
/// errors and the user say where they say anything, the errors as far as they
/// fit.
pub proof fn law_rollback_entries_say_what_happened(
    from: Seq<char>,
    to: Seq<char>,
    reason: Seq<char>,
    errors: Option<Seq<char>>,
    feedback: Option<Seq<char>>,
)
    ensures
        ({
            let e = rollback_entry(from, to, reason, errors, feedback);
            &&& ("**[SYSTEM ROLLBACK]** "@ + from + " → "@ + to).is_prefix_of(e)
            &&& contains_text(e, "**Reason:** "@ + reason)
            &&& errors is Some ==> contains_text(
                e,
                "**Errors:**\n```\n"@ + byte_prefix(errors->0, 2000),
            )
            &&& feedback is Some ==> contains_text(e, "**User feedback:** "@ + feedback->0)
        }),
{
    let e = rollback_entry(from, to, reason, errors, feedback);
    let start = "**[SYSTEM ROLLBACK]** "@ + from + " → "@ + to;
    let head = start + "\n\n**Reason:** "@ + reason;
    reveal_strlit("\n\n**Reason:** ");
    reveal_strlit("**Reason:** ");
    reveal_strlit("\n\n**Errors:**\n```\n");
    reveal_strlit("**Errors:**\n```\n");
    reveal_strlit("\n\n**User feedback:** ");
    reveal_strlit("**User feedback:** ");
    let nn = seq!['\n', '\n'];
    assert("\n\n**Reason:** "@ =~= nn + "**Reason:** "@);
    assert("\n\n**Errors:**\n```\n"@ =~= nn + "**Errors:**\n```\n"@);
    assert("\n\n**User feedback:** "@ =~= nn + "**User feedback:** "@);
    let a = match errors {
        Some(x) => "\n\n**Errors:**\n```\n"@ + byte_prefix(x, 2000) + "\n```"@,
        None => Seq::empty(),
    };
    let b = match feedback {
        Some(f) => "\n\n**User feedback:** "@ + f,
        None => Seq::empty(),
    };
    assert(e =~= head + a + b);
    assert(start =~= e.subrange(0, start.len() as int));
    assert(e =~= (start + nn) + ("**Reason:** "@ + reason) + (a + b));
    law_parts_are_found(start + nn, "**Reason:** "@ + reason, a + b, e);
    if errors is Some {
        let part = "**Errors:**\n```\n"@ + byte_prefix(errors->0, 2000);
        assert(e =~= (head + nn) + part + ("\n```"@ + b));
        law_parts_are_found(head + nn, part, "\n```"@ + b, e);
    }
    if feedback is Some {
        let part = "**User feedback:** "@ + feedback->0;
        assert(e =~= (head + a + nn) + part + Seq::<char>::empty());
        law_parts_are_found(head + a + nn, part, Seq::empty(), e);
    }
}

/// What is appended to a log is the entry, behind the head where the log is new.
pub proof fn law_new_logs_begin_with_their_head(
    date: &str,
    time: &str,
    content: &str,
    more: String,
    new: String,
)
    requires
        call_ensures(append_to_daily_log, (true, date, time, content), more),
        call_ensures(append_to_daily_log, (false, date, time, content), new),
    ensures
        more@ == log_entry(time@, content@),
        new@ == log_header(date@) + more@,
{
}

} // verus!
