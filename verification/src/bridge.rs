//! What the MCP bridge answers its client: the text of each tool's result,
//! the asset listing, and the errors of talking to the widget.

use vstd::prelude::*;
use vstd::string::*;
use crate::commands::ResponseView;
use crate::protocol::Response;
use crate::text::{joined, listing_order, sort_texts, join_texts, texts};
use vstd::relations::sorted_by;

verus! {

/// The bridge tools that send a display command to the widget.
#[derive(Debug, Clone, Copy, PartialEq, Eq)]
pub enum DisplayTool {
    SetKaomoji,
    SetImage,
    SetAsset,
    Clear,
}

/// What a display tool reports when the widget carried the command out.
pub open spec fn done_text(tool: DisplayTool) -> Seq<char> {
    match tool {
        DisplayTool::SetKaomoji => "Kaomoji updated successfully."@,
        DisplayTool::SetImage => "Image updated successfully."@,
        DisplayTool::SetAsset => "Asset displayed successfully."@,
        DisplayTool::Clear => "Display cleared."@,
    }
}

/// A tool's result as the contracts speak of it: the success text, or the
/// message of an internal error.
pub open spec fn reply_view(reply: Result<Response, String>) -> Result<ResponseView, Seq<char>> {
    match reply {
        Ok(r) => Ok(r@),
        Err(e) => Err(e@),
    }
}

/// The result of a display tool given the widget's reply, or the error of
/// reaching it: the widget's own error message and a failure to reach it are
/// errors; a `Pong` is reported as unexpected but not as an error.
pub open spec fn display_tool_result(
    tool: DisplayTool,
    reply: Result<ResponseView, Seq<char>>,
) -> Result<Seq<char>, Seq<char>> {
    match reply {
        Ok(ResponseView::Success) => Ok(done_text(tool)),
        Ok(ResponseView::Error(message)) => Err(message),
        Ok(ResponseView::Pong) => Ok("Unexpected pong response."@),
        Err(e) => Err(e),
    }
}

fn done_string(tool: DisplayTool) -> (text: String)
    ensures
        text@ == done_text(tool),
{
    match tool {
        DisplayTool::SetKaomoji => String::from_str("Kaomoji updated successfully."),
        DisplayTool::SetImage => String::from_str("Image updated successfully."),
        DisplayTool::SetAsset => String::from_str("Asset displayed successfully."),
        DisplayTool::Clear => String::from_str("Display cleared."),
    }
}

/// The result of a display tool (see [`display_tool_result`]): `Ok` holds
/// the success text, `Err` the message of the internal error.
pub fn tool_result(tool: DisplayTool, reply: Result<Response, String>) -> (result: Result<
    String,
    String,
>)
    ensures
        match (result, display_tool_result(tool, reply_view(reply))) {
            (Ok(t), Ok(s)) => t@ == s,
            (Err(t), Err(s)) => t@ == s,
            _ => false,
        },
{
    match reply {
        Ok(Response::Success) => Ok(done_string(tool)),
        Ok(Response::Error { message }) => Err(message),
        Ok(Response::Pong) => Ok(String::from_str("Unexpected pong response.")),
        Err(e) => Err(e),
    }
}

/// What the `is_running` tool reports; it never fails.
pub open spec fn running_text(reply: Result<ResponseView, Seq<char>>) -> Seq<char> {
    match reply {
        Ok(ResponseView::Pong) => "The kaomoji widget is running."@,
        Ok(ResponseView::Success) => "The kaomoji widget is running (responded unexpectedly)."@,
        Ok(ResponseView::Error(message)) => "The kaomoji widget is running but returned an error: "@
            + message,
        Err(e) => e,
    }
}

/// The text of the `is_running` tool's result (see [`running_text`]).
pub fn is_running_text(reply: Result<Response, String>) -> (text: String)
    ensures
        text@ == running_text(reply_view(reply)),
{
    match reply {
        Ok(Response::Pong) => String::from_str("The kaomoji widget is running."),
        Ok(Response::Success) => String::from_str(
            "The kaomoji widget is running (responded unexpectedly).",
        ),
        Ok(Response::Error { message }) => {
            let mut text = String::from_str(
                "The kaomoji widget is running but returned an error: ",
            );
            text.append(message.as_str());
            text
        },
        Err(e) => e,
    }
}

/// The error of `set_asset` when `name` is not a file in the assets directory.
pub open spec fn asset_missing_text(name: Seq<char>) -> Seq<char> {
    "Asset '"@ + name + "' not found. Use list_assets to see available names."@
}

/// The error text of `set_asset` for a missing asset (see [`asset_missing_text`]).
pub fn asset_not_found_message(name: &str) -> (text: String)
    ensures
        text@ == asset_missing_text(name@),
{
    let mut text = String::from_str("Asset '");
    text.append(name);
    text.append("' not found. Use list_assets to see available names.");
    text
}

/// What `list_assets` reports: that no assets directory is configured, that
/// it holds no files, or the file names in the order of `String`'s `Ord`,
/// one per line.
pub open spec fn listing_text(names: Option<Seq<Seq<char>>>) -> Seq<char> {
    match names {
        None => "No assets directory configured. Set KAOMOJI_ASSETS_DIR to point to your assets folder."@,
        Some(names) => if names.len() == 0 {
            "No assets found in the configured assets directory."@
        } else {
            "Available assets:\n"@ + joined(names.sort_by(listing_order()), "\n"@)
        },
    }
}

/// The text of the `list_assets` result (see [`listing_text`]), given the
/// names of the files in the assets directory in any order, or `None` when
/// no assets directory is configured.
pub fn list_assets_text(names: Option<Vec<String>>) -> (text: String)
    ensures
        text@ == listing_text(
            match names {
                Some(v) => Some(texts(v@)),
                None => None,
            },
        ),
{
    match names {
        None => String::from_str(
            "No assets directory configured. Set KAOMOJI_ASSETS_DIR to point to your assets folder.",
        ),
        Some(names) => {
            if names.len() == 0 {
                String::from_str("No assets found in the configured assets directory.")
            } else {
                let sorted = sort_texts(&names);
                let lines = join_texts(&sorted, "\n");
                let mut text = String::from_str("Available assets:\n");
                text.append(lines.as_str());
                text
            }
        },
    }
}

/// Why the bridge could not get a reply from the widget.
#[derive(Debug, Clone, PartialEq)]
pub enum ExchangeFailure {
    /// The socket path is not a valid socket name; holds the error text.
    InvalidSocketPath(String),
    /// Connecting failed, so the widget is probably not running; holds the error text.
    NotRunning(String),
    /// Writing the command failed; holds the error text.
    SendFailed(String),
    /// Reading the response failed; holds the error text.
    ReceiveFailed(String),
    /// The task that talked to the widget panicked.
    TaskPanicked,
    /// No reply came within the time limit.
    TimedOut,
}

/// The message of an exchange failure, as the tools report it.
pub open spec fn failure_text(f: ExchangeFailure) -> Seq<char> {
    match f {
        ExchangeFailure::InvalidSocketPath(e) => "Invalid socket path: "@ + e@,
        ExchangeFailure::NotRunning(e) => "kaomoji widget doesn't appear to be running. Start it with `kaomoji-widget`. ("@
            + e@ + ")"@,
        ExchangeFailure::SendFailed(e) => "Failed to send command: "@ + e@,
        ExchangeFailure::ReceiveFailed(e) => "Failed to read response: "@ + e@,
        ExchangeFailure::TaskPanicked => "spawn_blocking task panicked"@,
        ExchangeFailure::TimedOut => "Connection to kaomoji widget timed out. Start it with `kaomoji-widget`."@,
    }
}

/// The message of `failure` (see [`failure_text`]).
pub fn failure_message(failure: &ExchangeFailure) -> (text: String)
    ensures
        text@ == failure_text(*failure),
{
    match failure {
        ExchangeFailure::InvalidSocketPath(e) => {
            let mut text = String::from_str("Invalid socket path: ");
            text.append(e.as_str());
            text
        },
        ExchangeFailure::NotRunning(e) => {
            let mut text = String::from_str(
                "kaomoji widget doesn't appear to be running. Start it with `kaomoji-widget`. (",
            );
            text.append(e.as_str());
            text.append(")");
            text
        },
        ExchangeFailure::SendFailed(e) => {
            let mut text = String::from_str("Failed to send command: ");
            text.append(e.as_str());
            text
        },
        ExchangeFailure::ReceiveFailed(e) => {
            let mut text = String::from_str("Failed to read response: ");
            text.append(e.as_str());
            text
        },
        ExchangeFailure::TaskPanicked => String::from_str("spawn_blocking task panicked"),
        ExchangeFailure::TimedOut => String::from_str(
            "Connection to kaomoji widget timed out. Start it with `kaomoji-widget`.",
        ),
    }
}


/// The asset listing does not depend on the order in which the directory
/// was read: two reads that found the same names, each as often, give the
/// same text.
pub proof fn law_listing_ignores_read_order(a: Seq<Seq<char>>, b: Seq<Seq<char>>)
    requires
        a.to_multiset() == b.to_multiset(),
    ensures
        listing_text(Some(a)) == listing_text(Some(b)),
{
    crate::text::lemma_text_le_total_ordering();
    a.lemma_sort_by_ensures(listing_order());
    b.lemma_sort_by_ensures(listing_order());
    vstd::seq_lib::lemma_sorted_unique(
        a.sort_by(listing_order()),
        b.sort_by(listing_order()),
        listing_order(),
    );
    broadcast use vstd::seq_lib::group_to_multiset_ensures;
    assert(a.len() == a.to_multiset().len());
    assert(b.len() == b.to_multiset().len());
}

/// How every display tool reports each kind of reply: a failure to reach
/// the widget and the widget's own error are internal errors carrying their
/// text unchanged; success text is given only when the widget replied
/// `Success` (the tool's own text) or `Pong` (reported as unexpected).
pub proof fn law_display_tool_results(
    tool: DisplayTool,
    reply: Result<ResponseView, Seq<char>>,
    e: Seq<char>,
    message: Seq<char>,
)
    ensures
        display_tool_result(tool, Err(e)) == Err::<Seq<char>, Seq<char>>(e),
        display_tool_result(tool, Ok(ResponseView::Error(message))) == Err::<Seq<char>, Seq<char>>(
            message,
        ),
        display_tool_result(tool, Ok(ResponseView::Success)) == Ok::<Seq<char>, Seq<char>>(
            done_text(tool),
        ),
        display_tool_result(tool, Ok(ResponseView::Pong)) == Ok::<Seq<char>, Seq<char>>(
            "Unexpected pong response."@,
        ),
        done_text(DisplayTool::SetKaomoji) == "Kaomoji updated successfully."@,
        done_text(DisplayTool::SetImage) == "Image updated successfully."@,
        done_text(DisplayTool::SetAsset) == "Asset displayed successfully."@,
        done_text(DisplayTool::Clear) == "Display cleared."@,
        display_tool_result(tool, reply) is Ok ==> reply == Ok::<ResponseView, Seq<char>>(
            ResponseView::Success,
        ) || reply == Ok::<ResponseView, Seq<char>>(ResponseView::Pong),
{
}

/// How `is_running` reports each kind of reply: it never fails; an error in
/// reaching the widget is reported as is, and the widget's own error after a
/// note that it is running.
pub proof fn law_running_texts(e: Seq<char>, message: Seq<char>)
    ensures
        running_text(Err(e)) == e,
        running_text(Ok(ResponseView::Pong)) == "The kaomoji widget is running."@,
        running_text(Ok(ResponseView::Error(message)))
            == "The kaomoji widget is running but returned an error: "@ + message,
{
}

/// `part` occurs in `text` as a run of consecutive characters.
pub open spec fn appears_in(part: Seq<char>, text: Seq<char>) -> bool {
    exists|off: int| 0 <= off && off + part.len() <= text.len() && #[trigger] text.subrange(off, off + part.len()) == part
}

proof fn lemma_joined_has(l: Seq<Seq<char>>, sep: Seq<char>, k: int) -> (off: int)
    requires
        0 <= k < l.len(),
    ensures
        0 <= off,
        off + l[k].len() <= joined(l, sep).len(),
        joined(l, sep).subrange(off, off + l[k].len()) == l[k],
    decreases l.len(),
{
    let j = joined(l, sep);
    if l.len() == 1 {
        assert(j.subrange(0, l[k].len() as int) =~= l[k]);
        0
    } else if k == l.len() - 1 {
        let off = j.len() - l.last().len();
        assert(j.subrange(off, off + l[k].len()) =~= l[k]);
        off
    } else {
        let d = l.drop_last();
        let o = lemma_joined_has(d, sep, k);
        assert(d[k] == l[k]);
        let jd = joined(d, sep);
        assert(j == jd + sep + l.last());
        assert(j.subrange(o, o + l[k].len()) =~= jd.subrange(o, o + l[k].len()));
        o
    }
}

/// What `list_assets` reports for a directory that holds the files `names`,
/// read in any order: "no assets found" exactly when there are none;
/// otherwise a header followed by the names, each as often as it was read,
/// in the order of `String`'s `Ord`, one per line, so every name appears in
/// the text.
pub proof fn law_listing(names: Seq<Seq<char>>)
    ensures
        (names.len() == 0) == (listing_text(Some(names))
            == "No assets found in the configured assets directory."@),
        names.len() > 0 ==> exists|r: Seq<Seq<char>>|
            {
                &&& sorted_by(r, listing_order())
                &&& r.to_multiset() == names.to_multiset()
                &&& listing_text(Some(names)) == "Available assets:\n"@ + joined(r, "\n"@)
            },
        forall|k: int| 0 <= k < names.len() ==> appears_in(#[trigger] names[k], listing_text(Some(names))),
{
    let text = listing_text(Some(names));
    if names.len() > 0 {
        reveal_strlit("Available assets:\n");
        reveal_strlit("No assets found in the configured assets directory.");
        assert(text[0] == 'A');
        assert("No assets found in the configured assets directory."@[0] == 'N');
        let r = names.sort_by(listing_order());
        crate::text::lemma_text_le_total_ordering();
        names.lemma_sort_by_ensures(listing_order());
        assert(sorted_by(r, listing_order()) && r.to_multiset() == names.to_multiset());
        assert forall|k: int| 0 <= k < names.len() implies appears_in(#[trigger] names[k], text) by {
            let off = lemma_listing_has(names, k);
            assert(text.subrange(off, off + names[k].len()) == names[k]);
        }
    }
}

proof fn lemma_listing_has(names: Seq<Seq<char>>, k: int) -> (off: int)
    requires
        0 <= k < names.len(),
    ensures
        0 <= off,
        off + names[k].len() <= listing_text(Some(names)).len(),
        listing_text(Some(names)).subrange(off, off + names[k].len()) == names[k],
{
    broadcast use vstd::seq_lib::group_to_multiset_ensures;

    let text = listing_text(Some(names));
    let r = names.sort_by(listing_order());
    crate::text::lemma_text_le_total_ordering();
    names.lemma_sort_by_ensures(listing_order());
    let header = "Available assets:\n"@;
    let body = joined(r, "\n"@);
    assert(names.contains(names[k]));
    assert(names.to_multiset().count(names[k]) > 0);
    assert(r.contains(names[k]));
    let j = choose|j: int| 0 <= j < r.len() && r[j] == names[k];
    let o = lemma_joined_has(r, "\n"@, j);
    let off = header.len() + o;
    assert(text == header + body);
    assert(text.subrange(off, off + names[k].len()) =~= body.subrange(o, o + names[k].len()));
    off
}

} // verus!
