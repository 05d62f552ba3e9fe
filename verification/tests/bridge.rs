use kaomoji_widget::bridge::{
    asset_not_found_message, failure_message, is_running_text, list_assets_text, tool_result,
    DisplayTool, ExchangeFailure,
};
use kaomoji_widget::protocol::Response;

#[test]
fn display_tools_report_success() {
    assert_eq!(
        tool_result(DisplayTool::SetKaomoji, Ok(Response::Success)),
        Ok("Kaomoji updated successfully.".to_string())
    );
    assert_eq!(
        tool_result(DisplayTool::SetImage, Ok(Response::Success)),
        Ok("Image updated successfully.".to_string())
    );
    assert_eq!(
        tool_result(DisplayTool::SetAsset, Ok(Response::Success)),
        Ok("Asset displayed successfully.".to_string())
    );
    assert_eq!(
        tool_result(DisplayTool::Clear, Ok(Response::Success)),
        Ok("Display cleared.".to_string())
    );
}

#[test]
fn display_tools_pass_errors_through() {
    assert_eq!(
        tool_result(
            DisplayTool::SetImage,
            Ok(Response::Error {
                message: "bad".to_string()
            })
        ),
        Err("bad".to_string())
    );
    assert_eq!(
        tool_result(DisplayTool::Clear, Err("unreachable widget".to_string())),
        Err("unreachable widget".to_string())
    );
    assert_eq!(
        tool_result(DisplayTool::SetKaomoji, Ok(Response::Pong)),
        Ok("Unexpected pong response.".to_string())
    );
}

#[test]
fn is_running_never_fails() {
    assert_eq!(is_running_text(Ok(Response::Pong)), "The kaomoji widget is running.");
    assert_eq!(
        is_running_text(Ok(Response::Success)),
        "The kaomoji widget is running (responded unexpectedly)."
    );
    assert_eq!(
        is_running_text(Ok(Response::Error {
            message: "oops".to_string()
        })),
        "The kaomoji widget is running but returned an error: oops"
    );
    assert_eq!(is_running_text(Err("down".to_string())), "down");
}

#[test]
fn missing_asset_message() {
    assert_eq!(
        asset_not_found_message("x.png"),
        "Asset 'x.png' not found. Use list_assets to see available names."
    );
}

#[test]
fn listing_without_directory() {
    assert_eq!(
        list_assets_text(None),
        "No assets directory configured. Set KAOMOJI_ASSETS_DIR to point to your assets folder."
    );
}

#[test]
fn listing_of_empty_directory() {
    assert_eq!(
        list_assets_text(Some(vec![])),
        "No assets found in the configured assets directory."
    );
}

#[test]
fn listing_is_sorted() {
    let names = vec![
        "smug.gif".to_string(),
        "Happy.png".to_string(),
        "confused.webp".to_string(),
        "happy.png".to_string(),
    ];
    assert_eq!(
        list_assets_text(Some(names)),
        "Available assets:\nHappy.png\nconfused.webp\nhappy.png\nsmug.gif"
    );
}

#[test]
fn listing_ignores_read_order() {
    let a = vec!["b".to_string(), "a".to_string(), "c".to_string()];
    let b = vec!["c".to_string(), "b".to_string(), "a".to_string()];
    assert_eq!(list_assets_text(Some(a)), list_assets_text(Some(b)));
}

#[test]
fn exchange_failures() {
    assert_eq!(
        failure_message(&ExchangeFailure::InvalidSocketPath("bad name".to_string())),
        "Invalid socket path: bad name"
    );
    assert_eq!(
        failure_message(&ExchangeFailure::NotRunning("refused".to_string())),
        "kaomoji widget doesn't appear to be running. Start it with `kaomoji-widget`. (refused)"
    );
    assert_eq!(
        failure_message(&ExchangeFailure::SendFailed("pipe".to_string())),
        "Failed to send command: pipe"
    );
    assert_eq!(
        failure_message(&ExchangeFailure::ReceiveFailed("eof".to_string())),
        "Failed to read response: eof"
    );
    assert_eq!(
        failure_message(&ExchangeFailure::TaskPanicked),
        "spawn_blocking task panicked"
    );
    assert_eq!(
        failure_message(&ExchangeFailure::TimedOut),
        "Connection to kaomoji widget timed out. Start it with `kaomoji-widget`."
    );
}
