use kaomoji_widget::commands::{
    after_emit, after_image_read, data_url, dispatch, mime_for_extension, DisplayUpdate, Step,
};
use kaomoji_widget::protocol::{Command, Frame, Response};

fn error_message(step: Step) -> String {
    match step {
        Step::Reply(Response::Error { message }) => message,
        _ => panic!("expected an error reply"),
    }
}

#[test]
fn dispatch_set_kaomoji_emits_text() {
    match dispatch(Command::SetKaomoji {
        text: "(^_^)".to_string(),
    }) {
        Step::Emit(DisplayUpdate::Kaomoji { text }) => assert_eq!(text, "(^_^)"),
        _ => panic!("expected a kaomoji update"),
    }
}

#[test]
fn dispatch_clear_emits_empty() {
    assert!(matches!(dispatch(Command::Clear), Step::Emit(DisplayUpdate::Empty)));
}

#[test]
fn dispatch_ping_answers_pong() {
    assert!(matches!(dispatch(Command::Ping), Step::Reply(Response::Pong)));
}

#[test]
fn dispatch_set_image_reads_file_first() {
    match dispatch(Command::SetImage {
        path: "/tmp/a.png".to_string(),
    }) {
        Step::ReadImage(path) => assert_eq!(path, "/tmp/a.png"),
        _ => panic!("expected a read"),
    }
}

#[test]
fn dispatch_animation_not_implemented() {
    let step = dispatch(Command::SetAnimation {
        frames: vec![Frame {
            path: "/tmp/f.png".to_string(),
            duration_ms: 5,
        }],
        fps: 3,
    });
    assert_eq!(error_message(step), "not implemented");
}

#[test]
fn after_emit_success_and_failure() {
    assert_eq!(after_emit(Ok(())), Response::Success);
    assert_eq!(
        after_emit(Err("window gone".to_string())),
        Response::Error {
            message: "failed to emit event: window gone".to_string()
        }
    );
}

#[test]
fn image_read_error_is_reported() {
    let step = after_image_read("/tmp/x.png", Err("No such file".to_string()));
    assert_eq!(error_message(step), "failed to read image: No such file");
}

#[test]
fn image_without_extension_is_refused() {
    let step = after_image_read("/tmp/picture", Ok(vec![1, 2, 3]));
    assert_eq!(error_message(step), "image path has no extension");
    let step = after_image_read("/tmp/.hidden", Ok(vec![1]));
    assert_eq!(error_message(step), "image path has no extension");
}

#[test]
fn image_with_unsupported_extension_is_refused() {
    let step = after_image_read("/tmp/picture.BMP", Ok(vec![1, 2, 3]));
    assert_eq!(error_message(step), "unsupported image format: BMP");
    let step = after_image_read("/tmp/picture.", Ok(vec![1]));
    assert_eq!(error_message(step), "unsupported image format: ");
}

#[test]
fn png_image_becomes_data_url() {
    match after_image_read("/tmp/face.png", Ok(vec![1, 2, 3])) {
        Step::Emit(DisplayUpdate::Image { data, mime }) => {
            assert_eq!(mime, "image/png");
            assert_eq!(data, "data:image/png;base64,AQID");
        }
        _ => panic!("expected an image update"),
    }
}

#[test]
fn upper_case_jpeg_extension_is_accepted() {
    match after_image_read("/tmp/face.JPEG", Ok(b"hi".to_vec())) {
        Step::Emit(DisplayUpdate::Image { data, mime }) => {
            assert_eq!(mime, "image/jpeg");
            assert_eq!(data, "data:image/jpeg;base64,aGk=");
        }
        _ => panic!("expected an image update"),
    }
}

#[test]
fn mime_types_by_extension() {
    assert_eq!(mime_for_extension("png"), Some("image/png"));
    assert_eq!(mime_for_extension("GiF"), Some("image/gif"));
    assert_eq!(mime_for_extension("webp"), Some("image/webp"));
    assert_eq!(mime_for_extension("jpg"), Some("image/jpeg"));
    assert_eq!(mime_for_extension("Jpeg"), Some("image/jpeg"));
    assert_eq!(mime_for_extension("svg"), None);
    assert_eq!(mime_for_extension(""), None);
    assert_eq!(mime_for_extension("pngx"), None);
}

#[test]
fn data_url_layout() {
    assert_eq!(data_url("image/gif", "R0lG"), "data:image/gif;base64,R0lG");
}
