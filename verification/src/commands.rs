//! How the widget handles a command: which display update it emits, which
//! file it reads first, and what it answers.
//!
//! Handling is a short exchange with the outside: [`dispatch`] says what to
//! do with a command; after reading an image file the caller hands the
//! outcome to [`after_image_read`]; after emitting a display update it hands
//! the outcome to [`after_emit`], which gives the response.

use vstd::prelude::*;
use vstd::string::*;
use crate::paths::{extension_of, path_extension};
use crate::protocol::{Command, Response};

verus! {

/// A response as the contracts speak of it.
pub enum ResponseView {
    Success,
    Error(Seq<char>),
    Pong,
}

impl View for Response {
    type V = ResponseView;

    open spec fn view(&self) -> ResponseView {
        match self {
            Response::Success => ResponseView::Success,
            Response::Error { message } => ResponseView::Error(message@),
            Response::Pong => ResponseView::Pong,
        }
    }
}

/// What the widget window is told to show.
pub enum DisplayUpdate {
    /// Show this text.
    Kaomoji { text: String },
    /// Show nothing.
    Empty,
    /// Show an image, given as a `data:` URL, with its MIME type.
    Image { data: String, mime: String },
}

/// A display update as the contracts speak of it.
pub enum DisplayUpdateView {
    Kaomoji(Seq<char>),
    Empty,
    Image { data: Seq<char>, mime: Seq<char> },
}

impl View for DisplayUpdate {
    type V = DisplayUpdateView;

    open spec fn view(&self) -> DisplayUpdateView {
        match self {
            DisplayUpdate::Kaomoji { text } => DisplayUpdateView::Kaomoji(text@),
            DisplayUpdate::Empty => DisplayUpdateView::Empty,
            DisplayUpdate::Image { data, mime } => DisplayUpdateView::Image {
                data: data@,
                mime: mime@,
            },
        }
    }
}

/// The next thing to do while handling a command.
pub enum Step {
    /// Answer with this response; handling is over.
    Reply(Response),
    /// Emit this update to the window, then pass the outcome to [`after_emit`].
    Emit(DisplayUpdate),
    /// Read the file at this path, then pass the outcome to [`after_image_read`].
    ReadImage(String),
}

/// A step as the contracts speak of it.
pub enum StepView {
    Reply(ResponseView),
    Emit(DisplayUpdateView),
    ReadImage(Seq<char>),
}

impl View for Step {
    type V = StepView;

    open spec fn view(&self) -> StepView {
        match self {
            Step::Reply(r) => StepView::Reply(r@),
            Step::Emit(u) => StepView::Emit(u@),
            Step::ReadImage(p) => StepView::ReadImage(p@),
        }
    }
}

/// The first step for `cmd`: text and clearing go straight to the window, an
/// image is read first, a ping is answered at once, and animations are not
/// supported.
pub open spec fn first_step(cmd: Command) -> StepView {
    match cmd {
        Command::SetKaomoji { text } => StepView::Emit(DisplayUpdateView::Kaomoji(text@)),
        Command::Clear => StepView::Emit(DisplayUpdateView::Empty),
        Command::Ping => StepView::Reply(ResponseView::Pong),
        Command::SetImage { path } => StepView::ReadImage(path@),
        Command::SetAnimation { .. } => StepView::Reply(ResponseView::Error("not implemented"@)),
    }
}

/// Decides the first step of handling `cmd` (see [`first_step`]).
pub fn dispatch(cmd: Command) -> (step: Step)
    ensures
        step@ == first_step(cmd),
{
    match cmd {
        Command::SetKaomoji { text } => Step::Emit(DisplayUpdate::Kaomoji { text }),
        Command::Clear => Step::Emit(DisplayUpdate::Empty),
        Command::Ping => Step::Reply(Response::Pong),
        Command::SetImage { path } => Step::ReadImage(path),
        Command::SetAnimation { .. } => Step::Reply(
            Response::Error { message: String::from_str("not implemented") },
        ),
    }
}

/// The response once the display update was emitted, or failed to be with
/// the error text `emitted->Err_0`.
pub open spec fn emit_response(emitted: Result<(), Seq<char>>) -> ResponseView {
    match emitted {
        Ok(()) => ResponseView::Success,
        Err(e) => ResponseView::Error("failed to emit event: "@ + e),
    }
}

/// The response after emitting a display update (see [`emit_response`]).
pub fn after_emit(emitted: Result<(), String>) -> (response: Response)
    ensures
        response@ == emit_response(
            match emitted {
                Ok(()) => Ok(()),
                Err(e) => Err(e@),
            },
        ),
{
    match emitted {
        Ok(()) => Response::Success,
        Err(e) => {
            let mut message = String::from_str("failed to emit event: ");
            message.append(e.as_str());
            Response::Error { message }
        },
    }
}

/// `c` with ASCII upper-case letters turned to lower case.
pub open spec fn ascii_lower(c: char) -> char {
    if 'A' <= c && c <= 'Z' {
        ((c as int) + 32) as char
    } else {
        c
    }
}

/// `s` with ASCII upper-case letters turned to lower case.
pub open spec fn lowered(s: Seq<char>) -> Seq<char> {
    s.map_values(|c: char| ascii_lower(c))
}

/// The MIME type of an image with extension `ext`, in any letter case.
///
/// Full Unicode lower-casing of `ext` gives one of these extensions exactly
/// when ASCII lower-casing does: no character outside ASCII lower-cases to
/// any of the letters in them.
pub open spec fn image_mime(ext: Seq<char>) -> Option<Seq<char>> {
    let l = lowered(ext);
    if l == "png"@ {
        Some("image/png"@)
    } else if l == "gif"@ {
        Some("image/gif"@)
    } else if l == "webp"@ {
        Some("image/webp"@)
    } else if l == "jpg"@ || l == "jpeg"@ {
        Some("image/jpeg"@)
    } else {
        None
    }
}

fn lower_char(c: char) -> (l: char)
    ensures
        l == ascii_lower(c),
{
    if 'A' <= c && c <= 'Z' {
        let b: u8 = (c as u8) + 32;
        b as char
    } else {
        c
    }
}

fn lowered_chars_equal(lower: &Vec<char>, word: &str) -> (same: bool)
    ensures
        same == (lower@ == word@),
{
    let w = crate::text::chars_of(word);
    if w.len() != lower.len() {
        return false;
    }
    let mut i: usize = 0;
    while i < w.len()
        invariant
            w@ == word@,
            w@.len() == lower@.len(),
            i <= w@.len(),
            forall|q: int| 0 <= q < i ==> lower@[q] == w@[q],
        decreases w@.len() - i,
    {
        if lower[i] != w[i] {
            return false;
        }
        i = i + 1;
    }
    assert(lower@ =~= w@);
    true
}

/// The MIME type for the extension `ext` (see [`image_mime`]).
pub fn mime_for_extension(ext: &str) -> (mime: Option<&'static str>)
    ensures
        match image_mime(ext@) {
            Some(m) => mime is Some && mime->0@ == m,
            None => mime is None,
        },
{
    let cs = crate::text::chars_of(ext);
    let mut lower: Vec<char> = Vec::new();
    let mut i: usize = 0;
    while i < cs.len()
        invariant
            cs@ == ext@,
            i <= cs@.len(),
            lower@ == lowered(ext@.take(i as int)),
        decreases cs@.len() - i,
    {
        lower.push(lower_char(cs[i]));
        i = i + 1;
        assert(lowered(ext@.take(i as int)) =~= lowered(ext@.take(i - 1)).push(ascii_lower(ext@[i - 1])));
    }
    assert(ext@.take(i as int) =~= ext@);
    if lowered_chars_equal(&lower, "png") {
        Some("image/png")
    } else if lowered_chars_equal(&lower, "gif") {
        Some("image/gif")
    } else if lowered_chars_equal(&lower, "webp") {
        Some("image/webp")
    } else if lowered_chars_equal(&lower, "jpg") || lowered_chars_equal(&lower, "jpeg") {
        Some("image/jpeg")
    } else {
        None
    }
}


/// The text that `base64::engine::general_purpose::STANDARD` encodes `data`
/// to: the standard alphabet, with `=` padding.
pub uninterp spec fn standard_base64(data: Seq<u8>) -> Seq<char>;

/// Calls `base64::Engine::encode` with the `STANDARD` engine, which returns
/// the padded standard base64 text of `data`; the contract names that text
/// [`standard_base64`]. The engine panics when the encoded length does not
/// fit in `usize`, which cannot happen for inputs of at most `isize::MAX`
/// bytes.
#[verifier::external_body]
fn encode_base64(data: &[u8]) -> (encoded: String)
    requires
        data@.len() <= isize::MAX,
    ensures
        encoded@ == standard_base64(data@),
{
    base64::Engine::encode(&base64::engine::general_purpose::STANDARD, data)
}

/// The `data:` URL for base64 text `encoded` of type `mime`.
pub open spec fn data_url_of(mime: Seq<char>, encoded: Seq<char>) -> Seq<char> {
    "data:"@ + mime + ";base64,"@ + encoded
}

/// Builds the `data:` URL that carries an image to the window.
pub fn data_url(mime: &str, encoded: &str) -> (url: String)
    ensures
        url@ == data_url_of(mime@, encoded@),
{
    let mut url = String::from_str("data:");
    url.append(mime);
    url.append(";base64,");
    url.append(encoded);
    url
}

/// The step after reading the image at `path`, given the file's bytes or the
/// text of the read error: the read error, a missing or unsupported
/// extension, or else the image as a `data:` URL to emit.
pub open spec fn image_step(path: Seq<char>, read: Result<Seq<u8>, Seq<char>>) -> StepView {
    match read {
        Err(e) => StepView::Reply(ResponseView::Error("failed to read image: "@ + e)),
        Ok(bytes) => match extension_of(path) {
            None => StepView::Reply(ResponseView::Error("image path has no extension"@)),
            Some(ext) => match image_mime(ext) {
                None => StepView::Reply(ResponseView::Error("unsupported image format: "@ + ext)),
                Some(mime) => StepView::Emit(
                    DisplayUpdateView::Image {
                        data: data_url_of(mime, standard_base64(bytes)),
                        mime,
                    },
                ),
            },
        },
    }
}

/// Decides the step after reading the image file at `path` (see
/// [`image_step`]). A file read into memory is at most `isize::MAX` bytes.
pub fn after_image_read(path: &str, read: Result<Vec<u8>, String>) -> (step: Step)
    requires
        read matches Ok(bytes) ==> bytes@.len() <= isize::MAX,
    ensures
        step@ == image_step(
            path@,
            match read {
                Ok(bytes) => Ok(bytes@),
                Err(e) => Err(e@),
            },
        ),
{
    let bytes = match read {
        Ok(bytes) => bytes,
        Err(e) => {
            let mut message = String::from_str("failed to read image: ");
            message.append(e.as_str());
            return Step::Reply(Response::Error { message });
        },
    };
    let ext = match path_extension(path) {
        Some(ext) => ext,
        None => {
            return Step::Reply(
                Response::Error { message: String::from_str("image path has no extension") },
            );
        },
    };
    match mime_for_extension(ext.as_str()) {
        Some(mime) => {
            let encoded = encode_base64(bytes.as_slice());
            let data = data_url(mime, encoded.as_str());
            Step::Emit(DisplayUpdate::Image { data, mime: String::from_str(mime) })
        },
        None => {
            let mut message = String::from_str("unsupported image format: ");
            message.append(ext.as_str());
            Step::Reply(Response::Error { message })
        },
    }
}


/// The response the widget gives for `cmd`, given what reading its image
/// came to (when it reads one) and what emitting its update came to (when it
/// emits one).
pub open spec fn handled(
    cmd: Command,
    read: Result<Seq<u8>, Seq<char>>,
    emitted: Result<(), Seq<char>>,
) -> ResponseView {
    let step = match first_step(cmd) {
        StepView::ReadImage(path) => image_step(path, read),
        other => other,
    };
    match step {
        StepView::Reply(r) => r,
        StepView::Emit(_) => emit_response(emitted),
        StepView::ReadImage(_) => ResponseView::Error(Seq::empty()),
    }
}

/// Handling a command ends after at most one file read and one emitted
/// update; a ping is always answered with a pong; and the widget reports
/// success only for a text, clear or image command whose display update was
/// emitted.
pub proof fn law_command_handling(
    cmd: Command,
    read: Result<Seq<u8>, Seq<char>>,
    emitted: Result<(), Seq<char>>,
)
    ensures
        first_step(cmd) matches StepView::ReadImage(path) ==> !(image_step(
            path,
            read,
        ) is ReadImage),
        cmd is Ping ==> handled(cmd, read, emitted) == ResponseView::Pong,
        handled(cmd, read, emitted) == ResponseView::Success ==> emitted is Ok && (cmd is SetKaomoji
            || cmd is Clear || cmd is SetImage),
{
}

/// Every command's first step: a text is shown whole, exactly as sent;
/// clearing shows nothing; a ping is answered with a pong at once; an image
/// path is read as given; an animation is refused as not implemented.
pub proof fn law_first_steps(text: String, path: String, frames: Vec<crate::protocol::Frame>, fps: u32)
    ensures
        first_step(Command::SetKaomoji { text }) == StepView::Emit(DisplayUpdateView::Kaomoji(text@)),
        first_step(Command::Clear) == StepView::Emit(DisplayUpdateView::Empty),
        first_step(Command::Ping) == StepView::Reply(ResponseView::Pong),
        first_step(Command::SetImage { path }) == StepView::ReadImage(path@),
        first_step(Command::SetAnimation { frames, fps }) == StepView::Reply(
            ResponseView::Error("not implemented"@),
        ),
{
}

/// After an emit, the widget answers success exactly when the emit worked,
/// and otherwise reports the emit's error text after a fixed prefix.
pub proof fn law_emit_responses(e: Seq<char>)
    ensures
        emit_response(Ok(())) == ResponseView::Success,
        emit_response(Err(e)) == ResponseView::Error("failed to emit event: "@ + e),
{
}

/// Whether `c` is an ASCII upper-case letter.
pub open spec fn is_ascii_upper(c: char) -> bool {
    'A' <= c && c <= 'Z'
}

/// `x` and `y` are the same character, or the same ASCII letter in
/// different cases.
pub open spec fn same_char_ignoring_case(x: char, y: char) -> bool {
    ||| x == y
    ||| is_ascii_upper(x) && x as int + 32 == y as int
    ||| is_ascii_upper(y) && y as int + 32 == x as int
}

/// `a` and `b` spell the same text up to the case of ASCII letters.
pub open spec fn same_ignoring_case(a: Seq<char>, b: Seq<char>) -> bool {
    &&& a.len() == b.len()
    &&& forall|i: int| 0 <= i < a.len() ==> same_char_ignoring_case(#[trigger] a[i], b[i])
}

proof fn lemma_char_case(x: char, y: char)
    ensures
        same_char_ignoring_case(x, y) <==> ascii_lower(x) == ascii_lower(y),
{
    if is_ascii_upper(x) {
        assert((((x as int) + 32) as char) as int == (x as int) + 32);
    }
    if is_ascii_upper(y) {
        assert((((y as int) + 32) as char) as int == (y as int) + 32);
    }
    if ascii_lower(x) == ascii_lower(y) {
        assert(ascii_lower(x) as int == ascii_lower(y) as int);
    }
}

proof fn lemma_same_ignoring_case(a: Seq<char>, b: Seq<char>)
    ensures
        same_ignoring_case(a, b) <==> lowered(a) == lowered(b),
{
    if same_ignoring_case(a, b) {
        assert forall|i: int| 0 <= i < a.len() implies lowered(a)[i] == lowered(b)[i] by {
            lemma_char_case(a[i], b[i]);
        }
        assert(lowered(a) =~= lowered(b));
    }
    if lowered(a) == lowered(b) {
        assert(a.len() == lowered(a).len());
        assert forall|i: int| 0 <= i < a.len() implies same_char_ignoring_case(#[trigger] a[i], b[i]) by {
            assert(lowered(a)[i] == lowered(b)[i]);
            lemma_char_case(a[i], b[i]);
        }
    }
}

proof fn lemma_lower_word(w: Seq<char>)
    requires
        forall|i: int| 0 <= i < w.len() ==> 'a' <= #[trigger] w[i] && w[i] <= 'z',
    ensures
        lowered(w) == w,
{
    assert(lowered(w) =~= w);
}

/// The MIME type of an image extension ignores the case of its letters: two
/// extensions that differ only in the case of ASCII letters get the same
/// answer.
pub proof fn law_mime_ignores_case(e1: Seq<char>, e2: Seq<char>)
    requires
        same_ignoring_case(e1, e2),
    ensures
        image_mime(e1) == image_mime(e2),
{
    lemma_same_ignoring_case(e1, e2);
}

/// The image extensions that are shown, in any letter case, and their MIME
/// types: png, gif, webp, and jpg or jpeg as JPEG; every other extension has
/// none.
pub proof fn law_image_extensions(e: Seq<char>)
    ensures
        image_mime(e) == if same_ignoring_case(e, "png"@) {
            Some("image/png"@)
        } else if same_ignoring_case(e, "gif"@) {
            Some("image/gif"@)
        } else if same_ignoring_case(e, "webp"@) {
            Some("image/webp"@)
        } else if same_ignoring_case(e, "jpg"@) || same_ignoring_case(e, "jpeg"@) {
            Some("image/jpeg"@)
        } else {
            None::<Seq<char>>
        },
{
    reveal_strlit("png");
    reveal_strlit("gif");
    reveal_strlit("webp");
    reveal_strlit("jpg");
    reveal_strlit("jpeg");
    lemma_lower_word("png"@);
    lemma_lower_word("gif"@);
    lemma_lower_word("webp"@);
    lemma_lower_word("jpg"@);
    lemma_lower_word("jpeg"@);
    lemma_same_ignoring_case(e, "png"@);
    lemma_same_ignoring_case(e, "gif"@);
    lemma_same_ignoring_case(e, "webp"@);
    lemma_same_ignoring_case(e, "jpg"@);
    lemma_same_ignoring_case(e, "jpeg"@);
}

/// What showing an image file comes to, over every path and read outcome: a
/// read error is reported with its text; a file whose path has no extension,
/// or an extension without an image MIME type, is refused naming that
/// extension; and a file whose extension has the MIME type `m` is emitted as
/// an image of type `m` carrying `data:<m>;base64,<base64 of the bytes>`.
pub proof fn law_image_steps(path: Seq<char>, bytes: Seq<u8>, e: Seq<char>)
    ensures
        image_step(path, Err(e)) == StepView::Reply(ResponseView::Error("failed to read image: "@ + e)),
        extension_of(path) is None ==> image_step(path, Ok(bytes)) == StepView::Reply(
            ResponseView::Error("image path has no extension"@),
        ),
        extension_of(path) matches Some(ext) ==> match image_mime(ext) {
            None => image_step(path, Ok(bytes)) == StepView::Reply(
                ResponseView::Error("unsupported image format: "@ + ext),
            ),
            Some(m) => image_step(path, Ok(bytes)) == StepView::Emit(
                DisplayUpdateView::Image {
                    data: "data:"@ + m + ";base64,"@ + standard_base64(bytes),
                    mime: m,
                },
            ),
        },
{
}

} // verus!
