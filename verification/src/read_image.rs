//! The `read_image` tool: hand an image file to the agent as an image.
//!
//! A call goes through stages, each of which waits for one thing from outside:
//! [`WaitingCall`] until no question to a human is open in its session,
//! [`ThawedCall`] for the path with its tilde expanded, [`ImageCall`] for the
//! permission to touch that path, [`PermittedCall`] for the size of the file,
//! and [`SizedCall`] for its bytes. A stage is only had from the one before it.
use crate::ask_freeze::{wait_if_frozen, FreezeState, FreezeWait, WaitAction};
use crate::image_format::{detect_format, is_animated_gif, is_animated_webp, ImageFormat};
use crate::messages::{
    cannot_read_text, cannot_stat_text, gif_moves_text, image_note_text, no_dimensions_text,
    too_big_in_memory_text, too_big_on_disk_text, too_many_pixels_text, unsupported_text,
    webp_moves_text,
};
use crate::outside::{blob_size, encode_base64, object_text};
use vstd::prelude::*;

verus! {

/// The largest file that is read, in bytes.
pub const MAX_BYTES: u64 = 5 * 1024 * 1024;

/// The largest width and height, in pixels.
pub const MAX_DIM: u32 = 2048;

/// The name by which the agent calls the tool.
pub const NAME: &'static str = "read_image";

/// The arguments of a call.
#[derive(Debug, Clone)]
pub struct ReadImageArgs {
    pub path: String,
    /// Short human note shown in the UI pile (optional, never required).
    pub note: Option<String>,
}

/// Why a tool call failed, in words for the agent.
#[derive(Debug)]
pub enum ToolError {
    Msg(String),
}

impl ToolError {
    pub open spec fn text(self) -> Seq<char> {
        match self {
            ToolError::Msg(text) => text@,
        }
    }

    /// The words of the error.
    pub fn message(&self) -> (text: String)
        ensures
            text@ == self.text(),
    {
        match self {
            ToolError::Msg(text) => text.clone(),
        }
    }
}

/// The answer of a call in plain characters: what it returns, or the words of its error.
pub open spec fn answer_text(answer: Result<String, ToolError>) -> Result<Seq<char>, Seq<char>> {
    match answer {
        Ok(text) => Ok(text@),
        Err(error) => Err(error.text()),
    }
}

/// The size on disk, or the error for which the file is not read.
pub open spec fn size_verdict(path: Seq<char>, stat: Result<u64, Seq<char>>) -> Result<
    u64,
    Seq<char>,
> {
    match stat {
        Err(reason) => Err(crate::messages::cannot_stat(path, reason)),
        Ok(len) => if len > MAX_BYTES {
            Err(crate::messages::too_big_on_disk(path, len as nat))
        } else {
            Ok(len)
        },
    }
}

/// The format of a file that may be handed on, or the error for which it may not.
pub open spec fn format_verdict(path: Seq<char>, data: Seq<u8>) -> Result<ImageFormat, Seq<char>> {
    if data.len() > MAX_BYTES {
        Err(crate::messages::too_big_in_memory(path, data.len()))
    } else {
        match crate::image_format::format_of(data, path) {
            None => Err(crate::messages::unsupported(path)),
            Some(format) => if format == ImageFormat::Gif && crate::image_format::animated_gif(
                data,
            ) {
                Err(crate::messages::gif_moves(path))
            } else if format == ImageFormat::Webp && crate::image_format::animated_webp(data) {
                Err(crate::messages::webp_moves(path))
            } else {
                Ok(format)
            },
        }
    }
}

/// The JSON envelope in which an image travels beside the text that announces it.
pub open spec fn envelope(response: Seq<char>, data: Seq<u8>, mime: Seq<char>) -> Seq<char> {
    "{"@ + crate::outside::json_string("parts"@) + ":[{"@ + crate::outside::json_member(
        "data"@,
        crate::outside::base64_text(data),
    ) + ","@ + crate::outside::json_member("mimeType"@, mime) + ","@ + crate::outside::json_member(
        "type"@,
        "image"@,
    ) + "}],"@ + crate::outside::json_member("response"@, response) + "}"@
}

/// The envelope, below the coaching where there is any.
pub open spec fn coached(coaching: Option<Seq<char>>, envelope: Seq<char>) -> Seq<char> {
    match coaching {
        Some(message) => message + "\n"@ + envelope,
        None => envelope,
    }
}

/// The answer for a still image of format `format` whose header shows `size`.
pub open spec fn still_answer(
    path: Seq<char>,
    data: Seq<u8>,
    format: ImageFormat,
    size: Result<(usize, usize), Seq<char>>,
    coaching: Option<Seq<char>>,
) -> Result<Seq<char>, Seq<char>> {
    match size {
        Err(reason) => Err(crate::messages::no_dimensions(path, reason)),
        Ok((width, height)) => if width > MAX_DIM || height > MAX_DIM {
            Err(crate::messages::too_many_pixels(path, width as nat, height as nat))
        } else {
            Ok(
                coached(
                    coaching,
                    envelope(
                        crate::messages::image_note(
                            path,
                            format.label_text(),
                            width as nat,
                            height as nat,
                            data.len(),
                        ),
                        data,
                        format.mime_text(),
                    ),
                ),
            )
        },
    }
}

/// The answer for the file at `path` that holds `data`.
pub open spec fn image_answer(
    path: Seq<char>,
    data: Seq<u8>,
    coaching: Option<Seq<char>>,
) -> Result<Seq<char>, Seq<char>> {
    match format_verdict(path, data) {
        Err(text) => Err(text),
        Ok(format) => still_answer(
            path,
            data,
            format,
            crate::outside::header_size(data),
            coaching,
        ),
    }
}

/// Decide by its bytes and its name whether a file may be handed on.
pub fn check_format(path: &str, data: &[u8]) -> (format: Result<ImageFormat, ToolError>)
    ensures
        match format {
            Ok(format) => format_verdict(path@, data@) == Ok::<ImageFormat, Seq<char>>(format),
            Err(error) => format_verdict(path@, data@) == Err::<ImageFormat, Seq<char>>(
                error.text(),
            ),
        },
{
    let len: usize = data.len();
    if len as u64 > MAX_BYTES {
        return Err(ToolError::Msg(too_big_in_memory_text(path, len as u64)));
    }
    let format: ImageFormat = match detect_format(data, path) {
        Some(format) => format,
        None => {
            return Err(ToolError::Msg(unsupported_text(path)));
        },
    };
    // Animated check before dimensions (small-file early fail).
    if format == ImageFormat::Gif && is_animated_gif(data) {
        return Err(ToolError::Msg(gif_moves_text(path)));
    }
    if format == ImageFormat::Webp && is_animated_webp(data) {
        return Err(ToolError::Msg(webp_moves_text(path)));
    }
    Ok(format)
}

/// Hand a still image on, if the size that its header shows allows it.
pub fn answer_still(
    path: &str,
    data: &[u8],
    format: ImageFormat,
    size: Result<(usize, usize), String>,
    coaching: &Option<String>,
) -> (answer: Result<String, ToolError>)
    requires
        data@.len() <= MAX_BYTES,
    ensures
        answer_text(answer) == still_answer(
            path@,
            data@,
            format,
            crate::text::reason_of(size),
            crate::text::text_of(*coaching),
        ),
{
    let (width, height): (usize, usize) = match size {
        Ok(pixels) => pixels,
        Err(reason) => {
            return Err(ToolError::Msg(no_dimensions_text(path, reason.as_str())));
        },
    };
    if width > MAX_DIM as usize || height > MAX_DIM as usize {
        return Err(
            ToolError::Msg(too_many_pixels_text(path, width as u64, height as u64)),
        );
    }
    let payload: String = encode_base64(data);
    let response: String = image_note_text(
        path,
        format.label(),
        width as u64,
        height as u64,
        data.len() as u64,
    );
    proof {
        reveal_strlit("parts");
        reveal_strlit("response");
        reveal_strlit("data");
        reveal_strlit("mimeType");
        reveal_strlit("type");
    }
    let out: String = object_text(
        "parts",
        ("data", payload.as_str()),
        ("mimeType", format.mime()),
        ("type", "image"),
        "response",
        response.as_str(),
    );
    match coaching {
        Some(message) => {
            // Coaching goes above the image note, as with other tools.
            let mut coached: String = message.clone();
            coached.append("\n");
            coached.append(out.as_str());
            Ok(coached)
        },
        None => Ok(out),
    }
}

/// The answer for the file at `path` that holds `data`.
pub fn answer_image(path: &str, data: &[u8], coaching: &Option<String>) -> (answer: Result<
    String,
    ToolError,
>)
    ensures
        answer_text(answer) == image_answer(path@, data@, crate::text::text_of(*coaching)),
{
    match check_format(path, data) {
        Err(error) => Err(error),
        Ok(format) => answer_still(path, data, format, blob_size(data), coaching),
    }
}

/// The tool, with the embedder's permission check and its channel to ask a human.
pub struct ReadImageTool<P, A> {
    pub permission: Option<P>,
    pub ask_tx: Option<A>,
}

/// A call that waits until its session is not frozen.
pub struct WaitingCall {
    path: String,
    wait: FreezeWait,
}

/// What a waiting call does next.
pub enum WaitStep {
    /// Park until the waiters of this session are woken, then poll again.
    Park { session: String, call: WaitingCall },
    /// Nothing relevant is frozen: go on.
    Ready { call: ThawedCall },
}

/// A call that waits for its path with the tilde expanded.
pub struct ThawedCall {
    path: String,
}

/// A call that waits for the permission to touch its path.
pub struct ImageCall {
    path: String,
}

/// A permitted call that waits for the size of its file.
pub struct PermittedCall {
    path: String,
    coaching: Option<String>,
}

/// A call whose file is small enough, and that waits for its bytes.
pub struct SizedCall {
    path: String,
    coaching: Option<String>,
}

impl<P, A> ReadImageTool<P, A> {
    pub fn new(permission: Option<P>, ask_tx: Option<A>) -> (tool: Self)
        ensures
            tool.permission == permission,
            tool.ask_tx == ask_tx,
    {
        ReadImageTool { permission, ask_tx }
    }

    /// What the tool does, in words for the agent.
    pub fn description(&self) -> (text: String)
        ensures
            text@
                == "Read an image file as an image (not text). Path only. JPEG/PNG/WebP/non-animated GIF, max 5MB and 2048px per side; larger/animated/unsupported returns an error telling the agent to use magick to convert or downscale."@,
    {
        "Read an image file as an image (not text). Path only. JPEG/PNG/WebP/non-animated GIF, max 5MB and 2048px per side; larger/animated/unsupported returns an error telling the agent to use magick to convert or downscale.".to_owned()
    }

    /// The JSON schema of the arguments, as JSON text.
    pub fn parameters(&self) -> (schema: String)
        ensures
            schema@
                == "{\"properties\":{\"note\":{\"description\":\"Short human note shown in the UI next to this action (optional)\",\"type\":\"string\"},\"path\":{\"description\":\"Path to the image file (relative or absolute)\",\"type\":\"string\"}},\"required\":[\"path\"],\"type\":\"object\"}"@,
    {
        "{\"properties\":{\"note\":{\"description\":\"Short human note shown in the UI next to this action (optional)\",\"type\":\"string\"},\"path\":{\"description\":\"Path to the image file (relative or absolute)\",\"type\":\"string\"}},\"required\":[\"path\"],\"type\":\"object\"}".to_owned()
    }

    /// Begin a call by a caller with pin `pin`. Before anything else it waits
    /// until no question is open in any session that the caller may belong to.
    pub fn call(
        &self,
        args: ReadImageArgs,
        state: &FreezeState,
        pin: &Option<String>,
    ) -> (call: WaitingCall)
        requires
            state.wf(),
        ensures
            call.path_text() == args.path@,
            call.wait_view().valid(),
            call.wait_view().parked is None,
            call.wait_view().candidates.no_duplicates(),
            call.wait_view().candidates.to_set() == state@.candidates(crate::text::text_of(*pin)),
    {
        WaitingCall { path: args.path, wait: wait_if_frozen(state, pin) }
    }
}

impl WaitingCall {
    pub closed spec fn path_text(&self) -> Seq<char> {
        self.path@
    }

    pub closed spec fn wait_view(&self) -> crate::ask_freeze::WaitView {
        self.wait@
    }

    /// Decide whether the call may go on. It may exactly when none of the
    /// sessions that it waits for is frozen; else it parks on one that is.
    pub fn poll(self, state: &mut FreezeState) -> (step: WaitStep)
        requires
            self.wait_view().valid(),
            old(state).wf(),
        ensures
            final(state).wf(),
            final(state)@ == old(state)@,
            step is Ready <==> forall|i: int|
                0 <= i < self.wait_view().candidates.len() ==> !old(state)@.frozen(
                    #[trigger] self.wait_view().candidates[i],
                ),
            match step {
                WaitStep::Ready { call } => {
                    &&& self.wait_view().next(old(state)@) is None
                    &&& call.path_text() == self.path_text()
                },
                WaitStep::Park { session, call } => {
                    &&& self.wait_view().next(old(state)@) is Some
                    &&& session@ == self.wait_view().candidates[self.wait_view().next(
                        old(state)@,
                    )->0]
                    &&& old(state)@.frozen(session@)
                    &&& call.path_text() == self.path_text()
                    &&& call.wait_view().valid()
                    &&& call.wait_view().candidates == self.wait_view().candidates
                    &&& call.wait_view().parked == self.wait_view().next(old(state)@)
                },
            },
    {
        proof {
            crate::ask_freeze::law_wait_parks_while_any_is_frozen(self.wait_view(), state@);
        }
        let mut wait: FreezeWait = self.wait;
        match wait.poll(state) {
            WaitAction::Proceed => WaitStep::Ready { call: ThawedCall { path: self.path } },
            WaitAction::Park { session } => WaitStep::Park {
                session,
                call: WaitingCall { path: self.path, wait },
            },
        }
    }
}

impl ThawedCall {
    pub closed spec fn path_text(&self) -> Seq<char> {
        self.path@
    }

    /// The path of the arguments.
    pub fn path(&self) -> (path: &str)
        ensures
            path@ == self.path_text(),
    {
        self.path.as_str()
    }

    /// Go on with the path whose tilde is expanded.
    pub fn expanded(self, path: String) -> (call: ImageCall)
        ensures
            call.path_text() == path@,
    {
        ImageCall { path }
    }
}

impl ImageCall {
    pub closed spec fn path_text(&self) -> Seq<char> {
        self.path@
    }

    /// The path to ask the permission for.
    pub fn path(&self) -> (path: &str)
        ensures
            path@ == self.path_text(),
    {
        self.path.as_str()
    }

    /// Go on with the permission, and the coaching that came with it, or give
    /// the refusal back as it is: the file is not touched.
    pub fn permitted(self, permission: Result<Option<String>, ToolError>) -> (next: Result<
        PermittedCall,
        ToolError,
    >)
        ensures
            match permission {
                Ok(coaching) => {
                    &&& next is Ok
                    &&& next->Ok_0.path_text() == self.path_text()
                    &&& next->Ok_0.coaching_text() == crate::text::text_of(coaching)
                },
                Err(error) => next == Err::<PermittedCall, ToolError>(error),
            },
    {
        match permission {
            Ok(coaching) => Ok(PermittedCall { path: self.path, coaching }),
            Err(error) => Err(error),
        }
    }
}

impl PermittedCall {
    pub closed spec fn path_text(&self) -> Seq<char> {
        self.path@
    }

    pub closed spec fn coaching_text(&self) -> Option<Seq<char>> {
        crate::text::text_of(self.coaching)
    }

    /// The path to take the size of.
    pub fn path(&self) -> (path: &str)
        ensures
            path@ == self.path_text(),
    {
        self.path.as_str()
    }

    /// Size gate before reading bytes into memory: go on with the size of the
    /// file on disk, or with the reason for which it could not be had.
    pub fn sized(self, stat: Result<u64, String>) -> (next: Result<SizedCall, ToolError>)
        ensures
            match next {
                Ok(call) => {
                    &&& size_verdict(self.path_text(), crate::text::reason_of(stat)) is Ok
                    &&& call.path_text() == self.path_text()
                    &&& call.coaching_text() == self.coaching_text()
                },
                Err(error) => size_verdict(self.path_text(), crate::text::reason_of(stat)) == Err::<
                    u64,
                    Seq<char>,
                >(error.text()),
            },
    {
        match stat {
            Err(reason) => Err(
                ToolError::Msg(cannot_stat_text(self.path.as_str(), reason.as_str())),
            ),
            Ok(len) => if len > MAX_BYTES {
                Err(ToolError::Msg(too_big_on_disk_text(self.path.as_str(), len)))
            } else {
                Ok(SizedCall { path: self.path, coaching: self.coaching })
            },
        }
    }
}

impl SizedCall {
    pub closed spec fn path_text(&self) -> Seq<char> {
        self.path@
    }

    pub closed spec fn coaching_text(&self) -> Option<Seq<char>> {
        crate::text::text_of(self.coaching)
    }

    /// The path to read.
    pub fn path(&self) -> (path: &str)
        ensures
            path@ == self.path_text(),
    {
        self.path.as_str()
    }

    /// The answer of the call, from the bytes of the file or the reason for
    /// which they could not be had.
    pub fn finish(self, read: Result<Vec<u8>, String>) -> (answer: Result<String, ToolError>)
        ensures
            answer_text(answer) == match read {
                Err(reason) => Err(crate::messages::cannot_read(self.path_text(), reason@)),
                Ok(data) => image_answer(self.path_text(), data@, self.coaching_text()),
            },
    {
        match read {
            Err(reason) => Err(
                ToolError::Msg(cannot_read_text(self.path.as_str(), reason.as_str())),
            ),
            Ok(data) => answer_image(self.path.as_str(), data.as_slice(), &self.coaching),
        }
    }
}

/// The answer of a whole call, from what each stage got from outside.
pub open spec fn call_answer(
    path: Seq<char>,
    permission: Result<Option<Seq<char>>, Seq<char>>,
    stat: Result<u64, Seq<char>>,
    read: Result<Seq<u8>, Seq<char>>,
) -> Result<Seq<char>, Seq<char>> {
    match (permission, size_verdict(path, stat), read) {
        (Err(text), _, _) => Err(text),
        (Ok(_), Err(text), _) => Err(text),
        (Ok(_), Ok(_), Err(reason)) => Err(crate::messages::cannot_read(path, reason)),
        (Ok(coaching), Ok(_), Ok(data)) => image_answer(path, data, coaching),
    }
}

/// The permission in plain characters: the coaching that came with it, or the
/// words of the refusal.
pub open spec fn permission_text(permission: Result<Option<String>, ToolError>) -> Result<
    Option<Seq<char>>,
    Seq<char>,
> {
    match permission {
        Ok(coaching) => Ok(crate::text::text_of(coaching)),
        Err(error) => Err(error.text()),
    }
}

/// The bytes that were read in plain form, or the reason why there are none.
pub open spec fn bytes_of(read: Result<Vec<u8>, String>) -> Result<Seq<u8>, Seq<char>> {
    match read {
        Ok(data) => Ok(data@),
        Err(reason) => Err(reason@),
    }
}

impl ImageCall {
    /// The answer of the call where all that its stages need is at hand.
    pub fn answer(
        self,
        permission: Result<Option<String>, ToolError>,
        stat: Result<u64, String>,
        read: Result<Vec<u8>, String>,
    ) -> (answer: Result<String, ToolError>)
        ensures
            answer_text(answer) == call_answer(
                self.path_text(),
                permission_text(permission),
                crate::text::reason_of(stat),
                bytes_of(read),
            ),
    {
        match self.permitted(permission) {
            Err(error) => Err(error),
            Ok(call) => match call.sized(stat) {
                Err(error) => Err(error),
                Ok(call) => call.finish(read),
            },
        }
    }
}

/// A file is handed on exactly when it has at most five megabytes, is a JPEG,
/// a PNG, a still GIF or a still WebP, and its header shows at most 2048
/// pixels per side.
pub proof fn law_only_small_stills_are_handed_on(
    path: Seq<char>,
    data: Seq<u8>,
    coaching: Option<Seq<char>>,
)
    ensures
        image_answer(path, data, coaching) is Ok <==> {
            &&& data.len() <= MAX_BYTES
            &&& crate::image_format::format_of(data, path) matches Some(format)
            &&& !(format == ImageFormat::Gif && crate::image_format::animated_gif(data))
            &&& !(format == ImageFormat::Webp && crate::image_format::animated_webp(data))
            &&& crate::outside::header_size(data) matches Ok((width, height))
            &&& width <= MAX_DIM && height <= MAX_DIM
        },
{
}

/// Whoever is refused for the size, the format, the animation or the
/// dimensions of a file is told to use magick.
pub proof fn law_refusals_point_to_magick(
    path: Seq<char>,
    data: Seq<u8>,
    coaching: Option<Seq<char>>,
    len: u64,
)
    ensures
        image_answer(path, data, coaching) matches Err(text) ==> crate::text::mentions(text, "magick"@),
        size_verdict(path, Ok(len)) matches Err(text) ==> crate::text::mentions(text, "magick"@),
{
    crate::messages::lemma_too_big_on_disk(path, len as nat);
    crate::messages::lemma_too_big_in_memory(path, data.len());
    crate::messages::lemma_unsupported(path);
    crate::messages::lemma_gif_moves(path);
    crate::messages::lemma_webp_moves(path);
    match crate::outside::header_size(data) {
        Ok((width, height)) => {
            crate::messages::lemma_too_many_pixels(path, width as nat, height as nat);
        },
        Err(reason) => {
            crate::messages::lemma_no_dimensions(path, reason);
        },
    }
}

/// Coaching changes nothing but what stands above the envelope.
pub proof fn law_coaching_only_stands_above(path: Seq<char>, data: Seq<u8>, message: Seq<char>)
    ensures
        image_answer(path, data, Some(message)) == match image_answer(path, data, None) {
            Ok(envelope) => Ok::<Seq<char>, Seq<char>>(message + "\n"@ + envelope),
            Err(text) => Err(text),
        },
{
}

/// Without the permission nothing that the disk holds decides the answer, and
/// with a file too large on disk nothing that the file holds does.
pub proof fn law_gates_come_first(
    path: Seq<char>,
    permission: Result<Option<Seq<char>>, Seq<char>>,
    stat: Result<u64, Seq<char>>,
    read: Result<Seq<u8>, Seq<char>>,
    other_stat: Result<u64, Seq<char>>,
    other_read: Result<Seq<u8>, Seq<char>>,
)
    ensures
        permission is Err ==> call_answer(path, permission, stat, read) == call_answer(
            path,
            permission,
            other_stat,
            other_read,
        ),
        size_verdict(path, stat) is Err ==> call_answer(path, permission, stat, read)
            == call_answer(path, permission, stat, other_read),
{
}

/// The whole text that hands a still on: all bytes of the file in base64, the
/// MIME type of its format, and the note with the path, the label, the width,
/// the height and the number of bytes. Coaching stands on lines above it.
pub proof fn law_still_is_handed_on_whole(
    path: Seq<char>,
    data: Seq<u8>,
    format: ImageFormat,
    width: usize,
    height: usize,
    message: Seq<char>,
)
    requires
        width <= 2048,
        height <= 2048,
    ensures
        still_answer(path, data, format, Ok((width, height)), None) == Ok::<Seq<char>, Seq<char>>(
            "{\"parts\":[{\"data\":\""@ + crate::outside::base64_text(data)
                + "\",\"mimeType\":\""@ + format.mime_text()
                + "\",\"type\":\"image\"}],\"response\":"@ + crate::outside::json_string(
                crate::messages::image_note(
                    path,
                    format.label_text(),
                    width as nat,
                    height as nat,
                    data.len(),
                ),
            ) + "}"@,
        ),
        still_answer(path, data, format, Ok((width, height)), Some(message)) == Ok::<
            Seq<char>,
            Seq<char>,
        >(
            message + "\n"@ + still_answer(
                path,
                data,
                format,
                Ok((width, height)),
                None,
            )->Ok_0,
        ),
{
    crate::outside::law_base64_needs_no_escapes(data);
    lemma_mime_is_plain(format);
    lemma_keys_are_plain();
    reveal_strlit("{\"parts\":[{\"data\":\"");
    reveal_strlit("\",\"mimeType\":\"");
    reveal_strlit("\",\"type\":\"image\"}],\"response\":");
    reveal_strlit("{");
    reveal_strlit(":[{");
    reveal_strlit("}],");
    reveal_strlit("}");
    reveal_strlit(",");
    reveal_strlit(":");
    reveal_strlit("\"");
    reveal_strlit("parts");
    reveal_strlit("data");
    reveal_strlit("mimeType");
    reveal_strlit("type");
    reveal_strlit("image");
    reveal_strlit("response");
    let q = "\""@;
    let head = "{"@ + (q + "parts"@ + q) + ":[{"@ + (q + "data"@ + q) + ":"@ + q;
    let middle = q + ","@ + (q + "mimeType"@ + q) + ":"@ + q;
    let tail = q + ","@ + (q + "type"@ + q) + ":"@ + (q + "image"@ + q) + "}],"@ + (q + "response"@
        + q) + ":"@;
    assert(head =~= "{\"parts\":[{\"data\":\""@);
    assert(middle =~= "\",\"mimeType\":\""@);
    assert(tail =~= "\",\"type\":\"image\"}],\"response\":"@);
    let note = crate::outside::json_string(
        crate::messages::image_note(
            path,
            format.label_text(),
            width as nat,
            height as nat,
            data.len(),
        ),
    );
    let payload = crate::outside::base64_text(data);
    assert(still_answer(
        path,
        data,
        format,
        Ok((width, height)),
        None,
    )->Ok_0 =~= head + payload + middle + format.mime_text()
        + tail + note + "}"@);
}

/// An image that is handed on is handed on with all its bytes, under the MIME
/// type and the label of its format and the dimensions that its header shows.
pub proof fn law_answer_holds_the_whole_file(
    path: Seq<char>,
    data: Seq<u8>,
    format: ImageFormat,
    width: usize,
    height: usize,
)
    requires
        image_answer(path, data, None) is Ok,
        crate::image_format::format_of(data, path) == Some(format),
        crate::outside::header_size(data) == Ok::<(usize, usize), Seq<char>>((width, height)),
    ensures
        image_answer(path, data, None)->Ok_0 == "{\"parts\":[{\"data\":\""@
            + crate::outside::base64_text(data) + "\",\"mimeType\":\""@ + format.mime_text()
            + "\",\"type\":\"image\"}],\"response\":"@ + crate::outside::json_string(
            crate::messages::image_note(
                path,
                format.label_text(),
                width as nat,
                height as nat,
                data.len(),
            ),
        ) + "}"@,
{
    law_only_small_stills_are_handed_on(path, data, None);
    law_dimensions_decide_a_still(path, data, format, Ok((width, height)), None);
    law_still_is_handed_on_whole(path, data, format, width, height, Seq::empty());
}

proof fn lemma_mime_is_plain(format: ImageFormat)
    ensures
        crate::outside::json_string(format.mime_text()) == "\""@ + format.mime_text() + "\""@,
{
    reveal_strlit("image/jpeg");
    reveal_strlit("image/png");
    reveal_strlit("image/webp");
    reveal_strlit("image/gif");
    crate::outside::lemma_plain_chars(format.mime_text());
}

proof fn lemma_keys_are_plain()
    ensures
        crate::outside::json_string("parts"@) == "\""@ + "parts"@ + "\""@,
        crate::outside::json_string("data"@) == "\""@ + "data"@ + "\""@,
        crate::outside::json_string("mimeType"@) == "\""@ + "mimeType"@ + "\""@,
        crate::outside::json_string("type"@) == "\""@ + "type"@ + "\""@,
        crate::outside::json_string("image"@) == "\""@ + "image"@ + "\""@,
        crate::outside::json_string("response"@) == "\""@ + "response"@ + "\""@,
{
    reveal_strlit("parts");
    reveal_strlit("data");
    reveal_strlit("mimeType");
    reveal_strlit("type");
    reveal_strlit("image");
    reveal_strlit("response");
    crate::outside::lemma_plain_chars("parts"@);
    crate::outside::lemma_plain_chars("data"@);
    crate::outside::lemma_plain_chars("mimeType"@);
    crate::outside::lemma_plain_chars("type"@);
    crate::outside::lemma_plain_chars("image"@);
    crate::outside::lemma_plain_chars("response"@);
}

/// The answer determines the file: two files that are handed on with the same
/// answer are equal, byte for byte.
pub proof fn law_answer_determines_the_file(
    path: Seq<char>,
    a: Seq<u8>,
    other_path: Seq<char>,
    b: Seq<u8>,
)
    requires
        image_answer(path, a, None) is Ok,
        image_answer(path, a, None) == image_answer(other_path, b, None),
    ensures
        a == b,
{
    let fa = crate::image_format::format_of(a, path)->Some_0;
    let fb = crate::image_format::format_of(b, other_path)->Some_0;
    let (wa, ha) = crate::outside::header_size(a)->Ok_0;
    let (wb, hb) = crate::outside::header_size(b)->Ok_0;
    law_only_small_stills_are_handed_on(path, a, None);
    law_only_small_stills_are_handed_on(other_path, b, None);
    law_answer_holds_the_whole_file(path, a, fa, wa, ha);
    law_answer_holds_the_whole_file(other_path, b, fb, wb, hb);
    crate::outside::law_base64_needs_no_escapes(a);
    crate::outside::law_base64_needs_no_escapes(b);
    reveal_strlit("\",\"mimeType\":\"");
    let text = image_answer(path, a, None)->Ok_0;
    let head = "{\"parts\":[{\"data\":\""@;
    let n = head.len() as int;
    let pa = crate::outside::base64_text(a);
    let pb = crate::outside::base64_text(b);
    assert(text[n + pa.len()] == '"');
    assert(text[n + pb.len()] == '"');
    if pa.len() < pb.len() {
        assert(text[n + pa.len()] == pb[pa.len() as int]);
    }
    if pb.len() < pa.len() {
        assert(text[n + pb.len()] == pa[pb.len() as int]);
    }
    assert forall|i: int| 0 <= i < pa.len() implies pa[i] == pb[i] by {
        assert(text[n + i] == pa[i]);
        assert(text[n + i] == pb[i]);
    }
    assert(pa =~= pb);
    crate::outside::law_base64_determines_the_bytes(a, b);
}

/// Each refusal has its own reason, and the reasons are looked at in this order:
/// more than 5242880 bytes, no supported format, an animated GIF, an animated
/// WebP, no dimensions in the header, more than 2048 pixels on a side.
pub proof fn law_each_refusal_has_its_reason(
    path: Seq<char>,
    data: Seq<u8>,
    coaching: Option<Seq<char>>,
)
    ensures
        ({
            let answer = image_answer(path, data, coaching);
            let format = crate::image_format::format_of(data, path);
            let size = crate::outside::header_size(data);
            let gif_moves = format == Some(ImageFormat::Gif) && crate::image_format::animated_gif(
                data,
            );
            let webp_moves = format == Some(ImageFormat::Webp)
                && crate::image_format::animated_webp(data);
            let still = data.len() <= 5242880 && format is Some && !gif_moves && !webp_moves;
            &&& data.len() > 5242880 ==> answer == Err::<Seq<char>, Seq<char>>(
                crate::messages::too_big_in_memory(path, data.len()),
            )
            &&& data.len() <= 5242880 && format is None ==> answer == Err::<Seq<char>, Seq<char>>(
                crate::messages::unsupported(path),
            )
            &&& data.len() <= 5242880 && gif_moves ==> answer == Err::<Seq<char>, Seq<char>>(
                crate::messages::gif_moves(path),
            )
            &&& data.len() <= 5242880 && webp_moves ==> answer == Err::<Seq<char>, Seq<char>>(
                crate::messages::webp_moves(path),
            )
            &&& still && size is Err ==> answer == Err::<Seq<char>, Seq<char>>(
                crate::messages::no_dimensions(path, size->Err_0),
            )
            &&& still && size is Ok && (size->Ok_0.0 > 2048 || size->Ok_0.1 > 2048) ==> answer
                == Err::<Seq<char>, Seq<char>>(
                crate::messages::too_many_pixels(path, size->Ok_0.0 as nat, size->Ok_0.1 as nat),
            )
            &&& still && size is Ok && size->Ok_0.0 <= 2048 && size->Ok_0.1 <= 2048 ==> answer is Ok
        }),
{
}

/// Whether a still is handed on depends on its size alone: given the same
/// dimensions, the coaching and the format change the words, not the verdict.
pub proof fn law_dimensions_decide_a_still(
    path: Seq<char>,
    data: Seq<u8>,
    format: ImageFormat,
    size: Result<(usize, usize), Seq<char>>,
    coaching: Option<Seq<char>>,
)
    ensures
        still_answer(path, data, format, size, coaching) is Ok <==> size is Ok && size->Ok_0.0
            <= 2048 && size->Ok_0.1 <= 2048,
        size is Err ==> still_answer(path, data, format, size, coaching) == Err::<
            Seq<char>,
            Seq<char>,
        >(crate::messages::no_dimensions(path, size->Err_0)),
        size is Ok && (size->Ok_0.0 > 2048 || size->Ok_0.1 > 2048) ==> still_answer(
            path,
            data,
            format,
            size,
            coaching,
        ) == Err::<Seq<char>, Seq<char>>(
            crate::messages::too_many_pixels(path, size->Ok_0.0 as nat, size->Ok_0.1 as nat),
        ),
        size == crate::outside::header_size(data) && format_verdict(path, data) == Ok::<
            ImageFormat,
            Seq<char>,
        >(format) ==> still_answer(path, data, format, size, coaching) == image_answer(
            path,
            data,
            coaching,
        ),
{
}

/// The size on disk lets a file pass up to 5242880 bytes and no further, and a
/// size that could not be had lets none pass.
pub proof fn law_size_gate(path: Seq<char>, len: u64, reason: Seq<char>)
    ensures
        size_verdict(path, Ok(len)) is Ok <==> len <= 5242880,
        len <= 5242880 ==> size_verdict(path, Ok(len)) == Ok::<u64, Seq<char>>(len),
        len > 5242880 ==> size_verdict(path, Ok(len)) == Err::<u64, Seq<char>>(
            crate::messages::too_big_on_disk(path, len as nat),
        ),
        size_verdict(path, Err(reason)) == Err::<u64, Seq<char>>(
            crate::messages::cannot_stat(path, reason),
        ),
{
}

/// A whole call answers with the first thing that went wrong: the refused
/// permission in its own words, the size that could not be had or is too large,
/// the file that could not be read. Else the image decides.
pub proof fn law_first_failure_is_the_answer(
    path: Seq<char>,
    refusal: Seq<char>,
    coaching: Option<Seq<char>>,
    stat: Result<u64, Seq<char>>,
    len: u64,
    reason: Seq<char>,
    read: Result<Seq<u8>, Seq<char>>,
    data: Seq<u8>,
)
    ensures
        call_answer(path, Err(refusal), stat, read) == Err::<Seq<char>, Seq<char>>(refusal),
        call_answer(path, Ok(coaching), Err(reason), read) == Err::<Seq<char>, Seq<char>>(
            crate::messages::cannot_stat(path, reason),
        ),
        len > 5242880 ==> call_answer(path, Ok(coaching), Ok(len), read) == Err::<
            Seq<char>,
            Seq<char>,
        >(crate::messages::too_big_on_disk(path, len as nat)),
        len <= 5242880 ==> call_answer(path, Ok(coaching), Ok(len), Err(reason)) == Err::<
            Seq<char>,
            Seq<char>,
        >(crate::messages::cannot_read(path, reason)),
        len <= 5242880 ==> call_answer(path, Ok(coaching), Ok(len), Ok(data)) == image_answer(
            path,
            data,
            coaching,
        ),
{
}

/// Plain forms lose nothing: an error is its words, an answer its text or the
/// words of its error, a permission its coaching or the words of the refusal,
/// and what was read is all its bytes or the reason.
pub proof fn law_plain_forms_lose_nothing(
    words: String,
    coaching: Option<String>,
    data: Vec<u8>,
    i: int,
)
    ensures
        ToolError::Msg(words).text() == words@,
        answer_text(Ok(words)) == Ok::<Seq<char>, Seq<char>>(words@),
        answer_text(Err(ToolError::Msg(words))) == Err::<Seq<char>, Seq<char>>(words@),
        permission_text(Err(ToolError::Msg(words))) == Err::<Option<Seq<char>>, Seq<char>>(words@),
        permission_text(Ok(Some(words))) == Ok::<Option<Seq<char>>, Seq<char>>(Some(words@)),
        permission_text(Ok(None)) == Ok::<Option<Seq<char>>, Seq<char>>(None),
        bytes_of(Err(words)) == Err::<Seq<u8>, Seq<char>>(words@),
        bytes_of(Ok(data)) is Ok && bytes_of(Ok(data))->Ok_0.len() == data@.len(),
        0 <= i < data@.len() ==> bytes_of(Ok(data))->Ok_0[i] == data@[i],
{
}

/// The check of a file by its bytes and its name answers in this order: more
/// than 5242880 bytes, no supported format, an animated GIF, an animated WebP.
/// Else it gives the format that the file has.
pub proof fn law_check_gives_the_format(path: Seq<char>, data: Seq<u8>)
    ensures
        ({
            let verdict = format_verdict(path, data);
            let format = crate::image_format::format_of(data, path);
            let gif_moves = format == Some(ImageFormat::Gif) && crate::image_format::animated_gif(
                data,
            );
            let webp_moves = format == Some(ImageFormat::Webp)
                && crate::image_format::animated_webp(data);
            &&& data.len() > 5242880 ==> verdict == Err::<ImageFormat, Seq<char>>(
                crate::messages::too_big_in_memory(path, data.len()),
            )
            &&& data.len() <= 5242880 && format is None ==> verdict == Err::<
                ImageFormat,
                Seq<char>,
            >(crate::messages::unsupported(path))
            &&& data.len() <= 5242880 && gif_moves ==> verdict == Err::<ImageFormat, Seq<char>>(
                crate::messages::gif_moves(path),
            )
            &&& data.len() <= 5242880 && webp_moves ==> verdict == Err::<ImageFormat, Seq<char>>(
                crate::messages::webp_moves(path),
            )
            &&& data.len() <= 5242880 && format is Some && !gif_moves && !webp_moves ==> verdict
                == Ok::<ImageFormat, Seq<char>>(format->Some_0)
        }),
{
}

} // verus!
