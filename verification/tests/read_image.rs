use base64::Engine as _;
use zerostack::ask_freeze::{dec, inc, set_wrapper_session, FreezeState};
use zerostack::image_format::{detect_format, is_animated_gif, is_animated_webp, ImageFormat};
use zerostack::read_image::{
    answer_image, answer_still, check_format, ImageCall, ReadImageArgs, ReadImageTool, ToolError,
    WaitStep, WaitingCall, MAX_BYTES, MAX_DIM, NAME,
};

// 1x1 transparent PNG (68 bytes) — imagesize parses it as 1x1.
const PNG_1X1_B64: &str = "iVBORw0KGgoAAAANSUhEUgAAAAEAAAABCAQAAAC1HAwCAAAAC0lEQVR42mP8/x8AAwMCAO+ip1sAAAAASUVORK5CYII=";

fn png_1x1_bytes() -> Vec<u8> {
    base64::engine::general_purpose::STANDARD
        .decode(PNG_1X1_B64)
        .unwrap()
}

fn tool() -> ReadImageTool<(), ()> {
    ReadImageTool::new(None, None)
}

fn words(answer: Result<String, ToolError>) -> String {
    match answer {
        Ok(text) => panic!("{text}"),
        Err(error) => error.message(),
    }
}

fn begin(path: &str, state: &FreezeState, pin: Option<&str>) -> WaitingCall {
    let args = ReadImageArgs {
        path: path.to_string(),
        note: None,
    };
    tool().call(args, state, &pin.map(|id| id.to_string()))
}

/// A call that nothing holds up, with its path as it is.
fn image_call(path: &str) -> ImageCall {
    let mut state = FreezeState::new();
    match begin(path, &state, None).poll(&mut state) {
        WaitStep::Ready { call } => {
            let path = call.path().to_string();
            call.expanded(path)
        }
        WaitStep::Park { session, .. } => panic!("parked on {session}"),
    }
}

/// Run a whole call on a file that holds `data`.
fn call(path: &str, data: Vec<u8>, coaching: Option<String>) -> Result<String, ToolError> {
    image_call(path)
        .permitted(Ok(coaching))?
        .sized(Ok(data.len() as u64))?
        .finish(Ok(data))
}

#[test]
fn detect_format_png_by_magic() {
    let data = png_1x1_bytes();
    assert_eq!(detect_format(&data, "foo.bin"), Some(ImageFormat::Png));
}

#[test]
fn detect_format_jpeg_by_magic() {
    let mut data = vec![0xFF, 0xD8, 0xFF, 0xE0, 0x00, 0x10];
    assert_eq!(detect_format(&data, "x"), Some(ImageFormat::Jpeg));
    // Extension fallback
    data = vec![0x00, 0x01];
    assert_eq!(detect_format(&data, "photo.jpg"), Some(ImageFormat::Jpeg));
}

#[test]
fn detect_format_unsupported() {
    assert_eq!(detect_format(b"hello world", "doc.txt"), None);
}

#[test]
fn blob_size_png_1x1() {
    let data = png_1x1_bytes();
    let sz = imagesize::blob_size(&data).unwrap();
    assert_eq!(sz.width, 1);
    assert_eq!(sz.height, 1);
}

#[test]
fn mime_mapping() {
    assert_eq!(ImageFormat::Jpeg.mime(), "image/jpeg");
    assert_eq!(ImageFormat::Png.mime(), "image/png");
    assert_eq!(ImageFormat::Webp.mime(), "image/webp");
    assert_eq!(ImageFormat::Gif.mime(), "image/gif");
}

#[test]
fn animated_gif_netscape_detected() {
    // Minimal NETSCAPE2.0 marker makes it animated.
    let mut data = b"GIF89a".to_vec();
    data.extend_from_slice(b"NETSCAPE2.0 extra");
    assert!(is_animated_gif(&data));
}

#[test]
fn still_gif_not_animated() {
    let data = png_1x1_bytes();
    // PNG bytes are not gif, so not animated.
    assert!(!is_animated_gif(&data));
    // Single-frame GIF header without NETSCAPE and without double GCE: not animated.
    let gif = b"GIF89a\x01\x00\x01\x00\x80\x00\x00".to_vec();
    assert!(!is_animated_gif(&gif));
}

#[test]
fn animated_webp_anim_chunk() {
    let data = b"RIFF....WEBPANIM....".to_vec();
    assert!(is_animated_webp(&data));
    assert!(!is_animated_webp(&png_1x1_bytes()));
}

#[test]
fn tool_rejects_oversize_and_unsupported() {
    // Unsupported format path: the call gets the bytes of a text file.
    let msg = words(call(
        "/tmp/zs_read_image_unsupported.txt",
        b"not an image".to_vec(),
        None,
    ));
    assert!(msg.contains("not a supported image format"), "{msg}");
    assert!(msg.contains("magick"), "{msg}");

    // Oversize: a file of 5MB+1 bytes, PNG header + padding.
    let mut big = vec![0u8; (MAX_BYTES + 1) as usize];
    big[0..8].copy_from_slice(&[0x89, 0x50, 0x4E, 0x47, 0x0D, 0x0A, 0x1A, 0x0A]);
    let msg2 = words(call("/tmp/zs_read_image_big.png", big, None));
    assert!(msg2.contains("exceeds the 5MB limit"), "{msg2}");
    assert!(msg2.contains("magick"), "{msg2}");
}

#[test]
fn tool_succeeds_png_envelope_is_image_channel() {
    let out = call("/tmp/zs_read_image_ok.png", png_1x1_bytes(), None).unwrap();
    // Must be JSON envelope parsed as ToolResultContent::Image, not plain text base64.
    let v: serde_json::Value = serde_json::from_str(&out).expect("envelope is JSON");
    assert!(v.get("parts").is_some(), "parts missing: {v}");
    assert_eq!(v["parts"][0]["type"], "image");
    assert_eq!(v["parts"][0]["mimeType"], "image/png");
    // Rig parses this into ToolResultContent::Image.
    let parsed = rig::message::ToolResultContent::from_tool_output(out);
    assert!(
        parsed
            .iter()
            .any(|c| matches!(c, rig::message::ToolResultContent::Image(_))),
        "rig did not parse image part"
    );
}

#[test]
fn envelope_has_this_exact_text() {
    let out = call("a.png", png_1x1_bytes(), None).unwrap();
    let want = format!(
        "{{\"parts\":[{{\"data\":\"{PNG_1X1_B64}\",\"mimeType\":\"image/png\",\"type\":\"image\"}}],\"response\":\"Image 'a.png' (PNG 1x1, 68 bytes) — base64 follows in the image channel.\"}}"
    );
    assert_eq!(out, want);
}

#[test]
fn coaching_stands_above_the_envelope() {
    let plain = call("a.png", png_1x1_bytes(), None).unwrap();
    let coached = call("a.png", png_1x1_bytes(), Some("mind the gap".to_string())).unwrap();
    assert_eq!(coached, format!("mind the gap\n{plain}"));
}

#[test]
fn path_is_escaped_in_the_envelope() {
    let path = "q\"b\\t\tn\nc\u{1}\u{8}\u{c}\r\u{1f}\u{7f}é—.png";
    let out = call(path, png_1x1_bytes(), None).unwrap();
    let escaped = "q\\\"b\\\\t\\tn\\nc\\u0001\\b\\f\\r\\u001f\u{7f}é—.png";
    assert!(
        out.contains(&format!("\"response\":\"Image '{escaped}' (PNG")),
        "{out}"
    );
    let v: serde_json::Value = serde_json::from_str(&out).unwrap();
    let response = v["response"].as_str().unwrap();
    assert!(response.starts_with(&format!("Image '{path}' (PNG 1x1")));
}

#[test]
fn payload_is_the_standard_base64_of_the_file() {
    // One, two and no bytes left over behind the groups of three.
    for extra in 0..3usize {
        let mut data = png_1x1_bytes();
        for i in 0..200usize {
            data.push((i * 7 % 256) as u8);
        }
        data.truncate(240 + extra);
        let out = call("a.png", data.clone(), None).unwrap();
        let alphabet = b"ABCDEFGHIJKLMNOPQRSTUVWXYZabcdefghijklmnopqrstuvwxyz0123456789+/";
        let mut want = String::new();
        for i in 0..(data.len() + 2) / 3 * 4 {
            if 6 * i >= 8 * data.len() {
                want.push('=');
                continue;
            }
            let mut value = 0usize;
            for bit in 6 * i..6 * i + 6 {
                let byte = data.get(bit / 8).copied().unwrap_or(0);
                value = value * 2 + ((byte >> (7 - bit % 8)) & 1) as usize;
            }
            want.push(alphabet[value] as char);
        }
        assert!(out.contains(&format!("\"data\":\"{want}\"")), "{out}");
    }
}

#[test]
fn labels() {
    assert_eq!(ImageFormat::Jpeg.label(), "JPEG");
    assert_eq!(ImageFormat::Png.label(), "PNG");
    assert_eq!(ImageFormat::Webp.label(), "WebP");
    assert_eq!(ImageFormat::Gif.label(), "GIF");
}

#[test]
fn detect_format_edges() {
    assert_eq!(detect_format(b"GIF87a", "x"), Some(ImageFormat::Gif));
    assert_eq!(detect_format(b"GIF89a", "x"), Some(ImageFormat::Gif));
    assert_eq!(detect_format(b"GIF88a", "x"), None);
    assert_eq!(
        detect_format(b"RIFF....WEBP", "x"),
        Some(ImageFormat::Webp)
    );
    assert_eq!(detect_format(b"RIFF....WEB", "x"), None);
    assert_eq!(detect_format(b"RIFF....WAVE", "x"), None);
    // The bytes decide before the name.
    assert_eq!(detect_format(b"GIF89a", "x.png"), Some(ImageFormat::Gif));
    // The case of the extension is ignored.
    assert_eq!(detect_format(b"", "X.JPEG"), Some(ImageFormat::Jpeg));
    assert_eq!(detect_format(b"", "X.PnG"), Some(ImageFormat::Png));
    assert_eq!(detect_format(b"", "é.WEBP"), Some(ImageFormat::Webp));
    assert_eq!(detect_format(b"", ".gif"), Some(ImageFormat::Gif));
    assert_eq!(detect_format(b"", "gif"), None);
    assert_eq!(detect_format(b"", "a.gif "), None);
    assert_eq!(detect_format(b"", ""), None);
}

#[test]
fn animation_by_repeated_blocks() {
    let control = [0x21u8, 0xF9, 0x04];
    let descriptor = [0x2Cu8, 0x00];
    let mut data = b"GIF89a".to_vec();
    data.extend_from_slice(&control);
    data.extend_from_slice(&descriptor);
    data.extend_from_slice(&control);
    assert!(!is_animated_gif(&data));
    data.extend_from_slice(&descriptor);
    assert!(is_animated_gif(&data));
    // A block byte at the very end counts for nothing.
    data.pop();
    assert!(!is_animated_gif(&data));
    // Too short to hold frames.
    assert!(!is_animated_gif(&[0x21, 0xF9, 0x2C, 0x2C, 0x21, 0xF9, 0, 0, 0]));
}

#[test]
fn a_control_block_needs_its_size_byte() {
    let mut data = b"GIF89a".to_vec();
    data.extend_from_slice(&[0x21, 0xF9, 0x00, 0x2C, 0x00, 0x21, 0xF9, 0x00, 0x2C, 0x00]);
    assert!(!is_animated_gif(&data));
    // One whole block and one without its size byte are one block.
    data[8] = 0x04;
    assert!(!is_animated_gif(&data));
    data[13] = 0x04;
    assert!(is_animated_gif(&data));
}

#[test]
fn a_call_waits_until_its_session_is_not_frozen() {
    let mut state = FreezeState::new();
    inc(&mut state, "s");
    inc(&mut state, "s");
    let mut waiting = begin("~/a.png", &state, Some("s"));
    for _ in 0..2 {
        waiting = match waiting.poll(&mut state) {
            WaitStep::Park { session, call } => {
                assert_eq!(session, "s");
                call
            }
            WaitStep::Ready { .. } => panic!("must park"),
        };
        dec(&mut state, "s");
    }
    match waiting.poll(&mut state) {
        WaitStep::Ready { call } => {
            assert_eq!(call.path(), "~/a.png");
            assert_eq!(call.expanded("/home/a.png".to_string()).path(), "/home/a.png");
        }
        WaitStep::Park { session, .. } => panic!("parked on {session}"),
    }
}

#[test]
fn a_call_without_a_pin_waits_for_every_wrapper_session() {
    let mut state = FreezeState::new();
    set_wrapper_session(&mut state, "w1");
    set_wrapper_session(&mut state, "w2");
    inc(&mut state, "w2");
    let waiting = begin("a.png", &state, None);
    let waiting = match waiting.poll(&mut state) {
        WaitStep::Park { session, call } => {
            assert_eq!(session, "w2");
            call
        }
        WaitStep::Ready { .. } => panic!("must park"),
    };
    inc(&mut state, "w1");
    dec(&mut state, "w2");
    let waiting = match waiting.poll(&mut state) {
        WaitStep::Park { session, call } => {
            assert_eq!(session, "w1");
            call
        }
        WaitStep::Ready { .. } => panic!("must park"),
    };
    dec(&mut state, "w1");
    assert!(matches!(waiting.poll(&mut state), WaitStep::Ready { .. }));
    // A pinned call does not care for the other sessions.
    inc(&mut state, "w2");
    let pinned = begin("a.png", &state, Some("w1"));
    assert!(matches!(pinned.poll(&mut state), WaitStep::Ready { .. }));
}

#[test]
fn the_gates_come_first() {
    let png = png_1x1_bytes();
    let denied = image_call("a.png").answer(
        Err(ToolError::Msg("denied".to_string())),
        Ok(MAX_BYTES + 1),
        Ok(png.clone()),
    );
    assert_eq!(words(denied), "denied");
    let big = image_call("a.png").answer(Ok(None), Ok(MAX_BYTES + 1), Ok(png.clone()));
    assert!(words(big).contains("exceeds the 5MB limit (5_242_880 bytes)"));
    let gone = image_call("a.png").answer(Ok(None), Ok(1), Err("gone".to_string()));
    assert_eq!(words(gone), "read_image: cannot read 'a.png': gone");
    let coaching = Some("mind the gap".to_string());
    let out = image_call("a.png").answer(Ok(coaching.clone()), Ok(68), Ok(png.clone()));
    assert_eq!(out.unwrap(), call("a.png", png, coaching).unwrap());
}

#[test]
fn marker_cut_off_at_the_end_is_no_marker() {
    assert!(!is_animated_webp(b"RIFF....WEBPANI"));
    assert!(is_animated_webp(b"RIFF....WEBPANIM"));
    assert!(!is_animated_webp(b""));
    assert!(!is_animated_gif(b"GIF89aNETSCAPE2."));
    assert!(is_animated_gif(b"GIF89aNETSCAPE2.0"));
}

fn png_of_size(width: u32, height: u32) -> Vec<u8> {
    let mut data = png_1x1_bytes();
    data[16..20].copy_from_slice(&width.to_be_bytes());
    data[20..24].copy_from_slice(&height.to_be_bytes());
    data
}

#[test]
fn every_refusal_has_its_exact_words() {
    let animated_gif = b"GIF89aNETSCAPE2.0".to_vec();
    assert_eq!(
        words(call("m.gif", animated_gif, None)),
        "read_image: 'm.gif' is an animated GIF, which is not supported (stills only). Use magick cli tool to convert it to jpg or png — e.g. `magick \"m.gif\"[0] /tmp/out.png` (first frame) then read that file"
    );
    let animated_webp = b"RIFF....WEBPANIM".to_vec();
    assert_eq!(
        words(call("m.webp", animated_webp, None)),
        "read_image: 'm.webp' is an animated WebP, which is not supported (stills only). Use magick cli tool to convert it to jpg or png — e.g. `magick \"m.webp\" /tmp/out.jpg` then read that file"
    );
    assert_eq!(
        words(call("m.txt", b"hello".to_vec(), None)),
        "read_image: 'm.txt' is not a supported image format. Supported: JPEG, PNG, WebP, non-animated GIF. Use magick cli tool to convert it to jpg or png — e.g. `magick \"m.txt\" /tmp/out.jpg` then read that file"
    );
    assert_eq!(
        words(call("m.png", png_of_size(2049, 1), None)),
        "read_image: 'm.png' is 2049x1, exceeds the 2048px max dimension. file is too big use magick cli tool to convert it or downscale it — e.g. `magick \"m.png\" -resize 2048x2048\\> /tmp/out.jpg` then read that file"
    );
    let reason = imagesize::blob_size(&[0u8, 1]).unwrap_err().to_string();
    assert_eq!(
        words(call("m.png", vec![0, 1], None)),
        format!("read_image: 'm.png' — cannot parse image dimensions ({reason}). Use magick cli tool to convert it to jpg or png — e.g. `magick \"m.png\" /tmp/out.jpg`")
    );
    let too_big = vec![0u8; MAX_BYTES as usize + 1];
    assert_eq!(
        words(answer_image("m.png", &too_big, &None)),
        "read_image: 'm.png' is 5242881 bytes, exceeds the 5MB limit. file is too big use magick cli tool to convert it or downscale it — e.g. `magick \"m.png\" -resize 2048x2048\\> /tmp/out.jpg`"
    );
    assert_eq!(
        words(call("m.png", too_big, None)),
        "read_image: 'm.png' is 5242881 bytes, exceeds the 5MB limit (5_242_880 bytes). file is too big use magick cli tool to convert it or downscale it — e.g. `magick \"m.png\" -resize 2048x2048\\> -quality 85 /tmp/out.jpg` then read that file"
    );
}

#[test]
fn outside_failures_are_handed_on() {
    let denied = image_call("p").permitted(Err(ToolError::Msg("denied".to_string())));
    match denied {
        Err(error) => assert_eq!(error.message(), "denied"),
        Ok(_) => panic!("must be denied"),
    }
    let permitted = image_call("p").permitted(Ok(None)).unwrap();
    match permitted.sized(Err("no such file".to_string())) {
        Err(error) => assert_eq!(
            error.message(),
            "read_image: cannot stat 'p': no such file"
        ),
        Ok(_) => panic!("must fail"),
    }
    let permitted = image_call("p").permitted(Ok(None)).unwrap();
    let sized = permitted.sized(Ok(MAX_BYTES)).unwrap();
    assert_eq!(sized.path(), "p");
    assert_eq!(
        words(sized.finish(Err("gone".to_string()))),
        "read_image: cannot read 'p': gone"
    );
}

#[test]
fn limits_are_inclusive() {
    assert_eq!(MAX_DIM, 2048);
    let out = call("m.png", png_of_size(2048, 2048), None).unwrap();
    assert!(out.contains("(PNG 2048x2048, 68 bytes)"), "{out}");
    let mut data = png_1x1_bytes();
    data.resize(MAX_BYTES as usize, 0);
    let out = call("m.png", data, None).unwrap();
    assert!(out.contains("(PNG 1x1, 5242880 bytes)"));
    assert!(check_format("m.png", &png_of_size(1, 4_000_000_000)).is_ok());
    let msg = words(call("m.png", png_of_size(1, 4_000_000_000), None));
    assert!(msg.contains("is 1x4000000000, exceeds"), "{msg}");
}

#[test]
fn the_size_in_the_header_decides() {
    let data = png_1x1_bytes();
    let small = answer_still("m.png", &data, ImageFormat::Png, Ok((3, 5)), &None).unwrap();
    assert!(small.contains("(PNG 3x5, 68 bytes)"));
    let wide = answer_still("m.png", &data, ImageFormat::Png, Ok((2049, 5)), &None);
    assert!(words(wide).contains("is 2049x5, exceeds the 2048px max dimension"));
    let none = answer_still("m.png", &data, ImageFormat::Png, Err("why".to_string()), &None);
    assert!(words(none).contains("cannot parse image dimensions (why)"));
}

#[test]
fn gif_and_webp_and_jpeg_headers_are_read() {
    let mut gif = b"GIF89a".to_vec();
    gif.extend_from_slice(&[7, 0, 9, 0, 0x80, 0, 0]);
    let out = call("m", gif, None).unwrap();
    assert!(out.contains("(GIF 7x9, 13 bytes)"), "{out}");
    assert!(out.contains("\"mimeType\":\"image/gif\""));
    let mut webp = b"RIFF....WEBPVP8X".to_vec();
    webp.extend_from_slice(&[10, 0, 0, 0, 0, 0, 0, 0, 6, 0, 0, 8, 0, 0]);
    let out = call("m", webp, None).unwrap();
    assert!(out.contains("(WebP 7x9, 30 bytes)"), "{out}");
    let jpeg = vec![
        0xFF, 0xD8, 0xFF, 0xE0, 0, 4, 0, 0, 0xFF, 0xC0, 0, 11, 8, 0, 9, 0, 7,
    ];
    let out = call("m", jpeg, None).unwrap();
    assert!(out.contains("(JPEG 7x9, 17 bytes)"), "{out}");
    assert!(out.contains("\"mimeType\":\"image/jpeg\""));
}

#[test]
fn tool_describes_itself() {
    assert_eq!(NAME, "read_image");
    assert_eq!(
        tool().description(),
        "Read an image file as an image (not text). Path only. JPEG/PNG/WebP/non-animated GIF, max 5MB and 2048px per side; larger/animated/unsupported returns an error telling the agent to use magick to convert or downscale."
    );
    let v: serde_json::Value = serde_json::from_str(&tool().parameters()).unwrap();
    assert_eq!(v["type"], "object");
    assert_eq!(v["required"][0], "path");
    assert_eq!(v["properties"]["path"]["type"], "string");
    assert_eq!(
        v["properties"]["path"]["description"],
        "Path to the image file (relative or absolute)"
    );
    assert_eq!(v["properties"]["note"]["type"], "string");
    assert_eq!(
        v["properties"]["note"]["description"],
        "Short human note shown in the UI next to this action (optional)"
    );
    assert_eq!(tool().parameters(), v.to_string());
}

#[test]
fn tool_keeps_what_it_was_made_with() {
    let tool = ReadImageTool::new(Some(7u8), Some("ask"));
    assert_eq!(tool.permission, Some(7));
    assert_eq!(tool.ask_tx, Some("ask"));
}
