//! What the image tool says to the agent.
use crate::text::append_decimal;
use vstd::prelude::*;

verus! {

/// The file's size on disk exceeds the limit.
pub open spec fn too_big_on_disk(path: Seq<char>, len: nat) -> Seq<char> {
    "read_image: '"@
        + path
        + "' is "@
        + crate::text::decimal(len)
        + " bytes, exceeds the 5MB limit (5_242_880 bytes). file is too big use "@
        + "magick"@
        + " cli tool to convert it or downscale it — e.g. `magick \""@
        + path
        + "\" -resize 2048x2048\\> -quality 85 /tmp/out.jpg` then read that file"@
}

pub(crate) fn too_big_on_disk_text(path: &str, len: u64) -> (text: String)
    ensures
        text@ == too_big_on_disk(path@, len as nat),
{
    let mut text: String = "read_image: '".to_owned();
    text.append(path);
    text.append("' is ");
    append_decimal(&mut text, len);
    text.append(" bytes, exceeds the 5MB limit (5_242_880 bytes). file is too big use ");
    text.append("magick");
    text.append(" cli tool to convert it or downscale it — e.g. `magick \"");
    text.append(path);
    text.append("\" -resize 2048x2048\\> -quality 85 /tmp/out.jpg` then read that file");
    text
}

/// More bytes were read than the limit allows.
pub open spec fn too_big_in_memory(path: Seq<char>, len: nat) -> Seq<char> {
    "read_image: '"@
        + path
        + "' is "@
        + crate::text::decimal(len)
        + " bytes, exceeds the 5MB limit. file is too big use "@
        + "magick"@
        + " cli tool to convert it or downscale it — e.g. `magick \""@
        + path
        + "\" -resize 2048x2048\\> /tmp/out.jpg`"@
}

pub(crate) fn too_big_in_memory_text(path: &str, len: u64) -> (text: String)
    ensures
        text@ == too_big_in_memory(path@, len as nat),
{
    let mut text: String = "read_image: '".to_owned();
    text.append(path);
    text.append("' is ");
    append_decimal(&mut text, len);
    text.append(" bytes, exceeds the 5MB limit. file is too big use ");
    text.append("magick");
    text.append(" cli tool to convert it or downscale it — e.g. `magick \"");
    text.append(path);
    text.append("\" -resize 2048x2048\\> /tmp/out.jpg`");
    text
}

/// The file has none of the supported formats.
pub open spec fn unsupported(path: Seq<char>) -> Seq<char> {
    "read_image: '"@
        + path
        + "' is not a supported image format. Supported: JPEG, PNG, WebP, non-animated GIF. Use "@
        + "magick"@
        + " cli tool to convert it to jpg or png — e.g. `magick \""@
        + path
        + "\" /tmp/out.jpg` then read that file"@
}

pub(crate) fn unsupported_text(path: &str) -> (text: String)
    ensures
        text@ == unsupported(path@),
{
    let mut text: String = "read_image: '".to_owned();
    text.append(path);
    text.append("' is not a supported image format. Supported: JPEG, PNG, WebP, non-animated GIF. Use ");
    text.append("magick");
    text.append(" cli tool to convert it to jpg or png — e.g. `magick \"");
    text.append(path);
    text.append("\" /tmp/out.jpg` then read that file");
    text
}

/// The file is an animated GIF.
pub open spec fn gif_moves(path: Seq<char>) -> Seq<char> {
    "read_image: '"@
        + path
        + "' is an animated GIF, which is not supported (stills only). Use "@
        + "magick"@
        + " cli tool to convert it to jpg or png — e.g. `magick \""@
        + path
        + "\"[0] /tmp/out.png` (first frame) then read that file"@
}

pub(crate) fn gif_moves_text(path: &str) -> (text: String)
    ensures
        text@ == gif_moves(path@),
{
    let mut text: String = "read_image: '".to_owned();
    text.append(path);
    text.append("' is an animated GIF, which is not supported (stills only). Use ");
    text.append("magick");
    text.append(" cli tool to convert it to jpg or png — e.g. `magick \"");
    text.append(path);
    text.append("\"[0] /tmp/out.png` (first frame) then read that file");
    text
}

/// The file is an animated WebP.
pub open spec fn webp_moves(path: Seq<char>) -> Seq<char> {
    "read_image: '"@
        + path
        + "' is an animated WebP, which is not supported (stills only). Use "@
        + "magick"@
        + " cli tool to convert it to jpg or png — e.g. `magick \""@
        + path
        + "\" /tmp/out.jpg` then read that file"@
}

pub(crate) fn webp_moves_text(path: &str) -> (text: String)
    ensures
        text@ == webp_moves(path@),
{
    let mut text: String = "read_image: '".to_owned();
    text.append(path);
    text.append("' is an animated WebP, which is not supported (stills only). Use ");
    text.append("magick");
    text.append(" cli tool to convert it to jpg or png — e.g. `magick \"");
    text.append(path);
    text.append("\" /tmp/out.jpg` then read that file");
    text
}

/// The header of the image shows no width and height.
pub open spec fn no_dimensions(path: Seq<char>, reason: Seq<char>) -> Seq<char> {
    "read_image: '"@
        + path
        + "' — cannot parse image dimensions ("@
        + reason
        + "). Use "@
        + "magick"@
        + " cli tool to convert it to jpg or png — e.g. `magick \""@
        + path
        + "\" /tmp/out.jpg`"@
}

pub(crate) fn no_dimensions_text(path: &str, reason: &str) -> (text: String)
    ensures
        text@ == no_dimensions(path@, reason@),
{
    let mut text: String = "read_image: '".to_owned();
    text.append(path);
    text.append("' — cannot parse image dimensions (");
    text.append(reason);
    text.append("). Use ");
    text.append("magick");
    text.append(" cli tool to convert it to jpg or png — e.g. `magick \"");
    text.append(path);
    text.append("\" /tmp/out.jpg`");
    text
}

/// The image is wider or higher than allowed.
pub open spec fn too_many_pixels(path: Seq<char>, width: nat, height: nat) -> Seq<char> {
    "read_image: '"@
        + path
        + "' is "@
        + crate::text::decimal(width)
        + "x"@
        + crate::text::decimal(height)
        + ", exceeds the 2048px max dimension. file is too big use "@
        + "magick"@
        + " cli tool to convert it or downscale it — e.g. `magick \""@
        + path
        + "\" -resize 2048x2048\\> /tmp/out.jpg` then read that file"@
}

pub(crate) fn too_many_pixels_text(path: &str, width: u64, height: u64) -> (text: String)
    ensures
        text@ == too_many_pixels(path@, width as nat, height as nat),
{
    let mut text: String = "read_image: '".to_owned();
    text.append(path);
    text.append("' is ");
    append_decimal(&mut text, width);
    text.append("x");
    append_decimal(&mut text, height);
    text.append(", exceeds the 2048px max dimension. file is too big use ");
    text.append("magick");
    text.append(" cli tool to convert it or downscale it — e.g. `magick \"");
    text.append(path);
    text.append("\" -resize 2048x2048\\> /tmp/out.jpg` then read that file");
    text
}

/// The size of the file could not be had.
pub open spec fn cannot_stat(path: Seq<char>, reason: Seq<char>) -> Seq<char> {
    "read_image: cannot stat '"@
        + path
        + "': "@
        + reason
}

pub(crate) fn cannot_stat_text(path: &str, reason: &str) -> (text: String)
    ensures
        text@ == cannot_stat(path@, reason@),
{
    let mut text: String = "read_image: cannot stat '".to_owned();
    text.append(path);
    text.append("': ");
    text.append(reason);
    text
}

/// The file could not be read.
pub open spec fn cannot_read(path: Seq<char>, reason: Seq<char>) -> Seq<char> {
    "read_image: cannot read '"@
        + path
        + "': "@
        + reason
}

pub(crate) fn cannot_read_text(path: &str, reason: &str) -> (text: String)
    ensures
        text@ == cannot_read(path@, reason@),
{
    let mut text: String = "read_image: cannot read '".to_owned();
    text.append(path);
    text.append("': ");
    text.append(reason);
    text
}

/// What the agent is told of an image that it gets.
pub open spec fn image_note(path: Seq<char>, label: Seq<char>, width: nat, height: nat, len: nat) -> Seq<char> {
    "Image '"@
        + path
        + "' ("@
        + label
        + " "@
        + crate::text::decimal(width)
        + "x"@
        + crate::text::decimal(height)
        + ", "@
        + crate::text::decimal(len)
        + " bytes) — base64 follows in the image channel."@
}

pub(crate) fn image_note_text(path: &str, label: &str, width: u64, height: u64, len: u64) -> (text: String)
    ensures
        text@ == image_note(path@, label@, width as nat, height as nat, len as nat),
{
    let mut text: String = "Image '".to_owned();
    text.append(path);
    text.append("' (");
    text.append(label);
    text.append(" ");
    append_decimal(&mut text, width);
    text.append("x");
    append_decimal(&mut text, height);
    text.append(", ");
    append_decimal(&mut text, len);
    text.append(" bytes) — base64 follows in the image channel.");
    text
}

pub(crate) proof fn lemma_too_big_on_disk(path: Seq<char>, len: nat)
    ensures
        crate::text::mentions(too_big_on_disk(path, len), "magick"@),
{
    crate::text::lemma_mentions(
        too_big_on_disk(path, len),
        "read_image: '"@ + path + "' is "@ + crate::text::decimal(len) + " bytes, exceeds the 5MB limit (5_242_880 bytes). file is too big use "@,
        "magick"@,
        " cli tool to convert it or downscale it — e.g. `magick \""@ + path + "\" -resize 2048x2048\\> -quality 85 /tmp/out.jpg` then read that file"@,
    );
}

pub(crate) proof fn lemma_too_big_in_memory(path: Seq<char>, len: nat)
    ensures
        crate::text::mentions(too_big_in_memory(path, len), "magick"@),
{
    crate::text::lemma_mentions(
        too_big_in_memory(path, len),
        "read_image: '"@ + path + "' is "@ + crate::text::decimal(len) + " bytes, exceeds the 5MB limit. file is too big use "@,
        "magick"@,
        " cli tool to convert it or downscale it — e.g. `magick \""@ + path + "\" -resize 2048x2048\\> /tmp/out.jpg`"@,
    );
}

pub(crate) proof fn lemma_unsupported(path: Seq<char>)
    ensures
        crate::text::mentions(unsupported(path), "magick"@),
{
    crate::text::lemma_mentions(
        unsupported(path),
        "read_image: '"@ + path + "' is not a supported image format. Supported: JPEG, PNG, WebP, non-animated GIF. Use "@,
        "magick"@,
        " cli tool to convert it to jpg or png — e.g. `magick \""@ + path + "\" /tmp/out.jpg` then read that file"@,
    );
}

pub(crate) proof fn lemma_gif_moves(path: Seq<char>)
    ensures
        crate::text::mentions(gif_moves(path), "magick"@),
{
    crate::text::lemma_mentions(
        gif_moves(path),
        "read_image: '"@ + path + "' is an animated GIF, which is not supported (stills only). Use "@,
        "magick"@,
        " cli tool to convert it to jpg or png — e.g. `magick \""@ + path + "\"[0] /tmp/out.png` (first frame) then read that file"@,
    );
}

pub(crate) proof fn lemma_webp_moves(path: Seq<char>)
    ensures
        crate::text::mentions(webp_moves(path), "magick"@),
{
    crate::text::lemma_mentions(
        webp_moves(path),
        "read_image: '"@ + path + "' is an animated WebP, which is not supported (stills only). Use "@,
        "magick"@,
        " cli tool to convert it to jpg or png — e.g. `magick \""@ + path + "\" /tmp/out.jpg` then read that file"@,
    );
}

pub(crate) proof fn lemma_no_dimensions(path: Seq<char>, reason: Seq<char>)
    ensures
        crate::text::mentions(no_dimensions(path, reason), "magick"@),
{
    crate::text::lemma_mentions(
        no_dimensions(path, reason),
        "read_image: '"@ + path + "' — cannot parse image dimensions ("@ + reason + "). Use "@,
        "magick"@,
        " cli tool to convert it to jpg or png — e.g. `magick \""@ + path + "\" /tmp/out.jpg`"@,
    );
}

pub(crate) proof fn lemma_too_many_pixels(path: Seq<char>, width: nat, height: nat)
    ensures
        crate::text::mentions(too_many_pixels(path, width, height), "magick"@),
{
    crate::text::lemma_mentions(
        too_many_pixels(path, width, height),
        "read_image: '"@ + path + "' is "@ + crate::text::decimal(width) + "x"@ + crate::text::decimal(height) + ", exceeds the 2048px max dimension. file is too big use "@,
        "magick"@,
        " cli tool to convert it or downscale it — e.g. `magick \""@ + path + "\" -resize 2048x2048\\> /tmp/out.jpg` then read that file"@,
    );
}

/// The words of the refusal by size on disk are the same for all files: only
/// the path, quoted twice, and the number of bytes differ.
pub proof fn law_too_big_on_disk_words(path: Seq<char>, len: nat, other_path: Seq<char>, other_len: nat)
    ensures
        exists|a: Seq<char>, b: Seq<char>, c: Seq<char>, d: Seq<char>|
            too_big_on_disk(path, len) == #[trigger] (a + path + b + crate::text::decimal(len) + c + path + d) && too_big_on_disk(other_path, other_len) == a + other_path + b + crate::text::decimal(other_len) + c + other_path + d,
{
    let a = "read_image: '"@;
    let b = "' is "@;
    let c = " bytes, exceeds the 5MB limit (5_242_880 bytes). file is too big use "@ + "magick"@ + " cli tool to convert it or downscale it — e.g. `magick \""@;
    let d = "\" -resize 2048x2048\\> -quality 85 /tmp/out.jpg` then read that file"@;
    assert(too_big_on_disk(path, len) =~= a + path + b + crate::text::decimal(len) + c + path + d);
    assert(too_big_on_disk(other_path, other_len) =~= a + other_path + b + crate::text::decimal(other_len) + c + other_path + d);
}

/// The words of the refusal by number of bytes are the same for all files: only
/// the path, quoted twice, and the number of bytes differ.
pub proof fn law_too_big_in_memory_words(path: Seq<char>, len: nat, other_path: Seq<char>, other_len: nat)
    ensures
        exists|a: Seq<char>, b: Seq<char>, c: Seq<char>, d: Seq<char>|
            too_big_in_memory(path, len) == #[trigger] (a + path + b + crate::text::decimal(len) + c + path + d) && too_big_in_memory(other_path, other_len) == a + other_path + b + crate::text::decimal(other_len) + c + other_path + d,
{
    let a = "read_image: '"@;
    let b = "' is "@;
    let c = " bytes, exceeds the 5MB limit. file is too big use "@ + "magick"@ + " cli tool to convert it or downscale it — e.g. `magick \""@;
    let d = "\" -resize 2048x2048\\> /tmp/out.jpg`"@;
    assert(too_big_in_memory(path, len) =~= a + path + b + crate::text::decimal(len) + c + path + d);
    assert(too_big_in_memory(other_path, other_len) =~= a + other_path + b + crate::text::decimal(other_len) + c + other_path + d);
}

/// The words of the refusal by format are the same for all files: only the
/// path, quoted twice, differs.
pub proof fn law_unsupported_words(path: Seq<char>, other_path: Seq<char>)
    ensures
        exists|a: Seq<char>, b: Seq<char>, c: Seq<char>|
            unsupported(path) == #[trigger] (a + path + b + path + c) && unsupported(other_path) == a + other_path + b + other_path + c,
{
    let a = "read_image: '"@;
    let b = "' is not a supported image format. Supported: JPEG, PNG, WebP, non-animated GIF. Use "@ + "magick"@ + " cli tool to convert it to jpg or png — e.g. `magick \""@;
    let c = "\" /tmp/out.jpg` then read that file"@;
    assert(unsupported(path) =~= a + path + b + path + c);
    assert(unsupported(other_path) =~= a + other_path + b + other_path + c);
}

/// The words of the refusal of an animated GIF are the same for all files: only
/// the path, quoted twice, differs.
pub proof fn law_gif_moves_words(path: Seq<char>, other_path: Seq<char>)
    ensures
        exists|a: Seq<char>, b: Seq<char>, c: Seq<char>|
            gif_moves(path) == #[trigger] (a + path + b + path + c) && gif_moves(other_path) == a + other_path + b + other_path + c,
{
    let a = "read_image: '"@;
    let b = "' is an animated GIF, which is not supported (stills only). Use "@ + "magick"@ + " cli tool to convert it to jpg or png — e.g. `magick \""@;
    let c = "\"[0] /tmp/out.png` (first frame) then read that file"@;
    assert(gif_moves(path) =~= a + path + b + path + c);
    assert(gif_moves(other_path) =~= a + other_path + b + other_path + c);
}

/// The words of the refusal of an animated WebP are the same for all files:
/// only the path, quoted twice, differs.
pub proof fn law_webp_moves_words(path: Seq<char>, other_path: Seq<char>)
    ensures
        exists|a: Seq<char>, b: Seq<char>, c: Seq<char>|
            webp_moves(path) == #[trigger] (a + path + b + path + c) && webp_moves(other_path) == a + other_path + b + other_path + c,
{
    let a = "read_image: '"@;
    let b = "' is an animated WebP, which is not supported (stills only). Use "@ + "magick"@ + " cli tool to convert it to jpg or png — e.g. `magick \""@;
    let c = "\" /tmp/out.jpg` then read that file"@;
    assert(webp_moves(path) =~= a + path + b + path + c);
    assert(webp_moves(other_path) =~= a + other_path + b + other_path + c);
}

/// The words of the refusal for want of dimensions are the same for all files:
/// only the path, quoted twice, and the reason differ.
pub proof fn law_no_dimensions_words(path: Seq<char>, reason: Seq<char>, other_path: Seq<char>, other_reason: Seq<char>)
    ensures
        exists|a: Seq<char>, b: Seq<char>, c: Seq<char>, d: Seq<char>|
            no_dimensions(path, reason) == #[trigger] (a + path + b + reason + c + path + d) && no_dimensions(other_path, other_reason) == a + other_path + b + other_reason + c + other_path + d,
{
    let a = "read_image: '"@;
    let b = "' — cannot parse image dimensions ("@;
    let c = "). Use "@ + "magick"@ + " cli tool to convert it to jpg or png — e.g. `magick \""@;
    let d = "\" /tmp/out.jpg`"@;
    assert(no_dimensions(path, reason) =~= a + path + b + reason + c + path + d);
    assert(no_dimensions(other_path, other_reason) =~= a + other_path + b + other_reason + c + other_path + d);
}

/// The words of the refusal by dimensions are the same for all files: only the
/// path, quoted twice, the width and then the height differ.
pub proof fn law_too_many_pixels_words(path: Seq<char>, width: nat, height: nat, other_path: Seq<char>, other_width: nat, other_height: nat)
    ensures
        exists|a: Seq<char>, b: Seq<char>, c: Seq<char>, d: Seq<char>, e: Seq<char>|
            too_many_pixels(path, width, height) == #[trigger] (a + path + b + crate::text::decimal(width) + c + crate::text::decimal(height) + d + path + e) && too_many_pixels(other_path, other_width, other_height) == a + other_path + b + crate::text::decimal(other_width) + c + crate::text::decimal(other_height) + d + other_path + e,
{
    let a = "read_image: '"@;
    let b = "' is "@;
    let c = "x"@;
    let d = ", exceeds the 2048px max dimension. file is too big use "@ + "magick"@ + " cli tool to convert it or downscale it — e.g. `magick \""@;
    let e = "\" -resize 2048x2048\\> /tmp/out.jpg` then read that file"@;
    assert(too_many_pixels(path, width, height) =~= a + path + b + crate::text::decimal(width) + c + crate::text::decimal(height) + d + path + e);
    assert(too_many_pixels(other_path, other_width, other_height) =~= a + other_path + b + crate::text::decimal(other_width) + c + crate::text::decimal(other_height) + d + other_path + e);
}

/// The words for a size that cannot be had are the same for all files: only the
/// path and then the reason differ.
pub proof fn law_cannot_stat_words(path: Seq<char>, reason: Seq<char>, other_path: Seq<char>, other_reason: Seq<char>)
    ensures
        exists|a: Seq<char>, b: Seq<char>|
            cannot_stat(path, reason) == #[trigger] (a + path + b + reason) && cannot_stat(other_path, other_reason) == a + other_path + b + other_reason,
{
    let a = "read_image: cannot stat '"@;
    let b = "': "@;
    assert(cannot_stat(path, reason) =~= a + path + b + reason);
    assert(cannot_stat(other_path, other_reason) =~= a + other_path + b + other_reason);
}

/// The words for a file that cannot be read are the same for all files: only
/// the path and then the reason differ.
pub proof fn law_cannot_read_words(path: Seq<char>, reason: Seq<char>, other_path: Seq<char>, other_reason: Seq<char>)
    ensures
        exists|a: Seq<char>, b: Seq<char>|
            cannot_read(path, reason) == #[trigger] (a + path + b + reason) && cannot_read(other_path, other_reason) == a + other_path + b + other_reason,
{
    let a = "read_image: cannot read '"@;
    let b = "': "@;
    assert(cannot_read(path, reason) =~= a + path + b + reason);
    assert(cannot_read(other_path, other_reason) =~= a + other_path + b + other_reason);
}

/// The words of the note are the same for all images: only the path, the label,
/// the width, the height and the number of bytes differ, in this order.
pub proof fn law_image_note_words(path: Seq<char>, label: Seq<char>, width: nat, height: nat, len: nat, other_path: Seq<char>, other_label: Seq<char>, other_width: nat, other_height: nat, other_len: nat)
    ensures
        exists|a: Seq<char>, b: Seq<char>, c: Seq<char>, d: Seq<char>, e: Seq<char>, f: Seq<char>|
            image_note(path, label, width, height, len) == #[trigger] (a + path + b + label + c + crate::text::decimal(width) + d + crate::text::decimal(height) + e + crate::text::decimal(len) + f) && image_note(other_path, other_label, other_width, other_height, other_len) == a + other_path + b + other_label + c + crate::text::decimal(other_width) + d + crate::text::decimal(other_height) + e + crate::text::decimal(other_len) + f,
{
    let a = "Image '"@;
    let b = "' ("@;
    let c = " "@;
    let d = "x"@;
    let e = ", "@;
    let f = " bytes) — base64 follows in the image channel."@;
    assert(image_note(path, label, width, height, len) =~= a + path + b + label + c + crate::text::decimal(width) + d + crate::text::decimal(height) + e + crate::text::decimal(len) + f);
    assert(image_note(other_path, other_label, other_width, other_height, other_len) =~= a + other_path + b + other_label + c + crate::text::decimal(other_width) + d + crate::text::decimal(other_height) + e + crate::text::decimal(other_len) + f);
}

} // verus!
