//! Which image format a file has, and whether it is animated.
use crate::bytes::{is_at, is_in};
use crate::text::ends_with_ignore_case;
use vstd::prelude::*;

verus! {

/// The image formats that can be handed on.
#[derive(Debug, Clone, Copy, PartialEq, Eq, Structural)]
pub enum ImageFormat {
    Jpeg,
    Png,
    Webp,
    Gif,
}

impl ImageFormat {
    pub open spec fn mime_text(self) -> Seq<char> {
        match self {
            ImageFormat::Jpeg => "image/jpeg"@,
            ImageFormat::Png => "image/png"@,
            ImageFormat::Webp => "image/webp"@,
            ImageFormat::Gif => "image/gif"@,
        }
    }

    pub open spec fn label_text(self) -> Seq<char> {
        match self {
            ImageFormat::Jpeg => "JPEG"@,
            ImageFormat::Png => "PNG"@,
            ImageFormat::Webp => "WebP"@,
            ImageFormat::Gif => "GIF"@,
        }
    }

    /// The MIME type.
    pub fn mime(&self) -> (mime: &'static str)
        ensures
            mime@ == self.mime_text(),
    {
        match self {
            ImageFormat::Jpeg => "image/jpeg",
            ImageFormat::Png => "image/png",
            ImageFormat::Webp => "image/webp",
            ImageFormat::Gif => "image/gif",
        }
    }

    /// The name shown to a human.
    pub fn label(&self) -> (label: &'static str)
        ensures
            label@ == self.label_text(),
    {
        match self {
            ImageFormat::Jpeg => "JPEG",
            ImageFormat::Png => "PNG",
            ImageFormat::Webp => "WebP",
            ImageFormat::Gif => "GIF",
        }
    }
}

/// The bytes that every PNG begins with.
pub open spec fn png_magic() -> Seq<u8> {
    seq![0x89u8, 0x50, 0x4E, 0x47, 0x0D, 0x0A, 0x1A, 0x0A]
}

/// The bytes that every JPEG begins with.
pub open spec fn jpeg_magic() -> Seq<u8> {
    seq![0xFFu8, 0xD8, 0xFF]
}

/// `GIF87a`
pub open spec fn gif87_magic() -> Seq<u8> {
    seq![0x47u8, 0x49, 0x46, 0x38, 0x37, 0x61]
}

/// `GIF89a`
pub open spec fn gif89_magic() -> Seq<u8> {
    seq![0x47u8, 0x49, 0x46, 0x38, 0x39, 0x61]
}

/// `RIFF`
pub open spec fn riff_magic() -> Seq<u8> {
    seq![0x52u8, 0x49, 0x46, 0x46]
}

/// `WEBP`, at the ninth byte of a RIFF file
pub open spec fn webp_magic() -> Seq<u8> {
    seq![0x57u8, 0x45, 0x42, 0x50]
}

/// The format that the first bytes of a file show.
pub open spec fn sniffed_format(data: Seq<u8>) -> Option<ImageFormat> {
    if crate::bytes::begins_with(data, png_magic()) {
        Some(ImageFormat::Png)
    } else if crate::bytes::begins_with(data, jpeg_magic()) {
        Some(ImageFormat::Jpeg)
    } else if crate::bytes::begins_with(data, gif87_magic()) || crate::bytes::begins_with(
        data,
        gif89_magic(),
    ) {
        Some(ImageFormat::Gif)
    } else if crate::bytes::begins_with(data, riff_magic()) && crate::bytes::stands_at(
        data,
        webp_magic(),
        8,
    ) {
        Some(ImageFormat::Webp)
    } else {
        None
    }
}

/// The format that the extension of a path names, in any case.
pub open spec fn extension_format(path: Seq<char>) -> Option<ImageFormat> {
    let lower = crate::text::ascii_lower(path);
    if crate::text::is_suffix(lower, ".jpg"@) || crate::text::is_suffix(lower, ".jpeg"@) {
        Some(ImageFormat::Jpeg)
    } else if crate::text::is_suffix(lower, ".png"@) {
        Some(ImageFormat::Png)
    } else if crate::text::is_suffix(lower, ".webp"@) {
        Some(ImageFormat::Webp)
    } else if crate::text::is_suffix(lower, ".gif"@) {
        Some(ImageFormat::Gif)
    } else {
        None
    }
}

/// The format of a file: what its bytes show, else what its extension names.
pub open spec fn format_of(data: Seq<u8>, path: Seq<char>) -> Option<ImageFormat> {
    match sniffed_format(data) {
        Some(format) => Some(format),
        None => extension_format(path),
    }
}

/// The format of the file at `path` that holds `data`.
pub fn detect_format(data: &[u8], path: &str) -> (format: Option<ImageFormat>)
    ensures
        format == format_of(data@, path@),
{
    let png: [u8; 8] = [0x89, 0x50, 0x4E, 0x47, 0x0D, 0x0A, 0x1A, 0x0A];
    let jpeg: [u8; 3] = [0xFF, 0xD8, 0xFF];
    let gif87: [u8; 6] = [0x47, 0x49, 0x46, 0x38, 0x37, 0x61];
    let gif89: [u8; 6] = [0x47, 0x49, 0x46, 0x38, 0x39, 0x61];
    let riff: [u8; 4] = [0x52, 0x49, 0x46, 0x46];
    let webp: [u8; 4] = [0x57, 0x45, 0x42, 0x50];
    assert(png@ =~= png_magic());
    assert(jpeg@ =~= jpeg_magic());
    assert(gif87@ =~= gif87_magic());
    assert(gif89@ =~= gif89_magic());
    assert(riff@ =~= riff_magic());
    assert(webp@ =~= webp_magic());
    if is_at(data, &png, 0) {
        return Some(ImageFormat::Png);
    }
    if is_at(data, &jpeg, 0) {
        return Some(ImageFormat::Jpeg);
    }
    if is_at(data, &gif87, 0) || is_at(data, &gif89, 0) {
        return Some(ImageFormat::Gif);
    }
    if data.len() >= 12 && is_at(data, &riff, 0) && is_at(data, &webp, 8) {
        return Some(ImageFormat::Webp);
    }
    // Fallback to extension for edge cases (e.g. truncated sniff window).
    if ends_with_ignore_case(path, ".jpg") || ends_with_ignore_case(path, ".jpeg") {
        return Some(ImageFormat::Jpeg);
    }
    if ends_with_ignore_case(path, ".png") {
        return Some(ImageFormat::Png);
    }
    if ends_with_ignore_case(path, ".webp") {
        return Some(ImageFormat::Webp);
    }
    if ends_with_ignore_case(path, ".gif") {
        return Some(ImageFormat::Gif);
    }
    None
}

/// `NETSCAPE2.0`, the application extension by which a GIF loops
pub open spec fn netscape_mark() -> Seq<u8> {
    seq![0x4Eu8, 0x45, 0x54, 0x53, 0x43, 0x41, 0x50, 0x45, 0x32, 0x2E, 0x30]
}

/// `ANIM`, the chunk that an animated WebP contains
pub open spec fn anim_mark() -> Seq<u8> {
    seq![0x41u8, 0x4E, 0x49, 0x4D]
}

/// A Graphic Control Extension begins at place `at`: 0x21 0xF9, and the size of
/// its block, which is four.
pub open spec fn control_at(data: Seq<u8>, at: int) -> bool {
    0 <= at && at + 3 <= data.len() && data[at] == 0x21 && data[at + 1] == 0xF9 && data[at + 2]
        == 0x04
}

/// An Image Descriptor may begin at place `at`: its introducing byte, with at
/// least one more byte behind it.
pub open spec fn descriptor_at(data: Seq<u8>, at: int) -> bool {
    0 <= at && at + 2 <= data.len() && data[at] == 0x2C
}

/// Genuine animated GIFs carry an Application Extension with NETSCAPE2.0, or
/// more than one Graphic Control Extension and more than one Image Descriptor.
/// Anything shorter than ten bytes is no GIF with frames.
pub open spec fn animated_gif(data: Seq<u8>) -> bool {
    &&& data.len() >= 10
    &&& {
        ||| crate::bytes::holds(data, netscape_mark())
        ||| {
            &&& exists|i: int, j: int| i < j && control_at(data, i) && control_at(data, j)
            &&& exists|i: int, j: int| i < j && descriptor_at(data, i) && descriptor_at(data, j)
        }
    }
}

/// Animated WebP contains an ANIM chunk.
pub open spec fn animated_webp(data: Seq<u8>) -> bool {
    crate::bytes::holds(data, anim_mark())
}

/// Two Graphic Control Extensions or more.
fn has_two_controls(data: &[u8]) -> (two: bool)
    ensures
        two == exists|i: int, j: int| i < j && control_at(data@, i) && control_at(data@, j),
{
    let len: usize = data.len();
    let mut first: Option<usize> = None;
    let mut i: usize = 0;
    while i < len
        invariant
            i <= len,
            len == data@.len(),
            match first {
                Some(k) => k < i && control_at(data@, k as int) && forall|j: int|
                    #![trigger control_at(data@, j)]
                    j < i && control_at(data@, j) ==> j == k,
                None => forall|j: int| j < i ==> !control_at(data@, j),
            },
        decreases len - i,
    {
        if len - i >= 3 && data[i] == 0x21 && data[i + 1] == 0xF9 && data[i + 2] == 0x04 {
            assert(control_at(data@, i as int));
            if first.is_some() {
                return true;
            }
            first = Some(i);
        }
        i = i + 1;
    }
    false
}

/// Two Image Descriptors or more.
fn has_two_descriptors(data: &[u8]) -> (two: bool)
    ensures
        two == exists|i: int, j: int| i < j && descriptor_at(data@, i) && descriptor_at(data@, j),
{
    let len: usize = data.len();
    let mut first: Option<usize> = None;
    let mut i: usize = 0;
    while i < len
        invariant
            i <= len,
            len == data@.len(),
            match first {
                Some(k) => k < i && descriptor_at(data@, k as int) && forall|j: int|
                    #![trigger descriptor_at(data@, j)]
                    j < i && descriptor_at(data@, j) ==> j == k,
                None => forall|j: int| j < i ==> !descriptor_at(data@, j),
            },
        decreases len - i,
    {
        if len - i >= 2 && data[i] == 0x2C {
            assert(descriptor_at(data@, i as int));
            if first.is_some() {
                return true;
            }
            first = Some(i);
        }
        i = i + 1;
    }
    false
}

/// Whether the bytes of a GIF hold an animation.
pub fn is_animated_gif(data: &[u8]) -> (animated: bool)
    ensures
        animated == animated_gif(data@),
{
    if data.len() < 10 {
        return false;
    }
    let netscape: [u8; 11] = [
        0x4E,
        0x45,
        0x54,
        0x53,
        0x43,
        0x41,
        0x50,
        0x45,
        0x32,
        0x2E,
        0x30,
    ];
    assert(netscape@ =~= netscape_mark());
    if is_in(data, &netscape) {
        return true;
    }
    // Some encoders emit one Graphic Control Extension per frame even for a
    // single frame with transparency, so require several Image Descriptors too.
    has_two_controls(data) && has_two_descriptors(data)
}

/// Whether the bytes of a WebP hold an animation.
pub fn is_animated_webp(data: &[u8]) -> (animated: bool)
    ensures
        animated == animated_webp(data@),
{
    let anim: [u8; 4] = [0x41, 0x4E, 0x49, 0x4D];
    assert(anim@ =~= anim_mark());
    is_in(data, &anim)
}

/// The bytes decide before the name: where they show a format, the path is
/// of no account.
pub proof fn law_bytes_decide_before_name(data: Seq<u8>, path: Seq<char>, other: Seq<char>)
    requires
        sniffed_format(data) is Some,
    ensures
        format_of(data, path) == sniffed_format(data),
        format_of(data, path) == format_of(data, other),
{
}

/// The case of the letters of a path does not matter.
pub proof fn law_extension_case_is_ignored(data: Seq<u8>, path: Seq<char>, other: Seq<char>)
    requires
        crate::text::ascii_lower(path) == crate::text::ascii_lower(other),
    ensures
        format_of(data, path) == format_of(data, other),
{
}

/// Each format has its own MIME type and its own label.
pub proof fn law_formats_have_their_own_names(a: ImageFormat, b: ImageFormat)
    ensures
        a.mime_text() == b.mime_text() ==> a == b,
        a.label_text() == b.label_text() ==> a == b,
{
    reveal_strlit("image/jpeg");
    reveal_strlit("image/png");
    reveal_strlit("image/webp");
    reveal_strlit("image/gif");
    reveal_strlit("JPEG");
    reveal_strlit("PNG");
    reveal_strlit("WebP");
    reveal_strlit("GIF");
    assert("image/png"@[6] != "image/gif"@[6]);
    assert("image/jpeg"@[6] != "image/webp"@[6]);
    assert("PNG"@[0] != "GIF"@[0]);
    assert("JPEG"@[0] != "WebP"@[0]);
}

/// What the first bytes of a file show, byte by byte: each format has its
/// signature, whatever follows it, and no file without a signature shows one.
pub proof fn law_signatures_decide(data: Seq<u8>)
    ensures
        sniffed_format(data) == Some(ImageFormat::Png) <==> {
            &&& data.len() >= 8
            &&& data[0] == 0x89 && data[1] == 0x50 && data[2] == 0x4E && data[3] == 0x47
            &&& data[4] == 0x0D && data[5] == 0x0A && data[6] == 0x1A && data[7] == 0x0A
        },
        sniffed_format(data) == Some(ImageFormat::Jpeg) <==> {
            &&& data.len() >= 3
            &&& data[0] == 0xFF && data[1] == 0xD8 && data[2] == 0xFF
        },
        sniffed_format(data) == Some(ImageFormat::Gif) <==> {
            &&& data.len() >= 6
            &&& data[0] == 0x47 && data[1] == 0x49 && data[2] == 0x46 && data[3] == 0x38
            &&& data[4] == 0x37 || data[4] == 0x39
            &&& data[5] == 0x61
        },
        sniffed_format(data) == Some(ImageFormat::Webp) <==> {
            &&& data.len() >= 12
            &&& data[0] == 0x52 && data[1] == 0x49 && data[2] == 0x46 && data[3] == 0x46
            &&& data[8] == 0x57 && data[9] == 0x45 && data[10] == 0x42 && data[11] == 0x50
        },
{
    lemma_eight(data, png_magic());
    lemma_three(data, jpeg_magic());
    lemma_six(data, gif87_magic());
    lemma_six(data, gif89_magic());
    lemma_four(data, riff_magic(), 0);
    lemma_four(data, webp_magic(), 8);
}

proof fn lemma_three(data: Seq<u8>, needle: Seq<u8>)
    requires
        needle.len() == 3,
    ensures
        crate::bytes::begins_with(data, needle) <==> data.len() >= 3 && data[0] == needle[0]
            && data[1] == needle[1] && data[2] == needle[2],
{
    crate::bytes::law_stands_at_is_bytewise(data, needle, 0);
    if crate::bytes::begins_with(data, needle) {
        assert(data[0int + 0] == needle[0] && data[0int + 1] == needle[1] && data[0int + 2] == needle[2]);
    }
}

proof fn lemma_four(data: Seq<u8>, needle: Seq<u8>, at: int)
    requires
        needle.len() == 4,
    ensures
        crate::bytes::stands_at(data, needle, at) <==> 0 <= at && at + 4 <= data.len() && data[at]
            == needle[0] && data[at + 1] == needle[1] && data[at + 2] == needle[2] && data[at + 3]
            == needle[3],
        at == 0 ==> crate::bytes::begins_with(data, needle) == crate::bytes::stands_at(
            data,
            needle,
            at,
        ),
{
    crate::bytes::law_stands_at_is_bytewise(data, needle, at);
    if crate::bytes::stands_at(data, needle, at) {
        assert(data[at + 0] == needle[0] && data[at + 1] == needle[1] && data[at + 2] == needle[2]
            && data[at + 3] == needle[3]);
    }
}

proof fn lemma_six(data: Seq<u8>, needle: Seq<u8>)
    requires
        needle.len() == 6,
    ensures
        crate::bytes::begins_with(data, needle) <==> data.len() >= 6 && data[0] == needle[0]
            && data[1] == needle[1] && data[2] == needle[2] && data[3] == needle[3] && data[4]
            == needle[4] && data[5] == needle[5],
{
    crate::bytes::law_stands_at_is_bytewise(data, needle, 0);
    if crate::bytes::begins_with(data, needle) {
        assert(data[0int + 0] == needle[0] && data[0int + 1] == needle[1] && data[0int + 2] == needle[2]
            && data[0int + 3] == needle[3] && data[0int + 4] == needle[4] && data[0int + 5] == needle[5]);
    }
}

proof fn lemma_eight(data: Seq<u8>, needle: Seq<u8>)
    requires
        needle.len() == 8,
    ensures
        crate::bytes::begins_with(data, needle) <==> data.len() >= 8 && data[0] == needle[0]
            && data[1] == needle[1] && data[2] == needle[2] && data[3] == needle[3] && data[4]
            == needle[4] && data[5] == needle[5] && data[6] == needle[6] && data[7] == needle[7],
{
    crate::bytes::law_stands_at_is_bytewise(data, needle, 0);
    if crate::bytes::begins_with(data, needle) {
        assert(data[0int + 0] == needle[0] && data[0int + 1] == needle[1] && data[0int + 2] == needle[2]
            && data[0int + 3] == needle[3] && data[0int + 4] == needle[4] && data[0int + 5] == needle[5]
            && data[0int + 6] == needle[6] && data[0int + 7] == needle[7]);
    }
}

/// A JPEG signature makes a JPEG, whatever follows and whatever the name; the
/// same holds of the other formats.
pub proof fn law_signature_makes_the_format(data: Seq<u8>, path: Seq<char>)
    ensures
        data.len() >= 3 && data[0] == 0xFF && data[1] == 0xD8 && data[2] == 0xFF ==> format_of(
            data,
            path,
        ) == Some(ImageFormat::Jpeg),
        data.len() >= 8 && data[0] == 0x89 && data[1] == 0x50 && data[2] == 0x4E && data[3] == 0x47
            && data[4] == 0x0D && data[5] == 0x0A && data[6] == 0x1A && data[7] == 0x0A
            ==> format_of(data, path) == Some(ImageFormat::Png),
        data.len() >= 6 && data[0] == 0x47 && data[1] == 0x49 && data[2] == 0x46 && data[3] == 0x38
            && (data[4] == 0x37 || data[4] == 0x39) && data[5] == 0x61 ==> format_of(data, path)
            == Some(ImageFormat::Gif),
        data.len() >= 12 && data[0] == 0x52 && data[1] == 0x49 && data[2] == 0x46 && data[3] == 0x46
            && data[8] == 0x57 && data[9] == 0x45 && data[10] == 0x42 && data[11] == 0x50
            ==> format_of(data, path) == Some(ImageFormat::Webp),
        sniffed_format(data) is None ==> format_of(data, path) == extension_format(path),
{
    law_signatures_decide(data);
}

/// What the end of a path names, character by character and in either case.
pub proof fn law_endings_decide(path: Seq<char>)
    ensures
        ({
            let n = path.len() as int;
            let e = |k: int, lower: char, upper: char|
                0 <= n - k && (path[n - k] == lower || path[n - k] == upper);
            &&& extension_format(path) == Some(ImageFormat::Jpeg) <==> {
                ||| e(4, '.', '.') && e(3, 'j', 'J') && e(2, 'p', 'P') && e(1, 'g', 'G')
                ||| e(5, '.', '.') && e(4, 'j', 'J') && e(3, 'p', 'P') && e(2, 'e', 'E') && e(
                    1,
                    'g',
                    'G',
                )
            }
            &&& extension_format(path) == Some(ImageFormat::Png) <==> e(4, '.', '.') && e(
                3,
                'p',
                'P',
            ) && e(2, 'n', 'N') && e(1, 'g', 'G')
            &&& extension_format(path) == Some(ImageFormat::Webp) <==> e(5, '.', '.') && e(
                4,
                'w',
                'W',
            ) && e(3, 'e', 'E') && e(2, 'b', 'B') && e(1, 'p', 'P')
            &&& extension_format(path) == Some(ImageFormat::Gif) <==> e(4, '.', '.') && e(
                3,
                'g',
                'G',
            ) && e(2, 'i', 'I') && e(1, 'f', 'F')
        }),
{
    reveal_strlit(".jpg");
    reveal_strlit(".jpeg");
    reveal_strlit(".png");
    reveal_strlit(".webp");
    reveal_strlit(".gif");
    lemma_ending_four(path, ".jpg"@);
    lemma_ending_five(path, ".jpeg"@);
    lemma_ending_four(path, ".png"@);
    lemma_ending_five(path, ".webp"@);
    lemma_ending_four(path, ".gif"@);
}

proof fn lemma_ending_four(path: Seq<char>, end: Seq<char>)
    requires
        end.len() == 4,
    ensures
        ({
            let n = path.len() as int;
            crate::text::is_suffix(crate::text::ascii_lower(path), end) <==> n >= 4
                && crate::text::lower_char(path[n - 4]) == end[0] && crate::text::lower_char(
                path[n - 3],
            ) == end[1] && crate::text::lower_char(path[n - 2]) == end[2]
                && crate::text::lower_char(path[n - 1]) == end[3]
        }),
{
    let lower = crate::text::ascii_lower(path);
    let n = path.len() as int;
    if n >= 4 {
        let tail = lower.skip(n - 4);
        assert(tail.len() == 4);
        assert(tail[0] == crate::text::lower_char(path[n - 4]));
        assert(tail[1] == crate::text::lower_char(path[n - 3]));
        assert(tail[2] == crate::text::lower_char(path[n - 2]));
        assert(tail[3] == crate::text::lower_char(path[n - 1]));
        if tail[0] == end[0] && tail[1] == end[1] && tail[2] == end[2] && tail[3] == end[3] {
            assert(tail =~= end);
        }
    }
}

proof fn lemma_ending_five(path: Seq<char>, end: Seq<char>)
    requires
        end.len() == 5,
    ensures
        ({
            let n = path.len() as int;
            crate::text::is_suffix(crate::text::ascii_lower(path), end) <==> n >= 5
                && crate::text::lower_char(path[n - 5]) == end[0] && crate::text::lower_char(
                path[n - 4],
            ) == end[1] && crate::text::lower_char(path[n - 3]) == end[2]
                && crate::text::lower_char(path[n - 2]) == end[3] && crate::text::lower_char(
                path[n - 1],
            ) == end[4]
        }),
{
    let lower = crate::text::ascii_lower(path);
    let n = path.len() as int;
    if n >= 5 {
        let tail = lower.skip(n - 5);
        assert(tail.len() == 5);
        assert(tail[0] == crate::text::lower_char(path[n - 5]));
        assert(tail[1] == crate::text::lower_char(path[n - 4]));
        assert(tail[2] == crate::text::lower_char(path[n - 3]));
        assert(tail[3] == crate::text::lower_char(path[n - 2]));
        assert(tail[4] == crate::text::lower_char(path[n - 1]));
        if tail[0] == end[0] && tail[1] == end[1] && tail[2] == end[2] && tail[3] == end[3]
            && tail[4] == end[4] {
            assert(tail =~= end);
        }
    }
}

/// A WebP is animated exactly when the bytes 41 4E 49 4D stand somewhere in it,
/// at whatever place.
pub proof fn law_anim_chunk_anywhere_animates(data: Seq<u8>)
    ensures
        animated_webp(data) <==> exists|i: int|
            #![trigger data[i]]
            0 <= i && i + 4 <= data.len() && data[i] == 0x41 && data[i + 1] == 0x4E && data[i + 2]
                == 0x49 && data[i + 3] == 0x4D,
{
    if animated_webp(data) {
        let at = choose|at: int| crate::bytes::stands_at(data, anim_mark(), at);
        lemma_four(data, anim_mark(), at);
        assert(data[at] == 0x41);
    }
    if exists|i: int|
        #![trigger data[i]]
        0 <= i && i + 4 <= data.len() && data[i] == 0x41 && data[i + 1] == 0x4E && data[i + 2]
            == 0x49 && data[i + 3] == 0x4D {
        let at = choose|i: int|
            #![trigger data[i]]
            0 <= i && i + 4 <= data.len() && data[i] == 0x41 && data[i + 1] == 0x4E && data[i + 2]
                == 0x49 && data[i + 3] == 0x4D;
        lemma_four(data, anim_mark(), at);
        crate::bytes::law_stands_at_is_bytewise(data, anim_mark(), at);
    }
}

/// A GIF is animated by the text NETSCAPE2.0 at whatever place, or by two
/// Graphic Control Extensions together with two Image Descriptors, and by
/// nothing else; what is shorter than ten bytes is not animated.
pub proof fn law_gif_marks_animate(data: Seq<u8>, at: int, c: int, d: int, e: int, f: int)
    ensures
        0 <= at && at + 11 <= data.len() && data[at] == 0x4E && data[at + 1] == 0x45 && data[at + 2]
            == 0x54 && data[at + 3] == 0x53 && data[at + 4] == 0x43 && data[at + 5] == 0x41
            && data[at + 6] == 0x50 && data[at + 7] == 0x45 && data[at + 8] == 0x32 && data[at + 9]
            == 0x2E && data[at + 10] == 0x30 ==> animated_gif(data),
        data.len() >= 10 && 0 <= c < d && d + 3 <= data.len() && data[c] == 0x21 && data[c + 1]
            == 0xF9 && data[c + 2] == 0x04 && data[d] == 0x21 && data[d + 1] == 0xF9 && data[d + 2]
            == 0x04 && 0 <= e < f && f + 2 <= data.len() && data[e] == 0x2C && data[f] == 0x2C
            ==> animated_gif(data),
        data.len() < 10 ==> !animated_gif(data),
{
    if 0 <= at && at + 11 <= data.len() && data[at] == 0x4E && data[at + 1] == 0x45 && data[at + 2]
        == 0x54 && data[at + 3] == 0x53 && data[at + 4] == 0x43 && data[at + 5] == 0x41 && data[at
        + 6] == 0x50 && data[at + 7] == 0x45 && data[at + 8] == 0x32 && data[at + 9] == 0x2E
        && data[at + 10] == 0x30 {
        assert(data.subrange(at, at + 11) =~= netscape_mark());
        assert(crate::bytes::stands_at(data, netscape_mark(), at));
    }
    if data.len() >= 10 && 0 <= c < d && d + 3 <= data.len() && data[c] == 0x21 && data[c + 1]
        == 0xF9 && data[c + 2] == 0x04 && data[d] == 0x21 && data[d + 1] == 0xF9 && data[d + 2]
        == 0x04 && 0 <= e < f && f + 2 <= data.len() && data[e] == 0x2C && data[f] == 0x2C {
        assert(control_at(data, c) && control_at(data, d));
        assert(descriptor_at(data, e) && descriptor_at(data, f));
    }
}

/// What an animated GIF holds, byte by byte.
pub proof fn law_animated_gif_has_marks(data: Seq<u8>)
    requires
        animated_gif(data),
    ensures
        data.len() >= 10,
        (exists|at: int|
            #![trigger data[at]]
            0 <= at && at + 11 <= data.len() && data[at] == 0x4E && data[at + 1] == 0x45 && data[at
                + 2] == 0x54 && data[at + 3] == 0x53 && data[at + 4] == 0x43 && data[at + 5] == 0x41
                && data[at + 6] == 0x50 && data[at + 7] == 0x45 && data[at + 8] == 0x32 && data[at
                + 9] == 0x2E && data[at + 10] == 0x30) || ({
            &&& exists|c: int, d: int|
                #![trigger data[c], data[d]]
                0 <= c < d && d + 3 <= data.len() && data[c] == 0x21 && data[c + 1] == 0xF9
                    && data[c + 2] == 0x04 && data[d] == 0x21 && data[d + 1] == 0xF9 && data[d + 2]
                    == 0x04
            &&& exists|e: int, f: int|
                #![trigger data[e], data[f]]
                0 <= e < f && f + 2 <= data.len() && data[e] == 0x2C && data[f] == 0x2C
        }),
{
    if crate::bytes::holds(data, netscape_mark()) {
        let mark = netscape_mark();
        let at = choose|at: int| crate::bytes::stands_at(data, mark, at);
        let window = data.subrange(at, at + 11);
        assert(window == mark);
        assert(window[0] == mark[0] && window[1] == mark[1] && window[2] == mark[2] && window[3]
            == mark[3] && window[4] == mark[4] && window[5] == mark[5] && window[6] == mark[6]
            && window[7] == mark[7] && window[8] == mark[8] && window[9] == mark[9] && window[10]
            == mark[10]);
        assert(data[at] == 0x4E);
    } else {
        let (c, d) = choose|i: int, j: int| i < j && control_at(data, i) && control_at(data, j);
        assert(data[c] == 0x21 && data[d] == 0x21);
        let (e, f) = choose|i: int, j: int|
            i < j && descriptor_at(data, i) && descriptor_at(data, j);
        assert(data[e] == 0x2C && data[f] == 0x2C);
    }
}

/// The MIME type of a format is its label in lower case, as an image type, and
/// the label shows the format.
pub proof fn law_mime_follows_label(format: ImageFormat)
    ensures
        format.mime_text() == "image/"@ + crate::text::ascii_lower(format.label_text()),
        format == ImageFormat::Jpeg <==> format.label_text() == seq!['J', 'P', 'E', 'G'],
        format == ImageFormat::Png <==> format.label_text() == seq!['P', 'N', 'G'],
        format == ImageFormat::Webp <==> format.label_text() == seq!['W', 'e', 'b', 'P'],
        format == ImageFormat::Gif <==> format.label_text() == seq!['G', 'I', 'F'],
{
    reveal_strlit("image/");
    reveal_strlit("image/jpeg");
    reveal_strlit("image/png");
    reveal_strlit("image/webp");
    reveal_strlit("image/gif");
    reveal_strlit("JPEG");
    reveal_strlit("PNG");
    reveal_strlit("WebP");
    reveal_strlit("GIF");
    match format {
        ImageFormat::Jpeg => assert(format.label_text() =~= seq!['J', 'P', 'E', 'G']),
        ImageFormat::Png => assert(format.label_text() =~= seq!['P', 'N', 'G']),
        ImageFormat::Webp => assert(format.label_text() =~= seq!['W', 'e', 'b', 'P']),
        ImageFormat::Gif => assert(format.label_text() =~= seq!['G', 'I', 'F']),
    }
    assert(seq!['J', 'P', 'E', 'G'][0] == 'J' && seq!['P', 'N', 'G'][0] == 'P');
    assert(seq!['W', 'e', 'b', 'P'][0] == 'W' && seq!['G', 'I', 'F'][0] == 'G');
    assert(format.mime_text() =~= "image/"@ + crate::text::ascii_lower(format.label_text()));
}

} // verus!
