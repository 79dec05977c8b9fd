//! Images that go with a message: how they are handed to the daemon, kept in the
//! queue, and shown.
use crate::echo::{QueuedPrompt, QueuedPromptAttachment};
use crate::placeholder::PastedImage;
use crate::editor::LiveSubmission;
use crate::remote::IpcFrame;
use crate::text::{decimal, decimal_text, same, wide_decimal_text};
use base64::Engine;
use vstd::prelude::*;
use vstd::string::*;

verus! {

/// An image on its way to the daemon.
#[derive(Debug)]
pub enum ImageAttachment {
    Binary { mime: String, data: Vec<u8> },
    Path { path: String },
}

/// The attachment says of the image what is known of it.
pub open spec fn carries(attachment: ImageAttachment, image: PastedImage) -> bool {
    match (attachment, image) {
        (
            ImageAttachment::Binary { mime, data },
            PastedImage::Binary { mime: wanted, data: bytes },
        ) => mime@ == wanted@ && data@ == bytes@,
        (ImageAttachment::Path { path }, PastedImage::Path(wanted)) => path@ == wanted@,
        _ => false,
    }
}

fn copy_bytes(data: &Vec<u8>) -> (r: Vec<u8>)
    ensures
        r@ == data@,
{
    let mut r: Vec<u8> = Vec::new();
    r.extend_from_slice(data.as_slice());
    assert(r@ =~= data@);
    r
}

/// The images of a message, in their slots; an empty slot stays empty.
pub fn ipc_images(images: &Vec<Option<PastedImage>>) -> (r: Vec<Option<ImageAttachment>>)
    ensures
        r@.len() == images@.len(),
        forall|i: int|
            0 <= i < r@.len() ==> match (#[trigger] r@[i], images@[i]) {
                (Some(attachment), Some(image)) => carries(attachment, image),
                (None, None) => true,
                _ => false,
            },
{
    let mut out: Vec<Option<ImageAttachment>> = Vec::new();
    let mut i: usize = 0;
    while i < images.len()
        invariant
            i <= images@.len(),
            out@.len() == i,
            forall|k: int|
                0 <= k < i ==> match (#[trigger] out@[k], images@[k]) {
                    (Some(attachment), Some(image)) => carries(attachment, image),
                    (None, None) => true,
                    _ => false,
                },
        decreases images@.len() - i,
    {
        let slot = match &images[i] {
            Some(PastedImage::Binary { mime, data }) => Some(
                ImageAttachment::Binary { mime: mime.clone(), data: copy_bytes(data) },
            ),
            Some(PastedImage::Path(path)) => Some(ImageAttachment::Path { path: path.clone() }),
            None => None,
        };
        out.push(slot);
        i = i + 1;
    }
    out
}

/// The character for six bits.
pub open spec fn base64_char(n: int) -> char {
    if n < 26 {
        (('A' as int) + n) as char
    } else if n < 52 {
        (('a' as int) + n - 26) as char
    } else if n < 62 {
        (('0' as int) + n - 52) as char
    } else if n == 62 {
        '+'
    } else {
        '/'
    }
}

/// Bytes in base64: three bytes are four characters of six bits each, and the
/// last group is filled up with equals signs.
pub open spec fn base64_text(s: Seq<u8>) -> Seq<char>
    decreases s.len(),
{
    if s.len() == 0 {
        Seq::empty()
    } else if s.len() == 1 {
        seq![base64_char(s[0] as int / 4), base64_char(s[0] as int % 4 * 16), '=', '=']
    } else if s.len() == 2 {
        seq![
            base64_char(s[0] as int / 4),
            base64_char(s[0] as int % 4 * 16 + s[1] as int / 16),
            base64_char(s[1] as int % 16 * 4),
            '=',
        ]
    } else {
        seq![
            base64_char(s[0] as int / 4),
            base64_char(s[0] as int % 4 * 16 + s[1] as int / 16),
            base64_char(s[1] as int % 16 * 4 + s[2] as int / 64),
            base64_char(s[2] as int % 64),
        ] + base64_text(s.skip(3))
    }
}

/// Three bytes make four characters, the last group included.
pub proof fn law_base64_length(s: Seq<u8>)
    ensures
        base64_text(s).len() == (s.len() + 2) / 3 * 4,
    decreases s.len(),
{
    if s.len() > 2 {
        law_base64_length(s.skip(3));
    }
}

/// The encoded text can be held in memory.
pub open spec fn encodable(data: Seq<u8>) -> bool {
    (data.len() + 2) / 3 * 4 <= isize::MAX
}

/// `Engine::encode` of the `base64` crate's standard engine: the standard
/// alphabet, with padding.
#[verifier::external_body]
fn encode_base64(data: &Vec<u8>) -> (r: String)
    requires
        encodable(data@),
    ensures
        r@ == base64_text(data@),
{
    base64::engine::general_purpose::STANDARD.encode(data)
}

/// What is kept of an attachment, as text.
pub enum Kept {
    Binary(Seq<char>, Seq<char>),
    Path(Seq<char>),
}

pub open spec fn kept_of(attachment: QueuedPromptAttachment) -> Kept {
    match attachment {
        QueuedPromptAttachment::Binary { mime, data_base64 } => Kept::Binary(mime@, data_base64@),
        QueuedPromptAttachment::Path { path } => Kept::Path(path@),
    }
}

pub open spec fn kept(v: Seq<QueuedPromptAttachment>) -> Seq<Kept> {
    v.map_values(|a: QueuedPromptAttachment| kept_of(a))
}

/// What is kept of the first `n` images: the empty slots are left out.
pub open spec fn kept_images(images: Seq<Option<PastedImage>>, n: int) -> Seq<Kept>
    decreases n,
{
    if n <= 0 {
        Seq::empty()
    } else {
        let before = kept_images(images, n - 1);
        match images[n - 1] {
            Some(PastedImage::Binary { mime, data }) => before.push(
                Kept::Binary(mime@, base64_text(data@)),
            ),
            Some(PastedImage::Path(path)) => before.push(Kept::Path(path@)),
            None => before,
        }
    }
}

/// Every image can be held in memory as text.
pub open spec fn all_encodable(images: Seq<Option<PastedImage>>) -> bool {
    forall|i: int|
        0 <= i < images.len() ==> match #[trigger] images[i] {
            Some(PastedImage::Binary { data, .. }) => encodable(data@),
            _ => true,
        }
}

/// Whether every image can be held in memory as text.
pub fn can_encode(images: &Vec<Option<PastedImage>>) -> (r: bool)
    ensures
        r == all_encodable(images@),
{
    let limit: usize = isize::MAX as usize / 4;
    let mut i: usize = 0;
    while i < images.len()
        invariant
            i <= images@.len(),
            limit == isize::MAX / 4,
            forall|k: int|
                0 <= k < i ==> match #[trigger] images@[k] {
                    Some(PastedImage::Binary { data, .. }) => encodable(data@),
                    _ => true,
                },
        decreases images@.len() - i,
    {
        if let Some(PastedImage::Binary { data, .. }) = &images[i] {
            let n: usize = data.len();
            let groups: usize = n / 3 + if n % 3 == 0 {
                0usize
            } else {
                1usize
            };
            assert(groups == (n + 2) / 3);
            if groups > limit {
                assert(!encodable(data@));
                assert(images@[i as int] is Some);
                return false;
            }
        }
        i = i + 1;
    }
    true
}

/// The attachments of a message that waits.
pub fn queued_prompt_attachments(images: &Vec<Option<PastedImage>>) -> (r: Vec<
    QueuedPromptAttachment,
>)
    requires
        all_encodable(images@),
    ensures
        kept(r@) == kept_images(images@, images@.len() as int),
{
    let mut out: Vec<QueuedPromptAttachment> = Vec::new();
    let mut i: usize = 0;
    assert(kept(out@) =~= kept_images(images@, 0));
    while i < images.len()
        invariant
            i <= images@.len(),
            all_encodable(images@),
            kept(out@) == kept_images(images@, i as int),
        decreases images@.len() - i,
    {
        let ghost before = out@;
        assert(match images@[i as int] {
            Some(PastedImage::Binary { data, .. }) => encodable(data@),
            _ => true,
        });
        match &images[i] {
            Some(PastedImage::Binary { mime, data }) => {
                let data_base64 = encode_base64(data);
                out.push(QueuedPromptAttachment::Binary { mime: mime.clone(), data_base64 });
                assert(kept(out@) =~= kept(before).push(kept_of(out@.last())));
            },
            Some(PastedImage::Path(path)) => {
                out.push(QueuedPromptAttachment::Path { path: path.clone() });
                assert(kept(out@) =~= kept(before).push(kept_of(out@.last())));
            },
            None => {},
        }
        i = i + 1;
    }
    out
}

/// `rand::random`: any number of sixteen bits.
#[verifier::external_body]
fn random_salt() -> (r: u16) {
    rand::random::<u16>()
}

/// The identity of a message that waits: when it was sent, in milliseconds, and
/// a number that tells apart what was sent at once.
pub open spec fn prompt_id(millis: u128, salt: u16) -> Seq<char> {
    "queued_"@ + decimal(millis as nat) + "_"@ + decimal(salt as nat)
}

pub fn queued_prompt_id(millis: u128, salt: u16) -> (r: String)
    ensures
        r@ == prompt_id(millis, salt),
{
    let time = wide_decimal_text(millis);
    let number = decimal_text(salt as u64);
    let mut r = "queued_".to_owned();
    r.append(time.as_str());
    r.append("_");
    r.append(number.as_str());
    r
}

/// A new identity for a message that waits.
pub fn fresh_prompt_id(millis: u128) -> (r: String)
    ensures
        exists|salt: u16| r@ == #[trigger] prompt_id(millis, salt),
{
    let salt = random_salt();
    queued_prompt_id(millis, salt)
}

/// The message as the daemon took it into its queue, or why it did not.
pub fn persist_remote_queued_submission(
    frame: Option<IpcFrame>,
    submission: &LiveSubmission,
) -> (r: Result<QueuedPrompt, String>)
    requires
        all_encodable(submission.images@),
    ensures
        match (frame, r) {
            (
                Some(IpcFrame::TurnUpdateAccepted { prompt_id, seq, submitted_at }),
                Ok(prompt),
            ) => {
                &&& prompt.prompt_id == prompt_id
                &&& prompt.seq == seq
                &&& prompt.submitted_at == submitted_at
                &&& prompt.content@ == submission.content@
                &&& prompt.display_content@ == submission.display_content@
                &&& kept(prompt.attachments@) == kept_images(
                    submission.images@,
                    submission.images@.len() as int,
                )
                &&& prompt.uploaded_attachments@.len() == 0
            },
            (Some(IpcFrame::TurnUpdateAccepted { .. }), Err(_)) => false,
            (Some(IpcFrame::Error { message, .. }), Err(note)) => note == message,
            (None, Err(note)) => note@ == "Laozhou core closed the queue connection"@,
            (Some(_), Err(note)) => note@ == "Laozhou core returned an invalid queue response"@,
            _ => false,
        },
{
    match frame {
        Some(IpcFrame::TurnUpdateAccepted { prompt_id, seq, submitted_at }) => Ok(
            QueuedPrompt {
                prompt_id,
                seq,
                content: submission.content.clone(),
                display_content: submission.display_content.clone(),
                attachments: queued_prompt_attachments(&submission.images),
                uploaded_attachments: Vec::new(),
                submitted_at,
            },
        ),
        Some(IpcFrame::Error { message, .. }) => Err(message),
        Some(_) => Err("Laozhou core returned an invalid queue response".to_owned()),
        None => Err("Laozhou core closed the queue connection".to_owned()),
    }
}

#[verifier::external_type_specification]
#[verifier::external_body]
pub struct ExImageError(image::ImageError);

/// The still picture of an image file, as a PNG file; nothing where the bytes
/// are no image.
pub uninterp spec fn still_picture(bytes: Seq<u8>) -> Option<Seq<u8>>;

/// `image::load_from_memory` and `DynamicImage::write_to` for PNG: the picture
/// that the bytes hold, the first one of an animation, as a PNG file. Such a
/// file begins with the signature of the format.
#[verifier::external_body]
fn picture_as_png(bytes: &Vec<u8>) -> (r: Result<Vec<u8>, image::ImageError>)
    ensures
        r is Ok <==> still_picture(bytes@) is Some,
        r is Ok ==> still_picture(bytes@) == Some(r->Ok_0@),
        r is Ok ==> r->Ok_0@.len() >= 8 && r->Ok_0@.take(8) == seq![
            0x89u8,
            0x50,
            0x4e,
            0x47,
            0x0d,
            0x0a,
            0x1a,
            0x0a,
        ],
{
    let mut out = std::io::Cursor::new(Vec::new());
    image::load_from_memory(bytes)?.write_to(&mut out, image::ImageFormat::Png)?;
    Ok(out.into_inner())
}

/// A file to show an image from.
#[derive(Debug)]
pub struct ImagePreview {
    pub suffix: &'static str,
    pub bytes: Vec<u8>,
}

/// The ending of the file for an image. An animation is shown as a still
/// picture.
pub open spec fn preview_suffix(mime: Seq<char>) -> Seq<char> {
    if mime == "image/gif"@ || mime == "image/png"@ {
        ".png"@
    } else if mime == "image/jpeg"@ {
        ".jpg"@
    } else if mime == "image/webp"@ {
        ".webp"@
    } else if mime == "image/bmp"@ {
        ".bmp"@
    } else {
        ".img"@
    }
}

fn suffix_for(mime: &str) -> (r: &'static str)
    ensures
        r@ == preview_suffix(mime@),
{
    if same(mime, "image/gif") || same(mime, "image/png") {
        ".png"
    } else if same(mime, "image/jpeg") {
        ".jpg"
    } else if same(mime, "image/webp") {
        ".webp"
    } else if same(mime, "image/bmp") {
        ".bmp"
    } else {
        ".img"
    }
}

/// Why an image cannot be shown.
#[derive(Debug)]
pub struct PreviewError {
    pub cause: image::ImageError,
}

/// The file for an image: the image as it is, but for an animation, of which
/// the first picture is taken.
pub fn remote_image_preview(mime: &str, bytes: Vec<u8>) -> (r: Result<ImagePreview, PreviewError>)
    ensures
        match r {
            Ok(preview) => {
                &&& preview.suffix@ == preview_suffix(mime@)
                &&& if mime@ == "image/gif"@ {
                    still_picture(bytes@) == Some(preview.bytes@)
                } else {
                    preview.bytes == bytes
                }
            },
            Err(_) => mime@ == "image/gif"@ && still_picture(bytes@) is None,
        },
{
    let suffix = suffix_for(mime);
    if same(mime, "image/gif") {
        match picture_as_png(&bytes) {
            Ok(picture) => Ok(ImagePreview { suffix, bytes: picture }),
            Err(cause) => Err(PreviewError { cause }),
        }
    } else {
        Ok(ImagePreview { suffix, bytes })
    }
}

/// Six bits and their character stand for each other: no two values share one.
pub proof fn law_base64_characters_are_distinct(a: int, b: int)
    requires
        0 <= a < 64,
        0 <= b < 64,
        base64_char(a) == base64_char(b),
    ensures
        a == b,
{
}

/// Every image goes to the daemon in its own slot and as it is; an empty slot
/// goes empty.
pub proof fn law_images_keep_their_slots(
    images: &Vec<Option<PastedImage>>,
    r: Vec<Option<ImageAttachment>>,
    i: int,
)
    requires
        call_ensures(ipc_images, (images,), r),
        0 <= i < images@.len(),
    ensures
        r@.len() == images@.len(),
        images@[i] is None <==> r@[i] is None,
        images@[i] matches Some(PastedImage::Binary { mime, data }) ==> (r@[i] matches Some(
            ImageAttachment::Binary { mime: m, data: d },
        ) && m@ == mime@ && d@ == data@),
        images@[i] matches Some(PastedImage::Path(path)) ==> (r@[i] matches Some(
            ImageAttachment::Path { path: p },
        ) && p@ == path@),
{
}

/// What is kept of one image more is what was kept before, and that image as
/// base64 or as its path; of an empty slot nothing is kept.
pub proof fn law_waiting_messages_keep_their_images(images: Seq<Option<PastedImage>>, image: Option<PastedImage>)
    ensures
        image is None ==> kept_images(images.push(image), images.len() as int + 1) == kept_images(
            images,
            images.len() as int,
        ),
        image matches Some(PastedImage::Path(path)) ==> kept_images(
            images.push(image),
            images.len() as int + 1,
        ) == kept_images(images, images.len() as int).push(Kept::Path(path@)),
        image matches Some(PastedImage::Binary { mime, data }) ==> kept_images(
            images.push(image),
            images.len() as int + 1,
        ) == kept_images(images, images.len() as int).push(
            Kept::Binary(mime@, base64_text(data@)),
        ),
        kept_images(images, 0).len() == 0,
{
    lemma_kept_before(images, image, images.len() as int);
}

proof fn lemma_kept_before(images: Seq<Option<PastedImage>>, image: Option<PastedImage>, n: int)
    requires
        n <= images.len(),
    ensures
        kept_images(images.push(image), n) == kept_images(images, n),
    decreases n,
{
    if n > 0 {
        lemma_kept_before(images, image, n - 1);
    }
}

/// A message that waits is named after the moment and a number.
pub proof fn law_waiting_messages_are_named(millis: u128, salt: u16, r: String)
    requires
        call_ensures(queued_prompt_id, (millis, salt), r),
    ensures
        r@ == "queued_"@ + decimal(millis as nat) + "_"@ + decimal(salt as nat),
{
}

/// A message is in the queue where the daemon took it, under the name and at the
/// place that the daemon gave it; else there is an error, in the daemon's words
/// where it has some.
pub proof fn law_queue_takes_what_the_daemon_took(
    frame: Option<IpcFrame>,
    submission: &LiveSubmission,
    r: Result<QueuedPrompt, String>,
)
    requires
        call_ensures(persist_remote_queued_submission, (frame, submission), r),
    ensures
        r is Ok <==> frame is Some && frame->0 is TurnUpdateAccepted,
        frame matches Some(IpcFrame::TurnUpdateAccepted { prompt_id, seq, submitted_at })
            ==> r->Ok_0.prompt_id == prompt_id && r->Ok_0.seq == seq && r->Ok_0.submitted_at
            == submitted_at && r->Ok_0.content@ == submission.content@
            && r->Ok_0.display_content@ == submission.display_content@,
        frame matches Some(IpcFrame::Error { message, .. }) ==> r->Err_0 == message,
{
}

/// An image is shown from a file of its own kind, as it is; an animation is shown
/// as its first picture.
pub proof fn law_images_are_shown_as_their_kind(
    mime: &str,
    bytes: Vec<u8>,
    r: Result<ImagePreview, PreviewError>,
)
    requires
        call_ensures(remote_image_preview, (mime, bytes), r),
    ensures
        mime@ != "image/gif"@ ==> r is Ok && r->Ok_0.bytes == bytes,
        mime@ == "image/gif"@ ==> (r is Ok <==> still_picture(bytes@) is Some),
        mime@ == "image/gif"@ && r is Ok ==> r->Ok_0.suffix@ == ".png"@ && Some(r->Ok_0.bytes@)
            == still_picture(bytes@),
        mime@ == "image/png"@ ==> r->Ok_0.suffix@ == ".png"@,
        mime@ == "image/jpeg"@ ==> r->Ok_0.suffix@ == ".jpg"@,
        mime@ == "image/webp"@ ==> r->Ok_0.suffix@ == ".webp"@,
        mime@ == "image/bmp"@ ==> r->Ok_0.suffix@ == ".bmp"@,
        mime@ == "image/tiff"@ ==> r->Ok_0.suffix@ == ".img"@,
{
    reveal_strlit("image/gif");
    reveal_strlit("image/png");
    reveal_strlit("image/jpeg");
    reveal_strlit("image/webp");
    reveal_strlit("image/bmp");
    reveal_strlit("image/tiff");
    assert("image/gif"@.len() == 9 && "image/gif"@[6] == 'g');
    assert("image/png"@.len() == 9 && "image/png"@[6] == 'p');
    assert("image/bmp"@.len() == 9 && "image/bmp"@[6] == 'b');
    assert("image/jpeg"@.len() == 10 && "image/jpeg"@[6] == 'j');
    assert("image/webp"@.len() == 10 && "image/webp"@[6] == 'w');
    assert("image/tiff"@.len() == 10 && "image/tiff"@[6] == 't');
}

} // verus!
