//! Embedded cover art: decoding it for the list's artwork window and for
//! the inspector's artwork preview, and the inspector's bookkeeping of
//! which node's artwork is shown or being read.
use vstd::prelude::*;

use crate::metadata::{only_metadata_changed, MetadataNode, MetadataTabState, PayloadRef};
use crate::regions::only_tab_changed;
use crate::state::WavesPreviewer;

verus! {

#[verifier::external_type_specification]
#[verifier::external_body]
pub struct ExDynamicImage(image::DynamicImage);

#[verifier::external_type_specification]
#[verifier::external_body]
pub struct ExImageError(image::ImageError);

/// Decoded artwork as 8-bit RGBA rows, ready to become a texture.
pub struct ArtworkImage {
    pub width: u32,
    pub height: u32,
    pub rgba: Vec<u8>,
}

/// The largest artwork the list's artwork window decodes, in bytes.
pub const ARTWORK_MAX_BYTES: usize = 25165824;

/// The artwork window shows artwork at most this many pixels wide and high.
pub const ARTWORK_MODAL_MAX_DIM: u32 = 1400;

/// The inspector's artwork preview is at most this many pixels wide and high.
pub const ARTWORK_PREVIEW_MAX_DIM: u32 = 1024;

/// `image::load_from_memory`. Nothing is stated of the outcome: the format
/// is guessed and the bytes decoded through hooks that any code of the
/// process may register, so two calls on the same bytes may differ.
#[verifier::external_body]
fn load_image(bytes: &[u8]) -> (decoded: Result<image::DynamicImage, image::ImageError>) {
    image::load_from_memory(bytes)
}

/// A decoded picture together with its plain description: its size, the
/// channels and bytes of each pixel, and its samples as native-endian
/// bytes. The description is taken from the picture when it is made and
/// the picture is never changed afterwards, so the two always agree.
pub struct DecodedPicture {
    image: image::DynamicImage,
    width: u32,
    height: u32,
    channels: u8,
    bytes_per_pixel: u8,
    samples: Vec<u8>,
}

impl View for DecodedPicture {
    type V = (u32, u32, u8, u8, Seq<u8>);

    closed spec fn view(&self) -> (u32, u32, u8, u8, Seq<u8>) {
        (self.width, self.height, self.channels, self.bytes_per_pixel, self.samples@)
    }
}

/// Describes a decoded picture: `DynamicImage::width`, `height`, the
/// channel count and bytes per pixel of its `color()`, and `as_bytes`.
#[verifier::external_body]
fn describe_picture(image: image::DynamicImage) -> DecodedPicture {
    let color = image.color();
    let samples = image.as_bytes().to_vec();
    DecodedPicture {
        width: image.width(),
        height: image.height(),
        channels: color.channel_count(),
        bytes_per_pixel: color.bytes_per_pixel(),
        samples,
        image,
    }
}

impl DecodedPicture {
    /// A decoded picture, described.
    pub fn new(image: image::DynamicImage) -> (picture: Self) {
        describe_picture(image)
    }

    /// The picture's width in pixels.
    pub fn width(&self) -> (width: u32)
        ensures
            width == self@.0,
    {
        self.width
    }

    /// The picture's height in pixels.
    pub fn height(&self) -> (height: u32)
        ensures
            height == self@.1,
    {
        self.height
    }
}

/// The bytes `DynamicImage::to_rgba8().into_raw()` gives for the picture
/// described by size `width` by `height`, `channels` channels and
/// `bytes_per_pixel` bytes per pixel, and `samples`.
pub uninterp spec fn rgba_of_picture(
    width: u32,
    height: u32,
    channels: u8,
    bytes_per_pixel: u8,
    samples: Seq<u8>,
) -> Seq<u8>;

/// The size and RGBA bytes of `DynamicImage::resize(bound, bound,
/// Lanczos3).to_rgba8()` for the picture so described.
pub uninterp spec fn lanczos_fit_of_picture(
    width: u32,
    height: u32,
    channels: u8,
    bytes_per_pixel: u8,
    samples: Seq<u8>,
    bound: u32,
) -> (u32, u32, Seq<u8>);

/// The size and RGBA bytes of `DynamicImage::thumbnail(bound,
/// bound).to_rgba8()` for the picture so described.
pub uninterp spec fn thumbnail_of_picture(
    width: u32,
    height: u32,
    channels: u8,
    bytes_per_pixel: u8,
    samples: Seq<u8>,
    bound: u32,
) -> (u32, u32, Seq<u8>);

/// `DynamicImage::to_rgba8`, taken apart into its size and its raw bytes:
/// the picture's size, and at least four bytes for each pixel (an image
/// buffer may own a longer container). The bytes are named by
/// `rgba_of_picture`.
#[verifier::external_body]
fn image_rgba(picture: &DecodedPicture) -> (art: ArtworkImage)
    ensures
        art.width == picture@.0,
        art.height == picture@.1,
        art.rgba@ == rgba_of_picture(picture@.0, picture@.1, picture@.2, picture@.3, picture@.4),
        art.rgba@.len() >= 4 * art.width * art.height,
{
    let rgba = picture.image.to_rgba8();
    ArtworkImage { width: rgba.width(), height: rgba.height(), rgba: rgba.into_raw() }
}

/// `DynamicImage::resize` with the Lanczos3 filter into a `bound` by
/// `bound` box, converted to RGBA as `image_rgba` does. The image keeps its
/// aspect ratio and is scaled to the largest size that fits the box, so
/// neither side exceeds `bound`. The result is named by
/// `lanczos_fit_of_picture`.
#[verifier::external_body]
fn image_resized(picture: &DecodedPicture, bound: u32) -> (art: ArtworkImage)
    requires
        1 <= bound,
    ensures
        (art.width, art.height, art.rgba@) == lanczos_fit_of_picture(
            picture@.0,
            picture@.1,
            picture@.2,
            picture@.3,
            picture@.4,
            bound,
        ),
        art.width <= bound,
        art.height <= bound,
        art.rgba@.len() >= 4 * art.width * art.height,
{
    let rgba = picture.image.resize(bound, bound, image::imageops::FilterType::Lanczos3).to_rgba8();
    ArtworkImage { width: rgba.width(), height: rgba.height(), rgba: rgba.into_raw() }
}

/// `DynamicImage::thumbnail` into a `bound` by `bound` box, converted to
/// RGBA as `image_rgba` does. The image keeps its aspect ratio and fits the
/// box, so neither side exceeds `bound`. The result is named by
/// `thumbnail_of_picture`.
#[verifier::external_body]
fn image_thumbnail(picture: &DecodedPicture, bound: u32) -> (art: ArtworkImage)
    requires
        1 <= bound,
    ensures
        (art.width, art.height, art.rgba@) == thumbnail_of_picture(
            picture@.0,
            picture@.1,
            picture@.2,
            picture@.3,
            picture@.4,
            bound,
        ),
        art.width <= bound,
        art.height <= bound,
        art.rgba@.len() >= 4 * art.width * art.height,
{
    let rgba = picture.image.thumbnail(bound, bound).to_rgba8();
    ArtworkImage { width: rgba.width(), height: rgba.height(), rgba: rgba.into_raw() }
}

/// The text of an `image::ImageError` (its `Display`). Nothing is stated of
/// the text.
#[verifier::external_body]
fn image_error_text(error: &image::ImageError) -> String {
    format!("{error}")
}

/// Artwork as its size and its bytes.
pub open spec fn artwork_view(art: ArtworkImage) -> (u32, u32, Seq<u8>) {
    (art.width, art.height, art.rgba@)
}

/// A size and RGBA bytes cut to exactly four bytes per pixel.
pub open spec fn exact_pixels(sized: (u32, u32, Seq<u8>)) -> (u32, u32, Seq<u8>) {
    (sized.0, sized.1, sized.2.take(4 * sized.0 * sized.1))
}

/// What the artwork window shows of a picture: its RGBA pixels when
/// neither side exceeds 1400, else its Lanczos3 fit into 1400 by 1400.
pub open spec fn window_artwork(p: (u32, u32, u8, u8, Seq<u8>)) -> (u32, u32, Seq<u8>) {
    if p.0 > ARTWORK_MODAL_MAX_DIM || p.1 > ARTWORK_MODAL_MAX_DIM {
        exact_pixels(lanczos_fit_of_picture(p.0, p.1, p.2, p.3, p.4, ARTWORK_MODAL_MAX_DIM))
    } else {
        exact_pixels((p.0, p.1, rgba_of_picture(p.0, p.1, p.2, p.3, p.4)))
    }
}

/// What the inspector's preview shows of a picture: its thumbnail in a
/// 1024 by 1024 box.
pub open spec fn preview_artwork(p: (u32, u32, u8, u8, Seq<u8>)) -> (u32, u32, Seq<u8>) {
    exact_pixels(thumbnail_of_picture(p.0, p.1, p.2, p.3, p.4, ARTWORK_PREVIEW_MAX_DIM))
}

/// RGBA artwork whose buffer holds exactly four bytes per pixel.
pub open spec fn artwork_well_formed(art: ArtworkImage) -> bool {
    art.rgba@.len() == 4 * art.width * art.height
}

/// RGBA artwork that fits a `bound` by `bound` box.
pub open spec fn artwork_fits(art: ArtworkImage, bound: nat) -> bool {
    artwork_well_formed(art) && art.width <= bound && art.height <= bound
}

/// Drops whatever the buffer holds past its last pixel.
fn exact_rgba(art: ArtworkImage) -> (exact: ArtworkImage)
    requires
        art.rgba@.len() >= 4 * art.width * art.height,
    ensures
        artwork_well_formed(exact),
        exact.width == art.width,
        exact.height == art.height,
        exact.rgba@ == art.rgba@.take(4 * art.width * art.height),
        artwork_view(exact) == exact_pixels(artwork_view(art)),
{
    let ArtworkImage { width, height, mut rgba } = art;
    let w: u128 = width as u128;
    let h: u128 = height as u128;
    assert(w * h <= 0xffff_ffff * 0xffff_ffffu128) by (nonlinear_arith)
        requires
            w <= 0xffff_ffff,
            h <= 0xffff_ffff,
    ;
    let wide: u128 = 4 * (w * h);
    assert(wide == 4 * width * height) by (nonlinear_arith)
        requires
            wide == 4 * (w * h),
            w == width,
            h == height,
    ;
    rgba.truncate(wide as usize);
    ArtworkImage { width, height, rgba }
}

/// An artwork of `len` bytes is one the artwork window tries to decode.
pub open spec fn artwork_size_ok(len: nat) -> bool {
    0 < len <= ARTWORK_MAX_BYTES
}

/// The message for artwork that is empty or too large.
pub open spec fn artwork_unavailable_text() -> Seq<char> {
    "Artwork is unavailable or too large."@
}

/// What the message for artwork that does not decode starts with.
pub open spec fn artwork_decode_failed_prefix() -> Seq<char> {
    "Failed to decode artwork: "@
}

/// Whether decoded artwork of this size is scaled down for the window.
pub fn artwork_needs_fit(width: u32, height: u32) -> (fit: bool)
    ensures
        fit == (width > ARTWORK_MODAL_MAX_DIM || height > ARTWORK_MODAL_MAX_DIM),
{
    let larger = if width >= height { width } else { height };
    larger > ARTWORK_MODAL_MAX_DIM
}

/// What the message for artwork that does not decode is made of: the
/// prefix and the decoder's text.
pub open spec fn starts_with_decode_failed(m: Seq<char>) -> bool {
    m.len() >= artwork_decode_failed_prefix().len() && m.take(
        artwork_decode_failed_prefix().len() as int,
    ) == artwork_decode_failed_prefix()
}

/// Decoded artwork for the list's artwork window: as decoded when it fits
/// the window's box, else scaled down to fit it.
pub fn list_artwork_from_picture(picture: &DecodedPicture) -> (art: ArtworkImage)
    ensures
        artwork_view(art) == window_artwork(picture@),
        artwork_fits(art, ARTWORK_MODAL_MAX_DIM as nat),
{
    if artwork_needs_fit(picture.width(), picture.height()) {
        exact_rgba(image_resized(picture, ARTWORK_MODAL_MAX_DIM))
    } else {
        exact_rgba(image_rgba(picture))
    }
}

/// The artwork window's answer to a decoder's outcome: the picture as
/// `window_artwork` says, or the decoder's message after `Failed to decode
/// artwork: `.
pub fn list_artwork_from_decoded(decoded: Result<DecodedPicture, image::ImageError>) -> (art:
    Result<ArtworkImage, String>)
    ensures
        decoded is Ok <==> art is Ok,
        decoded matches Ok(p) ==> (art matches Ok(a) && artwork_view(a) == window_artwork(p@)
            && artwork_fits(a, ARTWORK_MODAL_MAX_DIM as nat)),
        art matches Err(m) ==> starts_with_decode_failed(m@),
{
    match decoded {
        Ok(picture) => Ok(list_artwork_from_picture(&picture)),
        Err(error) => {
            let mut message = String::from_str("Failed to decode artwork: ");
            let ghost prefix = message@;
            proof {
                reveal_strlit("Failed to decode artwork: ");
            }
            let detail = image_error_text(&error);
            message.append(detail.as_str());
            assert(message@.take(prefix.len() as int) =~= prefix);
            Err(message)
        },
    }
}

/// A decoder's outcome with a decoded picture described.
fn described(decoded: Result<image::DynamicImage, image::ImageError>) -> (out: Result<
    DecodedPicture,
    image::ImageError,
>)
    ensures
        decoded is Ok <==> out is Ok,
{
    match decoded {
        Ok(image) => Ok(DecodedPicture::new(image)),
        Err(error) => Err(error),
    }
}

/// Decodes a file's embedded artwork (`None` when it has none) for the
/// list's artwork window: missing, empty or oversized artwork is refused,
/// artwork that does not decode is reported with the decoder's message,
/// and decoded artwork larger than the window is scaled down to fit it.
/// Whether given bytes decode is the decoder's to say.
pub fn prepare_list_artwork(embedded: Option<&[u8]>) -> (art: Result<ArtworkImage, String>)
    ensures
        match embedded {
            None => art matches Err(m) && m@ == "No embedded artwork."@,
            Some(bytes) => if !artwork_size_ok(bytes@.len()) {
                art matches Err(m) && m@ == artwork_unavailable_text()
            } else {
                &&& (art matches Ok(a) ==> artwork_fits(a, ARTWORK_MODAL_MAX_DIM as nat))
                &&& (art matches Err(m) ==> starts_with_decode_failed(m@))
            },
        },
{
    let bytes = match embedded {
        Some(b) => b,
        None => return Err(String::from_str("No embedded artwork.")),
    };
    if bytes.len() == 0 || bytes.len() > ARTWORK_MAX_BYTES {
        return Err(String::from_str("Artwork is unavailable or too large."));
    }
    list_artwork_from_decoded(described(load_image(bytes)))
}

/// The inspector preview's answer to a decoder's outcome: the artwork
/// scaled to fit a 1024 by 1024 box, or the decoder's message.
pub fn preview_from_decoded(decoded: Result<DecodedPicture, image::ImageError>) -> (art: Result<
    ArtworkImage,
    String,
>)
    ensures
        decoded is Ok <==> art is Ok,
        decoded matches Ok(p) ==> (art matches Ok(a) && artwork_view(a) == preview_artwork(p@)
            && artwork_fits(a, ARTWORK_PREVIEW_MAX_DIM as nat)),
{
    match decoded {
        Ok(picture) => Ok(exact_rgba(image_thumbnail(&picture, ARTWORK_PREVIEW_MAX_DIM))),
        Err(error) => Err(image_error_text(&error)),
    }
}

/// Decodes artwork for the inspector's preview, scaled to fit a 1024 by
/// 1024 box; a failure gives the decoder's message. Whether given bytes
/// decode is the decoder's to say.
pub fn decode_artwork_preview(bytes: &[u8]) -> (art: Result<ArtworkImage, String>)
    ensures
        art matches Ok(a) ==> artwork_fits(a, ARTWORK_PREVIEW_MAX_DIM as nat),
{
    preview_from_decoded(described(load_image(bytes)))
}

// ---------------------------------------------------------------------
// The inspector's artwork bookkeeping
// ---------------------------------------------------------------------

/// Everything of the inspector's state but its artwork fields and its
/// action status is the same in `a` and `b`.
pub open spec fn same_but_artwork(a: MetadataTabState, b: MetadataTabState) -> bool {
    &&& b.document == a.document
    &&& b.loading == a.loading
    &&& b.error == a.error
    &&& b.scan_pending == a.scan_pending
    &&& b.selected_node == a.selected_node
    &&& b.detail_tab == a.detail_tab
    &&& b.text_encoding == a.text_encoding
    &&& b.hex_selection == a.hex_selection
    &&& b.hex_offset == a.hex_offset
    &&& b.hex_scroll_target == a.hex_scroll_target
    &&& b.follow_playback == a.follow_playback
    &&& b.show_structure == a.show_structure
    &&& b.hex_page == a.hex_page
    &&& b.hex_pages == a.hex_pages
    &&& b.hex_page_requested == a.hex_page_requested
    &&& b.hex_page_pending == a.hex_page_pending
    &&& b.search_results == a.search_results
    &&& b.action_pending == a.action_pending
    &&& b.action_cancel_armed == a.action_cancel_armed
    &&& b.action_progress == a.action_progress
    &&& b.action_total == a.action_total
}

/// What asking for the artwork of node `node_id` does: nothing when it is
/// shown or being read already; else it is marked as being read, and
/// `start` says that the read is to begin.
pub open spec fn artwork_request_outcome(
    before: MetadataTabState,
    after: MetadataTabState,
    node_id: usize,
    start: bool,
) -> bool {
    &&& same_but_artwork(before, after)
    &&& after.action_status == before.action_status
    &&& after.artwork_shown == before.artwork_shown
    &&& start == !(before.artwork_shown == Some(node_id) || before.artwork_requested == Some(node_id))
    &&& if start {
        after.artwork_requested == Some(node_id) && after.artwork_pending
    } else {
        after.artwork_requested == before.artwork_requested && after.artwork_pending
            == before.artwork_pending
    }
}

/// What collecting an artwork read does: nothing is being read any more;
/// read artwork is shown for its node; a failure becomes the action status
/// `Artwork: ` and the message.
pub open spec fn artwork_receive_outcome(
    before: MetadataTabState,
    after: MetadataTabState,
    answer: Result<usize, Seq<char>>,
) -> bool {
    &&& same_but_artwork(before, after)
    &&& after.artwork_requested is None
    &&& !after.artwork_pending
    &&& match answer {
        Ok(node) => after.artwork_shown == Some(node) && after.action_status == before.action_status,
        Err(e) => after.artwork_shown == before.artwork_shown && (after.action_status matches Some(
            s,
        ) && s@ == "Artwork: "@ + e),
    }
}

/// Asking twice in a row for the artwork of the same node starts at most
/// one read.
pub proof fn lemma_artwork_request_not_repeated(
    before: MetadataTabState,
    mid: MetadataTabState,
    after: MetadataTabState,
    node_id: usize,
    first: bool,
    second: bool,
)
    requires
        artwork_request_outcome(before, mid, node_id, first),
        artwork_request_outcome(mid, after, node_id, second),
    ensures
        !second,
{
}

impl MetadataTabState {
    /// Asks for the artwork of node `node_id`; returns whether a read is to
    /// begin.
    pub fn request_artwork(&mut self, node_id: usize) -> (start: bool)
        ensures
            artwork_request_outcome(*old(self), *final(self), node_id, start),
    {
        let shown = match self.artwork_shown {
            Some(n) => n == node_id,
            None => false,
        };
        let requested = match self.artwork_requested {
            Some(n) => n == node_id,
            None => false,
        };
        if shown || requested {
            return false;
        }
        self.artwork_requested = Some(node_id);
        self.artwork_pending = true;
        true
    }

    /// Collects the answer of an artwork read: the node whose artwork was
    /// read, or the read's error.
    pub fn receive_artwork(&mut self, result: Result<usize, String>)
        ensures
            artwork_receive_outcome(
                *old(self),
                *final(self),
                match result {
                    Ok(n) => Ok(n),
                    Err(e) => Err(e@),
                },
            ),
    {
        self.artwork_requested = None;
        self.artwork_pending = false;
        match result {
            Ok(node) => {
                self.artwork_shown = Some(node);
            },
            Err(e) => {
                let mut status = String::from_str("Artwork: ");
                proof {
                    reveal_strlit("Artwork: ");
                }
                status.append(e.as_str());
                self.action_status = Some(status);
            },
        }
    }
}

impl WavesPreviewer {
    /// Asks, for tab `tab_idx`, for the artwork of `node`; returns the
    /// payload to read when a read is to begin.
    pub fn request_metadata_artwork(&mut self, tab_idx: usize, node: &MetadataNode) -> (read: Option<PayloadRef>)
        requires
            tab_idx < old(self).tabs@.len(),
        ensures
            artwork_request_outcome(
                old(self).tabs@[tab_idx as int].metadata,
                final(self).tabs@[tab_idx as int].metadata,
                node.id,
                read is Some,
            ),
            read matches Some(p) ==> p == node.payload,
            only_metadata_changed(old(self).tabs@[tab_idx as int], final(self).tabs@[tab_idx as int]),
            only_tab_changed(*old(self), *final(self), tab_idx as int),
    {
        if self.tabs[tab_idx].metadata.request_artwork(node.id) {
            Some(node.payload)
        } else {
            None
        }
    }
}

} // verus!
