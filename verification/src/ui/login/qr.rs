//! The QR code of a sign-in link.

use crate::text::{chars_of, decimal, decimal_string, numeral_round_trip, opt_view, signed_decimal};
use vstd::prelude::*;

verus! {

/// The least width and height of the image, in pixels.
pub const QR_SIDE: u32 = 240;

/// The longest ASCII text that is rendered, in characters. A sign-in link has
/// about 65.
pub const QR_TEXT_MAX: usize = 213;

/// From this length on no text fits a QR code, whatever its characters are.
pub const QR_TEXT_TOO_LONG: usize = 5602;

/// Whether a text can be handed to the encoder: it is short enough to be scored
/// without overflow, or so long that it is refused before that.
pub open spec fn encodable(text: Seq<char>) -> bool {
    ||| text.len() >= QR_TEXT_TOO_LONG
    ||| text.len() <= QR_TEXT_MAX && forall|i: int|
        0 <= i < text.len() ==> (#[trigger] text[i]) < '\u{80}'
}

/// The SVG image of the QR code of a text, at least `side` pixels wide and
/// high, in two colors; `None` for a text that is too long for a QR code.
pub uninterp spec fn qr_svg(text: Seq<char>, side: u32, dark: Seq<char>, light: Seq<char>) -> Option<
    Seq<char>,
>;

/// `qrcode::QrCode::new` and its SVG renderer: the QR code of the bytes of
/// `text` as an SVG image. The result depends on the arguments alone.
///
/// The renderer adds the number of modules across, 185 at most, to `side`,
/// which must not overflow. Nor must the 16-bit scores by which the encoder
/// chooses among the masks:
/// - 213 ASCII characters take 2484 bits at most in the segments that the
///   encoder's greedy optimiser makes, so the version is at most 13 and the code
///   69 modules wide. A row or column of 69 scores at most 366, so with the
///   2×2 blocks and the balance the sum is at most
///   2·69·366 + 3·68² + 100 = 64480.
/// - 5602 characters take at least 10/3 bits for each of their bytes, more than
///   the 18672 bits of the largest version, and are refused before any scoring.
#[verifier::external_body]
fn encode_svg(text: &str, side: u32, dark: &str, light: &str) -> (r: Option<String>)
    requires
        side <= u32::MAX - 185,
        encodable(text@),
    ensures
        opt_view(r) == qr_svg(text@, side, dark@, light@),
{
    let code = qrcode::QrCode::new(text.as_bytes()).ok()?;
    let svg = code
        .render::<qrcode::render::svg::Color>()
        .min_dimensions(side, side)
        .dark_color(qrcode::render::svg::Color(dark))
        .light_color(qrcode::render::svg::Color(light))
        .build();
    Some(svg)
}

/// An image to be written to a file in the directory for temporary files.
#[derive(Debug)]
pub struct QrImage {
    pub file_name: String,
    pub svg: String,
}

/// The mathematical value of a [`QrImage`].
pub struct QrImageView {
    pub file_name: Seq<char>,
    pub svg: Seq<char>,
}

impl View for QrImage {
    type V = QrImageView;

    open spec fn view(&self) -> QrImageView {
        QrImageView { file_name: self.file_name@, svg: self.svg@ }
    }
}

/// The file of an image, one per process.
pub open spec fn image_file(process: u32) -> Seq<char> {
    "paloma-qr-"@ + decimal(process as nat) + ".svg"@
}

/// The image of a code that could be made.
pub open spec fn image_of(svg: Option<Seq<char>>, process: u32) -> Option<QrImageView> {
    match svg {
        Some(svg) => Some(QrImageView { file_name: image_file(process), svg }),
        None => None,
    }
}

/// The value of an image that may be missing.
pub open spec fn image_view(r: Option<QrImage>) -> Option<QrImageView> {
    match r {
        Some(i) => Some(i@),
        None => None,
    }
}

/// The image file of a code; none where there is no code.
pub fn qr_image(svg: Option<String>, process: u32) -> (r: Option<QrImage>)
    ensures
        image_view(r) == image_of(opt_view(svg), process),
{
    match svg {
        Some(svg) => {
            let mut file_name: String = "paloma-qr-".to_owned();
            let n: String = decimal_string(process as u64);
            file_name.append(n.as_str());
            file_name.append(".svg");
            Some(QrImage { file_name, svg })
        },
        None => None,
    }
}

/// Whether [`render_qr`] can be asked for this link.
pub fn can_render(link: &str) -> (r: bool)
    ensures
        r == encodable(link@),
{
    let v: Vec<char> = chars_of(link);
    if v.len() >= QR_TEXT_TOO_LONG {
        return true;
    }
    if v.len() > QR_TEXT_MAX {
        return false;
    }
    for i in 0..v.len()
        invariant
            v@ == link@,
            v@.len() <= QR_TEXT_MAX,
            forall|k: int| 0 <= k < i ==> (#[trigger] v@[k]) < '\u{80}',
    {
        if v[i] >= '\u{80}' {
            return false;
        }
    }
    true
}

/// Renders a `tg://` link as a QR code, black on white. A link that does not
/// fit a QR code has no image.
pub fn render_qr(link: &str, process: u32) -> (r: Option<QrImage>)
    requires
        encodable(link@),
    ensures
        image_view(r) == image_of(qr_svg(link@, QR_SIDE, "#000000"@, "#ffffff"@), process),
{
    let svg: Option<String> = encode_svg(link, QR_SIDE, "#000000", "#ffffff");
    qr_image(svg, process)
}

/// Every process writes its image to a file of its own, and the image is the
/// code that was made; without a code there is none.
pub proof fn images_are_kept_apart(svg: Seq<char>, a: u32, b: u32)
    ensures
        image_of(Some(svg), a) matches Some(image) && image.svg == svg,
        image_of(None, a) is None,
        image_of(Some(svg), a)->0.file_name == image_of(Some(svg), b)->0.file_name ==> a == b,
{
    let x = image_file(a);
    let y = image_file(b);
    if x == y {
        let n = "paloma-qr-"@.len() as int;
        let m = ".svg"@.len() as int;
        assert(x.subrange(n, x.len() - m) =~= decimal(a as nat));
        assert(y.subrange(n, y.len() - m) =~= decimal(b as nat));
        numeral_round_trip(a as int, 0, u32::MAX as int);
        numeral_round_trip(b as int, 0, u32::MAX as int);
        assert(signed_decimal(a as int) == signed_decimal(b as int));
    }
}

} // verus!
