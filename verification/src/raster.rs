//! The rasterizer: vector markup in, an encoded square bitmap out. The
//! parsing, pixel work and encoding are the outside renderer's; this
//! module fixes the order of the steps, which failure each step
//! reports, and when the whole conversion is owed a bitmap.

use vstd::prelude::*;
use resvg::tiny_skia;
use resvg::usvg;

verus! {

/// The parsed vector tree of the outside renderer, opaque to the
/// verified code.
#[verifier::external_type_specification]
#[verifier::external_body]
pub struct ExTree(usvg::Tree);

/// The pixel buffer of the outside renderer, opaque to the verified
/// code.
#[verifier::external_type_specification]
#[verifier::external_body]
pub struct ExPixmap(tiny_skia::Pixmap);

/// Whether the outside renderer accepts a piece of markup as vector
/// graphics: parse success is a function of the markup text alone.
pub uninterp spec fn svg_parses(markup: Seq<char>) -> bool;

/// Relies on usvg::Tree::from_data: it parses the markup as vector
/// graphics, against options carrying the system fonts, and fails
/// exactly on malformed markup — every one of its error cases depends
/// on the markup alone, none on the font set.
#[verifier::external_body]
fn parse_svg_tree(markup: &str) -> (r: Option<usvg::Tree>)
    ensures
        r is Some <==> svg_parses(markup@),
{
    let mut options = usvg::Options::default();
    options.fontdb_mut().load_system_fonts();
    usvg::Tree::from_data(markup.as_bytes(), &options).ok()
}

/// A square side the pixel buffer can always be made for: nonzero, a
/// row of four bytes a pixel that fits in an i32, and a whole buffer
/// that fits in a usize.
pub open spec fn raster_side_fits(side: u32) -> bool {
    &&& side > 0
    &&& 4 * (side as int) <= i32::MAX as int
    &&& 4 * (side as int) * (side as int) <= usize::MAX as int
}

/// Relies on tiny_skia::Pixmap::new: a zero side never allocates a
/// buffer, and a side within the buffer bounds always does.
#[verifier::external_body]
fn pixmap_new(side: u32) -> (r: Option<tiny_skia::Pixmap>)
    ensures
        side == 0 ==> r is None,
        raster_side_fits(side) ==> r is Some,
{
    tiny_skia::Pixmap::new(side, side)
}

/// Relies on resvg::render: it draws the tree into the buffer at the
/// identity transform, touching nothing else.
#[verifier::external_body]
fn render_tree_into(tree: &usvg::Tree, pixmap: &mut tiny_skia::Pixmap) {
    resvg::render(tree, usvg::Transform::identity(), &mut pixmap.as_mut());
}

/// Relies on tiny_skia::Pixmap::encode_png: encoding a pixmap into a
/// byte vector never fails — the pixmap's own invariant gives nonzero
/// dimensions and a matching data length, and the vector writer does
/// not error.
#[verifier::external_body]
fn encode_pixmap_png(pixmap: &tiny_skia::Pixmap) -> (r: Option<Vec<u8>>)
    ensures
        r is Some,
{
    pixmap.encode_png().ok()
}

/// How rasterization can fail, step by step: the markup does not parse,
/// the pixel buffer cannot be made, or the encoder fails.
#[derive(Clone, Copy, Debug, PartialEq, Eq, Structural)]
pub enum RasterError {
    Parse,
    Allocate,
    Encode,
}

impl RasterError {
    /// A short description of the failure.
    pub fn describe(&self) -> (r: &'static str)
        ensures
            *self is Parse ==> r@ == "Error parsing SVG"@,
            *self is Allocate ==> r@ == "Error creating pixmap"@,
            *self is Encode ==> r@ == "Error encoding PNG"@,
    {
        match self {
            RasterError::Parse => "Error parsing SVG",
            RasterError::Allocate => "Error creating pixmap",
            RasterError::Encode => "Error encoding PNG",
        }
    }
}

/// Convert vector markup to a `size` by `size` PNG. The markup is
/// parsed, a square buffer allocated for the size truncated to 32 bits,
/// the tree drawn at the identity transform, and the pixels encoded;
/// the first failing step names the error. Unparseable markup gives
/// exactly the parse error; parseable markup with a zero side gives the
/// allocation error; parseable markup with a side within the buffer
/// bounds is owed a bitmap. The caller enforces any ceiling on `size`;
/// none is applied here.
pub fn render_to_png(markup: &str, size: u64) -> (r: Result<Vec<u8>, RasterError>)
    ensures
        r == Result::<Vec<u8>, RasterError>::Err(RasterError::Parse) <==> !svg_parses(markup@),
        svg_parses(markup@) && (#[verifier::truncate] (size as u32)) == 0 ==> r == Result::<Vec<u8>, RasterError>::Err(
            RasterError::Allocate,
        ),
        svg_parses(markup@) && raster_side_fits(#[verifier::truncate] (size as u32)) ==> r is Ok,
{
    let tree = match parse_svg_tree(markup) {
        Some(t) => t,
        None => {
            return Err(RasterError::Parse);
        },
    };
    let side = #[verifier::truncate] (size as u32);
    let mut pixmap = match pixmap_new(side) {
        Some(p) => p,
        None => {
            return Err(RasterError::Allocate);
        },
    };
    render_tree_into(&tree, &mut pixmap);
    match encode_pixmap_png(&pixmap) {
        Some(bytes) => Ok(bytes),
        None => Err(RasterError::Encode),
    }
}

} // verus!
