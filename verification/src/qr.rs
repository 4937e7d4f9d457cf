//! The QR code shown for the serve link: the modules of the code, scaled
//! into a square bitmap with a light border.
use vstd::prelude::*;
use vstd::string::StringSliceAdditionalSpecFns;

verus! {

/// The modules (row by row, `true` for dark) and the width that
/// `qrcode::QrCode::new` gives for the data, or `None` when it refuses the
/// data.
pub uninterp spec fn qr_modules(data: Seq<u8>) -> Option<(nat, Seq<bool>)>;

/// Calls `qrcode::QrCode::new` (medium error correction, smallest version)
/// and reads the code's width and modules, dark modules as `true`. The result
/// is named by `qr_modules` of the data; of it, the contract states what the
/// crate's source gives: the modules fill the square of the width, and the
/// width is at most 177 (version 40).
#[verifier::external_body]
fn encode_qr(data: &[u8]) -> (r: Option<(usize, Vec<bool>)>)
    ensures
        match r {
            Some((w, m)) => qr_modules(data@) == Some((w as nat, m@)) && m@.len() == w * w && w
                <= 177,
            None => qr_modules(data@) is None,
        },
{
    match qrcode::QrCode::new(data) {
        Ok(code) => Some((
            code.width(),
            code.to_colors().into_iter().map(|c| c == qrcode::Color::Dark).collect(),
        )),
        Err(_) => None,
    }
}

/// A square bitmap, row by row, `true` for dark.
pub struct QrBitmap {
    pub size: usize,
    pub dark: Vec<bool>,
}

/// Whether the pixel at column `x`, row `y` is dark: pixels inside the
/// border show the module they fall in (each module is `scale` pixels
/// wide), the border is light.
pub open spec fn pixel_dark(width: nat, modules: Seq<bool>, scale: nat, outline: nat, x: nat, y: nat) -> bool {
    if outline <= x < outline + width * scale && outline <= y < outline + width * scale {
        modules[(((y - outline) / (scale as int)) * width + (x - outline) / (scale as int))]
    } else {
        false
    }
}

pub open spec fn renders(width: nat, modules: Seq<bool>, scale: nat, outline: nat, b: QrBitmap) -> bool {
    &&& b.size == width * scale + 2 * outline
    &&& b.dark@.len() == b.size * b.size
    &&& forall|x: nat, y: nat|
        x < b.size && y < b.size ==> #[trigger] b.dark@[(y * b.size + x) as int] == pixel_dark(
            width,
            modules,
            scale,
            outline,
            x,
            y,
        )
}

proof fn lemma_module_index(width: nat, scale: nat, outline: nat, x: nat, y: nat)
    requires
        scale > 0,
        outline <= x < outline + width * scale,
        outline <= y < outline + width * scale,
    ensures
        0 <= ((y - outline) / (scale as int)) * width + (x - outline) / (scale as int) < width * width,
{
    let a = (x - outline) as int;
    let b = (y - outline) as int;
    let s = scale as int;
    let w = width as int;
    assert(a / s < w) by (nonlinear_arith)
        requires
            0 <= a < w * s,
            s > 0,
    ;
    assert(b / s < w) by (nonlinear_arith)
        requires
            0 <= b < w * s,
            s > 0,
    ;
    assert(0 <= a / s && 0 <= b / s) by (nonlinear_arith)
        requires
            0 <= a,
            0 <= b,
            s > 0,
    ;
    let qa = a / s;
    let qb = b / s;
    assert(qb * w + qa < w * w) by (nonlinear_arith)
        requires
            0 <= qa < w,
            0 <= qb < w,
    ;
    assert(0 <= qb * w + qa) by (nonlinear_arith)
        requires
            0 <= qa,
            0 <= qb,
            0 <= w,
    ;
}

/// Scales the modules of a code of the given width into a bitmap with a
/// light border of `outline` pixels, each module `scale` pixels wide.
pub fn render_qr(width: usize, modules: &Vec<bool>, scale: usize, outline: usize) -> (r: QrBitmap)
    requires
        modules@.len() == width * width,
        (width * scale + 2 * outline) * (width * scale + 2 * outline) <= usize::MAX,
    ensures
        renders(width as nat, modules@, scale as nat, outline as nat, r),
{
    assert(width * scale + 2 * outline <= (width * scale + 2 * outline) * (width * scale + 2 * outline)) by (nonlinear_arith)
        requires
            0 <= width * scale,
            0 <= outline,
    ;
    let _len = modules.len();
    let ws = width * scale;
    let size = ws + 2 * outline;
    let total = size * size;
    let mut dark: Vec<bool> = Vec::new();
    let mut y: usize = 0;
    while y < size
        invariant
            size == width * scale + 2 * outline,
            ws == width * scale,
            total == size * size,
            modules@.len() == width * width,
            modules@.len() <= usize::MAX,
            y <= size,
            dark@.len() == y * size,
            forall|px: nat, py: nat|
                px < size && py < y ==> #[trigger] dark@[(py * size + px) as int] == pixel_dark(
                    width as nat,
                    modules@,
                    scale as nat,
                    outline as nat,
                    px,
                    py,
                ),
        decreases size - y,
    {
        let mut x: usize = 0;
        let ghost row_start = dark@.len();
        assert(y * size + size <= size * size) by (nonlinear_arith)
            requires
                y < size,
        ;
        while x < size
            invariant
                size == width * scale + 2 * outline,
                ws == width * scale,
                total == size * size,
                modules@.len() == width * width,
                modules@.len() <= usize::MAX,
                y < size,
                x <= size,
                row_start == y * size,
                y * size + size <= size * size,
                dark@.len() == y * size + x,
                forall|px: nat, py: nat|
                    px < size && py < y ==> #[trigger] dark@[(py * size + px) as int] == pixel_dark(
                        width as nat,
                        modules@,
                        scale as nat,
                        outline as nat,
                        px,
                        py,
                    ),
                forall|px: nat|
                    px < x ==> #[trigger] dark@[(y * size + px) as int] == pixel_dark(
                        width as nat,
                        modules@,
                        scale as nat,
                        outline as nat,
                        px,
                        y as nat,
                    ),
            decreases size - x,
        {
            let inside = outline <= x && x - outline < ws && outline <= y && y - outline < ws;
            let v = if inside {
                proof {
                    lemma_module_index(width as nat, scale as nat, outline as nat, x as nat, y as nat);
                }
                let mx = (x - outline) / scale;
                let my = (y - outline) / scale;
                assert(my * width + mx < width * width);
                assert(modules@.len() <= usize::MAX);
                modules[my * width + mx]
            } else {
                false
            };
            let ghost before = dark@;
            dark.push(v);
            proof {
                assert forall|px: nat, py: nat|
                    px < size && py < y implies #[trigger] dark@[(py * size + px) as int] == pixel_dark(
                        width as nat,
                        modules@,
                        scale as nat,
                        outline as nat,
                        px,
                        py,
                    ) by {
                    assert(py * size + px < y * size) by (nonlinear_arith)
                        requires
                            px < size,
                            py < y,
                    ;
                    assert(dark@[(py * size + px) as int] == before[(py * size + px) as int]);
                }
                assert forall|px: nat| px < x + 1 implies #[trigger] dark@[(y * size + px) as int]
                    == pixel_dark(width as nat, modules@, scale as nat, outline as nat, px, y as nat) by {
                    if px < x {
                        assert(dark@[(y * size + px) as int] == before[(y * size + px) as int]);
                    }
                }
            }
            x = x + 1;
        }
        proof {
            assert forall|px: nat, py: nat|
                px < size && py < y + 1 implies #[trigger] dark@[(py * size + px) as int] == pixel_dark(
                    width as nat,
                    modules@,
                    scale as nat,
                    outline as nat,
                    px,
                    py,
                ) by {
                if py == y {
                    assert(dark@[(y * size + px) as int] == pixel_dark(
                        width as nat,
                        modules@,
                        scale as nat,
                        outline as nat,
                        px,
                        y as nat,
                    ));
                }
            }
            assert(dark@.len() == (y + 1) * size) by (nonlinear_arith)
                requires
                    dark@.len() == y * size + size,
            ;
        }
        y = y + 1;
    }
    let r = QrBitmap { size, dark };
    assert(r.dark@.len() == r.size * r.size);
    r
}

/// The bitmap of the QR code of a link: the code scaled into a square with
/// a light border, or a single dark pixel when no code can be made of it.
pub fn build_qr_image(url: &str, scale: usize, outline: usize) -> (r: QrBitmap)
    requires
        (177 * scale + 2 * outline) * (177 * scale + 2 * outline) <= usize::MAX,
    ensures
        match qr_modules(url.spec_bytes()) {
            None => r.size == 1 && r.dark@ == seq![true],
            Some((w, m)) => renders(w, m, scale as nat, outline as nat, r),
        },
{
    match encode_qr(url.as_bytes()) {
        None => {
            let mut dark: Vec<bool> = Vec::new();
            dark.push(true);
            assert(dark@ =~= seq![true]);
            QrBitmap { size: 1, dark }
        },
        Some((w, m)) => {
            assert((w * scale + 2 * outline) * (w * scale + 2 * outline) <= (177 * scale + 2
                * outline) * (177 * scale + 2 * outline)) by (nonlinear_arith)
                requires
                    w <= 177,
            ;
            render_qr(w, &m, scale, outline)
        },
    }
}

} // verus!
