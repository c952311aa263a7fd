//! TSPL command generation: page setup, bitmap rows and page finalizing.
use vstd::prelude::*;
use vstd::slice::slice_to_vec;
use vstd::string::StringSliceAdditionalSpecFns;
use crate::halftone::{halftone, halftone_row};
use crate::ppd::{
    default_marker, marked_choice, unless_default, OptionModel, PpdFile, ChoiceParseError,
};
use crate::text::{bytes_eq, decimal, push_decimal, push_text, text_bytes};

verus! {

/// The model number of the one printer model that is implemented.
pub const BEEPRT: i32 = 37155;

/// The page metadata that command generation reads from a raster page
/// header.
#[derive(Clone, Copy, Debug)]
pub struct PageHeader {
    /// Horizontal resolution, in dots per inch.
    pub hw_resolution_x: u32,
    /// Vertical resolution, in dots per inch.
    pub hw_resolution_y: u32,
    /// Width of the page, in pixels.
    pub width: u32,
    /// Height of the page, in pixels (rows).
    pub height: u32,
    /// Number of bytes in each row of pixel data.
    pub bytes_per_line: u32,
}

/// Why a job stops with a failure.
pub enum JobError {
    /// The device description names a printer model that is not supported.
    UnsupportedModel(i32),
    /// An explicit choice for `keyword` does not read as a number.
    InvalidChoice { keyword: Vec<u8>, choice: Vec<u8> },
    /// A page header reports a resolution of zero.
    MalformedHeader,
    /// The raster input held no complete page.
    ZeroPages,
}

/// What a job error is, mathematically.
pub ghost enum JobErrorModel {
    UnsupportedModel(i32),
    InvalidChoice(Seq<u8>, Seq<u8>),
    MalformedHeader,
    ZeroPages,
}

impl View for JobError {
    type V = JobErrorModel;

    open spec fn view(&self) -> JobErrorModel {
        match self {
            JobError::UnsupportedModel(m) => JobErrorModel::UnsupportedModel(*m),
            JobError::InvalidChoice { keyword, choice } => JobErrorModel::InvalidChoice(
                keyword@,
                choice@,
            ),
            JobError::MalformedHeader => JobErrorModel::MalformedHeader,
            JobError::ZeroPages => JobErrorModel::ZeroPages,
        }
    }
}

/// How the printer finds the boundaries of labels.
#[derive(Clone, Copy, Debug, PartialEq, Eq, Structural)]
pub enum MediaTracking {
    Gap,
    BLine,
    Continuous,
}

/// The settings of one page, as resolved from the configuration.
pub ghost struct PageSettings {
    pub reference_x: int,
    pub reference_y: int,
    pub rotate: int,
    pub tracking: MediaTracking,
    pub gap_mark_height: int,
    pub gap_mark_offset: int,
    pub feed_offset: int,
    pub darkness: int,
    pub speed: int,
    pub autodotted: int,
}

pub open spec fn lit(s: &str) -> Seq<u8> {
    s.spec_bytes()
}

/// A control command: its text followed by CR LF.
pub open spec fn line(s: Seq<u8>) -> Seq<u8> {
    s + lit("\r\n")
}

pub open spec fn ceil_div(a: int, b: int) -> int {
    (a + b - 1) / b
}

/// Dots per millimetre for a resolution in dots per inch, rounded up.
pub open spec fn dots_per_mm(resolution: int) -> int {
    ceil_div(10 * resolution, 254)
}

/// A header whose resolutions allow the conversion to millimetres.
pub open spec fn header_valid(h: PageHeader) -> bool {
    h.hw_resolution_x > 0 && h.hw_resolution_y > 0
}

/// A numeric setting: the marked choice for `kw` read as an integer, or
/// `default` where nothing is marked or the `Default` marker is; `None`
/// where the explicit choice does not read as an integer.
pub open spec fn setting(opts: Seq<OptionModel>, kw: Seq<u8>, default: int) -> Option<int> {
    match unless_default(marked_choice(opts, kw), default_marker()) {
        Some(Some(v)) => Some(v as int),
        Some(None) => Some(default),
        None => None,
    }
}

/// Media tracking from the marked choice: `BLine` and `Continuous` by
/// name, `Gap` for anything else.
pub open spec fn tracking_of(m: Option<Seq<u8>>) -> MediaTracking {
    match m {
        Some(c) => if c == lit("BLine") {
            MediaTracking::BLine
        } else if c == lit("Continuous") {
            MediaTracking::Continuous
        } else {
            MediaTracking::Gap
        },
        None => MediaTracking::Gap,
    }
}

/// The page settings, or `None` where one of them does not read as an
/// integer.
pub open spec fn page_settings(opts: Seq<OptionModel>) -> Option<PageSettings> {
    let rx = setting(opts, lit("AdjustHoriaontal"), 0);
    let ry = setting(opts, lit("AdjustVertical"), 0);
    let rot = setting(opts, lit("Rotate"), 0);
    let gh = setting(opts, lit("GapOrMarkHeight"), 3);
    let go = setting(opts, lit("GapOrMarkOffset"), 0);
    let fo = setting(opts, lit("FeedOffset"), 0);
    let dk = setting(opts, lit("Darkness"), 8);
    let sp = setting(opts, lit("zePrintRate"), 4);
    let ad = setting(opts, lit("Autodotted"), 0);
    if rx is Some && ry is Some && rot is Some && gh is Some && go is Some && fo is Some
        && dk is Some && sp is Some && ad is Some {
        Some(
            PageSettings {
                reference_x: rx->Some_0,
                reference_y: ry->Some_0,
                rotate: rot->Some_0,
                tracking: tracking_of(marked_choice(opts, lit("zeMediaTracking"))),
                gap_mark_height: gh->Some_0,
                gap_mark_offset: go->Some_0,
                feed_offset: fo->Some_0,
                darkness: dk->Some_0,
                speed: sp->Some_0,
                autodotted: ad->Some_0,
            },
        )
    } else {
        None
    }
}

/// The keyword of the first setting, in the order in which they are read,
/// whose explicit choice does not read as an integer.
pub open spec fn first_invalid_setting(opts: Seq<OptionModel>) -> Option<Seq<u8>> {
    if setting(opts, lit("AdjustHoriaontal"), 0) is None {
        Some(lit("AdjustHoriaontal"))
    } else if setting(opts, lit("AdjustVertical"), 0) is None {
        Some(lit("AdjustVertical"))
    } else if setting(opts, lit("Rotate"), 0) is None {
        Some(lit("Rotate"))
    } else if setting(opts, lit("GapOrMarkHeight"), 3) is None {
        Some(lit("GapOrMarkHeight"))
    } else if setting(opts, lit("GapOrMarkOffset"), 0) is None {
        Some(lit("GapOrMarkOffset"))
    } else if setting(opts, lit("FeedOffset"), 0) is None {
        Some(lit("FeedOffset"))
    } else if setting(opts, lit("Darkness"), 8) is None {
        Some(lit("Darkness"))
    } else if setting(opts, lit("zePrintRate"), 4) is None {
        Some(lit("zePrintRate"))
    } else if setting(opts, lit("Autodotted"), 0) is None {
        Some(lit("Autodotted"))
    } else {
        None
    }
}

/// The outcome of setting up a page: the unsupported model first, then a
/// header without resolution, then the first setting that does not read;
/// otherwise the setup commands.
pub open spec fn page_start(model: i32, opts: Seq<OptionModel>, h: PageHeader) -> Result<
    Seq<u8>,
    JobErrorModel,
> {
    if model != BEEPRT {
        Err(JobErrorModel::UnsupportedModel(model))
    } else if !header_valid(h) {
        Err(JobErrorModel::MalformedHeader)
    } else {
        match first_invalid_setting(opts) {
            Some(kw) => Err(JobErrorModel::InvalidChoice(kw, marked_choice(opts, kw)->Some_0)),
            None => Ok(page_setup_text(h, page_settings(opts)->Some_0)),
        }
    }
}

/// The media tracking command.
pub open spec fn tracking_line(s: PageSettings) -> Seq<u8> {
    match s.tracking {
        MediaTracking::Gap => line(
            lit("GAP ") + decimal(s.gap_mark_height) + lit(" mm,") + decimal(s.gap_mark_offset)
                + lit(" mm"),
        ),
        MediaTracking::BLine => line(
            lit("BLINE ") + decimal(s.gap_mark_height) + lit(" mm,") + decimal(s.gap_mark_offset)
                + lit(" mm"),
        ),
        MediaTracking::Continuous => line(lit("GAP 0 mm,0 mm")),
    }
}

/// The size, reference and direction commands.
pub open spec fn geometry_lines(h: PageHeader, s: PageSettings) -> Seq<u8> {
    let dx = dots_per_mm(h.hw_resolution_x as int);
    let dy = dots_per_mm(h.hw_resolution_y as int);
    line(
        lit("SIZE ") + decimal(ceil_div(h.width as int, dx)) + lit(" mm,") + decimal(
            ceil_div(h.height as int, dy),
        ) + lit(" mm"),
    ) + line(lit("REFERENCE ") + decimal(dx * s.reference_x) + lit(",") + decimal(dy * s.reference_y))
        + line(lit("DIRECTION ") + decimal(s.rotate) + lit(",0"))
}

/// The feed, density, speed and session commands, up to and including the
/// buffer clear.
pub open spec fn printing_lines(s: PageSettings) -> Seq<u8> {
    line(lit("OFFSET ") + decimal(s.feed_offset) + lit(" mm")) + line(
        lit("DENSITY ") + decimal(s.darkness),
    ) + line(lit("SPEED ") + decimal(s.speed)) + line(
        if s.autodotted != 0 {
            lit("SETC AUTODOTTED ON")
        } else {
            lit("SETC AUTODOTTED OFF")
        },
    ) + line(lit("SETC PAUSEKEY ON")) + line(lit("SETC WATERMARK OFF")) + line(lit("CLS"))
}

/// The bitmap header that opens the page's pixel data: byte width, height
/// and mode, ended by a comma, after which the raw rows follow.
pub open spec fn bitmap_open(h: PageHeader) -> Seq<u8> {
    lit("BITMAP 0,0,") + decimal(ceil_div(h.width as int, 8)) + lit(",") + decimal(h.height as int)
        + lit(",1,")
}

/// Everything sent to set up a page, in order.
pub open spec fn page_setup_text(h: PageHeader, s: PageSettings) -> Seq<u8> {
    geometry_lines(h, s) + tracking_line(s) + printing_lines(s) + bitmap_open(h)
}

/// What ends a page: a blank line, then the print command for one copy.
pub open spec fn page_end_text() -> Seq<u8> {
    line(lit("\r\nPRINT 1,1"))
}

/// Checks that the device description names the supported model.
pub fn setup(ppd: &PpdFile) -> (r: Result<(), JobError>)
    ensures
        ppd.model_number == BEEPRT <==> r is Ok,
        r is Err ==> r->Err_0 == JobError::UnsupportedModel(ppd.model_number),
{
    if ppd.model_number == BEEPRT {
        Ok(())
    } else {
        Err(JobError::UnsupportedModel(ppd.model_number))
    }
}

/// A numeric setting with its fallback.
fn read_setting(ppd: &PpdFile, kw: &str, default: i32) -> (r: Result<i32, JobError>)
    ensures
        match setting(ppd.options_view(), kw.spec_bytes(), default as int) {
            Some(v) => r is Ok && r->Ok_0 == v,
            None => r is Err && r->Err_0 is InvalidChoice && r->Err_0->keyword@ == kw.spec_bytes()
                && Some(r->Err_0->choice@) == marked_choice(ppd.options_view(), kw.spec_bytes()),
        },
{
    let k = text_bytes(kw);
    match ppd.parse_default_marked_choice(k) {
        Ok(Some(v)) => Ok(v),
        Ok(None) => Ok(default),
        Err(ChoiceParseError { choice }) => Err(
            JobError::InvalidChoice { keyword: slice_to_vec(k), choice },
        ),
    }
}

fn read_tracking(ppd: &PpdFile) -> (r: MediaTracking)
    ensures
        r == tracking_of(marked_choice(ppd.options_view(), lit("zeMediaTracking"))),
{
    match ppd.find_marked_choice(text_bytes("zeMediaTracking")) {
        Some(c) => if bytes_eq(c.choice(), text_bytes("BLine")) {
            MediaTracking::BLine
        } else if bytes_eq(c.choice(), text_bytes("Continuous")) {
            MediaTracking::Continuous
        } else {
            MediaTracking::Gap
        },
        None => MediaTracking::Gap,
    }
}

fn push_line_end(out: &mut Vec<u8>)
    ensures
        final(out)@ == old(out)@ + lit("\r\n"),
{
    push_text(out, "\r\n");
}

proof fn lemma_product_bound(d: int, v: int)
    requires
        1 <= d <= 169093226,
        -2147483648 <= v <= 2147483647,
    ensures
        -400000000000000000 <= d * v <= 400000000000000000,
{
    if v >= 0 {
        assert(d * v <= 169093226 * 2147483647) by (nonlinear_arith)
            requires
                1 <= d <= 169093226,
                0 <= v <= 2147483647,
        ;
        assert(d * v >= 0) by (nonlinear_arith)
            requires
                1 <= d,
                0 <= v,
        ;
    } else {
        assert(d * (-v) <= 169093226 * 2147483648) by (nonlinear_arith)
            requires
                1 <= d <= 169093226,
                0 < -v <= 2147483648,
        ;
        assert(d * (-v) >= 0) by (nonlinear_arith)
            requires
                1 <= d,
                0 < -v,
        ;
        assert(d * v == -(d * (-v))) by (nonlinear_arith);
    }
}

/// Appends one control command made of a prefix, a number and a suffix.
fn push_number_line(out: &mut Vec<u8>, prefix: &str, n: i64, suffix: &str)
    ensures
        final(out)@ == old(out)@ + line(lit(prefix) + decimal(n as int) + lit(suffix)),
{
    let ghost start = out@;
    push_text(out, prefix);
    push_decimal(out, n);
    push_text(out, suffix);
    push_line_end(out);
    proof {
        assert(out@ =~= start + line(lit(prefix) + decimal(n as int) + lit(suffix)));
    }
}

/// Appends one control command made of a prefix and a number.
fn push_value_line(out: &mut Vec<u8>, prefix: &str, n: i64)
    ensures
        final(out)@ == old(out)@ + line(lit(prefix) + decimal(n as int)),
{
    let ghost start = out@;
    push_text(out, prefix);
    push_decimal(out, n);
    push_line_end(out);
    proof {
        assert(out@ =~= start + line(lit(prefix) + decimal(n as int)));
    }
}

/// Appends one control command of fixed text.
fn push_line(out: &mut Vec<u8>, text: &str)
    ensures
        final(out)@ == old(out)@ + line(lit(text)),
{
    let ghost start = out@;
    push_text(out, text);
    push_line_end(out);
    proof {
        assert(out@ =~= start + line(lit(text)));
    }
}

fn push_geometry(out: &mut Vec<u8>, h: &PageHeader, s: Ghost<PageSettings>, dx: u64, dy: u64, rx: i32, ry: i32, rotate: i32)
    requires
        header_valid(*h),
        dx == dots_per_mm(h.hw_resolution_x as int),
        dy == dots_per_mm(h.hw_resolution_y as int),
        rx == s@.reference_x,
        ry == s@.reference_y,
        rotate == s@.rotate,
    ensures
        final(out)@ == old(out)@ + geometry_lines(*h, s@),
{
    proof {
        assert(dx >= 1 && dx <= 169093226) by (nonlinear_arith)
            requires
                dx == (10 * h.hw_resolution_x + 254 - 1) / 254,
                h.hw_resolution_x >= 1,
                h.hw_resolution_x <= 4294967295,
        ;
        assert(dy >= 1 && dy <= 169093226) by (nonlinear_arith)
            requires
                dy == (10 * h.hw_resolution_y + 254 - 1) / 254,
                h.hw_resolution_y >= 1,
                h.hw_resolution_y <= 4294967295,
        ;
        lemma_product_bound(dx as int, rx as int);
        lemma_product_bound(dy as int, ry as int);
    }
    let width_mm: u64 = (h.width as u64 + dx - 1) / dx;
    let height_mm: u64 = (h.height as u64 + dy - 1) / dy;
    proof {
        assert(width_mm <= h.width) by (nonlinear_arith)
            requires
                width_mm == (h.width as int + dx - 1) / (dx as int),
                dx >= 1,
        ;
        assert(height_mm <= h.height) by (nonlinear_arith)
            requires
                height_mm == (h.height as int + dy - 1) / (dy as int),
                dy >= 1,
        ;
    }
    let ghost start = out@;
    push_text(out, "SIZE ");
    push_decimal(out, width_mm as i64);
    push_text(out, " mm,");
    push_decimal(out, height_mm as i64);
    push_text(out, " mm");
    push_line_end(out);
    push_text(out, "REFERENCE ");
    push_decimal(out, dx as i64 * rx as i64);
    push_text(out, ",");
    push_decimal(out, dy as i64 * ry as i64);
    push_line_end(out);
    push_text(out, "DIRECTION ");
    push_decimal(out, rotate as i64);
    push_text(out, ",0");
    push_line_end(out);
    proof {
        assert(out@ =~= start + geometry_lines(*h, s@));
    }
}

fn push_tracking(out: &mut Vec<u8>, s: Ghost<PageSettings>, tracking: MediaTracking, height: i32, offset: i32)
    requires
        tracking == s@.tracking,
        height == s@.gap_mark_height,
        offset == s@.gap_mark_offset,
    ensures
        final(out)@ == old(out)@ + tracking_line(s@),
{
    let ghost start = out@;
    match tracking {
        MediaTracking::Gap => {
            push_text(out, "GAP ");
            push_decimal(out, height as i64);
            push_text(out, " mm,");
            push_decimal(out, offset as i64);
            push_text(out, " mm");
        },
        MediaTracking::BLine => {
            push_text(out, "BLINE ");
            push_decimal(out, height as i64);
            push_text(out, " mm,");
            push_decimal(out, offset as i64);
            push_text(out, " mm");
        },
        MediaTracking::Continuous => {
            push_text(out, "GAP 0 mm,0 mm");
        },
    }
    push_line_end(out);
    proof {
        assert(out@ =~= start + tracking_line(s@));
    }
}

fn push_printing(out: &mut Vec<u8>, s: Ghost<PageSettings>, feed: i32, darkness: i32, speed: i32, autodotted: i32)
    requires
        feed == s@.feed_offset,
        darkness == s@.darkness,
        speed == s@.speed,
        autodotted == s@.autodotted,
    ensures
        final(out)@ == old(out)@ + printing_lines(s@),
{
    let ghost start = out@;
    push_number_line(out, "OFFSET ", feed as i64, " mm");
    push_value_line(out, "DENSITY ", darkness as i64);
    push_value_line(out, "SPEED ", speed as i64);
    if autodotted != 0 {
        push_line(out, "SETC AUTODOTTED ON");
    } else {
        push_line(out, "SETC AUTODOTTED OFF");
    }
    push_line(out, "SETC PAUSEKEY ON");
    push_line(out, "SETC WATERMARK OFF");
    push_line(out, "CLS");
    proof {
        assert(out@ =~= start + printing_lines(s@));
    }
}

fn push_bitmap_open(out: &mut Vec<u8>, h: &PageHeader)
    ensures
        final(out)@ == old(out)@ + bitmap_open(*h),
{
    let ghost start = out@;
    push_text(out, "BITMAP 0,0,");
    push_decimal(out, ((h.width as u64 + 7) / 8) as i64);
    push_text(out, ",");
    push_decimal(out, h.height as i64);
    push_text(out, ",1,");
    proof {
        assert(out@ =~= start + bitmap_open(*h));
    }
}

/// The commands that set up a page, up to the opening of its bitmap; the
/// page's rows follow them directly.
pub fn start_page(ppd: &PpdFile, header: &PageHeader) -> (r: Result<Vec<u8>, JobError>)
    ensures
        match page_start(ppd.model_number, ppd.options_view(), *header) {
            Ok(text) => r is Ok && r->Ok_0@ == text,
            Err(e) => r is Err && r->Err_0@ == e,
        },
{
    if ppd.model_number != BEEPRT {
        return Err(JobError::UnsupportedModel(ppd.model_number));
    }
    if header.hw_resolution_x == 0 || header.hw_resolution_y == 0 {
        return Err(JobError::MalformedHeader);
    }
    let dx: u64 = (10 * header.hw_resolution_x as u64 + 253) / 254;
    let dy: u64 = (10 * header.hw_resolution_y as u64 + 253) / 254;
    let rx = match read_setting(ppd, "AdjustHoriaontal", 0) {
        Ok(v) => v,
        Err(e) => return Err(e),
    };
    let ry = match read_setting(ppd, "AdjustVertical", 0) {
        Ok(v) => v,
        Err(e) => return Err(e),
    };
    let rotate = match read_setting(ppd, "Rotate", 0) {
        Ok(v) => v,
        Err(e) => return Err(e),
    };
    let tracking = read_tracking(ppd);
    let gap_height = match read_setting(ppd, "GapOrMarkHeight", 3) {
        Ok(v) => v,
        Err(e) => return Err(e),
    };
    let gap_offset = match read_setting(ppd, "GapOrMarkOffset", 0) {
        Ok(v) => v,
        Err(e) => return Err(e),
    };
    let feed = match read_setting(ppd, "FeedOffset", 0) {
        Ok(v) => v,
        Err(e) => return Err(e),
    };
    let darkness = match read_setting(ppd, "Darkness", 8) {
        Ok(v) => v,
        Err(e) => return Err(e),
    };
    let speed = match read_setting(ppd, "zePrintRate", 4) {
        Ok(v) => v,
        Err(e) => return Err(e),
    };
    let autodotted = match read_setting(ppd, "Autodotted", 0) {
        Ok(v) => v,
        Err(e) => return Err(e),
    };
    let ghost s = page_settings(ppd.options_view())->Some_0;
    let mut out: Vec<u8> = Vec::new();
    push_geometry(&mut out, header, Ghost(s), dx, dy, rx, ry, rotate);
    push_tracking(&mut out, Ghost(s), tracking, gap_height, gap_offset);
    push_printing(&mut out, Ghost(s), feed, darkness, speed, autodotted);
    push_bitmap_open(&mut out, header);
    proof {
        assert(out@ =~= page_setup_text(*header, s));
    }
    Ok(out)
}

/// The bitmap bytes of one row of the page.
pub fn output_line(ppd: &PpdFile, header: &PageHeader, y: u32, buffer: &[u8]) -> (r: Result<
    Vec<u8>,
    JobError,
>)
    ensures
        ppd.model_number == BEEPRT ==> r is Ok && r->Ok_0@ == halftone(buffer@),
        ppd.model_number != BEEPRT ==> r is Err && r->Err_0 == JobError::UnsupportedModel(
            ppd.model_number,
        ),
{
    if ppd.model_number != BEEPRT {
        return Err(JobError::UnsupportedModel(ppd.model_number));
    }
    Ok(halftone_row(buffer))
}

/// The commands that end a page and print it.
pub fn end_page(ppd: &PpdFile, header: &PageHeader) -> (r: Result<Vec<u8>, JobError>)
    ensures
        ppd.model_number == BEEPRT ==> r is Ok && r->Ok_0@ == page_end_text(),
        ppd.model_number != BEEPRT ==> r is Err && r->Err_0 == JobError::UnsupportedModel(
            ppd.model_number,
        ),
{
    if ppd.model_number != BEEPRT {
        return Err(JobError::UnsupportedModel(ppd.model_number));
    }
    let mut out: Vec<u8> = Vec::new();
    push_text(&mut out, "\r\nPRINT 1,1");
    push_line_end(&mut out);
    Ok(out)
}

} // verus!
