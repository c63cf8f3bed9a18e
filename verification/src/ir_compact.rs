//! The compact IR served to models: style records, their string forms, and the shaping
//! of a slice (its anchor, border shorthand, truncated texts).
use vstd::prelude::*;
use crate::model::{Cell, VerticalAlign};
use crate::text::{push_char, chars_of, string_from_chars};

verus! {

/// A paragraph's style as served: alignment keyword, indent, and line height (percent).
#[derive(Debug)]
pub struct ParagraphStyle {
    pub align: Option<String>,
    pub indent: Option<i32>,
    pub line_height: Option<i32>,
}

impl Default for ParagraphStyle {
    fn default() -> (s: Self)
        ensures
            s.align is None && s.indent is None && s.line_height is None,
    {
        ParagraphStyle { align: None, indent: None, line_height: None }
    }
}

/// A run's character style as served. The font size is held in hundredths of a point
/// (the character shape's base size); it is served as that number over 100.
#[derive(Clone, Debug, PartialEq)]
pub struct RunStyle {
    pub bold: Option<bool>,
    pub italic: Option<bool>,
    pub underline: Option<bool>,
    pub strikethrough: Option<bool>,
    pub color: Option<String>,
    pub highlight: Option<String>,
    pub font_size: Option<i64>,
    pub font_name: Option<String>,
    pub char_spacing: Option<i32>,
    pub char_width: Option<i32>,
    pub vertical_align: Option<String>,
}

impl Default for RunStyle {
    fn default() -> (s: Self)
        ensures
            s.bold is None && s.italic is None && s.underline is None && s.strikethrough is None
                && s.color is None && s.highlight is None && s.font_size is None && s.font_name is None
                && s.char_spacing is None && s.char_width is None && s.vertical_align is None,
    {
        RunStyle {
            bold: None,
            italic: None,
            underline: None,
            strikethrough: None,
            color: None,
            highlight: None,
            font_size: None,
            font_name: None,
            char_spacing: None,
            char_width: None,
            vertical_align: None,
        }
    }
}

/// One border line as served: line kind, width and colour.
#[derive(Debug)]
pub struct CellBorderSpec {
    pub border_type: Option<u8>,
    pub width: Option<i32>,
    pub color: Option<String>,
}

/// A cell's borders: four sides, or `all` when the four are the same.
#[derive(Debug)]
pub struct CellBorder {
    pub left: Option<CellBorderSpec>,
    pub right: Option<CellBorderSpec>,
    pub top: Option<CellBorderSpec>,
    pub bottom: Option<CellBorderSpec>,
    pub all: Option<CellBorderSpec>,
}

/// A cell's style as served.
#[derive(Debug)]
pub struct CellStyle {
    pub bgcolor: Option<String>,
    pub width: Option<i32>,
    pub height: Option<i32>,
    pub border: Option<CellBorder>,
    pub vertical_align: Option<String>,
}

/// Where a cell paragraph sits: the table's paragraph, the cell, the paragraph in the cell.
#[derive(Clone, Copy, Debug, PartialEq, Eq)]
pub struct CellLocator {
    pub table_para: usize,
    pub row: u16,
    pub col: u16,
    pub cell_para: usize,
}

/// The range a slice covers: a section and a half-open paragraph range.
#[derive(Clone, Copy, Debug, PartialEq, Eq)]
pub struct IrAnchor {
    pub sec: usize,
    pub para_start: usize,
    pub para_end: usize,
}

/// A slice's metadata.
#[derive(Debug)]
pub struct IrDocMeta {
    pub edit_session_id: String,
    pub page: u32,
    pub total_pages: u32,
    pub anchor: IrAnchor,
}

/// How much of each paragraph a response carries.
#[derive(Clone, Copy, Debug, PartialEq, Eq, Structural)]
pub enum Detail {
    Raw,
    Compact,
    Outline,
    Structure,
}

/// How much style a response carries.
#[derive(Clone, Copy, Debug, PartialEq, Eq, Structural)]
pub enum StyleLevel {
    Full,
    Essential,
    /// No style at all (paragraphs, runs and cells).
    NoStyle,
}

/// How much of each table a response carries.
#[derive(Clone, Copy, Debug, PartialEq, Eq, Structural)]
pub enum TableLevel {
    Full,
    Structure,
    Count,
}

impl Default for Detail {
    fn default() -> (d: Detail)
        ensures
            d == Detail::Compact,
    {
        Detail::Compact
    }
}

impl Default for StyleLevel {
    fn default() -> (d: StyleLevel)
        ensures
            d == StyleLevel::Essential,
    {
        StyleLevel::Essential
    }
}

impl Default for TableLevel {
    fn default() -> (d: TableLevel)
        ensures
            d == TableLevel::Full,
    {
        TableLevel::Full
    }
}

/// What slice to build: a section and a half-open paragraph range (`para_end` none: to the
/// section's end), or a page (a client-computed range for it, when given, wins), and the
/// response options.
#[derive(Debug)]
pub struct BuildOptions {
    pub sec: usize,
    pub para_start: usize,
    pub para_end: Option<usize>,
    pub edit_session_id: Option<String>,
    pub page: Option<u32>,
    pub page_override_range: Option<(usize, usize, usize)>,
    pub total_pages_override: Option<u32>,
    pub detail: Detail,
    pub include_style: StyleLevel,
    pub include_tables: TableLevel,
    pub max_text_chars: Option<u32>,
}

impl Default for CellBorderSpec {
    fn default() -> (s: Self)
        ensures
            s.border_type is None && s.width is None && s.color is None,
    {
        CellBorderSpec { border_type: None, width: None, color: None }
    }
}

impl Default for CellBorder {
    fn default() -> (s: Self)
        ensures
            s.left is None && s.right is None && s.top is None && s.bottom is None && s.all is None,
    {
        CellBorder { left: None, right: None, top: None, bottom: None, all: None }
    }
}

impl Default for BuildOptions {
    fn default() -> (o: Self)
        ensures
            o.sec == 0 && o.para_start == 0 && o.para_end is None && o.edit_session_id is None && o.page is None
                && o.page_override_range is None && o.total_pages_override is None && o.detail == Detail::Compact
                && o.include_style == StyleLevel::Essential && o.include_tables == TableLevel::Full
                && o.max_text_chars is None,
    {
        BuildOptions {
            sec: 0,
            para_start: 0,
            para_end: None,
            edit_session_id: None,
            page: None,
            page_override_range: None,
            total_pages_override: None,
            detail: Detail::Compact,
            include_style: StyleLevel::Essential,
            include_tables: TableLevel::Full,
            max_text_chars: None,
        }
    }
}

/// Before/after statistics of an edit.
#[derive(Debug)]
pub struct PatchSummary {
    pub changed: bool,
    pub before_para_count: usize,
    pub after_para_count: usize,
    pub before_text_len: usize,
    pub after_text_len: usize,
    pub no_change_warning: Option<String>,
}

/// Paragraph alignment.
#[derive(Clone, Copy, Debug, PartialEq, Eq)]
pub enum Alignment {
    Justify,
    Left,
    Right,
    Center,
    Distribute,
    Split,
}

/// How a paragraph's line spacing is measured.
#[derive(Clone, Copy, Debug, PartialEq, Eq)]
pub enum LineSpacingType {
    Percent,
    Fixed,
    SpaceOnly,
    Minimum,
}

/// The paragraph shape fields a style is read from.
#[derive(Clone, Copy, Debug, PartialEq, Eq)]
pub struct ParaShape {
    pub alignment: Alignment,
    pub indent: i32,
    pub line_spacing_type: LineSpacingType,
    pub line_spacing: i32,
}

/// A border line of a border fill: its kind (`0` is no line), width index and colour
/// (`0x00BBGGRR`).
#[derive(Clone, Copy, Debug, PartialEq, Eq)]
pub struct BorderLine {
    pub line_type: u8,
    pub width: u8,
    pub color: u32,
}

/// A resolved border fill: the fill colour, if any, and the four lines (left, right, top,
/// bottom).
#[derive(Clone, Copy, Debug, PartialEq, Eq)]
pub struct ResolvedBorderStyle {
    pub fill_color: Option<u32>,
    pub borders: [BorderLine; 4],
}

/// Upper-case hexadecimal digit of `d < 16`.
pub open spec fn hex_digit_upper(d: int) -> char {
    if d < 10 {
        (48 + d) as char
    } else {
        (55 + d) as char
    }
}

/// Two upper-case hexadecimal digits of a byte.
pub open spec fn hex_byte(b: int) -> Seq<char> {
    seq![hex_digit_upper(b / 16), hex_digit_upper(b % 16)]
}

/// `#RRGGBB` of a colour `0x00BBGGRR`.
pub open spec fn css_color(c: u32) -> Seq<char> {
    seq!['#'] + hex_byte((c % 256) as int) + hex_byte(((c / 256) % 256) as int) + hex_byte(((c / 65536) % 256) as int)
}

fn hex_char(d: u8) -> (c: char)
    requires
        d < 16,
    ensures
        c == hex_digit_upper(d as int),
{
    if d < 10 {
        (48 + d) as char
    } else {
        (55 + d) as char
    }
}

fn push_hex_byte(out: &mut String, b: u32)
    requires
        b < 256,
    ensures
        final(out)@ == old(out)@ + hex_byte(b as int),
{
    push_char(out, hex_char((b / 16) as u8));
    push_char(out, hex_char((b % 16) as u8));
    assert(final(out)@ =~= old(out)@ + hex_byte(b as int));
}

/// A colour `0x00BBGGRR` as `#RRGGBB` (upper-case hex).
pub fn color_ref_to_css(color: u32) -> (s: String)
    ensures
        s@ == css_color(color),
{
    let mut s = String::new();
    push_char(&mut s, '#');
    push_hex_byte(&mut s, color % 256);
    push_hex_byte(&mut s, (color / 256) % 256);
    push_hex_byte(&mut s, (color / 65536) % 256);
    assert(s@ =~= css_color(color));
    s
}

/// The keyword of an alignment.
pub open spec fn alignment_name(a: Alignment) -> Seq<char> {
    match a {
        Alignment::Justify => "justify"@,
        Alignment::Left => "left"@,
        Alignment::Right => "right"@,
        Alignment::Center => "center"@,
        Alignment::Distribute => "distribute"@,
        Alignment::Split => "split"@,
    }
}

/// The keyword of an alignment.
pub fn alignment_to_str(a: Alignment) -> (s: &'static str)
    ensures
        s@ == alignment_name(a),
{
    match a {
        Alignment::Justify => "justify",
        Alignment::Left => "left",
        Alignment::Right => "right",
        Alignment::Center => "center",
        Alignment::Distribute => "distribute",
        Alignment::Split => "split",
    }
}

/// The vertical-align keyword of a run: subscript wins over superscript.
pub fn vertical_align_to_str(subscript: bool, superscript: bool) -> (s: &'static str)
    ensures
        s@ == if subscript {
            "sub"@
        } else if superscript {
            "super"@
        } else {
            "baseline"@
        },
{
    if subscript {
        "sub"
    } else if superscript {
        "super"
    } else {
        "baseline"
    }
}

/// The vertical-align keyword of a cell (`Center` is `middle`).
pub open spec fn cell_valign_name(va: VerticalAlign) -> Seq<char> {
    match va {
        VerticalAlign::Top => "top"@,
        VerticalAlign::Center => "middle"@,
        VerticalAlign::Bottom => "bottom"@,
    }
}

/// The vertical-align keyword of a cell (`Center` is `middle`).
pub fn cell_vertical_align_to_str(va: VerticalAlign) -> (s: &'static str)
    ensures
        s@ == cell_valign_name(va),
{
    match va {
        VerticalAlign::Top => "top",
        VerticalAlign::Center => "middle",
        VerticalAlign::Bottom => "bottom",
    }
}

/// The content of a border spec.
pub open spec fn spec_view(b: CellBorderSpec) -> (Option<u8>, Option<i32>, Option<Seq<char>>) {
    (b.border_type, b.width, match b.color {
        Some(c) => Some(c@),
        None => None,
    })
}

/// The content of an optional border spec.
pub open spec fn opt_spec_view(b: Option<CellBorderSpec>) -> Option<(Option<u8>, Option<i32>, Option<Seq<char>>)> {
    match b {
        Some(x) => Some(spec_view(x)),
        None => None,
    }
}

/// The served spec of a border line: none when the line kind is none.
pub open spec fn border_spec_of(b: BorderLine) -> Option<(Option<u8>, Option<i32>, Option<Seq<char>>)> {
    if b.line_type == 0 {
        None
    } else {
        Some((Some(b.line_type), Some(b.width as i32), Some(css_color(b.color))))
    }
}

/// The served spec of a border line: none when the line kind is none.
pub fn border_line_to_spec(b: &BorderLine) -> (r: Option<CellBorderSpec>)
    ensures
        opt_spec_view(r) == border_spec_of(*b),
{
    if b.line_type == 0 {
        return None;
    }
    Some(CellBorderSpec { border_type: Some(b.line_type), width: Some(b.width as i32), color: Some(color_ref_to_css(b.color)) })
}

/// A copy of a border spec.
pub fn copy_spec(b: &CellBorderSpec) -> (r: CellBorderSpec)
    ensures
        spec_view(r) == spec_view(*b),
{
    CellBorderSpec {
        border_type: b.border_type,
        width: b.width,
        color: match &b.color {
            Some(c) => Some(c.clone()),
            None => None,
        },
    }
}

fn copy_opt_spec(b: &Option<CellBorderSpec>) -> (r: Option<CellBorderSpec>)
    ensures
        opt_spec_view(r) == opt_spec_view(*b),
{
    match b {
        Some(x) => Some(copy_spec(x)),
        None => None,
    }
}

fn same_opt_spec(a: &Option<CellBorderSpec>, b: &Option<CellBorderSpec>) -> (r: bool)
    ensures
        r == (opt_spec_view(*a) == opt_spec_view(*b)),
{
    match (a, b) {
        (None, None) => true,
        (Some(x), Some(y)) => {
            let same_color = match (&x.color, &y.color) {
                (None, None) => true,
                (Some(c), Some(d)) => crate::json::str_eq(c.as_str(), d.as_str()),
                _ => false,
            };
            x.border_type == y.border_type && x.width == y.width && same_color
        },
        _ => false,
    }
}

/// The content of a border: its five entries.
pub open spec fn border_view(b: CellBorder) -> Seq<Option<(Option<u8>, Option<i32>, Option<Seq<char>>)>> {
    seq![opt_spec_view(b.left), opt_spec_view(b.right), opt_spec_view(b.top), opt_spec_view(b.bottom), opt_spec_view(b.all)]
}

/// The shorthand of a border: `all` alone when the four sides are set and the same; the four
/// sides (without `all`) when some is set; nothing when none is.
pub open spec fn compacted(b: CellBorder) -> Option<Seq<Option<(Option<u8>, Option<i32>, Option<Seq<char>>)>>> {
    let (l, r, t, bt) = (opt_spec_view(b.left), opt_spec_view(b.right), opt_spec_view(b.top), opt_spec_view(b.bottom));
    if l is Some && r == l && t == l && bt == l {
        Some(seq![None, None, None, None, l])
    } else if l is Some || r is Some || t is Some || bt is Some {
        Some(seq![l, r, t, bt, None])
    } else {
        None
    }
}

/// The shorthand of a border (see `compacted`).
pub fn compact_border(border: &CellBorder) -> (r: Option<CellBorder>)
    ensures
        match r {
            Some(c) => compacted(*border) == Some(border_view(c)),
            None => compacted(*border) is None,
        },
{
    let all_same = border.left.is_some() && same_opt_spec(&border.right, &border.left) && same_opt_spec(&border.top, &border.left)
        && same_opt_spec(&border.bottom, &border.left);
    if all_same {
        let c = CellBorder { left: None, right: None, top: None, bottom: None, all: copy_opt_spec(&border.left) };
        assert(border_view(c) =~= compacted(*border)->Some_0);
        return Some(c);
    }
    if border.left.is_some() || border.right.is_some() || border.top.is_some() || border.bottom.is_some() {
        let c = CellBorder {
            left: copy_opt_spec(&border.left),
            right: copy_opt_spec(&border.right),
            top: copy_opt_spec(&border.top),
            bottom: copy_opt_spec(&border.bottom),
            all: None,
        };
        assert(border_view(c) =~= compacted(*border)->Some_0);
        Some(c)
    } else {
        None
    }
}

/// `st` is the served style of paragraph shape `ps`: its alignment keyword, its indent, and
/// its line spacing as the line height when that is a percentage.
pub open spec fn is_para_style_of(st: ParagraphStyle, ps: ParaShape) -> bool {
    &&& st.align matches Some(a) && a@ == alignment_name(ps.alignment)
    &&& st.indent == Some(ps.indent)
    &&& st.line_height == if ps.line_spacing_type == LineSpacingType::Percent {
        Some(ps.line_spacing)
    } else {
        None::<i32>
    }
}

/// A paragraph shape's served style: alignment and indent always, line height only for
/// percent spacing.
pub fn para_shape_to_para_style(ps: &ParaShape) -> (st: ParagraphStyle)
    ensures
        is_para_style_of(st, *ps),
{
    let is_percent = match ps.line_spacing_type {
        LineSpacingType::Percent => true,
        _ => false,
    };
    ParagraphStyle {
        align: Some(String::from_str(alignment_to_str(ps.alignment))),
        indent: Some(ps.indent),
        line_height: if is_percent {
            Some(ps.line_spacing)
        } else {
            None
        },
    }
}

/// `st` is the served style of `cell` under its resolved border style: the fill colour as
/// the background, the width and height, the four lines (none when no line is drawn), and
/// the vertical alignment keyword.
pub open spec fn is_cell_style_of(st: CellStyle, cell: Cell, border_style: Option<ResolvedBorderStyle>) -> bool {
    &&& match st.bgcolor {
        Some(c) => border_style matches Some(bs) && bs.fill_color matches Some(f) && c@ == css_color(f),
        None => !(border_style matches Some(bs) && bs.fill_color is Some),
    }
    &&& st.width == Some(cell.width as i32)
    &&& st.height == Some(cell.height as i32)
    &&& match st.border {
        Some(b) => border_style matches Some(bs) && border_view(b) == seq![
            border_spec_of(bs.borders[0]),
            border_spec_of(bs.borders[1]),
            border_spec_of(bs.borders[2]),
            border_spec_of(bs.borders[3]),
            None,
        ] && (border_view(b)[0] is Some || border_view(b)[1] is Some || border_view(b)[2] is Some || border_view(b)[3] is Some),
        None => !(border_style matches Some(bs) && (bs.borders[0].line_type != 0 || bs.borders[1].line_type != 0
            || bs.borders[2].line_type != 0 || bs.borders[3].line_type != 0)),
    }
    &&& st.vertical_align matches Some(v) && v@ == cell_valign_name(cell.vertical_align)
}

/// A cell's served style: fill colour and borders come from its resolved border fill (no
/// border when no side has a line), size and vertical alignment from the cell.
pub fn cell_to_cell_style(cell: &Cell, border_style: Option<&ResolvedBorderStyle>) -> (st: CellStyle)
    ensures
        is_cell_style_of(
            st,
            *cell,
            match border_style {
                Some(b) => Some(*b),
                None => None,
            },
        ),
{
    let bgcolor = match border_style {
        Some(bs) => match bs.fill_color {
            Some(f) => Some(color_ref_to_css(f)),
            None => None,
        },
        None => None,
    };
    let border = match border_style {
        Some(bs) => {
            let b = CellBorder {
                left: border_line_to_spec(&bs.borders[0]),
                right: border_line_to_spec(&bs.borders[1]),
                top: border_line_to_spec(&bs.borders[2]),
                bottom: border_line_to_spec(&bs.borders[3]),
                all: None,
            };
            assert(border_view(b) =~= seq![
                border_spec_of(bs.borders[0]),
                border_spec_of(bs.borders[1]),
                border_spec_of(bs.borders[2]),
                border_spec_of(bs.borders[3]),
                None,
            ]);
            if b.left.is_some() || b.right.is_some() || b.top.is_some() || b.bottom.is_some() {
                Some(b)
            } else {
                None
            }
        },
        None => None,
    };
    CellStyle {
        bgcolor,
        width: Some(cell.width as i32),
        height: Some(cell.height as i32),
        border,
        vertical_align: Some(String::from_str(cell_vertical_align_to_str(cell.vertical_align))),
    }
}

/// The first `max_chars` characters of `text` and whether it was cut; the whole text when
/// there is no limit or it fits.
pub fn truncate_text(text: &str, max_chars: Option<u32>) -> (r: (String, bool))
    ensures
        match max_chars {
            Some(n) => if text@.len() <= n {
                r.0@ == text@ && !r.1
            } else {
                r.0@ == text@.take(n as int) && r.1
            },
            None => r.0@ == text@ && !r.1,
        },
{
    match max_chars {
        Some(n) => {
            let chars = chars_of(text);
            if chars.len() as u64 <= n as u64 {
                (String::from_str(text), false)
            } else {
                let cut = crate::text_ops::copy_range(&chars, 0, n as usize);
                (string_from_chars(cut.as_slice()), true)
            }
        },
        None => (String::from_str(text), false),
    }
}

/// The paragraph range a slice covers: a page's range when a page is asked and its range is
/// known (the client's first, else the paginator's); otherwise the requested range clamped to
/// the section's `total` paragraphs (`para_end` none: to the end).
pub open spec fn slice_range(
    page: Option<u32>,
    override_range: Option<(usize, usize, usize)>,
    paginated: Option<(usize, usize, usize)>,
    sec: usize,
    para_start: usize,
    para_end: Option<usize>,
    total: usize,
) -> (usize, usize, usize) {
    let clamped = (
        sec,
        if para_start < total { para_start } else { total },
        match para_end {
            Some(e) => if e < total { e } else { total },
            None => total,
        },
    );
    if page is Some {
        match override_range {
            Some(t) => t,
            None => match paginated {
                Some(t) => t,
                None => clamped,
            },
        }
    } else {
        clamped
    }
}

/// The anchor of a slice (see `slice_range`). `paginated` is the paginator's range for the
/// asked page, `section_len` the number of paragraphs of the asked section (none when it
/// does not exist).
pub fn slice_anchor(opts: &BuildOptions, paginated: Option<(usize, usize, usize)>, section_len: Option<usize>) -> (a: IrAnchor)
    ensures
        (a.sec, a.para_start, a.para_end) == slice_range(
            opts.page,
            opts.page_override_range,
            paginated,
            opts.sec,
            opts.para_start,
            opts.para_end,
            match section_len {
                Some(n) => n,
                None => 0,
            },
        ),
{
    if opts.page.is_some() {
        if let Some(t) = opts.page_override_range {
            return IrAnchor { sec: t.0, para_start: t.1, para_end: t.2 };
        }
        if let Some(t) = paginated {
            return IrAnchor { sec: t.0, para_start: t.1, para_end: t.2 };
        }
    }
    let total = match section_len {
        Some(n) => n,
        None => 0,
    };
    let start = if opts.para_start < total {
        opts.para_start
    } else {
        total
    };
    let end = match opts.para_end {
        Some(e) => if e < total {
            e
        } else {
            total
        },
        None => total,
    };
    IrAnchor { sec: opts.sec, para_start: start, para_end: end }
}

/// The 1-based page a slice shows (the first when no page was asked).
pub fn page_display(page: Option<u32>) -> (p: u32)
    requires
        page matches Some(x) ==> x < u32::MAX,
    ensures
        p == match page {
            Some(x) => x + 1,
            None => 1,
        },
{
    match page {
        Some(x) => x + 1,
        None => 1,
    }
}

/// The character style the document engine resolves for a character shape: its flags,
/// its text and shade colours (`0x00BBGGRR`; a white shade means none), and whether it is
/// underlined (its underline kind is not none).
#[derive(Debug)]
pub struct ResolvedCharStyle {
    pub bold: bool,
    pub italic: bool,
    pub underline: bool,
    pub strikethrough: bool,
    pub subscript: bool,
    pub superscript: bool,
    pub text_color: u32,
    pub shade_color: u32,
}

/// The stored character shape fields a run style reads: the base size (in hundredths of
/// a point) and the per-language spacings and width ratios (the first is the Korean one).
#[derive(Debug)]
pub struct CharShape {
    pub base_size: i32,
    pub spacings: Vec<i8>,
    pub ratios: Vec<u8>,
}

/// `st` is the run style of a character with resolved style `cs`, stored shape `raw`, and
/// font `font_name` (the primary font of its language's family): every flag set, the text
/// colour, the shade colour as highlight unless white, the base size, the font, the first
/// spacing (else 0) and width ratio (else 100), and the vertical-align keyword.
pub open spec fn is_run_style_of(st: RunStyle, cs: ResolvedCharStyle, raw: CharShape, font_name: Seq<char>) -> bool {
    &&& st.bold == Some(cs.bold)
    &&& st.italic == Some(cs.italic)
    &&& st.underline == Some(cs.underline)
    &&& st.strikethrough == Some(cs.strikethrough)
    &&& st.color matches Some(c) && c@ == css_color(cs.text_color)
    &&& match st.highlight {
        Some(h) => cs.shade_color != 0x00FFFFFF && h@ == css_color(cs.shade_color),
        None => cs.shade_color == 0x00FFFFFF,
    }
    &&& st.font_size == Some(raw.base_size as i64)
    &&& st.font_name matches Some(f) && f@ == font_name
    &&& st.char_spacing == Some(
        if raw.spacings@.len() > 0 {
            raw.spacings@[0] as i32
        } else {
            0i32
        },
    )
    &&& st.char_width == Some(
        if raw.ratios@.len() > 0 {
            raw.ratios@[0] as i32
        } else {
            100i32
        },
    )
    &&& st.vertical_align matches Some(v) && v@ == if cs.subscript {
        "sub"@
    } else if cs.superscript {
        "super"@
    } else {
        "baseline"@
    }
}

/// The run style of a character (see `is_run_style_of`).
pub fn char_shape_to_run_style(cs: &ResolvedCharStyle, raw: &CharShape, font_name: &str) -> (st: RunStyle)
    ensures
        is_run_style_of(st, *cs, *raw, font_name@),
{
    let highlight = if cs.shade_color == 0x00FFFFFF {
        None
    } else {
        Some(color_ref_to_css(cs.shade_color))
    };
    let char_spacing: i32 = if raw.spacings.len() > 0 {
        raw.spacings[0] as i32
    } else {
        0
    };
    let char_width: i32 = if raw.ratios.len() > 0 {
        raw.ratios[0] as i32
    } else {
        100
    };
    RunStyle {
        bold: Some(cs.bold),
        italic: Some(cs.italic),
        underline: Some(cs.underline),
        strikethrough: Some(cs.strikethrough),
        color: Some(color_ref_to_css(cs.text_color)),
        highlight,
        font_size: Some(raw.base_size as i64),
        font_name: Some(String::from_str(font_name)),
        char_spacing: Some(char_spacing),
        char_width: Some(char_width),
        vertical_align: Some(String::from_str(vertical_align_to_str(cs.subscript, cs.superscript))),
    }
}

} // verus!
