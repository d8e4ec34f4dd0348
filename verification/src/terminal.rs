use vstd::prelude::*;
use vstd::string::*;

use crate::decimal::{decimal, push_decimal};
use crate::text::push_char;

verus! {

/// A text attribute of the terminal (SGR parameter).
#[derive(Debug, Clone, Copy, PartialEq, Eq, Structural)]
pub enum Style {
    NotStyled,
    Bold,
    Dim,
    Italic,
    Underline,
    Blink,
    BlinkRapid,
    Reverse,
    Hidden,
    Crossed,
}

impl Style {
    /// The SGR parameter of the style.
    pub open spec fn style_code(self) -> i32 {
        match self {
            Style::NotStyled => 0,
            Style::Bold => 1,
            Style::Dim => 2,
            Style::Italic => 3,
            Style::Underline => 4,
            Style::Blink => 5,
            Style::BlinkRapid => 6,
            Style::Reverse => 7,
            Style::Hidden => 8,
            Style::Crossed => 9,
        }
    }

    /// The SGR parameter of the style, as it stands in `ZoneAttr::styles`.
    pub fn code(&self) -> (c: i32)
        ensures
            c == self.style_code(),
    {
        match self {
            Style::NotStyled => 0,
            Style::Bold => 1,
            Style::Dim => 2,
            Style::Italic => 3,
            Style::Underline => 4,
            Style::Blink => 5,
            Style::BlinkRapid => 6,
            Style::Reverse => 7,
            Style::Hidden => 8,
            Style::Crossed => 9,
        }
    }
}

/// A foreground color, by its index in the 256-color palette.
#[derive(Debug, Clone, Copy, PartialEq, Eq, Structural)]
pub enum ForegroundColor {
    Black,
    Red,
    Green,
    Yellow,
    Blue,
    Magenta,
    Cyan,
    White,
    Gray,
    Orange,
}

/// A background color, by its index in the 256-color palette.
#[derive(Debug, Clone, Copy, PartialEq, Eq, Structural)]
pub enum BackgroundColor {
    Black,
    Red,
    Green,
    Yellow,
    Blue,
    Magenta,
    Cyan,
    White,
    Gray,
    Orange,
}

impl ForegroundColor {
    /// The palette index of the color.
    pub open spec fn color_code(self) -> nat {
        match self {
            ForegroundColor::Black => 16,
            ForegroundColor::Red => 1,
            ForegroundColor::Green => 10,
            ForegroundColor::Yellow => 11,
            ForegroundColor::Blue => 12,
            ForegroundColor::Magenta => 13,
            ForegroundColor::Cyan => 14,
            ForegroundColor::White => 15,
            ForegroundColor::Gray => 8,
            ForegroundColor::Orange => 208,
        }
    }

    /// The palette index of the color.
    pub fn code(&self) -> (c: i32)
        ensures
            c == self.color_code(),
    {
        match self {
            ForegroundColor::Black => 16,
            ForegroundColor::Red => 1,
            ForegroundColor::Green => 10,
            ForegroundColor::Yellow => 11,
            ForegroundColor::Blue => 12,
            ForegroundColor::Magenta => 13,
            ForegroundColor::Cyan => 14,
            ForegroundColor::White => 15,
            ForegroundColor::Gray => 8,
            ForegroundColor::Orange => 208,
        }
    }
}

impl BackgroundColor {
    /// The palette index of the color.
    pub open spec fn color_code(self) -> nat {
        match self {
            BackgroundColor::Black => 16,
            BackgroundColor::Red => 1,
            BackgroundColor::Green => 10,
            BackgroundColor::Yellow => 11,
            BackgroundColor::Blue => 12,
            BackgroundColor::Magenta => 13,
            BackgroundColor::Cyan => 14,
            BackgroundColor::White => 15,
            BackgroundColor::Gray => 8,
            BackgroundColor::Orange => 208,
        }
    }

    /// The palette index of the color.
    pub fn code(&self) -> (c: i32)
        ensures
            c == self.color_code(),
    {
        match self {
            BackgroundColor::Black => 16,
            BackgroundColor::Red => 1,
            BackgroundColor::Green => 10,
            BackgroundColor::Yellow => 11,
            BackgroundColor::Blue => 12,
            BackgroundColor::Magenta => 13,
            BackgroundColor::Cyan => 14,
            BackgroundColor::White => 15,
            BackgroundColor::Gray => 8,
            BackgroundColor::Orange => 208,
        }
    }
}

/// The attributes of a zone of text: up to four styles (a code that is not positive stands
/// for no style), a background and a foreground color.
#[derive(Debug, Clone, Copy, PartialEq)]
pub struct ZoneAttr {
    pub styles: [i32; 4],
    pub background: BackgroundColor,
    pub foreground: ForegroundColor,
}

/// `ESC [ n m`: select graphic rendition `n`.
pub open spec fn sgr_seq(n: nat) -> Seq<char> {
    seq!['\x1b', '['] + decimal(n) + seq!['m']
}

/// What the styles of a zone write: one SGR sequence per positive code, in order.
pub open spec fn styles_seq(styles: Seq<i32>) -> Seq<char>
    decreases styles.len(),
{
    if styles.len() == 0 {
        seq![]
    } else {
        styles_seq(styles.drop_last()) + (if styles.last() > 0 {
            sgr_seq(styles.last() as nat)
        } else {
            seq![]
        })
    }
}

/// `ESC [ 38 ; 5 ; n m`: foreground color `n` of the 256-color palette.
pub open spec fn foreground_seq(n: nat) -> Seq<char> {
    seq!['\x1b', '[', '3', '8', ';', '5', ';'] + decimal(n) + seq!['m']
}

/// `ESC [ 48 ; 5 ; n m`: background color `n` of the 256-color palette.
pub open spec fn background_seq(n: nat) -> Seq<char> {
    seq!['\x1b', '[', '4', '8', ';', '5', ';'] + decimal(n) + seq!['m']
}

/// `ESC [ 0 m`: back to the default attributes.
pub open spec fn reset_seq() -> Seq<char> {
    seq!['\x1b', '[', '0', 'm']
}

/// What writing `text` with the attributes `attr` sends to the terminal.
pub open spec fn styled_text_seq(text: Seq<char>, attr: ZoneAttr) -> Seq<char> {
    foreground_seq(attr.foreground.color_code()) + background_seq(attr.background.color_code())
        + styles_seq(attr.styles@) + text + reset_seq()
}

/// `ESC [ 8 ; lines ; columns t`, or nothing where either size is zero.
pub open spec fn resize_seq(line: nat, col: nat) -> Seq<char> {
    if line > 0 && col > 0 {
        seq!['\x1b', '[', '8', ';'] + decimal(line) + seq![';'] + decimal(col) + seq!['t']
    } else {
        seq![]
    }
}

/// `ESC ] 0 ; title BEL`, or nothing for an empty title.
pub open spec fn title_seq(title: Seq<char>) -> Seq<char> {
    if title.len() == 0 {
        seq![]
    } else {
        seq!['\x1b', ']', '0', ';'] + title + seq!['\x07']
    }
}

/// `ESC [ ? 1000 ; 1005 ; 1006 l`: stop mouse reporting.
pub open spec fn mouse_off_seq() -> Seq<char> {
    seq!['\x1b', '[', '?', '1', '0', '0', '0', ';', '1', '0', '0', '5', ';', '1', '0', '0', '6', 'l']
}

/// `ESC [ 2 J  ESC [ 3 J  ESC [ H`: erase the screen and the scrollback, cursor home.
pub open spec fn clear_screen_seq() -> Seq<char> {
    seq!['\x1b', '[', '2', 'J', '\x1b', '[', '3', 'J', '\x1b', '[', 'H']
}

/// The attributes of the pause prompt: yellow on black, no style.
pub open spec fn pause_attr() -> ZoneAttr {
    ZoneAttr {
        styles: [0, 0, 0, 0],
        background: BackgroundColor::Black,
        foreground: ForegroundColor::Yellow,
    }
}

/// The text of the pause prompt: `"Pause  "`, the message, CR LF.
pub open spec fn pause_text(msg: Seq<char>) -> Seq<char> {
    seq!['P', 'a', 'u', 's', 'e', ' ', ' '] + msg + seq!['\r', '\n']
}

/// The attributes of a frame: no style, black on black.
pub fn atr_term() -> (a: ZoneAttr)
    ensures
        a.styles@ == seq![0i32, 0i32, 0i32, 0i32],
        a.background == BackgroundColor::Black,
        a.foreground == ForegroundColor::Black,
{
    let a = ZoneAttr {
        styles: [0, 0, 0, 0],
        background: BackgroundColor::Black,
        foreground: ForegroundColor::Black,
    };
    assert(a.styles@ =~= seq![0i32, 0i32, 0i32, 0i32]);
    a
}

fn push_sgr(s: &mut String, n: i32)
    requires
        n > 0,
    ensures
        final(s)@ == old(s)@ + sgr_seq(n as nat),
{
    s.append("\x1b[");
    push_decimal(s, n as u64);
    push_char(s, 'm');
    proof {
        reveal_strlit("\x1b[");
    }
    assert(final(s)@ =~= old(s)@ + sgr_seq(n as nat));
}

/// The sequence that applies the styles of a zone: for each positive code, in order,
/// `ESC [ code m`; a code that is not positive writes nothing.
pub fn set_styles(styles: &[i32; 4]) -> (r: String)
    ensures
        r@ == styles_seq(styles@),
        r@ == style_part(styles[0]) + style_part(styles[1]) + style_part(styles[2])
            + style_part(styles[3]),
{
    let mut r = String::new();
    let mut i: usize = 0;
    while i < 4
        invariant
            i <= 4,
            styles@.len() == 4,
            r@ == styles_seq(styles@.take(i as int)),
        decreases 4 - i,
    {
        let style = styles[i];
        if style > 0 {
            push_sgr(&mut r, style);
        }
        assert(styles@.take(i + 1).drop_last() =~= styles@.take(i as int));
        i = i + 1;
    }
    assert(styles@.take(4) =~= styles@);
    proof {
        lemma_styles_four(styles[0], styles[1], styles[2], styles[3]);
        assert(styles@ =~= seq![styles[0], styles[1], styles[2], styles[3]]);
    }
    r
}

/// The sequence that writes `text` with the attributes `attr`: foreground color, background
/// color, styles, the text, then a reset to the default attributes.
pub fn print_styled_text(text: &str, attr: ZoneAttr) -> (r: String)
    ensures
        r@ == styled_text_seq(text@, attr),
{
    let mut r = String::new();
    r.append("\x1b[38;5;");
    push_decimal(&mut r, attr.foreground.code() as u64);
    push_char(&mut r, 'm');
    r.append("\x1b[48;5;");
    push_decimal(&mut r, attr.background.code() as u64);
    push_char(&mut r, 'm');
    let styles = set_styles(&attr.styles);
    r.append(styles.as_str());
    r.append(text);
    r.append("\x1b[0m");
    proof {
        reveal_strlit("\x1b[38;5;");
        reveal_strlit("\x1b[48;5;");
        reveal_strlit("\x1b[0m");
    }
    assert(r@ =~= styled_text_seq(text@, attr));
    r
}

/// The sequence that asks the terminal for `line` lines of `col` columns; nothing where either
/// is zero.
pub fn resize_term(line: usize, col: usize) -> (r: String)
    ensures
        r@ == resize_seq(line as nat, col as nat),
        r@.len() == 0 <==> (line == 0 || col == 0),
{
    let mut r = String::new();
    if line > 0 && col > 0 {
        r.append("\x1b[8;");
        push_decimal(&mut r, line as u64);
        push_char(&mut r, ';');
        push_decimal(&mut r, col as u64);
        push_char(&mut r, 't');
        proof {
            reveal_strlit("\x1b[8;");
        }
        assert(r@ =~= resize_seq(line as nat, col as nat));
    }
    r
}

/// The sequence that sets the window title; nothing for an empty title.
pub fn title_term(title: &str) -> (r: String)
    ensures
        r@ == title_seq(title@),
        title@.len() > 0 ==> r@ == seq!['\x1b', ']', '0', ';'] + title@ + seq!['\x07'],
        title@.len() == 0 ==> r@.len() == 0,
{
    let mut r = String::new();
    if !title.is_empty() {
        r.append("\x1b]0;");
        r.append(title);
        push_char(&mut r, '\x07');
        proof {
            reveal_strlit("\x1b]0;");
        }
        assert(r@ =~= title_seq(title@));
    }
    r
}

/// The sequence that turns mouse reporting off.
pub fn off_mouse() -> (r: String)
    ensures
        r@ == mouse_off_seq(),
        r@ == "\x1b[?1000;1005;1006l"@,
{
    let mut r = String::new();
    r.append("\x1b[?1000;1005;1006l");
    proof {
        reveal_strlit("\x1b[?1000;1005;1006l");
    }
    r
}

/// The sequence that clears the screen and its scrollback and homes the cursor.
pub fn clear_screen() -> (r: String)
    ensures
        r@ == clear_screen_seq(),
        r@ == "\x1b[2J\x1b[3J\x1b[H"@,
{
    let mut r = String::new();
    r.append("\x1b[2J\x1b[3J\x1b[H");
    proof {
        reveal_strlit("\x1b[2J\x1b[3J\x1b[H");
    }
    r
}

/// The prompt that a pause writes: `"Pause  "`, the message and CR LF, yellow on black.
#[verifier::rlimit(40)]
pub fn pause_prompt(msg: &str) -> (r: String)
    ensures
        r@ == styled_text_seq(pause_text(msg@), pause_attr()),
        r@ == pause_prompt_prefix() + msg@ + seq!['\r', '\n', '\x1b', '[', '0', 'm'],
{
    proof {
        lemma_pause_prompt_holds_message(msg@);
    }
    let mut text = String::new();
    text.append("Pause  ");
    text.append(msg);
    text.append("\r\n");
    proof {
        reveal_strlit("Pause  ");
        reveal_strlit("\r\n");
    }
    assert(text@ =~= pause_text(msg@));
    let attr = ZoneAttr {
        styles: [0, 0, 0, 0],
        background: BackgroundColor::Black,
        foreground: ForegroundColor::Yellow,
    };
    assert(attr.styles@ =~= pause_attr().styles@);
    print_styled_text(text.as_str(), attr)
}

/// Whether one read of the keyboard gave the escape key: exactly one byte, 27.
pub fn is_escape_key(count: usize, first: u8) -> (b: bool)
    ensures
        b == (count == 1 && first == 27),
{
    count == 1 && first == 27
}

/// Styles whose codes are all zero or negative write nothing: a zone without style sends only
/// its colors.
pub proof fn lemma_no_style_writes_nothing(styles: Seq<i32>)
    requires
        forall|i: int| 0 <= i < styles.len() ==> styles[i] <= 0,
    ensures
        styles_seq(styles) == Seq::<char>::empty(),
    decreases styles.len(),
{
    if styles.len() > 0 {
        lemma_no_style_writes_nothing(styles.drop_last());
        assert(styles_seq(styles) =~= Seq::<char>::empty());
    }
}

/// Styled text ends with the reset sequence, just after the text itself: what a styled zone
/// sets never leaks into what follows it.
pub proof fn lemma_styled_text_resets(text: Seq<char>, attr: ZoneAttr)
    ensures
        ({
            let s = styled_text_seq(text, attr);
            &&& s.len() >= text.len() + 4
            &&& s.subrange(s.len() - 4, s.len() as int) == reset_seq()
            &&& s.subrange(s.len() - 4 - text.len(), s.len() - 4) == text
        }),
{
    let s = styled_text_seq(text, attr);
    let p = foreground_seq(attr.foreground.color_code()) + background_seq(attr.background.color_code())
        + styles_seq(attr.styles@);
    assert(s =~= p + text + reset_seq());
    assert(s.subrange(s.len() - 4, s.len() as int) =~= reset_seq());
    assert(s.subrange(s.len() - 4 - text.len(), s.len() - 4) =~= text);
}

/// What one slot of a zone's styles writes: `ESC [ code m` for a positive code, nothing
/// otherwise.
pub open spec fn style_part(code: i32) -> Seq<char> {
    if code > 0 {
        sgr_seq(code as nat)
    } else {
        seq![]
    }
}

/// Adding a slot after others adds what that slot writes after what they write, whatever they
/// hold.
pub proof fn lemma_styles_push(styles: Seq<i32>, code: i32)
    ensures
        styles_seq(styles.push(code)) == styles_seq(styles) + style_part(code),
{
    assert(styles.push(code).drop_last() =~= styles);
}

/// The styles of two runs of slots, one after the other, write what each writes, in order.
pub proof fn lemma_styles_concat(a: Seq<i32>, b: Seq<i32>)
    ensures
        styles_seq(a + b) == styles_seq(a) + styles_seq(b),
    decreases b.len(),
{
    if b.len() == 0 {
        assert(a + b =~= a);
        assert(styles_seq(a) + styles_seq(b) =~= styles_seq(a));
    } else {
        lemma_styles_concat(a, b.drop_last());
        assert((a + b).drop_last() =~= a + b.drop_last());
        assert((a + b).last() == b.last());
        assert(styles_seq(a + b) =~= styles_seq(a) + styles_seq(b));
    }
}

/// The four slots of a zone write, each independently of the others and in slot order,
/// `ESC [ code m` when their code is positive and nothing otherwise.
pub proof fn lemma_styles_four(a: i32, b: i32, c: i32, d: i32)
    ensures
        styles_seq(seq![a, b, c, d]) == style_part(a) + style_part(b) + style_part(c)
            + style_part(d),
{
    let e: Seq<i32> = seq![];
    lemma_styles_push(e, a);
    lemma_styles_push(e.push(a), b);
    lemma_styles_push(e.push(a).push(b), c);
    lemma_styles_push(e.push(a).push(b).push(c), d);
    assert(e.push(a).push(b).push(c).push(d) =~= seq![a, b, c, d]);
    assert(styles_seq(e) =~= Seq::<char>::empty());
    assert(styles_seq(seq![a, b, c, d]) =~= style_part(a) + style_part(b) + style_part(c)
        + style_part(d));
}

/// Every positive code, in any slot, is written as `ESC [ code m` somewhere in what the styles
/// write.
pub proof fn lemma_positive_style_written(styles: Seq<i32>, i: int)
    requires
        0 <= i < styles.len(),
        styles[i] > 0,
    ensures
        exists|j: int|
            0 <= j && j + sgr_seq(styles[i] as nat).len() <= styles_seq(styles).len()
                && #[trigger] styles_seq(styles).subrange(j, j + sgr_seq(styles[i] as nat).len())
                == sgr_seq(styles[i] as nat),
{
    let pre = styles.take(i);
    let post = styles.skip(i + 1);
    let one = seq![styles[i]];
    assert(styles =~= pre + one + post);
    lemma_styles_concat(pre + one, post);
    lemma_styles_concat(pre, one);
    lemma_styles_push(Seq::<i32>::empty(), styles[i]);
    assert(Seq::<i32>::empty().push(styles[i]) =~= one);
    assert(styles_seq(Seq::<i32>::empty()) =~= Seq::<char>::empty());
    let sg = sgr_seq(styles[i] as nat);
    assert(styles_seq(one) =~= sg);
    let j = styles_seq(pre).len() as int;
    let all = styles_seq(styles);
    assert(all =~= styles_seq(pre) + sg + styles_seq(post));
    assert(all.subrange(j, j + sg.len()) =~= sg);
}

/// An SGR sequence is `ESC [`, then the decimal digits of its parameter, which read back as it,
/// then `m`.
pub proof fn lemma_sgr_shape(n: nat)
    ensures
        sgr_seq(n).len() == decimal(n).len() + 3,
        sgr_seq(n)[0] == '\x1b',
        sgr_seq(n)[1] == '[',
        sgr_seq(n).last() == 'm',
        crate::decimal::digits_value(sgr_seq(n).subrange(2, sgr_seq(n).len() - 1)) == n,
{
    crate::decimal::lemma_decimal_round_trip(n);
    assert(sgr_seq(n).subrange(2, sgr_seq(n).len() - 1) =~= decimal(n));
}

/// A title that is not empty is written whole between `ESC ] 0 ;` and BEL; an empty one writes
/// nothing.
pub proof fn lemma_title_written(title: Seq<char>)
    ensures
        title.len() > 0 ==> title_seq(title) == seq!['\x1b', ']', '0', ';'] + title + seq!['\x07'],
        title.len() > 0 ==> title_seq(title).subrange(4, 4 + title.len() as int) == title,
        title.len() == 0 ==> title_seq(title).len() == 0,
{
    if title.len() > 0 {
        assert((seq!['\x1b', ']', '0', ';'] + title + seq!['\x07']).subrange(4, 4 + title.len() as int)
            =~= title);
    }
}

/// What comes before the message in the pause prompt: yellow foreground, black background,
/// `"Pause  "`.
pub open spec fn pause_prompt_prefix() -> Seq<char> {
    seq!['\x1b', '[', '3', '8', ';', '5', ';', '1', '1', 'm',
        '\x1b', '[', '4', '8', ';', '5', ';', '1', '6', 'm',
        'P', 'a', 'u', 's', 'e', ' ', ' ']
}

/// The pause prompt holds the whole message, whatever it holds, right after `"Pause  "`: yellow
/// on black, `"Pause  "`, the message, CR LF, reset.
#[verifier::rlimit(40)]
pub proof fn lemma_pause_prompt_holds_message(msg: Seq<char>)
    ensures
        styled_text_seq(pause_text(msg), pause_attr()) == pause_prompt_prefix() + msg
            + seq!['\r', '\n', '\x1b', '[', '0', 'm'],
        styled_text_seq(pause_text(msg), pause_attr()).subrange(27, 27 + msg.len() as int) == msg,
{
    assert(decimal(11) =~= seq!['1', '1']) by {
        reveal_with_fuel(decimal, 2);
    }
    assert(decimal(16) =~= seq!['1', '6']) by {
        reveal_with_fuel(decimal, 2);
    }
    lemma_styles_four(0, 0, 0, 0);
    assert(pause_attr().styles@ =~= seq![0i32, 0i32, 0i32, 0i32]);
    let r = styled_text_seq(pause_text(msg), pause_attr());
    assert(r =~= pause_prompt_prefix() + msg + seq!['\r', '\n', '\x1b', '[', '0', 'm']);
    assert(r.subrange(27, 27 + msg.len() as int) =~= msg);
}

/// The palette indices of the colors, foreground and background alike.
pub proof fn lemma_color_codes()
    ensures
        ForegroundColor::Black.color_code() == 16 && BackgroundColor::Black.color_code() == 16,
        ForegroundColor::Red.color_code() == 1 && BackgroundColor::Red.color_code() == 1,
        ForegroundColor::Green.color_code() == 10 && BackgroundColor::Green.color_code() == 10,
        ForegroundColor::Yellow.color_code() == 11 && BackgroundColor::Yellow.color_code() == 11,
        ForegroundColor::Blue.color_code() == 12 && BackgroundColor::Blue.color_code() == 12,
        ForegroundColor::Magenta.color_code() == 13 && BackgroundColor::Magenta.color_code() == 13,
        ForegroundColor::Cyan.color_code() == 14 && BackgroundColor::Cyan.color_code() == 14,
        ForegroundColor::White.color_code() == 15 && BackgroundColor::White.color_code() == 15,
        ForegroundColor::Gray.color_code() == 8 && BackgroundColor::Gray.color_code() == 8,
        ForegroundColor::Orange.color_code() == 208 && BackgroundColor::Orange.color_code() == 208,
{
}

/// Styled text is: `ESC [ 38 ; 5 ;` and the foreground's index, `m`, `ESC [ 48 ; 5 ;` and the
/// background's index, `m`, what the styles write, the text whole, then `ESC [ 0 m`.
pub proof fn lemma_styled_text_layout(text: Seq<char>, attr: ZoneAttr)
    ensures
        styled_text_seq(text, attr) == seq!['\x1b', '[', '3', '8', ';', '5', ';']
            + decimal(attr.foreground.color_code()) + seq!['m', '\x1b', '[', '4', '8', ';', '5', ';']
            + decimal(attr.background.color_code()) + seq!['m'] + style_part(attr.styles[0])
            + style_part(attr.styles[1]) + style_part(attr.styles[2]) + style_part(attr.styles[3])
            + text + seq!['\x1b', '[', '0', 'm'],
{
    lemma_styles_four(attr.styles[0], attr.styles[1], attr.styles[2], attr.styles[3]);
    assert(attr.styles@ =~= seq![attr.styles[0], attr.styles[1], attr.styles[2], attr.styles[3]]);
    assert(styled_text_seq(text, attr) =~= seq!['\x1b', '[', '3', '8', ';', '5', ';']
        + decimal(attr.foreground.color_code()) + seq!['m', '\x1b', '[', '4', '8', ';', '5', ';']
        + decimal(attr.background.color_code()) + seq!['m'] + style_part(attr.styles[0])
        + style_part(attr.styles[1]) + style_part(attr.styles[2]) + style_part(attr.styles[3])
        + text + seq!['\x1b', '[', '0', 'm']);
}

/// A resize with both sizes positive is `ESC [ 8 ;`, the lines, `;`, the columns, `t`, both in
/// decimal; with either size zero it writes nothing.
pub proof fn lemma_resize_written(line: nat, col: nat)
    ensures
        line > 0 && col > 0 ==> resize_seq(line, col) == seq!['\x1b', '[', '8', ';'] + decimal(line)
            + seq![';'] + decimal(col) + seq!['t'],
        line == 0 || col == 0 ==> resize_seq(line, col).len() == 0,
{
}

} // verus!
