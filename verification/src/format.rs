//! A small template language for rendering an elapsed time.
//!
//! A template is literal text interleaved with fields: `%H`, `%M` and `%S`
//! for hours, minutes and seconds in two digits, `%s` for the total number
//! of seconds, and `%f` for the fraction of the current second, optionally
//! with a number of digits between `%` and `f`. `%n`, `%t`, `%e` and `%%`
//! stand for newline, tab, escape and a percent sign; `\n`, `\t`, `\e` and
//! `\\` for newline, tab, escape and a backslash.

use crate::text::{
    decimal, digit, digit_char, is_decimal_digit, lemma_decimal_is_digits, padded2, push_char,
    push_decimal, push_padded2,
};
use vstd::prelude::*;
use vstd::string::StringExecFns;

verus! {

/// Digits of a `%f` field that names no precision.
pub const DEFAULT_PRECISION: usize = 6;

/// One part of a template.
#[derive(Clone, Debug, Eq, PartialEq)]
pub enum FormatPiece {
    /// Literal text.
    String(String),
    /// Whole hours, in two digits at least.
    Hour,
    /// Minutes of the current hour, in two digits.
    Minute,
    /// Seconds of the current minute, in two digits.
    Second,
    /// All of the elapsed time in whole seconds.
    TotalSeconds,
    /// The fraction of the current second, cut off after `precision` digits.
    Subseconds { precision: usize },
}

/// What a [`FormatPiece`] stands for.
pub enum PieceView {
    Text(Seq<char>),
    Hour,
    Minute,
    Second,
    TotalSeconds,
    Subseconds(nat),
}

impl View for FormatPiece {
    type V = PieceView;

    open spec fn view(&self) -> PieceView {
        match self {
            FormatPiece::String(s) => PieceView::Text(s@),
            FormatPiece::Hour => PieceView::Hour,
            FormatPiece::Minute => PieceView::Minute,
            FormatPiece::Second => PieceView::Second,
            FormatPiece::TotalSeconds => PieceView::TotalSeconds,
            FormatPiece::Subseconds { precision } => PieceView::Subseconds(*precision as nat),
        }
    }
}

/// Ten to the power `e`.
pub open spec fn pow10(e: nat) -> nat
    decreases e,
{
    if e == 0 {
        1
    } else {
        10 * pow10((e - 1) as nat)
    }
}

/// The digit at place `i` behind the decimal point of a second of which
/// `nanos` nanoseconds have passed. Nothing finer than a nanosecond is known,
/// so from the tenth place on it is zero.
pub open spec fn subsec_digit(nanos: nat, i: int) -> nat {
    if 0 <= i < 9 {
        (nanos / pow10((8 - i) as nat)) % 10
    } else {
        0
    }
}

/// The first `precision` digits behind the decimal point.
pub open spec fn subsec_digits(nanos: nat, precision: nat) -> Seq<char> {
    Seq::new(precision, |i: int| digit_char(subsec_digit(nanos, i)))
}

/// The text of one piece for an elapsed time of `secs` seconds and `nanos`
/// nanoseconds.
pub open spec fn render_piece(p: PieceView, secs: nat, nanos: nat) -> Seq<char> {
    match p {
        PieceView::Text(t) => t,
        PieceView::Hour => padded2(secs / 3600),
        PieceView::Minute => padded2(secs / 60 % 60),
        PieceView::Second => padded2(secs % 60),
        PieceView::TotalSeconds => decimal(secs),
        PieceView::Subseconds(precision) => subsec_digits(nanos, precision),
    }
}

/// The texts of all pieces, one after the other.
pub open spec fn render(pieces: Seq<PieceView>, secs: nat, nanos: nat) -> Seq<char>
    decreases pieces.len(),
{
    if pieces.len() == 0 {
        Seq::empty()
    } else {
        render(pieces.drop_last(), secs, nanos) + render_piece(pieces.last(), secs, nanos)
    }
}

proof fn lemma_pow10_values()
    ensures
        pow10(0) == 1,
        pow10(1) == 10,
        pow10(2) == 100,
        pow10(3) == 1_000,
        pow10(4) == 10_000,
        pow10(5) == 100_000,
        pow10(6) == 1_000_000,
        pow10(7) == 10_000_000,
        pow10(8) == 100_000_000,
{
    reveal_with_fuel(pow10, 10);
}

impl FormatPiece {
    /// Appends to `out` the text of this piece for an elapsed time of `secs`
    /// whole seconds and `nanos` nanoseconds into the next.
    pub fn display(&self, out: &mut String, secs: u64, nanos: u32)
        ensures
            final(out)@ == old(out)@ + render_piece(self@, secs as nat, nanos as nat),
    {
        match self {
            FormatPiece::String(s) => out.append(s.as_str()),
            FormatPiece::Hour => push_padded2(out, secs / 3600),
            FormatPiece::Minute => push_padded2(out, secs / 60 % 60),
            FormatPiece::Second => push_padded2(out, secs % 60),
            FormatPiece::TotalSeconds => push_decimal(out, secs),
            FormatPiece::Subseconds { precision } => {
                let mut divisor: u32 = 100_000_000;
                let mut i: usize = 0;
                proof {
                    lemma_pow10_values();
                    assert(out@ =~= old(out)@ + subsec_digits(nanos as nat, 0));
                }
                while i < *precision
                    invariant
                        i <= *precision,
                        i < 9 ==> divisor == pow10((8 - i) as nat),
                        i >= 9 ==> divisor == 0,
                        out@ == old(out)@ + subsec_digits(nanos as nat, i as nat),
                    decreases *precision - i,
                {
                    proof {
                        lemma_pow10_values();
                    }
                    let d: u32 = if divisor > 0 {
                        nanos / divisor % 10
                    } else {
                        0
                    };
                    assert(d == subsec_digit(nanos as nat, i as int));
                    divisor = divisor / 10;
                    push_char(out, digit(d as u8));
                    i += 1;
                    assert(out@ =~= old(out)@ + subsec_digits(nanos as nat, i as nat));
                }
                assert(out@ == old(out)@ + subsec_digits(nanos as nat, *precision as nat));
            },
        }
    }
}

/// Why a template was rejected.
#[derive(Clone, Debug, Eq, PartialEq)]
pub enum ParseFormatError {
    /// The precision of a `%f` field does not fit in 32 bits.
    PrecisionOverflow,
    /// `%` is followed by something that names no field.
    InvalidPercent(char),
    /// The template ends in `%`.
    BrokenPercent,
    /// A backslash is followed by something that names no character.
    InvalidEscape(char),
    /// The template ends in a backslash.
    BrokenEscape,
}

/// What one step of reading a template finds.
pub enum Token {
    /// A character of literal text.
    Char(char),
    /// A field.
    Field(PieceView),
}

/// The number that the digit `c` stands for.
pub open spec fn digit_value(c: char) -> nat {
    (c as u32 - 48) as nat
}

/// How many digits stand in `s` from place `i` on without a break.
pub open spec fn digits_len(s: Seq<char>, i: int) -> nat
    decreases s.len() - i,
{
    if 0 <= i < s.len() && is_decimal_digit(s[i]) {
        1 + digits_len(s, i + 1)
    } else {
        0
    }
}

/// The number that a sequence of digits denotes.
pub open spec fn number(s: Seq<char>) -> nat
    decreases s.len(),
{
    if s.len() == 0 {
        0
    } else {
        10 * number(s.drop_last()) + digit_value(s.last())
    }
}

/// What `%` followed by the single character `c` means, if anything.
pub open spec fn percent_token(c: char) -> Option<Token> {
    if c == 'H' {
        Some(Token::Field(PieceView::Hour))
    } else if c == 'M' {
        Some(Token::Field(PieceView::Minute))
    } else if c == 'S' {
        Some(Token::Field(PieceView::Second))
    } else if c == 's' {
        Some(Token::Field(PieceView::TotalSeconds))
    } else if c == 'f' {
        Some(Token::Field(PieceView::Subseconds(DEFAULT_PRECISION as nat)))
    } else if c == 'n' {
        Some(Token::Char('\n'))
    } else if c == 't' {
        Some(Token::Char('\t'))
    } else if c == 'e' {
        Some(Token::Char('\x1B'))
    } else if c == '%' {
        Some(Token::Char('%'))
    } else {
        None
    }
}

/// The character that a backslash followed by `c` means, if any.
pub open spec fn escape_char(c: char) -> Option<char> {
    if c == 'n' {
        Some('\n')
    } else if c == 't' {
        Some('\t')
    } else if c == 'e' {
        Some('\x1B')
    } else if c == '\\' {
        Some('\\')
    } else {
        None
    }
}

/// Reads what starts at place `i` of the template `s`: the token found and
/// the place behind it, or the reason why there is none.
pub open spec fn scan(s: Seq<char>, i: int) -> Result<(Token, int), ParseFormatError>
    recommends
        0 <= i < s.len(),
{
    if s[i] == '%' {
        if i + 1 >= s.len() {
            Err(ParseFormatError::BrokenPercent)
        } else if let Some(t) = percent_token(s[i + 1]) {
            Ok((t, i + 2))
        } else if is_decimal_digit(s[i + 1]) {
            let end = i + 1 + digits_len(s, i + 1);
            let precision = number(s.subrange(i + 1, end));
            if precision > u32::MAX {
                Err(ParseFormatError::PrecisionOverflow)
            } else if end < s.len() && s[end] == 'f' {
                Ok((Token::Field(PieceView::Subseconds(precision)), end + 1))
            } else {
                Err(ParseFormatError::InvalidPercent(s[i + 1]))
            }
        } else {
            Err(ParseFormatError::InvalidPercent(s[i + 1]))
        }
    } else if s[i] == '\\' {
        if i + 1 >= s.len() {
            Err(ParseFormatError::BrokenEscape)
        } else if let Some(c) = escape_char(s[i + 1]) {
            Ok((Token::Char(c), i + 2))
        } else {
            Err(ParseFormatError::InvalidEscape(s[i + 1]))
        }
    } else {
        Ok((Token::Char(s[i]), i + 1))
    }
}

/// `pieces` with the character `c` added to its text: to the last piece
/// where that is text, else as a new piece.
pub open spec fn with_char(pieces: Seq<PieceView>, c: char) -> Seq<PieceView> {
    if pieces.len() > 0 && pieces.last() is Text {
        pieces.drop_last().push(PieceView::Text(pieces.last()->Text_0.push(c)))
    } else {
        pieces.push(PieceView::Text(seq![c]))
    }
}

/// `pieces` with a token added.
pub open spec fn with_token(pieces: Seq<PieceView>, t: Token) -> Seq<PieceView> {
    match t {
        Token::Char(c) => with_char(pieces, c),
        Token::Field(p) => pieces.push(p),
    }
}

/// The pieces of the template `s` from place `i` on, added to `so_far`.
pub open spec fn parse_from(s: Seq<char>, i: int, so_far: Seq<PieceView>) -> Result<
    Seq<PieceView>,
    ParseFormatError,
>
    decreases s.len() - i,
{
    if 0 <= i < s.len() {
        match scan(s, i) {
            Ok((t, next)) => parse_from(s, next, with_token(so_far, t)),
            Err(e) => Err(e),
        }
    } else {
        Ok(so_far)
    }
}

/// The pieces that the template `s` denotes, or why it denotes none.
pub open spec fn parsed(s: Seq<char>) -> Result<Seq<PieceView>, ParseFormatError> {
    parse_from(s, 0, Seq::empty())
}

/// How often `c` occurs in `t`.
pub open spec fn occurrences(t: Seq<char>, c: char) -> nat
    decreases t.len(),
{
    if t.len() == 0 {
        0
    } else {
        occurrences(t.drop_last(), c) + if t.last() == c {
            1nat
        } else {
            0nat
        }
    }
}

/// How many newlines the literal text of `pieces` holds.
pub open spec fn newline_total(pieces: Seq<PieceView>) -> nat
    decreases pieces.len(),
{
    if pieces.len() == 0 {
        0
    } else {
        newline_total(pieces.drop_last()) + match pieces.last() {
            PieceView::Text(t) => occurrences(t, '\n'),
            _ => 0,
        }
    }
}

/// A parsed template.
#[derive(Clone, Debug, Eq, PartialEq)]
pub struct Format {
    pieces: Vec<FormatPiece>,
    newlines: usize,
}

impl View for Format {
    type V = Seq<PieceView>;

    closed spec fn view(&self) -> Seq<PieceView> {
        self.pieces@.map_values(|p: FormatPiece| p@)
    }
}

proof fn lemma_newline_total_with_char(pieces: Seq<PieceView>, c: char)
    ensures
        newline_total(with_char(pieces, c)) == newline_total(pieces) + if c == '\n' {
            1nat
        } else {
            0nat
        },
{
    let after = with_char(pieces, c);
    if pieces.len() > 0 && pieces.last() is Text {
        let t = pieces.last()->Text_0;
        assert(after.drop_last() =~= pieces.drop_last());
        assert(after.last() == PieceView::Text(t.push(c)));
        assert(t.push(c).drop_last() =~= t);
        assert(occurrences(t.push(c), '\n') == occurrences(t, '\n') + if c == '\n' {
            1nat
        } else {
            0nat
        });
    } else {
        assert(after.drop_last() =~= pieces);
        assert(after.last() == PieceView::Text(seq![c]));
        assert(seq![c].drop_last() =~= Seq::<char>::empty());
        assert(occurrences(seq![c], '\n') == occurrences(Seq::<char>::empty(), '\n') + if c
            == '\n' {
            1nat
        } else {
            0nat
        });
    }
}

impl Format {
    /// The count that [`Format::newlines`] returns.
    pub closed spec fn newline_count(&self) -> nat {
        self.newlines as nat
    }

    /// A template without pieces.
    pub fn new() -> (f: Format)
        ensures
            f@ == Seq::<PieceView>::empty(),
            f.newline_count() == 0,
    {
        let f = Format { pieces: Vec::new(), newlines: 0 };
        assert(f@ =~= Seq::<PieceView>::empty());
        f
    }

    /// How many newlines were added to the template's text character by
    /// character. For a parsed template that is the number of newlines in
    /// its literal text, and so the number of line breaks in what it
    /// renders.
    pub fn newlines(&self) -> (n: usize)
        ensures
            n == self.newline_count(),
    {
        self.newlines
    }

    /// Renders an elapsed time of `secs` whole seconds and `nanos`
    /// nanoseconds into the next.
    pub fn display(&self, secs: u64, nanos: u32) -> (text: String)
        ensures
            text@ == render(self@, secs as nat, nanos as nat),
    {
        let mut text = String::new();
        let mut i: usize = 0;
        while i < self.pieces.len()
            invariant
                i <= self.pieces@.len(),
                text@ == render(self@.subrange(0, i as int), secs as nat, nanos as nat),
            decreases self.pieces@.len() - i,
        {
            self.pieces[i].display(&mut text, secs, nanos);
            proof {
                let upto = self@.subrange(0, i + 1);
                assert(upto.drop_last() =~= self@.subrange(0, i as int));
                assert(upto.last() == self.pieces@[i as int]@);
            }
            i += 1;
        }
        assert(self@.subrange(0, i as int) =~= self@);
        text
    }

    /// Adds one character of literal text: to the last piece where that is
    /// text, else as a new piece.
    pub fn push_char(&mut self, c: char)
        requires
            old(self).newline_count() < usize::MAX,
        ensures
            final(self)@ == with_char(old(self)@, c),
            final(self).newline_count() == old(self).newline_count() + if c == '\n' {
                1nat
            } else {
                0nat
            },
    {
        let ghost before = self.pieces@;
        match self.pieces.pop() {
            Some(FormatPiece::String(mut s)) => {
                push_char(&mut s, c);
                self.pieces.push(FormatPiece::String(s));
                assert(self@ =~= with_char(old(self)@, c));
            },
            Some(p) => {
                self.pieces.push(p);
                assert(self.pieces@ =~= before);
                let mut s = String::new();
                push_char(&mut s, c);
                self.pieces.push(FormatPiece::String(s));
                assert(s@ =~= seq![c]);
                assert(self@ =~= with_char(old(self)@, c));
            },
            None => {
                let mut s = String::new();
                push_char(&mut s, c);
                self.pieces.push(FormatPiece::String(s));
                assert(s@ =~= seq![c]);
                assert(self@ =~= with_char(old(self)@, c));
            },
        }
        if c == '\n' {
            self.newlines += 1;
        }
    }

    /// Adds a piece at the end. The newline count stays as it is.
    pub fn push(&mut self, p: FormatPiece)
        ensures
            final(self)@ == old(self)@.push(p@),
            final(self).newline_count() == old(self).newline_count(),
    {
        self.pieces.push(p);
        assert(self@ =~= old(self)@.push(p@));
    }
}

/// What occurs in two texts put together occurs in the one or in the other.
pub proof fn lemma_occurrences_concat(a: Seq<char>, b: Seq<char>, c: char)
    ensures
        occurrences(a + b, c) == occurrences(a, c) + occurrences(b, c),
    decreases b.len(),
{
    if b.len() == 0 {
        assert(a + b =~= a);
    } else {
        lemma_occurrences_concat(a, b.drop_last(), c);
        assert((a + b).drop_last() =~= a + b.drop_last());
    }
}

proof fn lemma_digits_hold_no_newline(t: Seq<char>)
    requires
        forall|i: int| 0 <= i < t.len() ==> is_decimal_digit(#[trigger] t[i]),
    ensures
        occurrences(t, '\n') == 0,
    decreases t.len(),
{
    if t.len() > 0 {
        lemma_digits_hold_no_newline(t.drop_last());
    }
}

/// A template renders as many newlines as its literal text holds, whatever
/// the time: no field ever renders one.
pub proof fn lemma_render_newlines(pieces: Seq<PieceView>, secs: nat, nanos: nat)
    ensures
        occurrences(render(pieces, secs, nanos), '\n') == newline_total(pieces),
    decreases pieces.len(),
{
    if pieces.len() > 0 {
        lemma_render_newlines(pieces.drop_last(), secs, nanos);
        let last = render_piece(pieces.last(), secs, nanos);
        lemma_occurrences_concat(render(pieces.drop_last(), secs, nanos), last, '\n');
        match pieces.last() {
            PieceView::Text(_) => {},
            PieceView::Hour => {
                lemma_decimal_is_digits(secs / 3600);
                lemma_digits_hold_no_newline(last);
            },
            PieceView::Minute => {
                lemma_decimal_is_digits(secs / 60 % 60);
                lemma_digits_hold_no_newline(last);
            },
            PieceView::Second => {
                lemma_decimal_is_digits(secs % 60);
                lemma_digits_hold_no_newline(last);
            },
            PieceView::TotalSeconds => {
                lemma_decimal_is_digits(secs);
                lemma_digits_hold_no_newline(last);
            },
            PieceView::Subseconds(_) => {
                lemma_digits_hold_no_newline(last);
            },
        }
    }
}

/// The pieces of the template that is used where none is given:
/// `Elapsed: %H:%M:%S`.
pub open spec fn default_pieces() -> Seq<PieceView> {
    seq![
        PieceView::Text("Elapsed: "@),
        PieceView::Hour,
        PieceView::Text(":"@),
        PieceView::Minute,
        PieceView::Text(":"@),
        PieceView::Second,
    ]
}

impl Default for Format {
    fn default() -> (f: Format)
        ensures
            f@ == default_pieces(),
            f.newline_count() == 0,
    {
        let mut f = Format::new();
        f.push(FormatPiece::String(String::from_str("Elapsed: ")));
        f.push(FormatPiece::Hour);
        f.push(FormatPiece::String(String::from_str(":")));
        f.push(FormatPiece::Minute);
        f.push(FormatPiece::String(String::from_str(":")));
        f.push(FormatPiece::Second);
        assert(f@ =~= default_pieces());
        f
    }
}

proof fn lemma_newline_total_with_field(pieces: Seq<PieceView>, p: PieceView)
    requires
        !(p is Text),
    ensures
        newline_total(pieces.push(p)) == newline_total(pieces),
{
    assert(pieces.push(p).drop_last() =~= pieces);
}

/// A run of digits ends within the sequence.
proof fn lemma_digits_len_bound(s: Seq<char>, i: int)
    requires
        0 <= i <= s.len(),
    ensures
        i + digits_len(s, i) <= s.len(),
    decreases s.len() - i,
{
    if i < s.len() && is_decimal_digit(s[i]) {
        lemma_digits_len_bound(s, i + 1);
    }
}

/// A longer run of digits denotes no smaller number.
proof fn lemma_number_prefix(s: Seq<char>, k: int)
    requires
        0 <= k <= s.len(),
    ensures
        number(s.subrange(0, k)) <= number(s),
    decreases s.len() - k,
{
    if k == s.len() {
        assert(s.subrange(0, k) =~= s);
    } else {
        lemma_number_prefix(s.drop_last(), k);
        assert(s.drop_last().subrange(0, k) =~= s.subrange(0, k));
    }
}

fn is_ascii_digit(c: char) -> (r: bool)
    ensures
        r == is_decimal_digit(c),
{
    let v: u32 = c as u32;
    48 <= v && v <= 57
}

fn digit_of(c: char) -> (v: u32)
    requires
        is_decimal_digit(c),
    ensures
        v == digit_value(c),
{
    c as u32 - 48
}

impl Format {
    /// Reads a template.
    ///
    /// Succeeds exactly where every `%` and every backslash is followed by
    /// something it can stand before. The precision of a `%f` field is the
    /// whole run of digits behind the `%`, and is rejected where it does not
    /// fit in 32 bits, whatever follows it.
    pub fn parse(s: &str) -> (r: Result<Format, ParseFormatError>)
        ensures
            match r {
                Ok(f) => parsed(s@) == Ok::<Seq<PieceView>, ParseFormatError>(f@)
                    && f.newline_count() == newline_total(f@),
                Err(e) => parsed(s@) == Err::<Seq<PieceView>, ParseFormatError>(e),
            },
    {
        let cs = crate::text::chars_of(s);
        let n: usize = cs.len();
        let mut fmt = Format::new();
        let mut i: usize = 0;
        while i < n
            invariant
                cs@ == s@,
                n == cs@.len(),
                i <= n,
                parse_from(s@, i as int, fmt@) == parsed(s@),
                fmt.newline_count() == newline_total(fmt@),
                fmt.newline_count() <= i,
            decreases n - i,
        {
            let c: char = cs[i];
            let ghost before = fmt@;
            proof {
                lemma_newline_total_with_field(before, PieceView::Hour);
                lemma_newline_total_with_field(before, PieceView::Minute);
                lemma_newline_total_with_field(before, PieceView::Second);
                lemma_newline_total_with_field(before, PieceView::TotalSeconds);
                lemma_newline_total_with_field(
                    before,
                    PieceView::Subseconds(DEFAULT_PRECISION as nat),
                );
            }
            if c == '%' {
                if i + 1 >= n {
                    return Err(ParseFormatError::BrokenPercent);
                }
                let d: char = cs[i + 1];
                if d == 'H' {
                    fmt.push(FormatPiece::Hour);
                    i += 2;
                } else if d == 'M' {
                    fmt.push(FormatPiece::Minute);
                    i += 2;
                } else if d == 'S' {
                    fmt.push(FormatPiece::Second);
                    i += 2;
                } else if d == 's' {
                    fmt.push(FormatPiece::TotalSeconds);
                    i += 2;
                } else if d == 'f' {
                    fmt.push(FormatPiece::Subseconds { precision: DEFAULT_PRECISION });
                    i += 2;
                } else if d == 'n' {
                    proof {
                        lemma_newline_total_with_char(before, '\n');
                    }
                    fmt.push_char('\n');
                    i += 2;
                } else if d == 't' {
                    proof {
                        lemma_newline_total_with_char(before, '\t');
                    }
                    fmt.push_char('\t');
                    i += 2;
                } else if d == 'e' {
                    proof {
                        lemma_newline_total_with_char(before, '\x1B');
                    }
                    fmt.push_char('\x1B');
                    i += 2;
                } else if d == '%' {
                    proof {
                        lemma_newline_total_with_char(before, '%');
                    }
                    fmt.push_char('%');
                    i += 2;
                } else if is_ascii_digit(d) {
                    let mut precision: u32 = digit_of(d);
                    let mut j: usize = i + 2;
                    proof {
                        assert(s@.subrange(i + 1, j as int).drop_last() =~= Seq::<char>::empty());
                        assert(number(Seq::<char>::empty()) == 0);
                    }
                    while j < n && is_ascii_digit(cs[j])
                        invariant
                            cs@ == s@,
                            n == cs@.len(),
                            i + 2 <= j <= n,
                            s@[i as int] == '%',
                            d == s@[i + 1],
                            is_decimal_digit(d),
                            percent_token(d) is None,
                            fmt@ == before,
                            parse_from(s@, i as int, before) == parsed(s@),
                            fmt.newline_count() == newline_total(fmt@),
                            fmt.newline_count() <= i,
                            precision == number(s@.subrange(i + 1, j as int)),
                            digits_len(s@, i + 1) == (j - (i + 1)) + digits_len(s@, j as int),
                        decreases n - j,
                    {
                        let v: u32 = digit_of(cs[j]);
                        proof {
                            let run = s@.subrange(i + 1, j + 1);
                            assert(run.drop_last() =~= s@.subrange(i + 1, j as int));
                            assert(number(run) == 10 * precision + v);
                            let end = i + 1 + digits_len(s@, i + 1);
                            lemma_digits_len_bound(s@, i + 1);
                            let whole = s@.subrange(i + 1, end);
                            lemma_number_prefix(whole, j - i);
                            assert(whole.subrange(0, j - i) =~= run);
                        }
                        match precision.checked_mul(10) {
                            Some(p) => match p.checked_add(v) {
                                Some(q) => {
                                    precision = q;
                                },
                                None => {
                                    return Err(ParseFormatError::PrecisionOverflow);
                                },
                            },
                            None => {
                                return Err(ParseFormatError::PrecisionOverflow);
                            },
                        }
                        j += 1;
                    }
                    if j < n && cs[j] == 'f' {
                        proof {
                            lemma_newline_total_with_field(
                                before,
                                PieceView::Subseconds(precision as nat),
                            );
                        }
                        fmt.push(FormatPiece::Subseconds { precision: precision as usize });
                        i = j + 1;
                    } else {
                        return Err(ParseFormatError::InvalidPercent(d));
                    }
                } else {
                    return Err(ParseFormatError::InvalidPercent(d));
                }
            } else if c == '\\' {
                if i + 1 >= n {
                    return Err(ParseFormatError::BrokenEscape);
                }
                let d: char = cs[i + 1];
                let e: char = if d == 'n' {
                    '\n'
                } else if d == 't' {
                    '\t'
                } else if d == 'e' {
                    '\x1B'
                } else if d == '\\' {
                    '\\'
                } else {
                    return Err(ParseFormatError::InvalidEscape(d));
                };
                proof {
                    lemma_newline_total_with_char(before, e);
                }
                fmt.push_char(e);
                i += 2;
            } else {
                proof {
                    lemma_newline_total_with_char(before, c);
                }
                fmt.push_char(c);
                i += 1;
            }
        }
        Ok(fmt)
    }
}

impl std::str::FromStr for Format {
    type Err = ParseFormatError;

    fn from_str(s: &str) -> (r: Result<Format, ParseFormatError>)
        ensures
            match r {
                Ok(f) => parsed(s@) == Ok::<Seq<PieceView>, ParseFormatError>(f@)
                    && f.newline_count() == newline_total(f@),
                Err(e) => parsed(s@) == Err::<Seq<PieceView>, ParseFormatError>(e),
            },
    {
        Format::parse(s)
    }
}

} // verus!
