use vstd::prelude::*;

verus! {

/// The colour of a piece of text in a message.
#[derive(Debug, Clone, Copy, PartialEq, Eq, Structural)]
pub enum Color {
    Default,
    BrightRed,
    BrightBlue,
    BrightWhite,
}

/// How a piece of text in a message is shown.
#[derive(Debug, Clone, Copy, PartialEq, Eq, Structural)]
pub struct Style {
    pub bold: bool,
    pub italic: bool,
    pub color: Color,
}

/// A piece of text with its style. A message is a sequence of them.
#[derive(Debug)]
pub struct Styled {
    pub style: Style,
    pub text: String,
}

impl DeepView for Styled {
    type V = (Style, Seq<char>);

    open spec fn deep_view(&self) -> (Style, Seq<char>) {
        (self.style, self.text@)
    }
}

impl Clone for Styled {
    fn clone(&self) -> (res: Self)
        ensures
            res == *self,
    {
        Styled { style: self.style, text: self.text.clone() }
    }
}

impl Style {
    /// Plain text.
    #[verifier::allow_in_spec]
    pub fn plain() -> Style
        returns
            (Style { bold: false, italic: false, color: Color::Default }),
    {
        Style { bold: false, italic: false, color: Color::Default }
    }

    /// Bold bright red: what is wrong.
    #[verifier::allow_in_spec]
    pub fn red() -> Style
        returns
            (Style { bold: true, italic: false, color: Color::BrightRed }),
    {
        Style { bold: true, italic: false, color: Color::BrightRed }
    }

    /// Bold bright blue: the frame of a message.
    #[verifier::allow_in_spec]
    pub fn blue() -> Style
        returns
            (Style { bold: true, italic: false, color: Color::BrightBlue }),
    {
        Style { bold: true, italic: false, color: Color::BrightBlue }
    }

    /// Bold bright white: headlines.
    #[verifier::allow_in_spec]
    pub fn white() -> Style
        returns
            (Style { bold: true, italic: false, color: Color::BrightWhite }),
    {
        Style { bold: true, italic: false, color: Color::BrightWhite }
    }

    /// Bold, in the default colour.
    #[verifier::allow_in_spec]
    pub fn bold() -> Style
        returns
            (Style { bold: true, italic: false, color: Color::Default }),
    {
        Style { bold: true, italic: false, color: Color::Default }
    }

    /// The same style, in italics.
    #[verifier::allow_in_spec]
    pub fn italic(self) -> Style
        returns
            (Style { bold: self.bold, italic: true, color: self.color }),
    {
        Style { bold: self.bold, italic: true, color: self.color }
    }
}

/// The digit `d` (below 10) as a character.
pub open spec fn digit(d: nat) -> char {
    if d == 0 {
        '0'
    } else if d == 1 {
        '1'
    } else if d == 2 {
        '2'
    } else if d == 3 {
        '3'
    } else if d == 4 {
        '4'
    } else if d == 5 {
        '5'
    } else if d == 6 {
        '6'
    } else if d == 7 {
        '7'
    } else if d == 8 {
        '8'
    } else {
        '9'
    }
}

/// The decimal writing of `n`, without leading zeros.
pub open spec fn decimal(n: nat) -> Seq<char>
    decreases n,
{
    if n < 10 {
        seq![digit(n)]
    } else {
        decimal(n / 10).push(digit(n % 10))
    }
}

fn digit_str(d: usize) -> (s: &'static str)
    requires
        d < 10,
    ensures
        s@ == seq![digit(d as nat)],
{
    proof {
        reveal_strlit("0");
        reveal_strlit("1");
        reveal_strlit("2");
        reveal_strlit("3");
        reveal_strlit("4");
        reveal_strlit("5");
        reveal_strlit("6");
        reveal_strlit("7");
        reveal_strlit("8");
        reveal_strlit("9");
    }
    if d == 0 {
        "0"
    } else if d == 1 {
        "1"
    } else if d == 2 {
        "2"
    } else if d == 3 {
        "3"
    } else if d == 4 {
        "4"
    } else if d == 5 {
        "5"
    } else if d == 6 {
        "6"
    } else if d == 7 {
        "7"
    } else if d == 8 {
        "8"
    } else {
        "9"
    }
}

/// The decimal writing of `n`.
pub fn usize_to_string(n: usize) -> (s: String)
    ensures
        s@ == decimal(n as nat),
    decreases n,
{
    if n < 10 {
        String::from_str(digit_str(n))
    } else {
        let mut s = usize_to_string(n / 10);
        s.append(digit_str(n % 10));
        s
    }
}

/// Two numbers below ten have the same digit only if they are equal.
proof fn lemma_digit_injective(a: nat, b: nat)
    requires
        a < 10,
        b < 10,
        digit(a) == digit(b),
    ensures
        a == b,
{
}

/// The decimal writing of a number has one character below ten, and at
/// least two from ten on.
pub proof fn lemma_decimal_len(n: nat)
    ensures
        n < 10 ==> decimal(n).len() == 1,
        n >= 10 ==> decimal(n).len() >= 2,
    decreases n,
{
    if n >= 10 {
        lemma_decimal_len(n / 10);
    }
}

/// The decimal writing of a number holds digits only: no `.` among them.
pub proof fn lemma_decimal_no_dot(n: nat)
    ensures
        forall|i: int| 0 <= i < decimal(n).len() ==> #[trigger] decimal(n)[i] != '.',
    decreases n,
{
    if n >= 10 {
        lemma_decimal_no_dot(n / 10);
        assert(decimal(n) == decimal(n / 10).push(digit(n % 10)));
    }
}

/// Two numbers with the same decimal writing are equal.
pub proof fn lemma_decimal_injective(m: nat, n: nat)
    requires
        decimal(m) == decimal(n),
    ensures
        m == n,
    decreases m,
{
    lemma_decimal_len(m);
    lemma_decimal_len(n);
    if m < 10 || n < 10 {
        assert(m < 10 && n < 10);
        assert(decimal(m)[0] == digit(m));
        assert(decimal(n)[0] == digit(n));
        lemma_digit_injective(m, n);
    } else {
        let dm = decimal(m);
        let dn = decimal(n);
        assert(dm.drop_last() =~= decimal(m / 10));
        assert(dn.drop_last() =~= decimal(n / 10));
        assert(dm.last() == digit(m % 10));
        assert(dn.last() == digit(n % 10));
        lemma_decimal_injective(m / 10, n / 10);
        lemma_digit_injective(m % 10, n % 10);
    }
}

/// `n` copies of `s`, one after the other.
pub open spec fn repeat(s: Seq<char>, n: nat) -> Seq<char>
    decreases n,
{
    if n == 0 {
        Seq::empty()
    } else {
        repeat(s, (n - 1) as nat) + s
    }
}

/// `n` copies of `s` are `n` times as long as `s`.
pub proof fn lemma_repeat_len(s: Seq<char>, n: nat)
    ensures
        repeat(s, n).len() == n * s.len(),
    decreases n,
{
    let k = s.len();
    if n > 0 {
        lemma_repeat_len(s, (n - 1) as nat);
        assert(repeat(s, n).len() == repeat(s, (n - 1) as nat).len() + k);
        assert((n - 1) * k + k == n * k) by (nonlinear_arith)
            requires
                n > 0,
        ;
    } else {
        assert(n * k == 0) by (nonlinear_arith)
            requires
                n == 0,
        ;
    }
}

/// A string padded to `width` is `width` characters long, unless it was longer.
pub proof fn lemma_pad_right_len(s: Seq<char>, width: nat)
    ensures
        pad_right(s, width).len() == if s.len() >= width {
            s.len()
        } else {
            width
        },
{
    reveal_strlit(" ");
    if s.len() < width {
        lemma_repeat_len(" "@, (width - s.len()) as nat);
    }
}

/// `n` copies of `s`, one after the other.
pub fn repeat_str(s: &str, n: usize) -> (r: String)
    ensures
        r@ == repeat(s@, n as nat),
{
    let mut r = String::new();
    let mut i: usize = 0;
    while i < n
        invariant
            i <= n,
            r@ == repeat(s@, i as nat),
        decreases n - i,
    {
        r.append(s);
        i = i + 1;
    }
    r
}

/// Appends `text` in `style` to the message `out`.
pub fn emit(out: &mut Vec<Styled>, style: Style, text: String)
    ensures
        final(out).deep_view() == old(out).deep_view().push((style, text@)),
{
    let ghost before = out.deep_view();
    out.push(Styled { style, text });
    assert(out.deep_view() =~= before.push((style, text@)));
}

/// Appends the literal `text` in `style` to the message `out`.
pub fn emit_str(out: &mut Vec<Styled>, style: Style, text: &str)
    ensures
        final(out).deep_view() == old(out).deep_view().push((style, text@)),
{
    emit(out, style, String::from_str(text));
}

/// Whether `c` is white space, as Unicode's `White_Space` property says.
pub open spec fn is_white(c: char) -> bool {
    let n = c as u32;
    (0x09 <= n && n <= 0x0d) || n == 0x20 || n == 0x85 || n == 0xa0 || n == 0x1680 || (0x2000
        <= n && n <= 0x200a) || n == 0x2028 || n == 0x2029 || n == 0x202f || n == 0x205f || n
        == 0x3000
}

/// Whether `c` is white space, as Unicode's `White_Space` property says.
pub fn char_is_white(c: char) -> (b: bool)
    ensures
        b == is_white(c),
{
    let n = c as u32;
    (0x09 <= n && n <= 0x0d) || n == 0x20 || n == 0x85 || n == 0xa0 || n == 0x1680 || (0x2000
        <= n && n <= 0x200a) || n == 0x2028 || n == 0x2029 || n == 0x202f || n == 0x205f || n
        == 0x3000
}

/// `s` without the white space at its end.
pub open spec fn trim_end(s: Seq<char>) -> Seq<char>
    decreases s.len(),
{
    if s.len() > 0 && is_white(s.last()) {
        trim_end(s.drop_last())
    } else {
        s
    }
}

/// `s` followed by as many spaces as make it `width` characters long.
pub open spec fn pad_right(s: Seq<char>, width: nat) -> Seq<char> {
    if s.len() >= width {
        s
    } else {
        s + repeat(" "@, (width - s.len()) as nat)
    }
}

/// Calls `String::push` of std, which appends the character `c` to the end of `s`.
#[verifier::external_body]
fn push_char(s: &mut String, c: char)
    ensures
        final(s)@ == old(s)@.push(c),
{
    s.push(c);
}

/// The characters of `v` from `from` (included) to `to` (excluded), as a string.
pub fn chars_to_string(v: &Vec<char>, from: usize, to: usize) -> (s: String)
    requires
        from <= to <= v.len(),
    ensures
        s@ == v@.subrange(from as int, to as int),
{
    let mut s = String::new();
    let mut i = from;
    while i < to
        invariant
            from <= i <= to <= v.len(),
            s@ == v@.subrange(from as int, i as int),
        decreases to - i,
    {
        push_char(&mut s, v[i]);
        assert(s@ =~= v@.subrange(from as int, i + 1));
        i = i + 1;
    }
    s
}

/// The characters of `v` from `from` (included) to `to` (excluded), without the
/// white space at their end.
pub fn trimmed_end(v: &Vec<char>, from: usize, to: usize) -> (k: usize)
    requires
        from <= to <= v.len(),
    ensures
        from <= k <= to,
        v@.subrange(from as int, k as int) == trim_end(v@.subrange(from as int, to as int)),
{
    let mut k = to;
    while k > from && char_is_white(v[k - 1])
        invariant
            from <= k <= to <= v.len(),
            trim_end(v@.subrange(from as int, k as int)) == trim_end(
                v@.subrange(from as int, to as int),
            ),
        decreases k,
    {
        assert(v@.subrange(from as int, k as int).drop_last() =~= v@.subrange(
            from as int,
            k - 1,
        ));
        k = k - 1;
    }
    k
}

/// `s` followed by as many spaces as make it `width` characters long.
pub fn pad_right_str(s: &str, width: usize) -> (r: String)
    ensures
        r@ == pad_right(s@, width as nat),
{
    let n = s.unicode_len();
    let mut r = String::from_str(s);
    if n < width {
        proof {
            reveal_strlit(" ");
        }
        r.append(repeat_str(" ", width - n).as_str());
    }
    r
}

} // verus!
