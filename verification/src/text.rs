//! Text of error messages and file names, built piece by piece.

use vstd::prelude::*;
use vstd::string::*;

verus! {

/// The character of a decimal or hexadecimal digit.
pub open spec fn digit_char(d: nat) -> char {
    if d < 10 {
        (48 + d) as char
    } else {
        (87 + d) as char
    }
}

/// `n` in decimal, without leading zeros.
pub open spec fn dec(n: nat) -> Seq<char>
    decreases n,
{
    if n < 10 {
        seq![digit_char(n)]
    } else {
        dec(n / 10).push(digit_char(n % 10))
    }
}

/// The low `width` hexadecimal digits of `n`, in lower case, zero-padded.
pub open spec fn hex(n: nat, width: nat) -> Seq<char>
    decreases width,
{
    if width == 0 {
        seq![]
    } else {
        hex(n / 16, (width - 1) as nat).push(digit_char(n % 16))
    }
}

/// One digit as a string.
fn digit_str(d: u64) -> (s: &'static str)
    requires
        d < 16,
    ensures
        s@ == seq![digit_char(d as nat)],
{
    proof {
        reveal_strlit("0");
        reveal_strlit("1");
        reveal_strlit("2");
        reveal_strlit("3");
        reveal_strlit("4");
        reveal_strlit("5");
        reveal_strlit("6");
        reveal_strlit("7");
        reveal_strlit("8");
        reveal_strlit("9");
        reveal_strlit("a");
        reveal_strlit("b");
        reveal_strlit("c");
        reveal_strlit("d");
        reveal_strlit("e");
        reveal_strlit("f");
    }
    match d {
        0 => "0",
        1 => "1",
        2 => "2",
        3 => "3",
        4 => "4",
        5 => "5",
        6 => "6",
        7 => "7",
        8 => "8",
        9 => "9",
        10 => "a",
        11 => "b",
        12 => "c",
        13 => "d",
        14 => "e",
        _ => "f",
    }
}

/// A message under construction.
pub struct Msg {
    text: String,
}

impl View for Msg {
    type V = Seq<char>;

    closed spec fn view(&self) -> Seq<char> {
        self.text@
    }
}

impl Msg {
    /// A message that starts with `s`.
    pub fn new(s: &str) -> (r: Self)
        ensures
            r@ == s@,
    {
        Msg { text: String::from_str(s) }
    }

    /// Appends `s`.
    pub fn lit(self, s: &str) -> (r: Self)
        ensures
            r@ == self@ + s@,
    {
        Msg { text: self.text.concat(s) }
    }

    /// Appends `n` in decimal.
    pub fn num(self, n: usize) -> (r: Self)
        ensures
            r@ == self@ + dec(n as nat),
    {
        self.num64(n as u64)
    }

    /// Appends `n` in decimal.
    pub fn num64(self, n: u64) -> (r: Self)
        ensures
            r@ == self@ + dec(n as nat),
        decreases n,
    {
        if n < 10 {
            let r = Msg { text: self.text.concat(digit_str(n)) };
            assert(r@ =~= self@ + dec(n as nat));
            r
        } else {
            let head = self.num64(n / 10);
            let r = Msg { text: head.text.concat(digit_str(n % 10)) };
            assert(r@ =~= self@ + dec(n as nat));
            r
        }
    }

    /// Appends `n` as sixteen hexadecimal digits.
    pub fn hex16(self, n: u64) -> (r: Self)
        ensures
            r@ == self@ + hex(n as nat, 16),
    {
        self.hex_digits(n, 16)
    }

    fn hex_digits(self, n: u64, width: u64) -> (r: Self)
        ensures
            r@ == self@ + hex(n as nat, width as nat),
        decreases width,
    {
        if width == 0 {
            assert(self@ =~= self@ + hex(n as nat, 0));
            self
        } else {
            let head = self.hex_digits(n / 16, width - 1);
            let r = Msg { text: head.text.concat(digit_str(n % 16)) };
            assert(r@ =~= self@ + hex(n as nat, width as nat));
            r
        }
    }

    /// The finished text.
    pub fn done(self) -> (r: String)
        ensures
            r@ == self@,
    {
        self.text
    }
}

/// The number that digits stand for, in a base.
pub open spec fn read_digits(s: Seq<char>, base: nat) -> nat
    decreases s.len(),
{
    if s.len() == 0 {
        0
    } else {
        let c = s.last() as nat;
        let digit = if c < 58 {
            c - 48
        } else {
            c - 87
        };
        (read_digits(s.drop_last(), base) * base + digit) as nat
    }
}

/// Every character is a decimal digit.
pub open spec fn is_decimal(s: Seq<char>) -> bool {
    forall|i: int| 0 <= i < s.len() ==> '0' <= #[trigger] s[i] <= '9'
}

/// A number in decimal consists of digits, reads back as the number, and has no leading
/// zero unless it is zero.
pub proof fn law_decimal_reads_back(n: nat)
    ensures
        is_decimal(dec(n)),
        read_digits(dec(n), 10) == n,
        dec(n).len() > 0,
        dec(n)[0] == '0' <==> n == 0,
    decreases n,
{
    if n < 10 {
        assert(dec(n).drop_last() =~= seq![]);
        assert(read_digits(dec(n).drop_last(), 10) == 0);
    } else {
        law_decimal_reads_back(n / 10);
        assert(dec(n).drop_last() =~= dec(n / 10));
        assert(n / 10 > 0);
    }
}

/// Hexadecimal digits of a fixed width read back as the number, where it fits.
pub proof fn law_hexadecimal_reads_back(n: nat, width: nat)
    requires
        n < vstd::arithmetic::power::pow(16, width),
    ensures
        hex(n, width).len() == width,
        read_digits(hex(n, width), 16) == n,
    decreases width,
{
    vstd::arithmetic::power::lemma_pow0(16);
    if width > 0 {
        let less = (width - 1) as nat;
        assert(vstd::arithmetic::power::pow(16, width) == 16 * vstd::arithmetic::power::pow(
            16,
            less,
        )) by {
            reveal(vstd::arithmetic::power::pow);
        }
        law_hexadecimal_reads_back(n / 16, less);
        assert(hex(n, width).drop_last() =~= hex(n / 16, less));
    }
}

} // verus!
