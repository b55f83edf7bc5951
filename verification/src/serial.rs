//! Connection parameters: the serial-link option enums, their display
//! names, outbound line endings, and validation of the numeric rate.

use vstd::prelude::*;

verus! {

/// Data bits per symbol.
#[derive(Debug, Clone, Copy, PartialEq, Eq, Structural)]
pub enum DataBits {
    Five,
    Six,
    Seven,
    Eight,
}

impl DataBits {
    /// The display name.
    pub open spec fn spec_str(self) -> Seq<char> {
        match self {
            DataBits::Five => seq!['5'],
            DataBits::Six => seq!['6'],
            DataBits::Seven => seq!['7'],
            DataBits::Eight => seq!['8'],
        }
    }

    pub fn as_str(&self) -> (s: &str)
        ensures
            s@ == self.spec_str(),
    {
        proof {
            reveal_strlit("5");
            reveal_strlit("6");
            reveal_strlit("7");
            reveal_strlit("8");
        }
        match self {
            DataBits::Five => "5",
            DataBits::Six => "6",
            DataBits::Seven => "7",
            DataBits::Eight => "8",
        }
    }
}

/// Stop bits per symbol.
#[derive(Debug, Clone, Copy, PartialEq, Eq, Structural)]
pub enum StopBits {
    One,
    Two,
}

impl StopBits {
    /// The display name.
    pub open spec fn spec_str(self) -> Seq<char> {
        match self {
            StopBits::One => seq!['1'],
            StopBits::Two => seq!['2'],
        }
    }

    pub fn as_str(&self) -> (s: &str)
        ensures
            s@ == self.spec_str(),
    {
        proof {
            reveal_strlit("1");
            reveal_strlit("2");
        }
        match self {
            StopBits::One => "1",
            StopBits::Two => "2",
        }
    }
}

/// Parity checking mode.
#[derive(Debug, Clone, Copy, PartialEq, Eq, Structural)]
pub enum Parity {
    NoParity,
    Even,
    Odd,
}

impl Parity {
    /// The display name.
    pub open spec fn spec_str(self) -> Seq<char> {
        match self {
            Parity::NoParity => seq!['N', 'o', 'n', 'e'],
            Parity::Even => seq!['E', 'v', 'e', 'n'],
            Parity::Odd => seq!['O', 'd', 'd'],
        }
    }

    pub fn as_str(&self) -> (s: &str)
        ensures
            s@ == self.spec_str(),
    {
        proof {
            reveal_strlit("None");
            reveal_strlit("Even");
            reveal_strlit("Odd");
        }
        match self {
            Parity::NoParity => "None",
            Parity::Even => "Even",
            Parity::Odd => "Odd",
        }
    }
}

/// Flow-control mode.
#[derive(Debug, Clone, Copy, PartialEq, Eq, Structural)]
pub enum FlowControl {
    NoFlowControl,
    Software,
    Hardware,
}

impl FlowControl {
    /// The display name.
    pub open spec fn spec_str(self) -> Seq<char> {
        match self {
            FlowControl::NoFlowControl => seq!['N', 'o', 'n', 'e'],
            FlowControl::Software => seq!['S', 'o', 'f', 't', 'w', 'a', 'r', 'e'],
            FlowControl::Hardware => seq!['H', 'a', 'r', 'd', 'w', 'a', 'r', 'e'],
        }
    }

    pub fn as_str(&self) -> (s: &str)
        ensures
            s@ == self.spec_str(),
    {
        proof {
            reveal_strlit("None");
            reveal_strlit("Software");
            reveal_strlit("Hardware");
        }
        match self {
            FlowControl::NoFlowControl => "None",
            FlowControl::Software => "Software",
            FlowControl::Hardware => "Hardware",
        }
    }
}

/// Line ending appended to outbound text.
#[derive(Debug, Clone, Copy, PartialEq, Eq, Structural)]
pub enum LineEnding {
    NoEnding,
    Cr,
    Lf,
    CrLf,
}

impl LineEnding {
    /// The display name (escapes written out).
    pub open spec fn spec_str(self) -> Seq<char> {
        match self {
            LineEnding::NoEnding => seq!['N', 'o', 'n', 'e'],
            LineEnding::Cr => seq!['\\', 'r'],
            LineEnding::Lf => seq!['\\', 'n'],
            LineEnding::CrLf => seq!['\\', 'r', '\\', 'n'],
        }
    }

    /// The bytes appended to outbound text.
    pub open spec fn spec_bytes(self) -> Seq<u8> {
        match self {
            LineEnding::NoEnding => Seq::empty(),
            LineEnding::Cr => seq![13u8],
            LineEnding::Lf => seq![10u8],
            LineEnding::CrLf => seq![13u8, 10u8],
        }
    }

    pub fn as_str(&self) -> (s: &str)
        ensures
            s@ == self.spec_str(),
    {
        proof {
            reveal_strlit("None");
            reveal_strlit("\\r");
            reveal_strlit("\\n");
            reveal_strlit("\\r\\n");
        }
        match self {
            LineEnding::NoEnding => "None",
            LineEnding::Cr => "\\r",
            LineEnding::Lf => "\\n",
            LineEnding::CrLf => "\\r\\n",
        }
    }

    pub fn as_bytes(&self) -> (v: Vec<u8>)
        ensures
            v@ == self.spec_bytes(),
    {
        let mut v: Vec<u8> = Vec::new();
        match self {
            LineEnding::NoEnding => {},
            LineEnding::Cr => {
                v.push(13);
            },
            LineEnding::Lf => {
                v.push(10);
            },
            LineEnding::CrLf => {
                v.push(13);
                v.push(10);
            },
        }
        assert(v@ =~= self.spec_bytes());
        v
    }
}

/// How the send box is interpreted.
#[derive(Debug, Clone, Copy, PartialEq, Eq, Structural)]
pub enum SendMode {
    Ascii,
    Hex,
}

// ---------------------------------------------------------------------------
// Rate validation
// ---------------------------------------------------------------------------
/// An ASCII decimal digit.
pub open spec fn is_dec_digit_char(c: char) -> bool {
    48 <= c as u32 <= 57
}

pub open spec fn all_dec_digits(s: Seq<char>) -> bool {
    forall|i: int| 0 <= i < s.len() ==> is_dec_digit_char(s[i])
}

/// The number a digit string stands for.
pub open spec fn dec_value(s: Seq<char>) -> int
    decreases s.len(),
{
    if s.len() == 0 {
        0
    } else {
        dec_value(s.drop_last()) * 10 + (s.last() as u32 - 48)
    }
}

/// A rate text is accepted when it is all digits, not empty, and fits.
pub open spec fn spec_baud_ok(s: Seq<char>) -> bool {
    s.len() > 0 && all_dec_digits(s) && dec_value(s) <= u32::MAX
}

proof fn lemma_dec_value_nonneg(s: Seq<char>)
    requires
        all_dec_digits(s),
    ensures
        dec_value(s) >= 0,
    decreases s.len(),
{
    if s.len() > 0 {
        assert(all_dec_digits(s.drop_last())) by {
            assert(forall|i: int|
                0 <= i < s.len() - 1 ==> is_dec_digit_char(#[trigger] s.drop_last()[i]));
        };
        lemma_dec_value_nonneg(s.drop_last());
    }
}

/// A digit string is worth at least any of its prefixes.
proof fn lemma_dec_value_prefix(s: Seq<char>, k: int)
    requires
        all_dec_digits(s),
        0 <= k <= s.len(),
    ensures
        dec_value(s.take(k)) <= dec_value(s),
    decreases s.len() - k,
{
    if k < s.len() {
        lemma_dec_value_prefix(s, k + 1);
        assert(s.take(k + 1).drop_last() =~= s.take(k));
        assert(s.take(k + 1).last() == s[k]);
        assert(all_dec_digits(s.take(k))) by {
            assert(forall|i: int| 0 <= i < k ==> is_dec_digit_char(#[trigger] s.take(k)[i]));
        };
        lemma_dec_value_nonneg(s.take(k));
    } else {
        assert(s.take(k) =~= s);
    }
}

fn dec_digit_value(c: char) -> (r: Option<u32>)
    ensures
        r is Some <==> is_dec_digit_char(c),
        r matches Some(v) ==> v == c as u32 - 48 && v < 10,
{
    let u = c as u32;
    if 48 <= u && u <= 57 {
        Some(u - 48)
    } else {
        None
    }
}

/// Parse a decimal rate. Returns the value exactly when the text is one or
/// more ASCII digits whose value fits in 32 bits; anything else is rejected.
pub fn parse_baud_rate(s: &str) -> (r: Option<u32>)
    ensures
        r is Some <==> spec_baud_ok(s@),
        r matches Some(v) ==> v == dec_value(s@),
{
    let chars = crate::codec::str_to_chars(s);
    let n = chars.len();
    if n == 0 {
        return None;
    }
    let mut val: u32 = 0;
    let mut i: usize = 0;
    assert(chars@.take(0) =~= Seq::<char>::empty());
    while i < n
        invariant
            n == chars@.len(),
            chars@ == s@,
            i <= n,
            all_dec_digits(chars@.take(i as int)),
            val == dec_value(chars@.take(i as int)),
        decreases n - i,
    {
        let c = chars[i];
        match dec_digit_value(c) {
            None => {
                assert(!all_dec_digits(s@));
                return None;
            },
            Some(d) => {
                if val > (u32::MAX - d) / 10 {
                    proof {
                        assert(all_dec_digits(chars@.take(i as int + 1))) by {
                            assert(forall|k: int|
                                0 <= k < i + 1 ==> is_dec_digit_char(
                                    #[trigger] chars@.take(i as int + 1)[k],
                                ));
                        };
                        assert(chars@.take(i as int + 1).drop_last() =~= chars@.take(i as int));
                        assert(dec_value(chars@.take(i as int + 1)) > u32::MAX);
                        if all_dec_digits(s@) {
                            lemma_dec_value_prefix(s@, i as int + 1);
                        }
                    }
                    return None;
                }
                val = val * 10 + d;
                proof {
                    assert(chars@.take(i as int + 1).drop_last() =~= chars@.take(i as int));
                    assert(all_dec_digits(chars@.take(i as int + 1))) by {
                        assert(forall|k: int|
                            0 <= k < i + 1 ==> is_dec_digit_char(
                                #[trigger] chars@.take(i as int + 1)[k],
                            ));
                    };
                }
                i = i + 1;
            },
        }
    }
    assert(chars@.take(n as int) =~= s@);
    Some(val)
}

} // verus!
