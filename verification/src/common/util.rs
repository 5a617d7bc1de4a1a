//! Decoding of raw samples, decimal text, and the verdicts on paths.

use vstd::prelude::*;
use vstd::string::StringExecFns;

verus! {

/// The value of two bytes read as a big-endian signed 16-bit integer.
pub open spec fn be_i16(hi: u8, lo: u8) -> int {
    if hi >= 128 {
        hi * 256 + lo - 65536
    } else {
        hi * 256 + lo
    }
}

/// The big-endian signed 16-bit integers that the bytes spell, two bytes
/// each.
pub open spec fn be_i16_seq(bytes: Seq<u8>) -> Seq<i16> {
    Seq::new(bytes.len() / 2, |k: int| be_i16(bytes[2 * k], bytes[2 * k + 1]) as i16)
}

/// Converts bytes to 16-bit integers, reading each pair of bytes as a
/// big-endian signed value.
pub fn vec_u8_to_i16(vec_u8: Vec<u8>) -> (vec_i16: Vec<i16>)
    requires
        vec_u8.len() % 2 == 0,
    ensures
        vec_i16@ == be_i16_seq(vec_u8@),
{
    let length: usize = vec_u8.len() / 2;
    let mut vec_i16: Vec<i16> = Vec::with_capacity(length);
    let mut k: usize = 0;
    while k < length
        invariant
            length == vec_u8.len() / 2,
            vec_u8.len() % 2 == 0,
            k <= length,
            vec_i16.len() == k,
            forall|n: int|
                0 <= n < k ==> #[trigger] vec_i16[n] == be_i16(vec_u8[2 * n], vec_u8[2 * n + 1]),
        decreases length - k,
    {
        let hi: u8 = vec_u8[2 * k];
        let lo: u8 = vec_u8[2 * k + 1];
        let wide: i32 = (hi as i32) * 256 + (lo as i32);
        let value: i16 = if hi >= 128 {
            (wide - 65536) as i16
        } else {
            wide as i16
        };
        vec_i16.push(value);
        k += 1;
    }
    assert(vec_i16@ =~= be_i16_seq(vec_u8@));
    vec_i16
}

/// The character of a decimal digit.
pub open spec fn digit_char(d: int) -> char {
    if d == 0 {
        '0'
    } else if d == 1 {
        '1'
    } else if d == 2 {
        '2'
    } else if d == 3 {
        '3'
    } else if d == 4 {
        '4'
    } else if d == 5 {
        '5'
    } else if d == 6 {
        '6'
    } else if d == 7 {
        '7'
    } else if d == 8 {
        '8'
    } else {
        '9'
    }
}

/// The decimal digits of a natural number, without leading zeros.
pub open spec fn decimal_digits(n: nat) -> Seq<char>
    decreases n,
{
    if n < 10 {
        seq![digit_char(n as int)]
    } else {
        decimal_digits(n / 10).push(digit_char((n % 10) as int))
    }
}

/// The text of one decimal digit.
pub fn digit_str(d: u8) -> (s: &'static str)
    requires
        d < 10,
    ensures
        s@ == seq![digit_char(d as int)],
{
    proof {
        reveal_strlit("0");
        reveal_strlit("1");
        reveal_strlit("2");
        reveal_strlit("3");
        reveal_strlit("4");
        reveal_strlit("5");
        reveal_strlit("6");
        reveal_strlit("7");
        reveal_strlit("8");
        reveal_strlit("9");
    }
    let s: &'static str = match d {
        0 => "0",
        1 => "1",
        2 => "2",
        3 => "3",
        4 => "4",
        5 => "5",
        6 => "6",
        7 => "7",
        8 => "8",
        _ => "9",
    };
    assert(s@ =~= seq![digit_char(d as int)]);
    s
}

/// A natural number in decimal.
pub fn decimal(n: usize) -> (s: String)
    ensures
        s@ == decimal_digits(n as nat),
    decreases n,
{
    if n < 10 {
        String::from_str(digit_str(n as u8))
    } else {
        let mut s: String = decimal(n / 10);
        s.append(digit_str((n % 10) as u8));
        assert(s@ =~= decimal_digits(n as nat));
        s
    }
}

/// The decimal digits of an integer, with a minus sign where it is negative.
pub open spec fn signed_digits(n: int) -> Seq<char> {
    if n < 0 {
        seq!['-'] + decimal_digits((-n) as nat)
    } else {
        decimal_digits(n as nat)
    }
}

/// A 16-bit integer in decimal.
pub fn decimal_i16(n: i16) -> (s: String)
    ensures
        s@ == signed_digits(n as int),
{
    if n < 0 {
        proof {
            reveal_strlit("-");
        }
        let magnitude: usize = (-(n as i32)) as usize;
        let digits: String = decimal(magnitude);
        let s: String = with_prefix("-", digits.as_str());
        assert(s@ =~= signed_digits(n as int));
        s
    } else {
        decimal(n as usize)
    }
}

/// `prefix` followed by `value`.
pub fn with_prefix(prefix: &str, value: &str) -> (s: String)
    ensures
        s@ == prefix@ + value@,
{
    let mut s: String = String::from_str(prefix);
    s.append(value);
    s
}

/// The verdict on a directory path, given whether a readable directory was
/// found there.
pub fn check_dir(value: &str, is_dir: bool) -> (r: Result<(), String>)
    ensures
        r is Ok <==> is_dir,
        r matches Err(msg) ==> msg@ == "Directory path is invalid or can't be read: "@ + value@,
{
    if is_dir {
        Ok(())
    } else {
        Err(with_prefix("Directory path is invalid or can't be read: ", value))
    }
}

/// The verdict on a file path, given whether a readable file was found
/// there.
pub fn check_file(value: &str, is_file: bool) -> (r: Result<(), String>)
    ensures
        r is Ok <==> is_file,
        r matches Err(msg) ==> msg@ == "File path is invalid or can't be read: "@ + value@,
{
    if is_file {
        Ok(())
    } else {
        Err(with_prefix("File path is invalid or can't be read: ", value))
    }
}

} // verus!
