//! The two ways in which an operation can fail.
//!
//! A condition that the emulated program is meant to see, as it would on a
//! real system, is an [`IoError`] inside a successful emulation step. A use
//! of the emulation that it does not support ends the step itself with an
//! [`UnsupportedOp`].

use vstd::prelude::*;
use vstd::string::StringExecFns;

verus! {

/// An I/O condition that is handed to the emulated program.
#[derive(Clone, Copy, Debug, PartialEq, Eq, Structural)]
pub enum IoError {
    /// A non-blocking operation found no data to read or no room to write.
    WouldBlock,
    /// A write found that every reader on the far side is gone.
    BrokenPipe,
}

/// A use of the emulation that it does not support.
#[derive(Clone, Copy, Debug, PartialEq, Eq, Structural)]
pub enum UnsupportedOp {
    /// A pair was asked for in a domain other than the local one. Holds
    /// the domain.
    UnsupportedDomain(i32),
    /// A pair was asked for with type bits that are not recognised. Holds
    /// the bits that are left over.
    UnsupportedType(i32),
    /// A pair was asked for with a protocol other than 0. Holds the
    /// protocol.
    UnsupportedProtocol(i32),
    /// A blocking endpoint would have had to wait for data.
    BlockingRead,
    /// A blocking endpoint would have had to wait for room.
    BlockingWrite,
}

/// The outcome of one emulation step.
pub type InterpResult<T> = Result<T, UnsupportedOp>;

/// The outcome that the emulated program sees.
pub type IoResult<T> = Result<T, IoError>;

/// The character of the digit `d` in bases up to 16, in lower case.
pub open spec fn digit_char(d: nat) -> char {
    if d == 0 {
        '0'
    } else if d == 1 {
        '1'
    } else if d == 2 {
        '2'
    } else if d == 3 {
        '3'
    } else if d == 4 {
        '4'
    } else if d == 5 {
        '5'
    } else if d == 6 {
        '6'
    } else if d == 7 {
        '7'
    } else if d == 8 {
        '8'
    } else if d == 9 {
        '9'
    } else if d == 10 {
        'a'
    } else if d == 11 {
        'b'
    } else if d == 12 {
        'c'
    } else if d == 13 {
        'd'
    } else if d == 14 {
        'e'
    } else {
        'f'
    }
}

/// The digits of `n` in base `base`, most significant first, without
/// leading zeros; one digit for zero.
pub open spec fn digits(n: nat, base: nat) -> Seq<char>
    recommends
        2 <= base <= 16,
    decreases n,
{
    if n < base || base < 2 {
        seq![digit_char(n)]
    } else {
        proof {
            lemma_quotient_is_less(n, base);
        }
        digits(n / base, base).push(digit_char(n % base))
    }
}

/// Dividing by 2 or more makes a number that is not zero smaller.
pub proof fn lemma_quotient_is_less(n: nat, base: nat)
    by (nonlinear_arith)
    requires
        2 <= base <= n,
    ensures
        n / base < n,
{
}

/// `value` in hexadecimal with the prefix `0x`. A negative value is
/// written as its 32-bit two's complement.
pub open spec fn hex_text(value: i32) -> Seq<char> {
    let bits: nat = if value >= 0 {
        value as nat
    } else {
        (value + 0x1_0000_0000) as nat
    };
    seq!['0', 'x'] + digits(bits, 16)
}

/// `value` in decimal, with a minus sign where it is negative.
pub open spec fn decimal_text(value: i32) -> Seq<char> {
    if value >= 0 {
        digits(value as nat, 10)
    } else {
        seq!['-'] + digits((-value) as nat, 10)
    }
}

impl UnsupportedOp {
    /// The message that describes this failure.
    pub open spec fn message_text(self) -> Seq<char> {
        match self {
            UnsupportedOp::UnsupportedDomain(domain) => "socketpair: domain "@ + hex_text(domain)
                + " is unsupported, only AF_UNIX and AF_LOCAL are allowed"@,
            UnsupportedOp::UnsupportedType(type_) => "socketpair: type "@ + hex_text(type_)
                + " is unsupported, only SOCK_STREAM, SOCK_CLOEXEC and SOCK_NONBLOCK are allowed"@,
            UnsupportedOp::UnsupportedProtocol(protocol) => "socketpair: socket protocol "@
                + decimal_text(protocol) + " is unsupported, only 0 is allowed"@,
            UnsupportedOp::BlockingRead => "socketpair read: blocking isn't supported yet"@,
            UnsupportedOp::BlockingWrite => "socketpair write: blocking isn't supported yet"@,
        }
    }

    /// The message that describes this failure.
    pub fn message(&self) -> (res: String)
        ensures
            res@ == self.message_text(),
    {
        match self {
            UnsupportedOp::UnsupportedDomain(domain) => {
                let mut res = String::from_str("socketpair: domain ");
                append_hex(&mut res, *domain);
                res.append(" is unsupported, only AF_UNIX and AF_LOCAL are allowed");
                res
            },
            UnsupportedOp::UnsupportedType(type_) => {
                let mut res = String::from_str("socketpair: type ");
                append_hex(&mut res, *type_);
                res.append(
                    " is unsupported, only SOCK_STREAM, SOCK_CLOEXEC and SOCK_NONBLOCK are allowed",
                );
                res
            },
            UnsupportedOp::UnsupportedProtocol(protocol) => {
                let mut res = String::from_str("socketpair: socket protocol ");
                append_decimal(&mut res, *protocol);
                res.append(" is unsupported, only 0 is allowed");
                res
            },
            UnsupportedOp::BlockingRead => String::from_str(
                "socketpair read: blocking isn't supported yet",
            ),
            UnsupportedOp::BlockingWrite => String::from_str(
                "socketpair write: blocking isn't supported yet",
            ),
        }
    }
}

/// The digit `d` as text.
fn digit_str(d: u64) -> (res: &'static str)
    requires
        d < 16,
    ensures
        res@ == seq![digit_char(d as nat)],
{
    proof {
        reveal_strlit("0");
        reveal_strlit("1");
        reveal_strlit("2");
        reveal_strlit("3");
        reveal_strlit("4");
        reveal_strlit("5");
        reveal_strlit("6");
        reveal_strlit("7");
        reveal_strlit("8");
        reveal_strlit("9");
        reveal_strlit("a");
        reveal_strlit("b");
        reveal_strlit("c");
        reveal_strlit("d");
        reveal_strlit("e");
        reveal_strlit("f");
    }
    let res = if d == 0 {
        "0"
    } else if d == 1 {
        "1"
    } else if d == 2 {
        "2"
    } else if d == 3 {
        "3"
    } else if d == 4 {
        "4"
    } else if d == 5 {
        "5"
    } else if d == 6 {
        "6"
    } else if d == 7 {
        "7"
    } else if d == 8 {
        "8"
    } else if d == 9 {
        "9"
    } else if d == 10 {
        "a"
    } else if d == 11 {
        "b"
    } else if d == 12 {
        "c"
    } else if d == 13 {
        "d"
    } else if d == 14 {
        "e"
    } else {
        "f"
    };
    assert(res@ =~= seq![digit_char(d as nat)]);
    res
}

/// Appends the digits of `n` in base `base` to `out`.
fn append_digits(out: &mut String, n: u64, base: u64)
    requires
        2 <= base <= 16,
    ensures
        final(out)@ == old(out)@ + digits(n as nat, base as nat),
    decreases n,
{
    if n < base {
        out.append(digit_str(n));
    } else {
        proof {
            lemma_quotient_is_less(n as nat, base as nat);
        }
        append_digits(out, n / base, base);
        out.append(digit_str(n % base));
        assert(out@ =~= old(out)@ + digits(n as nat, base as nat));
    }
}

/// Appends `value` in hexadecimal, with the prefix `0x`, to `out`.
fn append_hex(out: &mut String, value: i32)
    ensures
        final(out)@ == old(out)@ + hex_text(value),
{
    proof {
        reveal_strlit("0x");
    }
    let wide: i64 = value as i64;
    let bits: u64 = if wide >= 0 {
        wide as u64
    } else {
        (wide + 0x1_0000_0000) as u64
    };
    out.append("0x");
    append_digits(out, bits, 16);
    assert(out@ =~= old(out)@ + hex_text(value));
}

/// Appends `value` in decimal to `out`.
fn append_decimal(out: &mut String, value: i32)
    ensures
        final(out)@ == old(out)@ + decimal_text(value),
{
    proof {
        reveal_strlit("-");
    }
    let wide: i64 = value as i64;
    if wide >= 0 {
        append_digits(out, wide as u64, 10);
    } else {
        out.append("-");
        append_digits(out, (-wide) as u64, 10);
        assert(out@ =~= old(out)@ + decimal_text(value));
    }
}

} // verus!
