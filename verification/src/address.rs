//! Reading addresses, line numbers and places from the user's text.

use vstd::prelude::*;
use vstd::string::StrSliceExecFns;

verus! {

/// The value of `c` as a digit: `0`-`9`, then the letters of either case from
/// ten on. A character that is no digit or letter has no value.
pub open spec fn char_value(c: char) -> Option<nat> {
    let u = c as int;
    if 48 <= u <= 57 {
        Some((u - 48) as nat)
    } else if 97 <= u <= 122 {
        Some((u - 97 + 10) as nat)
    } else if 65 <= u <= 90 {
        Some((u - 65 + 10) as nat)
    } else {
        None
    }
}

/// Whether `c` is a digit in base `radix`.
pub open spec fn is_digit(c: char, radix: nat) -> bool {
    char_value(c) is Some && char_value(c).unwrap() < radix
}

/// Whether `s` holds digits of base `radix` only.
pub open spec fn all_digits(s: Seq<char>, radix: nat) -> bool {
    forall|i: int| 0 <= i < s.len() ==> is_digit(#[trigger] s[i], radix)
}

/// The number that the digits of `s` write in base `radix`.
pub open spec fn digits_value(s: Seq<char>, radix: nat) -> nat
    decreases s.len(),
{
    if s.len() == 0 {
        0
    } else {
        digits_value(s.drop_last(), radix) * radix + char_value(s.last()).unwrap_or(0)
    }
}

/// `s` without one leading plus sign.
pub open spec fn unsigned_body(s: Seq<char>) -> Seq<char> {
    if s.len() > 0 && s[0] == '+' {
        s.subrange(1, s.len() as int)
    } else {
        s
    }
}

/// The machine word that `s` writes in base `radix`: an optional plus sign,
/// then one digit or more and nothing else, with a value that fits a word.
pub open spec fn parse_unsigned(s: Seq<char>, radix: nat) -> Option<usize> {
    let body = unsigned_body(s);
    if body.len() > 0 && all_digits(body, radix) && digits_value(body, radix) <= usize::MAX {
        Some(digits_value(body, radix) as usize)
    } else {
        None
    }
}

/// `s` without a leading `0x` or `0X`.
pub open spec fn without_hex_prefix(s: Seq<char>) -> Seq<char> {
    if s.len() >= 2 && s[0] == '0' && (s[1] == 'x' || s[1] == 'X') {
        s.subrange(2, s.len() as int)
    } else {
        s
    }
}

/// The address that `s` writes in hexadecimal, with or without `0x` before it.
pub open spec fn address_of_text(s: Seq<char>) -> Option<usize> {
    parse_unsigned(without_hex_prefix(s), 16)
}

/// A number never gets smaller when digits are written behind it.
proof fn lemma_prefix_value(s: Seq<char>, k: int, radix: nat)
    requires
        0 <= k <= s.len(),
        radix >= 1,
    ensures
        digits_value(s.subrange(0, k), radix) <= digits_value(s, radix),
    decreases s.len(),
{
    if k == s.len() {
        assert(s.subrange(0, k) =~= s);
    } else {
        let shorter = s.drop_last();
        lemma_prefix_value(shorter, k, radix);
        assert(shorter.subrange(0, k) =~= s.subrange(0, k));
        let v = digits_value(shorter, radix);
        assert(v * radix >= v) by (nonlinear_arith)
            requires
                radix >= 1,
                v >= 0,
        ;
    }
}

fn digit_of(c: char, radix: u32) -> (digit: Option<usize>)
    requires
        2 <= radix <= 36,
    ensures
        digit is Some == is_digit(c, radix as nat),
        digit is Some ==> digit.unwrap() == char_value(c).unwrap() && digit.unwrap() < radix,
{
    let u: u32 = c as u32;
    let value: u32 = if 48 <= u && u <= 57 {
        u - 48
    } else if 97 <= u && u <= 122 {
        u - 97 + 10
    } else if 65 <= u && u <= 90 {
        u - 65 + 10
    } else {
        return None;
    };
    if value < radix {
        Some(value as usize)
    } else {
        None
    }
}

/// Reads the characters of `s` from place `from` on as an unsigned number in
/// base `radix`.
pub fn parse_digits(s: &str, from: usize, radix: u32) -> (number: Option<usize>)
    requires
        2 <= radix <= 36,
        from <= s@.len(),
    ensures
        number == parse_unsigned(s@.subrange(from as int, s@.len() as int), radix as nat),
{
    let n = s.unicode_len();
    let ghost text = s@.subrange(from as int, n as int);
    let mut i: usize = from;
    if i < n && s.get_char(i) == '+' {
        i += 1;
    }
    let start = i;
    let ghost body = unsigned_body(text);
    proof {
        assert(body =~= s@.subrange(start as int, n as int));
    }
    if i == n {
        return None;
    }
    let mut acc: usize = 0;
    proof {
        assert(body.subrange(0, 0) =~= Seq::<char>::empty());
    }
    while i < n
        invariant
            2 <= radix <= 36,
            n == s@.len(),
            from <= start <= i <= n,
            body == s@.subrange(start as int, n as int),
            body == unsigned_body(s@.subrange(from as int, n as int)),
            all_digits(body.subrange(0, i - start), radix as nat),
            acc == digits_value(body.subrange(0, i - start), radix as nat),
        decreases n - i,
    {
        let c = s.get_char(i);
        let ghost k = i - start;
        proof {
            assert(body[k] == c);
            assert(body.subrange(0, k + 1).drop_last() =~= body.subrange(0, k));
            assert(body.subrange(0, k + 1).last() == c);
        }
        match digit_of(c, radix) {
            None => {
                proof {
                    assert(!is_digit(body[k], radix as nat));
                }
                return None;
            },
            Some(d) => {
                let room: usize = (usize::MAX - d) / (radix as usize);
                if acc > room {
                    proof {
                        let r = radix as int;
                        assert(acc * r + d > usize::MAX) by (nonlinear_arith)
                            requires
                                acc >= room + 1,
                                room == (usize::MAX - d) / r,
                                r >= 2,
                                d >= 0,
                        ;
                        lemma_prefix_value(body, k + 1, radix as nat);
                        assert(digits_value(body.subrange(0, k + 1), radix as nat) == acc * r + d);
                    }
                    return None;
                }
                proof {
                    let r = radix as int;
                    assert(acc * r + d <= usize::MAX) by (nonlinear_arith)
                        requires
                            0 <= acc <= room,
                            room == (usize::MAX - d) / r,
                            r >= 2,
                            0 <= d <= usize::MAX,
                    ;
                }
                acc = acc * (radix as usize) + d;
            },
        }
        i += 1;
    }
    proof {
        assert(body.subrange(0, n - start) =~= body);
    }
    Some(acc)
}

/// Reads a hexadecimal address, with or without `0x` before it.
pub fn parse_address(addr: &str) -> (address: Option<usize>)
    ensures
        address == address_of_text(addr@),
{
    proof {
        assert(addr@.subrange(0, addr@.len() as int) =~= addr@);
    }
    parse_address_from(addr, 0)
}

/// Reads a hexadecimal address from place `from` of `text` on.
fn parse_address_from(text: &str, from: usize) -> (address: Option<usize>)
    requires
        from <= text@.len(),
    ensures
        address == address_of_text(text@.subrange(from as int, text@.len() as int)),
{
    let n = text.unicode_len();
    let ghost tail = text@.subrange(from as int, n as int);
    if n - from >= 2 && text.get_char(from) == '0' && (text.get_char(from + 1) == 'x'
        || text.get_char(from + 1) == 'X') {
        proof {
            assert(without_hex_prefix(tail) =~= text@.subrange(from + 2, n as int));
        }
        parse_digits(text, from + 2, 16)
    } else {
        parse_digits(text, from, 16)
    }
}

/// A place for a breakpoint, as the user can name it.
#[derive(Debug, PartialEq, Eq)]
pub enum Location {
    /// A raw address, written behind a star.
    Address(usize),
    /// A line of the source.
    Line(usize),
    /// A function, by its name.
    Function(String),
    /// A star with no address behind it.
    Invalid,
}

/// A place with its name as a sequence of characters.
pub enum LocationView {
    Address(usize),
    Line(usize),
    Function(Seq<char>),
    Invalid,
}

impl View for Location {
    type V = LocationView;

    open spec fn view(&self) -> LocationView {
        match *self {
            Location::Address(a) => LocationView::Address(a),
            Location::Line(l) => LocationView::Line(l),
            Location::Function(name) => LocationView::Function(name@),
            Location::Invalid => LocationView::Invalid,
        }
    }
}

/// The place that `pos` names: behind a star a hexadecimal address; else a
/// decimal line number; else a function's name.
pub open spec fn location_of_text(pos: Seq<char>) -> LocationView {
    if pos.len() > 0 && pos[0] == '*' {
        match address_of_text(pos.subrange(1, pos.len() as int)) {
            Some(a) => LocationView::Address(a),
            None => LocationView::Invalid,
        }
    } else {
        match parse_unsigned(pos, 10) {
            Some(l) => LocationView::Line(l),
            None => LocationView::Function(pos),
        }
    }
}

/// Reads the place that the user named.
pub fn parse_location(pos: &str) -> (location: Location)
    ensures
        location@ == location_of_text(pos@),
{
    let n = pos.unicode_len();
    if n > 0 && pos.get_char(0) == '*' {
        match parse_address_from(pos, 1) {
            Some(a) => Location::Address(a),
            None => Location::Invalid,
        }
    } else {
        proof {
            assert(pos@.subrange(0, n as int) =~= pos@);
        }
        match parse_digits(pos, 0, 10) {
            Some(l) => Location::Line(l),
            None => Location::Function(pos.to_owned()),
        }
    }
}

/// The address of a place, if it has one. A raw address stands for itself; a
/// line or a function has the address that the symbol table found for it,
/// handed in as `resolved`.
pub open spec fn address_of_location(location: LocationView, resolved: Option<usize>) -> Option<
    usize,
> {
    match location {
        LocationView::Address(a) => Some(a),
        LocationView::Line(_) => resolved,
        LocationView::Function(_) => resolved,
        LocationView::Invalid => None,
    }
}

/// The address at which the breakpoint goes, if the place has one.
pub fn get_address(location: &Location, resolved: Option<usize>) -> (address: Option<usize>)
    ensures
        address == address_of_location(location@, resolved),
{
    match location {
        Location::Address(a) => Some(*a),
        Location::Line(_) => resolved,
        Location::Function(_) => resolved,
        Location::Invalid => None,
    }
}

} // verus!
