use vstd::prelude::*;

verus! {

/// An IPv4 address and port, as the WASI socket interface describes it.
#[derive(Debug, Clone, Copy, PartialEq, Eq)]
pub struct Ipv4SocketAddress {
    pub address: (u8, u8, u8, u8),
    pub port: u16,
}

/// An IPv6 address (eight 16-bit groups) and port, with its flow
/// information and scope, as the WASI socket interface describes it.
#[derive(Debug, Clone, Copy, PartialEq, Eq)]
pub struct Ipv6SocketAddress {
    pub port: u16,
    pub flow_info: u32,
    pub address: (u16, u16, u16, u16, u16, u16, u16, u16),
    pub scope_id: u32,
}

/// A socket address of either family. The relay builds IPv4 addresses;
/// a sink may write to an address of either family.
#[derive(Debug, Clone, Copy, PartialEq, Eq)]
pub enum IpSocketAddress {
    Ipv4(Ipv4SocketAddress),
    Ipv6(Ipv6SocketAddress),
}

impl IpSocketAddress {
    /// Builds the IPv4 socket address of `address` and `port`.
    pub fn new(address: (u8, u8, u8, u8), port: u16) -> (res: Self)
        ensures
            res == IpSocketAddress::Ipv4(Ipv4SocketAddress { address, port }),
    {
        IpSocketAddress::Ipv4(Ipv4SocketAddress { address, port })
    }
}

/// Builds the IPv4 socket address to bind or connect to.
pub fn get_socket_address(address: (u8, u8, u8, u8), port: u16) -> (res: IpSocketAddress)
    ensures
        res == IpSocketAddress::Ipv4(Ipv4SocketAddress { address, port }),
{
    IpSocketAddress::Ipv4(Ipv4SocketAddress { address, port })
}

/// Whether `c` is an ASCII decimal digit.
pub open spec fn is_digit(c: char) -> bool {
    '0' <= c && c <= '9'
}

/// The value of the decimal digit `c`.
pub open spec fn digit_value(c: char) -> int {
    c as int - '0' as int
}

/// The value of a string of decimal digits, most significant first.
pub open spec fn decimal_value(ds: Seq<char>) -> int
    decreases ds.len(),
{
    if ds.len() == 0 {
        0
    } else {
        decimal_value(ds.drop_last()) * 10 + digit_value(ds.last())
    }
}

/// Whether every character of `ds` is a decimal digit.
pub open spec fn all_digits(ds: Seq<char>) -> bool {
    forall|i: int| 0 <= i < ds.len() ==> is_digit(#[trigger] ds[i])
}

/// The digits of an unsigned number: a single leading `+` is allowed.
pub open spec fn unsigned_digits(s: Seq<char>) -> Seq<char> {
    if s.len() > 0 && s[0] == '+' {
        s.drop_first()
    } else {
        s
    }
}

/// The value that `str::parse` gives for an unsigned integer type whose
/// greatest value is `max`: an optional `+`, then at least one decimal
/// digit and nothing else, with a value of at most `max`.
pub open spec fn parse_unsigned(s: Seq<char>, max: int) -> Option<int> {
    let ds = unsigned_digits(s);
    if ds.len() > 0 && all_digits(ds) && decimal_value(ds) <= max {
        Some(decimal_value(ds))
    } else {
        None
    }
}

/// A prefix of a digit string has no greater value than the whole.
proof fn lemma_decimal_value_prefix(ds: Seq<char>, k: int)
    requires
        0 <= k <= ds.len(),
        all_digits(ds),
    ensures
        0 <= decimal_value(ds.take(k)) <= decimal_value(ds),
    decreases ds.len(),
{
    if ds.len() == 0 {
        assert(ds.take(k) =~= ds);
    } else if k == ds.len() {
        assert(ds.take(k) =~= ds);
        lemma_decimal_value_prefix(ds.drop_last(), k - 1);
    } else {
        lemma_decimal_value_prefix(ds.drop_last(), k);
        assert(ds.drop_last().take(k) =~= ds.take(k));
        lemma_decimal_value_prefix(ds.drop_last(), ds.len() - 1);
        assert(ds.drop_last().take(ds.len() - 1) =~= ds.drop_last());
    }
}

/// Parses `s` as an unsigned decimal number of at most `max`, as
/// `str::parse` does for the unsigned integer types.
pub fn parse_unsigned_decimal(s: &str, max: u64) -> (res: Option<u64>)
    ensures
        match parse_unsigned(s@, max as int) {
            Some(v) => res matches Some(r) && r == v,
            None => res is None,
        },
        res matches Some(v) ==> v <= max,
{
    let len = s.unicode_len();
    let mut start: usize = 0;
    if len > 0 && s.get_char(0) == '+' {
        start = 1;
    }
    let ghost ds = unsigned_digits(s@);
    assert(ds =~= s@.subrange(start as int, len as int));
    if start >= len {
        return None;
    }
    let mut value: u64 = 0;
    let mut i: usize = start;
    while i < len
        invariant
            start <= i <= len,
            ds == unsigned_digits(s@),
            len == s@.len(),
            ds =~= s@.subrange(start as int, len as int),
            value as int == decimal_value(ds.take(i - start)),
            value <= max,
            all_digits(ds.take(i - start)),
        decreases len - i,
    {
        let c = s.get_char(i);
        if !('0' <= c && c <= '9') {
            assert(!all_digits(ds)) by {
                assert(ds[i - start] == c);
            }
            return None;
        }
        let d = (c as u32 - '0' as u32) as u64;
        let ghost prefix = ds.take(i - start + 1);
        assert(prefix.drop_last() =~= ds.take(i - start));
        assert(prefix.last() == c);
        if value > max / 10 {
            proof {
                assert(value * 10 + d > max) by (nonlinear_arith)
                    requires
                        value > max / 10,
                        d >= 0,
                ;
                if all_digits(ds) {
                    lemma_decimal_value_prefix(ds, i - start + 1);
                }
            }
            return None;
        }
        assert(value * 10 <= max) by (nonlinear_arith)
            requires
                value <= max / 10,
        ;
        let tens = value * 10;
        if d > max - tens {
            proof {
                if all_digits(ds) {
                    lemma_decimal_value_prefix(ds, i - start + 1);
                }
            }
            return None;
        }
        value = tens + d;
        i = i + 1;
        assert(all_digits(ds.take(i - start))) by {
            assert forall|j: int| 0 <= j < ds.take(i - start).len() implies is_digit(
                #[trigger] ds.take(i - start)[j],
            ) by {
                if j < i - start - 1 {
                    assert(ds.take(i - start)[j] == ds.take(i - start - 1)[j]);
                }
            }
        }
    }
    assert(ds.take(len - start) =~= ds);
    Some(value)
}

/// Why one of the five address arguments could not be used.
#[derive(Debug, Clone, Copy, PartialEq, Eq, Structural)]
pub enum AddressProblem {
    /// The argument is not there.
    Missing,
    /// The argument is not a number of the required range.
    Unparsable,
}

/// The first of the five address arguments that could not be used.
#[derive(Debug, Clone, Copy, PartialEq, Eq, Structural)]
pub struct AddressError {
    pub index: usize,
    pub problem: AddressProblem,
}

/// The result of resolving one optional argument to a number of at most `max`.
pub open spec fn spec_inner_resolve_address(arg: Option<Seq<char>>, max: int) -> Result<
    int,
    AddressProblem,
> {
    match arg {
        None => Err(AddressProblem::Missing),
        Some(s) => match parse_unsigned(s, max) {
            Some(v) => Ok(v),
            None => Err(AddressProblem::Unparsable),
        },
    }
}

/// The argument at position `i`, if there is one.
pub open spec fn arg_at(args: Seq<Seq<char>>, i: int) -> Option<Seq<char>> {
    if 0 <= i < args.len() {
        Some(args[i])
    } else {
        None
    }
}

/// Resolves argument `i` of `args` to a number of at most `max`.
pub open spec fn resolve_field(args: Seq<Seq<char>>, i: int, max: int) -> Result<int, AddressError> {
    match spec_inner_resolve_address(arg_at(args, i), max) {
        Ok(v) => Ok(v),
        Err(problem) => Err(AddressError { index: i as usize, problem }),
    }
}

/// The address and port that the first five arguments name: four octets
/// and a port, each in decimal. The error names the first argument that is
/// missing or out of range.
pub open spec fn spec_resolve_address(args: Seq<Seq<char>>) -> Result<
    ((u8, u8, u8, u8), u16),
    AddressError,
> {
    match resolve_field(args, 0, 255) {
        Err(e) => Err(e),
        Ok(a1) => match resolve_field(args, 1, 255) {
            Err(e) => Err(e),
            Ok(a2) => match resolve_field(args, 2, 255) {
                Err(e) => Err(e),
                Ok(a3) => match resolve_field(args, 3, 255) {
                    Err(e) => Err(e),
                    Ok(a4) => match resolve_field(args, 4, 65535) {
                        Err(e) => Err(e),
                        Ok(p) => Ok(((a1 as u8, a2 as u8, a3 as u8, a4 as u8), p as u16)),
                    },
                },
            },
        },
    }
}

/// Resolves one optional argument to a number of at most `max`.
pub fn inner_resolve_address(option: Option<&String>, max: u64) -> (res: Result<u64, AddressProblem>)
    ensures
        match spec_inner_resolve_address(
            match option {
                Some(s) => Some(s@),
                None => None,
            },
            max as int,
        ) {
            Ok(v) => res matches Ok(r) && r == v,
            Err(p) => res == Err::<u64, AddressProblem>(p),
        },
        res matches Ok(v) ==> v <= max,
{
    match option {
        Some(val) => match parse_unsigned_decimal(val.as_str(), max) {
            Some(v) => Ok(v),
            None => Err(AddressProblem::Unparsable),
        },
        None => Err(AddressProblem::Missing),
    }
}

fn arg(lst: &Vec<String>, i: usize) -> (res: Option<&String>)
    ensures
        match res {
            Some(s) => i < lst.len() && s@ == lst.deep_view()[i as int],
            None => i >= lst.len(),
        },
{
    if i < lst.len() {
        Some(&lst[i])
    } else {
        None
    }
}

fn resolve_field_exec(lst: &Vec<String>, i: usize, max: u64) -> (res: Result<u64, AddressError>)
    ensures
        match resolve_field(lst.deep_view(), i as int, max as int) {
            Ok(v) => res matches Ok(r) && r == v,
            Err(e) => res == Err::<u64, AddressError>(e),
        },
        res matches Ok(v) ==> v <= max,
{
    match inner_resolve_address(arg(lst, i), max) {
        Ok(v) => Ok(v),
        Err(problem) => Err(AddressError { index: i, problem }),
    }
}

/// Resolves the first five arguments to an IPv4 address and a port.
pub fn resolve_address(lst: Vec<String>) -> (res: Result<((u8, u8, u8, u8), u16), AddressError>)
    ensures
        res == spec_resolve_address(lst.deep_view()),
{
    let add1 = resolve_field_exec(&lst, 0, 255)?;
    let add2 = resolve_field_exec(&lst, 1, 255)?;
    let add3 = resolve_field_exec(&lst, 2, 255)?;
    let add4 = resolve_field_exec(&lst, 3, 255)?;
    let port = resolve_field_exec(&lst, 4, 65535)?;
    Ok(((add1 as u8, add2 as u8, add3 as u8, add4 as u8), port as u16))
}

/// The decimal digit character of `d`, for `0 <= d <= 9`.
pub open spec fn digit_char(d: int) -> char {
    ('0' as int + d) as char
}

/// The decimal rendering of `n`, without sign or leading zeros.
pub open spec fn decimal_chars(n: nat) -> Seq<char>
    decreases n,
{
    if n < 10 {
        seq![digit_char(n as int)]
    } else {
        decimal_chars(n / 10).push(digit_char((n % 10) as int))
    }
}

proof fn lemma_decimal_chars(n: nat)
    ensures
        decimal_chars(n).len() > 0,
        decimal_chars(n)[0] != '+',
        all_digits(decimal_chars(n)),
        decimal_value(decimal_chars(n)) == n,
    decreases n,
{
    assert(digit_value(digit_char((n % 10) as int)) == n % 10);
    if n < 10 {
        assert(decimal_chars(n).drop_last() =~= Seq::<char>::empty());
        assert(decimal_value(decimal_chars(n)) == decimal_value(Seq::<char>::empty()) * 10 + digit_value(digit_char(n as int)));
    } else {
        lemma_decimal_chars(n / 10);
        let s = decimal_chars(n);
        assert(s.drop_last() =~= decimal_chars(n / 10));
        assert forall|i: int| 0 <= i < s.len() implies is_digit(#[trigger] s[i]) by {
            if i < s.len() - 1 {
                assert(s[i] == decimal_chars(n / 10)[i]);
            }
        }
    }
}

/// A number written in decimal is read back as itself.
pub proof fn lemma_parse_decimal_chars(n: nat, max: int)
    requires
        n <= max,
    ensures
        parse_unsigned(decimal_chars(n), max) == Some(n as int),
{
    lemma_decimal_chars(n);
}

/// Resolving the decimal renderings of four octets and a port, followed by
/// any further arguments, gives back exactly that address and port.
pub proof fn lemma_resolve_decimal_address(
    address: (u8, u8, u8, u8),
    port: u16,
    rest: Seq<Seq<char>>,
)
    ensures
        spec_resolve_address(
            seq![
                decimal_chars(address.0 as nat),
                decimal_chars(address.1 as nat),
                decimal_chars(address.2 as nat),
                decimal_chars(address.3 as nat),
                decimal_chars(port as nat),
            ] + rest,
        ) == Ok::<((u8, u8, u8, u8), u16), AddressError>((address, port)),
{
    let args = seq![
        decimal_chars(address.0 as nat),
        decimal_chars(address.1 as nat),
        decimal_chars(address.2 as nat),
        decimal_chars(address.3 as nat),
        decimal_chars(port as nat),
    ] + rest;
    lemma_parse_decimal_chars(address.0 as nat, 255);
    lemma_parse_decimal_chars(address.1 as nat, 255);
    lemma_parse_decimal_chars(address.2 as nat, 255);
    lemma_parse_decimal_chars(address.3 as nat, 255);
    lemma_parse_decimal_chars(port as nat, 65535);
    assert(arg_at(args, 0) == Some(decimal_chars(address.0 as nat)));
    assert(arg_at(args, 1) == Some(decimal_chars(address.1 as nat)));
    assert(arg_at(args, 2) == Some(decimal_chars(address.2 as nat)));
    assert(arg_at(args, 3) == Some(decimal_chars(address.3 as nat)));
    assert(arg_at(args, 4) == Some(decimal_chars(port as nat)));
}

/// Only the first five arguments count: arguments after them never change
/// what is resolved.
pub proof fn lemma_resolve_reads_five_arguments(args: Seq<Seq<char>>, more: Seq<Seq<char>>)
    requires
        args.len() >= 5,
    ensures
        spec_resolve_address(args + more) == spec_resolve_address(args),
{
    let all = args + more;
    assert(arg_at(all, 0) == arg_at(args, 0));
    assert(arg_at(all, 1) == arg_at(args, 1));
    assert(arg_at(all, 2) == arg_at(args, 2));
    assert(arg_at(all, 3) == arg_at(args, 3));
    assert(arg_at(all, 4) == arg_at(args, 4));
}

/// Too few arguments: when the arguments given are decimal octets (and a
/// decimal port, if there are five), the error names the first missing
/// position, the one just after the last argument.
pub proof fn lemma_resolve_reports_first_missing(
    address: (u8, u8, u8, u8),
    port: u16,
    given: int,
)
    requires
        0 <= given < 5,
    ensures
        spec_resolve_address(
            seq![
                decimal_chars(address.0 as nat),
                decimal_chars(address.1 as nat),
                decimal_chars(address.2 as nat),
                decimal_chars(address.3 as nat),
                decimal_chars(port as nat),
            ].take(given),
        ) == Err::<((u8, u8, u8, u8), u16), AddressError>(
            AddressError { index: given as usize, problem: AddressProblem::Missing },
        ),
{
    let all = seq![
        decimal_chars(address.0 as nat),
        decimal_chars(address.1 as nat),
        decimal_chars(address.2 as nat),
        decimal_chars(address.3 as nat),
        decimal_chars(port as nat),
    ];
    let args = all.take(given);
    lemma_parse_decimal_chars(address.0 as nat, 255);
    lemma_parse_decimal_chars(address.1 as nat, 255);
    lemma_parse_decimal_chars(address.2 as nat, 255);
    lemma_parse_decimal_chars(address.3 as nat, 255);
    assert(arg_at(args, given) is None);
    assert(0 < given ==> arg_at(args, 0) == Some(decimal_chars(address.0 as nat)));
    assert(1 < given ==> arg_at(args, 1) == Some(decimal_chars(address.1 as nat)));
    assert(2 < given ==> arg_at(args, 2) == Some(decimal_chars(address.2 as nat)));
    assert(3 < given ==> arg_at(args, 3) == Some(decimal_chars(address.3 as nat)));
}

} // verus!
