//! Connection settings for TWS or IB Gateway.
use vstd::prelude::*;
use vstd::string::*;

verus! {

/// The decimal digits of `n`, most significant first, without leading zeros.
pub open spec fn decimal_digits(n: nat) -> Seq<char>
    decreases n,
{
    if n < 10 {
        seq![digit_char(n)]
    } else {
        decimal_digits(n / 10).push(digit_char(n % 10))
    }
}

/// The character of a single decimal digit.
pub open spec fn digit_char(d: nat) -> char {
    if d == 0 { '0' }
    else if d == 1 { '1' }
    else if d == 2 { '2' }
    else if d == 3 { '3' }
    else if d == 4 { '4' }
    else if d == 5 { '5' }
    else if d == 6 { '6' }
    else if d == 7 { '7' }
    else if d == 8 { '8' }
    else { '9' }
}

/// The number that a text of decimal digits denotes.
pub open spec fn digits_value(digits: Seq<char>) -> int
    decreases digits.len(),
{
    if digits.len() == 0 {
        0
    } else {
        digits_value(digits.drop_last()) * 10 + (digits.last() as int - '0' as int)
    }
}

proof fn lemma_digit_char_value(d: nat)
    requires
        d < 10,
    ensures
        digit_char(d) as int - '0' as int == d,
        '0' <= digit_char(d) <= '9',
{
    assert('0' as int == 48);
    assert('9' as int == 57);
    if d == 0 { assert('0' as int == 48); }
    else if d == 1 { assert('1' as int == 49); }
    else if d == 2 { assert('2' as int == 50); }
    else if d == 3 { assert('3' as int == 51); }
    else if d == 4 { assert('4' as int == 52); }
    else if d == 5 { assert('5' as int == 53); }
    else if d == 6 { assert('6' as int == 54); }
    else if d == 7 { assert('7' as int == 55); }
    else if d == 8 { assert('8' as int == 56); }
    else { assert('9' as int == 57); }
}

/// The digits written for a number are decimal digits, without a leading
/// zero (but for zero itself), and read back as the number.
pub proof fn law_decimal_digits_read_back(n: nat)
    ensures
        digits_value(decimal_digits(n)) == n,
        decimal_digits(n).len() >= 1,
        n > 0 ==> decimal_digits(n)[0] != '0',
        forall|i: int|
            0 <= i < decimal_digits(n).len() ==> '0' <= #[trigger] decimal_digits(n)[i] <= '9',
    decreases n,
{
    lemma_digit_char_value((n % 10) as nat);
    assert(n == (n / 10) * 10 + n % 10) by (nonlinear_arith);
    if n >= 10 {
        law_decimal_digits_read_back(n / 10);
        let prefix = decimal_digits(n / 10);
        assert(decimal_digits(n).drop_last() =~= prefix);
        assert(decimal_digits(n).last() == digit_char((n % 10) as nat));
        assert(digits_value(decimal_digits(n)) == digits_value(prefix) * 10 + (n % 10));
        assert(decimal_digits(n)[0] == prefix[0]);
        assert forall|i: int| 0 <= i < decimal_digits(n).len() implies '0' <= #[trigger] decimal_digits(n)[i] <= '9' by {
            if i < prefix.len() {
                assert(decimal_digits(n)[i] == prefix[i]);
            }
        }
    } else {
        assert(decimal_digits(n).drop_last() =~= Seq::<char>::empty());
        assert(digits_value(Seq::<char>::empty()) == 0);
        assert(decimal_digits(n).last() == digit_char(n));
        assert(digits_value(decimal_digits(n)) == digits_value(decimal_digits(n).drop_last()) * 10
            + (decimal_digits(n).last() as int - '0' as int));
    }
}

/// The `host:port` address under which a gateway is reached.
pub open spec fn address_of(host: Seq<char>, port: u16) -> Seq<char> {
    host + seq![':'] + decimal_digits(port as nat)
}

fn digit_str(d: u16) -> (s: &'static str)
    requires
        d < 10,
    ensures
        s@ == seq![digit_char(d as nat)],
{
    proof {
        reveal_strlit("0");
        reveal_strlit("1");
        reveal_strlit("2");
        reveal_strlit("3");
        reveal_strlit("4");
        reveal_strlit("5");
        reveal_strlit("6");
        reveal_strlit("7");
        reveal_strlit("8");
        reveal_strlit("9");
    }
    if d == 0 { "0" }
    else if d == 1 { "1" }
    else if d == 2 { "2" }
    else if d == 3 { "3" }
    else if d == 4 { "4" }
    else if d == 5 { "5" }
    else if d == 6 { "6" }
    else if d == 7 { "7" }
    else if d == 8 { "8" }
    else { "9" }
}

fn append_decimal(s: &mut String, n: u16)
    ensures
        final(s)@ == old(s)@ + decimal_digits(n as nat),
    decreases n,
{
    if n >= 10 {
        append_decimal(s, n / 10);
    }
    let d = digit_str(n % 10);
    s.append(d);
}

/// Connection settings for TWS or IB Gateway.
///
/// Port: 4001 = TWS live, 4002 = TWS paper, 7497 = Gateway live, 4003 = Gateway paper.
#[derive(Debug)]
pub struct IbClientConfig {
    /// Gateway/TWS host (usually 127.0.0.1 when running locally)
    pub host: String,
    /// Port of the gateway
    pub port: u16,
    /// Unique ID so TWS can distinguish multiple API clients.
    pub client_id: i32,
}

impl Clone for IbClientConfig {
    /// A copy with the same host, port and client id.
    fn clone(&self) -> (copy: Self)
        ensures
            copy.host@ == self.host@,
            copy.port == self.port,
            copy.client_id == self.client_id,
    {
        IbClientConfig { host: self.host.clone(), port: self.port, client_id: self.client_id }
    }
}

impl Default for IbClientConfig {
    /// A local TWS in paper-trading mode, client id 0.
    fn default() -> (cfg: Self)
        ensures
            cfg.host@ == "127.0.0.1"@,
            cfg.port == 4002,
            cfg.client_id == 0,
    {
        IbClientConfig { host: "127.0.0.1".to_owned(), port: 4002, client_id: 0 }
    }
}

impl IbClientConfig {
    /// Shorthand constructor.
    pub fn new(host: &str, port: u16, client_id: i32) -> (cfg: Self)
        ensures
            cfg.host@ == host@,
            cfg.port == port,
            cfg.client_id == client_id,
    {
        IbClientConfig { host: host.to_owned(), port, client_id }
    }

    /// The `host:port` address of the gateway.
    pub fn get_address(&self) -> (addr: String)
        ensures
            addr@ == address_of(self.host@, self.port),
    {
        let mut addr = self.host.clone();
        addr.append(":");
        proof {
            reveal_strlit(":");
        }
        append_decimal(&mut addr, self.port);
        addr
    }
}

} // verus!
