use vstd::prelude::*;
use vstd::string::*;

verus! {

/// The canonical form of a host as `url`'s opaque-host parser produces it, or
/// `None` where that parser refuses the text.
pub uninterp spec fn opaque_host(text: Seq<char>) -> Option<Seq<char>>;

/// Relies on `url::Host::parse_opaque`: the host of a URL whose scheme is not a
/// special one (as `nes://` is), rendered back to text through its `Display`.
/// Bracketed text is read as an IPv6 address; other text is refused if it holds
/// a forbidden host character and percent-encoded otherwise.
#[verifier::external_body]
fn parse_opaque_host(text: &str) -> (r: Option<String>)
    ensures
        match r {
            Some(h) => opaque_host(text@) == Some(h@),
            None => opaque_host(text@) is None,
        },
{
    url::Host::parse_opaque(text).ok().map(|h| h.to_string())
}

/// Why a text is not a connection identifier.
#[derive(Clone, Copy, Debug, PartialEq, Eq, Structural)]
pub enum ConnectionIdentifierError {
    /// The text holds no `:` separating host and port.
    MissingPort,
    /// The text after the last `:` is not a decimal number from 1 to 65535.
    InvalidPort,
    /// The text before the last `:` is empty.
    EmptyHost,
    /// The host is neither an IP literal nor a valid host name.
    InvalidHost,
}

/// A remote endpoint: a host (in canonical form) and a port.
#[derive(Clone, Debug)]
pub struct ConnectionIdentifier {
    pub host: String,
    pub port: u16,
}

/// The local endpoint of a service; it converts into a [`ConnectionIdentifier`]
/// for peers.
#[derive(Clone, Debug)]
pub struct ThisConnectionIdentifier {
    pub id: ConnectionIdentifier,
}

pub open spec fn is_digit(c: char) -> bool {
    '0' <= c && c <= '9'
}

pub open spec fn digit_value(c: char) -> nat {
    ((c as u32) - ('0' as u32)) as nat
}

/// The number that a sequence of decimal digits denotes.
pub open spec fn digits_value(t: Seq<char>) -> nat
    decreases t.len(),
{
    if t.len() == 0 {
        0
    } else {
        digits_value(t.drop_last()) * 10 + digit_value(t.last())
    }
}

pub open spec fn digit_char(d: nat) -> char {
    seq!['0', '1', '2', '3', '4', '5', '6', '7', '8', '9'][d as int]
}

/// The decimal notation of `n`, without leading zeros.
pub open spec fn decimal(n: nat) -> Seq<char>
    decreases n,
{
    if n < 10 {
        seq![digit_char(n)]
    } else {
        decimal(n / 10).push(digit_char(n % 10))
    }
}

/// Index of the last `:` among the first `n` characters of `s`, or -1.
pub open spec fn last_colon_before(s: Seq<char>, n: int) -> int
    decreases n,
{
    if n <= 0 {
        -1
    } else if s[n - 1] == ':' {
        n - 1
    } else {
        last_colon_before(s, n - 1)
    }
}

pub open spec fn last_colon(s: Seq<char>) -> int {
    last_colon_before(s, s.len() as int)
}

/// A port is one to five decimal digits denoting a number from 1 to 65535.
pub open spec fn port_of(t: Seq<char>) -> Option<u16> {
    if 1 <= t.len() <= 5 && (forall|i: int| 0 <= i < t.len() ==> is_digit(#[trigger] t[i]))
        && 1 <= digits_value(t) <= 65535 {
        Some(digits_value(t) as u16)
    } else {
        None
    }
}

/// What `host:port` text denotes: the canonical host and the port.
pub open spec fn parse_identifier(s: Seq<char>) -> Result<(Seq<char>, u16), ConnectionIdentifierError> {
    let i = last_colon(s);
    if i < 0 {
        Err(ConnectionIdentifierError::MissingPort)
    } else if port_of(s.subrange(i + 1, s.len() as int)) is None {
        Err(ConnectionIdentifierError::InvalidPort)
    } else if i == 0 {
        Err(ConnectionIdentifierError::EmptyHost)
    } else {
        match opaque_host(s.subrange(0, i)) {
            Some(h) => Ok((h, port_of(s.subrange(i + 1, s.len() as int))->Some_0)),
            None => Err(ConnectionIdentifierError::InvalidHost),
        }
    }
}

/// The text form `host:port`.
pub open spec fn format_identifier(host: Seq<char>, port: u16) -> Seq<char> {
    host + seq![':'] + decimal(port as nat)
}

proof fn lemma_decimal(n: nat)
    ensures
        1 <= decimal(n).len(),
        forall|i: int| 0 <= i < decimal(n).len() ==> is_digit(#[trigger] decimal(n)[i]),
        digits_value(decimal(n)) == n,
    decreases n,
{
    if n < 10 {
        assert(digits_value(decimal(n).drop_last()) == 0) by {
            assert(decimal(n).drop_last().len() == 0);
        }
    } else {
        lemma_decimal(n / 10);
        assert(decimal(n).drop_last() =~= decimal(n / 10));
        assert(n / 10 * 10 + n % 10 == n) by (nonlinear_arith);
        assert forall|i: int| 0 <= i < decimal(n).len() implies is_digit(#[trigger] decimal(n)[i]) by {
            if i < decimal(n / 10).len() {
                assert(decimal(n)[i] == decimal(n / 10)[i]);
            }
        }
    }
}

proof fn lemma_decimal_bound(n: nat)
    ensures
        n < 10 ==> decimal(n).len() == 1,
        n < 100 ==> decimal(n).len() <= 2,
        n < 1000 ==> decimal(n).len() <= 3,
        n < 10000 ==> decimal(n).len() <= 4,
        n < 100000 ==> decimal(n).len() <= 5,
    decreases n,
{
    if n >= 10 {
        lemma_decimal_bound(n / 10);
    }
}

proof fn lemma_last_colon_of_suffix(s: Seq<char>, k: int, n: int)
    requires
        0 <= k < n <= s.len(),
        s[k] == ':',
        forall|j: int| k < j < s.len() ==> s[j] != ':',
    ensures
        last_colon_before(s, n) == k,
    decreases n,
{
    if n - 1 > k {
        lemma_last_colon_of_suffix(s, k, n - 1);
    }
}

/// Formatting an identifier and parsing the text gives the identifier back,
/// for every identifier whose host is non-empty and already in canonical form
/// and whose port is not zero.
pub proof fn lemma_parse_format_round_trip(host: Seq<char>, port: u16)
    requires
        host.len() > 0,
        opaque_host(host) == Some(host),
        port >= 1,
    ensures
        parse_identifier(format_identifier(host, port)) == Ok::<(Seq<char>, u16), ConnectionIdentifierError>((host, port)),
{
    let s = format_identifier(host, port);
    let d = decimal(port as nat);
    lemma_decimal(port as nat);
    lemma_decimal_bound(port as nat);
    let k = host.len() as int;
    assert(s[k] == ':');
    assert forall|j: int| k < j < s.len() implies s[j] != ':' by {
        assert(s[j] == d[j - k - 1]);
        assert(is_digit(d[j - k - 1]));
    }
    lemma_last_colon_of_suffix(s, k, s.len() as int);
    assert(s.subrange(k + 1, s.len() as int) =~= d);
    assert(s.subrange(0, k) =~= host);
}

/// Index of the last `:` in `s`, if any.
fn find_last_colon(s: &str) -> (r: Option<usize>)
    ensures
        match r {
            Some(k) => last_colon(s@) == k as int && k < s@.len(),
            None => last_colon(s@) == -1,
        },
{
    let n = s.unicode_len();
    let mut i: usize = n;
    while i > 0
        invariant
            i <= n,
            n == s@.len(),
            last_colon(s@) == last_colon_before(s@, i as int),
        decreases i,
    {
        if s.get_char(i - 1) == ':' {
            return Some(i - 1);
        }
        i = i - 1;
    }
    None
}

/// Reads a port: one to five decimal digits denoting 1 to 65535.
fn parse_port(t: &str) -> (r: Option<u16>)
    ensures
        r == port_of(t@),
{
    let len = t.unicode_len();
    if len < 1 || len > 5 {
        return None;
    }
    let mut v: u32 = 0;
    let mut j: usize = 0;
    while j < len
        invariant
            j <= len,
            len == t@.len(),
            1 <= len <= 5,
            forall|k: int| 0 <= k < j ==> is_digit(#[trigger] t@[k]),
            v as nat == digits_value(t@.subrange(0, j as int)),
            j == 0 ==> v == 0,
            j <= 1 ==> v < 10,
            j <= 2 ==> v < 100,
            j <= 3 ==> v < 1000,
            j <= 4 ==> v < 10000,
            v < 100000,
        decreases len - j,
    {
        let c = t.get_char(j);
        if !('0' <= c && c <= '9') {
            assert(!is_digit(t@[j as int]));
            return None;
        }
        assert(t@.subrange(0, j as int + 1).drop_last() =~= t@.subrange(0, j as int));
        v = v * 10 + (c as u32 - '0' as u32);
        j = j + 1;
    }
    assert(t@.subrange(0, len as int) =~= t@);
    if v < 1 || v > 65535 {
        return None;
    }
    Some(v as u16)
}

/// The one-character text of a decimal digit.
fn digit_str(d: u16) -> (r: &'static str)
    requires
        d < 10,
    ensures
        r@ == seq![digit_char(d as nat)],
{
    if d == 0 {
        proof { reveal_strlit("0"); }
        "0"
    } else if d == 1 {
        proof { reveal_strlit("1"); }
        "1"
    } else if d == 2 {
        proof { reveal_strlit("2"); }
        "2"
    } else if d == 3 {
        proof { reveal_strlit("3"); }
        "3"
    } else if d == 4 {
        proof { reveal_strlit("4"); }
        "4"
    } else if d == 5 {
        proof { reveal_strlit("5"); }
        "5"
    } else if d == 6 {
        proof { reveal_strlit("6"); }
        "6"
    } else if d == 7 {
        proof { reveal_strlit("7"); }
        "7"
    } else if d == 8 {
        proof { reveal_strlit("8"); }
        "8"
    } else {
        proof { reveal_strlit("9"); }
        "9"
    }
}

/// Appends the decimal notation of `n`.
fn push_decimal(out: &mut String, n: u16)
    ensures
        final(out)@ == old(out)@ + decimal(n as nat),
    decreases n,
{
    if n >= 10 {
        push_decimal(out, n / 10);
    }
    out.append(digit_str(n % 10));
    proof {
        if n >= 10 {
            assert(decimal(n as nat) == decimal((n / 10) as nat).push(digit_char((n % 10) as nat)));
        }
    }
}

impl ConnectionIdentifier {
    /// Parses `host:port`. The port is the text after the last `:`; the host,
    /// the text before it, goes through the opaque-host parser of URLs. Text
    /// that does not have this form, such as one with a scheme or a path, is
    /// refused.
    pub fn from_str(s: &str) -> (r: Result<ConnectionIdentifier, ConnectionIdentifierError>)
        ensures
            match r {
                Ok(id) => parse_identifier(s@) == Ok::<(Seq<char>, u16), ConnectionIdentifierError>((id.host@, id.port)),
                Err(e) => parse_identifier(s@) == Err::<(Seq<char>, u16), ConnectionIdentifierError>(e),
            },
    {
        let n = s.unicode_len();
        let k = match find_last_colon(s) {
            Some(k) => k,
            None => return Err(ConnectionIdentifierError::MissingPort),
        };
        let port = match parse_port(s.substring_char(k + 1, n)) {
            Some(p) => p,
            None => return Err(ConnectionIdentifierError::InvalidPort),
        };
        if k == 0 {
            return Err(ConnectionIdentifierError::EmptyHost);
        }
        match parse_opaque_host(s.substring_char(0, k)) {
            Some(host) => Ok(ConnectionIdentifier { host, port }),
            None => Err(ConnectionIdentifierError::InvalidHost),
        }
    }

    /// The text form `host:port`.
    pub fn to_string(&self) -> (r: String)
        ensures
            r@ == format_identifier(self.host@, self.port),
    {
        let mut out = self.host.clone();
        proof { reveal_strlit(":"); }
        out.append(":");
        push_decimal(&mut out, self.port);
        out
    }

    /// A copy of this identifier.
    pub fn clone_id(&self) -> (r: ConnectionIdentifier)
        ensures
            r == *self,
    {
        ConnectionIdentifier { host: self.host.clone(), port: self.port }
    }

    /// Whether both name the same host and port.
    pub fn same_as(&self, other: &ConnectionIdentifier) -> (r: bool)
        ensures
            r == (self.host@ == other.host@ && self.port == other.port),
    {
        self.port == other.port && self.host == other.host
    }
}

impl ThisConnectionIdentifier {
    /// Parses `host:port` as [`ConnectionIdentifier::from_str`] does.
    pub fn from_str(s: &str) -> (r: Result<ThisConnectionIdentifier, ConnectionIdentifierError>)
        ensures
            match r {
                Ok(this) => parse_identifier(s@) == Ok::<(Seq<char>, u16), ConnectionIdentifierError>((this.id.host@, this.id.port)),
                Err(e) => parse_identifier(s@) == Err::<(Seq<char>, u16), ConnectionIdentifierError>(e),
            },
    {
        match ConnectionIdentifier::from_str(s) {
            Ok(id) => Ok(ThisConnectionIdentifier { id }),
            Err(e) => Err(e),
        }
    }

    /// The identifier under which peers reach this endpoint.
    pub fn into_connection(self) -> (r: ConnectionIdentifier)
        ensures
            r == self.id,
    {
        self.id
    }

    /// The text form `host:port`.
    pub fn to_string(&self) -> (r: String)
        ensures
            r@ == format_identifier(self.id.host@, self.id.port),
    {
        self.id.to_string()
    }
}

} // verus!
