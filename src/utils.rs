//! Display helpers: block builder identities, elapsed time, and short
//! forms of hashes and addresses.
use vstd::prelude::*;
use vstd::string::StringSliceAdditionalSpecFns;
use crate::block::BlockHash;

verus! {

/// The public identity of known block builders on Ethereum mainnet.
#[derive(Clone, Copy, Debug, PartialEq, Eq, Hash, Structural)]
pub enum BuilderIdentity {
    Beaver,
    Titan,
    Rsync,
    Penguin,
    Flashbots,
    Nethermind,
    Jet,
    Loki,
    SixtyNine,
    BuildAI,
    Beelder,
    Blocksmith,
    Bob,
    Boba,
    Manifold,
    Bitget,
    Btcs,
    Local,
}

/// The builder that a block's extra-data tag names; `Local` for any other tag.
pub open spec fn builder_of(extra: Seq<u8>) -> BuilderIdentity {
    if extra == "beaverbuild.org".spec_bytes() {
        BuilderIdentity::Beaver
    } else if extra == "Titan (titanbuilder.xyz)".spec_bytes() {
        BuilderIdentity::Titan
    } else if extra == "@rsyncbuilder".spec_bytes() || extra == "rsync-builder.xyz".spec_bytes() {
        BuilderIdentity::Rsync
    } else if extra == "penguinbuild.org".spec_bytes() || extra == "@penguinbuild.org".spec_bytes() || extra == "@@penguinbuild.org".spec_bytes() {
        BuilderIdentity::Penguin
    } else if extra == "Illuminate Dmocratize Dstribute".spec_bytes() || extra == "Illuminate Dmocrtz Dstrib Prtct".spec_bytes() {
        BuilderIdentity::Flashbots
    } else if extra == "Nethermind".spec_bytes() {
        BuilderIdentity::Nethermind
    } else if extra == "jetbldr.xyz".spec_bytes() {
        BuilderIdentity::Jet
    } else if extra == "lokibuilder.xyz".spec_bytes() {
        BuilderIdentity::Loki
    } else if extra == "builder0x69".spec_bytes() || extra == "by builder0x69".spec_bytes() || extra == "by @builder0x69".spec_bytes() {
        BuilderIdentity::SixtyNine
    } else if extra == "BuildAI (https://buildai.net)".spec_bytes() {
        BuilderIdentity::BuildAI
    } else if extra == "https://blockbeelder.com 🐝".spec_bytes() {
        BuilderIdentity::Beelder
    } else if extra == "blocksmith.org".spec_bytes() {
        BuilderIdentity::Blocksmith
    } else if extra == "bobTheBuilder.xyz".spec_bytes() {
        BuilderIdentity::Bob
    } else if extra == "boba-builder.com".spec_bytes() {
        BuilderIdentity::Boba
    } else if extra == "Manifold: coinbase".spec_bytes() {
        BuilderIdentity::Manifold
    } else if extra == "Bitget(https://www.bitget.com/)".spec_bytes() {
        BuilderIdentity::Bitget
    } else if extra == "Builder+ www.btcs.com/builder".spec_bytes() {
        BuilderIdentity::Btcs
    } else {
        BuilderIdentity::Local
    }
}

/// The name under which a builder is shown.
pub open spec fn builder_label(b: BuilderIdentity) -> Seq<char> {
    match b {
        BuilderIdentity::Beaver => "beaverbuild"@,
        BuilderIdentity::Titan => "Titan Builder"@,
        BuilderIdentity::Rsync => "rsync-builder"@,
        BuilderIdentity::Penguin => "penguinbuild.org"@,
        BuilderIdentity::Flashbots => "Flashbots"@,
        BuilderIdentity::Nethermind => "Nethermind"@,
        BuilderIdentity::Jet => "JetBuilder"@,
        BuilderIdentity::Loki => "Loki Builder"@,
        BuilderIdentity::SixtyNine => "Builder0x69"@,
        BuilderIdentity::BuildAI => "BuildAI"@,
        BuilderIdentity::Beelder => "beelder.eth"@,
        BuilderIdentity::Blocksmith => "Blocksmith"@,
        BuilderIdentity::Bob => "Bob The Builder"@,
        BuilderIdentity::Boba => "Boba Builder"@,
        BuilderIdentity::Manifold => "Manifold"@,
        BuilderIdentity::Bitget => "Bitget"@,
        BuilderIdentity::Btcs => "Builder+"@,
        BuilderIdentity::Local => "<local>"@,
    }
}

/// Whether two byte slices are equal.
fn bytes_equal(a: &[u8], b: &[u8]) -> (r: bool)
    ensures
        r == (a@ == b@),
{
    if a.len() != b.len() {
        return false;
    }
    let mut i: usize = 0;
    while i < a.len()
        invariant
            a@.len() == b@.len(),
            i <= a@.len(),
            forall|j: int| 0 <= j < i ==> a@[j] == b@[j],
        decreases a@.len() - i,
    {
        if a[i] != b[i] {
            return false;
        }
        i = i + 1;
    }
    proof {
        assert(a@ =~= b@);
    }
    true
}

impl BuilderIdentity {
    /// Identifies the builder from a block's extra-data bytes.
    pub fn identify(extra: &[u8]) -> (r: BuilderIdentity)
        ensures
            r == builder_of(extra@),
    {
        if bytes_equal(extra, "beaverbuild.org".as_bytes()) {
            return BuilderIdentity::Beaver;
        }
        if bytes_equal(extra, "Titan (titanbuilder.xyz)".as_bytes()) {
            return BuilderIdentity::Titan;
        }
        if bytes_equal(extra, "@rsyncbuilder".as_bytes()) {
            return BuilderIdentity::Rsync;
        }
        if bytes_equal(extra, "rsync-builder.xyz".as_bytes()) {
            return BuilderIdentity::Rsync;
        }
        if bytes_equal(extra, "penguinbuild.org".as_bytes()) {
            return BuilderIdentity::Penguin;
        }
        if bytes_equal(extra, "@penguinbuild.org".as_bytes()) {
            return BuilderIdentity::Penguin;
        }
        if bytes_equal(extra, "@@penguinbuild.org".as_bytes()) {
            return BuilderIdentity::Penguin;
        }
        if bytes_equal(extra, "Illuminate Dmocratize Dstribute".as_bytes()) {
            return BuilderIdentity::Flashbots;
        }
        if bytes_equal(extra, "Illuminate Dmocrtz Dstrib Prtct".as_bytes()) {
            return BuilderIdentity::Flashbots;
        }
        if bytes_equal(extra, "Nethermind".as_bytes()) {
            return BuilderIdentity::Nethermind;
        }
        if bytes_equal(extra, "jetbldr.xyz".as_bytes()) {
            return BuilderIdentity::Jet;
        }
        if bytes_equal(extra, "lokibuilder.xyz".as_bytes()) {
            return BuilderIdentity::Loki;
        }
        if bytes_equal(extra, "builder0x69".as_bytes()) {
            return BuilderIdentity::SixtyNine;
        }
        if bytes_equal(extra, "by builder0x69".as_bytes()) {
            return BuilderIdentity::SixtyNine;
        }
        if bytes_equal(extra, "by @builder0x69".as_bytes()) {
            return BuilderIdentity::SixtyNine;
        }
        if bytes_equal(extra, "BuildAI (https://buildai.net)".as_bytes()) {
            return BuilderIdentity::BuildAI;
        }
        if bytes_equal(extra, "https://blockbeelder.com 🐝".as_bytes()) {
            return BuilderIdentity::Beelder;
        }
        if bytes_equal(extra, "blocksmith.org".as_bytes()) {
            return BuilderIdentity::Blocksmith;
        }
        if bytes_equal(extra, "bobTheBuilder.xyz".as_bytes()) {
            return BuilderIdentity::Bob;
        }
        if bytes_equal(extra, "boba-builder.com".as_bytes()) {
            return BuilderIdentity::Boba;
        }
        if bytes_equal(extra, "Manifold: coinbase".as_bytes()) {
            return BuilderIdentity::Manifold;
        }
        if bytes_equal(extra, "Bitget(https://www.bitget.com/)".as_bytes()) {
            return BuilderIdentity::Bitget;
        }
        if bytes_equal(extra, "Builder+ www.btcs.com/builder".as_bytes()) {
            return BuilderIdentity::Btcs;
        }
        BuilderIdentity::Local
    }

    /// The name under which the builder is shown.
    pub fn label(&self) -> (r: String)
        ensures
            r@ == builder_label(*self),
    {
        match self {
            BuilderIdentity::Beaver => String::from_str("beaverbuild"),
            BuilderIdentity::Titan => String::from_str("Titan Builder"),
            BuilderIdentity::Rsync => String::from_str("rsync-builder"),
            BuilderIdentity::Penguin => String::from_str("penguinbuild.org"),
            BuilderIdentity::Flashbots => String::from_str("Flashbots"),
            BuilderIdentity::Nethermind => String::from_str("Nethermind"),
            BuilderIdentity::Jet => String::from_str("JetBuilder"),
            BuilderIdentity::Loki => String::from_str("Loki Builder"),
            BuilderIdentity::SixtyNine => String::from_str("Builder0x69"),
            BuilderIdentity::BuildAI => String::from_str("BuildAI"),
            BuilderIdentity::Beelder => String::from_str("beelder.eth"),
            BuilderIdentity::Blocksmith => String::from_str("Blocksmith"),
            BuilderIdentity::Bob => String::from_str("Bob The Builder"),
            BuilderIdentity::Boba => String::from_str("Boba Builder"),
            BuilderIdentity::Manifold => String::from_str("Manifold"),
            BuilderIdentity::Bitget => String::from_str("Bitget"),
            BuilderIdentity::Btcs => String::from_str("Builder+"),
            BuilderIdentity::Local => String::from_str("<local>"),
        }
    }
}

impl From<Vec<u8>> for BuilderIdentity {
    fn from(value: Vec<u8>) -> BuilderIdentity {
        BuilderIdentity::identify(value.as_slice())
    }
}

impl vstd::std_specs::convert::FromSpecImpl<Vec<u8>> for BuilderIdentity {
    open spec fn obeys_from_spec() -> bool {
        true
    }

    open spec fn from_spec(v: Vec<u8>) -> BuilderIdentity {
        builder_of(v@)
    }
}

/// Relies on std's `SystemTime::elapsed`, on the Unix epoch: the whole seconds
/// since that epoch by the system clock, `None` for a clock set before it.
/// Nothing is promised of the value: it is the time.
#[verifier::external_body]
fn unix_now_secs() -> (r: Option<u64>) {
    std::time::UNIX_EPOCH.elapsed().ok().map(|d| d.as_secs())
}

/// The span of `secs` whole seconds.
pub uninterp spec fn duration_of_secs(secs: u64) -> std::time::Duration;

/// Relies on std's `Duration::from_secs`: a span of `secs` whole seconds,
/// which depends on `secs` alone.
#[verifier::external_body]
fn seconds_to_duration(secs: u64) -> (r: std::time::Duration)
    ensures
        r == duration_of_secs(secs),
{
    std::time::Duration::from_secs(secs)
}

/// The seconds from `timestamp` to `now`, both in seconds since the Unix
/// epoch; zero when `timestamp` lies after `now`.
pub open spec fn seconds_between(now: u64, timestamp: u64) -> u64 {
    if timestamp <= now {
        (now - timestamp) as u64
    } else {
        0
    }
}

/// The seconds from `timestamp` to `now`, both in seconds since the Unix
/// epoch; zero when `timestamp` lies after `now`.
pub fn elapsed_secs(now: u64, timestamp: u64) -> (r: u64)
    ensures
        r == (if timestamp <= now { now - timestamp } else { 0 }),
{
    if timestamp <= now {
        now - timestamp
    } else {
        0
    }
}

/// How long ago `timestamp` (seconds since the Unix epoch) was, by the system
/// clock read in whole seconds; zero for a timestamp in the future. A clock
/// set before the epoch reads as the epoch itself.
pub fn duration_since_timestamp(timestamp: u64) -> (r: std::time::Duration)
    ensures
        exists|now: u64| r == duration_of_secs(#[trigger] seconds_between(now, timestamp)),
{
    let now = match unix_now_secs() {
        Some(secs) => secs,
        None => 0,
    };
    let r = seconds_to_duration(elapsed_secs(now, timestamp));
    assert(r == duration_of_secs(seconds_between(now, timestamp)));
    r
}

/// The lowercase hexadecimal digit for `n < 16`.
pub open spec fn hex_digit(n: int) -> char {
    if n < 10 {
        (48 + n) as char
    } else {
        (87 + n) as char
    }
}

/// Two lowercase hexadecimal digits for a byte.
pub open spec fn hex_byte(b: u8) -> Seq<char> {
    seq![hex_digit(b as int / 16), hex_digit(b as int % 16)]
}

fn hex_digit_str(n: u8) -> (r: &'static str)
    requires
        n < 16,
    ensures
        r@ == seq![hex_digit(n as int)],
{
    match n {
        0 => {
            proof {
                reveal_strlit("0");
            }
            "0"
        },
        1 => {
            proof {
                reveal_strlit("1");
            }
            "1"
        },
        2 => {
            proof {
                reveal_strlit("2");
            }
            "2"
        },
        3 => {
            proof {
                reveal_strlit("3");
            }
            "3"
        },
        4 => {
            proof {
                reveal_strlit("4");
            }
            "4"
        },
        5 => {
            proof {
                reveal_strlit("5");
            }
            "5"
        },
        6 => {
            proof {
                reveal_strlit("6");
            }
            "6"
        },
        7 => {
            proof {
                reveal_strlit("7");
            }
            "7"
        },
        8 => {
            proof {
                reveal_strlit("8");
            }
            "8"
        },
        9 => {
            proof {
                reveal_strlit("9");
            }
            "9"
        },
        10 => {
            proof {
                reveal_strlit("a");
            }
            "a"
        },
        11 => {
            proof {
                reveal_strlit("b");
            }
            "b"
        },
        12 => {
            proof {
                reveal_strlit("c");
            }
            "c"
        },
        13 => {
            proof {
                reveal_strlit("d");
            }
            "d"
        },
        14 => {
            proof {
                reveal_strlit("e");
            }
            "e"
        },
        _ => {
            proof {
                reveal_strlit("f");
            }
            "f"
        },
    }
}

fn push_hex_byte(s: &mut String, b: u8)
    ensures
        final(s)@ == old(s)@ + hex_byte(b),
{
    s.append(hex_digit_str(b / 16));
    s.append(hex_digit_str(b % 16));
    proof {
        assert(final(s)@ =~= old(s)@ + hex_byte(b));
    }
}

/// The short form of a block hash: `0x`, the first three bytes in hex, `...`.
pub open spec fn short_hash_text(hash: BlockHash) -> Seq<char> {
    "0x"@ + hex_byte(hash.bytes@[0]) + hex_byte(hash.bytes@[1]) + hex_byte(hash.bytes@[2]) + "..."@
}

/// Shortens a block hash for display.
pub fn shorten_hash(hash: &BlockHash) -> (r: String)
    ensures
        r@ == short_hash_text(*hash),
{
    let mut s = String::from_str("0x");
    push_hex_byte(&mut s, hash.bytes[0]);
    push_hex_byte(&mut s, hash.bytes[1]);
    push_hex_byte(&mut s, hash.bytes[2]);
    s.append("...");
    s
}

/// A 20-byte account address.
#[derive(Clone, Copy, Debug, PartialEq, Eq, Hash)]
pub struct AccountAddress {
    pub bytes: [u8; 20],
}

/// The EIP-55 checksummed text of an address.
pub uninterp spec fn checksummed(bytes: Seq<u8>) -> Seq<char>;

/// Relies on alloy's `Address::to_checksum` with no chain id: the EIP-55
/// text of the address, `0x` and forty ASCII hexadecimal digits.
#[verifier::external_body]
fn checksum_text(bytes: &[u8; 20]) -> (r: String)
    ensures
        r@ == checksummed(bytes@),
        r@.len() == 42,
        r@.subrange(0, 2) == "0x"@,
        r.is_ascii(),
{
    alloy::primitives::Address::new(*bytes).to_checksum(None)
}

/// The short form of an address text: its first six characters, `...`, its
/// last four.
pub open spec fn short_address_text(text: Seq<char>) -> Seq<char> {
    text.subrange(0, 6) + "..."@ + text.subrange(text.len() - 4, text.len() as int)
}

/// Shortens an address text: its first six characters, `...`, its last four.
pub fn shorten_address_text(text: &str) -> (r: String)
    requires
        text@.len() == 42,
        text.is_ascii(),
    ensures
        r@ == short_address_text(text@),
        r@.len() == 13,
{
    let head = text.substring_ascii(0, 6);
    let tail = text.substring_ascii(38, 42);
    let mut s = String::from_str(head);
    s.append("...");
    s.append(tail);
    proof {
        reveal_strlit("...");
    }
    s
}

/// Shortens an address for display, from its checksummed text.
pub fn shorten_address(address: &AccountAddress) -> (r: String)
    ensures
        r@ == short_address_text(checksummed(address.bytes@)),
        r@.len() == 13,
        r@.subrange(0, 2) == "0x"@,
{
    let text = checksum_text(&address.bytes);
    let r = shorten_address_text(text.as_str());
    assert(r@.subrange(0, 2) =~= text@.subrange(0, 2));
    r
}

/// A hash as `0x` and its 64 lowercase hexadecimal digits.
pub fn hash_text(h: &BlockHash) -> (r: String)
    ensures
        r@ == "0x"@ + hex_of(h.bytes@),
{
    let mut s = String::from_str("0x");
    let ghost start = s@;
    let mut i: usize = 0;
    while i < 32
        invariant
            i <= 32,
            s@ == start + hex_of(h.bytes@.subrange(0, i as int)),
        decreases 32 - i,
    {
        proof {
            assert(h.bytes@.subrange(0, i + 1).drop_last() =~= h.bytes@.subrange(0, i as int));
        }
        push_hex_byte(&mut s, h.bytes[i]);
        proof {
            assert(s@ =~= start + hex_of(h.bytes@.subrange(0, i + 1)));
        }
        i = i + 1;
    }
    proof {
        assert(h.bytes@.subrange(0, 32) =~= h.bytes@);
    }
    s
}

/// The decimal digits of `n`.
pub open spec fn decimal(n: nat) -> Seq<char>
    decreases n,
{
    if n < 10 {
        seq![hex_digit(n as int)]
    } else {
        decimal(n / 10) + seq![hex_digit((n % 10) as int)]
    }
}

/// Lowercase hexadecimal digits of a byte string, two per byte.
pub open spec fn hex_of(b: Seq<u8>) -> Seq<char>
    decreases b.len(),
{
    if b.len() == 0 {
        Seq::empty()
    } else {
        hex_of(b.drop_last()) + hex_byte(b.last())
    }
}

fn push_decimal(s: &mut String, n: u64)
    ensures
        final(s)@ == old(s)@ + decimal(n as nat),
    decreases n,
{
    if n >= 10 {
        push_decimal(s, n / 10);
    }
    s.append(hex_digit_str((n % 10) as u8));
    proof {
        assert(final(s)@ =~= old(s)@ + decimal(n as nat));
    }
}

/// The explorer page of the block at `block_number`.
pub fn etherscan_block_link(block_number: u64) -> (r: String)
    ensures
        r@ == "https://etherscan.io/block/"@ + decimal(block_number as nat),
{
    let mut s = String::from_str("https://etherscan.io/block/");
    push_decimal(&mut s, block_number);
    s
}

/// The explorer page of the transaction `transaction_hash`.
pub fn etherscan_transaction_link(transaction_hash: &BlockHash) -> (r: String)
    ensures
        r@ == "https://etherscan.io/tx/0x"@ + hex_of(transaction_hash.bytes@),
{
    let s = String::from_str("https://etherscan.io/tx/");
    let r = s.concat(hash_text(transaction_hash).as_str());
    proof {
        reveal_strlit("https://etherscan.io/tx/");
        reveal_strlit("https://etherscan.io/tx/0x");
        reveal_strlit("0x");
        assert(r@ =~= "https://etherscan.io/tx/0x"@ + hex_of(transaction_hash.bytes@));
    }
    r
}

#[verifier::external_type_specification]
#[verifier::external_body]
pub struct ExUrl(url::Url);

#[verifier::external_type_specification]
#[verifier::external_body]
pub struct ExParseError(url::ParseError);

/// Whether `c` is a character an explorer link path may hold here: an ASCII
/// digit, a lowercase ASCII letter or `/`.
pub open spec fn link_path_char(c: char) -> bool {
    (48 <= c as u32 && c as u32 <= 57) || (97 <= c as u32 && c as u32 <= 122) || c as u32 == 47
}

/// Whether `t` is `https://etherscan.io/` followed by digits, lowercase
/// letters and slashes only.
pub open spec fn explorer_link_text(t: Seq<char>) -> bool {
    &&& t.len() >= 21
    &&& t.subrange(0, 21) == "https://etherscan.io/"@
    &&& forall|i: int| 21 <= i < t.len() ==> link_path_char(#[trigger] t[i])
}

/// What url's `Url::parse` makes of a text.
pub uninterp spec fn url_parsed(text: Seq<char>) -> Result<url::Url, url::ParseError>;

/// Relies on url's `Url::parse`: the parsed absolute URL, or why the text is
/// not one. An `https` URL with the host `etherscan.io` and a path of ASCII
/// digits, lowercase letters and slashes is always accepted.
#[verifier::external_body]
fn parse_url(text: &str) -> (r: Result<url::Url, url::ParseError>)
    ensures
        r == url_parsed(text@),
        explorer_link_text(text@) ==> r is Ok,
{
    url::Url::parse(text)
}

proof fn lemma_hex_digit_char(n: int)
    requires
        0 <= n < 16,
    ensures
        link_path_char(hex_digit(n)),
{
    if n < 10 {
        assert(((48 + n) as char) as u32 == 48 + n);
    } else {
        assert(((87 + n) as char) as u32 == 87 + n);
    }
}

proof fn lemma_decimal_chars(n: nat)
    ensures
        forall|i: int| 0 <= i < decimal(n).len() ==> link_path_char(#[trigger] decimal(n)[i]),
    decreases n,
{
    if n >= 10 {
        lemma_decimal_chars(n / 10);
        lemma_hex_digit_char((n % 10) as int);
        let d = decimal(n);
        let p = decimal(n / 10);
        assert forall|i: int| 0 <= i < d.len() implies link_path_char(#[trigger] d[i]) by {
            if i < p.len() {
                assert(d[i] == p[i]);
            }
        }
    } else {
        lemma_hex_digit_char(n as int);
    }
}

proof fn lemma_hex_chars(b: Seq<u8>)
    ensures
        forall|i: int| 0 <= i < hex_of(b).len() ==> link_path_char(#[trigger] hex_of(b)[i]),
    decreases b.len(),
{
    if b.len() > 0 {
        lemma_hex_chars(b.drop_last());
        lemma_hex_digit_char(b.last() as int / 16);
        lemma_hex_digit_char(b.last() as int % 16);
        let d = hex_of(b);
        let p = hex_of(b.drop_last());
        assert forall|i: int| 0 <= i < d.len() implies link_path_char(#[trigger] d[i]) by {
            if i < p.len() {
                assert(d[i] == p[i]);
            }
        }
    }
}

/// The explorer URL of the block at `block_number`; it always parses, and
/// its text is [`etherscan_block_link`]'s.
pub fn etherscan_block_url(block_number: u64) -> (r: Result<url::Url, url::ParseError>)
    ensures
        r is Ok,
        r == url_parsed("https://etherscan.io/block/"@ + decimal(block_number as nat)),
{
    let link = etherscan_block_link(block_number);
    proof {
        reveal_strlit("https://etherscan.io/block/");
        reveal_strlit("https://etherscan.io/");
        lemma_decimal_chars(block_number as nat);
        let t = link@;
        assert(t.subrange(0, 21) =~= "https://etherscan.io/"@);
        assert forall|i: int| 21 <= i < t.len() implies link_path_char(#[trigger] t[i]) by {
            if i >= 27 {
                assert(t[i] == decimal(block_number as nat)[i - 27]);
            }
        }
    }
    parse_url(link.as_str())
}

/// The explorer URL of the transaction `transaction_hash`; it always parses,
/// and its text is [`etherscan_transaction_link`]'s.
pub fn etherscan_transaction_url(transaction_hash: &BlockHash) -> (r: Result<url::Url, url::ParseError>)
    ensures
        r is Ok,
        r == url_parsed("https://etherscan.io/tx/0x"@ + hex_of(transaction_hash.bytes@)),
{
    let link = etherscan_transaction_link(transaction_hash);
    proof {
        reveal_strlit("https://etherscan.io/tx/0x");
        reveal_strlit("https://etherscan.io/");
        lemma_hex_chars(transaction_hash.bytes@);
        let t = link@;
        assert(t.subrange(0, 21) =~= "https://etherscan.io/"@);
        assert forall|i: int| 21 <= i < t.len() implies link_path_char(#[trigger] t[i]) by {
            if i >= 26 {
                assert(t[i] == hex_of(transaction_hash.bytes@)[i - 26]);
            }
        }
    }
    parse_url(link.as_str())
}

proof fn lemma_hex_digit_injective(a: int, b: int)
    requires
        0 <= a < 16,
        0 <= b < 16,
        hex_digit(a) == hex_digit(b),
    ensures
        a == b,
{
    let ca = hex_digit(a) as u32;
    let cb = hex_digit(b) as u32;
    if a < 10 {
        assert(((48 + a) as char) as u32 == 48 + a);
    } else {
        assert(((87 + a) as char) as u32 == 87 + a);
    }
    if b < 10 {
        assert(((48 + b) as char) as u32 == 48 + b);
    } else {
        assert(((87 + b) as char) as u32 == 87 + b);
    }
}

proof fn lemma_decimal_len(n: nat)
    ensures
        decimal(n).len() >= 1,
        n >= 10 ==> decimal(n).len() >= 2,
    decreases n,
{
    if n >= 10 {
        lemma_decimal_len(n / 10);
    }
}

/// Different block numbers give different explorer links.
pub proof fn law_block_link_injective(a: u64, b: u64)
    requires
        "https://etherscan.io/block/"@ + decimal(a as nat) == "https://etherscan.io/block/"@ + decimal(b as nat),
    ensures
        a == b,
{
    let p = "https://etherscan.io/block/"@;
    assert(decimal(a as nat) =~= (p + decimal(a as nat)).subrange(p.len() as int, (p + decimal(a as nat)).len() as int));
    assert(decimal(b as nat) =~= (p + decimal(b as nat)).subrange(p.len() as int, (p + decimal(b as nat)).len() as int));
    lemma_decimal_injective(a as nat, b as nat);
}

proof fn lemma_decimal_injective(a: nat, b: nat)
    requires
        decimal(a) == decimal(b),
    ensures
        a == b,
    decreases a,
{
    lemma_decimal_len(a);
    lemma_decimal_len(b);
    if a < 10 && b < 10 {
        assert(decimal(a) == seq![hex_digit(a as int)]);
        assert(decimal(b) == seq![hex_digit(b as int)]);
        assert(seq![hex_digit(a as int)][0] == hex_digit(a as int));
        assert(seq![hex_digit(b as int)][0] == hex_digit(b as int));
        assert(hex_digit(a as int) == hex_digit(b as int));
        lemma_hex_digit_injective(a as int, b as int);
    } else if a >= 10 && b >= 10 {
        let da = decimal(a);
        let pa = decimal(a / 10);
        let pb = decimal(b / 10);
        assert(da.last() == hex_digit((a % 10) as int));
        assert(decimal(b).last() == hex_digit((b % 10) as int));
        lemma_hex_digit_injective((a % 10) as int, (b % 10) as int);
        assert(pa =~= da.drop_last());
        assert(pb =~= decimal(b).drop_last());
        lemma_decimal_injective(a / 10, b / 10);
    } else {
        assert(decimal(a).len() != decimal(b).len());
    }
}

proof fn lemma_hex_of_len(b: Seq<u8>)
    ensures
        hex_of(b).len() == 2 * b.len(),
    decreases b.len(),
{
    if b.len() > 0 {
        lemma_hex_of_len(b.drop_last());
    }
}

proof fn lemma_hex_of_injective(x: Seq<u8>, y: Seq<u8>)
    requires
        x.len() == y.len(),
        hex_of(x) == hex_of(y),
    ensures
        x == y,
    decreases x.len(),
{
    if x.len() > 0 {
        lemma_hex_of_len(x.drop_last());
        lemma_hex_of_len(y.drop_last());
        let hx = hex_of(x);
        let px = hex_of(x.drop_last());
        let n = px.len() as int;
        assert(hx[n] == hex_digit(x.last() as int / 16) && hx[n + 1] == hex_digit(x.last() as int % 16));
        assert(hex_of(y)[n] == hex_digit(y.last() as int / 16) && hex_of(y)[n + 1] == hex_digit(
            y.last() as int % 16,
        ));
        lemma_hex_digit_injective(x.last() as int / 16, y.last() as int / 16);
        lemma_hex_digit_injective(x.last() as int % 16, y.last() as int % 16);
        assert(px =~= hx.subrange(0, n));
        assert(hex_of(y.drop_last()) =~= hex_of(y).subrange(0, n));
        lemma_hex_of_injective(x.drop_last(), y.drop_last());
        assert(x =~= x.drop_last().push(x.last()));
        assert(y =~= y.drop_last().push(y.last()));
    }
}

/// Different transaction hashes give different explorer links.
pub proof fn law_transaction_link_injective(a: BlockHash, b: BlockHash)
    requires
        "https://etherscan.io/tx/0x"@ + hex_of(a.bytes@) == "https://etherscan.io/tx/0x"@ + hex_of(b.bytes@),
    ensures
        a == b,
{
    let p = "https://etherscan.io/tx/0x"@;
    assert(hex_of(a.bytes@) =~= (p + hex_of(a.bytes@)).subrange(p.len() as int, (p + hex_of(a.bytes@)).len() as int));
    assert(hex_of(b.bytes@) =~= (p + hex_of(b.bytes@)).subrange(p.len() as int, (p + hex_of(b.bytes@)).len() as int));
    lemma_hex_of_injective(a.bytes@, b.bytes@);
    vstd::array::axiom_array_ext_equal(a.bytes, b.bytes);
}

} // verus!
