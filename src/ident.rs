use vstd::prelude::*;
use crate::text::push_char;
use uuid::{Timestamp, Uuid};

verus! {

/// The bit of a MAC address's first two octets that marks it as locally
/// administered.
pub const LOCAL_ADMIN_BIT: u16 = 0x0200;

/// Why a MAC address could not be built.
#[derive(Debug, Clone, Copy, PartialEq, Eq, Structural)]
pub enum MacError {
    /// The prefix does not have the locally-administered bit set.
    InvalidPrefix,
}

/// The lowercase hexadecimal digit for a value below sixteen.
pub open spec fn hex_digit(n: int) -> char
    recommends
        0 <= n < 16,
{
    seq!['0', '1', '2', '3', '4', '5', '6', '7', '8', '9', 'a', 'b', 'c', 'd', 'e', 'f'][n]
}

pub open spec fn is_lower_hex(c: char) -> bool {
    ('0' <= c && c <= '9') || ('a' <= c && c <= 'f')
}

/// One octet as two lowercase hexadecimal digits.
pub open spec fn octet_text(b: u8) -> Seq<char> {
    seq![hex_digit(b as int / 16), hex_digit(b as int % 16)]
}

/// The six octets of the address: high and low byte of `prefix`, `cluster`
/// and `node`, in that order.
pub open spec fn mac_octets(prefix: u16, cluster: u16, node: u16) -> Seq<u8> {
    seq![
        (prefix / 256) as u8, (prefix % 256) as u8,
        (cluster / 256) as u8, (cluster % 256) as u8,
        (node / 256) as u8, (node % 256) as u8,
    ]
}

/// Octets written as hexadecimal pairs separated by colons.
pub open spec fn octets_text(o: Seq<u8>) -> Seq<char>
    decreases o.len(),
{
    if o.len() == 0 {
        Seq::empty()
    } else if o.len() == 1 {
        octet_text(o[0])
    } else {
        octets_text(o.drop_last()) + seq![':'] + octet_text(o.last())
    }
}

pub open spec fn mac_text(prefix: u16, cluster: u16, node: u16) -> Seq<char> {
    octets_text(mac_octets(prefix, cluster, node))
}

pub open spec fn is_local_prefix(prefix: u16) -> bool {
    prefix & LOCAL_ADMIN_BIT != 0
}

fn hex_char(n: u8) -> (c: char)
    requires
        n < 16,
    ensures
        c == hex_digit(n as int),
{
    match n {
        0 => '0',
        1 => '1',
        2 => '2',
        3 => '3',
        4 => '4',
        5 => '5',
        6 => '6',
        7 => '7',
        8 => '8',
        9 => '9',
        10 => 'a',
        11 => 'b',
        12 => 'c',
        13 => 'd',
        14 => 'e',
        _ => 'f',
    }
}

fn push_octet(s: &mut String, b: u8)
    ensures
        final(s)@ == old(s)@ + octet_text(b),
{
    push_char(s, hex_char(b / 16));
    push_char(s, hex_char(b % 16));
    assert(final(s)@ =~= old(s)@ + octet_text(b));
}

/// Builds the colon-separated, lowercase MAC address made of the high and low
/// bytes of `prefix`, `cluster` and `node`. A prefix without the
/// locally-administered bit is refused.
pub fn build(prefix: u16, cluster: u16, node: u16) -> (r: Result<String, MacError>)
    ensures
        r is Err <==> !is_local_prefix(prefix),
        r is Err ==> r == Err::<String, MacError>(MacError::InvalidPrefix),
        r matches Ok(s) ==> s@ == mac_text(prefix, cluster, node),
{
    if prefix & LOCAL_ADMIN_BIT == 0 {
        return Err(MacError::InvalidPrefix);
    }
    let octets: [u8; 6] = [
        (prefix / 256) as u8, (prefix % 256) as u8,
        (cluster / 256) as u8, (cluster % 256) as u8,
        (node / 256) as u8, (node % 256) as u8,
    ];
    let ghost o = mac_octets(prefix, cluster, node);
    let mut s = String::new();
    push_octet(&mut s, octets[0]);
    assert(s@ =~= octets_text(o.take(1)));
    let mut i: usize = 1;
    while i < 6
        invariant
            1 <= i <= 6,
            octets@ == o,
            s@ == octets_text(o.take(i as int)),
        decreases 6 - i,
    {
        push_char(&mut s, ':');
        push_octet(&mut s, octets[i]);
        assert(o.take(i as int + 1).drop_last() =~= o.take(i as int));
        i = i + 1;
    }
    assert(o.take(6) =~= o);
    Ok(s)
}


proof fn lemma_hex_digit_lower(n: int)
    requires
        0 <= n < 16,
    ensures
        is_lower_hex(hex_digit(n)),
{
    let d = seq!['0', '1', '2', '3', '4', '5', '6', '7', '8', '9', 'a', 'b', 'c', 'd', 'e', 'f'];
    assert(d[0] == '0' && d[1] == '1' && d[2] == '2' && d[3] == '3' && d[4] == '4');
    assert(d[5] == '5' && d[6] == '6' && d[7] == '7' && d[8] == '8' && d[9] == '9');
    assert(d[10] == 'a' && d[11] == 'b' && d[12] == 'c' && d[13] == 'd');
    assert(d[14] == 'e' && d[15] == 'f');
}

proof fn lemma_octets_text_shape(o: Seq<u8>)
    requires
        o.len() >= 1,
    ensures
        octets_text(o).len() == 3 * o.len() - 1,
        forall|i: int|
            0 <= i < octets_text(o).len() ==> {
                &&& i % 3 == 2 ==> octets_text(o)[i] == ':'
                &&& i % 3 != 2 ==> is_lower_hex(#[trigger] octets_text(o)[i])
            },
    decreases o.len(),
{
    let b = o.last();
    lemma_hex_digit_lower(b as int / 16);
    lemma_hex_digit_lower(b as int % 16);
    if o.len() > 1 {
        lemma_octets_text_shape(o.drop_last());
        let prev = octets_text(o.drop_last());
        let t = octets_text(o);
        assert(t == prev + seq![':'] + octet_text(b));
        assert forall|i: int| 0 <= i < t.len() implies {
            &&& i % 3 == 2 ==> t[i] == ':'
            &&& i % 3 != 2 ==> is_lower_hex(#[trigger] t[i])
        } by {
            if i < prev.len() {
                assert(t[i] == prev[i]);
            }
        }
    }
}

/// A MAC address built from a locally-administered prefix is 17 characters
/// long: six pairs of lowercase hexadecimal digits separated by colons.
pub proof fn lemma_mac_text_shape(prefix: u16, cluster: u16, node: u16)
    requires
        is_local_prefix(prefix),
    ensures
        mac_text(prefix, cluster, node).len() == 17,
        forall|i: int|
            0 <= i < 17 ==> {
                &&& i % 3 == 2 ==> mac_text(prefix, cluster, node)[i] == ':'
                &&& i % 3 != 2 ==> is_lower_hex(#[trigger] mac_text(prefix, cluster, node)[i])
            },
{
    lemma_octets_text_shape(mac_octets(prefix, cluster, node));
}

/// The identifier derived from a name under the fixed namespace.
pub uninterp spec fn name_id_of(name: Seq<u8>) -> Seq<u8>;

/// Relies on uuid's `Uuid::new_v5`: the name-based (SHA-1) identifier of
/// `name` under the OID namespace, as its sixteen bytes.
#[verifier::external_body]
fn uuid_v5(name: &[u8]) -> (r: Vec<u8>)
    ensures
        r@ == name_id_of(name@),
        r@.len() == 16,
{
    Uuid::new_v5(&Uuid::NAMESPACE_OID, name).as_bytes().to_vec()
}

/// The name-based identifier of `name`: the same name always gives the same
/// sixteen bytes.
pub fn namespace_id(name: &[u8]) -> (r: Vec<u8>)
    ensures
        r@ == name_id_of(name@),
        r@.len() == 16,
{
    uuid_v5(name)
}

/// Deriving the name-based identifier is deterministic: equal names give
/// byte-identical identifiers.
pub proof fn lemma_namespace_id_deterministic(a: Seq<u8>, b: Seq<u8>)
    requires
        a == b,
    ensures
        name_id_of(a) == name_id_of(b),
{
}

/// Ticks of 100 ns between the start of the Gregorian calendar (1582-10-15)
/// and the Unix epoch.
pub const TICKS_BETWEEN_EPOCHS: u64 = 0x01B2_1DD2_1381_4000;

/// Time-based identifiers hold their timestamp in 60 bits.
pub const TICKS_LIMIT: u64 = 0x1000_0000_0000_0000;

/// Clock sequences are 14 bits wide.
pub const SEQUENCE_RANGE: u32 = 0x4000;

/// Why a time-based identifier could not be derived.
#[derive(Debug, Clone, Copy, PartialEq, Eq, Structural)]
pub enum DeriveError {
    /// The timestamp does not fit the identifier's 60-bit time field.
    Overflow,
}

/// The clock-sequence state of one invocation, passed to every time-based
/// derivation.
#[derive(Debug, Clone, Copy, PartialEq, Eq, Structural)]
pub struct ClockContext {
    pub sequence: u16,
}

impl ClockContext {
    pub open spec fn wf(&self) -> bool {
        (self.sequence as u32) < SEQUENCE_RANGE
    }

    /// A context seeded from `seed` (the process identifier), reduced to the
    /// valid clock-sequence range.
    pub fn new(seed: u32) -> (r: ClockContext)
        ensures
            r.wf(),
            r.sequence == seed % SEQUENCE_RANGE,
    {
        ClockContext { sequence: (seed % SEQUENCE_RANGE) as u16 }
    }
}

/// The 100 ns ticks since the Gregorian epoch of a Unix time.
pub open spec fn gregorian_ticks(secs: u64, nanos: u32) -> int {
    secs * 10_000_000 + nanos / 100 + TICKS_BETWEEN_EPOCHS
}

/// The node field of a time-based identifier: the first six bytes of the
/// salt, padded with zeros.
pub open spec fn node_of(salt: Seq<u8>) -> Seq<u8> {
    Seq::new(6, |i: int| if i < salt.len() { salt[i] } else { 0u8 })
}

/// The sixteen bytes of a version-1 identifier: the time fields from
/// `ticks` (low 32 bits, middle 16 bits, high 12 bits with the version), the
/// variant with 14 bits of `counter`, then the six bytes of `node`.
pub open spec fn v1_bytes(ticks: u64, counter: u16, node: Seq<u8>) -> Seq<u8> {
    seq![
        ((ticks / 0x100_0000) % 256) as u8,
        ((ticks / 0x1_0000) % 256) as u8,
        ((ticks / 0x100) % 256) as u8,
        (ticks % 256) as u8,
        ((ticks / 0x100_0000_0000) % 256) as u8,
        ((ticks / 0x1_0000_0000) % 256) as u8,
        ((ticks / 0x100_0000_0000_0000) % 16 + 0x10) as u8,
        ((ticks / 0x1_0000_0000_0000) % 256) as u8,
        ((counter / 256) % 64 + 0x80) as u8,
        (counter % 256) as u8,
    ] + node
}

/// Relies on uuid's `Timestamp::from_gregorian` and `Uuid::new_v1`: the
/// version-1 identifier with these ticks, clock sequence and node, as its
/// sixteen bytes.
#[verifier::external_body]
fn uuid_v1(ticks: u64, counter: u16, node: &[u8; 6]) -> (r: Vec<u8>)
    ensures
        r@ == v1_bytes(ticks, counter, node@),
{
    Uuid::new_v1(Timestamp::from_gregorian(ticks, counter), node).as_bytes().to_vec()
}

/// The time-based identifier of the Unix time `secs` + `nanos`, under the
/// clock sequence of `ctx`, salted with `salt` (its first six bytes form
/// the node field). Fails when the timestamp does not fit in 60 bits.
pub fn time_id(ctx: &ClockContext, secs: u64, nanos: u32, salt: &[u8]) -> (r: Result<
    Vec<u8>,
    DeriveError,
>)
    ensures
        r is Err <==> gregorian_ticks(secs, nanos) >= TICKS_LIMIT,
        r is Err ==> r == Err::<Vec<u8>, DeriveError>(DeriveError::Overflow),
        r matches Ok(b) ==> b@ == v1_bytes(
            gregorian_ticks(secs, nanos) as u64,
            ctx.sequence,
            node_of(salt@),
        ) && b@.len() == 16,
{
    let scaled = match secs.checked_mul(10_000_000) {
        Some(v) => v,
        None => return Err(DeriveError::Overflow),
    };
    let ticks = match scaled.checked_add((nanos / 100) as u64) {
        Some(v) => match v.checked_add(TICKS_BETWEEN_EPOCHS) {
            Some(t) => t,
            None => return Err(DeriveError::Overflow),
        },
        None => return Err(DeriveError::Overflow),
    };
    if ticks >= TICKS_LIMIT {
        return Err(DeriveError::Overflow);
    }
    let mut node: [u8; 6] = [0u8; 6];
    let mut i: usize = 0;
    while i < 6
        invariant
            0 <= i <= 6,
            forall|k: int| 0 <= k < i ==> node@[k] == node_of(salt@)[k],
            forall|k: int| i <= k < 6 ==> node@[k] == 0,
        decreases 6 - i,
    {
        if i < salt.len() {
            node[i] = salt[i];
        }
        i = i + 1;
    }
    assert(node@ =~= node_of(salt@));
    let r = uuid_v1(ticks, ctx.sequence, &node);
    Ok(r)
}

} // verus!
