//! Discovery probe encoding and TLV response decoding.
//!
//! A response frame is a 4-byte header followed by records of the form
//! `type (1 byte) | length (2 bytes, big endian) | value (length bytes)`.
use vstd::prelude::*;

verus! {

/// Length of the fixed header that starts every discovery frame.
pub const HEADER_LEN: usize = 4;

/// Record type: the device's 6-byte hardware address.
pub const TLV_MAC_ADDRESS: u8 = 0x01;

/// Record type: address information; the first 4 bytes are an IPv4 address.
pub const TLV_IP_INFO: u8 = 0x02;

/// Record type: firmware version text.
pub const TLV_FIRMWARE: u8 = 0x03;

/// Record type: present only on devices that already have a controller.
pub const TLV_MANAGED: u8 = 0x06;

/// Record type: platform / host name text.
pub const TLV_PLATFORM: u8 = 0x0B;

/// Record type: model name text.
pub const TLV_MODEL: u8 = 0x14;

/// The bytes of the discovery request.
pub open spec fn probe_bytes() -> Seq<u8> {
    seq![0x01u8, 0x00u8, 0x00u8, 0x00u8]
}

/// Builds the fixed discovery request that devices answer.
pub fn encode_probe() -> (r: Vec<u8>)
    ensures
        r@ == probe_bytes(),
{
    let r = vec![0x01u8, 0x00u8, 0x00u8, 0x00u8];
    assert(r@ =~= probe_bytes());
    r
}

/// What `encode_probe` sends is what `is_probe` accepts, byte for byte: the
/// four bytes `01 00 00 00`, as long as a frame header.
pub proof fn lemma_probe_round_trip(sent: Seq<u8>)
    requires
        sent == probe_bytes(),
    ensures
        sent =~= seq![0x01u8, 0x00u8, 0x00u8, 0x00u8],
        sent.len() == HEADER_LEN,
{
}

/// Whether `data` is exactly the discovery request.
pub fn is_probe(data: &[u8]) -> (r: bool)
    ensures
        r == (data@ == probe_bytes()),
{
    let ok = data.len() == 4 && data[0] == 0x01u8 && data[1] == 0x00u8 && data[2] == 0x00u8
        && data[3] == 0x00u8;
    if ok {
        assert(data@ =~= probe_bytes());
    }
    ok
}

/// Text that `String::from_utf8_lossy` makes of a byte string.
pub uninterp spec fn lossy_text(b: Seq<u8>) -> Seq<char>;

/// Relies on `String::from_utf8_lossy`: the text depends on the bytes alone,
/// and ASCII bytes stand for the characters with the same code.
#[verifier::external_body]
fn text_of(b: &[u8]) -> (r: String)
    ensures
        r@ == lossy_text(b@),
        (forall|i: int| 0 <= i < b@.len() ==> b@[i] < 128) ==> r@ == b@.map_values(
            |c: u8| c as char,
        ),
{
    String::from_utf8_lossy(b).into_owned()
}

/// Whether every byte of `b` is ASCII.
pub open spec fn all_ascii(b: Seq<u8>) -> bool {
    forall|i: int| 0 <= i < b.len() ==> b[i] < 128
}

/// The text of a record's value: ASCII bytes stand for the characters with
/// the same code; other values are decoded as `String::from_utf8_lossy` does.
pub open spec fn field_text(b: Seq<u8>) -> Seq<char> {
    if all_ascii(b) {
        b.map_values(|c: u8| c as char)
    } else {
        lossy_text(b)
    }
}

/// The sixteen upper-case hexadecimal digits.
pub open spec fn hex_digits() -> Seq<char> {
    seq!['0', '1', '2', '3', '4', '5', '6', '7', '8', '9', 'A', 'B', 'C', 'D', 'E', 'F']
}

/// The digit of value `d`, for `d` below 16.
pub open spec fn digit(d: int) -> char {
    hex_digits()[d]
}

/// A byte as two upper-case hexadecimal digits.
pub open spec fn hex_pair(b: u8) -> Seq<char> {
    seq![digit(b as int / 16), digit(b as int % 16)]
}

/// A 6-byte hardware address as `XX:XX:XX:XX:XX:XX`.
pub open spec fn mac_text(b: Seq<u8>) -> Seq<char> {
    hex_pair(b[0]) + seq![':'] + hex_pair(b[1]) + seq![':'] + hex_pair(b[2]) + seq![':']
        + hex_pair(b[3]) + seq![':'] + hex_pair(b[4]) + seq![':'] + hex_pair(b[5])
}

/// A byte in decimal, without leading zeros.
pub open spec fn dec_text(n: u8) -> Seq<char> {
    let n = n as int;
    if n < 10 {
        seq![digit(n)]
    } else if n < 100 {
        seq![digit(n / 10), digit(n % 10)]
    } else {
        seq![digit(n / 100), digit((n / 10) % 10), digit(n % 10)]
    }
}

/// The first four bytes of `b` as a dotted-decimal IPv4 address.
pub open spec fn ipv4_text(b: Seq<u8>) -> Seq<char> {
    dec_text(b[0]) + seq!['.'] + dec_text(b[1]) + seq!['.'] + dec_text(b[2]) + seq!['.']
        + dec_text(b[3])
}

/// Appends the digit of value `d` to `out`.
fn push_digit(out: &mut String, d: u8)
    requires
        d < 16,
    ensures
        final(out)@ == old(out)@.push(digit(d as int)),
{
    let table: &str = "0123456789ABCDEF";
    proof {
        reveal_strlit("0123456789ABCDEF");
    }
    assert(table@ =~= hex_digits());
    let one = table.substring_char(d as usize, d as usize + 1);
    assert(one@ =~= seq![digit(d as int)]);
    out.append(one);
}

/// Appends `b` as two hexadecimal digits.
fn push_hex_pair(out: &mut String, b: u8)
    ensures
        final(out)@ == old(out)@ + hex_pair(b),
{
    push_digit(out, b / 16);
    push_digit(out, b % 16);
    assert(final(out)@ =~= old(out)@ + hex_pair(b));
}

/// Formats a 6-byte hardware address as upper-case, colon-separated hex.
pub fn format_mac(b: &[u8]) -> (r: String)
    requires
        b@.len() == 6,
    ensures
        r@ == mac_text(b@),
{
    let mut out = String::new();
    let mut i: usize = 0;
    while i < 6
        invariant
            b@.len() == 6,
            i <= 6,
            i == 0 ==> out@.len() == 0,
            i > 0 ==> out@ == mac_prefix(b@, i as int),
        decreases 6 - i,
    {
        if i > 0 {
            out.append(":");
            proof {
                reveal_strlit(":");
            }
        }
        push_hex_pair(&mut out, b[i]);
        proof {
            if i > 0 {
                assert(out@ =~= mac_prefix(b@, i as int + 1));
            } else {
                assert(out@ =~= mac_prefix(b@, 1));
            }
        }
        i = i + 1;
    }
    proof {
        reveal_with_fuel(mac_prefix, 6);
        assert(mac_prefix(b@, 6) =~= mac_text(b@));
    }
    out
}

/// The first `n` bytes of `b` as colon-separated pairs, for `n` at least 1.
pub open spec fn mac_prefix(b: Seq<u8>, n: int) -> Seq<char>
    decreases n,
{
    if n <= 1 {
        hex_pair(b[0])
    } else {
        mac_prefix(b, n - 1) + seq![':'] + hex_pair(b[n - 1])
    }
}

/// Appends `n` in decimal.
fn push_dec(out: &mut String, n: u8)
    ensures
        final(out)@ == old(out)@ + dec_text(n),
{
    if n < 10 {
        push_digit(out, n);
    } else if n < 100 {
        push_digit(out, n / 10);
        push_digit(out, n % 10);
    } else {
        push_digit(out, n / 100);
        push_digit(out, (n / 10) % 10);
        push_digit(out, n % 10);
    }
    assert(final(out)@ =~= old(out)@ + dec_text(n));
}

/// Formats the first four bytes of `b` as a dotted-decimal IPv4 address.
pub fn format_ipv4(b: &[u8]) -> (r: String)
    requires
        b@.len() >= 4,
    ensures
        r@ == ipv4_text(b@),
{
    let mut out = String::new();
    proof {
        reveal_strlit(".");
    }
    push_dec(&mut out, b[0]);
    out.append(".");
    push_dec(&mut out, b[1]);
    out.append(".");
    push_dec(&mut out, b[2]);
    out.append(".");
    push_dec(&mut out, b[3]);
    assert(out@ =~= ipv4_text(b@));
    out
}

/// A device that answered a discovery request.
#[derive(Clone, Debug)]
pub struct DiscoveredDevice {
    /// Hardware address, `XX:XX:XX:XX:XX:XX` in upper-case hex; the identity.
    pub mac: String,
    /// Address the reply came from: the one that can be reached.
    pub ip: String,
    /// Address the device reports of itself; for display only.
    pub reported_ip: String,
    pub model: String,
    pub firmware: String,
    pub hostname: String,
    /// Whether the reply carried a management-presence record.
    pub is_managed: bool,
}

/// The fields of a device record as text.
pub struct DeviceView {
    pub mac: Seq<char>,
    pub ip: Seq<char>,
    pub reported_ip: Seq<char>,
    pub model: Seq<char>,
    pub firmware: Seq<char>,
    pub hostname: Seq<char>,
    pub is_managed: bool,
}

impl View for DiscoveredDevice {
    type V = DeviceView;

    open spec fn view(&self) -> DeviceView {
        DeviceView {
            mac: self.mac@,
            ip: self.ip@,
            reported_ip: self.reported_ip@,
            model: self.model@,
            firmware: self.firmware@,
            hostname: self.hostname@,
            is_managed: self.is_managed,
        }
    }
}

/// A big-endian 16-bit length.
pub open spec fn be16(hi: u8, lo: u8) -> int {
    hi as int * 256 + lo as int
}

/// The record before any TLV record is read: both addresses are the source.
pub open spec fn initial_fields(source: Seq<char>) -> DeviceView {
    DeviceView {
        mac: seq![],
        ip: source,
        reported_ip: source,
        model: seq![],
        firmware: seq![],
        hostname: seq![],
        is_managed: false,
    }
}

/// What one TLV record of type `ty` and value `v` does to a device record.
pub open spec fn apply_record(d: DeviceView, ty: u8, v: Seq<u8>) -> DeviceView {
    if ty == TLV_MAC_ADDRESS {
        if v.len() == 6 {
            DeviceView { mac: mac_text(v), ..d }
        } else {
            d
        }
    } else if ty == TLV_IP_INFO {
        if v.len() >= 4 {
            DeviceView { reported_ip: ipv4_text(v), ..d }
        } else {
            d
        }
    } else if ty == TLV_FIRMWARE {
        DeviceView { firmware: field_text(v), ..d }
    } else if ty == TLV_MODEL {
        DeviceView { model: field_text(v), ..d }
    } else if ty == TLV_PLATFORM {
        DeviceView { hostname: field_text(v), ..d }
    } else if ty == TLV_MANAGED {
        DeviceView { is_managed: true, ..d }
    } else {
        d
    }
}

/// Applies the records of `data` from offset `pos` on, in order, stopping
/// at the end or at the first record whose value runs past the end.
pub open spec fn parse_records(data: Seq<u8>, pos: int, d: DeviceView) -> DeviceView
    decreases data.len() - pos,
{
    if 0 <= pos && pos + 3 <= data.len() {
        let end = pos + 3 + be16(data[pos + 1], data[pos + 2]);
        if end <= data.len() {
            parse_records(data, end, apply_record(d, data[pos], data.subrange(pos + 3, end)))
        } else {
            d
        }
    } else {
        d
    }
}

/// The device a frame from `source` describes, if it names a hardware address.
#[verifier::opaque]
pub open spec fn decode_spec(data: Seq<u8>, source: Seq<char>) -> Option<DeviceView> {
    let d = parse_records(data, HEADER_LEN as int, initial_fields(source));
    if d.mac.len() == 0 {
        None
    } else {
        Some(d)
    }
}

/// Decodes one discovery response received from `source_ip`.
///
/// Unknown record types are skipped; a record that runs past the end of the
/// frame ends the parse. Returns `None` when no hardware address was read.
pub fn parse_tlv_response(data: &[u8], source_ip: &str) -> (r: Option<DiscoveredDevice>)
    ensures
        match r {
            Some(dev) => decode_spec(data@, source_ip@) == Some(dev@),
            None => decode_spec(data@, source_ip@) is None,
        },
{
    proof {
        reveal(decode_spec);
    }
    let mut dev = DiscoveredDevice {
        mac: String::new(),
        ip: source_ip.to_owned(),
        reported_ip: source_ip.to_owned(),
        model: String::new(),
        firmware: String::new(),
        hostname: String::new(),
        is_managed: false,
    };
    assert(dev@ =~= initial_fields(source_ip@));
    if data.len() < HEADER_LEN {
        return None;
    }
    let ghost target = parse_records(data@, HEADER_LEN as int, initial_fields(source_ip@));
    let mut has_mac = false;
    let mut done = false;
    let mut pos: usize = HEADER_LEN;
    while !done && data.len() - pos >= 3
        invariant
            HEADER_LEN <= pos <= data@.len(),
            parse_records(data@, pos as int, dev@) == target,
            done ==> parse_records(data@, pos as int, dev@) == dev@,
            has_mac == (dev@.mac.len() > 0),
            dev@.ip == source_ip@,
        decreases data@.len() - pos + (if done { 0int } else { 1int }),
    {
        let ty = data[pos];
        let len = data[pos + 1] as usize * 256 + data[pos + 2] as usize;
        let start = pos + 3;
        if len > data.len() - start {
            done = true;
        } else {
            let end = start + len;
            let value = &data[start..end];
            let ghost before = dev@;
            if ty == TLV_MAC_ADDRESS {
                if len == 6 {
                    dev.mac = format_mac(value);
                    has_mac = true;
                }
            } else if ty == TLV_IP_INFO {
                if len >= 4 {
                    dev.reported_ip = format_ipv4(value);
                }
            } else if ty == TLV_FIRMWARE {
                dev.firmware = text_of(value);
            } else if ty == TLV_MODEL {
                dev.model = text_of(value);
            } else if ty == TLV_PLATFORM {
                dev.hostname = text_of(value);
            } else if ty == TLV_MANAGED {
                dev.is_managed = true;
            }
            assert(value@ =~= data@.subrange(start as int, end as int));
            assert(dev@ =~= apply_record(before, ty, value@));
            pos = end;
        }
    }
    if has_mac {
        Some(dev)
    } else {
        None
    }
}

/// Distinct digit values have distinct digits.
proof fn lemma_digit_injective(i: int, j: int)
    requires
        0 <= i < 16,
        0 <= j < 16,
        digit(i) == digit(j),
    ensures
        i == j,
{
    let h = hex_digits();
    assert(h[0] == '0' && h[1] == '1' && h[2] == '2' && h[3] == '3' && h[4] == '4' && h[5] == '5'
        && h[6] == '6' && h[7] == '7' && h[8] == '8' && h[9] == '9' && h[10] == 'A' && h[11] == 'B'
        && h[12] == 'C' && h[13] == 'D' && h[14] == 'E' && h[15] == 'F');
}

/// Two bytes have the same two hex digits only if they are equal.
proof fn lemma_hex_pair_injective(x: u8, y: u8)
    requires
        hex_pair(x) == hex_pair(y),
    ensures
        x == y,
{
    assert(hex_pair(x)[0] == hex_pair(y)[0]);
    assert(hex_pair(x)[1] == hex_pair(y)[1]);
    lemma_digit_injective(x as int / 16, y as int / 16);
    lemma_digit_injective(x as int % 16, y as int % 16);
}

/// The text of a hardware address determines the address: equal 6-byte
/// values give the same text, and distinct ones give distinct texts.
pub proof fn lemma_mac_text_injective(a: Seq<u8>, b: Seq<u8>)
    requires
        a.len() == 6,
        b.len() == 6,
    ensures
        (mac_text(a) == mac_text(b)) == (a == b),
{
    if mac_text(a) == mac_text(b) {
        let (ta, tb) = (mac_text(a), mac_text(b));
        assert forall|k: int| 0 <= k < 6 implies a[k] == b[k] by {
            assert(ta.subrange(3 * k, 3 * k + 2) =~= hex_pair(a[k]));
            assert(tb.subrange(3 * k, 3 * k + 2) =~= hex_pair(b[k]));
            lemma_hex_pair_injective(a[k], b[k]);
        }
        assert(a =~= b);
    }
}

/// Like `parse_records`, but reads only records that end at or before `limit`.
pub open spec fn records_within(data: Seq<u8>, pos: int, d: DeviceView, limit: int) -> DeviceView
    decreases limit - pos,
{
    if 0 <= pos && pos + 3 <= limit && limit <= data.len() {
        let end = pos + 3 + be16(data[pos + 1], data[pos + 2]);
        if end <= limit {
            records_within(data, end, apply_record(d, data[pos], data.subrange(pos + 3, end)), limit)
        } else {
            d
        }
    } else {
        d
    }
}

/// The device a frame describes when only the records that end within its
/// first `limit` bytes are read.
pub open spec fn decode_within(data: Seq<u8>, source: Seq<char>, limit: int) -> Option<DeviceView> {
    let d = records_within(data, HEADER_LEN as int, initial_fields(source), limit);
    if d.mac.len() == 0 {
        None
    } else {
        Some(d)
    }
}

proof fn lemma_records_of_prefix(data: Seq<u8>, pos: int, d: DeviceView, k: int)
    requires
        0 <= k <= data.len(),
    ensures
        parse_records(data.take(k), pos, d) == records_within(data, pos, d, k),
    decreases k - pos,
{
    let t = data.take(k);
    if 0 <= pos && pos + 3 <= k {
        let end = pos + 3 + be16(data[pos + 1], data[pos + 2]);
        assert(t[pos] == data[pos] && t[pos + 1] == data[pos + 1] && t[pos + 2] == data[pos + 2]);
        if end <= k {
            assert(t.subrange(pos + 3, end) =~= data.subrange(pos + 3, end));
            lemma_records_of_prefix(
                data,
                end,
                apply_record(d, data[pos], data.subrange(pos + 3, end)),
                k,
            );
        }
    }
}

/// A frame cut after any number of bytes decodes to what the whole frame
/// gives when only the records lying wholly before the cut are read: a
/// record that the cut splits contributes nothing.
pub proof fn lemma_truncated_frame(data: Seq<u8>, source: Seq<char>, k: int)
    requires
        0 <= k <= data.len(),
    ensures
        decode_spec(data.take(k), source) == decode_within(data, source, k),
{
    reveal(decode_spec);
    lemma_records_of_prefix(data, HEADER_LEN as int, initial_fields(source), k);
}

/// Whether `mac` is the text of some 6-byte hardware address.
pub open spec fn is_mac_text(mac: Seq<char>) -> bool {
    exists|v: Seq<u8>| v.len() == 6 && mac == mac_text(v)
}

proof fn lemma_records_keep_mac_text(data: Seq<u8>, pos: int, d: DeviceView)
    requires
        d.mac.len() == 0 || is_mac_text(d.mac),
    ensures
        parse_records(data, pos, d).mac.len() == 0 || is_mac_text(parse_records(data, pos, d).mac),
    decreases data.len() - pos,
{
    if 0 <= pos && pos + 3 <= data.len() {
        let end = pos + 3 + be16(data[pos + 1], data[pos + 2]);
        if end <= data.len() {
            let v = data.subrange(pos + 3, end);
            let next = apply_record(d, data[pos], v);
            if data[pos] == TLV_MAC_ADDRESS && v.len() == 6 {
                assert(next.mac == mac_text(v));
            }
            lemma_records_keep_mac_text(data, end, next);
        }
    }
}

/// A decoded device's identity is the text of a 6-byte hardware address read
/// from the frame.
pub proof fn lemma_decoded_mac(data: Seq<u8>, source: Seq<char>)
    requires
        decode_spec(data, source) is Some,
    ensures
        is_mac_text(decode_spec(data, source)->0.mac),
{
    reveal(decode_spec);
    lemma_records_keep_mac_text(data, HEADER_LEN as int, initial_fields(source));
}

proof fn lemma_records_keep_ip(data: Seq<u8>, pos: int, d: DeviceView)
    ensures
        parse_records(data, pos, d).ip == d.ip,
    decreases data.len() - pos,
{
    if 0 <= pos && pos + 3 <= data.len() {
        let end = pos + 3 + be16(data[pos + 1], data[pos + 2]);
        if end <= data.len() {
            lemma_records_keep_ip(
                data,
                end,
                apply_record(d, data[pos], data.subrange(pos + 3, end)),
            );
        }
    }
}

/// A decoded device's reachable address is the address the frame came from,
/// whatever address the frame reports.
pub proof fn lemma_decoded_ip(data: Seq<u8>, source: Seq<char>)
    requires
        decode_spec(data, source) is Some,
    ensures
        decode_spec(data, source)->0.ip == source,
{
    reveal(decode_spec);
    lemma_records_keep_ip(data, HEADER_LEN as int, initial_fields(source));
}

} // verus!
