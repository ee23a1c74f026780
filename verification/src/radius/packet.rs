//! RADIUS packets and their wire format.
use vstd::prelude::*;
use vstd::slice::slice_to_vec;
use vstd::string::*;
use vstd::utf8::{decode_utf8, encode_utf8, valid_utf8};

verus! {

/// RADIUS packet codes.
#[derive(Clone, Copy, Debug, PartialEq, Eq, Structural)]
pub enum RadiusCode {
    AccessRequest,
    AccessAccept,
    AccessReject,
    AccountingRequest,
    AccountingResponse,
    CoA,
    DisconnectRequest,
}

impl RadiusCode {
    /// The number that stands for the code on the wire.
    pub open spec fn spec_number(self) -> u8 {
        match self {
            RadiusCode::AccessRequest => 1,
            RadiusCode::AccessAccept => 2,
            RadiusCode::AccessReject => 3,
            RadiusCode::AccountingRequest => 4,
            RadiusCode::AccountingResponse => 5,
            RadiusCode::CoA => 44,
            RadiusCode::DisconnectRequest => 46,
        }
    }

    /// The number that stands for the code on the wire.
    pub fn number(&self) -> (n: u8)
        ensures
            n == self.spec_number(),
    {
        match self {
            RadiusCode::AccessRequest => 1,
            RadiusCode::AccessAccept => 2,
            RadiusCode::AccessReject => 3,
            RadiusCode::AccountingRequest => 4,
            RadiusCode::AccountingResponse => 5,
            RadiusCode::CoA => 44,
            RadiusCode::DisconnectRequest => 46,
        }
    }

    /// The code a wire number stands for, if any.
    pub fn from_number(n: u8) -> (res: Option<RadiusCode>)
        ensures
            res matches Some(c) ==> c.spec_number() == n,
            res is None ==> forall|c: RadiusCode| c.spec_number() != n,
    {
        if n == 1 {
            Some(RadiusCode::AccessRequest)
        } else if n == 2 {
            Some(RadiusCode::AccessAccept)
        } else if n == 3 {
            Some(RadiusCode::AccessReject)
        } else if n == 4 {
            Some(RadiusCode::AccountingRequest)
        } else if n == 5 {
            Some(RadiusCode::AccountingResponse)
        } else if n == 44 {
            Some(RadiusCode::CoA)
        } else if n == 46 {
            Some(RadiusCode::DisconnectRequest)
        } else {
            None
        }
    }
}

/// One attribute: type, declared length and value bytes.
pub struct RadiusAttribute {
    pub attribute_type: u8,
    pub length: u8,
    pub value: Vec<u8>,
}

/// The mathematical content of an attribute.
pub struct AttributeView {
    pub attribute_type: u8,
    pub length: u8,
    pub value: Seq<u8>,
}

impl View for RadiusAttribute {
    type V = AttributeView;

    open spec fn view(&self) -> AttributeView {
        AttributeView { attribute_type: self.attribute_type, length: self.length, value: self.value@ }
    }
}

impl AttributeView {
    /// Type, length and value, as they go on the wire.
    pub open spec fn wire(self) -> Seq<u8> {
        seq![self.attribute_type, self.length] + self.value
    }

    /// The declared length counts the two header bytes and the value.
    pub open spec fn well_formed(self) -> bool {
        self.value.len() + 2 == self.length
    }
}

/// The attributes one after the other, as they go on the wire.
pub open spec fn attributes_wire(attrs: Seq<AttributeView>) -> Seq<u8>
    decreases attrs.len(),
{
    if attrs.len() == 0 {
        Seq::empty()
    } else {
        attributes_wire(attrs.drop_last()) + attrs.last().wire()
    }
}

/// A RADIUS packet.
pub struct RadiusPacket {
    pub code: u8,
    pub identifier: u8,
    pub length: u16,
    pub authenticator: [u8; 16],
    pub attributes: Vec<RadiusAttribute>,
}

/// The mathematical content of a packet.
pub struct PacketView {
    pub code: u8,
    pub identifier: u8,
    pub length: u16,
    pub authenticator: Seq<u8>,
    pub attributes: Seq<AttributeView>,
}

/// The views of a sequence of attributes.
pub open spec fn attribute_views(attrs: Seq<RadiusAttribute>) -> Seq<AttributeView> {
    attrs.map_values(|a: RadiusAttribute| a@)
}

impl View for RadiusPacket {
    type V = PacketView;

    open spec fn view(&self) -> PacketView {
        PacketView {
            code: self.code,
            identifier: self.identifier,
            length: self.length,
            authenticator: self.authenticator@,
            attributes: attribute_views(self.attributes@),
        }
    }
}

impl PacketView {
    /// Header (code, identifier, big-endian length, authenticator) followed
    /// by the attributes.
    pub open spec fn wire(self) -> Seq<u8> {
        seq![self.code, self.identifier, (self.length / 256) as u8, (self.length % 256) as u8]
            + self.authenticator + attributes_wire(self.attributes)
    }

    /// Every attribute's length matches its value and the packet length
    /// counts exactly the header and the attributes.
    pub open spec fn well_formed(self) -> bool {
        &&& self.authenticator.len() == 16
        &&& forall|i: int| 0 <= i < self.attributes.len() ==> #[trigger] self.attributes[i].well_formed()
        &&& self.length == 20 + attributes_wire(self.attributes).len()
    }
}

/// The length field of the header of `data` (which has at least 4 bytes).
pub open spec fn declared_length(data: Seq<u8>) -> int {
    data[2] as int * 256 + data[3] as int
}

/// Attributes read from `data[pos..end]`: reading stops at the end, at an
/// attribute whose header does not fit, whose length is below 2, or whose
/// length runs past `end`.
pub open spec fn parse_attributes(data: Seq<u8>, pos: int, end: int) -> Seq<AttributeView>
    decreases end - pos,
{
    if pos >= end || pos + 2 > end {
        Seq::empty()
    } else {
        let len = data[pos + 1] as int;
        if len < 2 || pos + len > end {
            Seq::empty()
        } else {
            seq![
                AttributeView {
                    attribute_type: data[pos],
                    length: data[pos + 1],
                    value: data.subrange(pos + 2, pos + len),
                },
            ] + parse_attributes(data, pos + len, end)
        }
    }
}

/// The packet read from `data`, which holds at least the 20 header bytes and
/// at least as many bytes as its length field declares.
pub open spec fn parse_packet(data: Seq<u8>) -> PacketView {
    PacketView {
        code: data[0],
        identifier: data[1],
        length: declared_length(data) as u16,
        authenticator: data.subrange(4, 20),
        attributes: parse_attributes(data, 20, declared_length(data)),
    }
}


/// The first attribute of type `t`, if any.
pub open spec fn find_attribute(attrs: Seq<AttributeView>, t: u8) -> Option<AttributeView>
    decreases attrs.len(),
{
    if attrs.len() == 0 {
        None
    } else if attrs[0].attribute_type == t {
        Some(attrs[0])
    } else {
        find_attribute(attrs.drop_first(), t)
    }
}

/// The value of the first attribute of type `t` read as UTF-8 text; `None`
/// when there is no such attribute or its value is not valid UTF-8.
pub open spec fn attribute_text(attrs: Seq<AttributeView>, t: u8) -> Option<Seq<char>> {
    match find_attribute(attrs, t) {
        Some(a) => if valid_utf8(a.value) {
            Some(decode_utf8(a.value))
        } else {
            None
        },
        None => None,
    }
}

impl PacketView {
    /// The packet after appending an attribute of type `t` with value `v`;
    /// the attribute's length byte is `v.len() + 2` taken modulo 256.
    pub open spec fn with_attribute(self, t: u8, v: Seq<u8>) -> PacketView {
        let len = ((v.len() + 2) % 256) as u8;
        PacketView {
            length: (self.length + len) as u16,
            attributes: self.attributes.push(
                AttributeView { attribute_type: t, length: len, value: v },
            ),
            ..self
        }
    }
}

/// `String::from_utf8`: succeeds exactly when the bytes are valid UTF-8, and
/// then holds the characters they encode.
#[verifier::external_body]
fn string_from_utf8(bytes: Vec<u8>) -> (res: Option<String>)
    ensures
        res is Some <==> valid_utf8(bytes@),
        res matches Some(s) ==> s@ == decode_utf8(bytes@),
{
    String::from_utf8(bytes).ok()
}

impl RadiusPacket {
    /// An empty packet with the given code: identifier 0, length 20 (the
    /// header alone), a zero authenticator and no attributes.
    pub fn new(code: u8) -> (res: RadiusPacket)
        ensures
            res@ == (PacketView {
                code,
                identifier: 0,
                length: 20,
                authenticator: Seq::new(16, |i: int| 0u8),
                attributes: Seq::empty(),
            }),
            res@.well_formed(),
    {
        let res = RadiusPacket {
            code,
            identifier: 0,
            length: 20,
            authenticator: [0u8; 16],
            attributes: Vec::new(),
        };
        assert(res@.attributes =~= Seq::<AttributeView>::empty());
        assert(res@.authenticator =~= Seq::new(16, |i: int| 0u8));
        res
    }

    /// Appends an attribute of type `attr_type` holding `value`; its length
    /// byte is `value.len() + 2` modulo 256 and the packet length grows by it.
    pub fn add_attribute(&mut self, attr_type: u8, value: &[u8])
        requires
            old(self).length + (value@.len() + 2) % 256 <= u16::MAX,
        ensures
            final(self)@ == old(self)@.with_attribute(attr_type, value@),
    {
        let low = value.len() % 256;
        let len8: u8 = ((low + 2) % 256) as u8;
        assert(len8 == (value@.len() + 2) % 256) by (nonlinear_arith)
            requires
                low == value@.len() % 256,
                len8 == (low + 2) % 256,
        ;
        let attr = RadiusAttribute { attribute_type: attr_type, length: len8, value: slice_to_vec(value) };
        self.length = self.length + len8 as u16;
        self.attributes.push(attr);
        assert(final(self)@.attributes =~= old(self)@.with_attribute(attr_type, value@).attributes);
    }

    /// The packet's wire bytes: header, then each attribute's type, length
    /// byte and value, as stored (the length field is written as it is).
    pub fn to_bytes(&self) -> (res: Vec<u8>)
        ensures
            res@ == self@.wire(),
    {
        let mut buf: Vec<u8> = Vec::with_capacity(self.length as usize);
        buf.push(self.code);
        buf.push(self.identifier);
        buf.push((self.length / 256) as u8);
        buf.push((self.length % 256) as u8);
        let mut k: usize = 0;
        while k < 16
            invariant
                k <= 16,
                buf@ == seq![self.code, self.identifier, (self.length / 256) as u8, (self.length % 256) as u8]
                    + self.authenticator@.take(k as int),
            decreases 16 - k,
        {
            buf.push(self.authenticator[k]);
            assert(self.authenticator@.take(k + 1) =~= self.authenticator@.take(k as int).push(
                self.authenticator@[k as int],
            ));
            k = k + 1;
        }
        assert(self.authenticator@.take(16) =~= self.authenticator@);
        let n = self.attributes.len();
        let mut i: usize = 0;
        while i < n
            invariant
                n == self.attributes@.len(),
                i <= n,
                buf@ == seq![self.code, self.identifier, (self.length / 256) as u8, (self.length % 256) as u8]
                    + self.authenticator@ + attributes_wire(attribute_views(self.attributes@).take(i as int)),
            decreases n - i,
        {
            let attr = &self.attributes[i];
            let ghost before = buf@;
            buf.push(attr.attribute_type);
            buf.push(attr.length);
            let m = attr.value.len();
            let mut j: usize = 0;
            while j < m
                invariant
                    m == attr.value@.len(),
                    j <= m,
                    buf@ == before + seq![attr.attribute_type, attr.length] + attr.value@.take(j as int),
                decreases m - j,
            {
                buf.push(attr.value[j]);
                assert(attr.value@.take(j + 1) =~= attr.value@.take(j as int).push(attr.value@[j as int]));
                j = j + 1;
            }
            assert(attr.value@.take(m as int) =~= attr.value@);
            proof {
                let views = attribute_views(self.attributes@);
                assert(views.take(i + 1).drop_last() =~= views.take(i as int));
                assert(views.take(i + 1).last() == attr@);
            }
            i = i + 1;
        }
        assert(attribute_views(self.attributes@).take(n as int) =~= attribute_views(self.attributes@));
        buf
    }
}


impl RadiusPacket {
    /// Reads a packet from `data`. Fails with "Packet too short" when `data`
    /// holds fewer than 20 bytes and with "Incomplete packet" when it holds
    /// fewer bytes than the length field declares; otherwise reads the header
    /// and the attributes that fit in the declared length (see
    /// `parse_attributes`).
    pub fn from_bytes(data: &[u8]) -> (res: Result<RadiusPacket, String>)
        ensures
            data@.len() < 20 ==> (res matches Err(e) && e@ == "Packet too short"@),
            data@.len() >= 20 && data@.len() < declared_length(data@) ==> (res matches Err(e)
                && e@ == "Incomplete packet"@),
            data@.len() >= 20 && data@.len() >= declared_length(data@) ==> (res matches Ok(p)
                && p@ == parse_packet(data@)),
    {
        if data.len() < 20 {
            return Err(String::from_str("Packet too short"));
        }
        let code = data[0];
        let identifier = data[1];
        let length: usize = (data[2] as usize) * 256 + (data[3] as usize);
        if data.len() < length {
            return Err(String::from_str("Incomplete packet"));
        }
        let authenticator: [u8; 16] = [
            data[4], data[5], data[6], data[7], data[8], data[9], data[10], data[11],
            data[12], data[13], data[14], data[15], data[16], data[17], data[18], data[19],
        ];
        assert(authenticator@ =~= data@.subrange(4, 20));
        let mut attributes: Vec<RadiusAttribute> = Vec::new();
        let mut pos: usize = 20;
        loop
            invariant
                20 <= pos,
                length == declared_length(data@),
                length <= data@.len(),
                length <= 65535,
                parse_attributes(data@, 20, length as int) == attribute_views(attributes@)
                    + parse_attributes(data@, pos as int, length as int),
            ensures
                parse_attributes(data@, 20, length as int) == attribute_views(attributes@),
            decreases length - pos,
        {
            if pos >= length || pos + 2 > length {
                assert(attribute_views(attributes@) + Seq::<AttributeView>::empty() =~= attribute_views(
                    attributes@,
                ));
                break;
            }
            let attr_type = data[pos];
            let attr_len = data[pos + 1] as usize;
            if attr_len < 2 || pos + attr_len > length {
                assert(attribute_views(attributes@) + Seq::<AttributeView>::empty() =~= attribute_views(
                    attributes@,
                ));
                break;
            }
            let value = slice_to_vec(&data[pos + 2..pos + attr_len]);
            let ghost old_views = attribute_views(attributes@);
            attributes.push(RadiusAttribute { attribute_type: attr_type, length: attr_len as u8, value });
            assert(attribute_views(attributes@) =~= old_views.push(attributes@.last()@));
            let ghost head = AttributeView {
                attribute_type: data@[pos as int],
                length: data@[pos + 1],
                value: data@.subrange(pos + 2, pos + attr_len),
            };
            assert(attributes@.last()@ == head);
            assert(parse_attributes(data@, pos as int, length as int) == seq![head] + parse_attributes(
                data@,
                pos + attr_len,
                length as int,
            ));
            assert(old_views.push(head) + parse_attributes(data@, pos + attr_len, length as int)
                =~= old_views + (seq![head] + parse_attributes(data@, pos + attr_len, length as int)));
            pos = pos + attr_len;
        }
        Ok(RadiusPacket { code, identifier, length: length as u16, authenticator, attributes })
    }

    /// The first attribute of type `attr_type`, if any.
    pub fn get_attribute(&self, attr_type: u8) -> (res: Option<&RadiusAttribute>)
        ensures
            match res {
                Some(a) => find_attribute(self@.attributes, attr_type) == Some(a@),
                None => find_attribute(self@.attributes, attr_type) is None,
            },
    {
        let n = self.attributes.len();
        let mut i: usize = 0;
        assert(self@.attributes.subrange(0, n as int) =~= self@.attributes);
        while i < n
            invariant
                n == self.attributes@.len(),
                i <= n,
                find_attribute(self@.attributes, attr_type) == find_attribute(
                    self@.attributes.subrange(i as int, n as int),
                    attr_type,
                ),
            decreases n - i,
        {
            let attr = &self.attributes[i];
            assert(self@.attributes.subrange(i as int, n as int)[0] == attr@);
            if attr.attribute_type == attr_type {
                return Some(attr);
            }
            assert(self@.attributes.subrange(i as int, n as int).drop_first() =~= self@.attributes.subrange(
                i + 1,
                n as int,
            ));
            i = i + 1;
        }
        None
    }

    /// The value of the first attribute of type `attr_type` as text; `None`
    /// when there is none or its value is not valid UTF-8.
    pub fn get_attribute_string(&self, attr_type: u8) -> (res: Option<String>)
        ensures
            match res {
                Some(s) => attribute_text(self@.attributes, attr_type) == Some(s@),
                None => attribute_text(self@.attributes, attr_type) is None,
            },
    {
        match self.get_attribute(attr_type) {
            Some(attr) => string_from_utf8(slice_to_vec(attr.value.as_slice())),
            None => None,
        }
    }
}


proof fn lemma_attributes_wire_concat(a: Seq<AttributeView>, b: Seq<AttributeView>)
    ensures
        attributes_wire(a + b) == attributes_wire(a) + attributes_wire(b),
    decreases b.len(),
{
    if b.len() == 0 {
        assert(a + b =~= a);
        assert(attributes_wire(a) + attributes_wire(b) =~= attributes_wire(a));
    } else {
        assert((a + b).drop_last() =~= a + b.drop_last());
        assert((a + b).last() == b.last());
        lemma_attributes_wire_concat(a, b.drop_last());
        assert(attributes_wire(a) + attributes_wire(b.drop_last()) + b.last().wire()
            =~= attributes_wire(a) + (attributes_wire(b.drop_last()) + b.last().wire()));
    }
}

proof fn lemma_attributes_wire_front(attrs: Seq<AttributeView>)
    requires
        attrs.len() > 0,
    ensures
        attributes_wire(attrs) == attrs[0].wire() + attributes_wire(attrs.drop_first()),
{
    let first = seq![attrs[0]];
    assert(first + attrs.drop_first() =~= attrs);
    lemma_attributes_wire_concat(first, attrs.drop_first());
    assert(first.drop_last() =~= Seq::<AttributeView>::empty());
    assert(attributes_wire(first.drop_last()) =~= Seq::<u8>::empty());
    assert(attributes_wire(first) =~= attrs[0].wire());
}

/// Reading the wire bytes of well-formed attributes gives them back.
proof fn lemma_parse_attributes_of_wire(
    data: Seq<u8>,
    pos: int,
    end: int,
    attrs: Seq<AttributeView>,
)
    requires
        0 <= pos <= end <= data.len(),
        data.subrange(pos, end) == attributes_wire(attrs),
        forall|i: int| 0 <= i < attrs.len() ==> #[trigger] attrs[i].well_formed(),
    ensures
        parse_attributes(data, pos, end) == attrs,
    decreases attrs.len(),
{
    if attrs.len() == 0 {
        assert(attributes_wire(attrs) =~= Seq::<u8>::empty());
        assert(end == pos);
        assert(parse_attributes(data, pos, end) =~= attrs);
    } else {
        lemma_attributes_wire_front(attrs);
        let a = attrs[0];
        assert(a.well_formed());
        let len = a.length as int;
        let rest = attrs.drop_first();
        let w = data.subrange(pos, end);
        assert(w.len() == a.wire().len() + attributes_wire(rest).len());
        assert(a.wire().len() == len);
        assert(data[pos] == w[0]);
        assert(data[pos + 1] == w[1]);
        assert(data.subrange(pos + 2, pos + len) =~= a.value) by {
            assert forall|k: int| 0 <= k < len - 2 implies data.subrange(pos + 2, pos + len)[k]
                == a.value[k] by {
                assert(data.subrange(pos + 2, pos + len)[k] == w[k + 2]);
                assert(w[k + 2] == a.wire()[k + 2]);
            }
        }
        assert(data.subrange(pos + len, end) =~= attributes_wire(rest)) by {
            assert forall|k: int| 0 <= k < end - pos - len implies data.subrange(pos + len, end)[k]
                == attributes_wire(rest)[k] by {
                assert(data.subrange(pos + len, end)[k] == w[k + len]);
            }
        }
        assert forall|i: int| 0 <= i < rest.len() implies #[trigger] rest[i].well_formed() by {
            assert(rest[i] == attrs[i + 1]);
        }
        lemma_parse_attributes_of_wire(data, pos + len, end, rest);
        assert(seq![a] + rest =~= attrs);
    }
}

/// What `parse_attributes` reads is well formed and is a prefix of the
/// bytes it read from.
proof fn lemma_parse_attributes_prefix(data: Seq<u8>, pos: int, end: int)
    requires
        0 <= pos <= data.len(),
        end <= data.len(),
    ensures
        ({
            let ps = parse_attributes(data, pos, end);
            &&& forall|i: int| 0 <= i < ps.len() ==> #[trigger] ps[i].well_formed()
            &&& ps.len() > 0 ==> pos + attributes_wire(ps).len() <= end
            &&& attributes_wire(ps) == data.subrange(pos, pos + attributes_wire(ps).len())
        }),
    decreases end - pos,
{
    let ps = parse_attributes(data, pos, end);
    if pos >= end || pos + 2 > end {
        assert(data.subrange(pos, pos) =~= Seq::<u8>::empty());
    } else {
        let len = data[pos + 1] as int;
        if len < 2 || pos + len > end {
            assert(data.subrange(pos, pos) =~= Seq::<u8>::empty());
        } else {
            let a = AttributeView {
                attribute_type: data[pos],
                length: data[pos + 1],
                value: data.subrange(pos + 2, pos + len),
            };
            let rest = parse_attributes(data, pos + len, end);
            lemma_parse_attributes_prefix(data, pos + len, end);
            assert(ps == seq![a] + rest);
            lemma_attributes_wire_front(ps);
            assert(ps[0] == a);
            assert(ps.drop_first() =~= rest);
            let rw = attributes_wire(rest);
            assert(a.wire() =~= data.subrange(pos, pos + len));
            assert(attributes_wire(ps) =~= data.subrange(pos, pos + len + rw.len()));
            assert forall|i: int| 0 <= i < ps.len() implies #[trigger] ps[i].well_formed() by {
                if i > 0 {
                    assert(ps[i] == rest[i - 1]);
                }
            }
        }
    }
}

/// The wire bytes of a well-formed packet read back as the same packet:
/// they are exactly as long as its length field says, so reading them
/// succeeds, and the packet read is the one written.
pub proof fn theorem_read_of_written(p: PacketView)
    requires
        p.well_formed(),
    ensures
        p.wire().len() >= 20,
        p.wire().len() == declared_length(p.wire()),
        p.wire().len() == p.length,
        parse_packet(p.wire()) == p,
{
    let w = p.wire();
    let header = seq![p.code, p.identifier, (p.length / 256) as u8, (p.length % 256) as u8];
    let aw = attributes_wire(p.attributes);
    assert(w == header + p.authenticator + aw);
    assert(w[2] == (p.length / 256) as u8);
    assert(w[3] == (p.length % 256) as u8);
    assert(declared_length(w) == p.length);
    assert(w.subrange(4, 20) =~= p.authenticator);
    assert(w.subrange(20, w.len() as int) =~= aw);
    lemma_parse_attributes_of_wire(w, 20, w.len() as int, p.attributes);
    assert(parse_packet(w).authenticator =~= p.authenticator);
}

/// Every attribute read from bytes is well formed, and when the attributes
/// read cover the whole declared length, writing the packet read gives back
/// exactly the first `length` bytes of the input.
pub proof fn theorem_written_of_read(data: Seq<u8>)
    requires
        data.len() >= 20,
        declared_length(data) <= data.len(),
    ensures
        forall|i: int|
            0 <= i < parse_packet(data).attributes.len() ==> #[trigger] parse_packet(
                data,
            ).attributes[i].well_formed(),
        parse_packet(data).well_formed() ==> parse_packet(data).wire() == data.subrange(
            0,
            declared_length(data),
        ),
{
    let p = parse_packet(data);
    let len = declared_length(data);
    lemma_parse_attributes_prefix(data, 20, len);
    if p.well_formed() {
        let aw = attributes_wire(p.attributes);
        assert(len == 20 + aw.len());
        assert(p.length == len);
        assert((p.length / 256) as u8 == data[2]);
        assert((p.length % 256) as u8 == data[3]);
        assert(p.wire() =~= data.subrange(0, len));
    }
}

/// Appending an attribute whose value is at most 253 bytes long to a
/// well-formed packet, while the length still fits in 16 bits, keeps the
/// packet well formed.
pub proof fn theorem_add_attribute_well_formed(p: PacketView, t: u8, v: Seq<u8>)
    requires
        p.well_formed(),
        v.len() <= 253,
        p.length + v.len() + 2 <= u16::MAX,
    ensures
        p.with_attribute(t, v).well_formed(),
{
    let q = p.with_attribute(t, v);
    let a = AttributeView { attribute_type: t, length: (v.len() + 2) as u8, value: v };
    assert(q.attributes.drop_last() =~= p.attributes);
    assert(q.attributes.last() == a);
    assert forall|i: int| 0 <= i < q.attributes.len() implies #[trigger] q.attributes[i].well_formed() by {
        if i < p.attributes.len() {
            assert(q.attributes[i] == p.attributes[i]);
        }
    }
}

/// Appending an attribute of a type the packet does not yet hold makes it
/// the one found for that type, and text appended that way reads back as
/// itself.
pub proof fn theorem_added_attribute_found(p: PacketView, t: u8, text: Seq<char>)
    requires
        find_attribute(p.attributes, t) is None,
    ensures
        find_attribute(p.with_attribute(t, encode_utf8(text)).attributes, t) == Some(
            p.with_attribute(t, encode_utf8(text)).attributes.last(),
        ),
        attribute_text(p.with_attribute(t, encode_utf8(text)).attributes, t) == Some(text),
{
    let v = encode_utf8(text);
    lemma_find_after_push(p.attributes, p.with_attribute(t, v).attributes.last(), t);
    vstd::utf8::encode_utf8_valid_utf8(text);
    vstd::utf8::encode_utf8_decode_utf8(text);
}

proof fn lemma_find_after_push(attrs: Seq<AttributeView>, a: AttributeView, t: u8)
    requires
        find_attribute(attrs, t) is None,
        a.attribute_type == t,
    ensures
        find_attribute(attrs.push(a), t) == Some(a),
    decreases attrs.len(),
{
    if attrs.len() > 0 {
        assert(attrs.push(a).drop_first() =~= attrs.drop_first().push(a));
        lemma_find_after_push(attrs.drop_first(), a, t);
    }
}

/// The header sits in the first twenty bytes as they stand: a packet read
/// from bytes has the first byte as its code, the second as its identifier,
/// the next two (big-endian) as its length and the next sixteen, in order,
/// as its authenticator; and the bytes written for a packet hold its code,
/// identifier, length and authenticator at those same places.
pub proof fn theorem_header_layout(data: Seq<u8>, p: PacketView)
    requires
        data.len() >= 20,
        p.authenticator.len() == 16,
    ensures
        parse_packet(data).code == data[0],
        parse_packet(data).identifier == data[1],
        parse_packet(data).length as int == data[2] as int * 256 + data[3] as int,
        parse_packet(data).authenticator.len() == 16,
        forall|i: int| 0 <= i < 16 ==> #[trigger] parse_packet(data).authenticator[i] == data[4 + i],
        p.wire().len() >= 20,
        p.wire()[0] == p.code,
        p.wire()[1] == p.identifier,
        p.wire()[2] as int * 256 + p.wire()[3] as int == p.length as int,
        forall|i: int| 0 <= i < 16 ==> #[trigger] p.wire()[4 + i] == p.authenticator[i],
{
    let w = p.wire();
    let header = seq![p.code, p.identifier, (p.length / 256) as u8, (p.length % 256) as u8];
    assert(w == header + p.authenticator + attributes_wire(p.attributes));
    assert forall|i: int| 0 <= i < 16 implies #[trigger] w[4 + i] == p.authenticator[i] by {
        assert((header + p.authenticator)[4 + i] == p.authenticator[i]);
    }
    assert(w[2] == (p.length / 256) as u8);
    assert(w[3] == (p.length % 256) as u8);
}

} // verus!
