use vstd::prelude::*;

verus! {

broadcast use vstd::std_specs::vec::group_vec_axioms;

/// Type tag byte `i`: a 32-bit integer argument.
pub const TAG_INT32: u8 = 105;

/// Type tag byte `f`: a 32-bit float argument.
pub const TAG_FLOAT32: u8 = 102;

/// Type tag byte `s`: a string argument.
pub const TAG_STRING: u8 = 115;

/// Type tag byte `b`: a blob argument.
pub const TAG_BLOB: u8 = 98;

/// The byte `/` that opens every message address.
pub const ADDR_SLASH: u8 = 47;

/// One typed argument of a decoded message. A float argument is carried as
/// the big-endian bit pattern of its IEEE single, so the library holds no
/// floating-point value.
#[derive(Clone, PartialEq, Debug)]
pub enum TypedValue {
    Int32(i32),
    Float32Bits(u32),
    Str(String),
    Blob(Vec<u8>),
}

/// The mathematical model of a `TypedValue`.
pub enum ValueView {
    Int32(i32),
    Float32Bits(u32),
    Str(Seq<char>),
    Blob(Seq<u8>),
}

impl View for TypedValue {
    type V = ValueView;

    open spec fn view(&self) -> ValueView {
        match self {
            TypedValue::Int32(i) => ValueView::Int32(*i),
            TypedValue::Float32Bits(b) => ValueView::Float32Bits(*b),
            TypedValue::Str(s) => ValueView::Str(s@),
            TypedValue::Blob(b) => ValueView::Blob(b@),
        }
    }
}

/// A decoded packet: a single addressed message, or a bundle of packets.
#[derive(Debug)]
pub enum DecodedMessage {
    Single { addr: String, args: Vec<TypedValue> },
    Bundle { content: Vec<DecodedMessage> },
}

/// The mathematical model of a `DecodedMessage`.
pub enum MessageView {
    Single { addr: Seq<char>, args: Seq<ValueView> },
    Bundle { content: Seq<MessageView> },
}

/// The model of a packet: each argument and each bundle element replaced
/// by its model.
pub open spec fn msg_view_of(m: DecodedMessage) -> MessageView
    decreases m,
{
    match m {
        DecodedMessage::Single { addr, args } => MessageView::Single {
            addr: addr@,
            args: vals_view(args@),
        },
        DecodedMessage::Bundle { content } => MessageView::Bundle {
            content: msgs_view_of(content@),
        },
    }
}

/// The models of a sequence of packets, element-wise.
pub open spec fn msgs_view_of(s: Seq<DecodedMessage>) -> Seq<MessageView>
    decreases s,
{
    if s.len() == 0 {
        Seq::empty()
    } else {
        seq![msg_view_of(s[0])] + msgs_view_of(s.subrange(1, s.len() as int))
    }
}

impl View for DecodedMessage {
    type V = MessageView;

    open spec fn view(&self) -> MessageView {
        msg_view_of(*self)
    }
}

/// The models of a sequence of typed values, element-wise.
pub open spec fn vals_view(s: Seq<TypedValue>) -> Seq<ValueView> {
    Seq::new(s.len(), |i: int| s[i]@)
}

/// Bytes read as characters, one character per byte; meaningful only for
/// bytes below 128.
pub open spec fn chars_of_bytes(s: Seq<u8>) -> Seq<char> {
    Seq::new(s.len(), |i: int| s[i] as char)
}

pub open spec fn is_ascii_bytes(s: Seq<u8>) -> bool {
    forall|i: int| 0 <= i < s.len() ==> s[i] < 128
}

/// Relies on String::from_utf8: bytes below 128 decode to exactly those
/// characters, one per byte.
#[verifier::external_body]
fn ascii_to_string(bytes: Vec<u8>) -> (r: String)
    requires
        is_ascii_bytes(bytes@),
    ensures
        r@ == chars_of_bytes(bytes@),
{
    match String::from_utf8(bytes) {
        Ok(s) => s,
        Err(_) => String::new(),
    }
}

/// The position of the first zero byte in `b[pos..end)`, if any.
pub open spec fn spec_find_zero(b: Seq<u8>, pos: int, end: int) -> Option<int>
    decreases end - pos,
{
    if pos < 0 || pos >= end {
        None
    } else if b[pos] == 0 {
        Some(pos)
    } else {
        spec_find_zero(b, pos + 1, end)
    }
}

/// An OSC string field at `pos`: the bytes up to the first zero, closed by
/// a terminator and padding that end on the next 32-bit boundary of the
/// packet. Only seven-bit bytes are accepted, so that each byte is one
/// character of the decoded text.
pub open spec fn spec_osc_string(b: Seq<u8>, pos: int, end: int) -> Option<(Seq<u8>, int)> {
    match spec_find_zero(b, pos, end) {
        Some(j) => {
            let next = j + (4 - (j % 4));
            if next <= end && is_ascii_bytes(b.subrange(pos, j)) {
                Some((b.subrange(pos, j), next))
            } else {
                None
            }
        },
        None => None,
    }
}

/// The big-endian 32-bit word at `pos`.
pub open spec fn spec_be_u32(b: Seq<u8>, pos: int) -> u32 {
    (b[pos] * 0x100_0000 + b[pos + 1] * 0x1_0000 + b[pos + 2] * 0x100 + b[pos + 3]) as u32
}

fn scan_terminator(b: &Vec<u8>, pos: usize, end: usize) -> (r: Option<usize>)
    requires
        pos <= end <= b@.len(),
    ensures
        match r {
            Some(j) => pos <= j < end && b@[j as int] == 0
                && spec_find_zero(b@, pos as int, end as int) == Some(j as int),
            None => spec_find_zero(b@, pos as int, end as int) is None,
        },
{
    let mut i: usize = pos;
    while i < end
        invariant
            pos <= i <= end <= b@.len(),
            spec_find_zero(b@, pos as int, end as int) == spec_find_zero(b@, i as int, end as int),
        decreases end - i,
    {
        if b[i] == 0 {
            return Some(i);
        }
        i = i + 1;
    }
    None
}

/// Reads an OSC string field: its raw bytes and the position after its
/// padding.
#[verifier::loop_isolation(false)]
fn read_osc_string(b: &Vec<u8>, pos: usize, end: usize) -> (r: Option<(Vec<u8>, usize)>)
    requires
        pos <= end <= b@.len(),
    ensures
        match r {
            Some(p) => spec_osc_string(b@, pos as int, end as int) == Some((p.0@, p.1 as int))
                && is_ascii_bytes(p.0@) && pos <= p.1 <= end,
            None => spec_osc_string(b@, pos as int, end as int) is None,
        },
{
    let j: usize = match scan_terminator(b, pos, end) {
        Some(j) => j,
        None => {
            return None;
        },
    };
    let pad: usize = 4 - (j % 4);
    if pad > end - j {
        return None;
    }
    let next: usize = j + pad;
    let mut content: Vec<u8> = Vec::new();
    let mut i: usize = pos;
    while i < j
        invariant
            pos <= i <= j < end <= b@.len(),
            content@ =~= b@.subrange(pos as int, i as int),
            is_ascii_bytes(content@),
        decreases j - i,
    {
        let c: u8 = b[i];
        if c >= 128 {
            assert(!is_ascii_bytes(b@.subrange(pos as int, j as int))) by {
                assert(b@.subrange(pos as int, j as int)[i - pos] == b@[i as int]);
            }
            return None;
        }
        content.push(c);
        i = i + 1;
    }
    assert(content@ =~= b@.subrange(pos as int, j as int));
    Some((content, next))
}

fn read_be_u32(b: &Vec<u8>, pos: usize, end: usize) -> (r: u32)
    requires
        pos + 4 <= end <= b@.len(),
    ensures
        r == spec_be_u32(b@, pos as int),
{
    let b0: u32 = b[pos] as u32;
    let b1: u32 = b[pos + 1] as u32;
    let b2: u32 = b[pos + 2] as u32;
    let b3: u32 = b[pos + 3] as u32;
    b0 * 0x100_0000 + b1 * 0x1_0000 + b2 * 0x100 + b3
}

/// One argument of a message, read under type tag `tag`. Integers and
/// floats are big-endian 32-bit words; a string is an OSC string field; a
/// blob is a 32-bit length, its bytes, and padding to the next 32-bit
/// multiple of the length. Any other tag is not supported and fails the
/// decode.
pub open spec fn spec_arg(b: Seq<u8>, tag: u8, pos: int, end: int) -> Option<(ValueView, int)> {
    if tag == TAG_INT32 {
        if pos + 4 <= end {
            Some((ValueView::Int32(spec_be_u32(b, pos) as i32), pos + 4))
        } else {
            None
        }
    } else if tag == TAG_FLOAT32 {
        if pos + 4 <= end {
            Some((ValueView::Float32Bits(spec_be_u32(b, pos)), pos + 4))
        } else {
            None
        }
    } else if tag == TAG_STRING {
        match spec_osc_string(b, pos, end) {
            Some(p) => Some((ValueView::Str(chars_of_bytes(p.0)), p.1)),
            None => None,
        }
    } else if tag == TAG_BLOB {
        if pos + 4 <= end {
            let n = spec_be_u32(b, pos) as int;
            let pad = (4 - (n % 4)) % 4;
            if pos + 4 + n + pad <= end {
                Some((ValueView::Blob(b.subrange(pos + 4, pos + 4 + n)), pos + 4 + n + pad))
            } else {
                None
            }
        } else {
            None
        }
    } else {
        None
    }
}

/// The arguments for the tags from index `ti` on, read left to right.
pub open spec fn spec_args(b: Seq<u8>, tags: Seq<u8>, ti: int, pos: int, end: int) -> Option<
    (Seq<ValueView>, int),
>
    decreases tags.len() - ti,
{
    if ti < 0 || ti >= tags.len() {
        Some((Seq::empty(), pos))
    } else {
        match spec_arg(b, tags[ti], pos, end) {
            Some(p) => match spec_args(b, tags, ti + 1, p.1, end) {
                Some(q) => Some((seq![p.0] + q.0, q.1)),
                None => None,
            },
            None => None,
        }
    }
}

/// The rest of a message once its address bytes are read: a type tag
/// string, then the argument data. A tag string of at most one byte (the
/// comma alone, or nothing) means no arguments; otherwise the leading
/// byte is skipped unchecked and one argument is read per remaining tag,
/// so a stray first tag byte does not fail an otherwise good message.
pub open spec fn spec_message(b: Seq<u8>, addr: Seq<u8>, pos: int, end: int) -> Option<
    (MessageView, int),
> {
    match spec_osc_string(b, pos, end) {
        Some(t) => if t.0.len() <= 1 {
            Some((MessageView::Single { addr: chars_of_bytes(addr), args: Seq::empty() }, t.1))
        } else {
            match spec_args(b, t.0, 1, t.1, end) {
                Some(q) => Some(
                    (MessageView::Single { addr: chars_of_bytes(addr), args: q.0 }, q.1),
                ),
                None => None,
            }
        },
        None => None,
    }
}

/// The address bytes that open a bundle.
pub open spec fn bundle_tag() -> Seq<u8> {
    seq![35u8, 98u8, 117u8, 110u8, 100u8, 108u8, 101u8]
}

/// The first zero found in `b[pos..end)` lies in that range.
proof fn lemma_find_zero_bounds(b: Seq<u8>, pos: int, end: int)
    ensures
        spec_find_zero(b, pos, end) matches Some(j) ==> pos <= j < end && b[j] == 0,
    decreases end - pos,
{
    if 0 <= pos < end && b[pos] != 0 {
        lemma_find_zero_bounds(b, pos + 1, end);
    }
}

#[via_fn]
proof fn spec_packet_decreases(b: Seq<u8>, pos: int, end: int) {
    lemma_find_zero_bounds(b, pos, end);
}

/// A whole packet at `pos`: an address string, then either a message (the
/// address starts with a slash) or a bundle (the address is the bundle
/// tag). Anything else is malformed.
pub open spec fn spec_packet(b: Seq<u8>, pos: int, end: int) -> Option<(MessageView, int)>
    decreases end - pos, 2int,
        via spec_packet_decreases
{
    match spec_osc_string(b, pos, end) {
        Some(a) => if a.0.len() > 0 && a.0[0] == ADDR_SLASH {
            spec_message(b, a.0, a.1, end)
        } else if a.0 == bundle_tag() {
            spec_bundle(b, a.1, end)
        } else {
            None
        },
        None => None,
    }
}

/// A bundle body: an eight-byte time tag (not interpreted), then elements
/// to the end of the packet. A bundle with no elements is malformed, so a
/// well-formed decode never yields an empty bundle.
pub open spec fn spec_bundle(b: Seq<u8>, pos: int, end: int) -> Option<(MessageView, int)>
    decreases end - pos, 1int,
{
    if pos + 8 <= end {
        match spec_elems(b, pos + 8, end) {
            Some(content) => if content.len() > 0 {
                Some((MessageView::Bundle { content }, end))
            } else {
                None
            },
            None => None,
        }
    } else {
        None
    }
}

/// Bundle elements from `pos` to the end: each a 32-bit size followed by
/// a packet read from exactly that many bytes; bytes of an element that
/// its packet does not consume are ignored.
pub open spec fn spec_elems(b: Seq<u8>, pos: int, end: int) -> Option<Seq<MessageView>>
    decreases end - pos, 0int,
{
    if pos == end {
        Some(Seq::empty())
    } else if pos + 4 <= end {
        let n = spec_be_u32(b, pos) as int;
        if pos + 4 + n <= end {
            match spec_packet(b, pos + 4, pos + 4 + n) {
                Some(p) => match spec_elems(b, pos + 4 + n, end) {
                    Some(rest) => Some(seq![p.0] + rest),
                    None => None,
                },
                None => None,
            }
        } else {
            None
        }
    } else {
        None
    }
}

/// The decoded model of a whole datagram, or `None` when it is malformed.
/// Bytes after a single top-level message are ignored; a top-level
/// bundle's content runs to the end of the datagram.
pub open spec fn spec_decode(bytes: Seq<u8>) -> Option<MessageView> {
    match spec_packet(bytes, 0, bytes.len() as int) {
        Some(p) => Some(p.0),
        None => None,
    }
}

fn read_arg(b: &Vec<u8>, tag: u8, pos: usize, end: usize) -> (r: Option<(TypedValue, usize)>)
    requires
        pos <= end <= b@.len(),
    ensures
        match r {
            Some(p) => spec_arg(b@, tag, pos as int, end as int) matches Some(q) && q.0 == p.0@
                && q.1 == p.1 as int && pos <= p.1 <= end,
            None => spec_arg(b@, tag, pos as int, end as int) is None,
        },
{
    if tag == TAG_INT32 {
        if end - pos < 4 {
            return None;
        }
        let w: u32 = read_be_u32(b, pos, end);
        Some((TypedValue::Int32(w as i32), pos + 4))
    } else if tag == TAG_FLOAT32 {
        if end - pos < 4 {
            return None;
        }
        let w: u32 = read_be_u32(b, pos, end);
        Some((TypedValue::Float32Bits(w), pos + 4))
    } else if tag == TAG_STRING {
        match read_osc_string(b, pos, end) {
            Some((bytes, next)) => Some((TypedValue::Str(ascii_to_string(bytes)), next)),
            None => None,
        }
    } else if tag == TAG_BLOB {
        if end - pos < 4 {
            return None;
        }
        let n: usize = read_be_u32(b, pos, end) as usize;
        let pad: usize = (4 - (n % 4)) % 4;
        if n > end - (pos + 4) {
            return None;
        }
        if pad > end - (pos + 4) - n {
            return None;
        }
        let data_end: usize = pos + 4 + n;
        let mut data: Vec<u8> = Vec::new();
        let mut i: usize = pos + 4;
        while i < data_end
            invariant
                pos + 4 <= i <= data_end <= end <= b@.len(),
                data@ =~= b@.subrange(pos + 4, i as int),
            decreases data_end - i,
        {
            data.push(b[i]);
            i = i + 1;
        }
        assert(data@ =~= b@.subrange(pos + 4, data_end as int));
        Some((TypedValue::Blob(data), data_end + pad))
    } else {
        None
    }
}

#[verifier::loop_isolation(false)]
fn read_args(b: &Vec<u8>, tags: &Vec<u8>, ti: usize, pos: usize, end: usize) -> (r: Option<
    (Vec<TypedValue>, usize),
>)
    requires
        ti <= tags@.len(),
        pos <= end <= b@.len(),
    ensures
        match r {
            Some(p) => spec_args(b@, tags@, ti as int, pos as int, end as int) matches Some(q)
                && q.0 == vals_view(p.0@) && q.1 == p.1 as int && pos <= p.1 <= end,
            None => spec_args(b@, tags@, ti as int, pos as int, end as int) is None,
        },
    decreases tags@.len() - ti,
{
    if ti >= tags.len() {
        let empty: Vec<TypedValue> = Vec::new();
        assert(vals_view(empty@) =~= Seq::<ValueView>::empty());
        return Some((empty, pos));
    }
    let (v, p1) = match read_arg(b, tags[ti], pos, end) {
        Some(p) => p,
        None => {
            return None;
        },
    };
    let (vs, p2) = match read_args(b, tags, ti + 1, p1, end) {
        Some(p) => p,
        None => {
            return None;
        },
    };
    let ghost rest_view = vs@;
    let mut out = vs;
    out.insert(0, v);
    assert(vals_view(out@) =~= seq![v@] + vals_view(rest_view));
    Some((out, p2))
}

fn read_message(b: &Vec<u8>, addr: Vec<u8>, pos: usize, end: usize) -> (r: Option<
    (DecodedMessage, usize),
>)
    requires
        pos <= end <= b@.len(),
        is_ascii_bytes(addr@),
    ensures
        match r {
            Some(p) => spec_message(b@, addr@, pos as int, end as int) matches Some(q) && q.0
                == p.0@ && q.1 == p.1 as int && pos <= p.1 <= end,
            None => spec_message(b@, addr@, pos as int, end as int) is None,
        },
{
    let (tags, p1) = match read_osc_string(b, pos, end) {
        Some(p) => p,
        None => {
            return None;
        },
    };
    if tags.len() <= 1 {
        let args: Vec<TypedValue> = Vec::new();
        assert(vals_view(args@) =~= Seq::<ValueView>::empty());
        return Some((DecodedMessage::Single { addr: ascii_to_string(addr), args }, p1));
    }
    let (args, p2) = match read_args(b, &tags, 1, p1, end) {
        Some(p) => p,
        None => {
            return None;
        },
    };
    Some((DecodedMessage::Single { addr: ascii_to_string(addr), args }, p2))
}

fn is_bundle_tag(addr: &Vec<u8>) -> (r: bool)
    ensures
        r == (addr@ == bundle_tag()),
{
    if addr.len() != 7 {
        assert(addr@ != bundle_tag()) by {
            assert(bundle_tag().len() == 7);
        }
        return false;
    }
    let r: bool = addr[0] == 35 && addr[1] == 98 && addr[2] == 117 && addr[3] == 110
        && addr[4] == 100 && addr[5] == 108 && addr[6] == 101;
    if r {
        assert(addr@ =~= bundle_tag());
    } else {
        assert(addr@ != bundle_tag()) by {
            if addr@ == bundle_tag() {
                assert(addr@[0] == 35 && addr@[1] == 98 && addr@[2] == 117 && addr@[3]
                    == 110 && addr@[4] == 100 && addr@[5] == 108 && addr@[6] == 101);
            }
        }
    }
    r
}

fn read_packet(b: &Vec<u8>, pos: usize, end: usize) -> (r: Option<(DecodedMessage, usize)>)
    requires
        pos <= end <= b@.len(),
    ensures
        match r {
            Some(p) => spec_packet(b@, pos as int, end as int) matches Some(q) && q.0 == p.0@
                && q.1 == p.1 as int && pos <= p.1 <= end,
            None => spec_packet(b@, pos as int, end as int) is None,
        },
    decreases end - pos, 2int,
{
    let (addr, p1) = match read_osc_string(b, pos, end) {
        Some(p) => p,
        None => {
            return None;
        },
    };
    if addr.len() > 0 && addr[0] == ADDR_SLASH {
        read_message(b, addr, p1, end)
    } else if is_bundle_tag(&addr) {
        if end - p1 < 8 {
            return None;
        }
        let content = match read_elems(b, p1 + 8, end) {
            Some(v) => v,
            None => {
                return None;
            },
        };
        if content.len() == 0 {
            return None;
        }
        Some((DecodedMessage::Bundle { content }, end))
    } else {
        None
    }
}

fn read_elems(b: &Vec<u8>, pos: usize, end: usize) -> (r: Option<Vec<DecodedMessage>>)
    requires
        pos <= end <= b@.len(),
    ensures
        match r {
            Some(v) => spec_elems(b@, pos as int, end as int) matches Some(s) && s
                == msgs_view_of(v@),
            None => spec_elems(b@, pos as int, end as int) is None,
        },
    decreases end - pos, 0int,
{
    if pos == end {
        let empty: Vec<DecodedMessage> = Vec::new();
        assert(msgs_view_of(empty@) =~= Seq::<MessageView>::empty());
        return Some(empty);
    }
    if end - pos < 4 {
        return None;
    }
    let n: usize = read_be_u32(b, pos, end) as usize;
    if n > end - (pos + 4) {
        return None;
    }
    let elem_end: usize = pos + 4 + n;
    let m: DecodedMessage = match read_packet(b, pos + 4, elem_end) {
        Some(p) => p.0,
        None => {
            return None;
        },
    };
    let rest = match read_elems(b, elem_end, end) {
        Some(v) => v,
        None => {
            return None;
        },
    };
    let ghost rest_view = rest@;
    let mut content = rest;
    content.insert(0, m);
    proof {
        assert(content@ =~= seq![m] + rest_view);
        lemma_msgs_view_cons(m, rest_view);
    }
    Some(content)
}

/// How the model of a sequence of packets acts on a prepended element.
proof fn lemma_msgs_view_cons(m: DecodedMessage, s: Seq<DecodedMessage>)
    ensures
        msgs_view_of(seq![m] + s) == seq![msg_view_of(m)] + msgs_view_of(s),
{
    let t = seq![m] + s;
    assert(t[0] == m);
    assert(t.subrange(1, t.len() as int) =~= s);
}

impl TypedValue {
    /// A copy of this value, equal to it in the model.
    pub fn duplicate(&self) -> (r: TypedValue)
        ensures
            r@ == self@,
    {
        match self {
            TypedValue::Int32(i) => TypedValue::Int32(*i),
            TypedValue::Float32Bits(w) => TypedValue::Float32Bits(*w),
            TypedValue::Str(s) => TypedValue::Str(s.clone()),
            TypedValue::Blob(d) => TypedValue::Blob(d.clone()),
        }
    }
}

/// One key/value property taken from a message's argument list.
#[derive(Debug)]
pub struct Property {
    pub key: String,
    pub value: TypedValue,
}

impl View for Property {
    type V = (Seq<char>, ValueView);

    open spec fn view(&self) -> (Seq<char>, ValueView) {
        (self.key@, self.value@)
    }
}

/// The models of a sequence of properties, element-wise.
pub open spec fn props_view(s: Seq<Property>) -> Seq<(Seq<char>, ValueView)> {
    Seq::new(s.len(), |i: int| s[i]@)
}

/// The properties of an argument list from index `i` on (with `i` even):
/// each even position is a key and the next position its value; a pair
/// joins the result exactly when the key is a string and not empty and the
/// value position exists. Nothing else — a value under a malformed or
/// missing key, or a dangling key at the end — is kept, and no pair ever
/// fails the whole walk.
pub open spec fn spec_properties(args: Seq<ValueView>, i: int) -> Seq<(Seq<char>, ValueView)>
    decreases args.len() - i,
{
    if i < 0 || args.len() - i < 2 {
        Seq::empty()
    } else {
        let rest = spec_properties(args, i + 2);
        if args[i] is Str && args[i]->Str_0.len() > 0 {
            seq![(args[i]->Str_0, args[i + 1])] + rest
        } else {
            rest
        }
    }
}

/// Walks an argument list pairwise and keeps the well-formed key/value
/// pairs, in order; malformed pairs are dropped one by one and never fail
/// the call.
#[verifier::loop_isolation(false)]
pub fn parse_properties(args: &Vec<TypedValue>) -> (r: Vec<Property>)
    ensures
        props_view(r@) == spec_properties(vals_view(args@), 0),
{
    let ghost vals = vals_view(args@);
    let mut out: Vec<Property> = Vec::new();
    let mut i: usize = 0;
    assert(props_view(out@) =~= Seq::<(Seq<char>, ValueView)>::empty());
    while i + 1 < args.len()
        invariant
            i % 2 == 0,
            i <= args@.len() + 1,
            spec_properties(vals, 0) == props_view(out@) + spec_properties(vals, i as int),
        decreases args@.len() - i,
    {
        match &args[i] {
            TypedValue::Str(k) => {
                if k.as_str().unicode_len() > 0 {
                    let ghost prev = out@;
                    out.push(Property { key: k.clone(), value: args[i + 1].duplicate() });
                    proof {
                        assert(vals[i as int] matches ValueView::Str(kk) && kk == k@);
                        assert(props_view(out@) =~= props_view(prev) + seq![(k@, vals[i + 1])]);
                    }
                } else {
                    assert(vals[i as int] matches ValueView::Str(kk) && kk.len() == 0);
                }
            },
            _ => {
                assert(!(vals[i as int] matches ValueView::Str(k) && k.len() > 0));
            },
        }
        i = i + 2;
    }
    assert(spec_properties(vals, i as int) =~= Seq::<(Seq<char>, ValueView)>::empty());
    assert(props_view(out@) =~= props_view(out@) + Seq::<(Seq<char>, ValueView)>::empty());
    out
}

/// The value under `key`, with the last occurrence winning, as repeated
/// map insertion would leave it.
pub open spec fn spec_lookup(props: Seq<(Seq<char>, ValueView)>, key: Seq<char>) -> Option<
    ValueView,
>
    decreases props.len(),
{
    if props.len() == 0 {
        None
    } else if props[props.len() - 1].0 == key {
        Some(props[props.len() - 1].1)
    } else {
        spec_lookup(props.drop_last(), key)
    }
}

/// Looks a key up in a property list; of equal keys the last wins, as it
/// would after repeated insertion into a map.
#[verifier::loop_isolation(false)]
pub fn get_property<'a>(props: &'a Vec<Property>, key: &str) -> (r: Option<&'a TypedValue>)
    ensures
        match r {
            Some(v) => spec_lookup(props_view(props@), key@) == Some(v@),
            None => spec_lookup(props_view(props@), key@) is None,
        },
{
    let key_string: String = String::from_str(key);
    let mut i: usize = props.len();
    assert(props_view(props@).take(props@.len() as int) =~= props_view(props@));
    while i > 0
        invariant
            i <= props@.len(),
            spec_lookup(props_view(props@), key@) == spec_lookup(
                props_view(props@).take(i as int),
                key@,
            ),
        decreases i,
    {
        i = i - 1;
        let ghost taken = props_view(props@).take(i + 1);
        assert(taken.drop_last() =~= props_view(props@).take(i as int));
        assert(taken[taken.len() - 1] == props@[i as int]@);
        if props[i].key == key_string {
            return Some(&props[i].value);
        }
    }
    assert(props_view(props@).take(0) =~= Seq::<(Seq<char>, ValueView)>::empty());
    None
}

/// Every property that `spec_properties` keeps comes from a well-formed
/// pair in the argument list: a non-empty string key at an even position,
/// immediately followed by its value. Malformed pairs never appear in the
/// result, and the walk never fails.
pub proof fn lemma_properties_from_pairs(args: Seq<ValueView>, i: int, j: int)
    requires
        0 <= i,
        i % 2 == 0,
        0 <= j < spec_properties(args, i).len(),
    ensures
        ({
            let p = spec_properties(args, i)[j];
            exists|idx: int|
                i <= idx && idx % 2 == 0 && idx + 1 < args.len() && #[trigger] args[idx]
                    == ValueView::Str(p.0) && p.0.len() > 0 && args[idx + 1] == p.1
        }),
    decreases args.len() - i,
{
    if args.len() - i < 2 {
        assert(false);
    } else {
        let p = spec_properties(args, i)[j];
        if args[i] is Str && args[i]->Str_0.len() > 0 {
            if j == 0 {
                assert(i <= i && i % 2 == 0 && i + 1 < args.len() && args[i] == ValueView::Str(
                    p.0,
                ) && p.0.len() > 0 && args[i + 1] == p.1);
            } else {
                lemma_properties_from_pairs(args, i + 2, j - 1);
            }
        } else {
            lemma_properties_from_pairs(args, i + 2, j);
        }
    }
}

/// A decode failure: the datagram is not a well-formed packet of the
/// supported protocol subset.
#[derive(Clone, Copy, PartialEq, Eq, Structural, Debug)]
pub enum DecodeError {
    Malformed,
}

/// Decodes one packet from the front of a datagram. Truncated or malformed
/// packets, unsupported argument tags, non-seven-bit text, and bundles
/// without elements are all rejected with an error rather than a panic.
pub fn decode(buf: &Vec<u8>) -> (r: Result<DecodedMessage, DecodeError>)
    ensures
        match r {
            Ok(m) => spec_decode(buf@) == Some(m@),
            Err(e) => spec_decode(buf@) is None && e == DecodeError::Malformed,
        },
{
    match read_packet(buf, 0, buf.len()) {
        Some(p) => Ok(p.0),
        None => Err(DecodeError::Malformed),
    }
}

/// How `msg_view_of` acts on each element of a sequence of packets.
pub proof fn lemma_msgs_view_index(s: Seq<DecodedMessage>)
    ensures
        msgs_view_of(s).len() == s.len(),
        forall|i: int| 0 <= i < s.len() ==> msgs_view_of(s)[i] == msg_view_of(s[i]),
    decreases s.len(),
{
    if s.len() > 0 {
        lemma_msgs_view_index(s.subrange(1, s.len() as int));
    }
}

} // verus!

