//! The versioned binary format of app images ("MBC1").
//!
//! An image is a 14-byte header (magic, version, payload length, CRC-32 of
//! the payload) and a payload of four sections (constants, states,
//! functions, UI), each a tag byte, a little-endian `u32` length and the
//! section body. Every count and length in the format is a little-endian
//! `u32`. `decode` accepts exactly what `decode_result` describes and then
//! validates the image; `encode` validates and writes `image_bytes`.
use vstd::prelude::*;
use vstd::string::StringExecFns;
use vstd::utf8::{decode_utf8, encode_utf8, valid_utf8};
use crate::text::{debug_text, decimal, push_decimal, quoted};
use crate::ir::{
    AppImage, BindingId, Constant, ConstantModel, FontFamily, FontWeight, Function, FunctionId, FunctionKind,
    FunctionModel, HandlerId, ImageModel, Instruction, NodeId, NodeModel, ScalarType, StateDecl, StateId,
    TextSource, TextStyle, UiKind, UiNodeSpec, ValueSource, LayoutSpec, AnchorSpec,
};

verus! {

/// The format version written and accepted.
pub const VERSION: u16 = 15;

/// The header: magic (4), version (2), payload length (4), checksum (4).
pub const HEADER_LEN: usize = 14;

#[derive(Debug, Clone, PartialEq, Eq)]
pub enum EncodeError {
    InvalidImage(String),
    TooLarge,
}

#[derive(Debug, Clone, PartialEq, Eq)]
pub enum DecodeError {
    Truncated,
    BadMagic,
    UnsupportedVersion(u16),
    LengthMismatch,
    ChecksumMismatch,
    InvalidTag { section: &'static str, tag: u8 },
    InvalidUtf8,
    InvalidImage(String),
    TrailingBytes,
}

/// A decoding error as a value.
pub enum DecodeFault {
    Truncated,
    BadMagic,
    UnsupportedVersion(u16),
    LengthMismatch,
    ChecksumMismatch,
    InvalidTag(Seq<char>, u8),
    InvalidUtf8,
    InvalidImage(Seq<char>),
    TrailingBytes,
}

impl View for DecodeError {
    type V = DecodeFault;

    open spec fn view(&self) -> DecodeFault {
        match self {
            DecodeError::Truncated => DecodeFault::Truncated,
            DecodeError::BadMagic => DecodeFault::BadMagic,
            DecodeError::UnsupportedVersion(v) => DecodeFault::UnsupportedVersion(*v),
            DecodeError::LengthMismatch => DecodeFault::LengthMismatch,
            DecodeError::ChecksumMismatch => DecodeFault::ChecksumMismatch,
            DecodeError::InvalidTag { section, tag } => DecodeFault::InvalidTag(section@, *tag),
            DecodeError::InvalidUtf8 => DecodeFault::InvalidUtf8,
            DecodeError::InvalidImage(message) => DecodeFault::InvalidImage(message@),
            DecodeError::TrailingBytes => DecodeFault::TrailingBytes,
        }
    }
}

/// A decoding error as its `Debug` notation writes it, which is also how it
/// is displayed: `UnsupportedVersion(14)`,
/// `InvalidTag { section: "ui kind", tag: 99 }`.
pub open spec fn decode_fault_text(fault: DecodeFault) -> Seq<char> {
    match fault {
        DecodeFault::Truncated => "Truncated"@,
        DecodeFault::BadMagic => "BadMagic"@,
        DecodeFault::UnsupportedVersion(v) => "UnsupportedVersion("@ + decimal(v as nat) + ")"@,
        DecodeFault::LengthMismatch => "LengthMismatch"@,
        DecodeFault::ChecksumMismatch => "ChecksumMismatch"@,
        DecodeFault::InvalidTag(section, tag) => "InvalidTag { section: "@ + debug_text(section) + ", tag: "@
            + decimal(tag as nat) + " }"@,
        DecodeFault::InvalidUtf8 => "InvalidUtf8"@,
        DecodeFault::InvalidImage(message) => "InvalidImage("@ + debug_text(message) + ")"@,
        DecodeFault::TrailingBytes => "TrailingBytes"@,
    }
}

impl DecodeError {
    /// The error in its `Debug` notation.
    pub fn to_string(&self) -> (text: String)
        ensures
            text@ == decode_fault_text(self@),
    {
        match self {
            DecodeError::Truncated => String::from_str("Truncated"),
            DecodeError::BadMagic => String::from_str("BadMagic"),
            DecodeError::UnsupportedVersion(v) => {
                let mut text = String::from_str("UnsupportedVersion(");
                push_decimal(&mut text, *v as u64);
                text.append(")");
                text
            },
            DecodeError::LengthMismatch => String::from_str("LengthMismatch"),
            DecodeError::ChecksumMismatch => String::from_str("ChecksumMismatch"),
            DecodeError::InvalidTag { section, tag } => {
                let mut text = String::from_str("InvalidTag { section: ");
                text.append(quoted(section).as_str());
                text.append(", tag: ");
                push_decimal(&mut text, *tag as u64);
                text.append(" }");
                text
            },
            DecodeError::InvalidUtf8 => String::from_str("InvalidUtf8"),
            DecodeError::InvalidImage(message) => {
                let mut text = String::from_str("InvalidImage(");
                text.append(quoted(message.as_str()).as_str());
                text.append(")");
                text
            },
            DecodeError::TrailingBytes => String::from_str("TrailingBytes"),
        }
    }
}

impl EncodeError {
    /// The error in its `Debug` notation: `InvalidImage("...")` or `TooLarge`.
    pub fn to_string(&self) -> (text: String)
        ensures
            text@ == match self {
                EncodeError::InvalidImage(message) => "InvalidImage("@ + debug_text(message@) + ")"@,
                EncodeError::TooLarge => "TooLarge"@,
            },
    {
        match self {
            EncodeError::InvalidImage(message) => {
                let mut text = String::from_str("InvalidImage(");
                text.append(quoted(message.as_str()).as_str());
                text.append(")");
                text
            },
            EncodeError::TooLarge => String::from_str("TooLarge"),
        }
    }
}

// ---------------------------------------------------------------------
// Little-endian integers

pub open spec fn le16(v: u16) -> Seq<u8> {
    seq![(v & 0xff) as u8, ((v >> 8u16) & 0xff) as u8]
}

pub open spec fn le32(v: u32) -> Seq<u8> {
    seq![(v & 0xff) as u8, ((v >> 8u32) & 0xff) as u8, ((v >> 16u32) & 0xff) as u8, ((v >> 24u32) & 0xff) as u8]
}

pub open spec fn le64(v: u64) -> Seq<u8> {
    le32((v & 0xffff_ffff) as u32) + le32((v >> 32u64) as u32)
}

pub open spec fn u16_from(b0: u8, b1: u8) -> u16 {
    (b0 as u16) | ((b1 as u16) << 8u16)
}

pub open spec fn u32_from(b0: u8, b1: u8, b2: u8, b3: u8) -> u32 {
    (b0 as u32) | ((b1 as u32) << 8u32) | ((b2 as u32) << 16u32) | ((b3 as u32) << 24u32)
}

pub open spec fn u64_from(low: u32, high: u32) -> u64 {
    (low as u64) | ((high as u64) << 32u64)
}

proof fn lemma_le16(v: u16)
    ensures
        u16_from(le16(v)[0], le16(v)[1]) == v,
{
    let b0 = (v & 0xff) as u8;
    let b1 = ((v >> 8u16) & 0xff) as u8;
    assert((b0 as u16) | ((b1 as u16) << 8u16) == v) by (bit_vector)
        requires
            b0 == (v & 0xff) as u8,
            b1 == ((v >> 8u16) & 0xff) as u8,
    ;
}

proof fn lemma_le32(v: u32)
    ensures
        u32_from(le32(v)[0], le32(v)[1], le32(v)[2], le32(v)[3]) == v,
{
    let b0 = (v & 0xff) as u8;
    let b1 = ((v >> 8u32) & 0xff) as u8;
    let b2 = ((v >> 16u32) & 0xff) as u8;
    let b3 = ((v >> 24u32) & 0xff) as u8;
    assert((b0 as u32) | ((b1 as u32) << 8u32) | ((b2 as u32) << 16u32) | ((b3 as u32) << 24u32) == v)
        by (bit_vector)
        requires
            b0 == (v & 0xff) as u8,
            b1 == ((v >> 8u32) & 0xff) as u8,
            b2 == ((v >> 16u32) & 0xff) as u8,
            b3 == ((v >> 24u32) & 0xff) as u8,
    ;
}

proof fn lemma_le64(v: u64)
    ensures
        u64_from((v & 0xffff_ffff) as u32, (v >> 32u64) as u32) == v,
{
    let low = (v & 0xffff_ffff) as u32;
    let high = (v >> 32u64) as u32;
    assert((low as u64) | ((high as u64) << 32u64) == v) by (bit_vector)
        requires
            low == (v & 0xffff_ffff) as u32,
            high == (v >> 32u64) as u32,
    ;
}

fn put_u8(out: &mut Vec<u8>, v: u8)
    ensures
        final(out)@ == old(out)@ + seq![v],
{
    out.push(v);
}

fn put_u16(out: &mut Vec<u8>, v: u16)
    ensures
        final(out)@ == old(out)@ + le16(v),
{
    out.push((v & 0xff) as u8);
    out.push(((v >> 8u16) & 0xff) as u8);
    assert(out@ =~= old(out)@ + le16(v));
}

fn put_u32(out: &mut Vec<u8>, v: u32)
    ensures
        final(out)@ == old(out)@ + le32(v),
{
    out.push((v & 0xff) as u8);
    out.push(((v >> 8u32) & 0xff) as u8);
    out.push(((v >> 16u32) & 0xff) as u8);
    out.push(((v >> 24u32) & 0xff) as u8);
    assert(out@ =~= old(out)@ + le32(v));
}

fn put_u64(out: &mut Vec<u8>, v: u64)
    ensures
        final(out)@ == old(out)@ + le64(v),
{
    put_u32(out, (v & 0xffff_ffff) as u32);
    put_u32(out, (v >> 32u64) as u32);
    assert(out@ =~= old(out)@ + le64(v));
}

// ---------------------------------------------------------------------
// CRC-32 (IEEE, reflected polynomial 0xEDB88320)

pub open spec fn crc_shift(crc: u32) -> u32 {
    if crc & 1 == 1 {
        (crc >> 1u32) ^ 0xedb8_8320u32
    } else {
        crc >> 1u32
    }
}

pub open spec fn crc_shifts(crc: u32, n: nat) -> u32
    decreases n,
{
    if n == 0 {
        crc
    } else {
        crc_shift(crc_shifts(crc, (n - 1) as nat))
    }
}

pub open spec fn crc_fold(crc: u32, bytes: Seq<u8>) -> u32
    decreases bytes.len(),
{
    if bytes.len() == 0 {
        crc
    } else {
        crc_shifts(crc_fold(crc, bytes.drop_last()) ^ (bytes.last() as u32), 8)
    }
}

/// The CRC-32 of `bytes`.
pub open spec fn crc32(bytes: Seq<u8>) -> u32 {
    !crc_fold(0xffff_ffffu32, bytes)
}

proof fn lemma_crc_shift_injective(a: u32, b: u32)
    ensures
        crc_shift(a) == crc_shift(b) ==> a == b,
{
    assert((if a & 1 == 1 { (a >> 1u32) ^ 0xedb8_8320u32 } else { a >> 1u32 }) == (if b & 1 == 1 {
        (b >> 1u32) ^ 0xedb8_8320u32
    } else {
        b >> 1u32
    }) ==> a == b) by (bit_vector);
}

proof fn lemma_crc_shifts_injective(a: u32, b: u32, n: nat)
    ensures
        crc_shifts(a, n) == crc_shifts(b, n) ==> a == b,
    decreases n,
{
    if n > 0 {
        lemma_crc_shift_injective(crc_shifts(a, (n - 1) as nat), crc_shifts(b, (n - 1) as nat));
        lemma_crc_shifts_injective(a, b, (n - 1) as nat);
    }
}

/// Two byte strings that differ in exactly one position keep different
/// CRC states from that position on.
proof fn lemma_crc_fold_differs(c: u32, p: Seq<u8>, q: Seq<u8>, j: int, k: int)
    requires
        p.len() == q.len(),
        0 <= j < k <= p.len(),
        p[j] != q[j],
        forall|i: int| 0 <= i < p.len() && i != j ==> p[i] == q[i],
    ensures
        crc_fold(c, p.take(k)) != crc_fold(c, q.take(k)),
    decreases k,
{
    let pk = p.take(k);
    let qk = q.take(k);
    assert(pk.drop_last() =~= p.take(k - 1));
    assert(qk.drop_last() =~= q.take(k - 1));
    let fp = crc_fold(c, p.take(k - 1));
    let fq = crc_fold(c, q.take(k - 1));
    if k - 1 == j {
        assert(p.take(j) =~= q.take(j));
        let x = fp ^ (p[j] as u32);
        let y = fq ^ (q[j] as u32);
        let pj = p[j];
        let qj = q[j];
        assert(fp == fq ==> (fp ^ (pj as u32)) != (fq ^ (qj as u32))) by (bit_vector)
            requires
                pj != qj,
        ;
        lemma_crc_shifts_injective(x, y, 8);
    } else {
        lemma_crc_fold_differs(c, p, q, j, k - 1);
        let b = p[k - 1];
        assert(q[k - 1] == b);
        assert(fp != fq ==> (fp ^ (b as u32)) != (fq ^ (b as u32))) by (bit_vector);
        lemma_crc_shifts_injective(fp ^ (b as u32), fq ^ (b as u32), 8);
    }
}

/// Changing one byte changes the CRC-32.
pub proof fn lemma_crc32_detects_one_byte(p: Seq<u8>, j: int, v: u8)
    requires
        0 <= j < p.len(),
        v != p[j],
    ensures
        crc32(p.update(j, v)) != crc32(p),
{
    let q = p.update(j, v);
    lemma_crc_fold_differs(0xffff_ffffu32, p, q, j, p.len() as int);
    assert(p.take(p.len() as int) =~= p);
    assert(q.take(q.len() as int) =~= q);
    let a = crc_fold(0xffff_ffffu32, p);
    let b = crc_fold(0xffff_ffffu32, q);
    assert(a != b ==> !a != !b) by (bit_vector);
}

fn checksum(bytes: &[u8]) -> (crc: u32)
    ensures
        crc == crc32(bytes@),
{
    let mut crc: u32 = 0xffff_ffff;
    let mut i: usize = 0;
    while i < bytes.len()
        invariant
            i <= bytes@.len(),
            crc == crc_fold(0xffff_ffffu32, bytes@.take(i as int)),
        decreases bytes@.len() - i,
    {
        assert(bytes@.take(i + 1).drop_last() =~= bytes@.take(i as int));
        crc = crc ^ (bytes[i] as u32);
        let ghost start = crc;
        let mut k: usize = 0;
        while k < 8
            invariant
                k <= 8,
                crc == crc_shifts(start, k as nat),
            decreases 8 - k,
        {
            crc = if crc & 1 == 1 {
                (crc >> 1u32) ^ 0xedb8_8320u32
            } else {
                crc >> 1u32
            };
            k = k + 1;
        }
        i = i + 1;
    }
    assert(bytes@.take(bytes@.len() as int) =~= bytes@);
    !crc
}


// ---------------------------------------------------------------------
// The format, as the bytes of an image

/// The concatenation of `parts`.
pub open spec fn flat(parts: Seq<Seq<u8>>) -> Seq<u8>
    decreases parts.len(),
{
    if parts.len() == 0 {
        Seq::empty()
    } else {
        parts[0] + flat(parts.drop_first())
    }
}

proof fn lemma_flat_push(parts: Seq<Seq<u8>>, part: Seq<u8>)
    ensures
        flat(parts.push(part)) == flat(parts) + part,
    decreases parts.len(),
{
    if parts.len() == 0 {
        let single = parts.push(part);
        assert(single.drop_first() =~= Seq::<Seq<u8>>::empty());
        assert(flat(single.drop_first()) == Seq::<u8>::empty());
        assert(single[0] == part);
        assert(flat(single) == single[0] + flat(single.drop_first()));
        assert(flat(single) =~= part);
    } else {
        assert(parts.push(part).drop_first() =~= parts.drop_first().push(part));
        lemma_flat_push(parts.drop_first(), part);
        assert(flat(parts.push(part)) =~= flat(parts) + part);
    }
}

pub open spec fn scalar_tag(ty: ScalarType) -> u8 {
    match ty {
        ScalarType::Number => 0,
        ScalarType::String => 1,
        ScalarType::Bool => 2,
        ScalarType::Null => 3,
    }
}

pub open spec fn constant_bytes(constant: ConstantModel) -> Seq<u8> {
    match constant {
        ConstantModel::Number(bits) => seq![0u8] + le64(bits),
        ConstantModel::Text(text) => seq![1u8] + le32(encode_utf8(text).len() as u32) + encode_utf8(text),
        ConstantModel::Bool(b) => seq![2u8, if b { 1u8 } else { 0u8 }],
        ConstantModel::Null => seq![3u8],
    }
}

pub open spec fn constants_bytes(constants: Seq<ConstantModel>) -> Seq<u8> {
    le32(constants.len() as u32) + flat(constants.map_values(|c: ConstantModel| constant_bytes(c)))
}

pub open spec fn state_bytes(state: StateDecl) -> Seq<u8> {
    seq![scalar_tag(state.ty)] + le32(state.initial)
}

pub open spec fn states_bytes(states: Seq<StateDecl>) -> Seq<u8> {
    le32(states.len() as u32) + flat(states.map_values(|s: StateDecl| state_bytes(s)))
}

pub open spec fn instruction_bytes(instruction: Instruction) -> Seq<u8> {
    match instruction {
        Instruction::Const(v) => seq![0u8] + le32(v),
        Instruction::LoadLocal(v) => seq![1u8] + le16(v),
        Instruction::StoreLocal(v) => seq![2u8] + le16(v),
        Instruction::LoadState(id) => seq![3u8] + le32(id.0),
        Instruction::StoreState(id) => seq![4u8] + le32(id.0),
        Instruction::Add => seq![5u8],
        Instruction::Sub => seq![6u8],
        Instruction::Mul => seq![7u8],
        Instruction::Div => seq![8u8],
        Instruction::Mod => seq![21u8],
        Instruction::Eq => seq![9u8],
        Instruction::Lt => seq![10u8],
        Instruction::Gt => seq![11u8],
        Instruction::Not => seq![12u8],
        Instruction::ToString => seq![13u8],
        Instruction::Concat => seq![14u8],
        Instruction::Pop => seq![15u8],
        Instruction::Dup => seq![16u8],
        Instruction::Jump(target) => seq![17u8] + le32(target),
        Instruction::JumpIfFalse(target) => seq![18u8] + le32(target),
        Instruction::Return => seq![19u8],
        Instruction::LoadArg => seq![20u8],
    }
}

pub open spec fn kind_bytes(kind: FunctionKind) -> Seq<u8> {
    match kind {
        FunctionKind::Init => seq![0u8] + le32(0),
        FunctionKind::Binding(id) => seq![1u8] + le32(id.0),
        FunctionKind::Handler(id) => seq![2u8] + le32(id.0),
    }
}

pub open spec fn code_bytes(code: Seq<Instruction>) -> Seq<u8> {
    flat(code.map_values(|i: Instruction| instruction_bytes(i)))
}

#[verifier::opaque]
pub open spec fn function_bytes(function: FunctionModel) -> Seq<u8> {
    kind_bytes(function.kind) + seq![function.arg_count] + le16(function.locals) + le16(function.max_stack) + le32(
        function.code.len() as u32,
    ) + code_bytes(function.code)
}

pub open spec fn functions_bytes(functions: Seq<FunctionModel>) -> Seq<u8> {
    le32(functions.len() as u32) + flat(functions.map_values(|f: FunctionModel| function_bytes(f)))
}

pub open spec fn ui_kind_tag(kind: UiKind) -> u8 {
    match kind {
        UiKind::Column => 0,
        UiKind::Text => 1,
        UiKind::Button => 2,
        UiKind::Row => 3,
        UiKind::Progress => 4,
        UiKind::Switch => 5,
        UiKind::Input => 6,
        UiKind::Slider => 7,
        UiKind::Checkbox => 8,
        UiKind::Dropdown => 9,
        UiKind::Roller => 10,
        UiKind::Led => 11,
        UiKind::Spinner => 12,
        UiKind::Scale => 13,
        UiKind::List => 14,
        UiKind::Tabview => 15,
    }
}

pub open spec fn text_bytes(text: Option<TextSource>) -> Seq<u8> {
    match text {
        None => seq![0u8] + le32(0),
        Some(TextSource::Constant(id)) => seq![1u8] + le32(id),
        Some(TextSource::Binding(id)) => seq![2u8] + le32(id.0),
    }
}

pub open spec fn value_bytes(value: Option<ValueSource>) -> Seq<u8> {
    match value {
        None => seq![0u8] + le32(0),
        Some(ValueSource::Constant(id)) => seq![1u8] + le32(id),
        Some(ValueSource::Binding(id)) => seq![2u8] + le32(id.0),
    }
}

pub open spec fn click_bytes(on_click: Option<FunctionId>) -> Seq<u8> {
    match on_click {
        None => seq![0u8] + le32(0),
        Some(id) => seq![1u8] + le32(id.0),
    }
}

pub open spec fn style_bytes(style: Option<TextStyle>) -> Seq<u8> {
    match style {
        None => seq![0u8],
        Some(style) => seq![1u8, 0u8, style.size_px, 0u8, style.line_height_px],
    }
}

pub open spec fn range_bytes(range: Option<(u64, u64)>) -> Seq<u8> {
    match range {
        None => seq![0u8],
        Some((min, max)) => seq![1u8] + le64(min) + le64(max),
    }
}

/// The option count, then each option's string constant.
pub open spec fn options_bytes(options: Seq<u32>) -> Seq<u8> {
    le32(options.len() as u32) + flat(options.map_values(|o: u32| le32(o)))
}

pub open spec fn opt64_bytes(v: Option<u64>) -> Seq<u8> {
    match v {
        None => Seq::empty(),
        Some(x) => le64(x),
    }
}

pub open spec fn flag_bit(present: bool, bit: u8) -> u8 {
    if present {
        bit
    } else {
        0u8
    }
}

/// Which layout values are present: bits 0 to 3 for left, top, width and
/// height, bits 4 to 7 for the left, top, right and bottom anchors.
#[verifier::opaque]
pub open spec fn layout_mask(l: LayoutSpec) -> u8 {
    flag_bit(l.left is Some, 1u8) | flag_bit(l.top is Some, 2u8) | flag_bit(l.width is Some, 4u8) | flag_bit(
        l.height is Some,
        8u8,
    ) | flag_bit(l.anchor.left is Some, 16u8) | flag_bit(l.anchor.top is Some, 32u8) | flag_bit(
        l.anchor.right is Some,
        64u8,
    ) | flag_bit(l.anchor.bottom is Some, 128u8)
}

/// The present values of a layout, in mask order.
pub open spec fn layout_values_bytes(l: LayoutSpec) -> Seq<u8> {
    opt64_bytes(l.left) + opt64_bytes(l.top) + opt64_bytes(l.width) + opt64_bytes(l.height) + opt64_bytes(
        l.anchor.left,
    ) + opt64_bytes(l.anchor.top) + opt64_bytes(l.anchor.right) + opt64_bytes(l.anchor.bottom)
}

/// A layout: absent (tag 0), or tag 1, the mask, and the present values
/// in mask order.
#[verifier::opaque]
pub open spec fn layout_bytes(layout: Option<LayoutSpec>) -> Seq<u8> {
    match layout {
        None => seq![0u8],
        Some(l) => seq![1u8, layout_mask(l)] + layout_values_bytes(l),
    }
}

pub open spec fn children_bytes(children: Seq<NodeId>) -> Seq<u8> {
    flat(children.map_values(|c: NodeId| le32(c.0)))
}

#[verifier::opaque]
pub open spec fn node_bytes(node: NodeModel) -> Seq<u8> {
    le32(node.id.0) + seq![ui_kind_tag(node.kind)] + le32(node.children.len() as u32) + children_bytes(
        node.children,
    ) + text_bytes(node.text) + value_bytes(node.value) + click_bytes(node.on_click) + style_bytes(node.text_style)
        + range_bytes(node.range) + options_bytes(node.options) + layout_bytes(node.layout)
}

pub open spec fn ui_bytes(nodes: Seq<NodeModel>, root: NodeId) -> Seq<u8> {
    le32(nodes.len() as u32) + flat(nodes.map_values(|n: NodeModel| node_bytes(n))) + le32(root.0)
}

pub open spec fn section_bytes(kind: u8, body: Seq<u8>) -> Seq<u8> {
    seq![kind] + le32(body.len() as u32) + body
}

pub open spec fn payload_bytes(image: ImageModel) -> Seq<u8> {
    section_bytes(1, constants_bytes(image.constants)) + section_bytes(2, states_bytes(image.states))
        + section_bytes(3, functions_bytes(image.functions)) + section_bytes(4, ui_bytes(image.nodes, image.root))
}

pub open spec fn magic() -> Seq<u8> {
    seq![0x4du8, 0x42u8, 0x43u8, 0x31u8]
}

/// The bytes of an image: the header, then the payload.
pub open spec fn image_bytes(image: ImageModel) -> Seq<u8> {
    let payload = payload_bytes(image);
    magic() + le16(VERSION) + le32(payload.len() as u32) + le32(crc32(payload)) + payload
}

pub open spec fn u32_fits(n: int) -> bool {
    0 <= n <= u32::MAX
}

pub open spec fn constants_fit(constants: Seq<ConstantModel>) -> bool {
    &&& u32_fits(constants.len() as int)
    &&& forall|i: int|
        0 <= i < constants.len() ==> match #[trigger] constants[i] {
            ConstantModel::Text(text) => u32_fits(encode_utf8(text).len() as int),
            _ => true,
        }
}

pub open spec fn functions_fit(functions: Seq<FunctionModel>) -> bool {
    &&& u32_fits(functions.len() as int)
    &&& forall|i: int| 0 <= i < functions.len() ==> u32_fits((#[trigger] functions[i]).code.len() as int)
}

pub open spec fn nodes_fit(nodes: Seq<NodeModel>) -> bool {
    &&& u32_fits(nodes.len() as int)
    &&& forall|i: int| 0 <= i < nodes.len() ==> u32_fits((#[trigger] nodes[i]).children.len() as int)
    &&& forall|i: int| 0 <= i < nodes.len() ==> u32_fits((#[trigger] nodes[i]).options.len() as int)
}

/// Every count and length the format writes as a `u32` fits in one.
pub open spec fn fits(image: ImageModel) -> bool {
    &&& constants_fit(image.constants)
    &&& u32_fits(image.states.len() as int)
    &&& functions_fit(image.functions)
    &&& nodes_fit(image.nodes)
    &&& u32_fits(constants_bytes(image.constants).len() as int)
    &&& u32_fits(states_bytes(image.states).len() as int)
    &&& u32_fits(functions_bytes(image.functions).len() as int)
    &&& u32_fits(ui_bytes(image.nodes, image.root).len() as int)
    &&& u32_fits(payload_bytes(image).len() as int)
}

// ---------------------------------------------------------------------
// Encoding

fn length_u32(n: usize) -> (r: Option<u32>)
    ensures
        match r {
            Some(v) => v == n && u32_fits(n as int),
            None => !u32_fits(n as int),
        },
{
    if n <= 0xffff_ffff {
        Some(n as u32)
    } else {
        None
    }
}

fn put_bytes(out: &mut Vec<u8>, bytes: &[u8])
    ensures
        final(out)@ == old(out)@ + bytes@,
{
    let mut i: usize = 0;
    while i < bytes.len()
        invariant
            i <= bytes@.len(),
            out@ == old(out)@ + bytes@.take(i as int),
        decreases bytes@.len() - i,
    {
        out.push(bytes[i]);
        assert(out@ =~= old(out)@ + bytes@.take(i + 1));
        i = i + 1;
    }
    assert(bytes@.take(bytes@.len() as int) =~= bytes@);
}

fn put_constant(out: &mut Vec<u8>, constant: &Constant) -> (r: Result<(), EncodeError>)
    ensures
        r is Ok <==> match constant@ {
            ConstantModel::Text(text) => u32_fits(encode_utf8(text).len() as int),
            _ => true,
        },
        r is Ok ==> final(out)@ == old(out)@ + constant_bytes(constant@),
        r matches Err(e) ==> e is TooLarge,
{
    match constant {
        Constant::Number(bits) => {
            put_u8(out, 0);
            put_u64(out, *bits);
        },
        Constant::String(text) => {
            let bytes = text.as_str().as_bytes();
            let length = match length_u32(bytes.len()) {
                Some(length) => length,
                None => return Err(EncodeError::TooLarge),
            };
            put_u8(out, 1);
            put_u32(out, length);
            put_bytes(out, bytes);
        },
        Constant::Bool(b) => {
            put_u8(out, 2);
            put_u8(out, if *b { 1 } else { 0 });
        },
        Constant::Null => put_u8(out, 3),
    }
    assert(out@ =~= old(out)@ + constant_bytes(constant@));
    Ok(())
}

fn encode_constants(constants: &Vec<Constant>) -> (r: Result<Vec<u8>, EncodeError>)
    ensures
        r is Ok <==> constants_fit(constants@.map_values(|c: Constant| c@)),
        r matches Ok(bytes) ==> bytes@ == constants_bytes(constants@.map_values(|c: Constant| c@)),
        r matches Err(e) ==> e is TooLarge,
{
    let ghost model = constants@.map_values(|c: Constant| c@);
    let mut out: Vec<u8> = Vec::new();
    let count = match length_u32(constants.len()) {
        Some(count) => count,
        None => return Err(EncodeError::TooLarge),
    };
    put_u32(&mut out, count);
    let mut i: usize = 0;
    assert(model.take(0).map_values(|c: ConstantModel| constant_bytes(c)) =~= Seq::<Seq<u8>>::empty());
    while i < constants.len()
        invariant
            model == constants@.map_values(|c: Constant| c@),
            i <= constants@.len(),
            count == constants@.len(),
            out@ == le32(count) + flat(model.take(i as int).map_values(|c: ConstantModel| constant_bytes(c))),
            forall|j: int|
                0 <= j < i ==> match #[trigger] model[j] {
                    ConstantModel::Text(text) => u32_fits(encode_utf8(text).len() as int),
                    _ => true,
                },
        decreases constants@.len() - i,
    {
        let ghost before = out@;
        let r = put_constant(&mut out, &constants[i]);
        if r.is_err() {
            assert(!constants_fit(model)) by {
                assert(model[i as int] == constants@[i as int]@);
            }
            return Err(EncodeError::TooLarge);
        }
        proof {
            assert(model[i as int] == constants@[i as int]@);
            assert(model.take(i + 1).map_values(|c: ConstantModel| constant_bytes(c)) =~= model.take(
                i as int,
            ).map_values(|c: ConstantModel| constant_bytes(c)).push(constant_bytes(model[i as int])));
            lemma_flat_push(
                model.take(i as int).map_values(|c: ConstantModel| constant_bytes(c)),
                constant_bytes(model[i as int]),
            );
        }
        i = i + 1;
    }
    assert(model.take(constants@.len() as int) =~= model);
    Ok(out)
}

fn put_scalar(out: &mut Vec<u8>, ty: ScalarType)
    ensures
        final(out)@ == old(out)@ + seq![scalar_tag(ty)],
{
    put_u8(
        out,
        match ty {
            ScalarType::Number => 0,
            ScalarType::String => 1,
            ScalarType::Bool => 2,
            ScalarType::Null => 3,
        },
    );
}

fn encode_states(states: &Vec<StateDecl>) -> (r: Result<Vec<u8>, EncodeError>)
    ensures
        r is Ok <==> u32_fits(states@.len() as int),
        r matches Ok(bytes) ==> bytes@ == states_bytes(states@),
        r matches Err(e) ==> e is TooLarge,
{
    let mut out: Vec<u8> = Vec::new();
    let count = match length_u32(states.len()) {
        Some(count) => count,
        None => return Err(EncodeError::TooLarge),
    };
    put_u32(&mut out, count);
    let mut i: usize = 0;
    assert(states@.take(0).map_values(|s: StateDecl| state_bytes(s)) =~= Seq::<Seq<u8>>::empty());
    while i < states.len()
        invariant
            i <= states@.len(),
            count == states@.len(),
            out@ == le32(count) + flat(states@.take(i as int).map_values(|s: StateDecl| state_bytes(s))),
        decreases states@.len() - i,
    {
        let state = states[i];
        put_scalar(&mut out, state.ty);
        put_u32(&mut out, state.initial);
        proof {
            assert(states@.take(i + 1).map_values(|s: StateDecl| state_bytes(s)) =~= states@.take(
                i as int,
            ).map_values(|s: StateDecl| state_bytes(s)).push(state_bytes(state)));
            lemma_flat_push(states@.take(i as int).map_values(|s: StateDecl| state_bytes(s)), state_bytes(state));
        }
        assert(out@ =~= le32(count) + flat(states@.take(i + 1).map_values(|s: StateDecl| state_bytes(s))));
        i = i + 1;
    }
    assert(states@.take(states@.len() as int) =~= states@);
    Ok(out)
}

fn put_instruction(out: &mut Vec<u8>, instruction: Instruction)
    ensures
        final(out)@ == old(out)@ + instruction_bytes(instruction),
{
    match instruction {
        Instruction::Const(v) => {
            put_u8(out, 0);
            put_u32(out, v);
        },
        Instruction::LoadLocal(v) => {
            put_u8(out, 1);
            put_u16(out, v);
        },
        Instruction::StoreLocal(v) => {
            put_u8(out, 2);
            put_u16(out, v);
        },
        Instruction::LoadState(id) => {
            put_u8(out, 3);
            put_u32(out, id.0);
        },
        Instruction::StoreState(id) => {
            put_u8(out, 4);
            put_u32(out, id.0);
        },
        Instruction::Add => put_u8(out, 5),
        Instruction::Sub => put_u8(out, 6),
        Instruction::Mul => put_u8(out, 7),
        Instruction::Div => put_u8(out, 8),
        Instruction::Mod => put_u8(out, 21),
        Instruction::Eq => put_u8(out, 9),
        Instruction::Lt => put_u8(out, 10),
        Instruction::Gt => put_u8(out, 11),
        Instruction::Not => put_u8(out, 12),
        Instruction::ToString => put_u8(out, 13),
        Instruction::Concat => put_u8(out, 14),
        Instruction::Pop => put_u8(out, 15),
        Instruction::Dup => put_u8(out, 16),
        Instruction::Jump(target) => {
            put_u8(out, 17);
            put_u32(out, target);
        },
        Instruction::JumpIfFalse(target) => {
            put_u8(out, 18);
            put_u32(out, target);
        },
        Instruction::Return => put_u8(out, 19),
        Instruction::LoadArg => put_u8(out, 20),
    }
    assert(out@ =~= old(out)@ + instruction_bytes(instruction));
}

fn put_function(out: &mut Vec<u8>, function: &Function) -> (r: Result<(), EncodeError>)
    ensures
        r is Ok <==> u32_fits(function.code@.len() as int),
        r is Ok ==> final(out)@ == old(out)@ + function_bytes(function@),
        r matches Err(e) ==> e is TooLarge,
{
    let count = match length_u32(function.code.len()) {
        Some(count) => count,
        None => return Err(EncodeError::TooLarge),
    };
    match function.kind {
        FunctionKind::Init => {
            put_u8(out, 0);
            put_u32(out, 0);
        },
        FunctionKind::Binding(id) => {
            put_u8(out, 1);
            put_u32(out, id.0);
        },
        FunctionKind::Handler(id) => {
            put_u8(out, 2);
            put_u32(out, id.0);
        },
    }
    put_u8(out, function.arg_count);
    put_u16(out, function.locals);
    put_u16(out, function.max_stack);
    put_u32(out, count);
    let ghost start = out@;
    let ghost code = function.code@;
    let mut i: usize = 0;
    assert(code.take(0).map_values(|x: Instruction| instruction_bytes(x)) =~= Seq::<Seq<u8>>::empty());
    while i < function.code.len()
        invariant
            code == function.code@,
            i <= code.len(),
            out@ == start + flat(code.take(i as int).map_values(|x: Instruction| instruction_bytes(x))),
        decreases code.len() - i,
    {
        let instruction = function.code[i];
        put_instruction(out, instruction);
        proof {
            assert(code.take(i + 1).map_values(|x: Instruction| instruction_bytes(x)) =~= code.take(
                i as int,
            ).map_values(|x: Instruction| instruction_bytes(x)).push(instruction_bytes(instruction)));
            lemma_flat_push(code.take(i as int).map_values(|x: Instruction| instruction_bytes(x)), instruction_bytes(instruction));
        }
        assert(out@ =~= start + flat(code.take(i + 1).map_values(|x: Instruction| instruction_bytes(x))));
        i = i + 1;
    }
    assert(code.take(code.len() as int) =~= code);
    proof {
        reveal(function_bytes);
    }
    assert(out@ =~= old(out)@ + function_bytes(function@));
    Ok(())
}

fn encode_functions(functions: &Vec<Function>) -> (r: Result<Vec<u8>, EncodeError>)
    ensures
        r is Ok <==> functions_fit(functions@.map_values(|f: Function| f@)),
        r matches Ok(bytes) ==> bytes@ == functions_bytes(functions@.map_values(|f: Function| f@)),
        r matches Err(e) ==> e is TooLarge,
{
    let ghost model = functions@.map_values(|f: Function| f@);
    let mut out: Vec<u8> = Vec::new();
    let count = match length_u32(functions.len()) {
        Some(count) => count,
        None => return Err(EncodeError::TooLarge),
    };
    put_u32(&mut out, count);
    let mut i: usize = 0;
    assert(model.take(0).map_values(|f: FunctionModel| function_bytes(f)) =~= Seq::<Seq<u8>>::empty());
    while i < functions.len()
        invariant
            model == functions@.map_values(|f: Function| f@),
            i <= functions@.len(),
            count == functions@.len(),
            out@ == le32(count) + flat(model.take(i as int).map_values(|f: FunctionModel| function_bytes(f))),
            forall|j: int| 0 <= j < i ==> u32_fits((#[trigger] model[j]).code.len() as int),
        decreases functions@.len() - i,
    {
        let r = put_function(&mut out, &functions[i]);
        assert(model[i as int] == functions@[i as int]@);
        if r.is_err() {
            return Err(EncodeError::TooLarge);
        }
        proof {
            assert(model.take(i + 1).map_values(|f: FunctionModel| function_bytes(f)) =~= model.take(
                i as int,
            ).map_values(|f: FunctionModel| function_bytes(f)).push(function_bytes(model[i as int])));
            lemma_flat_push(
                model.take(i as int).map_values(|f: FunctionModel| function_bytes(f)),
                function_bytes(model[i as int]),
            );
        }
        i = i + 1;
    }
    assert(model.take(functions@.len() as int) =~= model);
    Ok(out)
}

fn put_reference(out: &mut Vec<u8>, tag: u8, id: u32)
    ensures
        final(out)@ == old(out)@ + (seq![tag] + le32(id)),
{
    put_u8(out, tag);
    put_u32(out, id);
    assert(out@ =~= old(out)@ + (seq![tag] + le32(id)));
}

fn put_children(out: &mut Vec<u8>, children: &Vec<NodeId>)
    ensures
        final(out)@ == old(out)@ + children_bytes(children@),
{
    let ghost start = out@;
    let ghost model = children@;
    let mut i: usize = 0;
    assert(model.take(0).map_values(|c: NodeId| le32(c.0)) =~= Seq::<Seq<u8>>::empty());
    while i < children.len()
        invariant
            model == children@,
            i <= model.len(),
            out@ == start + flat(model.take(i as int).map_values(|c: NodeId| le32(c.0))),
        decreases model.len() - i,
    {
        let child = children[i];
        put_u32(out, child.0);
        proof {
            assert(model.take(i + 1).map_values(|c: NodeId| le32(c.0)) =~= model.take(i as int).map_values(
                |c: NodeId| le32(c.0),
            ).push(le32(child.0)));
            lemma_flat_push(model.take(i as int).map_values(|c: NodeId| le32(c.0)), le32(child.0));
        }
        i = i + 1;
    }
    assert(model.take(model.len() as int) =~= model);
}

fn put_links(out: &mut Vec<u8>, text: Option<TextSource>, value: Option<ValueSource>, on_click: Option<FunctionId>)
    ensures
        final(out)@ == old(out)@ + text_bytes(text) + value_bytes(value) + click_bytes(on_click),
{
    match text {
        None => put_reference(out, 0, 0),
        Some(TextSource::Constant(id)) => put_reference(out, 1, id),
        Some(TextSource::Binding(id)) => put_reference(out, 2, id.0),
    }
    match value {
        None => put_reference(out, 0, 0),
        Some(ValueSource::Constant(id)) => put_reference(out, 1, id),
        Some(ValueSource::Binding(id)) => put_reference(out, 2, id.0),
    }
    match on_click {
        None => put_reference(out, 0, 0),
        Some(id) => put_reference(out, 1, id.0),
    }
    assert(out@ =~= old(out)@ + text_bytes(text) + value_bytes(value) + click_bytes(on_click));
}

fn put_style(out: &mut Vec<u8>, text_style: Option<TextStyle>)
    ensures
        final(out)@ == old(out)@ + style_bytes(text_style),
{
    match text_style {
        None => put_u8(out, 0),
        Some(style) => {
            put_u8(out, 1);
            put_u8(
                out,
                match style.family {
                    FontFamily::UiSans => 0,
                },
            );
            put_u8(out, style.size_px);
            put_u8(
                out,
                match style.weight {
                    FontWeight::Regular => 0,
                },
            );
            put_u8(out, style.line_height_px);
        },
    }
    assert(out@ =~= old(out)@ + style_bytes(text_style));
}

fn put_range(out: &mut Vec<u8>, range: Option<(u64, u64)>)
    ensures
        final(out)@ == old(out)@ + range_bytes(range),
{
    match range {
        None => put_u8(out, 0),
        Some((min, max)) => {
            put_u8(out, 1);
            put_u64(out, min);
            put_u64(out, max);
        },
    }
    assert(out@ =~= old(out)@ + range_bytes(range));
}

fn put_options(out: &mut Vec<u8>, options: &Vec<u32>, count: u32)
    requires
        count == options@.len(),
    ensures
        final(out)@ == old(out)@ + options_bytes(options@),
{
    let ghost start = out@;
    let ghost model = options@;
    put_u32(out, count);
    let mut i: usize = 0;
    assert(model.take(0).map_values(|o: u32| le32(o)) =~= Seq::<Seq<u8>>::empty());
    while i < options.len()
        invariant
            model == options@,
            i <= model.len(),
            count == model.len(),
            out@ == start + le32(count) + flat(model.take(i as int).map_values(|o: u32| le32(o))),
        decreases model.len() - i,
    {
        let option = options[i];
        put_u32(out, option);
        proof {
            assert(model.take(i + 1).map_values(|o: u32| le32(o)) =~= model.take(i as int).map_values(
                |o: u32| le32(o),
            ).push(le32(option)));
            lemma_flat_push(model.take(i as int).map_values(|o: u32| le32(o)), le32(option));
        }
        i = i + 1;
    }
    assert(model.take(model.len() as int) =~= model);
    assert(out@ =~= old(out)@ + options_bytes(options@));
}

fn put_opt64(out: &mut Vec<u8>, v: Option<u64>)
    ensures
        final(out)@ == old(out)@ + opt64_bytes(v),
{
    match v {
        None => {
            assert(out@ =~= old(out)@ + opt64_bytes(v));
        },
        Some(x) => put_u64(out, x),
    }
}

fn put_layout_values(out: &mut Vec<u8>, l: LayoutSpec)
    ensures
        final(out)@ == old(out)@ + layout_values_bytes(l),
{
    put_opt64(out, l.left);
    put_opt64(out, l.top);
    put_opt64(out, l.width);
    put_opt64(out, l.height);
    let ghost mid = out@;
    put_opt64(out, l.anchor.left);
    put_opt64(out, l.anchor.top);
    put_opt64(out, l.anchor.right);
    put_opt64(out, l.anchor.bottom);
    assert(out@ =~= mid + (opt64_bytes(l.anchor.left) + opt64_bytes(l.anchor.top) + opt64_bytes(l.anchor.right)
        + opt64_bytes(l.anchor.bottom)));
    assert(out@ =~= old(out)@ + layout_values_bytes(l));
}

fn mask_of(l: LayoutSpec) -> (mask: u8)
    ensures
        mask == layout_mask(l),
{
    proof {
        reveal(layout_mask);
    }
    (if l.left.is_some() { 1u8 } else { 0u8 }) | (if l.top.is_some() { 2u8 } else { 0u8 }) | (if l.width.is_some() {
        4u8
    } else {
        0u8
    }) | (if l.height.is_some() { 8u8 } else { 0u8 }) | (if l.anchor.left.is_some() { 16u8 } else { 0u8 }) | (
    if l.anchor.top.is_some() {
        32u8
    } else {
        0u8
    }) | (if l.anchor.right.is_some() { 64u8 } else { 0u8 }) | (if l.anchor.bottom.is_some() { 128u8 } else { 0u8 })
}

fn put_layout(out: &mut Vec<u8>, layout: Option<LayoutSpec>)
    ensures
        final(out)@ == old(out)@ + layout_bytes(layout),
{
    match layout {
        None => {
            put_u8(out, 0);
            proof {
                reveal(layout_bytes);
            }
            assert(out@ =~= old(out)@ + layout_bytes(layout));
        },
        Some(l) => {
            let mask = mask_of(l);
            put_u8(out, 1);
            put_u8(out, mask);
            let ghost before = old(out)@;
            put_layout_values(out, l);
            assert(layout_bytes(layout) == seq![1u8, mask] + layout_values_bytes(l)) by {
                reveal(layout_bytes);
            }
            assert(out@ =~= before + layout_bytes(layout));
        },
    }
}

fn put_ui_kind(out: &mut Vec<u8>, kind: UiKind)
    ensures
        final(out)@ == old(out)@ + seq![ui_kind_tag(kind)],
{
    put_u8(
        out,
        match kind {
            UiKind::Column => 0,
            UiKind::Text => 1,
            UiKind::Button => 2,
            UiKind::Row => 3,
            UiKind::Progress => 4,
            UiKind::Switch => 5,
            UiKind::Input => 6,
            UiKind::Slider => 7,
            UiKind::Checkbox => 8,
            UiKind::Dropdown => 9,
            UiKind::Roller => 10,
            UiKind::Led => 11,
            UiKind::Spinner => 12,
            UiKind::Scale => 13,
            UiKind::List => 14,
            UiKind::Tabview => 15,
        },
    );
}

#[verifier::rlimit(40)]
fn put_node(out: &mut Vec<u8>, node: &UiNodeSpec) -> (r: Result<(), EncodeError>)
    ensures
        r is Ok <==> u32_fits(node.children@.len() as int) && u32_fits(node.options@.len() as int),
        r is Ok ==> final(out)@ == old(out)@ + node_bytes(node@),
        r matches Err(e) ==> e is TooLarge,
{
    let count = match length_u32(node.children.len()) {
        Some(count) => count,
        None => return Err(EncodeError::TooLarge),
    };
    let option_count = match length_u32(node.options.len()) {
        Some(count) => count,
        None => return Err(EncodeError::TooLarge),
    };
    put_u32(out, node.id.0);
    put_ui_kind(out, node.kind);
    put_u32(out, count);
    put_children(out, &node.children);
    put_links(out, node.text, node.value, node.on_click);
    put_style(out, node.text_style);
    put_range(out, node.range);
    put_options(out, &node.options, option_count);
    put_layout(out, node.layout);
    proof {
        reveal(node_bytes);
    }
    assert(out@ =~= old(out)@ + node_bytes(node@));
    Ok(())
}

fn encode_ui(nodes: &Vec<UiNodeSpec>, root: NodeId) -> (r: Result<Vec<u8>, EncodeError>)
    ensures
        r is Ok <==> nodes_fit(nodes@.map_values(|n: UiNodeSpec| n@)),
        r matches Ok(bytes) ==> bytes@ == ui_bytes(nodes@.map_values(|n: UiNodeSpec| n@), root),
        r matches Err(e) ==> e is TooLarge,
{
    let ghost model = nodes@.map_values(|n: UiNodeSpec| n@);
    let mut out: Vec<u8> = Vec::new();
    let count = match length_u32(nodes.len()) {
        Some(count) => count,
        None => return Err(EncodeError::TooLarge),
    };
    put_u32(&mut out, count);
    let mut i: usize = 0;
    assert(model.take(0).map_values(|n: NodeModel| node_bytes(n)) =~= Seq::<Seq<u8>>::empty());
    while i < nodes.len()
        invariant
            model == nodes@.map_values(|n: UiNodeSpec| n@),
            i <= nodes@.len(),
            count == nodes@.len(),
            out@ == le32(count) + flat(model.take(i as int).map_values(|n: NodeModel| node_bytes(n))),
            forall|j: int| 0 <= j < i ==> u32_fits((#[trigger] model[j]).children.len() as int),
            forall|j: int| 0 <= j < i ==> u32_fits((#[trigger] model[j]).options.len() as int),
        decreases nodes@.len() - i,
    {
        let r = put_node(&mut out, &nodes[i]);
        assert(model[i as int] == nodes@[i as int]@);
        if r.is_err() {
            return Err(EncodeError::TooLarge);
        }
        proof {
            assert(model.take(i + 1).map_values(|n: NodeModel| node_bytes(n)) =~= model.take(i as int).map_values(
                |n: NodeModel| node_bytes(n),
            ).push(node_bytes(model[i as int])));
            lemma_flat_push(model.take(i as int).map_values(|n: NodeModel| node_bytes(n)), node_bytes(model[i as int]));
        }
        i = i + 1;
    }
    assert(model.take(nodes@.len() as int) =~= model);
    put_u32(&mut out, root.0);
    Ok(out)
}

fn put_section(out: &mut Vec<u8>, kind: u8, body: &Vec<u8>) -> (r: Result<(), EncodeError>)
    ensures
        r is Ok <==> u32_fits(body@.len() as int),
        r is Ok ==> final(out)@ == old(out)@ + section_bytes(kind, body@),
        r matches Err(e) ==> e is TooLarge,
{
    let length = match length_u32(body.len()) {
        Some(length) => length,
        None => return Err(EncodeError::TooLarge),
    };
    put_u8(out, kind);
    put_u32(out, length);
    put_bytes(out, body.as_slice());
    assert(out@ =~= old(out)@ + section_bytes(kind, body@));
    Ok(())
}

/// Validates `image` and writes its bytes.
pub fn encode(image: &AppImage) -> (r: Result<Vec<u8>, EncodeError>)
    ensures
        match r {
            Ok(bytes) => crate::ir::image_valid(image@) && fits(image@) && bytes@ == image_bytes(image@),
            Err(EncodeError::InvalidImage(message)) => !crate::ir::image_valid(image@) && crate::ir::reports(
                image@,
                message@,
                crate::ir::first_fault(image@),
            ),
            Err(EncodeError::TooLarge) => crate::ir::image_valid(image@) && !fits(image@),
        },
{
    if let Err(error) = crate::ir::validate(image) {
        return Err(EncodeError::InvalidImage(error.0));
    }
    let constants = encode_constants(&image.constants)?;
    let states = encode_states(&image.states)?;
    let functions = encode_functions(&image.functions)?;
    let ui = encode_ui(&image.nodes, image.root)?;
    let mut payload: Vec<u8> = Vec::new();
    put_section(&mut payload, 1, &constants)?;
    put_section(&mut payload, 2, &states)?;
    put_section(&mut payload, 3, &functions)?;
    put_section(&mut payload, 4, &ui)?;
    let payload_len = match length_u32(payload.len()) {
        Some(length) => length,
        None => return Err(EncodeError::TooLarge),
    };
    assert(payload@ =~= payload_bytes(image@));
    let mut bytes: Vec<u8> = Vec::new();
    put_u8(&mut bytes, 0x4d);
    put_u8(&mut bytes, 0x42);
    put_u8(&mut bytes, 0x43);
    put_u8(&mut bytes, 0x31);
    put_u16(&mut bytes, VERSION);
    put_u32(&mut bytes, payload_len);
    put_u32(&mut bytes, checksum(payload.as_slice()));
    put_bytes(&mut bytes, payload.as_slice());
    assert(bytes@ =~= image_bytes(image@));
    Ok(bytes)
}


// ---------------------------------------------------------------------
// The format, as what a reader accepts

pub open spec fn rd_u8(s: Seq<u8>, p: int) -> Result<(u8, int), DecodeFault> {
    if 0 <= p && p + 1 <= s.len() {
        Ok((s[p], p + 1))
    } else {
        Err(DecodeFault::Truncated)
    }
}

pub open spec fn rd_u16(s: Seq<u8>, p: int) -> Result<(u16, int), DecodeFault> {
    if 0 <= p && p + 2 <= s.len() {
        Ok((u16_from(s[p], s[p + 1]), p + 2))
    } else {
        Err(DecodeFault::Truncated)
    }
}

pub open spec fn rd_u32(s: Seq<u8>, p: int) -> Result<(u32, int), DecodeFault> {
    if 0 <= p && p + 4 <= s.len() {
        Ok((u32_from(s[p], s[p + 1], s[p + 2], s[p + 3]), p + 4))
    } else {
        Err(DecodeFault::Truncated)
    }
}

pub open spec fn rd_u64(s: Seq<u8>, p: int) -> Result<(u64, int), DecodeFault> {
    if 0 <= p && p + 8 <= s.len() {
        Ok(
            (
                u64_from(u32_from(s[p], s[p + 1], s[p + 2], s[p + 3]), u32_from(s[p + 4], s[p + 5], s[p + 6], s[p + 7])),
                p + 8,
            ),
        )
    } else {
        Err(DecodeFault::Truncated)
    }
}

pub open spec fn bad_tag(section: Seq<char>, tag: u8) -> DecodeFault {
    DecodeFault::InvalidTag(section, tag)
}

/// `n` items read one after another from `p`.
pub open spec fn parse_many<T>(
    s: Seq<u8>,
    p: int,
    n: nat,
    item: spec_fn(Seq<u8>, int) -> Result<(T, int), DecodeFault>,
) -> Result<(Seq<T>, int), DecodeFault>
    decreases n,
{
    if n == 0 {
        Ok((Seq::empty(), p))
    } else {
        match item(s, p) {
            Err(e) => Err(e),
            Ok((x, q)) => match parse_many(s, q, (n - 1) as nat, item) {
                Err(e) => Err(e),
                Ok((xs, r)) => Ok((seq![x] + xs, r)),
            },
        }
    }
}

#[verifier::opaque]
pub open spec fn parse_constant(s: Seq<u8>, p: int) -> Result<(ConstantModel, int), DecodeFault> {
    match rd_u8(s, p) {
        Err(e) => Err(e),
        Ok((tag, p1)) => if tag == 0 {
            match rd_u64(s, p1) {
                Err(e) => Err(e),
                Ok((bits, p2)) => Ok((ConstantModel::Number(bits), p2)),
            }
        } else if tag == 1 {
            match rd_u32(s, p1) {
                Err(e) => Err(e),
                Ok((length, p2)) => if p2 + length <= s.len() {
                    let bytes = s.subrange(p2, p2 + length);
                    if valid_utf8(bytes) {
                        Ok((ConstantModel::Text(decode_utf8(bytes)), p2 + length))
                    } else {
                        Err(DecodeFault::InvalidUtf8)
                    }
                } else {
                    Err(DecodeFault::Truncated)
                },
            }
        } else if tag == 2 {
            match rd_u8(s, p1) {
                Err(e) => Err(e),
                Ok((b, p2)) => if b == 0 {
                    Ok((ConstantModel::Bool(false), p2))
                } else if b == 1 {
                    Ok((ConstantModel::Bool(true), p2))
                } else {
                    Err(bad_tag("bool"@, b))
                },
            }
        } else if tag == 3 {
            Ok((ConstantModel::Null, p1))
        } else {
            Err(bad_tag("constant"@, tag))
        },
    }
}

pub open spec fn scalar_of(tag: u8) -> Option<ScalarType> {
    if tag == 0 {
        Some(ScalarType::Number)
    } else if tag == 1 {
        Some(ScalarType::String)
    } else if tag == 2 {
        Some(ScalarType::Bool)
    } else if tag == 3 {
        Some(ScalarType::Null)
    } else {
        None
    }
}

pub open spec fn parse_state(s: Seq<u8>, p: int) -> Result<(StateDecl, int), DecodeFault> {
    match rd_u8(s, p) {
        Err(e) => Err(e),
        Ok((tag, p1)) => match scalar_of(tag) {
            None => Err(bad_tag("scalar"@, tag)),
            Some(ty) => match rd_u32(s, p1) {
                Err(e) => Err(e),
                Ok((initial, p2)) => Ok((StateDecl { ty, initial }, p2)),
            },
        },
    }
}

/// The instruction with `tag`, reading its operand at `p`.
pub open spec fn parse_operation(s: Seq<u8>, p: int, tag: u8) -> Result<(Instruction, int), DecodeFault> {
    if tag == 0 {
        match rd_u32(s, p) {
            Err(e) => Err(e),
            Ok((v, q)) => Ok((Instruction::Const(v), q)),
        }
    } else if tag == 1 {
        match rd_u16(s, p) {
            Err(e) => Err(e),
            Ok((v, q)) => Ok((Instruction::LoadLocal(v), q)),
        }
    } else if tag == 2 {
        match rd_u16(s, p) {
            Err(e) => Err(e),
            Ok((v, q)) => Ok((Instruction::StoreLocal(v), q)),
        }
    } else if tag == 3 {
        match rd_u32(s, p) {
            Err(e) => Err(e),
            Ok((v, q)) => Ok((Instruction::LoadState(StateId(v)), q)),
        }
    } else if tag == 4 {
        match rd_u32(s, p) {
            Err(e) => Err(e),
            Ok((v, q)) => Ok((Instruction::StoreState(StateId(v)), q)),
        }
    } else if tag == 17 {
        match rd_u32(s, p) {
            Err(e) => Err(e),
            Ok((v, q)) => Ok((Instruction::Jump(v), q)),
        }
    } else if tag == 18 {
        match rd_u32(s, p) {
            Err(e) => Err(e),
            Ok((v, q)) => Ok((Instruction::JumpIfFalse(v), q)),
        }
    } else {
        match simple_instruction(tag) {
            Some(instruction) => Ok((instruction, p)),
            None => Err(bad_tag("instruction"@, tag)),
        }
    }
}

/// The instructions without an operand, by tag.
pub open spec fn simple_instruction(tag: u8) -> Option<Instruction> {
    if tag == 5 {
        Some(Instruction::Add)
    } else if tag == 6 {
        Some(Instruction::Sub)
    } else if tag == 7 {
        Some(Instruction::Mul)
    } else if tag == 8 {
        Some(Instruction::Div)
    } else if tag == 21 {
        Some(Instruction::Mod)
    } else if tag == 9 {
        Some(Instruction::Eq)
    } else if tag == 10 {
        Some(Instruction::Lt)
    } else if tag == 11 {
        Some(Instruction::Gt)
    } else if tag == 12 {
        Some(Instruction::Not)
    } else if tag == 13 {
        Some(Instruction::ToString)
    } else if tag == 14 {
        Some(Instruction::Concat)
    } else if tag == 15 {
        Some(Instruction::Pop)
    } else if tag == 16 {
        Some(Instruction::Dup)
    } else if tag == 19 {
        Some(Instruction::Return)
    } else if tag == 20 {
        Some(Instruction::LoadArg)
    } else {
        None
    }
}

pub open spec fn parse_instruction(s: Seq<u8>, p: int) -> Result<(Instruction, int), DecodeFault> {
    match rd_u8(s, p) {
        Err(e) => Err(e),
        Ok((tag, p1)) => parse_operation(s, p1, tag),
    }
}

pub open spec fn kind_of(tag: u8, id: u32) -> Option<FunctionKind> {
    if tag == 0 {
        Some(FunctionKind::Init)
    } else if tag == 1 {
        Some(FunctionKind::Binding(BindingId(id)))
    } else if tag == 2 {
        Some(FunctionKind::Handler(HandlerId(id)))
    } else {
        None
    }
}

/// A function after its kind: argument count, locals, declared stack and
/// counted code.
pub open spec fn parse_function_rest(s: Seq<u8>, p: int, kind: FunctionKind) -> Result<(FunctionModel, int), DecodeFault> {
    match rd_u8(s, p) {
        Err(e) => Err(e),
        Ok((arg_count, p1)) => match rd_u16(s, p1) {
            Err(e) => Err(e),
            Ok((locals, p2)) => match rd_u16(s, p2) {
                Err(e) => Err(e),
                Ok((max_stack, p3)) => match rd_u32(s, p3) {
                    Err(e) => Err(e),
                    Ok((count, p4)) => match parse_many(
                        s,
                        p4,
                        count as nat,
                        instruction_item(),
                    ) {
                        Err(e) => Err(e),
                        Ok((code, p5)) => Ok((FunctionModel { kind, arg_count, locals, max_stack, code }, p5)),
                    },
                },
            },
        },
    }
}

#[verifier::opaque]
pub open spec fn parse_function(s: Seq<u8>, p: int) -> Result<(FunctionModel, int), DecodeFault> {
    match rd_u8(s, p) {
        Err(e) => Err(e),
        Ok((tag, p1)) => match rd_u32(s, p1) {
            Err(e) => Err(e),
            Ok((id, p2)) => match kind_of(tag, id) {
                None => Err(bad_tag("function"@, tag)),
                Some(kind) => parse_function_rest(s, p2, kind),
            },
        },
    }
}

pub open spec fn ui_kind_of(tag: u8) -> Option<UiKind> {
    if tag == 0 {
        Some(UiKind::Column)
    } else if tag == 1 {
        Some(UiKind::Text)
    } else if tag == 2 {
        Some(UiKind::Button)
    } else if tag == 3 {
        Some(UiKind::Row)
    } else if tag == 4 {
        Some(UiKind::Progress)
    } else if tag == 5 {
        Some(UiKind::Switch)
    } else if tag == 6 {
        Some(UiKind::Input)
    } else if tag == 7 {
        Some(UiKind::Slider)
    } else if tag == 8 {
        Some(UiKind::Checkbox)
    } else if tag == 9 {
        Some(UiKind::Dropdown)
    } else if tag == 10 {
        Some(UiKind::Roller)
    } else if tag == 11 {
        Some(UiKind::Led)
    } else if tag == 12 {
        Some(UiKind::Spinner)
    } else if tag == 13 {
        Some(UiKind::Scale)
    } else if tag == 14 {
        Some(UiKind::List)
    } else if tag == 15 {
        Some(UiKind::Tabview)
    } else {
        None
    }
}

pub open spec fn parse_child(s: Seq<u8>, p: int) -> Result<(NodeId, int), DecodeFault> {
    match rd_u32(s, p) {
        Err(e) => Err(e),
        Ok((v, q)) => Ok((NodeId(v), q)),
    }
}

pub open spec fn parse_text_source(s: Seq<u8>, p: int) -> Result<(Option<TextSource>, int), DecodeFault> {
    match rd_u8(s, p) {
        Err(e) => Err(e),
        Ok((tag, p1)) => match rd_u32(s, p1) {
            Err(e) => Err(e),
            Ok((id, p2)) => if tag == 0 {
                Ok((None, p2))
            } else if tag == 1 {
                Ok((Some(TextSource::Constant(id)), p2))
            } else if tag == 2 {
                Ok((Some(TextSource::Binding(FunctionId(id))), p2))
            } else {
                Err(bad_tag("text source"@, tag))
            },
        },
    }
}

pub open spec fn parse_value_source(s: Seq<u8>, p: int) -> Result<(Option<ValueSource>, int), DecodeFault> {
    match rd_u8(s, p) {
        Err(e) => Err(e),
        Ok((tag, p1)) => match rd_u32(s, p1) {
            Err(e) => Err(e),
            Ok((id, p2)) => if tag == 0 {
                Ok((None, p2))
            } else if tag == 1 {
                Ok((Some(ValueSource::Constant(id)), p2))
            } else if tag == 2 {
                Ok((Some(ValueSource::Binding(FunctionId(id))), p2))
            } else {
                Err(bad_tag("value source"@, tag))
            },
        },
    }
}

pub open spec fn parse_click(s: Seq<u8>, p: int) -> Result<(Option<FunctionId>, int), DecodeFault> {
    match rd_u8(s, p) {
        Err(e) => Err(e),
        Ok((tag, p1)) => match rd_u32(s, p1) {
            Err(e) => Err(e),
            Ok((id, p2)) => if tag == 0 {
                Ok((None, p2))
            } else if tag == 1 {
                Ok((Some(FunctionId(id)), p2))
            } else {
                Err(bad_tag("click"@, tag))
            },
        },
    }
}

/// A present style: family, size, weight, line height, held to the
/// generated pairs.
pub open spec fn parse_style_fields(s: Seq<u8>, p: int) -> Result<(Option<TextStyle>, int), DecodeFault> {
    match rd_u8(s, p) {
        Err(e) => Err(e),
        Ok((family, p1)) => if family != 0 {
            Err(bad_tag("font family"@, family))
        } else {
            match rd_u8(s, p1) {
                Err(e) => Err(e),
                Ok((size_px, p2)) => match rd_u8(s, p2) {
                    Err(e) => Err(e),
                    Ok((weight, p3)) => if weight != 0 {
                        Err(bad_tag("font weight"@, weight))
                    } else {
                        match rd_u8(s, p3) {
                            Err(e) => Err(e),
                            Ok((line_height_px, p4)) => match crate::ir::style_check(
                                FontFamily::UiSans,
                                size_px,
                                FontWeight::Regular,
                                line_height_px,
                            ) {
                                Err(error) => Err(DecodeFault::InvalidImage(crate::ir::style_error_text(error))),
                                Ok(style) => Ok((Some(style), p4)),
                            },
                        }
                    },
                },
            }
        },
    }
}

pub open spec fn parse_style(s: Seq<u8>, p: int) -> Result<(Option<TextStyle>, int), DecodeFault> {
    match rd_u8(s, p) {
        Err(e) => Err(e),
        Ok((tag, p1)) => if tag == 0 {
            Ok((None, p1))
        } else if tag == 1 {
            parse_style_fields(s, p1)
        } else {
            Err(bad_tag("text style"@, tag))
        },
    }
}

pub open spec fn parse_range(s: Seq<u8>, p: int) -> Result<(Option<(u64, u64)>, int), DecodeFault> {
    match rd_u8(s, p) {
        Err(e) => Err(e),
        Ok((tag, p1)) => if tag == 0 {
            Ok((None, p1))
        } else if tag == 1 {
            match rd_u64(s, p1) {
                Err(e) => Err(e),
                Ok((min, p2)) => match rd_u64(s, p2) {
                    Err(e) => Err(e),
                    Ok((max, p3)) => Ok((Some((min, max)), p3)),
                },
            }
        } else {
            Err(bad_tag("range"@, tag))
        },
    }
}

pub open spec fn word_item() -> spec_fn(Seq<u8>, int) -> Result<(u32, int), DecodeFault> {
    |s: Seq<u8>, q: int| rd_u32(s, q)
}

pub open spec fn parse_options(s: Seq<u8>, p: int) -> Result<(Seq<u32>, int), DecodeFault> {
    match rd_u32(s, p) {
        Err(e) => Err(e),
        Ok((count, p1)) => parse_many(s, p1, count as nat, word_item()),
    }
}

/// A layout value, read when the mask says it is present.
pub open spec fn parse_opt64(s: Seq<u8>, p: int, present: bool) -> Result<(Option<u64>, int), DecodeFault> {
    if !present {
        Ok((None, p))
    } else {
        match rd_u64(s, p) {
            Err(e) => Err(e),
            Ok((v, q)) => Ok((Some(v), q)),
        }
    }
}

#[verifier::opaque]
pub open spec fn parse_anchor(s: Seq<u8>, p: int, m: u8) -> Result<(AnchorSpec, int), DecodeFault> {
    match parse_opt64(s, p, m & 16u8 != 0u8) {
        Err(e) => Err(e),
        Ok((left, p1)) => match parse_opt64(s, p1, m & 32u8 != 0u8) {
            Err(e) => Err(e),
            Ok((top, p2)) => match parse_opt64(s, p2, m & 64u8 != 0u8) {
                Err(e) => Err(e),
                Ok((right, p3)) => match parse_opt64(s, p3, m & 128u8 != 0u8) {
                    Err(e) => Err(e),
                    Ok((bottom, p4)) => Ok((AnchorSpec { left, top, right, bottom }, p4)),
                },
            },
        },
    }
}

/// Left, top, width and height, each read when the mask says it is present.
#[verifier::opaque]
pub open spec fn parse_base(s: Seq<u8>, p: int, m: u8) -> Result<
    ((Option<u64>, Option<u64>, Option<u64>, Option<u64>), int),
    DecodeFault,
> {
    match parse_opt64(s, p, m & 1u8 != 0u8) {
        Err(e) => Err(e),
        Ok((left, p1)) => match parse_opt64(s, p1, m & 2u8 != 0u8) {
            Err(e) => Err(e),
            Ok((top, p2)) => match parse_opt64(s, p2, m & 4u8 != 0u8) {
                Err(e) => Err(e),
                Ok((width, p3)) => match parse_opt64(s, p3, m & 8u8 != 0u8) {
                    Err(e) => Err(e),
                    Ok((height, p4)) => Ok(((left, top, width, height), p4)),
                },
            },
        },
    }
}

#[verifier::opaque]
pub open spec fn parse_placement(s: Seq<u8>, p: int, m: u8) -> Result<(LayoutSpec, int), DecodeFault> {
    match parse_base(s, p, m) {
        Err(e) => Err(e),
        Ok(((left, top, width, height), p4)) => match parse_anchor(s, p4, m) {
            Err(e) => Err(e),
            Ok((anchor, p5)) => Ok((LayoutSpec { left, top, width, height, anchor }, p5)),
        },
    }
}

#[verifier::opaque]
pub open spec fn parse_layout(s: Seq<u8>, p: int) -> Result<(Option<LayoutSpec>, int), DecodeFault> {
    match rd_u8(s, p) {
        Err(e) => Err(e),
        Ok((tag, p1)) => if tag == 0 {
            Ok((None, p1))
        } else if tag == 1 {
            match rd_u8(s, p1) {
                Err(e) => Err(e),
                Ok((m, p2)) => match parse_placement(s, p2, m) {
                    Err(e) => Err(e),
                    Ok((l, p3)) => Ok((Some(l), p3)),
                },
            }
        } else {
            Err(bad_tag("layout"@, tag))
        },
    }
}

/// Everything of a node after its children.
#[verifier::opaque]
pub open spec fn parse_node_rest(s: Seq<u8>, p: int, id: NodeId, kind: UiKind, children: Seq<NodeId>) -> Result<
    (NodeModel, int),
    DecodeFault,
> {
    match parse_text_source(s, p) {
        Err(e) => Err(e),
        Ok((text, p1)) => match parse_value_source(s, p1) {
            Err(e) => Err(e),
            Ok((value, p2)) => match parse_click(s, p2) {
                Err(e) => Err(e),
                Ok((on_click, p3)) => match parse_style(s, p3) {
                    Err(e) => Err(e),
                    Ok((text_style, p4)) => match parse_range(s, p4) {
                        Err(e) => Err(e),
                        Ok((range, p5)) => match parse_options(s, p5) {
                            Err(e) => Err(e),
                            Ok((options, p6)) => match parse_layout(s, p6) {
                                Err(e) => Err(e),
                                Ok((layout, p7)) => Ok(
                                    (
                                        NodeModel {
                                            id,
                                            kind,
                                            children,
                                            text,
                                            value,
                                            on_click,
                                            text_style,
                                            range,
                                            options,
                                            layout,
                                        },
                                        p7,
                                    ),
                                ),
                            },
                        },
                    },
                },
            },
        },
    }
}

#[verifier::opaque]
pub open spec fn parse_node(s: Seq<u8>, p: int) -> Result<(NodeModel, int), DecodeFault> {
    match rd_u32(s, p) {
        Err(e) => Err(e),
        Ok((id, p1)) => match rd_u8(s, p1) {
            Err(e) => Err(e),
            Ok((tag, p2)) => match ui_kind_of(tag) {
                None => Err(bad_tag("ui kind"@, tag)),
                Some(kind) => match rd_u32(s, p2) {
                    Err(e) => Err(e),
                    Ok((count, p3)) => match parse_many(s, p3, count as nat, child_item()) {
                        Err(e) => Err(e),
                        Ok((children, p4)) => parse_node_rest(s, p4, NodeId(id), kind, children),
                    },
                },
            },
        },
    }
}

pub open spec fn instruction_item() -> spec_fn(Seq<u8>, int) -> Result<(Instruction, int), DecodeFault> {
    |s: Seq<u8>, q: int| parse_instruction(s, q)
}

pub open spec fn child_item() -> spec_fn(Seq<u8>, int) -> Result<(NodeId, int), DecodeFault> {
    |s: Seq<u8>, q: int| parse_child(s, q)
}

pub open spec fn node_item() -> spec_fn(Seq<u8>, int) -> Result<(NodeModel, int), DecodeFault> {
    |s: Seq<u8>, q: int| parse_node(s, q)
}

pub open spec fn constant_item() -> spec_fn(Seq<u8>, int) -> Result<(ConstantModel, int), DecodeFault> {
    |s: Seq<u8>, q: int| parse_constant(s, q)
}

pub open spec fn state_item() -> spec_fn(Seq<u8>, int) -> Result<(StateDecl, int), DecodeFault> {
    |s: Seq<u8>, q: int| parse_state(s, q)
}

pub open spec fn function_item() -> spec_fn(Seq<u8>, int) -> Result<(FunctionModel, int), DecodeFault> {
    |s: Seq<u8>, q: int| parse_function(s, q)
}

/// A counted list that must fill the whole body.
#[verifier::opaque]
pub open spec fn parse_body<T>(body: Seq<u8>, item: spec_fn(Seq<u8>, int) -> Result<(T, int), DecodeFault>) -> Result<
    Seq<T>,
    DecodeFault,
> {
    match rd_u32(body, 0) {
        Err(e) => Err(e),
        Ok((count, p)) => match parse_many(body, p, count as nat, item) {
            Err(e) => Err(e),
            Ok((items, q)) => if q == body.len() {
                Ok(items)
            } else {
                Err(DecodeFault::TrailingBytes)
            },
        },
    }
}

#[verifier::opaque]
pub open spec fn parse_ui_body(body: Seq<u8>) -> Result<(Seq<NodeModel>, NodeId), DecodeFault> {
    match rd_u32(body, 0) {
        Err(e) => Err(e),
        Ok((count, p)) => match parse_many(body, p, count as nat, node_item()) {
            Err(e) => Err(e),
            Ok((nodes, q)) => match rd_u32(body, q) {
                Err(e) => Err(e),
                Ok((root, r)) => if r == body.len() {
                    Ok((nodes, NodeId(root)))
                } else {
                    Err(DecodeFault::TrailingBytes)
                },
            },
        },
    }
}

/// The section of `kind` at `p`: its body and where it ends.
pub open spec fn parse_section(s: Seq<u8>, p: int, kind: u8) -> Result<(Seq<u8>, int), DecodeFault> {
    match rd_u8(s, p) {
        Err(e) => Err(e),
        Ok((tag, p1)) => if tag != kind {
            Err(bad_tag("section"@, tag))
        } else {
            match rd_u32(s, p1) {
                Err(e) => Err(e),
                Ok((length, p2)) => if p2 + length <= s.len() {
                    Ok((s.subrange(p2, p2 + length), p2 + length))
                } else {
                    Err(DecodeFault::Truncated)
                },
            }
        },
    }
}

/// The four sections, in order, filling the whole payload.
pub open spec fn parse_payload(payload: Seq<u8>) -> Result<ImageModel, DecodeFault> {
    match parse_section(payload, 0, 1) {
        Err(e) => Err(e),
        Ok((b1, p1)) => match parse_body(b1, constant_item()) {
            Err(e) => Err(e),
            Ok(constants) => match parse_section(payload, p1, 2) {
                Err(e) => Err(e),
                Ok((b2, p2)) => match parse_body(b2, state_item()) {
                    Err(e) => Err(e),
                    Ok(states) => match parse_section(payload, p2, 3) {
                        Err(e) => Err(e),
                        Ok((b3, p3)) => match parse_body(b3, function_item()) {
                            Err(e) => Err(e),
                            Ok(functions) => match parse_section(payload, p3, 4) {
                                Err(e) => Err(e),
                                Ok((b4, p4)) => match parse_ui_body(b4) {
                                    Err(e) => Err(e),
                                    Ok((nodes, root)) => if p4 == payload.len() {
                                        Ok(ImageModel { constants, states, functions, nodes, root })
                                    } else {
                                        Err(DecodeFault::TrailingBytes)
                                    },
                                },
                            },
                        },
                    },
                },
            },
        },
    }
}

/// What reading `bytes` gives, before the image is validated: the header
/// checks in order (length, magic, version, payload length, checksum),
/// then the payload.
pub open spec fn decode_result(bytes: Seq<u8>) -> Result<ImageModel, DecodeFault> {
    if bytes.len() < HEADER_LEN {
        Err(DecodeFault::Truncated)
    } else if bytes.subrange(0, 4) != magic() {
        Err(DecodeFault::BadMagic)
    } else if u16_from(bytes[4], bytes[5]) != VERSION {
        Err(DecodeFault::UnsupportedVersion(u16_from(bytes[4], bytes[5])))
    } else if bytes.len() != HEADER_LEN + u32_from(bytes[6], bytes[7], bytes[8], bytes[9]) {
        Err(DecodeFault::LengthMismatch)
    } else if crc32(bytes.subrange(HEADER_LEN as int, bytes.len() as int)) != u32_from(
        bytes[10],
        bytes[11],
        bytes[12],
        bytes[13],
    ) {
        Err(DecodeFault::ChecksumMismatch)
    } else {
        parse_payload(bytes.subrange(HEADER_LEN as int, bytes.len() as int))
    }
}


/// The header of `bytes` passes every check: length, magic, version,
/// payload length and checksum.
pub open spec fn header_accepts(bytes: Seq<u8>) -> bool {
    &&& bytes.len() >= HEADER_LEN
    &&& bytes.subrange(0, 4) == magic()
    &&& u16_from(bytes[4], bytes[5]) == VERSION
    &&& bytes.len() == HEADER_LEN + u32_from(bytes[6], bytes[7], bytes[8], bytes[9])
    &&& crc32(bytes.subrange(HEADER_LEN as int, bytes.len() as int)) == u32_from(bytes[10], bytes[11], bytes[12], bytes[13])
}

/// Changing any one payload byte of an image whose header checks pass is
/// caught by the checksum.
pub proof fn lemma_payload_corruption_refused(bytes: Seq<u8>, j: int, v: u8)
    requires
        header_accepts(bytes),
        HEADER_LEN <= j < bytes.len(),
        v != bytes[j],
    ensures
        decode_result(bytes.update(j, v)) == Err::<ImageModel, DecodeFault>(DecodeFault::ChecksumMismatch),
{
    let changed = bytes.update(j, v);
    let payload = bytes.subrange(HEADER_LEN as int, bytes.len() as int);
    assert(changed.subrange(HEADER_LEN as int, changed.len() as int) =~= payload.update(j - HEADER_LEN, v));
    assert(changed.subrange(0, 4) =~= bytes.subrange(0, 4));
    lemma_crc32_detects_one_byte(payload, j - HEADER_LEN, v);
}

/// Every strict prefix of an image whose header checks pass is refused.
pub proof fn lemma_truncation_refused(bytes: Seq<u8>, k: int)
    requires
        header_accepts(bytes),
        0 <= k < bytes.len(),
    ensures
        decode_result(bytes.take(k)) is Err,
{
    let cut = bytes.take(k);
    if k >= HEADER_LEN {
        assert(cut.subrange(0, 4) =~= bytes.subrange(0, 4));
    }
}

// ---------------------------------------------------------------------
// Decoding

/// A read of a `Copy` value agrees with the format's reader.
pub open spec fn agrees<T>(r: Result<(T, usize), DecodeError>, expected: Result<(T, int), DecodeFault>) -> bool {
    match r {
        Ok((v, q)) => expected == Ok::<(T, int), DecodeFault>((v, q as int)),
        Err(e) => expected == Err::<(T, int), DecodeFault>(e@),
    }
}

/// A read result with the items read so far put in front.
pub open spec fn prepend<T>(done: Seq<T>, rest: Result<(Seq<T>, int), DecodeFault>) -> Result<
    (Seq<T>, int),
    DecodeFault,
> {
    match rest {
        Err(e) => Err(e),
        Ok((items, q)) => Ok((done + items, q)),
    }
}

proof fn lemma_many_step<T>(
    s: Seq<u8>,
    p: int,
    n: nat,
    item: spec_fn(Seq<u8>, int) -> Result<(T, int), DecodeFault>,
    done: Seq<T>,
    x: T,
    q: int,
)
    requires
        n > 0,
        item(s, p) == Ok::<(T, int), DecodeFault>((x, q)),
    ensures
        prepend(done, parse_many(s, p, n, item)) == prepend(done.push(x), parse_many(s, q, (n - 1) as nat, item)),
{
    match parse_many(s, q, (n - 1) as nat, item) {
        Ok((items, r)) => {
            assert(done + (seq![x] + items) =~= done.push(x) + items);
        },
        Err(_) => {},
    }
}

proof fn lemma_many_fail<T>(
    s: Seq<u8>,
    p: int,
    n: nat,
    item: spec_fn(Seq<u8>, int) -> Result<(T, int), DecodeFault>,
    e: DecodeFault,
)
    requires
        n > 0,
        item(s, p) == Err::<(T, int), DecodeFault>(e),
    ensures
        parse_many(s, p, n, item) == Err::<(Seq<T>, int), DecodeFault>(e),
{
}

fn read_u8(s: &[u8], p: usize) -> (r: Result<(u8, usize), DecodeError>)
    ensures
        agrees(r, rd_u8(s@, p as int)),
{
    if p < s.len() {
        Ok((s[p], p + 1))
    } else {
        Err(DecodeError::Truncated)
    }
}

fn read_u16(s: &[u8], p: usize) -> (r: Result<(u16, usize), DecodeError>)
    ensures
        agrees(r, rd_u16(s@, p as int)),
{
    if s.len() >= 2 && p <= s.len() - 2 {
        Ok(((s[p] as u16) | ((s[p + 1] as u16) << 8u16), p + 2))
    } else {
        Err(DecodeError::Truncated)
    }
}

fn read_u32(s: &[u8], p: usize) -> (r: Result<(u32, usize), DecodeError>)
    ensures
        agrees(r, rd_u32(s@, p as int)),
{
    if s.len() >= 4 && p <= s.len() - 4 {
        Ok(
            (
                (s[p] as u32) | ((s[p + 1] as u32) << 8u32) | ((s[p + 2] as u32) << 16u32) | ((s[p + 3] as u32)
                    << 24u32),
                p + 4,
            ),
        )
    } else {
        Err(DecodeError::Truncated)
    }
}

fn read_u64(s: &[u8], p: usize) -> (r: Result<(u64, usize), DecodeError>)
    ensures
        agrees(r, rd_u64(s@, p as int)),
{
    if s.len() >= 8 && p <= s.len() - 8 {
        let low = (s[p] as u32) | ((s[p + 1] as u32) << 8u32) | ((s[p + 2] as u32) << 16u32) | ((s[p + 3] as u32)
            << 24u32);
        let high = (s[p + 4] as u32) | ((s[p + 5] as u32) << 8u32) | ((s[p + 6] as u32) << 16u32) | ((s[p
            + 7] as u32) << 24u32);
        Ok(((low as u64) | ((high as u64) << 32u64), p + 8))
    } else {
        Err(DecodeError::Truncated)
    }
}

/// `std::str::from_utf8`: the text of `bytes` exactly when they are
/// well-formed UTF-8.
#[verifier::external_body]
fn utf8_text(bytes: &[u8]) -> (text: Option<&str>)
    ensures
        match text {
            Some(t) => valid_utf8(bytes@) && t@ == decode_utf8(bytes@),
            None => !valid_utf8(bytes@),
        },
{
    match std::str::from_utf8(bytes) {
        Ok(text) => Some(text),
        Err(_) => None,
    }
}

fn read_constant(s: &[u8], p: usize) -> (r: Result<(Constant, usize), DecodeError>)
    ensures
        match r {
            Ok((c, q)) => parse_constant(s@, p as int) == Ok::<(ConstantModel, int), DecodeFault>((c@, q as int)),
            Err(e) => parse_constant(s@, p as int) == Err::<(ConstantModel, int), DecodeFault>(e@),
        },
{
    proof {
        reveal(parse_constant);
    }
    let (tag, p1) = match read_u8(s, p) {
        Ok(v) => v,
        Err(e) => return Err(e),
    };
    if tag == 0 {
        match read_u64(s, p1) {
            Ok((bits, p2)) => Ok((Constant::Number(bits), p2)),
            Err(e) => Err(e),
        }
    } else if tag == 1 {
        let (length, p2) = match read_u32(s, p1) {
            Ok(v) => v,
            Err(e) => return Err(e),
        };
        if p2 > s.len() || (s.len() - p2) < length as usize {
            return Err(DecodeError::Truncated);
        }
        let end = p2 + length as usize;
        let bytes = &s[p2..end];
        match utf8_text(bytes) {
            Some(text) => Ok((Constant::String(String::from_str(text)), end)),
            None => Err(DecodeError::InvalidUtf8),
        }
    } else if tag == 2 {
        let (b, p2) = match read_u8(s, p1) {
            Ok(v) => v,
            Err(e) => return Err(e),
        };
        if b == 0 {
            Ok((Constant::Bool(false), p2))
        } else if b == 1 {
            Ok((Constant::Bool(true), p2))
        } else {
            Err(DecodeError::InvalidTag { section: "bool", tag: b })
        }
    } else if tag == 3 {
        Ok((Constant::Null, p1))
    } else {
        Err(DecodeError::InvalidTag { section: "constant", tag })
    }
}

fn read_state(s: &[u8], p: usize) -> (r: Result<(StateDecl, usize), DecodeError>)
    ensures
        agrees(r, parse_state(s@, p as int)),
{
    let (tag, p1) = match read_u8(s, p) {
        Ok(v) => v,
        Err(e) => return Err(e),
    };
    let ty = match tag {
        0 => ScalarType::Number,
        1 => ScalarType::String,
        2 => ScalarType::Bool,
        3 => ScalarType::Null,
        _ => return Err(DecodeError::InvalidTag { section: "scalar", tag }),
    };
    match read_u32(s, p1) {
        Ok((initial, p2)) => Ok((StateDecl { ty, initial }, p2)),
        Err(e) => Err(e),
    }
}

fn read_instruction(s: &[u8], p: usize) -> (r: Result<(Instruction, usize), DecodeError>)
    ensures
        agrees(r, parse_instruction(s@, p as int)),
{
    let (tag, p1) = match read_u8(s, p) {
        Ok(v) => v,
        Err(e) => return Err(e),
    };
    match tag {
        0 => match read_u32(s, p1) {
            Ok((v, q)) => Ok((Instruction::Const(v), q)),
            Err(e) => Err(e),
        },
        1 => match read_u16(s, p1) {
            Ok((v, q)) => Ok((Instruction::LoadLocal(v), q)),
            Err(e) => Err(e),
        },
        2 => match read_u16(s, p1) {
            Ok((v, q)) => Ok((Instruction::StoreLocal(v), q)),
            Err(e) => Err(e),
        },
        3 => match read_u32(s, p1) {
            Ok((v, q)) => Ok((Instruction::LoadState(StateId(v)), q)),
            Err(e) => Err(e),
        },
        4 => match read_u32(s, p1) {
            Ok((v, q)) => Ok((Instruction::StoreState(StateId(v)), q)),
            Err(e) => Err(e),
        },
        5 => Ok((Instruction::Add, p1)),
        6 => Ok((Instruction::Sub, p1)),
        7 => Ok((Instruction::Mul, p1)),
        8 => Ok((Instruction::Div, p1)),
        21 => Ok((Instruction::Mod, p1)),
        9 => Ok((Instruction::Eq, p1)),
        10 => Ok((Instruction::Lt, p1)),
        11 => Ok((Instruction::Gt, p1)),
        12 => Ok((Instruction::Not, p1)),
        13 => Ok((Instruction::ToString, p1)),
        14 => Ok((Instruction::Concat, p1)),
        15 => Ok((Instruction::Pop, p1)),
        16 => Ok((Instruction::Dup, p1)),
        17 => match read_u32(s, p1) {
            Ok((v, q)) => Ok((Instruction::Jump(v), q)),
            Err(e) => Err(e),
        },
        18 => match read_u32(s, p1) {
            Ok((v, q)) => Ok((Instruction::JumpIfFalse(v), q)),
            Err(e) => Err(e),
        },
        19 => Ok((Instruction::Return, p1)),
        20 => Ok((Instruction::LoadArg, p1)),
        _ => Err(DecodeError::InvalidTag { section: "instruction", tag }),
    }
}

fn read_code(s: &[u8], p: usize, count: u32) -> (r: Result<(Vec<Instruction>, usize), DecodeError>)
    ensures
        match r {
            Ok((code, q)) => parse_many(s@, p as int, count as nat, instruction_item())
                == Ok::<(Seq<Instruction>, int), DecodeFault>((code@, q as int)),
            Err(e) => parse_many(s@, p as int, count as nat, instruction_item()) == Err::<
                (Seq<Instruction>, int),
                DecodeFault,
            >(e@),
        },
{
    let ghost item = instruction_item();
    let mut code: Vec<Instruction> = Vec::new();
    let mut at = p;
    let mut i: u32 = 0;
    while i < count
        invariant
            i <= count,
            item == instruction_item(),
            parse_many(s@, p as int, count as nat, item) == prepend(
                code@,
                parse_many(s@, at as int, (count - i) as nat, item),
            ),
        decreases count - i,
    {
        match read_instruction(s, at) {
            Ok((instruction, q)) => {
                proof {
                    lemma_many_step(s@, at as int, (count - i) as nat, item, code@, instruction, q as int);
                }
                code.push(instruction);
                at = q;
            },
            Err(e) => {
                proof {
                    lemma_many_fail(s@, at as int, (count - i) as nat, item, e@);
                }
                return Err(e);
            },
        }
        i = i + 1;
    }
    assert(code@ + Seq::<Instruction>::empty() =~= code@);
    Ok((code, at))
}

fn read_function(s: &[u8], p: usize) -> (r: Result<(Function, usize), DecodeError>)
    ensures
        match r {
            Ok((f, q)) => parse_function(s@, p as int) == Ok::<(FunctionModel, int), DecodeFault>((f@, q as int)),
            Err(e) => parse_function(s@, p as int) == Err::<(FunctionModel, int), DecodeFault>(e@),
        },
{
    proof {
        reveal(parse_function);
    }
    let (tag, p1) = match read_u8(s, p) {
        Ok(v) => v,
        Err(e) => return Err(e),
    };
    let (id, p2) = match read_u32(s, p1) {
        Ok(v) => v,
        Err(e) => return Err(e),
    };
    let kind = match tag {
        0 => FunctionKind::Init,
        1 => FunctionKind::Binding(BindingId(id)),
        2 => FunctionKind::Handler(HandlerId(id)),
        _ => return Err(DecodeError::InvalidTag { section: "function", tag }),
    };
    let (arg_count, p3) = match read_u8(s, p2) {
        Ok(v) => v,
        Err(e) => return Err(e),
    };
    let (locals, p4) = match read_u16(s, p3) {
        Ok(v) => v,
        Err(e) => return Err(e),
    };
    let (max_stack, p5) = match read_u16(s, p4) {
        Ok(v) => v,
        Err(e) => return Err(e),
    };
    let (count, p6) = match read_u32(s, p5) {
        Ok(v) => v,
        Err(e) => return Err(e),
    };
    let (code, p7) = match read_code(s, p6, count) {
        Ok(v) => v,
        Err(e) => return Err(e),
    };
    Ok((Function { kind, arg_count, locals, max_stack, code }, p7))
}

fn read_children(s: &[u8], p: usize, count: u32) -> (r: Result<(Vec<NodeId>, usize), DecodeError>)
    ensures
        match r {
            Ok((children, q)) => parse_many(s@, p as int, count as nat, child_item())
                == Ok::<(Seq<NodeId>, int), DecodeFault>((children@, q as int)),
            Err(e) => parse_many(s@, p as int, count as nat, child_item()) == Err::<
                (Seq<NodeId>, int),
                DecodeFault,
            >(e@),
        },
{
    let ghost item = child_item();
    let mut children: Vec<NodeId> = Vec::new();
    let mut at = p;
    let mut i: u32 = 0;
    while i < count
        invariant
            i <= count,
            item == child_item(),
            parse_many(s@, p as int, count as nat, item) == prepend(
                children@,
                parse_many(s@, at as int, (count - i) as nat, item),
            ),
        decreases count - i,
    {
        match read_u32(s, at) {
            Ok((v, q)) => {
                proof {
                    lemma_many_step(s@, at as int, (count - i) as nat, item, children@, NodeId(v), q as int);
                }
                children.push(NodeId(v));
                at = q;
            },
            Err(e) => {
                proof {
                    lemma_many_fail(s@, at as int, (count - i) as nat, item, e@);
                }
                return Err(e);
            },
        }
        i = i + 1;
    }
    assert(children@ + Seq::<NodeId>::empty() =~= children@);
    Ok((children, at))
}

fn read_links(s: &[u8], p: usize) -> (r: Result<((Option<TextSource>, Option<ValueSource>, Option<FunctionId>), usize), DecodeError>)
    ensures
        match r {
            Ok(((text, value, on_click), q)) => {
                &&& parse_text_source(s@, p as int) matches Ok((t, q1))
                &&& t == text
                &&& parse_value_source(s@, q1) matches Ok((v, q2))
                &&& v == value
                &&& parse_click(s@, q2) == Ok::<(Option<FunctionId>, int), DecodeFault>((on_click, q as int))
            },
            Err(e) => match parse_text_source(s@, p as int) {
                Err(f) => f == e@,
                Ok((_, q1)) => match parse_value_source(s@, q1) {
                    Err(f) => f == e@,
                    Ok((_, q2)) => parse_click(s@, q2) == Err::<(Option<FunctionId>, int), DecodeFault>(e@),
                },
            },
        },
{
    let (tag, p1) = match read_u8(s, p) {
        Ok(v) => v,
        Err(e) => return Err(e),
    };
    let (id, p2) = match read_u32(s, p1) {
        Ok(v) => v,
        Err(e) => return Err(e),
    };
    let text = match tag {
        0 => None,
        1 => Some(TextSource::Constant(id)),
        2 => Some(TextSource::Binding(FunctionId(id))),
        _ => return Err(DecodeError::InvalidTag { section: "text source", tag }),
    };
    let (tag, p3) = match read_u8(s, p2) {
        Ok(v) => v,
        Err(e) => return Err(e),
    };
    let (id, p4) = match read_u32(s, p3) {
        Ok(v) => v,
        Err(e) => return Err(e),
    };
    let value = match tag {
        0 => None,
        1 => Some(ValueSource::Constant(id)),
        2 => Some(ValueSource::Binding(FunctionId(id))),
        _ => return Err(DecodeError::InvalidTag { section: "value source", tag }),
    };
    let (tag, p5) = match read_u8(s, p4) {
        Ok(v) => v,
        Err(e) => return Err(e),
    };
    let (id, p6) = match read_u32(s, p5) {
        Ok(v) => v,
        Err(e) => return Err(e),
    };
    let on_click = match tag {
        0 => None,
        1 => Some(FunctionId(id)),
        _ => return Err(DecodeError::InvalidTag { section: "click", tag }),
    };
    Ok(((text, value, on_click), p6))
}

fn read_style(s: &[u8], p: usize) -> (r: Result<(Option<TextStyle>, usize), DecodeError>)
    ensures
        agrees(r, parse_style(s@, p as int)),
{
    let (tag, p1) = match read_u8(s, p) {
        Ok(v) => v,
        Err(e) => return Err(e),
    };
    if tag == 0 {
        return Ok((None, p1));
    }
    if tag != 1 {
        return Err(DecodeError::InvalidTag { section: "text style", tag });
    }
    let (family, p2) = match read_u8(s, p1) {
        Ok(v) => v,
        Err(e) => return Err(e),
    };
    if family != 0 {
        return Err(DecodeError::InvalidTag { section: "font family", tag: family });
    }
    let (size_px, p3) = match read_u8(s, p2) {
        Ok(v) => v,
        Err(e) => return Err(e),
    };
    let (weight, p4) = match read_u8(s, p3) {
        Ok(v) => v,
        Err(e) => return Err(e),
    };
    if weight != 0 {
        return Err(DecodeError::InvalidTag { section: "font weight", tag: weight });
    }
    let (line_height_px, p5) = match read_u8(s, p4) {
        Ok(v) => v,
        Err(e) => return Err(e),
    };
    match TextStyle::new(FontFamily::UiSans, size_px, FontWeight::Regular, line_height_px) {
        Ok(style) => Ok((Some(style), p5)),
        Err(error) => Err(DecodeError::InvalidImage(error.message())),
    }
}

fn read_range(s: &[u8], p: usize) -> (r: Result<(Option<(u64, u64)>, usize), DecodeError>)
    ensures
        agrees(r, parse_range(s@, p as int)),
{
    let (tag, p1) = match read_u8(s, p) {
        Ok(v) => v,
        Err(e) => return Err(e),
    };
    if tag == 0 {
        return Ok((None, p1));
    }
    if tag != 1 {
        return Err(DecodeError::InvalidTag { section: "range", tag });
    }
    let (min, p2) = match read_u64(s, p1) {
        Ok(v) => v,
        Err(e) => return Err(e),
    };
    let (max, p3) = match read_u64(s, p2) {
        Ok(v) => v,
        Err(e) => return Err(e),
    };
    Ok((Some((min, max)), p3))
}

fn read_options(s: &[u8], p: usize) -> (r: Result<(Vec<u32>, usize), DecodeError>)
    ensures
        match r {
            Ok((options, q)) => parse_options(s@, p as int) == Ok::<(Seq<u32>, int), DecodeFault>(
                (options@, q as int),
            ),
            Err(e) => parse_options(s@, p as int) == Err::<(Seq<u32>, int), DecodeFault>(e@),
        },
{
    let (count, p1) = match read_u32(s, p) {
        Ok(v) => v,
        Err(e) => return Err(e),
    };
    let ghost item = word_item();
    let mut options: Vec<u32> = Vec::new();
    let mut at = p1;
    let mut i: u32 = 0;
    while i < count
        invariant
            i <= count,
            item == word_item(),
            parse_options(s@, p as int) == parse_many(s@, p1 as int, count as nat, item),
            parse_many(s@, p1 as int, count as nat, item) == prepend(
                options@,
                parse_many(s@, at as int, (count - i) as nat, item),
            ),
        decreases count - i,
    {
        match read_u32(s, at) {
            Ok((v, q)) => {
                proof {
                    lemma_many_step(s@, at as int, (count - i) as nat, item, options@, v, q as int);
                }
                options.push(v);
                at = q;
            },
            Err(e) => {
                proof {
                    lemma_many_fail(s@, at as int, (count - i) as nat, item, e@);
                }
                return Err(e);
            },
        }
        i = i + 1;
    }
    assert(options@ + Seq::<u32>::empty() =~= options@);
    Ok((options, at))
}

fn read_opt64(s: &[u8], p: usize, present: bool) -> (r: Result<(Option<u64>, usize), DecodeError>)
    ensures
        agrees(r, parse_opt64(s@, p as int, present)),
{
    if !present {
        return Ok((None, p));
    }
    match read_u64(s, p) {
        Ok((v, q)) => Ok((Some(v), q)),
        Err(e) => Err(e),
    }
}

fn read_base(s: &[u8], p: usize, m: u8) -> (r: Result<
    ((Option<u64>, Option<u64>, Option<u64>, Option<u64>), usize),
    DecodeError,
>)
    ensures
        agrees(r, parse_base(s@, p as int, m)),
{
    proof {
        reveal(parse_base);
    }
    let (left, q1) = match read_opt64(s, p, m & 1u8 != 0u8) {
        Ok(v) => v,
        Err(e) => return Err(e),
    };
    let (top, q2) = match read_opt64(s, q1, m & 2u8 != 0u8) {
        Ok(v) => v,
        Err(e) => return Err(e),
    };
    let (width, q3) = match read_opt64(s, q2, m & 4u8 != 0u8) {
        Ok(v) => v,
        Err(e) => return Err(e),
    };
    let (height, q4) = match read_opt64(s, q3, m & 8u8 != 0u8) {
        Ok(v) => v,
        Err(e) => return Err(e),
    };
    Ok(((left, top, width, height), q4))
}

fn read_anchor(s: &[u8], p: usize, m: u8) -> (r: Result<(AnchorSpec, usize), DecodeError>)
    ensures
        agrees(r, parse_anchor(s@, p as int, m)),
{
    proof {
        reveal(parse_anchor);
    }
    let (left, q1) = match read_opt64(s, p, m & 16u8 != 0u8) {
        Ok(v) => v,
        Err(e) => return Err(e),
    };
    let (top, q2) = match read_opt64(s, q1, m & 32u8 != 0u8) {
        Ok(v) => v,
        Err(e) => return Err(e),
    };
    let (right, q3) = match read_opt64(s, q2, m & 64u8 != 0u8) {
        Ok(v) => v,
        Err(e) => return Err(e),
    };
    let (bottom, q4) = match read_opt64(s, q3, m & 128u8 != 0u8) {
        Ok(v) => v,
        Err(e) => return Err(e),
    };
    Ok((AnchorSpec { left, top, right, bottom }, q4))
}

fn read_layout(s: &[u8], p: usize) -> (r: Result<(Option<LayoutSpec>, usize), DecodeError>)
    ensures
        agrees(r, parse_layout(s@, p as int)),
{
    proof {
        reveal(parse_layout);
        reveal(parse_placement);
    }
    let (tag, p1) = match read_u8(s, p) {
        Ok(v) => v,
        Err(e) => return Err(e),
    };
    if tag == 0 {
        return Ok((None, p1));
    }
    if tag != 1 {
        return Err(DecodeError::InvalidTag { section: "layout", tag });
    }
    let (m, p2) = match read_u8(s, p1) {
        Ok(v) => v,
        Err(e) => return Err(e),
    };
    let ((left, top, width, height), p3) = match read_base(s, p2, m) {
        Ok(v) => v,
        Err(e) => return Err(e),
    };
    let (anchor, p4) = match read_anchor(s, p3, m) {
        Ok(v) => v,
        Err(e) => return Err(e),
    };
    Ok((Some(LayoutSpec { left, top, width, height, anchor }), p4))
}

fn read_node(s: &[u8], p: usize) -> (r: Result<(UiNodeSpec, usize), DecodeError>)
    ensures
        match r {
            Ok((n, q)) => parse_node(s@, p as int) == Ok::<(NodeModel, int), DecodeFault>((n@, q as int)),
            Err(e) => parse_node(s@, p as int) == Err::<(NodeModel, int), DecodeFault>(e@),
        },
{
    proof {
        reveal(parse_node_rest);
    }
    proof {
        reveal(parse_node);
    }
    let (id, p1) = match read_u32(s, p) {
        Ok(v) => v,
        Err(e) => return Err(e),
    };
    let (tag, p2) = match read_u8(s, p1) {
        Ok(v) => v,
        Err(e) => return Err(e),
    };
    let kind = match tag {
        0 => UiKind::Column,
        1 => UiKind::Text,
        2 => UiKind::Button,
        3 => UiKind::Row,
        4 => UiKind::Progress,
        5 => UiKind::Switch,
        6 => UiKind::Input,
        7 => UiKind::Slider,
        8 => UiKind::Checkbox,
        9 => UiKind::Dropdown,
        10 => UiKind::Roller,
        11 => UiKind::Led,
        12 => UiKind::Spinner,
        13 => UiKind::Scale,
        14 => UiKind::List,
        15 => UiKind::Tabview,
        _ => return Err(DecodeError::InvalidTag { section: "ui kind", tag }),
    };
    let (count, p3) = match read_u32(s, p2) {
        Ok(v) => v,
        Err(e) => return Err(e),
    };
    let (children, p4) = match read_children(s, p3, count) {
        Ok(v) => v,
        Err(e) => return Err(e),
    };
    let ((text, value, on_click), p5) = match read_links(s, p4) {
        Ok(v) => v,
        Err(e) => return Err(e),
    };
    let (text_style, p6) = match read_style(s, p5) {
        Ok(v) => v,
        Err(e) => return Err(e),
    };
    let (range, p7) = match read_range(s, p6) {
        Ok(v) => v,
        Err(e) => return Err(e),
    };
    let (options, p8) = match read_options(s, p7) {
        Ok(v) => v,
        Err(e) => return Err(e),
    };
    let (layout, p9) = match read_layout(s, p8) {
        Ok(v) => v,
        Err(e) => return Err(e),
    };
    Ok((UiNodeSpec { id: NodeId(id), kind, children, text, value, on_click, text_style, range, options, layout }, p9))
}


fn read_section<'a>(s: &'a [u8], p: usize, kind: u8) -> (r: Result<(&'a [u8], usize), DecodeError>)
    ensures
        match r {
            Ok((body, q)) => parse_section(s@, p as int, kind) == Ok::<(Seq<u8>, int), DecodeFault>((body@, q as int)),
            Err(e) => parse_section(s@, p as int, kind) == Err::<(Seq<u8>, int), DecodeFault>(e@),
        },
{
    let (tag, p1) = match read_u8(s, p) {
        Ok(v) => v,
        Err(e) => return Err(e),
    };
    if tag != kind {
        return Err(DecodeError::InvalidTag { section: "section", tag });
    }
    let (length, p2) = match read_u32(s, p1) {
        Ok(v) => v,
        Err(e) => return Err(e),
    };
    if p2 > s.len() || (s.len() - p2) < length as usize {
        return Err(DecodeError::Truncated);
    }
    let end = p2 + length as usize;
    Ok((&s[p2..end], end))
}

fn read_constants(b: &[u8]) -> (r: Result<Vec<Constant>, DecodeError>)
    ensures
        match r {
            Ok(constants) => parse_body(b@, constant_item()) == Ok::<Seq<ConstantModel>, DecodeFault>(
                constants@.map_values(|c: Constant| c@),
            ),
            Err(e) => parse_body(b@, constant_item()) == Err::<Seq<ConstantModel>, DecodeFault>(e@),
        },
{
    proof {
        reveal(parse_body);
    }
    let (count, p) = match read_u32(b, 0) {
        Ok(v) => v,
        Err(e) => return Err(e),
    };
    let ghost item = constant_item();
    let mut items: Vec<Constant> = Vec::new();
    let mut at = p;
    let mut i: u32 = 0;
    assert(items@.map_values(|c: Constant| c@) =~= Seq::<ConstantModel>::empty());
    assert(prepend(Seq::<ConstantModel>::empty(), parse_many(b@, p as int, count as nat, item)) == parse_many(b@, p as int, count as nat, item)) by {
        match parse_many(b@, p as int, count as nat, item) {
            Ok((xs, q)) => { assert(Seq::<ConstantModel>::empty() + xs =~= xs); },
            Err(_) => {},
        }
    }
    while i < count
        invariant
            i <= count,
            item == constant_item(),
            rd_u32(b@, 0) == Ok::<(u32, int), DecodeFault>((count, p as int)),
            parse_many(b@, p as int, count as nat, item) == prepend(
                items@.map_values(|c: Constant| c@),
                parse_many(b@, at as int, (count - i) as nat, item),
            ),
        decreases count - i,
    {
        match read_constant(b, at) {
            Ok((constant, q)) => {
                proof {
                    lemma_many_step(b@, at as int, (count - i) as nat, item, items@.map_values(|c: Constant| c@), constant@, q as int);
                }
                let ghost prev = items@;
                let ghost view = constant@;
                items.push(constant);
                assert(items@.map_values(|c: Constant| c@) =~= prev.map_values(|c: Constant| c@).push(view));
                at = q;
            },
            Err(e) => {
                proof {
                    lemma_many_fail(b@, at as int, (count - i) as nat, item, e@);
                    reveal(parse_body);
                    reveal(parse_ui_body);
                }
                return Err(e);
            },
        }
        i = i + 1;
    }
    assert(items@.map_values(|c: Constant| c@) + Seq::<ConstantModel>::empty() =~= items@.map_values(|c: Constant| c@));
    if at != b.len() {
        return Err(DecodeError::TrailingBytes);
    }
    Ok(items)
}


fn read_states(b: &[u8]) -> (r: Result<Vec<StateDecl>, DecodeError>)
    ensures
        match r {
            Ok(states) => parse_body(b@, state_item()) == Ok::<Seq<StateDecl>, DecodeFault>(states@),
            Err(e) => parse_body(b@, state_item()) == Err::<Seq<StateDecl>, DecodeFault>(e@),
        },
{
    proof {
        reveal(parse_body);
    }
    let (count, p) = match read_u32(b, 0) {
        Ok(v) => v,
        Err(e) => return Err(e),
    };
    let ghost item = state_item();
    let mut items: Vec<StateDecl> = Vec::new();
    let mut at = p;
    let mut i: u32 = 0;
    assert(prepend(Seq::<StateDecl>::empty(), parse_many(b@, p as int, count as nat, item)) == parse_many(b@, p as int, count as nat, item)) by {
        match parse_many(b@, p as int, count as nat, item) {
            Ok((xs, q)) => { assert(Seq::<StateDecl>::empty() + xs =~= xs); },
            Err(_) => {},
        }
    }
    assert(items@ =~= Seq::<StateDecl>::empty());
    while i < count
        invariant
            i <= count,
            item == state_item(),
            rd_u32(b@, 0) == Ok::<(u32, int), DecodeFault>((count, p as int)),
            parse_many(b@, p as int, count as nat, item) == prepend(
                items@,
                parse_many(b@, at as int, (count - i) as nat, item),
            ),
        decreases count - i,
    {
        match read_state(b, at) {
            Ok((state, q)) => {
                proof {
                    lemma_many_step(b@, at as int, (count - i) as nat, item, items@, state, q as int);
                }
                items.push(state);
                at = q;
            },
            Err(e) => {
                proof {
                    lemma_many_fail(b@, at as int, (count - i) as nat, item, e@);
                    reveal(parse_body);
                    reveal(parse_ui_body);
                }
                return Err(e);
            },
        }
        i = i + 1;
    }
    assert(items@ + Seq::<StateDecl>::empty() =~= items@);
    if at != b.len() {
        return Err(DecodeError::TrailingBytes);
    }
    Ok(items)
}

fn read_functions(b: &[u8]) -> (r: Result<Vec<Function>, DecodeError>)
    ensures
        match r {
            Ok(functions) => parse_body(b@, function_item()) == Ok::<Seq<FunctionModel>, DecodeFault>(
                functions@.map_values(|f: Function| f@),
            ),
            Err(e) => parse_body(b@, function_item()) == Err::<Seq<FunctionModel>, DecodeFault>(e@),
        },
{
    proof {
        reveal(parse_body);
    }
    let (count, p) = match read_u32(b, 0) {
        Ok(v) => v,
        Err(e) => return Err(e),
    };
    let ghost item = function_item();
    let mut items: Vec<Function> = Vec::new();
    let mut at = p;
    let mut i: u32 = 0;
    assert(items@.map_values(|f: Function| f@) =~= Seq::<FunctionModel>::empty());
    assert(prepend(Seq::<FunctionModel>::empty(), parse_many(b@, p as int, count as nat, item)) == parse_many(b@, p as int, count as nat, item)) by {
        match parse_many(b@, p as int, count as nat, item) {
            Ok((xs, q)) => { assert(Seq::<FunctionModel>::empty() + xs =~= xs); },
            Err(_) => {},
        }
    }
    while i < count
        invariant
            i <= count,
            item == function_item(),
            rd_u32(b@, 0) == Ok::<(u32, int), DecodeFault>((count, p as int)),
            parse_many(b@, p as int, count as nat, item) == prepend(
                items@.map_values(|f: Function| f@),
                parse_many(b@, at as int, (count - i) as nat, item),
            ),
        decreases count - i,
    {
        match read_function(b, at) {
            Ok((function, q)) => {
                proof {
                    lemma_many_step(b@, at as int, (count - i) as nat, item, items@.map_values(|f: Function| f@), function@, q as int);
                }
                let ghost prev = items@;
                let ghost view = function@;
                items.push(function);
                assert(items@.map_values(|f: Function| f@) =~= prev.map_values(|f: Function| f@).push(view));
                at = q;
            },
            Err(e) => {
                proof {
                    lemma_many_fail(b@, at as int, (count - i) as nat, item, e@);
                    reveal(parse_body);
                    reveal(parse_ui_body);
                }
                return Err(e);
            },
        }
        i = i + 1;
    }
    assert(items@.map_values(|f: Function| f@) + Seq::<FunctionModel>::empty() =~= items@.map_values(|f: Function| f@));
    if at != b.len() {
        return Err(DecodeError::TrailingBytes);
    }
    Ok(items)
}

fn read_ui(b: &[u8]) -> (r: Result<(Vec<UiNodeSpec>, NodeId), DecodeError>)
    ensures
        match r {
            Ok((nodes, root)) => parse_ui_body(b@) == Ok::<(Seq<NodeModel>, NodeId), DecodeFault>(
                (nodes@.map_values(|n: UiNodeSpec| n@), root),
            ),
            Err(e) => parse_ui_body(b@) == Err::<(Seq<NodeModel>, NodeId), DecodeFault>(e@),
        },
{
    proof {
        reveal(parse_ui_body);
    }
    let (count, p) = match read_u32(b, 0) {
        Ok(v) => v,
        Err(e) => return Err(e),
    };
    let ghost item = node_item();
    let mut items: Vec<UiNodeSpec> = Vec::new();
    let mut at = p;
    let mut i: u32 = 0;
    assert(items@.map_values(|n: UiNodeSpec| n@) =~= Seq::<NodeModel>::empty());
    assert(prepend(Seq::<NodeModel>::empty(), parse_many(b@, p as int, count as nat, item)) == parse_many(b@, p as int, count as nat, item)) by {
        match parse_many(b@, p as int, count as nat, item) {
            Ok((xs, q)) => { assert(Seq::<NodeModel>::empty() + xs =~= xs); },
            Err(_) => {},
        }
    }
    while i < count
        invariant
            i <= count,
            item == node_item(),
            rd_u32(b@, 0) == Ok::<(u32, int), DecodeFault>((count, p as int)),
            parse_many(b@, p as int, count as nat, item) == prepend(
                items@.map_values(|n: UiNodeSpec| n@),
                parse_many(b@, at as int, (count - i) as nat, item),
            ),
        decreases count - i,
    {
        match read_node(b, at) {
            Ok((node, q)) => {
                proof {
                    lemma_many_step(b@, at as int, (count - i) as nat, item, items@.map_values(|n: UiNodeSpec| n@), node@, q as int);
                }
                let ghost prev = items@;
                let ghost view = node@;
                items.push(node);
                assert(items@.map_values(|n: UiNodeSpec| n@) =~= prev.map_values(|n: UiNodeSpec| n@).push(view));
                at = q;
            },
            Err(e) => {
                proof {
                    lemma_many_fail(b@, at as int, (count - i) as nat, item, e@);
                    reveal(parse_body);
                    reveal(parse_ui_body);
                }
                return Err(e);
            },
        }
        i = i + 1;
    }
    assert(items@.map_values(|n: UiNodeSpec| n@) + Seq::<NodeModel>::empty() =~= items@.map_values(|n: UiNodeSpec| n@));
    let (root, end) = match read_u32(b, at) {
        Ok(v) => v,
        Err(e) => return Err(e),
    };
    if end != b.len() {
        return Err(DecodeError::TrailingBytes);
    }
    Ok((items, NodeId(root)))
}

/// Reads and validates an image. Every failure of the format is reported
/// as `decode_result` describes it; a well-formed image that breaks a
/// validity rule is reported as `InvalidImage`.
pub fn decode(bytes: &[u8]) -> (r: Result<AppImage, DecodeError>)
    ensures
        match r {
            Ok(image) => decode_result(bytes@) == Ok::<ImageModel, DecodeFault>(image@) && crate::ir::image_valid(
                image@,
            ),
            Err(e) => match decode_result(bytes@) {
                Err(f) => e@ == f,
                Ok(model) => !crate::ir::image_valid(model) && match e {
                    DecodeError::InvalidImage(message) => crate::ir::reports(model, message@, crate::ir::first_fault(model)),
                    _ => false,
                },
            },
        },
{
    if bytes.len() < HEADER_LEN {
        return Err(DecodeError::Truncated);
    }
    if bytes[0] != 0x4d || bytes[1] != 0x42 || bytes[2] != 0x43 || bytes[3] != 0x31 {
        assert(bytes@.subrange(0, 4) != magic()) by {
            if bytes@.subrange(0, 4) == magic() {
                assert(bytes@.subrange(0, 4)[0] == bytes@[0]);
                assert(bytes@.subrange(0, 4)[1] == bytes@[1]);
                assert(bytes@.subrange(0, 4)[2] == bytes@[2]);
                assert(bytes@.subrange(0, 4)[3] == bytes@[3]);
            }
        }
        return Err(DecodeError::BadMagic);
    }
    assert(bytes@.subrange(0, 4) =~= magic());
    let version = (bytes[4] as u16) | ((bytes[5] as u16) << 8u16);
    if version != VERSION {
        return Err(DecodeError::UnsupportedVersion(version));
    }
    let payload_len = (bytes[6] as u32) | ((bytes[7] as u32) << 8u32) | ((bytes[8] as u32) << 16u32) | ((bytes[9]
        as u32) << 24u32);
    if bytes.len() - HEADER_LEN != payload_len as usize {
        return Err(DecodeError::LengthMismatch);
    }
    let expected = (bytes[10] as u32) | ((bytes[11] as u32) << 8u32) | ((bytes[12] as u32) << 16u32) | ((bytes[13]
        as u32) << 24u32);
    let payload = &bytes[HEADER_LEN..bytes.len()];
    if checksum(payload) != expected {
        return Err(DecodeError::ChecksumMismatch);
    }
    let (body, p1) = match read_section(payload, 0, 1) {
        Ok(v) => v,
        Err(e) => return Err(e),
    };
    let constants = match read_constants(body) {
        Ok(v) => v,
        Err(e) => return Err(e),
    };
    let (body, p2) = match read_section(payload, p1, 2) {
        Ok(v) => v,
        Err(e) => return Err(e),
    };
    let states = match read_states(body) {
        Ok(v) => v,
        Err(e) => return Err(e),
    };
    let (body, p3) = match read_section(payload, p2, 3) {
        Ok(v) => v,
        Err(e) => return Err(e),
    };
    let functions = match read_functions(body) {
        Ok(v) => v,
        Err(e) => return Err(e),
    };
    let (body, p4) = match read_section(payload, p3, 4) {
        Ok(v) => v,
        Err(e) => return Err(e),
    };
    let (nodes, root) = match read_ui(body) {
        Ok(v) => v,
        Err(e) => return Err(e),
    };
    if p4 != payload.len() {
        return Err(DecodeError::TrailingBytes);
    }
    let image = AppImage { constants, states, functions, nodes, root };
    match crate::ir::validate(&image) {
        Ok(()) => Ok(image),
        Err(error) => Err(DecodeError::InvalidImage(error.0)),
    }
}


// ---------------------------------------------------------------------
// Reading back what was written

/// `bytes` stand in `s` from position `p`.
pub open spec fn at(s: Seq<u8>, p: int, bytes: Seq<u8>) -> bool {
    &&& 0 <= p
    &&& p + bytes.len() <= s.len()
    &&& s.subrange(p, p + bytes.len()) == bytes
}

proof fn lemma_at_split(s: Seq<u8>, p: int, a: Seq<u8>, b: Seq<u8>)
    requires
        at(s, p, a + b),
    ensures
        at(s, p, a),
        at(s, p + a.len(), b),
{
    let whole = s.subrange(p, p + (a + b).len());
    assert forall|k: int| 0 <= k < a.len() implies s[p + k] == a[k] by {
        assert(whole[k] == s[p + k]);
        assert((a + b)[k] == a[k]);
    }
    assert(s.subrange(p, p + a.len()) =~= a);
    assert forall|k: int| 0 <= k < b.len() implies s[p + a.len() + k] == b[k] by {
        assert(whole[a.len() + k] == s[p + a.len() + k]);
        assert((a + b)[a.len() + k] == b[k]);
    }
    assert(s.subrange(p + a.len(), p + a.len() + b.len()) =~= b);
}

proof fn lemma_rd_u8(s: Seq<u8>, p: int, v: u8)
    requires
        at(s, p, seq![v]),
    ensures
        rd_u8(s, p) == Ok::<(u8, int), DecodeFault>((v, p + 1)),
{
    assert(s.subrange(p, p + 1)[0] == s[p]);
}

proof fn lemma_rd_u16(s: Seq<u8>, p: int, v: u16)
    requires
        at(s, p, le16(v)),
    ensures
        rd_u16(s, p) == Ok::<(u16, int), DecodeFault>((v, p + 2)),
{
    lemma_le16(v);
    let sub = s.subrange(p, p + 2);
    assert(sub[0] == s[p] && sub[1] == s[p + 1]);
}

proof fn lemma_rd_u32(s: Seq<u8>, p: int, v: u32)
    requires
        at(s, p, le32(v)),
    ensures
        rd_u32(s, p) == Ok::<(u32, int), DecodeFault>((v, p + 4)),
{
    lemma_le32(v);
    let sub = s.subrange(p, p + 4);
    assert(sub[0] == s[p] && sub[1] == s[p + 1] && sub[2] == s[p + 2] && sub[3] == s[p + 3]);
}

proof fn lemma_rd_u64(s: Seq<u8>, p: int, v: u64)
    requires
        at(s, p, le64(v)),
    ensures
        rd_u64(s, p) == Ok::<(u64, int), DecodeFault>((v, p + 8)),
{
    let low = (v & 0xffff_ffff) as u32;
    let high = (v >> 32u64) as u32;
    lemma_at_split(s, p, le32(low), le32(high));
    lemma_rd_u32(s, p, low);
    lemma_rd_u32(s, p + 4, high);
    lemma_le64(v);
}

/// Each of `xs`, written at any position of `s`, is read back by `item`.
pub open spec fn round_trips<T>(
    s: Seq<u8>,
    xs: Seq<T>,
    enc: spec_fn(T) -> Seq<u8>,
    item: spec_fn(Seq<u8>, int) -> Result<(T, int), DecodeFault>,
) -> bool {
    forall|i: int, q: int|
        0 <= i < xs.len() && #[trigger] at(s, q, enc(xs[i])) ==> #[trigger] item(s, q) == Ok::<(T, int), DecodeFault>(
            (xs[i], q + enc(xs[i]).len()),
        )
}

proof fn lemma_many<T>(
    s: Seq<u8>,
    p: int,
    xs: Seq<T>,
    enc: spec_fn(T) -> Seq<u8>,
    item: spec_fn(Seq<u8>, int) -> Result<(T, int), DecodeFault>,
)
    requires
        at(s, p, flat(xs.map_values(enc))),
        round_trips(s, xs, enc, item),
    ensures
        parse_many(s, p, xs.len(), item) == Ok::<(Seq<T>, int), DecodeFault>(
            (xs, p + flat(xs.map_values(enc)).len()),
        ),
    decreases xs.len(),
{
    if xs.len() == 0 {
        assert(xs =~= Seq::<T>::empty());
    } else {
        let parts = xs.map_values(enc);
        let rest = xs.drop_first();
        assert(parts.drop_first() =~= rest.map_values(enc));
        assert(flat(parts) == parts[0] + flat(parts.drop_first()));
        lemma_at_split(s, p, enc(xs[0]), flat(rest.map_values(enc)));
        assert(at(s, p, enc(xs[0])));
        assert(item(s, p) == Ok::<(T, int), DecodeFault>((xs[0], p + enc(xs[0]).len())));
        assert(round_trips(s, rest, enc, item)) by {
            assert forall|i: int, q: int| 0 <= i < rest.len() && #[trigger] at(s, q, enc(rest[i])) implies #[trigger] item(
                s,
                q,
            ) == Ok::<(T, int), DecodeFault>((rest[i], q + enc(rest[i]).len())) by {
                assert(rest[i] == xs[i + 1]);
            }
        }
        lemma_many(s, p + enc(xs[0]).len(), rest, enc, item);
        assert(seq![xs[0]] + rest =~= xs);
    }
}

pub open spec fn text_fits(constant: ConstantModel) -> bool {
    match constant {
        ConstantModel::Text(text) => u32_fits(encode_utf8(text).len() as int),
        _ => true,
    }
}

proof fn lemma_constant(s: Seq<u8>, p: int, constant: ConstantModel)
    requires
        at(s, p, constant_bytes(constant)),
        text_fits(constant),
    ensures
        parse_constant(s, p) == Ok::<(ConstantModel, int), DecodeFault>((constant, p + constant_bytes(constant).len())),
{
    reveal(parse_constant);
    match constant {
        ConstantModel::Number(bits) => {
            lemma_at_split(s, p, seq![0u8], le64(bits));
            lemma_rd_u8(s, p, 0);
            lemma_rd_u64(s, p + 1, bits);
        },
        ConstantModel::Text(text) => {
            let bytes = encode_utf8(text);
            let length = bytes.len() as u32;
            lemma_at_split(s, p, seq![1u8] + le32(length), bytes);
            lemma_at_split(s, p, seq![1u8], le32(length));
            lemma_rd_u8(s, p, 1);
            lemma_rd_u32(s, p + 1, length);
            vstd::utf8::encode_utf8_valid_utf8(text);
            vstd::utf8::encode_utf8_decode_utf8(text);
        },
        ConstantModel::Bool(b) => {
            let v: u8 = if b { 1 } else { 0 };
            assert(constant_bytes(constant) =~= seq![2u8] + seq![v]);
            lemma_at_split(s, p, seq![2u8], seq![v]);
            lemma_rd_u8(s, p, 2);
            lemma_rd_u8(s, p + 1, v);
        },
        ConstantModel::Null => {
            lemma_rd_u8(s, p, 3);
        },
    }
}

proof fn lemma_state(s: Seq<u8>, p: int, state: StateDecl)
    requires
        at(s, p, state_bytes(state)),
    ensures
        parse_state(s, p) == Ok::<(StateDecl, int), DecodeFault>((state, p + state_bytes(state).len())),
{
    lemma_at_split(s, p, seq![scalar_tag(state.ty)], le32(state.initial));
    lemma_rd_u8(s, p, scalar_tag(state.ty));
    lemma_rd_u32(s, p + 1, state.initial);
}

proof fn lemma_tagged_u32(s: Seq<u8>, p: int, tag: u8, v: u32)
    requires
        at(s, p, seq![tag] + le32(v)),
    ensures
        rd_u8(s, p) == Ok::<(u8, int), DecodeFault>((tag, p + 1)),
        rd_u32(s, p + 1) == Ok::<(u32, int), DecodeFault>((v, p + 5)),
{
    lemma_at_split(s, p, seq![tag], le32(v));
    lemma_rd_u8(s, p, tag);
    lemma_rd_u32(s, p + 1, v);
}

proof fn lemma_tagged_u16(s: Seq<u8>, p: int, tag: u8, v: u16)
    requires
        at(s, p, seq![tag] + le16(v)),
    ensures
        rd_u8(s, p) == Ok::<(u8, int), DecodeFault>((tag, p + 1)),
        rd_u16(s, p + 1) == Ok::<(u16, int), DecodeFault>((v, p + 3)),
{
    lemma_at_split(s, p, seq![tag], le16(v));
    lemma_rd_u8(s, p, tag);
    lemma_rd_u16(s, p + 1, v);
}

proof fn lemma_instruction(s: Seq<u8>, p: int, instruction: Instruction)
    requires
        at(s, p, instruction_bytes(instruction)),
    ensures
        parse_instruction(s, p) == Ok::<(Instruction, int), DecodeFault>(
            (instruction, p + instruction_bytes(instruction).len()),
        ),
{
    match instruction {
        Instruction::Const(v) => lemma_tagged_u32(s, p, 0, v),
        Instruction::LoadLocal(v) => lemma_tagged_u16(s, p, 1, v),
        Instruction::StoreLocal(v) => lemma_tagged_u16(s, p, 2, v),
        Instruction::LoadState(id) => lemma_tagged_u32(s, p, 3, id.0),
        Instruction::StoreState(id) => lemma_tagged_u32(s, p, 4, id.0),
        Instruction::Jump(v) => lemma_tagged_u32(s, p, 17, v),
        Instruction::JumpIfFalse(v) => lemma_tagged_u32(s, p, 18, v),
        _ => {
            lemma_rd_u8(s, p, instruction_bytes(instruction)[0]);
        },
    }
}

proof fn lemma_function(s: Seq<u8>, p: int, function: FunctionModel)
    requires
        at(s, p, function_bytes(function)),
        u32_fits(function.code.len() as int),
    ensures
        parse_function(s, p) == Ok::<(FunctionModel, int), DecodeFault>((function, p + function_bytes(function).len())),
{
    reveal(parse_function);
    reveal(function_bytes);
    let kind = kind_bytes(function.kind);
    let a = kind + seq![function.arg_count];
    let b = a + le16(function.locals);
    let c = b + le16(function.max_stack);
    let d = c + le32(function.code.len() as u32);
    let code = code_bytes(function.code);
    assert(function_bytes(function) == d + code);
    lemma_at_split(s, p, d, code);
    lemma_at_split(s, p, c, le32(function.code.len() as u32));
    lemma_at_split(s, p, b, le16(function.max_stack));
    lemma_at_split(s, p, a, le16(function.locals));
    lemma_at_split(s, p, kind, seq![function.arg_count]);
    match function.kind {
        FunctionKind::Init => lemma_tagged_u32(s, p, 0, 0),
        FunctionKind::Binding(id) => lemma_tagged_u32(s, p, 1, id.0),
        FunctionKind::Handler(id) => lemma_tagged_u32(s, p, 2, id.0),
    }
    lemma_rd_u8(s, p + 5, function.arg_count);
    lemma_rd_u16(s, p + 6, function.locals);
    lemma_rd_u16(s, p + 8, function.max_stack);
    lemma_rd_u32(s, p + 10, function.code.len() as u32);
    assert(round_trips(s, function.code, |i: Instruction| instruction_bytes(i), instruction_item())) by {
        assert forall|i: int, q: int|
            0 <= i < function.code.len() && #[trigger] at(s, q, instruction_bytes(function.code[i])) implies #[trigger] instruction_item()(
            s,
            q,
        ) == Ok::<(Instruction, int), DecodeFault>((function.code[i], q + instruction_bytes(function.code[i]).len())) by {
            lemma_instruction(s, q, function.code[i]);
        }
    }
    lemma_many(s, p + 14, function.code, |i: Instruction| instruction_bytes(i), instruction_item());
}


proof fn lemma_at_byte(s: Seq<u8>, p: int, bytes: Seq<u8>, k: int)
    requires
        at(s, p, bytes),
        0 <= k < bytes.len(),
    ensures
        rd_u8(s, p + k) == Ok::<(u8, int), DecodeFault>((bytes[k], p + k + 1)),
{
    assert(s.subrange(p, p + bytes.len())[k] == s[p + k]);
}

proof fn lemma_whole(s: Seq<u8>)
    ensures
        at(s, 0, s),
{
    assert(s.subrange(0, s.len() as int) =~= s);
}

pub open spec fn style_ok(style: Option<TextStyle>) -> bool {
    match style {
        Some(style) => crate::ir::style_valid(style),
        None => true,
    }
}

proof fn lemma_style(s: Seq<u8>, p: int, style: Option<TextStyle>)
    requires
        at(s, p, style_bytes(style)),
        style_ok(style),
    ensures
        parse_style(s, p) == Ok::<(Option<TextStyle>, int), DecodeFault>((style, p + style_bytes(style).len())),
{
    let bytes = style_bytes(style);
    lemma_at_byte(s, p, bytes, 0);
    match style {
        None => {},
        Some(st) => {
            lemma_at_byte(s, p, bytes, 1);
            lemma_at_byte(s, p, bytes, 2);
            lemma_at_byte(s, p, bytes, 3);
            lemma_at_byte(s, p, bytes, 4);
        },
    }
}

proof fn lemma_range(s: Seq<u8>, p: int, range: Option<(u64, u64)>)
    requires
        at(s, p, range_bytes(range)),
    ensures
        parse_range(s, p) == Ok::<(Option<(u64, u64)>, int), DecodeFault>((range, p + range_bytes(range).len())),
{
    match range {
        None => {
            lemma_at_byte(s, p, range_bytes(range), 0);
        },
        Some((min, max)) => {
            lemma_at_split(s, p, seq![1u8] + le64(min), le64(max));
            lemma_at_split(s, p, seq![1u8], le64(min));
            lemma_rd_u8(s, p, 1);
            lemma_rd_u64(s, p + 1, min);
            lemma_rd_u64(s, p + 9, max);
        },
    }
}

proof fn lemma_options(s: Seq<u8>, p: int, options: Seq<u32>)
    requires
        at(s, p, options_bytes(options)),
        u32_fits(options.len() as int),
    ensures
        parse_options(s, p) == Ok::<(Seq<u32>, int), DecodeFault>((options, p + options_bytes(options).len())),
{
    let enc = |o: u32| le32(o);
    lemma_at_split(s, p, le32(options.len() as u32), flat(options.map_values(enc)));
    lemma_rd_u32(s, p, options.len() as u32);
    assert(round_trips(s, options, enc, word_item())) by {
        assert forall|i: int, q: int| 0 <= i < options.len() && #[trigger] at(s, q, enc(options[i])) implies #[trigger] word_item()(
            s,
            q,
        ) == Ok::<(u32, int), DecodeFault>((options[i], q + enc(options[i]).len())) by {
            lemma_rd_u32(s, q, options[i]);
        }
    }
    lemma_many(s, p + 4, options, enc, word_item());
}

proof fn lemma_mask_bits(m: u8, b0: bool, b1: bool, b2: bool, b3: bool, b4: bool, b5: bool, b6: bool, b7: bool)
    by (bit_vector)
    requires
        m == (if b0 { 1u8 } else { 0u8 }) | (if b1 { 2u8 } else { 0u8 }) | (if b2 { 4u8 } else { 0u8 }) | (if b3 {
            8u8
        } else {
            0u8
        }) | (if b4 { 16u8 } else { 0u8 }) | (if b5 { 32u8 } else { 0u8 }) | (if b6 { 64u8 } else { 0u8 }) | (if b7 {
            128u8
        } else {
            0u8
        }),
    ensures
        (m & 1u8 != 0u8) == b0,
        (m & 2u8 != 0u8) == b1,
        (m & 4u8 != 0u8) == b2,
        (m & 8u8 != 0u8) == b3,
        (m & 16u8 != 0u8) == b4,
        (m & 32u8 != 0u8) == b5,
        (m & 64u8 != 0u8) == b6,
        (m & 128u8 != 0u8) == b7,
{
}

proof fn lemma_opt64(s: Seq<u8>, p: int, v: Option<u64>)
    requires
        at(s, p, opt64_bytes(v)),
    ensures
        parse_opt64(s, p, v is Some) == Ok::<(Option<u64>, int), DecodeFault>((v, p + opt64_bytes(v).len())),
{
    match v {
        None => {},
        Some(x) => lemma_rd_u64(s, p, x),
    }
}

proof fn lemma_anchor(s: Seq<u8>, p: int, a: AnchorSpec, m: u8)
    requires
        at(s, p, opt64_bytes(a.left) + opt64_bytes(a.top) + opt64_bytes(a.right) + opt64_bytes(a.bottom)),
        (m & 16u8 != 0u8) == a.left is Some,
        (m & 32u8 != 0u8) == a.top is Some,
        (m & 64u8 != 0u8) == a.right is Some,
        (m & 128u8 != 0u8) == a.bottom is Some,
    ensures
        parse_anchor(s, p, m) == Ok::<(AnchorSpec, int), DecodeFault>(
            (a, p + (opt64_bytes(a.left) + opt64_bytes(a.top) + opt64_bytes(a.right) + opt64_bytes(a.bottom)).len()),
        ),
{
    reveal(parse_anchor);
    let b0 = opt64_bytes(a.left);
    let b1 = opt64_bytes(a.top);
    let b2 = opt64_bytes(a.right);
    let b3 = opt64_bytes(a.bottom);
    lemma_at_split(s, p, b0 + b1 + b2, b3);
    lemma_at_split(s, p, b0 + b1, b2);
    lemma_at_split(s, p, b0, b1);
    lemma_opt64(s, p, a.left);
    lemma_opt64(s, p + b0.len(), a.top);
    lemma_opt64(s, p + b0.len() + b1.len(), a.right);
    lemma_opt64(s, p + b0.len() + b1.len() + b2.len(), a.bottom);
}

proof fn lemma_layout_mask(l: LayoutSpec)
    ensures
        (layout_mask(l) & 1u8 != 0u8) == l.left is Some,
        (layout_mask(l) & 2u8 != 0u8) == l.top is Some,
        (layout_mask(l) & 4u8 != 0u8) == l.width is Some,
        (layout_mask(l) & 8u8 != 0u8) == l.height is Some,
        (layout_mask(l) & 16u8 != 0u8) == l.anchor.left is Some,
        (layout_mask(l) & 32u8 != 0u8) == l.anchor.top is Some,
        (layout_mask(l) & 64u8 != 0u8) == l.anchor.right is Some,
        (layout_mask(l) & 128u8 != 0u8) == l.anchor.bottom is Some,
{
    reveal(layout_mask);
    lemma_mask_bits(
        layout_mask(l),
        l.left is Some,
        l.top is Some,
        l.width is Some,
        l.height is Some,
        l.anchor.left is Some,
        l.anchor.top is Some,
        l.anchor.right is Some,
        l.anchor.bottom is Some,
    );
}

proof fn lemma_base(s: Seq<u8>, p: int, l: LayoutSpec, m: u8)
    requires
        at(s, p, opt64_bytes(l.left) + opt64_bytes(l.top) + opt64_bytes(l.width) + opt64_bytes(l.height)),
        (m & 1u8 != 0u8) == l.left is Some,
        (m & 2u8 != 0u8) == l.top is Some,
        (m & 4u8 != 0u8) == l.width is Some,
        (m & 8u8 != 0u8) == l.height is Some,
    ensures
        parse_base(s, p, m) == Ok::<((Option<u64>, Option<u64>, Option<u64>, Option<u64>), int), DecodeFault>(
            (
                (l.left, l.top, l.width, l.height),
                p + (opt64_bytes(l.left) + opt64_bytes(l.top) + opt64_bytes(l.width) + opt64_bytes(l.height)).len(),
            ),
        ),
{
    reveal(parse_base);
    let b0 = opt64_bytes(l.left);
    let b1 = opt64_bytes(l.top);
    let b2 = opt64_bytes(l.width);
    let b3 = opt64_bytes(l.height);
    lemma_at_split(s, p, b0 + b1 + b2, b3);
    lemma_at_split(s, p, b0 + b1, b2);
    lemma_at_split(s, p, b0, b1);
    lemma_opt64(s, p, l.left);
    lemma_opt64(s, p + b0.len(), l.top);
    lemma_opt64(s, p + b0.len() + b1.len(), l.width);
    lemma_opt64(s, p + b0.len() + b1.len() + b2.len(), l.height);
}

proof fn lemma_placement(s: Seq<u8>, p: int, l: LayoutSpec, m: u8)
    requires
        at(s, p, layout_values_bytes(l)),
        (m & 1u8 != 0u8) == l.left is Some,
        (m & 2u8 != 0u8) == l.top is Some,
        (m & 4u8 != 0u8) == l.width is Some,
        (m & 8u8 != 0u8) == l.height is Some,
        (m & 16u8 != 0u8) == l.anchor.left is Some,
        (m & 32u8 != 0u8) == l.anchor.top is Some,
        (m & 64u8 != 0u8) == l.anchor.right is Some,
        (m & 128u8 != 0u8) == l.anchor.bottom is Some,
    ensures
        parse_placement(s, p, m) == Ok::<(LayoutSpec, int), DecodeFault>((l, p + layout_values_bytes(l).len())),
{
    reveal(parse_placement);
    let base = opt64_bytes(l.left) + opt64_bytes(l.top) + opt64_bytes(l.width) + opt64_bytes(l.height);
    let an = opt64_bytes(l.anchor.left) + opt64_bytes(l.anchor.top) + opt64_bytes(l.anchor.right) + opt64_bytes(
        l.anchor.bottom,
    );
    assert(layout_values_bytes(l) =~= base + an);
    lemma_at_split(s, p, base, an);
    lemma_base(s, p, l, m);
    lemma_anchor(s, p + base.len(), l.anchor, m);
}

proof fn lemma_layout(s: Seq<u8>, p: int, layout: Option<LayoutSpec>)
    requires
        at(s, p, layout_bytes(layout)),
    ensures
        parse_layout(s, p) == Ok::<(Option<LayoutSpec>, int), DecodeFault>((layout, p + layout_bytes(layout).len())),
{
    reveal(parse_layout);
    match layout {
        None => {
            reveal(layout_bytes);
            lemma_at_byte(s, p, layout_bytes(layout), 0);
        },
        Some(l) => {
            let bytes = layout_bytes(layout);
            let m = layout_mask(l);
            assert(bytes == seq![1u8, m] + layout_values_bytes(l)) by {
                reveal(layout_bytes);
            }
            lemma_at_split(s, p, seq![1u8, m], layout_values_bytes(l));
            lemma_at_byte(s, p, seq![1u8, m], 0);
            lemma_at_byte(s, p, seq![1u8, m], 1);
            lemma_layout_mask(l);
            lemma_placement(s, p + 2, l, m);
        },
    }
}

pub open spec fn node_rest_bytes(node: NodeModel) -> Seq<u8> {
    text_bytes(node.text) + value_bytes(node.value) + click_bytes(node.on_click) + style_bytes(node.text_style)
        + range_bytes(node.range) + options_bytes(node.options) + layout_bytes(node.layout)
}

#[verifier::rlimit(40)]
proof fn lemma_node_rest(s: Seq<u8>, p: int, node: NodeModel)
    requires
        at(s, p, node_rest_bytes(node)),
        style_ok(node.text_style),
        u32_fits(node.options.len() as int),
    ensures
        parse_node_rest(s, p, node.id, node.kind, node.children) == Ok::<(NodeModel, int), DecodeFault>(
            (node, p + node_rest_bytes(node).len()),
        ),
{
    reveal(parse_node_rest);
    let t = text_bytes(node.text);
    let v = value_bytes(node.value);
    let c = click_bytes(node.on_click);
    let st = style_bytes(node.text_style);
    let r = range_bytes(node.range);
    let o = options_bytes(node.options);
    let ly = layout_bytes(node.layout);
    lemma_at_split(s, p, t + v + c + st + r + o, ly);
    lemma_at_split(s, p, t + v + c + st + r, o);
    lemma_at_split(s, p, t + v + c + st, r);
    lemma_at_split(s, p, t + v + c, st);
    lemma_at_split(s, p, t + v, c);
    lemma_at_split(s, p, t, v);
    match node.text {
        None => lemma_tagged_u32(s, p, 0, 0),
        Some(TextSource::Constant(id)) => lemma_tagged_u32(s, p, 1, id),
        Some(TextSource::Binding(id)) => lemma_tagged_u32(s, p, 2, id.0),
    }
    match node.value {
        None => lemma_tagged_u32(s, p + 5, 0, 0),
        Some(ValueSource::Constant(id)) => lemma_tagged_u32(s, p + 5, 1, id),
        Some(ValueSource::Binding(id)) => lemma_tagged_u32(s, p + 5, 2, id.0),
    }
    match node.on_click {
        None => lemma_tagged_u32(s, p + 10, 0, 0),
        Some(id) => lemma_tagged_u32(s, p + 10, 1, id.0),
    }
    lemma_style(s, p + 15, node.text_style);
    lemma_range(s, p + 15 + st.len(), node.range);
    lemma_options(s, p + 15 + st.len() + r.len(), node.options);
    lemma_layout(s, p + 15 + st.len() + r.len() + o.len(), node.layout);
}

#[verifier::rlimit(40)]
proof fn lemma_node(s: Seq<u8>, p: int, node: NodeModel)
    requires
        at(s, p, node_bytes(node)),
        u32_fits(node.children.len() as int),
        u32_fits(node.options.len() as int),
        style_ok(node.text_style),
    ensures
        parse_node(s, p) == Ok::<(NodeModel, int), DecodeFault>((node, p + node_bytes(node).len())),
{
    reveal(parse_node);
    reveal(node_bytes);
    let head = le32(node.id.0) + seq![ui_kind_tag(node.kind)] + le32(node.children.len() as u32);
    let children = children_bytes(node.children);
    let rest = node_rest_bytes(node);
    assert(node_bytes(node) =~= head + children + rest);
    lemma_at_split(s, p, head + children, rest);
    lemma_at_split(s, p, head, children);
    lemma_at_split(s, p, le32(node.id.0) + seq![ui_kind_tag(node.kind)], le32(node.children.len() as u32));
    lemma_at_split(s, p, le32(node.id.0), seq![ui_kind_tag(node.kind)]);
    lemma_rd_u32(s, p, node.id.0);
    lemma_rd_u8(s, p + 4, ui_kind_tag(node.kind));
    lemma_rd_u32(s, p + 5, node.children.len() as u32);
    assert(round_trips(s, node.children, |c: NodeId| le32(c.0), child_item())) by {
        assert forall|i: int, q: int|
            0 <= i < node.children.len() && #[trigger] at(s, q, le32(node.children[i].0)) implies #[trigger] child_item()(
            s,
            q,
        ) == Ok::<(NodeId, int), DecodeFault>((node.children[i], q + le32(node.children[i].0).len())) by {
            lemma_rd_u32(s, q, node.children[i].0);
        }
    }
    lemma_many(s, p + 9, node.children, |c: NodeId| le32(c.0), child_item());
    lemma_node_rest(s, p + 9 + children.len(), node);
}

proof fn lemma_constants_body(constants: Seq<ConstantModel>)
    requires
        constants_fit(constants),
    ensures
        parse_body(constants_bytes(constants), constant_item()) == Ok::<Seq<ConstantModel>, DecodeFault>(constants),
{
    reveal(parse_body);
    let b = constants_bytes(constants);
    let enc = |c: ConstantModel| constant_bytes(c);
    lemma_whole(b);
    lemma_at_split(b, 0, le32(constants.len() as u32), flat(constants.map_values(enc)));
    lemma_rd_u32(b, 0, constants.len() as u32);
    assert(round_trips(b, constants, enc, constant_item())) by {
        assert forall|i: int, q: int|
            0 <= i < constants.len() && #[trigger] at(b, q, enc(constants[i])) implies #[trigger] constant_item()(b, q)
            == Ok::<(ConstantModel, int), DecodeFault>((constants[i], q + enc(constants[i]).len())) by {
            assert(text_fits(constants[i]));
            lemma_constant(b, q, constants[i]);
        }
    }
    lemma_many(b, 4, constants, enc, constant_item());
}

proof fn lemma_states_body(states: Seq<StateDecl>)
    requires
        u32_fits(states.len() as int),
    ensures
        parse_body(states_bytes(states), state_item()) == Ok::<Seq<StateDecl>, DecodeFault>(states),
{
    reveal(parse_body);
    let b = states_bytes(states);
    let enc = |st: StateDecl| state_bytes(st);
    lemma_whole(b);
    lemma_at_split(b, 0, le32(states.len() as u32), flat(states.map_values(enc)));
    lemma_rd_u32(b, 0, states.len() as u32);
    assert(round_trips(b, states, enc, state_item())) by {
        assert forall|i: int, q: int|
            0 <= i < states.len() && #[trigger] at(b, q, enc(states[i])) implies #[trigger] state_item()(b, q) == Ok::<
            (StateDecl, int),
            DecodeFault,
        >((states[i], q + enc(states[i]).len())) by {
            lemma_state(b, q, states[i]);
        }
    }
    lemma_many(b, 4, states, enc, state_item());
}

proof fn lemma_functions_body(functions: Seq<FunctionModel>)
    requires
        functions_fit(functions),
    ensures
        parse_body(functions_bytes(functions), function_item()) == Ok::<Seq<FunctionModel>, DecodeFault>(functions),
{
    reveal(parse_body);
    let b = functions_bytes(functions);
    let enc = |f: FunctionModel| function_bytes(f);
    lemma_whole(b);
    lemma_at_split(b, 0, le32(functions.len() as u32), flat(functions.map_values(enc)));
    lemma_rd_u32(b, 0, functions.len() as u32);
    assert(round_trips(b, functions, enc, function_item())) by {
        assert forall|i: int, q: int|
            0 <= i < functions.len() && #[trigger] at(b, q, enc(functions[i])) implies #[trigger] function_item()(b, q)
            == Ok::<(FunctionModel, int), DecodeFault>((functions[i], q + enc(functions[i]).len())) by {
            lemma_function(b, q, functions[i]);
        }
    }
    lemma_many(b, 4, functions, enc, function_item());
}

#[verifier::rlimit(40)]
proof fn lemma_ui_body(nodes: Seq<NodeModel>, root: NodeId)
    requires
        nodes_fit(nodes),
        styles_ok(nodes),
    ensures
        parse_ui_body(ui_bytes(nodes, root)) == Ok::<(Seq<NodeModel>, NodeId), DecodeFault>((nodes, root)),
{
    reveal(parse_ui_body);
    let b = ui_bytes(nodes, root);
    let enc = |n: NodeModel| node_bytes(n);
    let listed = flat(nodes.map_values(enc));
    lemma_whole(b);
    lemma_at_split(b, 0, le32(nodes.len() as u32) + listed, le32(root.0));
    lemma_at_split(b, 0, le32(nodes.len() as u32), listed);
    lemma_rd_u32(b, 0, nodes.len() as u32);
    assert(round_trips(b, nodes, enc, node_item())) by {
        assert forall|i: int, q: int|
            0 <= i < nodes.len() && #[trigger] at(b, q, enc(nodes[i])) implies #[trigger] node_item()(b, q) == Ok::<
            (NodeModel, int),
            DecodeFault,
        >((nodes[i], q + enc(nodes[i]).len())) by {
            assert(style_ok(nodes[i].text_style));
            assert(u32_fits(nodes[i].children.len() as int));
            lemma_node(b, q, nodes[i]);
        }
    }
    lemma_many(b, 4, nodes, enc, node_item());
    lemma_rd_u32(b, (4 + listed.len()) as int, root.0);
}

proof fn lemma_section(s: Seq<u8>, p: int, kind: u8, body: Seq<u8>)
    requires
        at(s, p, section_bytes(kind, body)),
        u32_fits(body.len() as int),
    ensures
        parse_section(s, p, kind) == Ok::<(Seq<u8>, int), DecodeFault>((body, p + section_bytes(kind, body).len())),
{
    lemma_at_split(s, p, seq![kind] + le32(body.len() as u32), body);
    lemma_at_split(s, p, seq![kind], le32(body.len() as u32));
    lemma_rd_u8(s, p, kind);
    lemma_rd_u32(s, p + 1, body.len() as u32);
}

pub open spec fn styles_ok(nodes: Seq<NodeModel>) -> bool {
    forall|i: int| 0 <= i < nodes.len() ==> style_ok(#[trigger] nodes[i].text_style)
}

#[verifier::rlimit(40)]
proof fn lemma_payload(image: ImageModel)
    requires
        styles_ok(image.nodes),
        fits(image),
    ensures
        parse_payload(payload_bytes(image)) == Ok::<ImageModel, DecodeFault>(image),
{
    let pl = payload_bytes(image);
    let b1 = constants_bytes(image.constants);
    let b2 = states_bytes(image.states);
    let b3 = functions_bytes(image.functions);
    let b4 = ui_bytes(image.nodes, image.root);
    let s1 = section_bytes(1, b1);
    let s2 = section_bytes(2, b2);
    let s3 = section_bytes(3, b3);
    let s4 = section_bytes(4, b4);
    assert(pl == s1 + s2 + s3 + s4);
    lemma_whole(pl);
    lemma_at_split(pl, 0, s1 + s2 + s3, s4);
    lemma_at_split(pl, 0, s1 + s2, s3);
    lemma_at_split(pl, 0, s1, s2);
    lemma_section(pl, 0, 1, b1);
    lemma_section(pl, s1.len() as int, 2, b2);
    lemma_section(pl, (s1.len() + s2.len()) as int, 3, b3);
    lemma_section(pl, (s1.len() + s2.len() + s3.len()) as int, 4, b4);
    lemma_constants_body(image.constants);
    lemma_states_body(image.states);
    lemma_functions_body(image.functions);
    lemma_ui_body(image.nodes, image.root);
}

/// Reading the bytes written for a valid image gives the image back, and
/// its header passes every check (so the corruption and truncation laws
/// apply to it).
pub proof fn lemma_decode_encoded(image: ImageModel)
    requires
        crate::ir::image_valid(image),
        fits(image),
    ensures
        decode_result(image_bytes(image)) == Ok::<ImageModel, DecodeFault>(image),
        header_accepts(image_bytes(image)),
{
    let payload = payload_bytes(image);
    let bytes = image_bytes(image);
    let header = magic() + le16(VERSION) + le32(payload.len() as u32) + le32(crc32(payload));
    assert(bytes == header + payload);
    lemma_whole(bytes);
    lemma_at_split(bytes, 0, header, payload);
    lemma_at_split(bytes, 0, magic() + le16(VERSION) + le32(payload.len() as u32), le32(crc32(payload)));
    lemma_at_split(bytes, 0, magic() + le16(VERSION), le32(payload.len() as u32));
    lemma_at_split(bytes, 0, magic(), le16(VERSION));
    lemma_rd_u16(bytes, 4, VERSION);
    lemma_rd_u32(bytes, 6, payload.len() as u32);
    lemma_rd_u32(bytes, 10, crc32(payload));
    assert(bytes.subrange(HEADER_LEN as int, bytes.len() as int) == payload);
    assert(styles_ok(image.nodes)) by {
        assert forall|i: int| 0 <= i < image.nodes.len() implies style_ok(#[trigger] image.nodes[i].text_style) by {
            assert(crate::ir::node_ok(image, i, image.nodes[i]));
        }
    }
    lemma_payload(image);
}

} // verus!
