use vstd::prelude::*;

verus! {

/// The primitive read/write runtime that the generated functions call, one method per
/// wire rule:
/// - `serialize_varint` / `deserialize_varint`: an unsigned varint of any size;
/// - `serialize_number` / `deserialize_number`: a number of a given width, zigzag first
///   when signed; a word too wide for the width throws `NumericOverflow`;
/// - `serialize_bytes` / `deserialize_bytes`, and the `_string` pair over UTF-8: a varint
///   length, then the raw bytes; a length beyond the bytes left throws `BufferUnderrun`;
/// - `serialize_array` / `deserialize_array`: a varint count, then the items;
/// - `deserialize_optional`: the presence flag 0 or 1, any other flag throws
///   `InvalidDiscriminant`;
/// - `deserialize_index`: an enum index, mapped to -1 when no `u32` holds it, so that it
///   matches no variant and the decoder throws `InvalidDiscriminant`.
/// Every read goes through `next_byte`, which throws `BufferUnderrun` rather than read past
/// the end.
pub const RUNTIME: &'static str = "const U8_BYTES = 1\nconst U16_BYTES = 2\nconst U32_BYTES = 4\nconst U64_BYTES = 8\nconst U128_BYTES = 16\nclass Serializer {\n    constructor() { this.bytes = [] }\n    serialize_varint(value) {\n        let n = BigInt(value)\n        while (n >= 0x80n) { this.bytes.push(Number(n & 0x7fn) | 0x80); n >>= 7n }\n        this.bytes.push(Number(n))\n    }\n    serialize_number(n_bytes, signed, value) {\n        let n = BigInt(value)\n        if (signed) { n = n < 0n ? -n * 2n - 1n : n * 2n }\n        this.serialize_varint(n)\n    }\n    serialize_bytes(value) { this.serialize_varint(value.length); for (const b of value) { this.bytes.push(b) } }\n    serialize_string(value) { this.serialize_bytes(new TextEncoder().encode(value)) }\n    serialize_array(f, items) { this.serialize_varint(items.length); for (const item of items) { f(this, item) } }\n    finish() { return new Uint8Array(this.bytes) }\n}\nclass Deserializer {\n    constructor(bytes) { this.bytes = bytes; this.pos = 0 }\n    next_byte() { if (this.pos >= this.bytes.length) { throw \"BufferUnderrun\" } return this.bytes[this.pos++] }\n    deserialize_varint() {\n        let n = 0n\n        let shift = 0n\n        for (;;) { const b = this.next_byte(); n |= BigInt(b & 0x7f) << shift; shift += 7n; if (b < 0x80) { return n } }\n    }\n    deserialize_number(n_bytes, signed) {\n        let n = this.deserialize_varint()\n        if (n >= (1n << BigInt(n_bytes * 8))) { throw \"NumericOverflow\" }\n        if (signed) { n = (n & 1n) === 0n ? n >> 1n : -(n >> 1n) - 1n }\n        return n_bytes <= 4 ? Number(n) : n\n    }\n    deserialize_index() { const n = this.deserialize_varint(); return n < 0x100000000n ? Number(n) : -1 }\n    deserialize_bytes() {\n        const len = this.deserialize_varint()\n        if (len > BigInt(this.bytes.length - this.pos)) { throw \"BufferUnderrun\" }\n        const end = this.pos + Number(len)\n        const out = Array.from(this.bytes.slice(this.pos, end))\n        this.pos = end\n        return out\n    }\n    deserialize_string() { return new TextDecoder().decode(Uint8Array.from(this.deserialize_bytes())) }\n    deserialize_array(f) {\n        const len = this.deserialize_varint()\n        if (len > 0xffffffffffffffffn) { throw \"NumericOverflow\" }\n        const out = []\n        for (let i = 0n; i < len; i++) { out.push(f()) }\n        return out\n    }\n    deserialize_optional(f) {\n        const flag = this.deserialize_varint()\n        if (flag === 0n) { return undefined }\n        if (flag === 1n) { return f() }\n        throw \"InvalidDiscriminant\"\n    }\n}";

pub open spec fn runtime_text() -> Seq<char> {
    RUNTIME@
}

} // verus!
