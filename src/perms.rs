use vstd::prelude::*;
use vstd::arithmetic::power2::pow2;
use vstd::bits::low_bits_mask;
use crate::entry::{FileKind, Meta};

verus! {

/// The glyph that stands for a kind of entry.
pub open spec fn type_glyph(kind: FileKind) -> char {
    match kind {
        FileKind::File => '-',
        FileKind::Dir => 'd',
        FileKind::Symlink => 'l',
        FileKind::BlockDevice => 'b',
        FileKind::CharDevice => 'c',
        FileKind::Fifo => 'p',
        FileKind::Socket => 's',
        FileKind::Unknown => '?',
    }
}

/// Whether bit `k` of `v` is set.
pub open spec fn bit_set(v: nat, k: nat) -> bool {
    (v / pow2(k)) % 2 == 1
}

/// The three characters of one permission group: read, write, execute.
pub open spec fn rwx_text(v: nat) -> Seq<char> {
    seq![
        if bit_set(v, 2) { 'r' } else { '-' },
        if bit_set(v, 1) { 'w' } else { '-' },
        if bit_set(v, 0) { 'x' } else { '-' },
    ]
}

/// The nine permission characters of a mode: owner, group, other.
pub open spec fn mode_text(mode: nat) -> Seq<char> {
    rwx_text((mode / 64) % 8) + rwx_text((mode / 8) % 8) + rwx_text(mode % 8)
}

/// The type glyph followed by the nine permission characters.
pub open spec fn permissions_text(meta: Meta) -> Seq<char> {
    seq![type_glyph(meta.spec_kind())] + mode_text(meta.mode as nat)
}

/// The value of one permission group read back from its three characters.
pub open spec fn parse_rwx(s: Seq<char>) -> nat {
    (if s[0] == 'r' { 4nat } else { 0nat }) + (if s[1] == 'w' { 2nat } else { 0nat }) + (if s[2]
        == 'x' { 1nat } else { 0nat })
}

/// The permission bits read back from nine permission characters.
pub open spec fn parse_mode(s: Seq<char>) -> nat {
    64 * parse_rwx(s.subrange(0, 3)) + 8 * parse_rwx(s.subrange(3, 6)) + parse_rwx(s.subrange(6, 9))
}

/// The bits of `value` from position `start` up to, not including, `end`.
fn extract_bits_from_right(value: u32, start_pos: u32, end_pos: u32) -> (r: u32)
    requires
        start_pos <= end_pos < 32,
    ensures
        r as nat == (value as nat / pow2(start_pos as nat)) % pow2((end_pos - start_pos) as nat),
{
    let width = end_pos - start_pos;
    proof {
        vstd::bits::lemma_u32_pow2_no_overflow(width as nat);
        vstd::bits::lemma_u32_shl_is_mul(1, width);
        vstd::bits::lemma_u32_shr_is_div(value, start_pos);
        vstd::arithmetic::power2::lemma_pow2_pos(width as nat);
    }
    let mask = (1u32 << width) - 1;
    proof {
        assert(mask == low_bits_mask(width as nat) as u32);
        vstd::bits::lemma_u32_low_bits_mask_is_mod(value >> start_pos, width as nat);
    }
    (value >> start_pos) & mask
}


/// The three permission characters of the low three bits of `value`.
fn perm_mode_string(value: u32) -> (r: String)
    ensures
        r@ == rwx_text(value as nat),
{
    proof {
        reveal_strlit("r");
        reveal_strlit("w");
        reveal_strlit("x");
        reveal_strlit("-");
        vstd::arithmetic::power2::lemma2_to64();
        assert((value & 4 == 4) == ((value / 4) % 2 == 1)) by (bit_vector);
        assert((value & 2 == 2) == ((value / 2) % 2 == 1)) by (bit_vector);
        assert((value & 1 == 1) == (value % 2 == 1)) by (bit_vector);
    }
    let mut acc = String::new();
    acc.append(
        if value & 4 == 4 {
            "r"
        } else {
            "-"
        },
    );
    acc.append(
        if value & 2 == 2 {
            "w"
        } else {
            "-"
        },
    );
    acc.append(
        if value & 1 == 1 {
            "x"
        } else {
            "-"
        },
    );
    assert(acc@ =~= rwx_text(value as nat));
    acc
}

/// The one-character glyph of the kind of an entry.
pub fn file_type_string(meta: &Meta) -> (r: String)
    ensures
        r@ == seq![type_glyph(meta.spec_kind())],
{
    proof {
        reveal_strlit("-");
        reveal_strlit("d");
        reveal_strlit("l");
        reveal_strlit("b");
        reveal_strlit("c");
        reveal_strlit("p");
        reveal_strlit("s");
        reveal_strlit("?");
    }
    String::from_str(
        match meta.kind() {
            FileKind::File => "-",
            FileKind::Dir => "d",
            FileKind::Symlink => "l",
            FileKind::BlockDevice => "b",
            FileKind::CharDevice => "c",
            FileKind::Fifo => "p",
            FileKind::Socket => "s",
            FileKind::Unknown => "?",
        },
    )
}

/// The type glyph and the owner, group and other permissions of an entry,
/// ten characters in all.
pub fn permissions_string(meta: &Meta) -> (r: String)
    ensures
        r@ == permissions_text(*meta),
        r@.len() == 10,
{
    let mode = meta.mode;
    let wmode = extract_bits_from_right(mode, 0, 3);
    let gmode = extract_bits_from_right(mode, 3, 6);
    let umode = extract_bits_from_right(mode, 6, 9);
    proof {
        vstd::arithmetic::power2::lemma2_to64();
    }
    let mut acc = file_type_string(meta);
    let u = perm_mode_string(umode);
    let g = perm_mode_string(gmode);
    let w = perm_mode_string(wmode);
    acc.append(u.as_str());
    acc.append(g.as_str());
    acc.append(w.as_str());
    assert(acc@ =~= permissions_text(*meta));
    acc
}

proof fn lemma_rwx_round_trip(v: nat)
    requires
        v < 8,
    ensures
        parse_rwx(rwx_text(v)) == v,
{
    vstd::arithmetic::power2::lemma2_to64();
    assert(parse_rwx(rwx_text(v)) == v) by (nonlinear_arith)
        requires
            v < 8,
            pow2(0) == 1,
            pow2(1) == 2,
            pow2(2) == 4,
    {
        if v == 0 {} else if v == 1 {} else if v == 2 {} else if v == 3 {} else if v == 4 {} else if v == 5 {} else if v == 6 {} else {}
    };
}

/// Reading the nine permission characters of an entry back, with the same
/// bit positions, gives the permission bits of its mode again.
pub proof fn lemma_permission_round_trip(meta: Meta)
    ensures
        permissions_text(meta).len() == 10,
        parse_mode(permissions_text(meta).subrange(1, 10)) == meta.mode % 512,
{
    let m = meta.mode as nat;
    let t = permissions_text(meta);
    assert(t.subrange(1, 10) =~= mode_text(m));
    assert(mode_text(m).subrange(0, 3) =~= rwx_text((m / 64) % 8));
    assert(mode_text(m).subrange(3, 6) =~= rwx_text((m / 8) % 8));
    assert(mode_text(m).subrange(6, 9) =~= rwx_text(m % 8));
    lemma_rwx_round_trip((m / 64) % 8);
    lemma_rwx_round_trip((m / 8) % 8);
    lemma_rwx_round_trip(m % 8);
    assert(64 * ((m / 64) % 8) + 8 * ((m / 8) % 8) + m % 8 == m % 512) by (nonlinear_arith);
}

} // verus!
