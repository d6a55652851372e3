//! Windows keyboard layouts: how a layout handle and the layout-name buffer
//! of the Win32 API become the KLID strings this library reports, e.g.
//! `"00000409"`.

use vstd::prelude::*;

use crate::text::{hex_digit_char, hex_fixed, lossy_utf8, push_hex, utf8_lossy};

verus! {

/// The KLID reported for a keyboard layout handle whose low 32 bits are
/// `hkl`: for a standard layout (language ID in both halves) the language ID,
/// otherwise the whole value; eight upper-case hexadecimal digits either way.
pub open spec fn spec_klid(hkl: u32) -> Seq<char> {
    let lo = hkl % 0x10000;
    let hi = (hkl / 0x10000) % 0x10000;
    if hi == lo {
        hex_fixed(lo as nat, 8)
    } else {
        hex_fixed(hkl as nat, 8)
    }
}

/// The KLID of a keyboard layout handle whose low 32 bits are `hkl`.
pub fn klid_of_layout(hkl: u32) -> (s: String)
    ensures
        s@ == spec_klid(hkl),
{
    let lo = hkl & 0xFFFF;
    let hi = (hkl >> 16) & 0xFFFF;
    assert(lo == hkl % 0x10000 && hi == (hkl / 0x10000) % 0x10000) by (bit_vector)
        requires
            lo == hkl & 0xFFFF,
            hi == (hkl >> 16) & 0xFFFF,
    ;
    let mut s = String::new();
    if hi == lo {
        push_hex(&mut s, lo, 8);
    } else {
        push_hex(&mut s, hkl, 8);
    }
    s
}

/// The KLIDs of a list of keyboard layout handles (low 32 bits each), in order.
pub fn klids_of_layouts(hkls: &[u32]) -> (v: Vec<String>)
    ensures
        v@.len() == hkls@.len(),
        forall|i: int| 0 <= i < hkls@.len() ==> #[trigger] v@[i]@ == spec_klid(hkls@[i]),
{
    let mut v: Vec<String> = Vec::new();
    let mut i: usize = 0;
    while i < hkls.len()
        invariant
            i <= hkls@.len(),
            v@.len() == i,
            forall|k: int| 0 <= k < i ==> #[trigger] v@[k]@ == spec_klid(hkls@[k]),
        decreases hkls.len() - i,
    {
        v.push(klid_of_layout(hkls[i]));
        i += 1;
    }
    v
}

/// Length of the NUL-terminated text at the start of `b`: up to the first
/// zero byte, or all of `b` if it holds none.
pub open spec fn terminated_len(b: Seq<u8>) -> int {
    if exists|i: int| 0 <= i < b.len() && b[i] == 0 {
        choose|i: int| 0 <= i < b.len() && b[i] == 0 && forall|k: int| 0 <= k < i ==> b[k] != 0
    } else {
        b.len() as int
    }
}

proof fn lemma_terminated_len(b: Seq<u8>, i: int)
    requires
        0 <= i <= b.len(),
        forall|k: int| 0 <= k < i ==> b[k] != 0,
        i == b.len() || b[i] == 0,
    ensures
        terminated_len(b) == i,
{
    if i < b.len() {
        let j = choose|j: int| 0 <= j < b.len() && b[j] == 0 && forall|k: int| 0 <= k < j ==> b[k] != 0;
        assert(0 <= j < b.len() && b[j] == 0 && forall|k: int| 0 <= k < j ==> b[k] != 0);
        if j < i {
            assert(b[j] != 0);
        }
        if i < j {
            assert(b[i] != 0);
        }
    }
}

/// The layout name held in a NUL-terminated buffer, as text.
pub fn layout_name(buffer: &[u8]) -> (s: String)
    ensures
        s@ == lossy_utf8(buffer@.take(terminated_len(buffer@))),
{
    let mut len: usize = 0;
    while len < buffer.len() && buffer[len] != 0
        invariant
            len <= buffer@.len(),
            forall|k: int| 0 <= k < len ==> buffer@[k] != 0,
        decreases buffer.len() - len,
    {
        len += 1;
    }
    proof {
        lemma_terminated_len(buffer@, len as int);
    }
    let name = &buffer[0..len];
    assert(name@ =~= buffer@.take(len as int));
    utf8_lossy(name)
}

/// An upper-case hexadecimal digit.
pub open spec fn is_hex_upper(c: char) -> bool {
    ('0' <= c <= '9') || ('A' <= c <= 'F')
}

proof fn lemma_hex_fixed_shape(v: nat, k: nat)
    ensures
        hex_fixed(v, k).len() == k,
        forall|i: int| 0 <= i < k ==> is_hex_upper(#[trigger] hex_fixed(v, k)[i]),
    decreases k,
{
    if k > 0 {
        lemma_hex_fixed_shape(v / 16, (k - 1) as nat);
        let d = v % 16;
        assert(is_hex_upper(hex_digit_char(d)));
        assert forall|i: int| 0 <= i < k implies is_hex_upper(#[trigger] hex_fixed(v, k)[i]) by {
            if i < k - 1 {
                assert(hex_fixed(v, k)[i] == hex_fixed(v / 16, (k - 1) as nat)[i]);
            }
        }
    }
}

/// Every KLID is eight upper-case hexadecimal digits.
pub proof fn law_klid_shape(hkl: u32)
    ensures
        spec_klid(hkl).len() == 8,
        forall|i: int| 0 <= i < 8 ==> is_hex_upper(#[trigger] spec_klid(hkl)[i]),
{
    lemma_hex_fixed_shape((hkl % 0x10000) as nat, 8);
    lemma_hex_fixed_shape(hkl as nat, 8);
}

/// The value of an upper-case hexadecimal digit.
pub open spec fn hex_digit_value(c: char) -> int {
    if '0' <= c <= '9' {
        c as int - '0' as int
    } else {
        c as int - 'A' as int + 10
    }
}

/// The number that a run of upper-case hexadecimal digits denotes.
pub open spec fn hex_value(s: Seq<char>) -> int
    decreases s.len(),
{
    if s.len() == 0 {
        0
    } else {
        hex_value(s.drop_last()) * 16 + hex_digit_value(s.last())
    }
}

/// `16` to the power `k`.
pub open spec fn pow16(k: nat) -> nat
    decreases k,
{
    if k == 0 {
        1
    } else {
        16 * pow16((k - 1) as nat)
    }
}

proof fn lemma_hex_digit_value(d: nat)
    requires
        d < 16,
    ensures
        hex_digit_value(hex_digit_char(d)) == d,
{
    assert('0' as int == 48 && '1' as int == 49 && '2' as int == 50 && '3' as int == 51 && '4' as int
        == 52 && '5' as int == 53 && '6' as int == 54 && '7' as int == 55 && '8' as int == 56
        && '9' as int == 57 && 'A' as int == 65 && 'B' as int == 66 && 'C' as int == 67 && 'D' as int
        == 68 && 'E' as int == 69 && 'F' as int == 70);
}

proof fn lemma_hex_fixed_value(v: nat, k: nat)
    requires
        v < pow16(k),
    ensures
        hex_value(hex_fixed(v, k)) == v,
    decreases k,
{
    if k > 0 {
        let p = pow16((k - 1) as nat);
        assert(v / 16 < p) by (nonlinear_arith)
            requires
                v < 16 * p,
        ;
        lemma_hex_fixed_value(v / 16, (k - 1) as nat);
        lemma_hex_digit_value(v % 16);
        let s = hex_fixed(v, k);
        assert(s.drop_last() =~= hex_fixed(v / 16, (k - 1) as nat));
        assert(s.last() == hex_digit_char(v % 16));
    } else {
        assert(v == 0);
    }
}

/// A KLID, read back as a hexadecimal number, is the layout's language ID
/// when the high and low 16-bit words of the handle are equal, and the whole
/// handle value otherwise.
pub proof fn law_klid_value(hkl: u32)
    ensures
        hex_value(spec_klid(hkl)) == (if hkl / 0x10000 == hkl % 0x10000 {
            (hkl % 0x10000) as int
        } else {
            hkl as int
        }),
{
    reveal_with_fuel(pow16, 9);
    assert(pow16(8) == 0x1_0000_0000);
    assert(hkl / 0x10000 < 0x10000);
    lemma_hex_fixed_value((hkl % 0x10000) as nat, 8);
    lemma_hex_fixed_value(hkl as nat, 8);
}

} // verus!
