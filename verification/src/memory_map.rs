//! The text the boot loader saves of the firmware memory map: a title line,
//! then one line per descriptor with its index, its type (number and name),
//! its physical start, its page count and its attribute bits.
use vstd::prelude::*;

verus! {

/// A memory descriptor as the boot loader saves it.
pub struct MemoryMapEntry {
    /// The firmware's memory type number.
    pub type_code: u32,
    /// The name of the memory type, as the firmware crate prints it.
    pub memory_type_name: Vec<u8>,
    pub phys_start: u64,
    pub page_count: u64,
    /// The attribute bits of the descriptor.
    pub attribute: u64,
}

/// The ASCII digit of `d` (lowercase letters from 10 on).
pub open spec fn digit_char(d: nat) -> u8 {
    if d < 10 {
        (48 + d) as u8
    } else {
        (87 + d) as u8
    }
}

/// Decimal digits of `n`, most significant first, without leading zeros.
pub open spec fn decimal_digits(n: nat) -> Seq<u8>
    decreases n,
{
    if n < 10 {
        seq![digit_char(n)]
    } else {
        decimal_digits(n / 10).push(digit_char(n % 10))
    }
}

/// Lowercase hexadecimal digits of `n`, most significant first, without
/// leading zeros.
pub open spec fn hex_digits(n: nat) -> Seq<u8>
    decreases n,
{
    if n < 16 {
        seq![digit_char(n)]
    } else {
        hex_digits(n / 16).push(digit_char(n % 16))
    }
}

/// `s` with zeros in front up to `width` characters.
pub open spec fn zero_padded(s: Seq<u8>, width: nat) -> Seq<u8> {
    if s.len() < width {
        Seq::new((width - s.len()) as nat, |i: int| 48u8) + s
    } else {
        s
    }
}

/// ", "
pub open spec fn separator() -> Seq<u8> {
    seq![44u8, 32u8]
}

/// "MemoryMap \n"
pub open spec fn title_line() -> Seq<u8> {
    seq![77u8, 101u8, 109u8, 111u8, 114u8, 121u8, 77u8, 97u8, 112u8, 32u8, 10u8]
}

/// The line of descriptor number `index`, without a line end.
pub open spec fn memory_map_line_spec(index: nat, entry: MemoryMapEntry) -> Seq<u8> {
    decimal_digits(index) + separator() + hex_digits(entry.type_code as nat) + separator()
        + entry.memory_type_name@ + separator() + zero_padded(hex_digits(entry.phys_start as nat), 8)
        + separator() + hex_digits(entry.page_count as nat) + separator() + hex_digits(
        (entry.attribute & 0xfffff) as nat,
    )
}

/// The lines of `entries`, each ended by a line feed.
pub open spec fn memory_map_lines(entries: Seq<MemoryMapEntry>) -> Seq<u8>
    decreases entries.len(),
{
    if entries.len() == 0 {
        Seq::empty()
    } else {
        memory_map_lines(entries.drop_last()) + memory_map_line_spec(
            (entries.len() - 1) as nat,
            entries.last(),
        ) + seq![10u8]
    }
}

/// The number that the digit characters `s` spell in base `base`.
pub open spec fn digits_value(s: Seq<u8>, base: nat) -> nat
    decreases s.len(),
{
    if s.len() == 0 {
        0
    } else {
        digits_value(s.drop_last(), base) * base + digit_value(s.last())
    }
}

/// The value of one digit character (lowercase letters from 10 on).
pub open spec fn digit_value(c: u8) -> nat {
    if 48 <= c <= 57 {
        (c - 48) as nat
    } else if 97 <= c <= 102 {
        (c - 87) as nat
    } else {
        0
    }
}

/// The decimal digits of `n` spell `n`, and the first is not a zero unless
/// `n` is zero.
pub proof fn lemma_decimal_digits_value(n: nat)
    ensures
        digits_value(decimal_digits(n), 10) == n,
        decimal_digits(n).len() >= 1,
        n > 0 ==> decimal_digits(n)[0] != 48u8,
    decreases n,
{
    let s = decimal_digits(n);
    if n >= 10 {
        lemma_decimal_digits_value(n / 10);
        assert(s.drop_last() =~= decimal_digits(n / 10));
        assert(s[0] == decimal_digits(n / 10)[0]);
        assert(s.last() == digit_char(n % 10));
        assert(digit_value(digit_char(n % 10)) == n % 10);
        assert(n == (n / 10) * 10 + n % 10);
        assert(digits_value(s, 10) == digits_value(s.drop_last(), 10) * 10 + digit_value(s.last()));
    } else {
        assert(s.drop_last() =~= Seq::<u8>::empty());
        assert(digits_value(Seq::<u8>::empty(), 10) == 0);
        assert(digit_value(digit_char(n)) == n);
        assert(digits_value(s, 10) == digits_value(s.drop_last(), 10) * 10 + digit_value(s.last()));
    }
}

/// The hexadecimal digits of `n` spell `n`, and the first is not a zero
/// unless `n` is zero.
pub proof fn lemma_hex_digits_value(n: nat)
    ensures
        digits_value(hex_digits(n), 16) == n,
        hex_digits(n).len() >= 1,
        n > 0 ==> hex_digits(n)[0] != 48u8,
    decreases n,
{
    let s = hex_digits(n);
    if n >= 16 {
        lemma_hex_digits_value(n / 16);
        assert(s.drop_last() =~= hex_digits(n / 16));
        assert(s[0] == hex_digits(n / 16)[0]);
        assert(s.last() == digit_char(n % 16));
        assert(digit_value(digit_char(n % 16)) == n % 16);
        assert(n == (n / 16) * 16 + n % 16);
        assert(digits_value(s, 16) == digits_value(s.drop_last(), 16) * 16 + digit_value(s.last()));
    } else {
        assert(s.drop_last() =~= Seq::<u8>::empty());
        assert(digits_value(Seq::<u8>::empty(), 16) == 0);
        assert(digit_value(digit_char(n)) == n);
        assert(digits_value(s, 16) == digits_value(s.drop_last(), 16) * 16 + digit_value(s.last()));
    }
}

proof fn lemma_leading_zeros_value(k: nat, s: Seq<u8>, base: nat)
    ensures
        digits_value(Seq::new(k, |i: int| 48u8) + s, base) == digits_value(s, base),
    decreases s.len(), k,
{
    let z = Seq::new(k, |i: int| 48u8);
    if s.len() == 0 {
        assert(z + s =~= z);
        if k > 0 {
            let z1 = Seq::new((k - 1) as nat, |i: int| 48u8);
            assert(z.drop_last() =~= z1);
            lemma_leading_zeros_value((k - 1) as nat, s, base);
            assert(z1 + s =~= z1);
            assert(digits_value(z1, base) == 0);
            assert(digit_value(z.last()) == 0);
            assert(digits_value(z, base) == digits_value(z1, base) * base + 0);
            assert(0 * base == 0) by (nonlinear_arith);
        } else {
            assert(z =~= Seq::<u8>::empty());
        }
    } else {
        assert((z + s).drop_last() =~= z + s.drop_last());
        lemma_leading_zeros_value(k, s.drop_last(), base);
    }
}

/// Zero padding keeps the value of the digits and gives at least `width`
/// characters.
pub proof fn lemma_zero_padded_value(s: Seq<u8>, width: nat, base: nat)
    ensures
        digits_value(zero_padded(s, width), base) == digits_value(s, base),
        zero_padded(s, width).len() >= width,
        zero_padded(s, width).len() >= s.len(),
{
    if s.len() < width {
        lemma_leading_zeros_value((width - s.len()) as nat, s, base);
    }
}

/// The character is a decimal digit or a lowercase hexadecimal letter.
pub open spec fn is_hex_char(c: u8) -> bool {
    (48 <= c <= 57) || (97 <= c <= 102)
}

proof fn lemma_hex_chars(n: nat)
    ensures
        forall|i: int| 0 <= i < hex_digits(n).len() ==> is_hex_char(#[trigger] hex_digits(n)[i]),
    decreases n,
{
    let s = hex_digits(n);
    if n >= 16 {
        lemma_hex_chars(n / 16);
        let p = hex_digits(n / 16);
        assert forall|i: int| 0 <= i < s.len() implies is_hex_char(#[trigger] s[i]) by {
            if i < p.len() {
                assert(s[i] == p[i]);
            } else {
                assert(s[i] == digit_char(n % 16));
            }
        }
    } else {
        assert(s[0] == digit_char(n));
    }
}

/// A memory-map line is six fields apart by ", ": the index in decimal, the
/// type number in hexadecimal, the type name, the physical start in
/// hexadecimal with at least 8 digits, the whole page count in hexadecimal,
/// and the low 20 attribute bits in hexadecimal. Every numeric field is made
/// of digit characters only and spells its number.
pub proof fn lemma_memory_map_line_fields(index: nat, entry: MemoryMapEntry)
    ensures
        ({
            let f0 = decimal_digits(index);
            let f1 = hex_digits(entry.type_code as nat);
            let f3 = zero_padded(hex_digits(entry.phys_start as nat), 8);
            let f4 = hex_digits(entry.page_count as nat);
            let f5 = hex_digits((entry.attribute & 0xfffff) as nat);
            &&& memory_map_line_spec(index, entry) == f0 + seq![44u8, 32u8] + f1 + seq![44u8, 32u8]
                + entry.memory_type_name@ + seq![44u8, 32u8] + f3 + seq![44u8, 32u8] + f4 + seq![44u8, 32u8] + f5
            &&& digits_value(f0, 10) == index
            &&& digits_value(f1, 16) == entry.type_code
            &&& digits_value(f3, 16) == entry.phys_start
            &&& f3.len() >= 8
            &&& digits_value(f4, 16) == entry.page_count
            &&& digits_value(f5, 16) == entry.attribute % 0x100000
            &&& forall|i: int| 0 <= i < f0.len() ==> is_hex_char(#[trigger] f0[i]) && f0[i] <= 57
            &&& forall|i: int| 0 <= i < f1.len() ==> is_hex_char(#[trigger] f1[i])
            &&& forall|i: int| 0 <= i < f3.len() ==> is_hex_char(#[trigger] f3[i])
            &&& forall|i: int| 0 <= i < f4.len() ==> is_hex_char(#[trigger] f4[i])
            &&& forall|i: int| 0 <= i < f5.len() ==> is_hex_char(#[trigger] f5[i])
        }),
{
    lemma_decimal_digits_value(index);
    lemma_hex_digits_value(entry.type_code as nat);
    lemma_hex_digits_value(entry.phys_start as nat);
    lemma_zero_padded_value(hex_digits(entry.phys_start as nat), 8, 16);
    lemma_hex_digits_value(entry.page_count as nat);
    lemma_hex_digits_value((entry.attribute & 0xfffff) as nat);
    let attribute: u64 = entry.attribute;
    assert((attribute & 0xfffff) == attribute % 0x100000) by (bit_vector);
    lemma_decimal_only(index);
    lemma_hex_chars(entry.type_code as nat);
    lemma_hex_chars(entry.page_count as nat);
    lemma_hex_chars((entry.attribute & 0xfffff) as nat);
    lemma_hex_chars(entry.phys_start as nat);
    let h = hex_digits(entry.phys_start as nat);
    let f3 = zero_padded(h, 8);
    assert forall|i: int| 0 <= i < f3.len() implies is_hex_char(#[trigger] f3[i]) by {
        if h.len() < 8 {
            let k = (8 - h.len()) as int;
            if i >= k {
                assert(f3[i] == h[i - k]);
            }
        }
    }
}

proof fn lemma_decimal_only(n: nat)
    ensures
        forall|i: int| 0 <= i < decimal_digits(n).len() ==> 48 <= #[trigger] decimal_digits(n)[i] <= 57,
    decreases n,
{
    let s = decimal_digits(n);
    if n >= 10 {
        lemma_decimal_only(n / 10);
        let p = decimal_digits(n / 10);
        assert forall|i: int| 0 <= i < s.len() implies 48 <= #[trigger] s[i] <= 57 by {
            if i < p.len() {
                assert(s[i] == p[i]);
            } else {
                assert(s[i] == digit_char(n % 10));
            }
        }
    } else {
        assert(s[0] == digit_char(n));
    }
}

fn push_decimal(out: &mut Vec<u8>, n: u64)
    ensures
        final(out)@ == old(out)@ + decimal_digits(n as nat),
    decreases n,
{
    if n >= 10 {
        push_decimal(out, n / 10);
    }
    let digit = (48 + n % 10) as u8;
    out.push(digit);
    proof {
        assert(old(out)@ + decimal_digits(n as nat) =~= if n >= 10 {
            old(out)@ + decimal_digits((n / 10) as nat) + seq![digit]
        } else {
            old(out)@ + seq![digit]
        });
    }
}

fn push_hex(out: &mut Vec<u8>, n: u64)
    ensures
        final(out)@ == old(out)@ + hex_digits(n as nat),
    decreases n,
{
    if n >= 16 {
        push_hex(out, n / 16);
    }
    let d = n % 16;
    let digit = if d < 10 {
        (48 + d) as u8
    } else {
        (87 + d) as u8
    };
    out.push(digit);
    proof {
        assert(old(out)@ + hex_digits(n as nat) =~= if n >= 16 {
            old(out)@ + hex_digits((n / 16) as nat) + seq![digit]
        } else {
            old(out)@ + seq![digit]
        });
    }
}

fn push_hex_padded(out: &mut Vec<u8>, n: u64, width: usize)
    ensures
        final(out)@ == old(out)@ + zero_padded(hex_digits(n as nat), width as nat),
{
    let mut digits: Vec<u8> = Vec::new();
    push_hex(&mut digits, n);
    assert(digits@ =~= hex_digits(n as nat));
    let mut padding: Vec<u8> = Vec::new();
    let mut k: usize = digits.len();
    while k < width
        invariant
            digits@ == hex_digits(n as nat),
            digits@.len() <= k,
            k <= width || k == digits@.len(),
            padding@.len() == k - digits@.len(),
            forall|j: int| 0 <= j < padding@.len() ==> padding@[j] == 48u8,
        decreases width - k,
    {
        padding.push(48u8);
        k = k + 1;
    }
    out.append(&mut padding);
    out.append(&mut digits);
    proof {
        let expected = zero_padded(hex_digits(n as nat), width as nat);
        let pad_seq = if hex_digits(n as nat).len() < width {
            Seq::new((width - hex_digits(n as nat).len()) as nat, |i: int| 48u8)
        } else {
            Seq::<u8>::empty()
        };
        assert(expected =~= pad_seq + hex_digits(n as nat));
    }
}

fn push_separator(out: &mut Vec<u8>)
    ensures
        final(out)@ == old(out)@ + separator(),
{
    out.push(44u8);
    out.push(32u8);
    assert(final(out)@ =~= old(out)@ + separator());
}

/// The line that describes descriptor number `index` (without a line end).
pub fn memory_map_line(index: usize, entry: &MemoryMapEntry) -> (line: Vec<u8>)
    ensures
        line@ == memory_map_line_spec(index as nat, *entry),
{
    let mut line: Vec<u8> = Vec::new();
    push_decimal(&mut line, index as u64);
    push_separator(&mut line);
    push_hex(&mut line, entry.type_code as u64);
    push_separator(&mut line);
    let mut name = entry.memory_type_name.clone();
    line.append(&mut name);
    push_separator(&mut line);
    push_hex_padded(&mut line, entry.phys_start, 8);
    push_separator(&mut line);
    push_hex(&mut line, entry.page_count);
    push_separator(&mut line);
    push_hex(&mut line, entry.attribute & 0xfffff);
    assert(line@ =~= memory_map_line_spec(index as nat, *entry));
    line
}

/// The whole saved text: the title line, then the line of every descriptor
/// followed by a line feed.
pub fn memory_map_contents(entries: &[MemoryMapEntry]) -> (text: Vec<u8>)
    ensures
        text@ == title_line() + memory_map_lines(entries@),
{
    let mut text: Vec<u8> = Vec::new();
    text.push(77u8);
    text.push(101u8);
    text.push(109u8);
    text.push(111u8);
    text.push(114u8);
    text.push(121u8);
    text.push(77u8);
    text.push(97u8);
    text.push(112u8);
    text.push(32u8);
    text.push(10u8);
    assert(text@ =~= title_line() + memory_map_lines(entries@.take(0)));
    let mut i: usize = 0;
    while i < entries.len()
        invariant
            i <= entries@.len(),
            text@ == title_line() + memory_map_lines(entries@.take(i as int)),
        decreases entries@.len() - i,
    {
        let mut line = memory_map_line(i, &entries[i]);
        proof {
            let next = entries@.take(i + 1);
            assert(next.drop_last() =~= entries@.take(i as int));
            assert(next.last() == entries@[i as int]);
        }
        text.append(&mut line);
        text.push(10u8);
        proof {
            let next = entries@.take(i + 1);
            assert(text@ =~= title_line() + memory_map_lines(next));
        }
        i = i + 1;
    }
    assert(entries@.take(i as int) =~= entries@);
    text
}

} // verus!
