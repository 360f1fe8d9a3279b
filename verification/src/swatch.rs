//! The terminal colour swatch: two rows of a repeated glyph, one per ANSI
//! foreground colour code 30–37, and one per bright code 90–97.

use crate::numerals::digit_char;
use crate::numerals::spec_decimal;
use vstd::prelude::*;
use vstd::string::StringExecFns;

verus! {

/// One swatch cell: the ANSI escape introducer, the colour code in decimal,
/// the `m` that closes the escape, and the glyph.
pub open spec fn spec_swatch_cell(code: nat) -> Seq<char> {
    "\x1b["@ + spec_decimal(code) + "m\u{2b23}"@
}

/// A row of `count` cells for the colour codes `lo`, `lo + 1`, ..., joined
/// by single spaces.
pub open spec fn spec_swatch_row(lo: nat, count: nat) -> Seq<char>
    decreases count,
{
    if count == 0 {
        Seq::<char>::empty()
    } else if count == 1 {
        spec_swatch_cell(lo)
    } else {
        spec_swatch_row(lo, (count - 1) as nat) + " "@ + spec_swatch_cell((lo + count - 1) as nat)
    }
}

/// Builds one swatch row.
fn swatch_row(lo: u64, count: u64) -> (r: String)
    requires
        lo + count <= 1000,
    ensures
        r@ == spec_swatch_row(lo as nat, count as nat),
{
    let mut r = String::new();
    let mut k: u64 = 0;
    while k < count
        invariant
            lo + count <= 1000,
            k <= count,
            r@ == spec_swatch_row(lo as nat, k as nat),
        decreases count - k,
    {
        if k > 0 {
            r.append(" ");
        }
        r.append("\x1b[");
        let d = crate::numerals::u64_to_string(lo + k);
        r.append(d.as_str());
        r.append("m\u{2b23}");
        proof {
            assert(r@ =~= spec_swatch_row(lo as nat, (k + 1) as nat));
        }
        k += 1;
    }
    r
}

/// The two palette rows: the standard colours 30–37, and the bright
/// colours 90–97 with a single leading space before the first glyph.
pub fn get_colours() -> (r: (String, String))
    ensures
        r.0@ == spec_swatch_row(30, 8),
        r.1@ == " "@ + spec_swatch_row(90, 8),
{
    let row1 = swatch_row(30, 8);
    let mut row2 = String::from_str(" ");
    let bright = swatch_row(90, 8);
    row2.append(bright.as_str());
    (row1, row2)
}

/// How many times `c` occurs in `s`.
pub open spec fn count_char(s: Seq<char>, c: char) -> nat
    decreases s.len(),
{
    if s.len() == 0 {
        0
    } else {
        count_char(s.drop_last(), c) + if s.last() == c {
            1nat
        } else {
            0nat
        }
    }
}

/// Occurrences in a concatenation are the occurrences in the parts.
pub proof fn lemma_count_char_concat(a: Seq<char>, b: Seq<char>, c: char)
    ensures
        count_char(a + b, c) == count_char(a, c) + count_char(b, c),
    decreases b.len(),
{
    if b.len() == 0 {
        assert(a + b =~= a);
    } else {
        lemma_count_char_concat(a, b.drop_last(), c);
        assert((a + b).drop_last() =~= a + b.drop_last());
        assert((a + b).last() == b.last());
    }
}

proof fn lemma_count_char_single(d: char, c: char)
    ensures
        count_char(seq![d], c) == if d == c {
            1nat
        } else {
            0nat
        },
{
    assert(seq![d].drop_last() =~= Seq::<char>::empty());
    assert(count_char(seq![d].drop_last(), c) == 0);
    assert(seq![d].last() == d);
}

/// A decimal rendering holds digits only, so no occurrence of a
/// non-digit character.
pub proof fn lemma_decimal_count(n: nat, c: char)
    requires
        forall|d: nat| d < 10 ==> digit_char(d) != c,
    ensures
        count_char(spec_decimal(n), c) == 0,
    decreases n,
{
    if n < 10 {
        lemma_count_char_single(digit_char(n), c);
    } else {
        lemma_decimal_count(n / 10, c);
        lemma_count_char_single(digit_char(n % 10), c);
        lemma_count_char_concat(spec_decimal(n / 10), seq![digit_char(n % 10)], c);
    }
}

/// In one cell, each of the escape character, `[`, `m` and the glyph occurs
/// exactly once, and any other non-digit character not at all.
proof fn lemma_cell_count(code: nat, c: char)
    requires
        forall|d: nat| d < 10 ==> digit_char(d) != c,
    ensures
        count_char(spec_swatch_cell(code), c) == (if c == '\x1b' {
            1nat
        } else {
            0nat
        }) + (if c == '[' {
            1nat
        } else {
            0nat
        }) + (if c == 'm' {
            1nat
        } else {
            0nat
        }) + (if c == '\u{2b23}' {
            1nat
        } else {
            0nat
        }),
{
    reveal_strlit("\x1b[");
    reveal_strlit("m\u{2b23}");
    assert("\x1b["@ =~= seq!['\x1b'] + seq!['[']);
    assert("m\u{2b23}"@ =~= seq!['m'] + seq!['\u{2b23}']);
    lemma_count_char_single('\x1b', c);
    lemma_count_char_single('[', c);
    lemma_count_char_single('m', c);
    lemma_count_char_single('\u{2b23}', c);
    lemma_count_char_concat(seq!['\x1b'], seq!['['], c);
    lemma_count_char_concat(seq!['m'], seq!['\u{2b23}'], c);
    lemma_decimal_count(code, c);
    lemma_count_char_concat("\x1b["@, spec_decimal(code), c);
    lemma_count_char_concat("\x1b["@ + spec_decimal(code), "m\u{2b23}"@, c);
}

/// A row of `count` cells opens `count` ANSI escapes.
pub proof fn lemma_row_escape_count(lo: nat, count: nat)
    ensures
        count_char(spec_swatch_row(lo, count), '\x1b') == count,
    decreases count,
{
    if count == 0 {
    } else if count == 1 {
        lemma_cell_count(lo, '\x1b');
    } else {
        lemma_row_escape_count(lo, (count - 1) as nat);
        lemma_cell_count((lo + count - 1) as nat, '\x1b');
        reveal_strlit(" ");
        assert(" "@ =~= seq![' ']);
        lemma_count_char_single(' ', '\x1b');
        lemma_count_char_concat(spec_swatch_row(lo, (count - 1) as nat), " "@, '\x1b');
        lemma_count_char_concat(
            spec_swatch_row(lo, (count - 1) as nat) + " "@,
            spec_swatch_cell((lo + count - 1) as nat),
            '\x1b',
        );
    }
}

/// A row of `count` cells holds exactly `count - 1` single-space joins.
pub proof fn lemma_row_space_count(lo: nat, count: nat)
    requires
        count > 0,
    ensures
        count_char(spec_swatch_row(lo, count), ' ') == count - 1,
    decreases count,
{
    if count == 1 {
        lemma_cell_count(lo, ' ');
    } else {
        lemma_row_space_count(lo, (count - 1) as nat);
        lemma_cell_count((lo + count - 1) as nat, ' ');
        reveal_strlit(" ");
        assert(" "@ =~= seq![' ']);
        lemma_count_char_single(' ', ' ');
        lemma_count_char_concat(spec_swatch_row(lo, (count - 1) as nat), " "@, ' ');
        lemma_count_char_concat(
            spec_swatch_row(lo, (count - 1) as nat) + " "@,
            spec_swatch_cell((lo + count - 1) as nat),
            ' ',
        );
    }
}

/// The shape of the swatch: row one holds exactly eight escape-coded glyphs
/// (for the colour codes 30 through 37, by the rows' construction) joined by
/// seven single spaces; row two likewise holds eight escapes (codes 90
/// through 97) and begins with a single leading space before the first
/// glyph's escape.
pub proof fn lemma_swatch_shape()
    ensures
        count_char(spec_swatch_row(30, 8), '\x1b') == 8,
        count_char(spec_swatch_row(30, 8), ' ') == 7,
        count_char(" "@ + spec_swatch_row(90, 8), '\x1b') == 8,
        count_char(" "@ + spec_swatch_row(90, 8), ' ') == 8,
        (" "@ + spec_swatch_row(90, 8)).first() == ' ',
{
    lemma_row_escape_count(30, 8);
    lemma_row_space_count(30, 8);
    lemma_row_escape_count(90, 8);
    lemma_row_space_count(90, 8);
    reveal_strlit(" ");
    assert(" "@ =~= seq![' ']);
    lemma_count_char_single(' ', '\x1b');
    lemma_count_char_single(' ', ' ');
    lemma_count_char_concat(" "@, spec_swatch_row(90, 8), '\x1b');
    lemma_count_char_concat(" "@, spec_swatch_row(90, 8), ' ');
    assert((" "@ + spec_swatch_row(90, 8)).first() == ' ');
}

} // verus!
