//! Naming the files that tiles are written to.
//!
//! The tile of row `r` and column `c` of the source `photo.png` goes to
//! `photo-r{r}c{c}.png` in the output directory: a name that depends on
//! nothing but the source's stem, the tile's place in the grid and the format.

use vstd::prelude::*;
use vstd::string::*;

verus! {

/// The character that stands for a digit from 0 to 9.
pub open spec fn digit_char(d: int) -> char {
    if d == 0 {
        '0'
    } else if d == 1 {
        '1'
    } else if d == 2 {
        '2'
    } else if d == 3 {
        '3'
    } else if d == 4 {
        '4'
    } else if d == 5 {
        '5'
    } else if d == 6 {
        '6'
    } else if d == 7 {
        '7'
    } else if d == 8 {
        '8'
    } else {
        '9'
    }
}

/// Whether a character is one of the digits `0` to `9`.
pub open spec fn is_digit(c: char) -> bool {
    '0' <= c <= '9'
}

/// A number written in decimal, without leading zeros.
pub open spec fn decimal(n: nat) -> Seq<char>
    decreases n,
{
    if n < 10 {
        seq![digit_char(n as int)]
    } else {
        decimal(n / 10).push(digit_char((n % 10) as int))
    }
}

/// The file name of a tile: the stem of the source, `-r` and the row, `c` and
/// the column, a dot and the extension of the format.
pub open spec fn tile_name(stem: Seq<char>, row: nat, col: nat, ext: Seq<char>) -> Seq<char> {
    stem + seq!['-', 'r'] + decimal(row) + seq!['c'] + decimal(col) + seq!['.'] + ext
}

/// The text of one digit.
fn digit_str(d: usize) -> (s: &'static str)
    requires
        d < 10,
    ensures
        s@ == seq![digit_char(d as int)],
{
    proof {
        reveal_strlit("0");
        reveal_strlit("1");
        reveal_strlit("2");
        reveal_strlit("3");
        reveal_strlit("4");
        reveal_strlit("5");
        reveal_strlit("6");
        reveal_strlit("7");
        reveal_strlit("8");
        reveal_strlit("9");
    }
    let s = if d == 0 {
        "0"
    } else if d == 1 {
        "1"
    } else if d == 2 {
        "2"
    } else if d == 3 {
        "3"
    } else if d == 4 {
        "4"
    } else if d == 5 {
        "5"
    } else if d == 6 {
        "6"
    } else if d == 7 {
        "7"
    } else if d == 8 {
        "8"
    } else {
        "9"
    };
    assert(s@ =~= seq![digit_char(d as int)]);
    s
}

/// Appends a number in decimal to a text.
fn push_decimal(out: &mut String, n: usize)
    ensures
        final(out)@ == old(out)@ + decimal(n as nat),
    decreases n,
{
    if n >= 10 {
        push_decimal(out, n / 10);
    }
    out.append(digit_str(n % 10));
    proof {
        let digits = decimal(n as nat);
        if n >= 10 {
            assert(old(out)@ + decimal((n / 10) as nat) + seq![digit_char((n % 10) as int)]
                =~= old(out)@ + digits);
        } else {
            assert(old(out)@ + seq![digit_char((n % 10) as int)] =~= old(out)@ + digits);
        }
    }
}

/// Builds the file name of the tile at `row` and `col` of the source with the
/// given stem, for a format with the given extension.
pub fn tile_file_name(stem: &str, row: usize, col: usize, ext: &str) -> (name: String)
    ensures
        name@ == tile_name(stem@, row as nat, col as nat, ext@),
{
    proof {
        reveal_strlit("-r");
        reveal_strlit("c");
        reveal_strlit(".");
    }
    let mut name = String::from_str(stem);
    name.append("-r");
    push_decimal(&mut name, row);
    name.append("c");
    push_decimal(&mut name, col);
    name.append(".");
    name.append(ext);
    proof {
        assert("-r"@ =~= seq!['-', 'r']);
        assert("c"@ =~= seq!['c']);
        assert("."@ =~= seq!['.']);
    }
    name
}

/// Where a tile is written: the output directory and the file's name in it.
#[derive(Debug)]
pub struct OutputPath {
    /// The directory that the tile goes to, as it was given.
    pub directory: String,
    /// The name of the tile's file in that directory.
    pub file_name: String,
}

/// Resolves the destination of the tile at `row_index` and `col_index` of the
/// source with the given stem. The result depends on the arguments alone, so
/// the same tile of the same source always goes to the same place.
pub fn resolve(
    output_dir: &str,
    source_stem: &str,
    row_index: usize,
    col_index: usize,
    format_ext: &str,
) -> (path: OutputPath)
    ensures
        path.directory@ == output_dir@,
        path.file_name@ == tile_name(
            source_stem@,
            row_index as nat,
            col_index as nat,
            format_ext@,
        ),
{
    OutputPath {
        directory: String::from_str(output_dir),
        file_name: tile_file_name(source_stem, row_index, col_index, format_ext),
    }
}

/// A number in decimal has at least one character, and digits only.
pub proof fn lemma_decimal_digits(n: nat)
    ensures
        decimal(n).len() >= 1,
        forall|i: int| 0 <= i < decimal(n).len() ==> is_digit(#[trigger] decimal(n)[i]),
    decreases n,
{
    if n >= 10 {
        lemma_decimal_digits(n / 10);
    }
}

/// Two numbers that are written alike are the same number.
pub proof fn lemma_decimal_injective(a: nat, b: nat)
    requires
        decimal(a) == decimal(b),
    ensures
        a == b,
    decreases a,
{
    lemma_decimal_digits(a / 10);
    lemma_decimal_digits(b / 10);
    if a >= 10 && b >= 10 {
        let da = decimal(a / 10);
        let db = decimal(b / 10);
        assert(decimal(a).drop_last() =~= da);
        assert(decimal(b).drop_last() =~= db);
        assert(decimal(a).last() == digit_char((a % 10) as int));
        assert(decimal(b).last() == digit_char((b % 10) as int));
        lemma_decimal_injective(a / 10, b / 10);
    } else if a < 10 && b < 10 {
        assert(decimal(a)[0] == digit_char(a as int));
        assert(decimal(b)[0] == digit_char(b as int));
    } else if a < 10 {
        assert(decimal(a).len() == 1);
        assert(decimal(b).len() == decimal(b / 10).len() + 1);
    } else {
        assert(decimal(b).len() == 1);
        assert(decimal(a).len() == decimal(a / 10).len() + 1);
    }
}

/// How a tile's name is laid out: after the stem and `-r` come the digits of
/// the row, then `c`, then the digits of the column.
proof fn lemma_name_layout(stem: Seq<char>, row: nat, col: nat, ext: Seq<char>)
    ensures
        ({
            let name = tile_name(stem, row, col, ext);
            let rows = decimal(row);
            let cols = decimal(col);
            let start = stem.len() as int + 2;
            &&& name.len() == start + rows.len() + 1 + cols.len() + 1 + ext.len()
            &&& forall|i: int| 0 <= i < rows.len() ==> name[start + i] == #[trigger] rows[i]
            &&& name[start + rows.len()] == 'c'
            &&& forall|i: int|
                0 <= i < cols.len() ==> name[start + rows.len() + 1 + i] == #[trigger] cols[i]
        }),
{
}

/// Tiles of one source at different places of the grid get different names.
pub proof fn lemma_tile_names_distinct(
    stem: Seq<char>,
    ext: Seq<char>,
    row1: nat,
    col1: nat,
    row2: nat,
    col2: nat,
)
    requires
        tile_name(stem, row1, col1, ext) == tile_name(stem, row2, col2, ext),
    ensures
        row1 == row2,
        col1 == col2,
{
    let name = tile_name(stem, row1, col1, ext);
    let start = stem.len() as int + 2;
    let r1 = decimal(row1);
    let r2 = decimal(row2);
    let c1 = decimal(col1);
    let c2 = decimal(col2);
    lemma_name_layout(stem, row1, col1, ext);
    lemma_name_layout(stem, row2, col2, ext);
    lemma_decimal_digits(row1);
    lemma_decimal_digits(row2);
    lemma_decimal_digits(col1);
    lemma_decimal_digits(col2);
    if r1.len() < r2.len() {
        assert(name[start + r1.len()] == r2[r1.len() as int]);
        assert(is_digit(r2[r1.len() as int]));
    }
    if r2.len() < r1.len() {
        assert(name[start + r2.len()] == r1[r2.len() as int]);
        assert(is_digit(r1[r2.len() as int]));
    }
    assert(r1.len() == r2.len());
    assert(r1 =~= r2) by {
        assert forall|i: int| 0 <= i < r1.len() implies r1[i] == r2[i] by {
            assert(name[start + i] == r1[i]);
            assert(name[start + i] == r2[i]);
        }
    }
    assert(c1.len() == c2.len());
    assert(c1 =~= c2) by {
        assert forall|i: int| 0 <= i < c1.len() implies c1[i] == c2[i] by {
            assert(name[start + r1.len() + 1 + i] == c1[i]);
            assert(name[start + r2.len() + 1 + i] == c2[i]);
        }
    }
    lemma_decimal_injective(row1, row2);
    lemma_decimal_injective(col1, col2);
}

/// In a grid with `columns` columns, two different tiles of one source get
/// different names: the names tell the tiles of an image apart.
pub proof fn lemma_tiles_named_apart(
    stem: Seq<char>,
    ext: Seq<char>,
    columns: nat,
    tile1: nat,
    tile2: nat,
)
    requires
        columns > 0,
        tile1 != tile2,
    ensures
        tile_name(stem, tile1 / columns, tile1 % columns, ext) != tile_name(
            stem,
            tile2 / columns,
            tile2 % columns,
            ext,
        ),
{
    if tile_name(stem, tile1 / columns, tile1 % columns, ext) == tile_name(
        stem,
        tile2 / columns,
        tile2 % columns,
        ext,
    ) {
        lemma_tile_names_distinct(
            stem,
            ext,
            tile1 / columns,
            tile1 % columns,
            tile2 / columns,
            tile2 % columns,
        );
        vstd::arithmetic::div_mod::lemma_fundamental_div_mod(tile1 as int, columns as int);
        vstd::arithmetic::div_mod::lemma_fundamental_div_mod(tile2 as int, columns as int);
    }
}

} // verus!
