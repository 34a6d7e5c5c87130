//! Rendering an edit script as text: one row per record, optionally preceded
//! by a gutter with right-aligned old and new line numbers.

use vstd::prelude::*;

use crate::record::{records_view, ChangeRecord, ChangeTag, RenderConfig, SpecRecord};

verus! {

/// How many decimal digits a number needs; zero still needs one column.
pub open spec fn digit_count(n: nat) -> nat
    decreases n,
{
    if n < 10 {
        1
    } else {
        1 + digit_count(n / 10)
    }
}

/// The character of one decimal digit.
pub open spec fn digit_char(d: nat) -> char {
    if d == 0 {
        '0'
    } else if d == 1 {
        '1'
    } else if d == 2 {
        '2'
    } else if d == 3 {
        '3'
    } else if d == 4 {
        '4'
    } else if d == 5 {
        '5'
    } else if d == 6 {
        '6'
    } else if d == 7 {
        '7'
    } else if d == 8 {
        '8'
    } else {
        '9'
    }
}

/// The decimal digits of a number, most significant first.
pub open spec fn dec_digits(n: nat) -> Seq<char>
    decreases n,
{
    if n < 10 {
        seq![digit_char(n)]
    } else {
        dec_digits(n / 10).push(digit_char(n % 10))
    }
}

/// A run of blanks.
pub open spec fn spaces(n: nat) -> Seq<char> {
    Seq::new(n, |i: int| ' ')
}

/// Right-aligns a piece of text in a column of the given width; text wider
/// than the column is kept whole.
pub open spec fn pad_left(s: Seq<char>, w: nat) -> Seq<char> {
    if s.len() >= w {
        s
    } else {
        spaces((w - s.len()) as nat) + s
    }
}

/// One gutter column: the one-based line number right-aligned to the column
/// width when the side is present, blank padding when it is not.
pub open spec fn spec_column(idx: Option<usize>, w: nat) -> Seq<char> {
    match idx {
        Some(i) => pad_left(dec_digits((i + 1) as nat), w),
        None => spaces(w),
    }
}

/// The one-character sign of a record.
pub open spec fn sign_char(t: ChangeTag) -> char {
    match t {
        ChangeTag::Delete => '-',
        ChangeTag::Insert => '+',
        ChangeTag::Equal => ' ',
    }
}

/// The gutter of one row: old column, a blank, new column, the separator.
pub open spec fn spec_gutter(r: SpecRecord, w: nat) -> Seq<char> {
    spec_column(r.old_index, w) + seq![' '] + spec_column(r.new_index, w) + seq!['|']
}

/// One rendered row: the gutter when line numbers are shown, then the sign,
/// then the line's text verbatim (it carries its own terminator).
pub open spec fn spec_row(r: SpecRecord, w: nat, show: bool) -> Seq<char> {
    (if show {
        spec_gutter(r, w)
    } else {
        Seq::empty()
    }) + seq![sign_char(r.tag)] + r.content
}

/// All rows in order, with no separators in between.
pub open spec fn spec_rows(d: Seq<SpecRecord>, w: nat, show: bool) -> Seq<char>
    decreases d.len(),
{
    if d.len() == 0 {
        Seq::empty()
    } else {
        spec_rows(d.drop_last(), w, show) + spec_row(d.last(), w, show)
    }
}

/// The rendered text of an edit script: every row in order, the gutter width
/// sized to the record count (a count of zero still reserves one digit).
pub open spec fn spec_render(d: Seq<SpecRecord>, show: bool) -> Seq<char> {
    spec_rows(d, digit_count(d.len()), show)
}

/// An index that is present can be shown one-based without wrapping.
pub open spec fn record_renderable(r: SpecRecord) -> bool {
    &&& r.old_index is Some ==> r.old_index->0 < usize::MAX
    &&& r.new_index is Some ==> r.new_index->0 < usize::MAX
}

/// A positive number needs no more digit characters than its value.
proof fn lemma_digit_count_le(n: nat)
    requires
        n >= 1,
    ensures
        digit_count(n) <= n,
    decreases n,
{
    if n >= 10 {
        lemma_digit_count_le(n / 10);
    }
}

/// The digit sequence of a number is as long as its digit count.
proof fn lemma_dec_digits_len(n: nat)
    ensures
        dec_digits(n).len() == digit_count(n),
    decreases n,
{
    if n >= 10 {
        lemma_dec_digits_len(n / 10);
    }
}

/// The number of decimal digits needed to print a number, with one column
/// reserved even for zero.
pub fn int_log10(i: usize) -> (r: usize)
    ensures
        r == digit_count(i as nat),
{
    if i == 0 {
        return 1;
    }
    let mut len: usize = 0;
    let mut x = i;
    while x > 0
        invariant
            i >= 1,
            len + (if x > 0 {
                digit_count(x as nat)
            } else {
                0
            }) == digit_count(i as nat),
        decreases x,
    {
        proof {
            lemma_digit_count_le(i as nat);
        }
        x = x / 10;
        len = len + 1;
    }
    len
}

/// One decimal digit as a character.
fn digit_char_of(d: usize) -> (r: char)
    requires
        d < 10,
    ensures
        r == digit_char(d as nat),
{
    if d == 0 {
        '0'
    } else if d == 1 {
        '1'
    } else if d == 2 {
        '2'
    } else if d == 3 {
        '3'
    } else if d == 4 {
        '4'
    } else if d == 5 {
        '5'
    } else if d == 6 {
        '6'
    } else if d == 7 {
        '7'
    } else if d == 8 {
        '8'
    } else {
        '9'
    }
}

/// The decimal representation of a number.
pub fn usize_to_string(n: usize) -> (r: String)
    ensures
        r@ == dec_digits(n as nat),
    decreases n,
{
    if n < 10 {
        let mut s = String::new();
        s.push(digit_char_of(n));
        proof {
            assert(s@ =~= dec_digits(n as nat));
        }
        s
    } else {
        let mut s = usize_to_string(n / 10);
        s.push(digit_char_of(n % 10));
        s
    }
}

/// Appends a run of blanks.
fn append_spaces(out: &mut String, n: usize)
    ensures
        final(out)@ == old(out)@ + spaces(n as nat),
{
    let mut j: usize = 0;
    while j < n
        invariant
            j <= n,
            out@ == old(out)@ + spaces(j as nat),
        decreases n - j,
    {
        out.push(' ');
        proof {
            assert(old(out)@ + spaces(j as nat + 1) =~= (old(out)@ + spaces(j as nat)).push(' '));
        }
        j = j + 1;
    }
}

/// Appends a one-based line number, right-aligned to the column width.
fn append_padded_number(out: &mut String, v: usize, w: usize)
    ensures
        final(out)@ == old(out)@ + pad_left(dec_digits(v as nat), w as nat),
{
    proof {
        lemma_dec_digits_len(v as nat);
    }
    let d = int_log10(v);
    if d < w {
        append_spaces(out, w - d);
    }
    let num = usize_to_string(v);
    vstd::string::StringExecFns::append(out, num.as_str());
    proof {
        assert(final(out)@ =~= old(out)@ + pad_left(dec_digits(v as nat), w as nat));
    }
}

/// Appends one gutter column: the one-based line number when the side is
/// present, blank padding when it is not.
fn append_column(out: &mut String, idx: Option<usize>, w: usize)
    requires
        idx is Some ==> idx->0 < usize::MAX,
    ensures
        final(out)@ == old(out)@ + spec_column(idx, w as nat),
{
    match idx {
        Some(i) => append_padded_number(out, i + 1, w),
        None => append_spaces(out, w),
    }
}

/// Appends one rendered row: the gutter when line numbers are shown, then the
/// sign, then the line's text verbatim.
fn append_row(out: &mut String, rec: &ChangeRecord, w: usize, show: bool)
    requires
        record_renderable(rec@),
    ensures
        final(out)@ == old(out)@ + spec_row(rec@, w as nat, show),
{
    let ghost o0 = out@;
    if show {
        append_column(out, rec.old_index, w);
        out.push(' ');
        append_column(out, rec.new_index, w);
        out.push('|');
        proof {
            assert(out@ =~= o0 + spec_gutter(rec@, w as nat));
        }
    }
    let ghost o1 = out@;
    match rec.tag {
        ChangeTag::Delete => out.push('-'),
        ChangeTag::Insert => out.push('+'),
        ChangeTag::Equal => out.push(' '),
    }
    assert(out@ =~= o1 + seq![sign_char(rec@.tag)]);
    vstd::string::StringExecFns::append(out, rec.content.as_str());
    proof {
        assert(out@ =~= o0 + spec_row(rec@, w as nat, show));
    }
}

/// Renders an edit script. With line numbers on, each row is
/// `<old> <new>|<sign><content>`, both columns right-aligned to the computed
/// gutter width; with them off, each row is `<sign><content>`.
pub fn render(diff: &Vec<ChangeRecord>, config: &RenderConfig) -> (r: String)
    requires
        forall|i: int| 0 <= i < diff@.len() ==> record_renderable(#[trigger] diff@[i]@),
    ensures
        r@ == spec_render(records_view(diff@), config.show_line_numbers),
{
    let w = int_log10(diff.len());
    let mut out = String::new();
    let ghost d = records_view(diff@);
    assert(d.len() == diff@.len());
    let n = diff.len();
    for k in 0..n
        invariant
            n == diff@.len(),
            d == records_view(diff@),
            w == digit_count(d.len()),
            forall|i: int| 0 <= i < diff@.len() ==> record_renderable(#[trigger] diff@[i]@),
            out@ == spec_rows(d.take(k as int), w as nat, config.show_line_numbers),
    {
        assert(d[k as int] == diff@[k as int]@);
        append_row(&mut out, &diff[k], w, config.show_line_numbers);
        proof {
            assert(d.take(k + 1).drop_last() =~= d.take(k as int));
            assert(d.take(k + 1).last() == d[k as int]);
            assert(out@ == spec_rows(d.take(k + 1), w as nat, config.show_line_numbers));
        }
    }
    proof {
        assert(d.take(n as int) =~= d);
    }
    out
}

/// A decimal digit character.
pub open spec fn is_digit_ch(c: char) -> bool {
    c == '0' || c == '1' || c == '2' || c == '3' || c == '4' || c == '5' || c == '6' || c == '7'
        || c == '8' || c == '9'
}

/// A character that can open a rendered row: blank padding or a digit from
/// the gutter, or a record's sign.
pub open spec fn is_row_start(c: char) -> bool {
    c == ' ' || c == '-' || c == '+' || is_digit_ch(c)
}

/// A number's digit sequence is non-empty and opens with a digit.
proof fn lemma_dec_digits_first(n: nat)
    ensures
        dec_digits(n).len() >= 1,
        is_digit_ch(dec_digits(n)[0]),
    decreases n,
{
    if n >= 10 {
        lemma_dec_digits_first(n / 10);
    }
}

/// Every rendered row is non-empty and opens with a blank, a digit or a sign.
proof fn lemma_row_first(r: SpecRecord, w: nat, show: bool)
    requires
        w >= 1,
    ensures
        spec_row(r, w, show).len() >= 1,
        is_row_start(spec_row(r, w, show)[0]),
{
    if show {
        match r.old_index {
            Some(i) => {
                lemma_dec_digits_first((i + 1) as nat);
                assert(spec_row(r, w, show)[0] == spec_column(r.old_index, w)[0]);
            },
            None => {
                assert(spec_column(r.old_index, w)[0] == ' ');
                assert(spec_row(r, w, show)[0] == ' ');
            },
        }
    } else {
        assert(spec_row(r, w, show)[0] == sign_char(r.tag));
    }
}

/// A rendering of at least one record is non-empty and opens with a blank, a
/// digit or a sign.
proof fn lemma_rows_first(d: Seq<SpecRecord>, w: nat, show: bool)
    requires
        d.len() > 0,
        w >= 1,
    ensures
        spec_rows(d, w, show).len() >= 1,
        is_row_start(spec_rows(d, w, show)[0]),
    decreases d.len(),
{
    if d.len() == 1 {
        lemma_row_first(d.last(), w, show);
        assert(spec_rows(d.drop_last(), w, show) =~= Seq::<char>::empty());
        assert(spec_rows(d, w, show) =~= spec_row(d.last(), w, show));
    } else {
        lemma_rows_first(d.drop_last(), w, show);
        assert(spec_rows(d, w, show)[0] == spec_rows(d.drop_last(), w, show)[0]);
    }
}

/// Law: rendering at least one record yields text that opens with a blank, a
/// digit or a sign — never with any other character.
pub proof fn lemma_render_first_char(d: Seq<SpecRecord>, show: bool)
    requires
        d.len() > 0,
    ensures
        spec_render(d, show).len() >= 1,
        is_row_start(spec_render(d, show)[0]),
{
    lemma_rows_first(d, digit_count(d.len()), show);
}

/// Law: with line numbers off no gutter is emitted, so when no record's text
/// holds the separator character, the rendered text holds none either.
pub proof fn lemma_render_plain_has_no_separator(d: Seq<SpecRecord>)
    requires
        forall|i: int, j: int|
            0 <= i < d.len() && 0 <= j < d[i].content.len() ==> #[trigger] d[i].content[j] != '|',
    ensures
        forall|j: int| 0 <= j < spec_render(d, false).len() ==> spec_render(d, false)[j] != '|',
{
    lemma_rows_plain_no_separator(d, digit_count(d.len()));
}

proof fn lemma_rows_plain_no_separator(d: Seq<SpecRecord>, w: nat)
    requires
        forall|i: int, j: int|
            0 <= i < d.len() && 0 <= j < d[i].content.len() ==> #[trigger] d[i].content[j] != '|',
    ensures
        forall|j: int| 0 <= j < spec_rows(d, w, false).len() ==> spec_rows(d, w, false)[j] != '|',
    decreases d.len(),
{
    if d.len() > 0 {
        lemma_rows_plain_no_separator(d.drop_last(), w);
        let pre = spec_rows(d.drop_last(), w, false);
        let row = spec_row(d.last(), w, false);
        assert(row =~= seq![sign_char(d.last().tag)] + d.last().content);
        assert(forall|j: int| 0 <= j < row.len() ==> row[j] != '|') by {
            assert(row[0] == sign_char(d.last().tag));
            assert(forall|j: int| 1 <= j < row.len() ==> row[j] == d.last().content[j - 1]);
        }
        assert(spec_rows(d, w, false) == pre + row);
    }
}

} // verus!
