//! The line under a tape is aligned with the tape: the caret stands under
//! what it points at.

use vstd::prelude::*;
use crate::ram::types::Number;
use crate::text::number::{lemma_signed_decimal, signed_decimal};
use crate::ui::listing::{
    caret, input_carets, input_number, input_number_line, input_numbers, input_pointer_line,
    output_blanks, output_number_line, output_numbers, output_pointer_line, row_text,
    separator_after, slot,
};
use crate::ui::screen::{blanks, piece, PieceView, Tone};

verus! {

/// The text of a row with one piece more is its text with the text of that
/// piece after it.
pub proof fn lemma_row_text_push(row: Seq<PieceView>, last: PieceView)
    ensures
        row_text(row.push(last)) == row_text(row) + last.text,
{
    assert(row.push(last).drop_last() == row);
}

/// The blanks under the values of the output tape are as wide as the
/// values.
proof fn lemma_output_same_width(output: Seq<Number>)
    ensures
        row_text(output_blanks(output)).len() == row_text(output_numbers(output)).len(),
    decreases output.len(),
{
    if output.len() == 0 {
        lemma_row_text_push(Seq::empty(), piece(seq!['['], Tone::Plain));
        lemma_row_text_push(Seq::empty(), piece(seq![' '], Tone::Plain));
        assert(output_numbers(output) =~= Seq::<PieceView>::empty().push(
            piece(seq!['['], Tone::Plain),
        ));
        assert(output_blanks(output) =~= Seq::<PieceView>::empty().push(
            piece(seq![' '], Tone::Plain),
        ));
    } else {
        let earlier = output.drop_last();
        let numeral = signed_decimal(output.last() as int);
        lemma_output_same_width(earlier);
        lemma_row_text_push(
            output_numbers(earlier),
            piece(numeral + seq![',', ' '], Tone::Plain),
        );
        lemma_row_text_push(
            output_blanks(earlier),
            piece(blanks(numeral.len() as int + 2), Tone::Plain),
        );
    }
}

/// On the output tape the caret stands under the place where the next value
/// goes.
pub proof fn lemma_output_caret_under_slot(output: Seq<Number>)
    ensures
        ({
            let numbers = row_text(output_number_line(output));
            let pointers = row_text(output_pointer_line(output));
            &&& pointers.len() + 1 == numbers.len()
            &&& pointers[pointers.len() - 1] == '^'
            &&& numbers[pointers.len() - 1] == '_'
        }),
{
    lemma_output_same_width(output);
    lemma_row_text_push(output_numbers(output), slot());
    lemma_row_text_push(output_numbers(output).push(slot()), piece(seq![']'], Tone::Plain));
    lemma_row_text_push(output_blanks(output), caret());
}

/// What stands under the first values of the input tape is as wide as
/// those values.
proof fn lemma_input_same_width(input: Seq<Number>, cursor: nat, n: nat)
    requires
        n <= input.len(),
    ensures
        row_text(input_carets(input, cursor, n)).len() == row_text(
            input_numbers(input, cursor, n),
        ).len(),
    decreases n,
{
    if n == 0 {
        lemma_row_text_push(Seq::empty(), piece(seq!['['], Tone::Plain));
        lemma_row_text_push(Seq::empty(), piece(seq![' '], Tone::Plain));
        assert(input_numbers(input, cursor, n) =~= Seq::<PieceView>::empty().push(
            piece(seq!['['], Tone::Plain),
        ));
        assert(input_carets(input, cursor, n) =~= Seq::<PieceView>::empty().push(
            piece(seq![' '], Tone::Plain),
        ));
    } else {
        lemma_input_same_width(input, cursor, (n - 1) as nat);
        lemma_input_step(input, cursor, n);
    }
}

/// What one more value adds to the input tape and to the line under it.
proof fn lemma_input_step(input: Seq<Number>, cursor: nat, n: nat)
    requires
        0 < n <= input.len(),
    ensures
        ({
            let i = n - 1;
            let numeral = signed_decimal(input[i] as int);
            let under = if i == cursor {
                seq!['^']
            } else {
                seq![' ']
            };
            &&& numeral.len() >= 1
            &&& row_text(input_numbers(input, cursor, n)) == row_text(
                input_numbers(input, cursor, (n - 1) as nat),
            ) + (numeral + separator_after(input, i))
            &&& row_text(input_carets(input, cursor, n)) == row_text(
                input_carets(input, cursor, (n - 1) as nat),
            ) + blanks(numeral.len() - 1) + under + blanks(separator_after(input, i).len() as int)
        }),
{
    let i = n - 1;
    let numeral = signed_decimal(input[i] as int);
    lemma_signed_decimal(input[i] as int);
    let before = input_carets(input, cursor, (n - 1) as nat);
    let first = piece(blanks(numeral.len() - 1), Tone::Plain);
    let second = if i == cursor {
        caret()
    } else {
        piece(seq![' '], Tone::Plain)
    };
    let third = piece(blanks(separator_after(input, i).len() as int), Tone::Plain);
    lemma_row_text_push(
        input_numbers(input, cursor, (n - 1) as nat),
        input_number(input, cursor, i),
    );
    lemma_row_text_push(before, first);
    lemma_row_text_push(before.push(first), second);
    lemma_row_text_push(before.push(first).push(second), third);
}

/// The text of the first values of the input tape begins the text of more
/// of them, and so it is with what stands under them.
proof fn lemma_input_prefix(input: Seq<Number>, cursor: nat, n: nat, m: nat)
    requires
        n <= m <= input.len(),
    ensures
        ({
            let few = row_text(input_numbers(input, cursor, n));
            let many = row_text(input_numbers(input, cursor, m));
            few.len() <= many.len() && many.subrange(0, few.len() as int) == few
        }),
        ({
            let few = row_text(input_carets(input, cursor, n));
            let many = row_text(input_carets(input, cursor, m));
            few.len() <= many.len() && many.subrange(0, few.len() as int) == few
        }),
    decreases m - n,
{
    let few = row_text(input_numbers(input, cursor, n));
    let few_under = row_text(input_carets(input, cursor, n));
    if n == m {
        assert(few.subrange(0, few.len() as int) =~= few);
        assert(few_under.subrange(0, few_under.len() as int) =~= few_under);
    } else {
        lemma_input_prefix(input, cursor, n, (m - 1) as nat);
        lemma_input_step(input, cursor, m);
        let less = row_text(input_numbers(input, cursor, (m - 1) as nat));
        let many = row_text(input_numbers(input, cursor, m));
        assert(many.subrange(0, few.len() as int) =~= less.subrange(0, few.len() as int));
        let less_under = row_text(input_carets(input, cursor, (m - 1) as nat));
        let many_under = row_text(input_carets(input, cursor, m));
        assert(many_under.subrange(0, few_under.len() as int) =~= less_under.subrange(
            0,
            few_under.len() as int,
        ));
    }
}

/// On the input tape the caret stands under the last character of the
/// value that the cursor is at.
pub proof fn lemma_input_caret_under_value(input: Seq<Number>, cursor: nat)
    requires
        cursor < input.len(),
    ensures
        ({
            let numbers = row_text(input_number_line(input, cursor));
            let pointers = row_text(input_pointer_line(input, cursor));
            let start = row_text(input_numbers(input, cursor, cursor)).len() as int;
            let numeral = signed_decimal(input[cursor as int] as int);
            &&& numeral.len() >= 1
            &&& start + numeral.len() <= numbers.len()
            &&& start + numeral.len() <= pointers.len()
            &&& numbers.subrange(start, start + numeral.len()) == numeral
            &&& pointers[start + numeral.len() - 1] == '^'
        }),
{
    let start = row_text(input_numbers(input, cursor, cursor)).len() as int;
    let numeral = signed_decimal(input[cursor as int] as int);
    let next = cursor + 1;
    lemma_input_same_width(input, cursor, cursor);
    lemma_input_step(input, cursor, next);
    lemma_input_prefix(input, cursor, next, input.len());
    let upto = row_text(input_numbers(input, cursor, next));
    let upto_under = row_text(input_carets(input, cursor, next));
    let all = row_text(input_numbers(input, cursor, input.len()));
    let all_under = row_text(input_carets(input, cursor, input.len()));
    assert(upto.subrange(start, start + numeral.len()) =~= numeral);
    assert(upto_under[start + numeral.len() - 1] == '^');
    assert(all.subrange(0, upto.len() as int)[start + numeral.len() - 1] == all[start
        + numeral.len() - 1]);
    assert(all_under.subrange(0, upto_under.len() as int)[start + numeral.len() - 1]
        == all_under[start + numeral.len() - 1]);
    lemma_row_text_push(
        input_numbers(input, cursor, input.len()),
        piece(seq![']'], Tone::Plain),
    );
    let numbers = row_text(input_number_line(input, cursor));
    assert(numbers.subrange(start, start + numeral.len()) =~= all.subrange(
        0,
        upto.len() as int,
    ).subrange(start, start + numeral.len()));
}

/// Once every value of the input tape is read, the caret stands under the
/// place where the next value would come from.
pub proof fn lemma_input_caret_under_slot(input: Seq<Number>)
    ensures
        ({
            let numbers = row_text(input_number_line(input, input.len()));
            let pointers = row_text(input_pointer_line(input, input.len()));
            &&& pointers.len() + 1 == numbers.len()
            &&& pointers[pointers.len() - 1] == '^'
            &&& numbers[pointers.len() - 1] == '_'
        }),
{
    let cursor = input.len();
    let between = piece(
        if cursor == 0 {
            Seq::empty()
        } else {
            seq![',', ' ']
        },
        Tone::Dim,
    );
    let under = piece(
        if cursor == 0 {
            Seq::empty()
        } else {
            seq![' ', ' ']
        },
        Tone::Plain,
    );
    let values = input_numbers(input, cursor, cursor);
    let carets = input_carets(input, cursor, cursor);
    lemma_input_same_width(input, cursor, cursor);
    lemma_row_text_push(values, between);
    lemma_row_text_push(values.push(between), slot());
    lemma_row_text_push(values.push(between).push(slot()), piece(seq![']'], Tone::Plain));
    lemma_row_text_push(carets, under);
    lemma_row_text_push(carets.push(under), caret());
}

} // verus!
