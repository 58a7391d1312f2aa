//! Field layouts and the column names derived from them.

use vstd::prelude::*;
use vstd::string::StringExecFns;

verus! {

/// One field of a header: its name, the position of its first bit in the
/// encoding, and the number of positions it occupies.
#[derive(Clone, Copy, Debug)]
pub struct FieldLayout {
    pub name: &'static str,
    pub start: usize,
    pub width: usize,
}

/// The decimal digit `d` as a character.
pub open spec fn digit(d: nat) -> char {
    if d == 0 {
        '0'
    } else if d == 1 {
        '1'
    } else if d == 2 {
        '2'
    } else if d == 3 {
        '3'
    } else if d == 4 {
        '4'
    } else if d == 5 {
        '5'
    } else if d == 6 {
        '6'
    } else if d == 7 {
        '7'
    } else if d == 8 {
        '8'
    } else {
        '9'
    }
}

/// The decimal notation of `n`, without leading zeros.
pub open spec fn decimal(n: nat) -> Seq<char>
    decreases n,
{
    if n < 10 {
        seq![digit(n)]
    } else {
        decimal(n / 10).push(digit(n % 10))
    }
}

/// The name of position `index` of a field: the field's name, an underscore
/// and the index in decimal.
pub open spec fn column_name(field: Seq<char>, index: nat) -> Seq<char> {
    field + seq!['_'] + decimal(index)
}

/// The column names of one field, one for each of its positions.
pub open spec fn field_columns(field: FieldLayout) -> Seq<Seq<char>> {
    Seq::new(field.width as nat, |i: int| column_name(field.name@, i as nat))
}

/// The column names of a layout: those of its fields, in order.
pub open spec fn layout_columns(layout: Seq<FieldLayout>) -> Seq<Seq<char>>
    decreases layout.len(),
{
    if layout.len() == 0 {
        Seq::empty()
    } else {
        layout_columns(layout.drop_last()) + field_columns(layout.last())
    }
}

/// The number of positions that a layout covers.
pub open spec fn layout_width(layout: Seq<FieldLayout>) -> nat
    decreases layout.len(),
{
    if layout.len() == 0 {
        0
    } else {
        layout_width(layout.drop_last()) + layout.last().width as nat
    }
}

/// Every field starts where the one before it ends, the first at position 0.
pub open spec fn contiguous(layout: Seq<FieldLayout>) -> bool {
    forall|k: int|
        0 <= k < layout.len() ==> (#[trigger] layout[k]).start == (if k == 0 {
            0
        } else {
            layout[k - 1].start + layout[k - 1].width
        })
}

/// The position behind the last field of a layout whose fields are contiguous.
pub open spec fn layout_end(layout: Seq<FieldLayout>) -> int {
    if layout.len() == 0 {
        0
    } else {
        layout.last().start + layout.last().width
    }
}

/// A layout has one column name for each position it covers.
pub proof fn lemma_layout_columns_len(layout: Seq<FieldLayout>)
    ensures
        layout_columns(layout).len() == layout_width(layout),
    decreases layout.len(),
{
    if layout.len() > 0 {
        lemma_layout_columns_len(layout.drop_last());
    }
}

/// A contiguous layout covers the positions up to the end of its last field,
/// and so does each of its prefixes.
pub proof fn lemma_contiguous_width(layout: Seq<FieldLayout>)
    requires
        contiguous(layout),
    ensures
        layout_width(layout) == layout_end(layout),
        layout.len() > 0 ==> contiguous(layout.drop_last()),
    decreases layout.len(),
{
    if layout.len() > 0 {
        let front = layout.drop_last();
        assert forall|k: int| 0 <= k < front.len() implies (#[trigger] front[k]).start == (if k
            == 0 {
            0
        } else {
            front[k - 1].start + front[k - 1].width
        }) by {
            assert(front[k] == layout[k]);
        }
        lemma_contiguous_width(front);
        assert(layout.last() == layout[layout.len() - 1]);
    }
}

/// In a contiguous layout, position `j` of field `k` is the column at
/// `start + j`, named after the field and `j`.
pub proof fn lemma_column_of_field(layout: Seq<FieldLayout>, k: int, j: int)
    requires
        contiguous(layout),
        0 <= k < layout.len(),
        0 <= j < layout[k].width,
    ensures
        layout[k].start + j < layout_columns(layout).len(),
        layout_columns(layout)[layout[k].start + j] == column_name(layout[k].name@, j as nat),
    decreases layout.len(),
{
    let front = layout.drop_last();
    lemma_contiguous_width(layout);
    lemma_contiguous_width(front);
    lemma_layout_columns_len(front);
    lemma_layout_columns_len(layout);
    if k == layout.len() - 1 {
        assert(layout.last() == layout[k]);
        if k > 0 {
            assert(front.last() == layout[k - 1]);
        }
        assert(layout_columns(layout)[layout[k].start + j] == field_columns(layout.last())[j]);
    } else {
        assert(front[k] == layout[k]);
        lemma_column_of_field(front, k, j);
    }
}

/// The text of one decimal digit.
fn digit_text(d: usize) -> (text: &'static str)
    requires
        d < 10,
    ensures
        text@ == seq![digit(d as nat)],
{
    proof {
        reveal_strlit("0");
        reveal_strlit("1");
        reveal_strlit("2");
        reveal_strlit("3");
        reveal_strlit("4");
        reveal_strlit("5");
        reveal_strlit("6");
        reveal_strlit("7");
        reveal_strlit("8");
        reveal_strlit("9");
    }
    let text = if d == 0 {
        "0"
    } else if d == 1 {
        "1"
    } else if d == 2 {
        "2"
    } else if d == 3 {
        "3"
    } else if d == 4 {
        "4"
    } else if d == 5 {
        "5"
    } else if d == 6 {
        "6"
    } else if d == 7 {
        "7"
    } else if d == 8 {
        "8"
    } else {
        "9"
    };
    text
}

/// Writes `n` in decimal.
pub fn decimal_text(n: usize) -> (text: String)
    ensures
        text@ == decimal(n as nat),
    decreases n,
{
    if n < 10 {
        String::from_str(digit_text(n))
    } else {
        let mut text = decimal_text(n / 10);
        text.append(digit_text(n % 10));
        text
    }
}

/// Appends to `names` the column names of `field`.
pub fn push_field_columns(names: &mut Vec<String>, field: &FieldLayout)
    ensures
        final(names).deep_view() == old(names).deep_view() + field_columns(*field),
{
    let ghost before = names.deep_view();
    let mut i: usize = 0;
    while i < field.width
        invariant
            i <= field.width,
            names.deep_view() == before + field_columns(*field).take(i as int),
        decreases field.width - i,
    {
        let mut name = String::from_str(field.name);
        proof {
            reveal_strlit("_");
        }
        name.append("_");
        let index = decimal_text(i);
        name.append(index.as_str());
        assert(name@ =~= column_name(field.name@, i as nat));
        let ghost sofar = names.deep_view();
        names.push(name);
        assert(names.deep_view() =~= sofar.push(name@));
        i += 1;
    }
}

/// The column names of `layout`, in order.
pub fn layout_column_names(layout: &Vec<FieldLayout>) -> (names: Vec<String>)
    ensures
        names.deep_view() == layout_columns(layout@),
        names@.len() == layout_width(layout@),
{
    let mut names: Vec<String> = Vec::new();
    let mut k: usize = 0;
    while k < layout.len()
        invariant
            k <= layout.len(),
            names.deep_view() == layout_columns(layout@.take(k as int)),
        decreases layout.len() - k,
    {
        push_field_columns(&mut names, &layout[k]);
        proof {
            assert(layout@.take(k + 1).drop_last() =~= layout@.take(k as int));
        }
        k += 1;
    }
    proof {
        assert(layout@.take(k as int) =~= layout@);
        lemma_layout_columns_len(layout@);
    }
    names
}

} // verus!
