use vstd::prelude::*;

use crate::text::{
    join_pieces, joined, lemma_split_joined, lemma_split_pieces_lack_sep, split_on, split_pieces,
    string_views,
};

verus! {

/// Separates the selected values of a multi-select choice field.
pub const VALUE_SEPARATOR: char = '\u{1f}';

/// The options of a choice field as (export value, display label) views.
pub open spec fn option_views(options: Seq<(String, String)>) -> Seq<(Seq<char>, Seq<char>)> {
    options.map_values(|o: (String, String)| (o.0@, o.1@))
}

/// The label of the first option whose export value is `value`; the value
/// itself when no option has it.
pub open spec fn option_label(options: Seq<(Seq<char>, Seq<char>)>, value: Seq<char>) -> Seq<char>
    decreases options.len(),
{
    if options.len() == 0 {
        value
    } else if options[0].0 == value {
        options[0].1
    } else {
        option_label(options.drop_first(), value)
    }
}

/// The non-empty pieces, in order.
pub open spec fn nonempty_pieces(parts: Seq<Seq<char>>) -> Seq<Seq<char>>
    decreases parts.len(),
{
    if parts.len() == 0 {
        Seq::empty()
    } else {
        let rest = nonempty_pieces(parts.drop_last());
        if parts.last().len() > 0 {
            rest.push(parts.last())
        } else {
            rest
        }
    }
}

/// The non-empty pieces other than `export`, in order.
pub open spec fn other_values(parts: Seq<Seq<char>>, export: Seq<char>) -> Seq<Seq<char>>
    decreases parts.len(),
{
    if parts.len() == 0 {
        Seq::empty()
    } else {
        let rest = other_values(parts.drop_last(), export);
        if parts.last().len() > 0 && parts.last() != export {
            rest.push(parts.last())
        } else {
            rest
        }
    }
}

/// What a choice field shows for `value`: the labels of its selected values
/// separated by ", " for a multi-select value, else the label of the value.
pub open spec fn choice_label(options: Seq<(Seq<char>, Seq<char>)>, value: Seq<char>) -> Seq<char> {
    if value.contains(VALUE_SEPARATOR) {
        joined(
            nonempty_pieces(split_on(value, VALUE_SEPARATOR)).map_values(
                |p: Seq<char>| option_label(options, p),
            ),
            ", "@,
        )
    } else {
        option_label(options, value)
    }
}

/// The multi-select value after `export` is clicked: removed when it was
/// selected, appended when it was not; empty pieces are dropped.
pub open spec fn toggled_value(current: Seq<char>, export: Seq<char>) -> Seq<char> {
    let parts = split_on(current, VALUE_SEPARATOR);
    let others = other_values(parts, export);
    joined(
        if parts.contains(export) {
            others
        } else {
            others.push(export)
        },
        seq![VALUE_SEPARATOR],
    )
}

/// The value a choice field takes when `export` is clicked.
pub open spec fn chosen_value(current: Seq<char>, export: Seq<char>, multi_select: bool) -> Seq<
    char,
> {
    if multi_select {
        toggled_value(current, export)
    } else {
        export
    }
}

fn contains_char(s: &str, c: char) -> (found: bool)
    ensures
        found == s@.contains(c),
{
    let n = s.unicode_len();
    let mut i: usize = 0;
    while i < n
        invariant
            n == s@.len(),
            i <= n,
            forall|k: int| 0 <= k < i ==> s@[k] != c,
        decreases n - i,
    {
        if s.get_char(i) == c {
            return true;
        }
        i = i + 1;
    }
    false
}

fn lookup_label(options: &[(String, String)], value: &str) -> (label: String)
    ensures
        label@ == option_label(option_views(options@), value@),
{
    let wanted = value.to_owned();
    let ghost all = option_views(options@);
    assert(all.skip(0) =~= all);
    let mut i: usize = 0;
    while i < options.len()
        invariant
            i <= options@.len(),
            all == option_views(options@),
            wanted@ == value@,
            option_label(all, value@) == option_label(all.skip(i as int), value@),
        decreases options@.len() - i,
    {
        let ghost rest = all.skip(i as int);
        assert(rest[0] == (options@[i as int].0@, options@[i as int].1@));
        assert(rest.drop_first() =~= all.skip(i + 1));
        if options[i].0 == wanted {
            return options[i].1.clone();
        }
        i = i + 1;
    }
    assert(all.skip(i as int).len() == 0);
    value.to_owned()
}

/// What a choice field shows for `value`: the display labels of the selected
/// export values.
pub fn display_choice_label(options: &[(String, String)], value: &str) -> (label: String)
    ensures
        label@ == choice_label(option_views(options@), value@),
{
    if !contains_char(value, VALUE_SEPARATOR) {
        return lookup_label(options, value);
    }
    let pieces = split_pieces(value, VALUE_SEPARATOR);
    let ghost parts = string_views(pieces@);
    let ghost opts = option_views(options@);
    let mut labels: Vec<String> = Vec::new();
    let mut i: usize = 0;
    while i < pieces.len()
        invariant
            i <= pieces@.len(),
            parts == string_views(pieces@),
            opts == option_views(options@),
            string_views(labels@) == nonempty_pieces(parts.take(i as int)).map_values(
                |p: Seq<char>| option_label(opts, p),
            ),
        decreases pieces@.len() - i,
    {
        assert(parts.take(i + 1).drop_last() =~= parts.take(i as int));
        assert(parts.take(i + 1).last() == pieces@[i as int]@);
        let ghost before = string_views(labels@);
        if !pieces[i].as_str().is_empty() {
            let label = lookup_label(options, pieces[i].as_str());
            labels.push(label);
            assert(string_views(labels@) =~= before.push(option_label(opts, pieces@[i as int]@)));
        }
        assert(string_views(labels@) =~= nonempty_pieces(parts.take(i + 1)).map_values(
            |p: Seq<char>| option_label(opts, p),
        ));
        i = i + 1;
    }
    assert(parts.take(pieces@.len() as int) =~= parts);
    let separator = ", ";
    join_pieces(&labels, separator)
}

/// The multi-select value after `export` is clicked.
pub fn toggle_choice_value(current: &str, export: &str) -> (value: String)
    ensures
        value@ == toggled_value(current@, export@),
{
    let wanted = export.to_owned();
    let pieces = split_pieces(current, VALUE_SEPARATOR);
    let ghost parts = string_views(pieces@);
    let mut values: Vec<String> = Vec::new();
    let mut present = false;
    let mut i: usize = 0;
    while i < pieces.len()
        invariant
            i <= pieces@.len(),
            parts == string_views(pieces@),
            wanted@ == export@,
            string_views(values@) == other_values(parts.take(i as int), export@),
            present == parts.take(i as int).contains(export@),
        decreases pieces@.len() - i,
    {
        let ghost prefix = parts.take(i as int);
        assert(parts.take(i + 1).drop_last() =~= prefix);
        assert(parts.take(i + 1).last() == pieces@[i as int]@);
        assert(parts.take(i + 1) =~= prefix.push(pieces@[i as int]@));
        let ghost before = string_views(values@);
        let same = pieces[i] == wanted;
        if same {
            present = true;
            assert(parts.take(i + 1)[i as int] == export@);
        } else {
            assert(prefix.push(pieces@[i as int]@).contains(export@) ==> prefix.contains(export@)) by {
                if prefix.push(pieces@[i as int]@).contains(export@) {
                    let k = choose|k: int| 0 <= k < i + 1 && prefix.push(pieces@[i as int]@)[k] == export@;
                    assert(k < i);
                    assert(prefix[k] == export@);
                }
            }
        }
        proof {
            if prefix.contains(export@) {
                let k = choose|k: int| 0 <= k < i && prefix[k] == export@;
                assert(parts.take(i + 1)[k] == export@);
            }
        }
        if !pieces[i].as_str().is_empty() && !same {
            values.push(pieces[i].clone());
            assert(string_views(values@) =~= before.push(pieces@[i as int]@));
        }
        i = i + 1;
    }
    assert(parts.take(pieces@.len() as int) =~= parts);
    if !present {
        let ghost before = string_views(values@);
        values.push(wanted);
        assert(string_views(values@) =~= before.push(export@));
    }
    let separator = "\u{1f}";
    proof {
        reveal_strlit("\u{1f}");
    }
    assert(separator@ =~= seq![VALUE_SEPARATOR]);
    join_pieces(&values, separator)
}

/// The value a choice field takes when `export` is clicked: toggled in a
/// multi-select field, replaced in a single-select one.
pub fn choice_value(current: &str, export: &str, multi_select: bool) -> (value: String)
    ensures
        value@ == chosen_value(current@, export@, multi_select),
{
    if multi_select {
        toggle_choice_value(current, export)
    } else {
        export.to_owned()
    }
}

proof fn lemma_other_values_members(parts: Seq<Seq<char>>, export: Seq<char>, v: Seq<char>)
    ensures
        other_values(parts, export).contains(v) <==> (parts.contains(v) && v.len() > 0 && v
            != export),
        forall|i: int|
            0 <= i < other_values(parts, export).len() ==> parts.contains(
                #[trigger] other_values(parts, export)[i],
            ),
    decreases parts.len(),
{
    if parts.len() > 0 {
        let init = parts.drop_last();
        lemma_other_values_members(init, export, v);
        let rest = other_values(init, export);
        assert(parts =~= init.push(parts.last()));
        assert(forall|x: Seq<char>| init.contains(x) ==> parts.contains(x)) by {
            assert forall|x: Seq<char>| init.contains(x) implies parts.contains(x) by {
                let k = choose|k: int| 0 <= k < init.len() && init[k] == x;
                assert(parts[k] == x);
            }
        }
        assert(parts.contains(v) ==> (init.contains(v) || parts.last() == v)) by {
            if parts.contains(v) {
                let k = choose|k: int| 0 <= k < parts.len() && parts[k] == v;
                if k < init.len() {
                    assert(init[k] == v);
                }
            }
        }
        assert(parts.contains(parts.last())) by {
            assert(parts[parts.len() - 1] == parts.last());
        }
        if parts.last().len() > 0 && parts.last() != export {
            assert(rest.push(parts.last()).contains(v) <==> (rest.contains(v) || v == parts.last()))
                by {
                if rest.push(parts.last()).contains(v) {
                    let k = choose|k: int| 0 <= k < rest.len() + 1 && rest.push(parts.last())[k] == v;
                    if k < rest.len() {
                        assert(rest[k] == v);
                    }
                }
                if rest.contains(v) {
                    let k = choose|k: int| 0 <= k < rest.len() && rest[k] == v;
                    assert(rest.push(parts.last())[k] == v);
                }
                assert(rest.push(parts.last())[rest.len() as int] == parts.last());
            }
            assert forall|i: int|
                0 <= i < other_values(parts, export).len() implies parts.contains(
                #[trigger] other_values(parts, export)[i],
            ) by {
                if i < rest.len() {
                    assert(other_values(parts, export)[i] == rest[i]);
                    assert(init.contains(rest[i]));
                }
            }
        }
    }
}

/// Clicking an option of a multi-select field flips exactly that option: a
/// non-empty export value is selected afterwards if and only if it was not
/// selected before, and every other selected value stays selected.
pub proof fn lemma_toggle_flips_only_the_clicked_value(
    current: Seq<char>,
    export: Seq<char>,
    value: Seq<char>,
)
    requires
        export.len() > 0,
        !export.contains(VALUE_SEPARATOR),
        value.len() > 0,
    ensures
        split_on(toggled_value(current, export), VALUE_SEPARATOR).contains(value) <==> (if value
            == export {
            !split_on(current, VALUE_SEPARATOR).contains(export)
        } else {
            split_on(current, VALUE_SEPARATOR).contains(value)
        }),
{
    let parts = split_on(current, VALUE_SEPARATOR);
    let others = other_values(parts, export);
    let present = parts.contains(export);
    let values = if present {
        others
    } else {
        others.push(export)
    };
    lemma_split_pieces_lack_sep(current, VALUE_SEPARATOR);
    lemma_other_values_members(parts, export, value);
    lemma_other_values_members(parts, export, export);
    assert forall|i: int| 0 <= i < values.len() implies !(#[trigger] values[i]).contains(
        VALUE_SEPARATOR,
    ) by {
        if i < others.len() {
            assert(values[i] == others[i]);
            assert(parts.contains(others[i]));
            let k = choose|k: int| 0 <= k < parts.len() && parts[k] == others[i];
            assert(!parts[k].contains(VALUE_SEPARATOR));
        } else {
            assert(values[i] == export);
        }
    }
    if values.len() >= 1 {
        lemma_split_joined(values, VALUE_SEPARATOR);
        if !present {
            assert(values.contains(value) <==> (others.contains(value) || value == export)) by {
                if values.contains(value) {
                    let k = choose|k: int| 0 <= k < values.len() && values[k] == value;
                    if k < others.len() {
                        assert(others[k] == value);
                    }
                }
                if others.contains(value) {
                    let k = choose|k: int| 0 <= k < others.len() && others[k] == value;
                    assert(values[k] == value);
                }
                assert(values[others.len() as int] == export);
            }
        }
    } else {
        assert(joined(values, seq![VALUE_SEPARATOR]) =~= Seq::<char>::empty());
        let split = split_on(Seq::<char>::empty(), VALUE_SEPARATOR);
        assert(split =~= seq![Seq::<char>::empty()]);
        assert(!split.contains(value)) by {
            if split.contains(value) {
                let k = choose|k: int| 0 <= k < split.len() && split[k] == value;
                assert(split[0].len() == 0);
            }
        }
        if !present {
            assert(values.len() >= 1);
        }
        assert(!others.contains(value)) by {
            if others.contains(value) {
                let k = choose|k: int| 0 <= k < others.len() && others[k] == value;
            }
        }
    }
}

} // verus!
