//! What datagen planning promises across splits.

use vstd::prelude::*;
use crate::datagen::{assigned_split_for, first_event, reader_split_id, first_datagen, lemma_first_datagen, DatagenSplit, SplitImpl, option_name, option_text, seed_for, plans, text_of, unicode_lowercase, DataType, FieldGenerator, is_flat};
use crate::strings;

verus! {

/// Splits with different indices seed a column's random generator differently, whatever the
/// column's options.
pub proof fn law_splits_seed_differently(
    opts: Map<Seq<char>, Seq<char>>,
    name: Seq<char>,
    a: u64,
    b: u64,
)
    requires
        a != b,
    ensures
        seed_for(opts, name, a) != seed_for(opts, name, b),
{
    match option_text(opts, option_name(name, "seed"@)) {
        Some(t) => match strings::parsed_u64(t) {
            Some(v) => {
                assert((v ^ a) != (v ^ b)) by (bit_vector)
                    requires
                        a != b,
                ;
            },
            None => {},
        },
        None => {},
    }
}

/// The name of a column's option, spelled out: `fields.`, the column's name, `.`, the option.
pub open spec fn spelled_key(name: Seq<char>, option: Seq<char>) -> Seq<char> {
    seq!['f', 'i', 'e', 'l', 'd', 's', '.'] + name + seq!['.'] + option
}

/// The text of the option named `key`, if it is set.
pub open spec fn lookup(opts: Map<Seq<char>, Seq<char>>, key: Seq<char>) -> Option<Seq<char>> {
    if opts.contains_key(key) {
        Some(opts[key])
    } else {
        None
    }
}

/// The seed a column's options call for: its `seed` option parsed as an unsigned integer and
/// xor-ed with the split index, or the split index itself.
pub open spec fn expected_seed(opts: Map<Seq<char>, Seq<char>>, name: Seq<char>, split_index: u64) -> u64 {
    match lookup(opts, spelled_key(name, seq!['s', 'e', 'e', 'd'])) {
        Some(t) => match strings::parsed_u64(t) {
            Some(v) => v ^ split_index,
            None => split_index,
        },
        None => split_index,
    }
}

proof fn lemma_option_names(name: Seq<char>)
    ensures
        option_name(name, "seed"@) == spelled_key(name, seq!['s', 'e', 'e', 'd']),
        option_name(name, "kind"@) == spelled_key(name, seq!['k', 'i', 'n', 'd']),
        option_name(name, "min"@) == spelled_key(name, seq!['m', 'i', 'n']),
        option_name(name, "max"@) == spelled_key(name, seq!['m', 'a', 'x']),
        option_name(name, "start"@) == spelled_key(name, seq!['s', 't', 'a', 'r', 't']),
        option_name(name, "end"@) == spelled_key(name, seq!['e', 'n', 'd']),
        option_name(name, "length"@) == spelled_key(name, seq!['l', 'e', 'n', 'g', 't', 'h']),
        option_name(name, "max_past"@) == spelled_key(
            name,
            seq!['m', 'a', 'x', '_', 'p', 'a', 's', 't'],
        ),
        option_name(name, "max_past_mode"@) == spelled_key(
            name,
            seq!['m', 'a', 'x', '_', 'p', 'a', 's', 't', '_', 'm', 'o', 'd', 'e'],
        ),
        "sequence"@ == seq!['s', 'e', 'q', 'u', 'e', 'n', 'c', 'e'],
        "."@ == seq!['.'],
        "._"@ == seq!['.', '_'],
{
    reveal_strlit("fields.");
    reveal_strlit(".");
    reveal_strlit("._");
    reveal_strlit("seed");
    reveal_strlit("kind");
    reveal_strlit("min");
    reveal_strlit("max");
    reveal_strlit("start");
    reveal_strlit("end");
    reveal_strlit("length");
    reveal_strlit("max_past");
    reveal_strlit("max_past_mode");
    reveal_strlit("sequence");
    assert(option_name(name, "seed"@) =~= spelled_key(name, seq!['s', 'e', 'e', 'd']));
    assert(option_name(name, "kind"@) =~= spelled_key(name, seq!['k', 'i', 'n', 'd']));
    assert(option_name(name, "min"@) =~= spelled_key(name, seq!['m', 'i', 'n']));
    assert(option_name(name, "max"@) =~= spelled_key(name, seq!['m', 'a', 'x']));
    assert(option_name(name, "start"@) =~= spelled_key(name, seq!['s', 't', 'a', 'r', 't']));
    assert(option_name(name, "end"@) =~= spelled_key(name, seq!['e', 'n', 'd']));
    assert(option_name(name, "length"@) =~= spelled_key(name, seq!['l', 'e', 'n', 'g', 't', 'h']));
    assert(option_name(name, "max_past"@) =~= spelled_key(
        name,
        seq!['m', 'a', 'x', '_', 'p', 'a', 's', 't'],
    ));
    assert(option_name(name, "max_past_mode"@) =~= spelled_key(
        name,
        seq!['m', 'a', 'x', '_', 'p', 'a', 's', 't', '_', 'm', 'o', 'd', 'e'],
    ));
}

/// A number column is a sequence when its `kind` option is `sequence`: it counts from its
/// `start` to its `end` option, shared among the splits; otherwise it draws random numbers
/// between its `min` and `max` options with the seed its options call for. Either way the
/// generator keeps the column's type.
pub proof fn law_number_column_plan(
    p: FieldGenerator,
    dt: DataType,
    opts: Map<Seq<char>, Seq<char>>,
    name: Seq<char>,
    si: u64,
    sn: u64,
)
    requires
        is_flat(dt),
        !(dt is Timestamp),
        !(dt is Varchar),
        plans(p, dt, opts, name, si, sn),
    ensures
        lookup(opts, spelled_key(name, seq!['k', 'i', 'n', 'd'])) == Some(
            seq!['s', 'e', 'q', 'u', 'e', 'n', 'c', 'e'],
        ) ==> (p matches FieldGenerator::NumberSequence { data_type, start, end, split_index, split_num }
            && data_type == dt && text_of(start) == lookup(
            opts,
            spelled_key(name, seq!['s', 't', 'a', 'r', 't']),
        ) && text_of(end) == lookup(opts, spelled_key(name, seq!['e', 'n', 'd'])) && split_index
            == si && split_num == sn),
        lookup(opts, spelled_key(name, seq!['k', 'i', 'n', 'd'])) != Some(
            seq!['s', 'e', 'q', 'u', 'e', 'n', 'c', 'e'],
        ) ==> (p matches FieldGenerator::NumberRandom { data_type, min, max, seed } && data_type
            == dt && text_of(min) == lookup(opts, spelled_key(name, seq!['m', 'i', 'n']))
            && text_of(max) == lookup(opts, spelled_key(name, seq!['m', 'a', 'x'])) && seed
            == expected_seed(opts, name, si)),
{
    lemma_option_names(name);
}

/// A varchar column gets random strings of its `length` option; a timestamp column random
/// times at most its `max_past` option back, its `max_past_mode` option lower-cased; both with
/// the seed its options call for.
pub proof fn law_text_and_time_column_plan(
    p: FieldGenerator,
    dt: DataType,
    opts: Map<Seq<char>, Seq<char>>,
    name: Seq<char>,
    si: u64,
    sn: u64,
)
    requires
        plans(p, dt, opts, name, si, sn),
    ensures
        dt is Varchar ==> (p matches FieldGenerator::Varchar { length, seed } && text_of(length)
            == lookup(opts, spelled_key(name, seq!['l', 'e', 'n', 'g', 't', 'h'])) && seed
            == expected_seed(opts, name, si)),
        dt is Timestamp ==> (p matches FieldGenerator::Timestamp { max_past, max_past_mode, seed }
            && text_of(max_past) == lookup(
            opts,
            spelled_key(name, seq!['m', 'a', 'x', '_', 'p', 'a', 's', 't']),
        ) && text_of(max_past_mode) == match lookup(
            opts,
            spelled_key(name, seq!['m', 'a', 'x', '_', 'p', 'a', 's', 't', '_', 'm', 'o', 'd', 'e']),
        ) {
            Some(t) => Some(unicode_lowercase(t)),
            None => None,
        } && seed == expected_seed(opts, name, si)),
{
    lemma_option_names(name);
}

/// A struct column gets one generator per field, in the struct's order, each named by the
/// field and planned under the name `<column>.<field>`; a list column gets lists of its
/// `length` option, whose elements are planned under the name `<column>._`.
pub proof fn law_nested_column_plan(
    p: FieldGenerator,
    dt: DataType,
    opts: Map<Seq<char>, Seq<char>>,
    name: Seq<char>,
    si: u64,
    sn: u64,
)
    requires
        plans(p, dt, opts, name, si, sn),
    ensures
        dt matches DataType::Struct(st) ==> (p matches FieldGenerator::Struct { fields } && fields@.len()
            == st.fields@.len() && forall|i: int|
            #![trigger fields@[i]]
            0 <= i < fields@.len() ==> fields@[i].0@ == st.field_names@[i]@ && plans(
                fields@[i].1,
                st.fields@[i],
                opts,
                name + seq!['.'] + st.field_names@[i]@,
                si,
                sn,
            )),
        dt matches DataType::List { datatype } ==> (p matches FieldGenerator::List { element, length }
            && text_of(length) == lookup(opts, spelled_key(name, seq!['l', 'e', 'n', 'g', 't', 'h']))
            && plans(*element, *datatype, opts, name + seq!['.', '_'], si, sn)),
{
    lemma_option_names(name);
}

/// A reader takes the first datagen split among its splits: it is that split, resumes right
/// after the split's last generated event (or at 0), and reports the split's id, its number of
/// splits and index in decimal joined by `-`.
pub proof fn law_reader_takes_first_datagen_split(s: Seq<SplitImpl>, k: int, d: DatagenSplit)
    requires
        0 <= k < s.len(),
        s[k] == SplitImpl::Datagen(d),
        forall|j: int| 0 <= j < k ==> !(#[trigger] s[j] is Datagen),
    ensures
        assigned_split_for(s) == d,
        first_event(s) == match d.start_offset {
            Some(o) => o + 1,
            None => 0,
        },
        reader_split_id(s) == strings::int_text(d.split_num as int) + seq!['-'] + strings::int_text(
            d.split_index as int,
        ),
{
    lemma_first_datagen(s, k);
}

/// Without a datagen split a reader starts at event 0 as split 0 of 0, and reports the id of
/// the last split it was given (empty when it was given none).
pub proof fn law_reader_without_datagen_split(s: Seq<SplitImpl>, m: String)
    requires
        forall|j: int| 0 <= j < s.len() ==> !(#[trigger] s[j] is Datagen),
    ensures
        assigned_split_for(s) == (DatagenSplit { split_index: 0, split_num: 0, start_offset: None }),
        first_event(s) == 0,
        s.len() == 0 ==> reader_split_id(s) == Seq::<char>::empty(),
        s.len() > 0 && s.last() == SplitImpl::Other(m) ==> reader_split_id(s) == m@,
{
    lemma_first_datagen(s, s.len() as int);
}

} // verus!
