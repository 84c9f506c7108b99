//! Planning a datagen source: for each column, which field generator to build and with
//! which options, and where in the stream of events this reader starts.
//!
//! Options are looked up by name under `fields.<column>.<option>`; a field of a struct
//! column `c` is named `c.<field>`, and the element of a list column `c` is named `c._`.

use vstd::prelude::*;
use vstd::string::StringExecFns;
use crate::datagen_options::FieldOptions;
use crate::strings::{parse_u64, push_i32, text_equals};
use crate::strings;

verus! {

/// The data types a datagen column can have.
#[derive(Debug)]
pub enum DataType {
    Boolean,
    Int16,
    Int32,
    Int64,
    Float32,
    Float64,
    Decimal,
    Date,
    Varchar,
    Time,
    Timestamp,
    Timestamptz,
    Interval,
    Struct(StructType),
    List { datatype: Box<DataType> },
    Bytea,
}

/// The fields of a struct type, by position: `fields[i]` is the type of the field named
/// `field_names[i]`.
#[derive(Debug)]
pub struct StructType {
    pub fields: Vec<DataType>,
    pub field_names: Vec<String>,
}

/// Every struct type in `dt`, at any depth, names each of its fields.
pub open spec fn well_formed(dt: DataType) -> bool
    decreases dt,
{
    match dt {
        DataType::Struct(st) => {
            &&& st.fields@.len() == st.field_names@.len()
            &&& forall|i: int|
                #![trigger st.fields@[i]]
                0 <= i < st.fields@.len() ==> well_formed(st.fields@[i])
        },
        DataType::List { datatype } => well_formed(*datatype),
        _ => true,
    }
}

/// A type without parts: neither a struct nor a list.
pub open spec fn is_flat(dt: DataType) -> bool {
    !(dt is Struct) && !(dt is List)
}

/// A column of the source.
#[derive(Debug)]
pub struct Column {
    pub name: String,
    pub data_type: DataType,
}

/// A split of a datagen source: this reader is split `split_index` of `split_num`, and
/// `start_offset` is the index of the last event it generated, if any.
#[derive(Clone, Copy, Debug)]
pub struct DatagenSplit {
    pub split_index: i32,
    pub split_num: i32,
    pub start_offset: Option<u64>,
}

impl Default for DatagenSplit {
    fn default() -> (r: DatagenSplit)
        ensures
            r == (DatagenSplit { split_index: 0, split_num: 0, start_offset: None }),
    {
        DatagenSplit { split_index: 0, split_num: 0, start_offset: None }
    }
}

/// The id of a datagen split: its number of splits, `-`, and its index.
pub open spec fn datagen_split_id(s: DatagenSplit) -> Seq<char> {
    strings::int_text(s.split_num as int) + seq!['-'] + strings::int_text(s.split_index as int)
}

impl DatagenSplit {
    /// The split's id, `<split_num>-<split_index>`.
    pub fn id(&self) -> (r: String)
        ensures
            r@ == datagen_split_id(*self),
    {
        let mut r = String::new();
        push_i32(&mut r, self.split_num);
        r.append("-");
        proof {
            reveal_strlit("-");
        }
        push_i32(&mut r, self.split_index);
        r
    }
}

/// A split assigned to a source reader: one of a datagen source, or of another connector,
/// known by its id.
#[derive(Clone, Debug)]
pub enum SplitImpl {
    Datagen(DatagenSplit),
    Other(String),
}

/// The id of a split.
pub open spec fn split_id_of(s: SplitImpl) -> Seq<char> {
    match s {
        SplitImpl::Datagen(d) => datagen_split_id(d),
        SplitImpl::Other(id) => id@,
    }
}

impl SplitImpl {
    /// The split's id.
    pub fn id(&self) -> (r: String)
        ensures
            r@ == split_id_of(*self),
    {
        match self {
            SplitImpl::Datagen(d) => d.id(),
            SplitImpl::Other(id) => id.clone(),
        }
    }
}

/// The options of a datagen source.
pub struct DatagenProperties {
    /// The number of splits, as written in the source's options.
    pub split_num: Option<String>,
    pub rows_per_second: u64,
    /// The `fields.*` options.
    pub fields: FieldOptions,
}

/// Which field generator to build for a column, with its options as texts (unparsed).
#[derive(Debug)]
pub enum FieldGenerator {
    /// Random timestamps at most `max_past` back; `max_past_mode` is lower-cased.
    Timestamp { max_past: Option<String>, max_past_mode: Option<String>, seed: u64 },
    /// Random strings of `length` characters.
    Varchar { length: Option<String>, seed: u64 },
    /// One generator per field, by field name, in the struct's order.
    Struct { fields: Vec<(String, FieldGenerator)> },
    /// Lists of `length` elements, each from `element`.
    List { element: Box<FieldGenerator>, length: Option<String> },
    /// A number sequence from `start` to `end`, shared out among the splits.
    NumberSequence {
        data_type: DataType,
        start: Option<String>,
        end: Option<String>,
        split_index: u64,
        split_num: u64,
    },
    /// Random numbers between `min` and `max`.
    NumberRandom { data_type: DataType, min: Option<String>, max: Option<String>, seed: u64 },
}

/// The name of a column's option: `fields.<name>.<option>`.
pub open spec fn option_name(name: Seq<char>, option: Seq<char>) -> Seq<char> {
    "fields."@ + name + "."@ + option
}

/// The text of an option, if it is set.
pub open spec fn option_text(opts: Map<Seq<char>, Seq<char>>, key: Seq<char>) -> Option<
    Seq<char>,
> {
    if opts.contains_key(key) {
        Some(opts[key])
    } else {
        None
    }
}

/// The texts of an optional `String`.
pub open spec fn text_of(o: Option<String>) -> Option<Seq<char>> {
    match o {
        Some(s) => Some(s@),
        None => None,
    }
}

/// What `str::to_lowercase` returns for a text: its lower case as Unicode defines it.
pub uninterp spec fn unicode_lowercase(s: Seq<char>) -> Seq<char>;

/// Calls `str::to_lowercase`. Claimed: its result is `unicode_lowercase` of the text, which
/// is a function of the text alone.
#[verifier::external_body]
fn to_lowercase(s: &str) -> (r: String)
    ensures
        r@ == unicode_lowercase(s@),
{
    s.to_lowercase()
}

/// The seed of a column's random generator: the `seed` option, parsed as a `u64` and xor-ed
/// with the split index so that each split draws differently; the split index itself where
/// the option is missing or not a `u64`.
pub open spec fn seed_for(opts: Map<Seq<char>, Seq<char>>, name: Seq<char>, split_index: u64) -> u64 {
    match option_text(opts, option_name(name, "seed"@)) {
        Some(t) => match strings::parsed_u64(t) {
            Some(v) => v ^ split_index,
            None => split_index,
        },
        None => split_index,
    }
}

/// Whether a column is asked to be a number sequence (option `kind` is `sequence`).
pub open spec fn is_sequence(opts: Map<Seq<char>, Seq<char>>, name: Seq<char>) -> bool {
    option_text(opts, option_name(name, "kind"@)) == Some("sequence"@)
}

/// `plan` is the generator for a column of type `dt` named `name`.
pub open spec fn plans(
    plan: FieldGenerator,
    dt: DataType,
    opts: Map<Seq<char>, Seq<char>>,
    name: Seq<char>,
    split_index: u64,
    split_num: u64,
) -> bool
    decreases dt,
{
    match dt {
        DataType::Timestamp => {
            &&& plan matches FieldGenerator::Timestamp { max_past, max_past_mode, seed }
            &&& text_of(max_past) == option_text(opts, option_name(name, "max_past"@))
            &&& text_of(max_past_mode) == match option_text(
                opts,
                option_name(name, "max_past_mode"@),
            ) {
                Some(t) => Some(unicode_lowercase(t)),
                None => None,
            }
            &&& seed == seed_for(opts, name, split_index)
        },
        DataType::Varchar => {
            &&& plan matches FieldGenerator::Varchar { length, seed }
            &&& text_of(length) == option_text(opts, option_name(name, "length"@))
            &&& seed == seed_for(opts, name, split_index)
        },
        DataType::Struct(st) => {
            &&& plan matches FieldGenerator::Struct { fields }
            &&& fields@.len() == st.fields@.len()
            &&& forall|i: int|
                #![trigger fields@[i]]
                0 <= i < fields@.len() ==> {
                    &&& fields@[i].0@ == st.field_names@[i]@
                    &&& plans(
                        fields@[i].1,
                        st.fields@[i],
                        opts,
                        name + "."@ + st.field_names@[i]@,
                        split_index,
                        split_num,
                    )
                }
        },
        DataType::List { datatype } => {
            &&& plan matches FieldGenerator::List { element, length }
            &&& text_of(length) == option_text(opts, option_name(name, "length"@))
            &&& plans(*element, *datatype, opts, name + "._"@, split_index, split_num)
        },
        _ => if is_sequence(opts, name) {
            &&& plan matches FieldGenerator::NumberSequence {
                data_type,
                start,
                end,
                split_index: si,
                split_num: sn,
            }
            &&& data_type == dt
            &&& text_of(start) == option_text(opts, option_name(name, "start"@))
            &&& text_of(end) == option_text(opts, option_name(name, "end"@))
            &&& si == split_index
            &&& sn == split_num
        } else {
            &&& plan matches FieldGenerator::NumberRandom { data_type, min, max, seed }
            &&& data_type == dt
            &&& text_of(min) == option_text(opts, option_name(name, "min"@))
            &&& text_of(max) == option_text(opts, option_name(name, "max"@))
            &&& seed == seed_for(opts, name, split_index)
        },
    }
}

/// `fields.<name>.<option>`.
fn option_key(name: &str, option: &str) -> (r: String)
    ensures
        r@ == option_name(name@, option@),
{
    let mut k = String::from_str("fields.");
    k.append(name);
    k.append(".");
    k.append(option);
    k
}

/// The text of a column's option, copied.
fn option_value(opts: &FieldOptions, name: &str, option: &str) -> (r: Option<String>)
    ensures
        text_of(r) == option_text(opts@, option_name(name@, option@)),
{
    let key = option_key(name, option);
    match opts.get(key.as_str()) {
        Some(v) => Some(v.clone()),
        None => None,
    }
}

/// A copy of a type without parts.
fn flat_copy(dt: &DataType) -> (r: DataType)
    requires
        is_flat(*dt),
    ensures
        r == *dt,
{
    match dt {
        DataType::Boolean => DataType::Boolean,
        DataType::Int16 => DataType::Int16,
        DataType::Int32 => DataType::Int32,
        DataType::Int64 => DataType::Int64,
        DataType::Float32 => DataType::Float32,
        DataType::Float64 => DataType::Float64,
        DataType::Decimal => DataType::Decimal,
        DataType::Date => DataType::Date,
        DataType::Varchar => DataType::Varchar,
        DataType::Time => DataType::Time,
        DataType::Timestamp => DataType::Timestamp,
        DataType::Timestamptz => DataType::Timestamptz,
        DataType::Interval => DataType::Interval,
        DataType::Bytea => DataType::Bytea,
        DataType::Struct(_) => DataType::Bytea,
        DataType::List { .. } => DataType::Bytea,
    }
}

/// The seed of a column's random generator (see `seed_for`).
fn random_seed(opts: &FieldOptions, name: &str, split_index: u64) -> (r: u64)
    ensures
        r == seed_for(opts@, name@, split_index),
{
    proof {
        reveal_strlit("seed");
    }
    let key = option_key(name, "seed");
    match opts.get(key.as_str()) {
        Some(seed) => match parse_u64(seed.as_str()) {
            Some(v) => v ^ split_index,
            None => split_index,
        },
        None => split_index,
    }
}

/// The generator for a column of type `data_type` named `name`.
pub fn generator_from_data_type(
    data_type: &DataType,
    fields_option_map: &FieldOptions,
    name: &String,
    split_index: u64,
    split_num: u64,
) -> (r: FieldGenerator)
    requires
        well_formed(*data_type),
    ensures
        plans(r, *data_type, fields_option_map@, name@, split_index, split_num),
    decreases *data_type,
{
    let opts = fields_option_map;
    let random_seed = random_seed(opts, name.as_str(), split_index);
    match data_type {
        DataType::Timestamp => {
            let max_past = option_value(opts, name.as_str(), "max_past");
            let mode_key = option_key(name.as_str(), "max_past_mode");
            let max_past_mode = match opts.get(mode_key.as_str()) {
                Some(m) => Some(to_lowercase(m.as_str())),
                None => None,
            };
            FieldGenerator::Timestamp { max_past, max_past_mode, seed: random_seed }
        },
        DataType::Varchar => {
            let length = option_value(opts, name.as_str(), "length");
            FieldGenerator::Varchar { length, seed: random_seed }
        },
        DataType::Struct(struct_type) => {
            let n = struct_type.fields.len();
            let mut fields: Vec<(String, FieldGenerator)> = Vec::new();
            let mut i: usize = 0;
            while i < n
                invariant
                    n == struct_type.fields@.len(),
                    *data_type == DataType::Struct(*struct_type),
                    well_formed(*data_type),
                    i <= n,
                    fields@.len() == i,
                    forall|j: int|
                        #![trigger fields@[j]]
                        0 <= j < i ==> {
                            &&& fields@[j].0@ == struct_type.field_names@[j]@
                            &&& plans(
                                fields@[j].1,
                                struct_type.fields@[j],
                                opts@,
                                name@ + "."@ + struct_type.field_names@[j]@,
                                split_index,
                                split_num,
                            )
                        },
                decreases n - i,
            {
                let field_name = &struct_type.field_names[i];
                let mut child = name.clone();
                child.append(".");
                child.append(field_name.as_str());
                proof {
                    assert(well_formed(struct_type.fields@[i as int]));
                    assert(decreases_to!(*data_type => struct_type.fields@[i as int]));
                }
                let gen = generator_from_data_type(
                    &struct_type.fields[i],
                    opts,
                    &child,
                    split_index,
                    split_num,
                );
                fields.push((field_name.clone(), gen));
                i = i + 1;
            }
            FieldGenerator::Struct { fields }
        },
        DataType::List { datatype } => {
            let length = option_value(opts, name.as_str(), "length");
            let mut child = name.clone();
            child.append("._");
            let element = generator_from_data_type(
                &**datatype,
                opts,
                &child,
                split_index,
                split_num,
            );
            FieldGenerator::List { element: Box::new(element), length }
        },
        _ => {
            let kind_key = option_key(name.as_str(), "kind");
            let sequence = match opts.get(kind_key.as_str()) {
                Some(kind) => text_equals(kind.as_str(), "sequence"),
                None => false,
            };
            if sequence {
                let start = option_value(opts, name.as_str(), "start");
                let end = option_value(opts, name.as_str(), "end");
                FieldGenerator::NumberSequence {
                    data_type: flat_copy(data_type),
                    start,
                    end,
                    split_index,
                    split_num,
                }
            } else {
                let min = option_value(opts, name.as_str(), "min");
                let max = option_value(opts, name.as_str(), "max");
                FieldGenerator::NumberRandom {
                    data_type: flat_copy(data_type),
                    min,
                    max,
                    seed: random_seed,
                }
            }
        },
    }
}

/// `i` is where the first datagen split stands in `s`, or `s.len()` if there is none.
pub open spec fn is_first_datagen(s: Seq<SplitImpl>, i: int) -> bool {
    &&& 0 <= i <= s.len()
    &&& forall|j: int| 0 <= j < i ==> !(#[trigger] s[j] is Datagen)
    &&& i < s.len() ==> s[i] is Datagen
}

/// The position of the first datagen split of `s`, or `s.len()` if there is none.
pub open spec fn first_datagen(s: Seq<SplitImpl>) -> int
    decreases s.len(),
{
    if s.len() == 0 {
        0
    } else if s[0] is Datagen {
        0
    } else {
        1 + first_datagen(s.drop_first())
    }
}

/// `first_datagen` is the first datagen split's position, and the only such position.
pub proof fn lemma_first_datagen(s: Seq<SplitImpl>, i: int)
    ensures
        is_first_datagen(s, first_datagen(s)),
        is_first_datagen(s, i) ==> i == first_datagen(s),
    decreases s.len(),
{
    if s.len() > 0 && !(s[0] is Datagen) {
        let t = s.drop_first();
        lemma_first_datagen(t, i - 1);
        assert forall|j: int| 0 <= j < first_datagen(s) implies !(#[trigger] s[j] is Datagen) by {
            if j > 0 {
                assert(s[j] == t[j - 1]);
            }
        }
        if is_first_datagen(s, i) {
            assert(i >= 1);
            assert forall|j: int| 0 <= j < i - 1 implies !(#[trigger] t[j] is Datagen) by {
                assert(s[j + 1] == t[j]);
            }
            if i - 1 < t.len() {
                assert(s[i] == t[i - 1]);
            }
        }
        let f = first_datagen(s);
        if f < s.len() {
            assert(s[f] == t[f - 1]);
        }
    } else if s.len() > 0 {
        if is_first_datagen(s, i) && i > 0 {
            assert(!(s[0] is Datagen));
        }
    }
}

/// The splits in a reader's state (none when there is no state).
pub open spec fn splits_of(state: Option<Vec<SplitImpl>>) -> Seq<SplitImpl> {
    match state {
        Some(v) => v@,
        None => Seq::empty(),
    }
}

/// The split a reader takes: the first datagen split, else the default split.
pub open spec fn assigned_split_for(s: Seq<SplitImpl>) -> DatagenSplit {
    let k = first_datagen(s);
    if k < s.len() {
        match s[k] {
            SplitImpl::Datagen(d) => d,
            SplitImpl::Other(_) => DatagenSplit { split_index: 0, split_num: 0, start_offset: None },
        }
    } else {
        DatagenSplit { split_index: 0, split_num: 0, start_offset: None }
    }
}

/// The index of the first event a reader generates: one past the split's `start_offset`,
/// the last event generated before; zero if it has none.
pub open spec fn first_event(s: Seq<SplitImpl>) -> int {
    match assigned_split_for(s).start_offset {
        Some(o) => o + 1,
        None => 0,
    }
}

/// The split id a reader reports: that of the first datagen split; if there is none, that of
/// the last split; empty if there are no splits.
pub open spec fn reader_split_id(s: Seq<SplitImpl>) -> Seq<char> {
    if s.len() == 0 {
        Seq::empty()
    } else if first_datagen(s) < s.len() {
        split_id_of(s[first_datagen(s)])
    } else {
        split_id_of(s.last())
    }
}

/// The position of the first datagen split.
fn first_datagen_index(splits: &Vec<SplitImpl>) -> (k: usize)
    ensures
        k == first_datagen(splits@),
{
    let n = splits.len();
    let mut i: usize = 0;
    while i < n
        invariant
            n == splits@.len(),
            i <= n,
            forall|j: int| 0 <= j < i ==> !(#[trigger] splits@[j] is Datagen),
        decreases n - i,
    {
        if let SplitImpl::Datagen(_) = &splits[i] {
            proof {
                lemma_first_datagen(splits@, i as int);
            }
            return i;
        }
        i = i + 1;
    }
    proof {
        lemma_first_datagen(splits@, n as int);
    }
    n
}

/// What a datagen reader generates from: one generator per column, the rate, where in the
/// stream of events it starts, and which split it is.
#[derive(Debug)]
pub struct EventGeneratorPlan {
    pub fields: Vec<FieldGenerator>,
    pub rows_per_second: u64,
    pub events_so_far: u64,
    pub split_id: String,
    pub split_num: u64,
    pub split_index: u64,
}

/// A reader of one datagen split.
#[derive(Debug)]
pub struct DatagenSplitReader {
    generator: EventGeneratorPlan,
    assigned_split: DatagenSplit,
}

impl DatagenSplitReader {
    /// What the reader generates from.
    pub closed spec fn planned(&self) -> EventGeneratorPlan {
        self.generator
    }

    /// The split the reader took.
    pub closed spec fn split(&self) -> DatagenSplit {
        self.assigned_split
    }

    /// A reader of the first datagen split in `state`, generating the `columns`: each column
    /// gets the generator that its type and its `fields.<column>.*` options call for.
    pub fn new(
        properties: DatagenProperties,
        state: Option<Vec<SplitImpl>>,
        columns: Option<Vec<Column>>,
    ) -> (r: DatagenSplitReader)
        requires
            columns is Some,
            forall|i: int|
                0 <= i < columns.unwrap()@.len() ==> well_formed(
                    #[trigger] columns.unwrap()@[i].data_type,
                ),
            first_event(splits_of(state)) <= u64::MAX,
        ensures
            ({
                let s = splits_of(state);
                let a = assigned_split_for(s);
                let g = r.planned();
                &&& r.split() == a
                &&& g.events_so_far == first_event(s)
                &&& g.split_id@ == reader_split_id(s)
                &&& g.split_index == a.split_index as u64
                &&& g.split_num == a.split_num as u64
                &&& g.rows_per_second == properties.rows_per_second
                &&& g.fields@.len() == columns.unwrap()@.len()
                &&& forall|i: int|
                    #![trigger g.fields@[i]]
                    0 <= i < g.fields@.len() ==> plans(
                        g.fields@[i],
                        columns.unwrap()@[i].data_type,
                        properties.fields@,
                        columns.unwrap()@[i].name@,
                        a.split_index as u64,
                        a.split_num as u64,
                    )
            }),
    {
        let mut assigned_split = DatagenSplit::default();
        let mut split_id = String::new();
        let mut events_so_far: u64 = 0;
        if let Some(splits) = &state {
            let n = splits.len();
            if n > 0 {
                let k = first_datagen_index(splits);
                if k < n {
                    split_id = splits[k].id();
                    if let SplitImpl::Datagen(d) = &splits[k] {
                        if let Some(s) = d.start_offset {
                            events_so_far = s + 1;
                        }
                        assigned_split = *d;
                    }
                } else {
                    split_id = splits[n - 1].id();
                }
            }
        }
        let split_index = assigned_split.split_index as u64;
        let split_num = assigned_split.split_num as u64;
        let rows_per_second = properties.rows_per_second;
        let cols = match columns {
            Some(c) => c,
            None => Vec::new(),
        };
        let n = cols.len();
        let mut fields_vec: Vec<FieldGenerator> = Vec::new();
        let mut i: usize = 0;
        while i < n
            invariant
                n == cols@.len(),
                cols@ == columns.unwrap()@,
                forall|j: int| 0 <= j < n ==> well_formed(#[trigger] cols@[j].data_type),
                i <= n,
                fields_vec@.len() == i,
                forall|j: int|
                    #![trigger fields_vec@[j]]
                    0 <= j < i ==> plans(
                        fields_vec@[j],
                        cols@[j].data_type,
                        properties.fields@,
                        cols@[j].name@,
                        split_index,
                        split_num,
                    ),
            decreases n - i,
        {
            let column = &cols[i];
            let gen = generator_from_data_type(
                &column.data_type,
                &properties.fields,
                &column.name,
                split_index,
                split_num,
            );
            fields_vec.push(gen);
            i = i + 1;
        }
        let generator = EventGeneratorPlan {
            fields: fields_vec,
            rows_per_second,
            events_so_far,
            split_id,
            split_num,
            split_index,
        };
        DatagenSplitReader { generator, assigned_split }
    }

    /// What the reader generates from.
    pub fn generator(&self) -> (g: &EventGeneratorPlan)
        ensures
            *g == self.planned(),
    {
        &self.generator
    }

    /// The split the reader took.
    pub fn assigned_split(&self) -> (s: DatagenSplit)
        ensures
            s == self.split(),
    {
        self.assigned_split
    }
}

} // verus!
