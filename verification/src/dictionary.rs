//! The static id dictionaries: for blocks, items, entities and fluids, the
//! one-to-one table between a numeric id and a namespaced name.
//!
//! A dictionary is read from a JSON text, a top-level array of objects that
//! each have an integer `id` and a string `name`. The text is parsed by the
//! `json` crate; what it makes of a text is named here, not described. What
//! an `id` is worth as an `i32` is decided here, from the parts of the
//! number that the parser read.

use vstd::prelude::*;
use vstd::string::StringSliceAdditionalSpecFns;
use json::JsonValue;
use crate::bijection::{
    has_no_pairs, has_pair, has_right, insert_pair, lemma_insert_pair_one_to_one, name_pairs,
    name_table_get_by_left, name_table_get_by_right, name_table_insert, name_table_new, one_to_one,
    NameTable,
};
use crate::error::SplinterError;

verus! {

/// `json::JsonValue`: a parsed value. Nothing is seen inside it; what it
/// holds is read through the functions below.
#[verifier::external_type_specification]
#[verifier::external_body]
pub struct ExJsonValue(JsonValue);

/// `json::Error`: why a text was rejected. Nothing is seen inside it.
#[verifier::external_type_specification]
#[verifier::external_body]
pub struct ExJsonError(json::Error);

/// What a member of a parsed array has under a key.
pub enum JsonField {
    /// A number, by its sign, its decimal mantissa and its decimal exponent:
    /// it stands for `mantissa * 10^exponent`, negated if `positive` is false.
    Number { positive: bool, mantissa: u64, exponent: i16 },
    /// A string, by its characters.
    Text(Seq<char>),
    /// Anything else, or nothing: the member has no such key, or is no object.
    Other,
}

/// A member of a parsed array, as a map on every key: what the member has
/// under the key.
pub type JsonMember = Map<Seq<char>, JsonField>;

/// One entry of a dictionary text as it was read: its id if it has one, and
/// its name if it has one.
pub type JsonEntry = (Option<i32>, Option<Seq<char>>);

/// The longest run of decimal digits in a text that is handed to the parser.
pub const MAX_DIGIT_RUN: usize = 32768;

/// What `json::parse` makes of a text: `None` where it rejects the text,
/// else the members of the value it returns.
pub uninterp spec fn json_document(text: Seq<char>) -> Option<Seq<JsonMember>>;

/// The members of a parsed value, in order. A value that is no array has no
/// members.
pub uninterp spec fn json_members(value: JsonValue) -> Seq<JsonMember>;

/// Whether a byte is a decimal digit.
pub open spec fn is_digit(byte: u8) -> bool {
    0x30 <= byte <= 0x39
}

/// The length of the run of decimal digits that ends before place `end`.
pub open spec fn digit_run(bytes: Seq<u8>, end: int) -> nat
    decreases end,
{
    if end <= 0 || end > bytes.len() || !is_digit(bytes[end - 1]) {
        0
    } else {
        digit_run(bytes, end - 1) + 1
    }
}

/// Whether no run of decimal digits in the bytes is longer than `MAX_DIGIT_RUN`.
pub open spec fn digit_runs_fit(bytes: Seq<u8>) -> bool {
    forall|end: int| 0 <= end <= bytes.len() ==> #[trigger] digit_run(bytes, end) <= MAX_DIGIT_RUN
}

/// The parts of a number field.
pub open spec fn number_parts(field: JsonField) -> Option<(bool, u64, i16)> {
    match field {
        JsonField::Number { positive, mantissa, exponent } => Some((positive, mantissa, exponent)),
        _ => None,
    }
}

/// The characters of a text field.
pub open spec fn field_text(field: JsonField) -> Option<Seq<char>> {
    match field {
        JsonField::Text(text) => Some(text),
        _ => None,
    }
}

/// `json::parse`: parses a text. The result is a function of the text
/// alone. A text with a run of more than `MAX_DIGIT_RUN` decimal digits is
/// left out: the parser counts the digits of a fraction in 16 bits.
#[verifier::external_body]
pub(crate) fn json_parse(data: &str) -> (res: Result<JsonValue, json::Error>)
    requires
        digit_runs_fit(data.spec_bytes()),
    ensures
        match res {
            Ok(value) => json_document(data@) == Some(json_members(value)),
            Err(_) => json_document(data@) is None,
        },
{
    json::parse(data)
}

/// `JsonValue::members`: the number of members of a parsed value, which is
/// none for a value that is no array.
#[verifier::external_body]
pub(crate) fn json_member_count(value: &JsonValue) -> (n: usize)
    ensures
        n == json_members(*value).len(),
{
    value.members().len()
}

/// `JsonValue::as_number` and `Number::as_parts`, on what indexing gives for
/// `key` in member `i`: the sign, the mantissa and the exponent of the
/// number under the key, if a number is under the key.
#[verifier::external_body]
pub(crate) fn json_member_number(value: &JsonValue, i: usize, key: &str) -> (parts: Option<(bool, u64, i16)>)
    requires
        i < json_members(*value).len(),
    ensures
        parts == number_parts(json_members(*value)[i as int][key@]),
{
    match value[i][key].as_number() {
        Some(number) => Some(number.as_parts()),
        None => None,
    }
}

/// `JsonValue::as_str`, on what indexing gives for `key` in member `i`: a
/// copy of the string under the key, if a string is under the key.
#[verifier::external_body]
pub(crate) fn json_member_text(value: &JsonValue, i: usize, key: &str) -> (text: Option<String>)
    requires
        i < json_members(*value).len(),
    ensures
        match text {
            Some(s) => field_text(json_members(*value)[i as int][key@]) == Some(s@),
            None => field_text(json_members(*value)[i as int][key@]) is None,
        },
{
    match value[i][key].as_str() {
        Some(text) => Some(String::from(text)),
        None => None,
    }
}

/// The `i32` that the parts of a number stand for, if its decimal exponent
/// is 0 and it lies from -2^31 to 2^31 - 1. A number with another exponent
/// stands for none, whatever its worth.
pub open spec fn i32_of_parts(positive: bool, mantissa: u64, exponent: i16) -> Option<i32> {
    if exponent != 0 {
        None
    } else if positive {
        if mantissa <= 0x7fff_ffff {
            Some(mantissa as i32)
        } else {
            None
        }
    } else {
        if mantissa <= 0x8000_0000 {
            Some((-(mantissa as int)) as i32)
        } else {
            None
        }
    }
}

/// The `i32` that a number stands for, by its parts, if it stands for one.
pub fn number_to_i32(positive: bool, mantissa: u64, exponent: i16) -> (res: Option<i32>)
    ensures
        res == i32_of_parts(positive, mantissa, exponent),
        res matches Some(n) ==> n as int == if positive {
            mantissa as int
        } else {
            -(mantissa as int)
        },
{
    if exponent != 0 {
        None
    } else if positive {
        if mantissa <= 0x7fff_ffff {
            Some(mantissa as i32)
        } else {
            None
        }
    } else {
        if mantissa <= 0x8000_0000 {
            let magnitude: i64 = mantissa as i64;
            Some((-magnitude) as i32)
        } else {
            None
        }
    }
}

/// The id that a field holds, if it holds one.
pub open spec fn field_id(field: JsonField) -> Option<i32> {
    match field {
        JsonField::Number { positive, mantissa, exponent } => i32_of_parts(positive, mantissa, exponent),
        _ => None,
    }
}

/// The entry that a member of a dictionary text makes: its id is the
/// integer under `id`, its name the string under `name`.
pub open spec fn entry_of(member: JsonMember) -> JsonEntry {
    (field_id(member["id"@]), field_text(member["name"@]))
}

/// The entries that the members of a dictionary text make, in order.
pub open spec fn entries_of(members: Seq<JsonMember>) -> Seq<JsonEntry> {
    Seq::new(members.len(), |i: int| entry_of(members[i]))
}

/// The entries of a list as they were read, each name by its characters.
pub open spec fn entry_views(entries: Seq<(Option<i32>, Option<String>)>) -> Seq<JsonEntry> {
    Seq::new(
        entries.len(),
        |i: int|
            (
                entries[i].0,
                match entries[i].1 {
                    Some(name) => Some(name@),
                    None => None,
                },
            ),
    )
}

/// The pairs of a list, each name by its characters.
pub open spec fn pair_views(pairs: Seq<(i32, String)>) -> Seq<(i32, Seq<char>)> {
    Seq::new(pairs.len(), |i: int| (pairs[i].0, pairs[i].1@))
}

/// Whether every entry has both an id and a name.
pub open spec fn all_complete(entries: Seq<JsonEntry>) -> bool {
    forall|i: int| 0 <= i < entries.len() ==> (#[trigger] entries[i]).0 is Some && entries[i].1 is Some
}

/// The (id, name) pairs of complete entries, in order.
pub open spec fn pairs_of_entries(entries: Seq<JsonEntry>) -> Seq<(i32, Seq<char>)> {
    Seq::new(entries.len(), |i: int| (entries[i].0->0, entries[i].1->0))
}

/// The (id, name) pairs of entries, or the reason they have none: an entry
/// lacks its id or its name.
pub open spec fn pairs_of_read(entries: Seq<JsonEntry>) -> Result<Seq<(i32, Seq<char>)>, SplinterError> {
    if all_complete(entries) {
        Ok(pairs_of_entries(entries))
    } else {
        Err(SplinterError::ConfigFatal)
    }
}

/// The (id, name) pairs of a parsed dictionary text, or the reason it has none.
pub open spec fn pairs_of_document(document: Option<Seq<JsonMember>>) -> Result<
    Seq<(i32, Seq<char>)>,
    SplinterError,
> {
    match document {
        Some(members) => pairs_of_read(entries_of(members)),
        None => Err(SplinterError::ConfigFatal),
    }
}

/// The (id, name) pairs of a dictionary text, or the reason it has none: it
/// has a run of digits that is too long, it is no JSON, or a member of it
/// lacks an integer `id` or a string `name`.
pub open spec fn pairs_of_text(data: &str) -> Result<Seq<(i32, Seq<char>)>, SplinterError> {
    if digit_runs_fit(data.spec_bytes()) {
        pairs_of_document(json_document(data@))
    } else {
        Err(SplinterError::ConfigFatal)
    }
}

/// Whether a result holds the pairs that its model gives.
pub open spec fn is_pairs_result(
    res: Result<Vec<(i32, String)>, SplinterError>,
    model: Result<Seq<(i32, Seq<char>)>, SplinterError>,
) -> bool {
    match res {
        Ok(list) => model == Ok::<Seq<(i32, Seq<char>)>, SplinterError>(pair_views(list@)),
        Err(e) => model == Err::<Seq<(i32, Seq<char>)>, SplinterError>(e),
    }
}

/// Whether no run of decimal digits in a text is longer than `MAX_DIGIT_RUN`.
pub fn has_short_digit_runs(data: &str) -> (fit: bool)
    ensures
        fit == digit_runs_fit(data.spec_bytes()),
{
    let bytes = data.as_bytes();
    let mut run: usize = 0;
    let mut i: usize = 0;
    while i < bytes.len()
        invariant
            i <= bytes.len(),
            bytes@ == data.spec_bytes(),
            run == digit_run(bytes@, i as int),
            run <= MAX_DIGIT_RUN,
            forall|end: int| 0 <= end <= i ==> #[trigger] digit_run(bytes@, end) <= MAX_DIGIT_RUN,
        decreases bytes.len() - i,
    {
        let byte = bytes[i];
        if 0x30 <= byte && byte <= 0x39 {
            if run == MAX_DIGIT_RUN {
                assert(digit_run(bytes@, i + 1) == run + 1);
                return false;
            }
            run = run + 1;
        } else {
            run = 0;
        }
        i = i + 1;
        assert(digit_run(bytes@, i as int) == run);
    }
    true
}

/// Turns the entries read from a dictionary text into (id, name) pairs, in
/// order. Fails with `ConfigFatal` if an entry lacks its id or its name.
pub fn collect_id_name_pairs(entries: &Vec<(Option<i32>, Option<String>)>) -> (res: Result<
    Vec<(i32, String)>,
    SplinterError,
>)
    ensures
        is_pairs_result(res, pairs_of_read(entry_views(entries@))),
{
    let ghost views = entry_views(entries@);
    let mut list: Vec<(i32, String)> = Vec::new();
    let mut i: usize = 0;
    while i < entries.len()
        invariant
            i <= entries.len(),
            views == entry_views(entries@),
            list@.len() == i,
            forall|j: int| 0 <= j < i ==> (#[trigger] views[j]).0 is Some && views[j].1 is Some,
            forall|j: int|
                0 <= j < i ==> (#[trigger] list@[j]).0 == views[j].0->0 && list@[j].1@ == views[j].1->0,
        decreases entries.len() - i,
    {
        let id = match entries[i].0 {
            Some(id) => id,
            None => {
                assert(views[i as int].0 is None);
                return Err(SplinterError::ConfigFatal);
            },
        };
        let name = match &entries[i].1 {
            Some(name) => name.clone(),
            None => {
                assert(views[i as int].1 is None);
                return Err(SplinterError::ConfigFatal);
            },
        };
        assert(views[i as int].1 == Some(name@));
        list.push((id, name));
        i = i + 1;
    }
    assert(pair_views(list@) =~= pairs_of_entries(views));
    Ok(list)
}

/// Reads the members of a parsed dictionary text: of each, the integer
/// under `id` and the string under `name`, as far as it has them.
fn read_entries(value: &JsonValue) -> (entries: Vec<(Option<i32>, Option<String>)>)
    ensures
        entry_views(entries@) == entries_of(json_members(*value)),
{
    let count = json_member_count(value);
    let ghost members = json_members(*value);
    let mut entries: Vec<(Option<i32>, Option<String>)> = Vec::new();
    let mut i: usize = 0;
    while i < count
        invariant
            i <= count,
            members == json_members(*value),
            count == members.len(),
            entries@.len() == i,
            forall|j: int| 0 <= j < i ==> #[trigger] entry_views(entries@)[j] == entry_of(members[j]),
        decreases count - i,
    {
        let id = match json_member_number(value, i, "id") {
            Some(parts) => number_to_i32(parts.0, parts.1, parts.2),
            None => None,
        };
        let name = json_member_text(value, i, "name");
        let ghost before = entries@;
        entries.push((id, name));
        proof {
            assert forall|j: int| 0 <= j < i + 1 implies #[trigger] entry_views(entries@)[j] == entry_of(
                members[j],
            ) by {
                if j < i {
                    assert(entry_views(before)[j] == entry_of(members[j]));
                    assert(entries@[j] == before[j]);
                }
            }
        }
        i = i + 1;
    }
    assert(entry_views(entries@) =~= entries_of(members));
    entries
}

/// Reads a dictionary text into its (id, name) pairs, in the order of the
/// text. Fails with `ConfigFatal` if the text has a run of more than
/// `MAX_DIGIT_RUN` digits, if it is no JSON, or if a member of it lacks an
/// integer `id` that fits an `i32` or a string `name`.
pub fn load_json_id_name_pairs(data: &str) -> (res: Result<Vec<(i32, String)>, SplinterError>)
    ensures
        is_pairs_result(res, pairs_of_text(data)),
{
    if !has_short_digit_runs(data) {
        return Err(SplinterError::ConfigFatal);
    }
    match json_parse(data) {
        Ok(value) => {
            let entries = read_entries(&value);
            collect_id_name_pairs(&entries)
        },
        Err(_) => Err(SplinterError::ConfigFatal),
    }
}

/// What a dictionary holds after the pairs of a list were inserted in order:
/// a later pair replaces an earlier one that shares its id or its name.
pub open spec fn dictionary_of(pairs: Seq<(i32, Seq<char>)>) -> Map<i32, Seq<char>>
    decreases pairs.len(),
{
    if pairs.len() == 0 {
        Map::empty()
    } else {
        insert_pair(dictionary_of(pairs.drop_last()), pairs.last().0, pairs.last().1)
    }
}

/// The id that a dictionary pairs with a name, if there is one.
pub open spec fn id_named(pairs: Map<i32, Seq<char>>, name: Seq<char>) -> Option<i32> {
    if has_right(pairs, name) {
        Some(choose|id: i32| has_pair(pairs, id, name))
    } else {
        None
    }
}

/// The name that a dictionary pairs with an id, if there is one.
pub open spec fn name_of_id(pairs: Map<i32, Seq<char>>, id: i32) -> Option<Seq<char>> {
    if pairs.dom().contains(id) {
        Some(pairs[id])
    } else {
        None
    }
}

/// In a one-to-one dictionary, a name leads back to the id it is paired with.
pub proof fn lemma_id_named(pairs: Map<i32, Seq<char>>, id: i32, name: Seq<char>)
    requires
        one_to_one(pairs),
        has_pair(pairs, id, name),
    ensures
        id_named(pairs, name) == Some(id),
{
    let chosen = choose|c: i32| has_pair(pairs, c, name);
    assert(pairs[chosen] == pairs[id]);
}

/// A dictionary made by inserting pairs is one-to-one.
pub proof fn lemma_dictionary_of_one_to_one(pairs: Seq<(i32, Seq<char>)>)
    ensures
        one_to_one(dictionary_of(pairs)),
    decreases pairs.len(),
{
    if pairs.len() > 0 {
        lemma_dictionary_of_one_to_one(pairs.drop_last());
        lemma_insert_pair_one_to_one(dictionary_of(pairs.drop_last()), pairs.last().0, pairs.last().1);
    }
}

/// A one-to-one table between numeric ids and namespaced names.
pub struct IdDictionary {
    table: NameTable,
}

impl View for IdDictionary {
    type V = Map<i32, Seq<char>>;

    closed spec fn view(&self) -> Map<i32, Seq<char>> {
        name_pairs(self.table)
    }
}

impl IdDictionary {
    /// No two ids of the dictionary share a name.
    pub open spec fn wf(&self) -> bool {
        one_to_one(self@)
    }

    /// A dictionary without pairs.
    pub fn new() -> (dictionary: IdDictionary)
        ensures
            dictionary.wf(),
            has_no_pairs(dictionary@),
    {
        IdDictionary { table: name_table_new() }
    }

    /// Pairs `id` with `name`. A pair that `id` or `name` was part of is dropped.
    pub fn insert(&mut self, id: i32, name: String)
        requires
            old(self).wf(),
        ensures
            final(self).wf(),
            final(self)@ == insert_pair(old(self)@, id, name@),
    {
        proof {
            lemma_insert_pair_one_to_one(self@, id, name@);
        }
        name_table_insert(&mut self.table, id, name);
    }

    /// The dictionary of a list of pairs, inserted in the order of the list.
    pub fn from_pairs(pairs: &Vec<(i32, String)>) -> (dictionary: IdDictionary)
        ensures
            dictionary.wf(),
            dictionary@ == dictionary_of(pair_views(pairs@)),
    {
        let ghost views = pair_views(pairs@);
        let mut dictionary = IdDictionary::new();
        let mut i: usize = 0;
        assert(views.take(0) =~= Seq::empty());
        while i < pairs.len()
            invariant
                i <= pairs.len(),
                views == pair_views(pairs@),
                dictionary.wf(),
                dictionary@ == dictionary_of(views.take(i as int)),
            decreases pairs.len() - i,
        {
            let id = pairs[i].0;
            let name = pairs[i].1.clone();
            proof {
                let next = views.take(i + 1);
                assert(next.drop_last() =~= views.take(i as int));
                assert(next.last() == (id, name@));
            }
            dictionary.insert(id, name);
            i = i + 1;
        }
        assert(views.take(pairs.len() as int) =~= views);
        dictionary
    }

    /// The name paired with an id, if the dictionary holds the id.
    pub fn name_of(&self, id: i32) -> (res: Option<String>)
        ensures
            match res {
                Some(name) => name_of_id(self@, id) == Some(name@),
                None => name_of_id(self@, id) is None,
            },
    {
        name_table_get_by_left(&self.table, id)
    }

    /// The id paired with a name, if the dictionary holds the name.
    pub fn id_of(&self, name: &str) -> (res: Option<i32>)
        requires
            self.wf(),
        ensures
            res == id_named(self@, name@),
    {
        let res = name_table_get_by_right(&self.table, name);
        proof {
            if let Some(id) = res {
                lemma_id_named(self@, id, name@);
            }
        }
        res
    }
}

/// The four static dictionaries of the proxy.
pub struct Dictionaries {
    /// Block ids and names.
    pub blocks: IdDictionary,
    /// Item ids and names.
    pub items: IdDictionary,
    /// Entity type ids and names.
    pub entities: IdDictionary,
    /// Fluid ids and names.
    pub fluids: IdDictionary,
}

impl Dictionaries {
    /// Each of the four dictionaries is one-to-one.
    pub open spec fn wf(&self) -> bool {
        &&& self.blocks.wf()
        &&& self.items.wf()
        &&& self.entities.wf()
        &&& self.fluids.wf()
    }
}

/// Whether a dictionary, or the error in its place, is what a text gives.
pub open spec fn is_dictionary_of_text(res: Result<IdDictionary, SplinterError>, data: &str) -> bool {
    match res {
        Ok(dictionary) => pairs_of_text(data) is Ok && dictionary.wf() && dictionary@ == dictionary_of(
            pairs_of_text(data)->Ok_0,
        ),
        Err(e) => pairs_of_text(data) == Err::<Seq<(i32, Seq<char>)>, SplinterError>(e),
    }
}

/// Reads one dictionary from its text.
pub fn load_dictionary(data: &str) -> (res: Result<IdDictionary, SplinterError>)
    ensures
        is_dictionary_of_text(res, data),
{
    match load_json_id_name_pairs(data) {
        Ok(pairs) => Ok(IdDictionary::from_pairs(&pairs)),
        Err(e) => Err(e),
    }
}

/// Reads the four dictionaries from their texts. Fails with `ConfigFatal`
/// if one of the texts cannot be read.
pub fn init(block_data: &str, item_data: &str, fluid_data: &str, entity_data: &str) -> (res: Result<
    Dictionaries,
    SplinterError,
>)
    ensures
        match res {
            Ok(all) => all.wf() && is_dictionary_of_text(Ok(all.blocks), block_data)
                && is_dictionary_of_text(Ok(all.items), item_data) && is_dictionary_of_text(
                Ok(all.fluids),
                fluid_data,
            ) && is_dictionary_of_text(Ok(all.entities), entity_data),
            Err(e) => e == SplinterError::ConfigFatal && (pairs_of_text(block_data) is Err || pairs_of_text(
                item_data,
            ) is Err || pairs_of_text(fluid_data) is Err || pairs_of_text(entity_data) is Err),
        },
{
    let blocks = match load_dictionary(block_data) {
        Ok(dictionary) => dictionary,
        Err(e) => {
            return Err(e);
        },
    };
    let items = match load_dictionary(item_data) {
        Ok(dictionary) => dictionary,
        Err(e) => {
            return Err(e);
        },
    };
    let fluids = match load_dictionary(fluid_data) {
        Ok(dictionary) => dictionary,
        Err(e) => {
            return Err(e);
        },
    };
    let entities = match load_dictionary(entity_data) {
        Ok(dictionary) => dictionary,
        Err(e) => {
            return Err(e);
        },
    };
    Ok(Dictionaries { blocks, items, entities, fluids })
}

} // verus!
