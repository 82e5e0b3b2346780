//! Inventories of a site, as its command-line tool prints them: a JSON array of records.

use vstd::prelude::*;

verus! {

/// What the JSON text in `bytes` holds under `key`: `None` where `serde_json::from_slice` does
/// not read the text as an array of values; else, for each element of that array in order,
/// the string that the element, where it is an object, has under `key`, and `None` for an
/// element without one.
pub uninterp spec fn named_fields(bytes: Seq<u8>, key: Seq<char>) -> Option<
    Seq<Option<Seq<char>>>,
>;

/// Reads a JSON array and picks the string under `key` from each of its elements.
///
/// Trusted: `serde_json::from_slice` parses the bytes it is given and nothing else, and fails
/// with an error, not a panic, on text that is no array; `Value::get` with a string key
/// answers for objects only, and `Value::as_str` for strings only. The result depends on the
/// two arguments alone, and the contract gives it its name.
#[verifier::external_body]
pub(crate) fn parse_named_fields(bytes: &[u8], key: &str) -> (r: Option<Vec<Option<String>>>)
    ensures
        r.deep_view() == named_fields(bytes@, key@),
{
    let values: Vec<serde_json::Value> = match serde_json::from_slice(bytes) {
        Ok(values) => values,
        Err(_) => return None,
    };
    Some(values.iter().map(|v| v.get(key).and_then(|f| f.as_str()).map(String::from)).collect())
}

/// The strings among `fields`, in order.
pub open spec fn present_names(fields: Seq<Option<Seq<char>>>) -> Seq<Seq<char>>
    decreases fields.len(),
{
    if fields.len() == 0 {
        Seq::empty()
    } else {
        let init = present_names(fields.drop_last());
        match fields.last() {
            Some(name) => init.push(name),
            None => init,
        }
    }
}

/// The names that an inventory lists: the `name` of each record that has one. `None` where
/// the command failed, so that there is no output, or where the output is no JSON array.
pub open spec fn inventory_names(output: Option<Seq<u8>>) -> Option<Seq<Seq<char>>> {
    match output {
        Some(bytes) => match named_fields(bytes, "name"@) {
            Some(fields) => Some(present_names(fields)),
            None => None,
        },
        None => None,
    }
}

/// The name of the first record of an inventory, where it has one.
pub open spec fn inventory_first(output: Option<Seq<u8>>) -> Option<Seq<char>> {
    match output {
        Some(bytes) => match named_fields(bytes, "name"@) {
            Some(fields) => if fields.len() > 0 {
                fields[0]
            } else {
                None
            },
            None => None,
        },
        None => None,
    }
}

/// The view of an optional output.
pub open spec fn opt_bytes(output: Option<Vec<u8>>) -> Option<Seq<u8>> {
    match output {
        Some(b) => Some(b@),
        None => None,
    }
}

/// The strings among the fields of the records of an inventory, in order.
pub fn names_in(fields: &Vec<Option<String>>) -> (names: Vec<String>)
    ensures
        names.deep_view() == present_names(fields.deep_view()),
{
    let mut names: Vec<String> = Vec::new();
    let mut i: usize = 0;
    assert(fields.deep_view().take(0) =~= Seq::<Option<Seq<char>>>::empty());
    assert(names.deep_view() =~= Seq::<Seq<char>>::empty());
    while i < fields.len()
        invariant
            i <= fields.len(),
            names.deep_view() == present_names(fields.deep_view().take(i as int)),
        decreases fields.len() - i,
    {
        let ghost before = names.deep_view();
        let ghost next = fields.deep_view().take(i as int + 1);
        assert(next.drop_last() =~= fields.deep_view().take(i as int));
        assert(next.last() == fields.deep_view()[i as int]);
        match &fields[i] {
            Some(name) => {
                names.push(name.clone());
                assert(names.deep_view() =~= before.push(name@));
            },
            None => {},
        }
        i += 1;
    }
    assert(fields.deep_view().take(fields.len() as int) =~= fields.deep_view());
    names
}

/// The field of the first record of an inventory, where there is a record and it has the
/// field.
pub fn first_in(fields: &Vec<Option<String>>) -> (name: Option<String>)
    ensures
        crate::text::opt_text(name) == if fields.len() > 0 {
            fields.deep_view()[0]
        } else {
            None
        },
{
    if fields.len() > 0 {
        assert(fields.deep_view()[0] == fields[0].deep_view());
        match &fields[0] {
            Some(name) => Some(name.clone()),
            None => None,
        }
    } else {
        None
    }
}

/// The names that an inventory lists.
pub fn names_of_inventory(output: &Option<Vec<u8>>) -> (r: Option<Vec<String>>)
    ensures
        crate::text::opt_texts(r) == inventory_names(opt_bytes(*output)),
{
    match output {
        Some(bytes) => match parse_named_fields(bytes.as_slice(), "name") {
            Some(fields) => Some(names_in(&fields)),
            None => None,
        },
        None => None,
    }
}

/// The name of the first record of an inventory.
pub fn first_of_inventory(output: &Option<Vec<u8>>) -> (r: Option<String>)
    ensures
        crate::text::opt_text(r) == inventory_first(opt_bytes(*output)),
{
    match output {
        Some(bytes) => match parse_named_fields(bytes.as_slice(), "name") {
            Some(fields) => first_in(&fields),
            None => None,
        },
        None => None,
    }
}

} // verus!
