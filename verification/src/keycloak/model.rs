//! Records as the provider returns them.

use vstd::prelude::*;
use crate::decimal::{parse_number, parse_u32};
use crate::error::{MappingError, MappingErrorView};

verus! {

/// One attribute of a record: its name and its values, in the provider's order.
#[derive(Debug, Clone)]
pub struct Attribute {
    pub name: String,
    pub values: Vec<String>,
}

/// The attributes of a record: a map from attribute names to their values.
///
/// The provider returns every attribute as a list of values, also those that
/// hold a single value by nature. What a bag holds is its view; two bags with
/// one view may have come about by different inserts.
#[derive(Debug, Clone)]
pub struct AttributeBag {
    // Kept in the order of insertion. Of two entries with one name the later counts.
    entries: Vec<Attribute>,
}

/// The map that a list of entries stands for: each entry sets the values of
/// its name, replacing what an earlier entry set.
pub open spec fn entries_map(entries: Seq<Attribute>) -> Map<Seq<char>, Seq<Seq<char>>>
    decreases entries.len(),
{
    if entries.len() == 0 {
        Map::empty()
    } else {
        entries_map(entries.drop_last()).insert(
            entries.last().name@,
            entries.last().values.deep_view(),
        )
    }
}

/// A name that no entry from `from` on carries is mapped as the entries
/// before `from` map it.
proof fn lemma_entries_map_skips(entries: Seq<Attribute>, from: int, name: Seq<char>)
    requires
        0 <= from <= entries.len(),
        forall|j: int| from <= j < entries.len() ==> (#[trigger] entries[j]).name@ != name,
    ensures
        entries_map(entries).contains_key(name) == entries_map(
            entries.subrange(0, from),
        ).contains_key(name),
        entries_map(entries).contains_key(name) ==> entries_map(entries)[name] == entries_map(
            entries.subrange(0, from),
        )[name],
    decreases entries.len() - from,
{
    if from == entries.len() {
        assert(entries.subrange(0, from) =~= entries);
    } else {
        let shorter = entries.drop_last();
        assert(shorter.subrange(0, from) =~= entries.subrange(0, from));
        assert(entries.last() == entries[entries.len() - 1]);
        assert forall|j: int| from <= j < shorter.len() implies (#[trigger] shorter[j]).name@
            != name by {
            assert(shorter[j] == entries[j]);
        }
        lemma_entries_map_skips(shorter, from, name);
    }
}

impl View for AttributeBag {
    type V = Map<Seq<char>, Seq<Seq<char>>>;

    closed spec fn view(&self) -> Map<Seq<char>, Seq<Seq<char>>> {
        entries_map(self.entries@)
    }
}

impl AttributeBag {
    /// A bag without attributes.
    pub fn new() -> (bag: AttributeBag)
        ensures
            bag@ == Map::<Seq<char>, Seq<Seq<char>>>::empty(),
    {
        AttributeBag { entries: Vec::new() }
    }

    /// Sets the values of `name`, replacing those it had.
    pub fn insert(&mut self, name: String, values: Vec<String>)
        ensures
            final(self)@ == old(self)@.insert(name@, values.deep_view()),
    {
        let ghost before = self.entries@;
        self.entries.push(Attribute { name, values });
        assert(self.entries@.drop_last() =~= before);
    }

    /// The values of `name`, if the bag holds that attribute.
    pub fn get(&self, name: &str) -> (r: Option<&Vec<String>>)
        ensures
            match r {
                Some(values) => self@.contains_key(name@) && self@[name@] == values.deep_view(),
                None => !self@.contains_key(name@),
            },
    {
        let key = name.to_owned();
        let mut i: usize = self.entries.len();
        while i > 0
            invariant
                i <= self.entries.len(),
                key@ == name@,
                forall|j: int|
                    i <= j < self.entries.len() ==> (#[trigger] self.entries@[j]).name@ != name@,
            decreases i,
        {
            i -= 1;
            if self.entries[i].name == key {
                proof {
                    lemma_entries_map_skips(self.entries@, i + 1, name@);
                    let upto = self.entries@.subrange(0, i + 1);
                    assert(upto.last() == self.entries@[i as int]);
                }
                return Some(&self.entries[i].values);
            }
        }
        proof {
            lemma_entries_map_skips(self.entries@, 0, name@);
            assert(self.entries@.subrange(0, 0) =~= Seq::<Attribute>::empty());
        }
        None
    }
}

/// A user as the provider returns it.
#[derive(Debug, Clone)]
pub struct KeycloakUserResponse {
    pub username: String,
    pub enabled: bool,
    pub attributes: Option<AttributeBag>,
}

/// A group as the provider returns it.
#[derive(Debug, Clone)]
pub struct KeycloakGroupResponse {
    pub id: String,
    pub name: String,
    pub attributes: Option<AttributeBag>,
}

/// The values that a record has for the attribute `name`: none where the
/// record has no attributes at all or no attribute of that name.
pub open spec fn attribute_values(attributes: Option<AttributeBag>, name: Seq<char>) -> Seq<
    Seq<char>,
> {
    match attributes {
        Some(bag) => if bag@.contains_key(name) {
            bag@[name]
        } else {
            Seq::empty()
        },
        None => Seq::empty(),
    }
}

/// The value of an attribute that may hold one value at most: absent without
/// a value, the value where there is exactly one, an error where there are
/// more. No value is ever picked out of several.
pub open spec fn single_attribute(attributes: Option<AttributeBag>, name: Seq<char>) -> Result<
    Option<Seq<char>>,
    MappingErrorView,
> {
    let values = attribute_values(attributes, name);
    if values.len() == 0 {
        Ok(None)
    } else if values.len() == 1 {
        Ok(Some(values[0]))
    } else {
        Err(MappingErrorView::Multiple(name))
    }
}

/// The three cases of an attribute lookup. An attribute that the record
/// does not have, or has without a value, is absent; an attribute with
/// exactly one value has that value; an attribute with two or more values is
/// an error.
pub proof fn lemma_single_attribute(attributes: Option<AttributeBag>, name: Seq<char>)
    ensures
        attributes is None ==> single_attribute(attributes, name) == Ok::<
            Option<Seq<char>>,
            MappingErrorView,
        >(None),
        attributes matches Some(bag) ==> single_attribute(attributes, name) == (if !bag@.contains_key(
            name,
        ) || bag@[name].len() == 0 {
            Ok::<Option<Seq<char>>, MappingErrorView>(None)
        } else if bag@[name].len() == 1 {
            Ok(Some(bag@[name][0]))
        } else {
            Err(MappingErrorView::Multiple(name))
        }),
{
}

/// What [`get_single_attribute`] hands back, with texts as character sequences.
pub open spec fn attribute_view(r: Result<Option<&String>, MappingError>) -> Result<
    Option<Seq<char>>,
    MappingErrorView,
> {
    match r {
        Ok(Some(value)) => Ok(Some(value@)),
        Ok(None) => Ok(None),
        Err(e) => Err(e@),
    }
}

/// Gets the single value of the attribute `attr_name`, as
/// [`single_attribute`] defines it.
pub fn get_single_attribute<'a>(attributes: &'a Option<AttributeBag>, attr_name: &str) -> (r:
    Result<Option<&'a String>, MappingError>)
    ensures
        attribute_view(r) == single_attribute(*attributes, attr_name@),
{
    match attributes {
        None => Ok(None),
        Some(bag) => match bag.get(attr_name) {
            Some(values) => {
                if values.len() == 1 {
                    Ok(Some(&values[0]))
                } else if values.len() > 1 {
                    Err(MappingError::Multiple(attr_name.to_owned()))
                } else {
                    Ok(None)
                }
            },
            None => Ok(None),
        },
    }
}

/// The number that a required numeric attribute holds. Without a value the
/// attribute is missing; a value that is no numeral of a `u32` is no number.
pub open spec fn required_number(value: Option<Seq<char>>, name: Seq<char>) -> Result<
    u32,
    MappingErrorView,
> {
    match value {
        None => Err(MappingErrorView::Missing(name)),
        Some(text) => match parse_u32(text) {
            Some(number) => Ok(number),
            None => Err(MappingErrorView::NotANumber(name)),
        },
    }
}

/// Reads the number of a required numeric attribute, as [`required_number`]
/// defines it.
pub fn number_of(value: Option<&String>, name: &String) -> (r: Result<u32, MappingError>)
    ensures
        match r {
            Ok(number) => required_number(value.deep_view(), name@) == Ok::<u32, MappingErrorView>(
                number,
            ),
            Err(e) => required_number(value.deep_view(), name@) == Err::<u32, MappingErrorView>(
                e@,
            ),
        },
{
    match value {
        None => Err(MappingError::Missing(name.clone())),
        Some(text) => match parse_number(text.as_str()) {
            Some(number) => Ok(number),
            None => Err(MappingError::NotANumber(name.clone())),
        },
    }
}

} // verus!
