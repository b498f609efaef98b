//! Tags: the ordered key/value annotations of a metric point. A tag value may
//! be a scalar, a sequence of values or a nested mapping.

use crate::text::{decimal, decimal_text};
use vstd::prelude::*;

verus! {

/// The mathematical value of a [`Number`].
pub struct NumberModel {
    pub text: Seq<char>,
    pub integer: Option<i64>,
    pub float_text: Option<Seq<char>>,
}

/// The mathematical value of a [`TagValue`]: the same tree over sequences.
pub enum TagModel {
    Null,
    Bool(bool),
    Number(NumberModel),
    Text(Seq<char>),
    Array(Seq<TagModel>),
    Object(Seq<(Seq<char>, TagModel)>),
}

/// A number, held as the three readings that are taken from it: its decimal
/// text, its value as a 64-bit integer where it is one, and the decimal text
/// of its value as a 64-bit float where it has one.
#[derive(Clone, Debug, PartialEq, Eq)]
pub struct Number {
    pub text: String,
    pub integer: Option<i64>,
    pub float_text: Option<String>,
}

/// One tag value.
#[derive(Debug, PartialEq, Eq)]
pub enum TagValue {
    Null,
    Bool(bool),
    Number(Number),
    Text(String),
    Array(Vec<TagValue>),
    Object(Tags),
}

/// An ordered mapping from keys to tag values. The entries stand in the order
/// in which their keys were first inserted.
#[derive(Debug, PartialEq, Eq)]
pub struct Tags {
    pub entries: Vec<(String, TagValue)>,
}

impl View for Number {
    type V = NumberModel;

    open spec fn view(&self) -> NumberModel {
        NumberModel {
            text: self.text@,
            integer: self.integer,
            float_text: match self.float_text {
                Some(text) => Some(text@),
                None => None,
            },
        }
    }
}

/// The model of a tag value.
pub open spec fn tag_model(value: TagValue) -> TagModel
    decreases value,
{
    match value {
        TagValue::Null => TagModel::Null,
        TagValue::Bool(b) => TagModel::Bool(b),
        TagValue::Number(n) => TagModel::Number(n@),
        TagValue::Text(s) => TagModel::Text(s@),
        TagValue::Array(items) => TagModel::Array(
            Seq::new(
                items@.len(),
                |i: int|
                    if 0 <= i < items@.len() {
                        tag_model(items@[i])
                    } else {
                        TagModel::Null
                    },
            ),
        ),
        TagValue::Object(tags) => TagModel::Object(
            Seq::new(
                tags.entries@.len(),
                |i: int|
                    if 0 <= i < tags.entries@.len() {
                        (tags.entries@[i].0@, tag_model(tags.entries@[i].1))
                    } else {
                        (Seq::empty(), TagModel::Null)
                    },
            ),
        ),
    }
}

impl View for TagValue {
    type V = TagModel;

    open spec fn view(&self) -> TagModel {
        tag_model(*self)
    }
}

impl View for Tags {
    type V = Seq<(Seq<char>, TagModel)>;

    open spec fn view(&self) -> Seq<(Seq<char>, TagModel)> {
        Seq::new(
            self.entries@.len(),
            |i: int|
                if 0 <= i < self.entries@.len() {
                    (self.entries@[i].0@, self.entries@[i].1@)
                } else {
                    (Seq::empty(), TagModel::Null)
                },
        )
    }
}

/// No key occurs twice among `members`.
pub open spec fn distinct_keys(members: Seq<(Seq<char>, TagModel)>) -> bool {
    forall|i: int, j: int|
        0 <= i < j < members.len() ==> (#[trigger] members[i]).0 != (#[trigger] members[j]).0
}

/// A tag value is well formed when every mapping inside it is.
pub open spec fn value_well_formed(value: TagModel) -> bool
    decreases value,
{
    match value {
        TagModel::Array(items) => forall|i: int|
            0 <= i < items.len() ==> value_well_formed(#[trigger] items[i]),
        TagModel::Object(members) => members_well_formed(members),
        _ => true,
    }
}

/// A mapping is well formed when its keys are distinct and its values are
/// well formed.
pub open spec fn members_well_formed(members: Seq<(Seq<char>, TagModel)>) -> bool
    decreases members,
{
    &&& distinct_keys(members)
    &&& forall|i: int| 0 <= i < members.len() ==> value_well_formed((#[trigger] members[i]).1)
}

/// Whether `i` is the first position among `members` that holds `key`.
pub open spec fn first_holding(members: Seq<(Seq<char>, TagModel)>, key: Seq<char>, i: int) -> bool {
    &&& 0 <= i < members.len()
    &&& members[i].0 == key
    &&& forall|j: int| 0 <= j < i ==> (#[trigger] members[j]).0 != key
}

/// The first position of `key` among `members`, if it is there.
pub open spec fn key_position(members: Seq<(Seq<char>, TagModel)>, key: Seq<char>) -> Option<int> {
    if exists|i: int| first_holding(members, key, i) {
        Some(choose|i: int| first_holding(members, key, i))
    } else {
        None
    }
}

/// The value of the first entry among `members` that holds `key`, if there
/// is one.
pub open spec fn member_value(members: Seq<(Seq<char>, TagModel)>, key: Seq<char>) -> Option<
    TagModel,
>
    decreases members.len(),
{
    if members.len() == 0 {
        None
    } else if members[0].0 == key {
        Some(members[0].1)
    } else {
        member_value(members.drop_first(), key)
    }
}

/// The model of a tag value that may be missing.
pub open spec fn optional_model(value: Option<TagValue>) -> Option<TagModel> {
    match value {
        Some(value) => Some(value@),
        None => None,
    }
}

/// `members` after `key` was given `value`: an entry that holds the key keeps
/// its place and takes the value, a new key goes to the end.
pub open spec fn inserted(
    members: Seq<(Seq<char>, TagModel)>,
    key: Seq<char>,
    value: TagModel,
) -> Seq<(Seq<char>, TagModel)> {
    match key_position(members, key) {
        Some(i) => members.update(i, (key, value)),
        None => members.push((key, value)),
    }
}

impl Number {
    /// The number of an integer: its decimal numeral and its integer
    /// reading, without a float reading.
    pub fn from_i64(n: i64) -> (number: Number)
        ensures
            number@ == (NumberModel { text: decimal(n as int), integer: Some(n), float_text: None }),
    {
        Number { text: decimal_text(n as i128), integer: Some(n), float_text: None }
    }
}

impl TagValue {
    /// Every mapping inside the value has distinct keys.
    pub open spec fn well_formed(&self) -> bool {
        value_well_formed(self@)
    }
}

impl Tags {
    /// The keys are distinct, here and in every nested mapping.
    pub open spec fn well_formed(&self) -> bool {
        members_well_formed(self@)
    }

    /// The empty mapping.
    pub fn new() -> (tags: Tags)
        ensures
            tags@ == Seq::<(Seq<char>, TagModel)>::empty(),
            tags.well_formed(),
    {
        let tags = Tags { entries: Vec::new() };
        assert(tags@ == Seq::<(Seq<char>, TagModel)>::empty());
        tags
    }

    /// The number of entries.
    pub fn len(&self) -> (n: usize)
        ensures
            n == self@.len(),
    {
        self.entries.len()
    }

    /// Gives `key` the value `value`, in place where the key is present and
    /// at the end where it is new.
    pub fn insert(&mut self, key: String, value: TagValue)
        ensures
            final(self)@ == inserted(old(self)@, key@, value@),
            old(self).well_formed() && value.well_formed() ==> final(self).well_formed(),
    {
        let ghost before = self@;
        let mut i: usize = 0;
        while i < self.entries.len()
            invariant
                i <= self.entries@.len(),
                self@ == before,
                before == old(self)@,
                before.len() == self.entries@.len(),
                forall|j: int| 0 <= j < i ==> (#[trigger] before[j]).0 != key@,
            decreases self.entries@.len() - i,
        {
            if self.entries[i].0 == key {
                proof {
                    assert(before[i as int].0 == key@);
                    assert(first_holding(before, key@, i as int));
                    let found = choose|k: int| first_holding(before, key@, k);
                    assert(found == i);
                }
                self.entries.set(i, (key, value));
                proof {
                    let after = self@;
                    assert(after == before.update(i as int, (key@, value@)));
                    if members_well_formed(before) && value_well_formed(value@) {
                        assert forall|a: int, b: int| 0 <= a < b < after.len() implies (
                        #[trigger] after[a]).0 != (#[trigger] after[b]).0 by {
                            assert(after[a].0 == before[a].0);
                            assert(after[b].0 == before[b].0);
                        }
                        assert forall|a: int| 0 <= a < after.len() implies value_well_formed(
                            (#[trigger] after[a]).1,
                        ) by {
                            if a != i {
                                assert(after[a] == before[a]);
                            }
                        }
                    }
                }
                return ;
            }
            i += 1;
        }
        proof {
            assert forall|k: int| !first_holding(before, key@, k) by {
                if 0 <= k < before.len() {
                    assert(before[k].0 != key@);
                }
            }
        }
        self.entries.push((key, value));
        proof {
            let after = self@;
            assert(after == before.push((key@, value@)));
            if members_well_formed(before) && value_well_formed(value@) {
                assert forall|a: int, b: int| 0 <= a < b < after.len() implies (
                #[trigger] after[a]).0 != (#[trigger] after[b]).0 by {
                    assert(after[a] == before[a]);
                    if b < before.len() {
                        assert(after[b] == before[b]);
                    }
                }
                assert forall|a: int| 0 <= a < after.len() implies value_well_formed(
                    (#[trigger] after[a]).1,
                ) by {
                    if a < before.len() {
                        assert(after[a] == before[a]);
                    }
                }
            }
        }
    }
}

} // verus!
