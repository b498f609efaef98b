//! The InfluxDB line protocol: one measurement becomes one line of the form
//! `<metric>[,<tag-set>] value=<value> <timestamp>`.

use crate::metric::{
    timestamp_count, Measurement, MeasurementModel, Point, PointModel, Precision, Timestamp,
};
use crate::protocol_trait::ProtocolTrait;
use crate::tags::{TagModel, TagValue, Tags};
use crate::text::{
    decimal, escape_spaces, escaped, glue, glued, joined, lemma_escaped_concat,
    lemma_escaped_spaces_follow_backslash, lemma_escaped_without_spaces, lemma_joined_concat,
    push_char, push_decimal,
};
use vstd::prelude::*;

verus! {

/// The key of a mapping's entry once it is flattened: the entry's own key,
/// behind the enclosing key and two underscores where there is one.
pub open spec fn member_key(prefix: Option<Seq<char>>, key: Seq<char>) -> Seq<char> {
    match prefix {
        Some(outer) => outer + seq!['_', '_'] + key,
        None => key,
    }
}

/// The key of a sequence's element once it is flattened: the sequence's key,
/// an underscore and the element's position.
pub open spec fn item_key(key: Seq<char>, index: int) -> Seq<char> {
    key + seq!['_'] + decimal(index)
}

/// The text of a boolean.
pub open spec fn bool_text(b: bool) -> Seq<char> {
    if b {
        "true"@
    } else {
        "false"@
    }
}

/// The flat tags that one tag value gives under `key`, in order: each is a
/// flattened key with the text of a scalar. A null gives none, a sequence and
/// a mapping give those of their parts.
pub open spec fn flat_value(key: Seq<char>, value: TagModel) -> Seq<(Seq<char>, Seq<char>)>
    decreases value, 0nat,
{
    match value {
        TagModel::Null => Seq::empty(),
        TagModel::Bool(b) => seq![(key, bool_text(b))],
        TagModel::Number(n) => seq![(key, n.text)],
        TagModel::Text(s) => seq![(key, escaped(s))],
        TagModel::Array(items) => flat_items(key, items, items.len()),
        TagModel::Object(members) => flat_members(Some(key), members, members.len()),
    }
}

/// The flat tags of the first `n` elements of a sequence that stands under
/// `key`.
pub open spec fn flat_items(key: Seq<char>, items: Seq<TagModel>, n: nat) -> Seq<
    (Seq<char>, Seq<char>),
>
    decreases items, n,
{
    if n == 0 || n > items.len() {
        Seq::empty()
    } else {
        flat_items(key, items, (n - 1) as nat) + flat_value(item_key(key, n - 1), items[n - 1])
    }
}

/// The flat tags of the first `n` entries of a mapping that stands under
/// `prefix`.
pub open spec fn flat_members(
    prefix: Option<Seq<char>>,
    members: Seq<(Seq<char>, TagModel)>,
    n: nat,
) -> Seq<(Seq<char>, Seq<char>)>
    decreases members, n,
{
    if n == 0 || n > members.len() {
        Seq::empty()
    } else {
        flat_members(prefix, members, (n - 1) as nat) + flat_value(
            member_key(prefix, members[n - 1].0),
            members[n - 1].1,
        )
    }
}

/// The flat tags of a whole mapping at the top level.
pub open spec fn flat_tags(members: Seq<(Seq<char>, TagModel)>) -> Seq<(Seq<char>, Seq<char>)> {
    flat_members(None, members, members.len())
}

/// One flat tag as it is written: the key with its spaces escaped, an equals
/// sign, the value's text.
pub open spec fn entry_text(entry: (Seq<char>, Seq<char>)) -> Seq<char> {
    escaped(entry.0) + seq!['='] + entry.1
}

/// Flat tags as they are written: one after another, with commas between.
pub open spec fn tag_set(flat: Seq<(Seq<char>, Seq<char>)>) -> Seq<char> {
    joined(flat.map_values(|entry: (Seq<char>, Seq<char>)| entry_text(entry)))
}

/// A tag-set as it follows the metric name: behind a comma, or nothing where
/// the tag-set is empty.
pub open spec fn led_by_comma(tag_set: Seq<char>) -> Seq<char> {
    if tag_set.len() == 0 {
        tag_set
    } else {
        seq![','] + tag_set
    }
}

/// The tag part of a line: the measurement's own tags, then the extra tags.
pub open spec fn tags_text(
    own: Seq<(Seq<char>, TagModel)>,
    extra: Seq<(Seq<char>, TagModel)>,
) -> Seq<char> {
    led_by_comma(tag_set(flat_tags(own + extra)))
}

/// The whole line of a measurement.
pub open spec fn line_text(
    measurement: MeasurementModel,
    extra_tags: Seq<(Seq<char>, TagModel)>,
    precision: Precision,
) -> Seq<char> {
    let stamp = decimal(timestamp_count(measurement.timestamp, precision));
    match measurement.point {
        PointModel::Timer { metric, value, tags } => metric + tags_text(tags, extra_tags)
            + " value="@ + value + seq![' '] + stamp,
        PointModel::Counter { metric, value, tags } => metric + tags_text(tags, extra_tags)
            + " value="@ + decimal(value as int) + seq![' '] + stamp,
    }
}

/// No flat tags are written as the empty text.
pub proof fn lemma_tag_set_of_nothing()
    ensures
        tag_set(Seq::empty()) == Seq::<char>::empty(),
{
    let write = |entry: (Seq<char>, Seq<char>)| entry_text(entry);
    assert(Seq::<(Seq<char>, Seq<char>)>::empty().map_values(write) == Seq::<Seq<char>>::empty());
}

/// Writing two runs of flat tags laid end to end is writing each and gluing
/// the two texts.
pub proof fn lemma_tag_set_concat(a: Seq<(Seq<char>, Seq<char>)>, b: Seq<(Seq<char>, Seq<char>)>)
    ensures
        tag_set(a + b) == glued(tag_set(a), tag_set(b)),
{
    let write = |entry: (Seq<char>, Seq<char>)| entry_text(entry);
    assert((a + b).map_values(write) == a.map_values(write) + b.map_values(write));
    lemma_joined_concat(a.map_values(write), b.map_values(write));
}

/// The flat tags of two mappings laid end to end are those of the first,
/// then those of the second.
pub proof fn lemma_flat_members_concat(
    prefix: Option<Seq<char>>,
    a: Seq<(Seq<char>, TagModel)>,
    b: Seq<(Seq<char>, TagModel)>,
    n: nat,
)
    requires
        n <= b.len(),
    ensures
        flat_members(prefix, a + b, a.len() + n) == flat_members(prefix, a, a.len())
            + flat_members(prefix, b, n),
    decreases n,
{
    if n == 0 {
        lemma_flat_members_prefix(prefix, a, a + b, a.len());
    } else {
        lemma_flat_members_concat(prefix, a, b, (n - 1) as nat);
        assert((a + b)[a.len() + n - 1] == b[n - 1]);
    }
}

/// The flat tags of the first `n` entries depend on those entries alone.
pub proof fn lemma_flat_members_prefix(
    prefix: Option<Seq<char>>,
    a: Seq<(Seq<char>, TagModel)>,
    b: Seq<(Seq<char>, TagModel)>,
    n: nat,
)
    requires
        n <= a.len(),
        n <= b.len(),
        forall|i: int| 0 <= i < n ==> a[i] == b[i],
    ensures
        flat_members(prefix, a, n) == flat_members(prefix, b, n),
    decreases n,
{
    if n > 0 {
        lemma_flat_members_prefix(prefix, a, b, (n - 1) as nat);
    }
}

/// Extra tags follow a measurement's own tags: the flat tags of both are
/// those of the own tags, in their order, then those of the extra tags, in
/// theirs; and the written tag part is the two written tag-sets glued, behind
/// one comma.
pub proof fn lemma_extra_tags_follow_own(
    own: Seq<(Seq<char>, TagModel)>,
    extra: Seq<(Seq<char>, TagModel)>,
)
    ensures
        flat_tags(own + extra) == flat_tags(own) + flat_tags(extra),
        tags_text(own, extra) == led_by_comma(
            glued(tag_set(flat_tags(own)), tag_set(flat_tags(extra))),
        ),
{
    lemma_flat_members_concat(None, own, extra, extra.len());
    lemma_tag_set_concat(flat_tags(own), flat_tags(extra));
}

/// The number of scalars in a tag value that are not null.
pub open spec fn scalar_count(value: TagModel) -> nat
    decreases value, 0nat,
{
    match value {
        TagModel::Null => 0,
        TagModel::Bool(_) => 1,
        TagModel::Number(_) => 1,
        TagModel::Text(_) => 1,
        TagModel::Array(items) => items_scalar_count(items, items.len()),
        TagModel::Object(members) => members_scalar_count(members, members.len()),
    }
}

/// The number of scalars that are not null in the first `n` elements of a
/// sequence.
pub open spec fn items_scalar_count(items: Seq<TagModel>, n: nat) -> nat
    decreases items, n,
{
    if n == 0 || n > items.len() {
        0
    } else {
        items_scalar_count(items, (n - 1) as nat) + scalar_count(items[n - 1])
    }
}

/// The number of scalars that are not null in the first `n` entries of a
/// mapping.
pub open spec fn members_scalar_count(members: Seq<(Seq<char>, TagModel)>, n: nat) -> nat
    decreases members, n,
{
    if n == 0 || n > members.len() {
        0
    } else {
        members_scalar_count(members, (n - 1) as nat) + scalar_count(members[n - 1].1)
    }
}

/// A tag value gives one flat tag for each of its scalars that is not null,
/// and none for a null, whatever its shape and at whatever depth.
pub proof fn lemma_one_tag_per_scalar(key: Seq<char>, value: TagModel)
    ensures
        flat_value(key, value).len() == scalar_count(value),
    decreases value, 0nat,
{
    match value {
        TagModel::Array(items) => lemma_one_tag_per_scalar_items(key, items, items.len()),
        TagModel::Object(members) => lemma_one_tag_per_scalar_members(
            Some(key),
            members,
            members.len(),
        ),
        _ => {},
    }
}

/// The first `n` elements of a sequence give one flat tag for each of their
/// scalars that is not null.
pub proof fn lemma_one_tag_per_scalar_items(key: Seq<char>, items: Seq<TagModel>, n: nat)
    ensures
        flat_items(key, items, n).len() == items_scalar_count(items, n),
    decreases items, n,
{
    if !(n == 0 || n > items.len()) {
        lemma_one_tag_per_scalar_items(key, items, (n - 1) as nat);
        lemma_one_tag_per_scalar(item_key(key, n - 1), items[n - 1]);
    }
}

/// The first `n` entries of a mapping give one flat tag for each of their
/// scalars that is not null.
pub proof fn lemma_one_tag_per_scalar_members(
    prefix: Option<Seq<char>>,
    members: Seq<(Seq<char>, TagModel)>,
    n: nat,
)
    ensures
        flat_members(prefix, members, n).len() == members_scalar_count(members, n),
    decreases members, n,
{
    if !(n == 0 || n > members.len()) {
        lemma_one_tag_per_scalar_members(prefix, members, (n - 1) as nat);
        lemma_one_tag_per_scalar(member_key(prefix, members[n - 1].0), members[n - 1].1);
    }
}

/// A null entry leaves no trace: a mapping gives the same flat tags with it
/// and without it, wherever it stands.
pub proof fn lemma_null_member_leaves_no_trace(
    prefix: Option<Seq<char>>,
    before: Seq<(Seq<char>, TagModel)>,
    key: Seq<char>,
    after: Seq<(Seq<char>, TagModel)>,
)
    ensures
        flat_members(
            prefix,
            before + seq![(key, TagModel::Null)] + after,
            before.len() + 1 + after.len(),
        ) == flat_members(prefix, before + after, before.len() + after.len()),
{
    let single = seq![(key, TagModel::Null)];
    lemma_flat_members_concat(prefix, before + single, after, after.len());
    lemma_flat_members_concat(prefix, before, single, 1);
    lemma_flat_members_concat(prefix, before, after, after.len());
    assert(flat_members(prefix, single, 1) == flat_members(prefix, single, 0) + flat_value(
        member_key(prefix, key),
        TagModel::Null,
    ));
    assert(flat_members(prefix, single, 1).len() == 0);
    assert(flat_members(prefix, before + single, before.len() + 1) == flat_members(
        prefix,
        before,
        before.len(),
    ));
}

/// A flattened key is escaped part by part: escaping the key of an entry
/// under an enclosing key gives the escaped enclosing key, two underscores
/// and the escaped key of the entry.
pub proof fn lemma_member_key_escaped_by_parts(outer: Seq<char>, key: Seq<char>)
    ensures
        escaped(member_key(Some(outer), key)) == escaped(outer) + seq!['_', '_'] + escaped(key),
{
    let joint = seq!['_', '_'];
    lemma_escaped_concat(outer + joint, key);
    lemma_escaped_concat(outer, joint);
    lemma_escaped_without_spaces(joint);
}

/// A string tag is written without a bare space: in the text of a flat tag
/// whose value is an escaped string, every space stands directly behind a
/// backslash.
pub proof fn lemma_written_tag_has_no_bare_space(key: Seq<char>, value: Seq<char>)
    ensures
        forall|i: int|
            0 <= i < entry_text((key, escaped(value))).len() && #[trigger] entry_text(
                (key, escaped(value)),
            )[i] == ' ' ==> i > 0 && entry_text((key, escaped(value)))[i - 1] == '\\',
{
    lemma_escaped_spaces_follow_backslash(key);
    lemma_escaped_spaces_follow_backslash(value);
    let left = escaped(key);
    let right = escaped(value);
    let whole = entry_text((key, escaped(value)));
    assert forall|i: int| 0 <= i < whole.len() && #[trigger] whole[i] == ' ' implies i > 0
        && whole[i - 1] == '\\' by {
        if i < left.len() {
            assert(whole[i] == left[i]);
            if i > 0 {
                assert(whole[i - 1] == left[i - 1]);
            }
        } else if i > left.len() {
            assert(whole[i] == right[i - left.len() - 1]);
            if i - left.len() - 1 > 0 {
                assert(whole[i - 1] == right[i - left.len() - 2]);
            }
        }
    }
}

/// The view of an optional enclosing key.
pub open spec fn prefix_model(prefix: Option<&str>) -> Option<Seq<char>> {
    match prefix {
        Some(outer) => Some(outer@),
        None => None,
    }
}

/// The flattened key of a mapping's entry: `prefix__key`, or `key` alone at
/// the top level.
pub fn _add_key_prefix(key: &str, prefix: Option<&str>) -> (flat_key: String)
    ensures
        flat_key@ == member_key(prefix_model(prefix), key@),
{
    match prefix {
        Some(outer) => {
            let mut flat_key = outer.to_owned();
            push_char(&mut flat_key, '_');
            push_char(&mut flat_key, '_');
            flat_key.append(key);
            assert(flat_key@ == outer@ + seq!['_', '_'] + key@);
            flat_key
        },
        None => key.to_owned(),
    }
}

/// The flattened key of the element at `index` of the sequence under `key`.
fn add_index_suffix(key: &str, index: usize) -> (flat_key: String)
    ensures
        flat_key@ == item_key(key@, index as int),
{
    let mut flat_key = key.to_owned();
    push_char(&mut flat_key, '_');
    push_decimal(&mut flat_key, index as i128);
    flat_key
}

/// One flat tag as text: `key=value`, the key with its spaces escaped.
fn format_entry(key: &str, value: &str) -> (text: String)
    ensures
        text@ == tag_set(seq![(key@, value@)]),
{
    let mut text = escape_spaces(key);
    push_char(&mut text, '=');
    text.append(value);
    proof {
        let write = |entry: (Seq<char>, Seq<char>)| entry_text(entry);
        assert(seq![(key@, value@)].map_values(write) == seq![entry_text((key@, value@))]);
    }
    text
}

/// The tags that one value gives under `key`, written as a tag-set.
pub fn format_tag_value(key: &str, value: &TagValue) -> (text: String)
    ensures
        text@ == tag_set(flat_value(key@, value@)),
    decreases value,
{
    match value {
        TagValue::Null => {
            proof {
                lemma_tag_set_of_nothing();
            }
            String::new()
        },
        TagValue::Bool(b) => {
            if *b {
                format_entry(key, "true")
            } else {
                format_entry(key, "false")
            }
        },
        TagValue::Number(n) => format_entry(key, n.text.as_str()),
        TagValue::Text(s) => {
            let text = escape_spaces(s.as_str());
            format_entry(key, text.as_str())
        },
        TagValue::Array(items) => {
            let ghost models = value@->Array_0;
            let mut text = String::new();
            proof {
                lemma_tag_set_of_nothing();
            }
            let mut i: usize = 0;
            while i < items.len()
                invariant
                    i <= items@.len(),
                    value == TagValue::Array(*items),
                    models == value@->Array_0,
                    models.len() == items@.len(),
                    text@ == tag_set(flat_items(key@, models, i as nat)),
                decreases items@.len() - i,
            {
                let item_key = add_index_suffix(key, i);
                assert(models[i as int] == items@[i as int]@);
                let part = format_tag_value(item_key.as_str(), &items[i]);
                proof {
                    lemma_tag_set_concat(
                        flat_items(key@, models, i as nat),
                        flat_value(item_key@, models[i as int]),
                    );
                }
                glue(&mut text, part.as_str());
                i += 1;
            }
            text
        },
        TagValue::Object(tags) => {
            assert(value@->Object_0 =~= tags@);
            format_map_iter(tags, Some(key))
        },
    }
}

/// The entries of a mapping under `prefix`, written as a tag-set.
pub fn format_map_iter(tags: &Tags, prefix: Option<&str>) -> (text: String)
    ensures
        text@ == tag_set(flat_members(prefix_model(prefix), tags@, tags@.len())),
    decreases tags,
{
    let mut text = String::new();
    proof {
        lemma_tag_set_of_nothing();
    }
    let mut i: usize = 0;
    while i < tags.entries.len()
        invariant
            i <= tags.entries@.len(),
            tags@.len() == tags.entries@.len(),
            text@ == tag_set(flat_members(prefix_model(prefix), tags@, i as nat)),
        decreases tags.entries@.len() - i,
    {
        let flat_key = _add_key_prefix(tags.entries[i].0.as_str(), prefix);
        assert(tags@[i as int] == (tags.entries@[i as int].0@, tags.entries@[i as int].1@));
        let part = format_tag_value(flat_key.as_str(), &tags.entries[i].1);
        proof {
            lemma_tag_set_concat(
                flat_members(prefix_model(prefix), tags@, i as nat),
                flat_value(flat_key@, tags@[i as int].1),
            );
        }
        glue(&mut text, part.as_str());
        i += 1;
    }
    text
}

/// The tag part of a line: own tags first, extra tags after them, all behind
/// one leading comma; nothing where no tag is written.
pub fn format_tags(tags: &Tags, extra_tags: &Tags) -> (text: String)
    ensures
        text@ == tags_text(tags@, extra_tags@),
{
    let mut list = format_map_iter(tags, None);
    let more = format_map_iter(extra_tags, None);
    proof {
        lemma_flat_members_concat(None, tags@, extra_tags@, extra_tags@.len());
        lemma_tag_set_concat(flat_tags(tags@), flat_tags(extra_tags@));
    }
    glue(&mut list, more.as_str());
    if list.as_str().is_empty() {
        list
    } else {
        let mut text = String::new();
        push_char(&mut text, ',');
        text.append(list.as_str());
        text
    }
}

/// The instant as a decimal count of units of `precision`.
pub fn format_datetime(dt: &Timestamp, precision: &Precision) -> (text: String)
    ensures
        text@ == decimal(timestamp_count(*dt, *precision)),
{
    let mut text = String::new();
    push_decimal(&mut text, dt.count(*precision));
    text
}

/// The line protocol's settings: the unit of the written timestamps and
/// the tags that every line gets behind its own.
#[derive(Debug, PartialEq, Eq)]
pub struct LineProtocol {
    /// Tags added to each measurement, behind its own.
    pub extra_tags: Tags,
    /// The unit of the written timestamps.
    pub precision: Precision,
}

impl LineProtocol {
    /// A line protocol with the given precision and extra tags; without
    /// extra tags where `extra_tags` is `None`.
    pub fn new(precision: Precision, extra_tags: Option<Tags>) -> (protocol: LineProtocol)
        ensures
            protocol.precision == precision,
            protocol.extra_tags@ == match extra_tags {
                Some(tags) => tags@,
                None => Seq::empty(),
            },
    {
        let extra_tags = match extra_tags {
            Some(tags) => tags,
            None => Tags::new(),
        };
        LineProtocol { precision, extra_tags }
    }
}

impl Default for LineProtocol {
    /// Nanoseconds, and no extra tags.
    fn default() -> (protocol: LineProtocol)
        ensures
            protocol.precision == Precision::Nanoseconds,
            protocol.extra_tags@ == Seq::<(Seq<char>, TagModel)>::empty(),
    {
        LineProtocol { precision: Precision::Nanoseconds, extra_tags: Tags::new() }
    }
}

impl ProtocolTrait for LineProtocol {
    open spec fn line_of(&self, measurement: MeasurementModel) -> Seq<char> {
        line_text(measurement, self.extra_tags@, self.precision)
    }

    /// Writes `measurement` as one line, without a line end.
    fn dump(&self, measurement: &Measurement) -> (line: String) {
        let stamp = format_datetime(&measurement.timestamp, &self.precision);
        match &measurement.point {
            Point::Timer { metric, value, tags } => {
                let mut line = metric.as_str().to_owned();
                let tag_part = format_tags(tags, &self.extra_tags);
                line.append(tag_part.as_str());
                line.append(" value=");
                line.append(value.as_str());
                push_char(&mut line, ' ');
                line.append(stamp.as_str());
                line
            },
            Point::Counter { metric, value, tags } => {
                let mut line = metric.as_str().to_owned();
                let tag_part = format_tags(tags, &self.extra_tags);
                line.append(tag_part.as_str());
                line.append(" value=");
                push_decimal(&mut line, *value as i128);
                push_char(&mut line, ' ');
                line.append(stamp.as_str());
                line
            },
        }
    }
}

} // verus!
