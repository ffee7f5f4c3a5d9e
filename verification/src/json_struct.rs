//! JSON texts that stand for records of fixed fields: an object that names each field once,
//! or an array of the fields in their order.

use vstd::prelude::*;
use vstd::string::*;

use crate::json;
use crate::json::{Json, JsonView};
use crate::json_read;
use crate::text::{chars_of, same_text, Text};

verus! {

/// What [`serde_json::from_str`] reads from a text as a map from names to raw values: the
/// entries by name, each with the text of its value; nothing where the text is no object. Of
/// an entry that is repeated it holds the last one.
pub uninterp spec fn fields_of_text(s: Seq<char>) -> Option<Seq<(Seq<char>, Seq<char>)>>;

/// What [`serde_json::from_str`] reads from a text as a list of raw values: the texts of the
/// items; nothing where the text is no array.
pub uninterp spec fn items_of_text(s: Seq<char>) -> Option<Seq<Seq<char>>>;

/// What [`serde_json::from_str`] reads from a text as a borrowed string; nothing where the
/// text is no JSON string, or one that holds escapes.
pub uninterp spec fn borrowed_text(s: Seq<char>) -> Option<Seq<char>>;

/// What pairs of texts hold.
pub open spec fn pairs_view(v: Seq<(String, String)>) -> Seq<(Text, Text)> {
    v.map_values(|p: (String, String)| (p.0@, p.1@))
}

/// What optional pairs of texts hold.
pub open spec fn opt_pairs(v: Option<Vec<(String, String)>>) -> Option<Seq<(Text, Text)>> {
    match v {
        Some(v) => Some(pairs_view(v@)),
        None => None,
    }
}

/// What an optional list of texts holds.
pub open spec fn opt_texts(v: Option<Vec<String>>) -> Option<Seq<Text>> {
    match v {
        Some(v) => Some(json::strings(v@)),
        None => None,
    }
}

/// [`serde_json::from_str`], asked for a map from names to raw values: what it reads depends
/// on the text alone.
#[verifier::external_body]
fn read_fields(s: &str) -> (r: Option<Vec<(String, String)>>)
    ensures
        opt_pairs(r) == fields_of_text(s@),
{
    serde_json::from_str::<std::collections::BTreeMap<String, &serde_json::value::RawValue>>(s)
        .ok()
        .map(|fields| fields.into_iter().map(|(k, v)| (k, v.get().to_owned())).collect())
}

/// [`serde_json::from_str`], asked for a list of raw values: what it reads depends on the text
/// alone.
#[verifier::external_body]
fn read_items(s: &str) -> (r: Option<Vec<String>>)
    ensures
        opt_texts(r) == items_of_text(s@),
{
    serde_json::from_str::<Vec<&serde_json::value::RawValue>>(s)
        .ok()
        .map(|items| items.into_iter().map(|v| v.get().to_owned()).collect())
}

/// [`serde_json::from_str`], asked for a borrowed string: what it reads depends on the text
/// alone.
#[verifier::external_body]
pub(crate) fn read_borrowed(s: &str) -> (r: Option<String>)
    ensures
        json::opt_string(r) == borrowed_text(s@),
{
    serde_json::from_str::<&str>(s).ok().map(|t| t.to_owned())
}

// The names in an object

/// How far the text of an object was looked through: how many brackets are open, whether a
/// string is, whether its next character is escaped, the last string, and the names that were
/// found.
pub struct ScanView {
    pub depth: int,
    pub quoted: bool,
    pub escaped: bool,
    pub literal: Text,
    pub names: Seq<Text>,
}

/// One more character. A name is the string before a colon inside the outermost brackets.
pub open spec fn scan_char(s: ScanView, c: char) -> ScanView {
    if s.quoted {
        ScanView {
            quoted: s.escaped || c != '"',
            escaped: !s.escaped && c == '\\',
            literal: s.literal.push(c),
            ..s
        }
    } else if c == '"' {
        ScanView { quoted: true, escaped: false, literal: seq![c], ..s }
    } else if c == '{' || c == '[' {
        ScanView { depth: s.depth + 1, ..s }
    } else if c == '}' || c == ']' {
        ScanView { depth: s.depth - 1, ..s }
    } else if c == ':' && s.depth == 1 {
        ScanView { names: s.names.push(s.literal), ..s }
    } else {
        s
    }
}

/// A text that was looked through.
pub open spec fn scanned(s: Text) -> ScanView
    decreases s.len(),
{
    if s.len() == 0 {
        ScanView { depth: 0, quoted: false, escaped: false, literal: seq![], names: seq![] }
    } else {
        scan_char(scanned(s.drop_last()), s.last())
    }
}

/// The strings among some JSON texts.
pub open spec fn decoded(literals: Seq<Text>) -> Seq<Text>
    decreases literals.len(),
{
    if literals.len() == 0 {
        seq![]
    } else {
        match json_read::value_of_text(literals.last()) {
            Ok(JsonView::Str(name)) => decoded(literals.drop_last()).push(name),
            _ => decoded(literals.drop_last()),
        }
    }
}

/// The names that the text of an object writes, in their order, repeated ones included.
pub open spec fn names_written(s: Text) -> Seq<Text> {
    decoded(scanned(s).names)
}

/// The names in the text of an object as they are written, in quotes and with their escapes.
pub fn name_literals(s: &str) -> (literals: Vec<String>)
    ensures
        json::strings(literals@) == scanned(s@).names,
{
    let chars: Vec<char> = chars_of(s);
    let mut depth: i128 = 0;
    let mut quoted: bool = false;
    let mut escaped: bool = false;
    let mut literal: String = String::new();
    let mut names: Vec<String> = Vec::new();
    let mut i: usize = 0;
    assert(chars@.take(0) =~= seq![]);
    assert(json::strings(names@) =~= seq![]);
    assert(literal@ =~= seq![]);
    while i < chars.len()
        invariant
            i <= chars@.len(),
            -(i as int) <= depth <= i,
            scanned(chars@.take(i as int)) == (ScanView {
                depth: depth as int,
                quoted,
                escaped,
                literal: literal@,
                names: json::strings(names@),
            }),
        decreases chars@.len() - i,
    {
        let c: char = chars[i];
        let ghost found = json::strings(names@);
        proof {
            assert(chars@.take(i + 1).drop_last() =~= chars@.take(i as int));
            assert(chars@.take(i + 1).last() == c);
        }
        if quoted {
            quoted = escaped || c != '"';
            escaped = !escaped && c == '\\';
            literal.push(c);
        } else if c == '"' {
            quoted = true;
            escaped = false;
            literal = String::new();
            literal.push(c);
            assert(literal@ =~= seq![c]);
        } else if c == '{' || c == '[' {
            depth = depth + 1;
        } else if c == '}' || c == ']' {
            depth = depth - 1;
        } else if c == ':' && depth == 1 {
            names.push(literal.clone());
            assert(json::strings(names@) =~= found.push(literal@));
        }
        i = i + 1;
    }
    assert(chars@.take(chars@.len() as int) =~= chars@);
    names
}

/// The names that the text of an object writes, in their order, repeated ones included.
pub fn written_names(s: &str) -> (names: Vec<String>)
    ensures
        json::strings(names@) == names_written(s@),
{
    let literals: Vec<String> = name_literals(s);
    let ghost all = json::strings(literals@);
    let mut names: Vec<String> = Vec::new();
    let mut i: usize = 0;
    assert(all.take(0) =~= seq![]);
    assert(json::strings(names@) =~= seq![]);
    while i < literals.len()
        invariant
            i <= literals@.len(),
            all == json::strings(literals@),
            json::strings(names@) == decoded(all.take(i as int)),
        decreases literals@.len() - i,
    {
        let ghost before = json::strings(names@);
        proof {
            assert(all.take(i + 1).drop_last() =~= all.take(i as int));
            assert(all.take(i + 1).last() == literals@[i as int]@);
        }
        match Json::parse(literals[i].as_str()) {
            Ok(Json::Str(name)) => {
                names.push(name);
                assert(json::strings(names@) =~= before.push(name@));
            },
            _ => {},
        }
        i = i + 1;
    }
    assert(all.take(all.len() as int) =~= all);
    names
}

// The fields of a record

/// How often a name occurs.
pub open spec fn times(names: Seq<Text>, name: Text) -> nat
    decreases names.len(),
{
    if names.len() == 0 {
        0
    } else {
        times(names.drop_last(), name) + if names.last() == name { 1nat } else { 0nat }
    }
}

/// The text of the value under a name.
pub open spec fn raw_under(fields: Seq<(Text, Text)>, name: Text) -> Option<Text>
    decreases fields.len(),
{
    if fields.len() == 0 {
        None
    } else if fields.last().0 == name {
        Some(fields.last().1)
    } else {
        raw_under(fields.drop_last(), name)
    }
}

/// The texts of the values of an object under some names; nothing where one of them is
/// missing or written more than once. Other names do not matter.
pub open spec fn object_slots(
    fields: Seq<(Text, Text)>,
    written: Seq<Text>,
    names: Seq<Text>,
) -> Option<Seq<Text>>
    decreases names.len(),
{
    if names.len() == 0 {
        Some(seq![])
    } else {
        match (
            object_slots(fields, written, names.drop_last()),
            raw_under(fields, names.last()),
        ) {
            (Some(before), Some(raw)) => if times(written, names.last()) == 1 {
                Some(before.push(raw))
            } else {
                None
            },
            _ => None,
        }
    }
}

/// The texts of the fields of a record: those of an object under their names, or the items of
/// an array that has just as many.
pub open spec fn record_slots(s: Text, names: Seq<Text>) -> Option<Seq<Text>> {
    match fields_of_text(s) {
        Some(fields) => object_slots(fields, names_written(s), names),
        None => match items_of_text(s) {
            Some(items) => if items.len() == names.len() { Some(items) } else { None },
            None => None,
        },
    }
}

/// What a list of names holds.
pub open spec fn names_view(names: Seq<&'static str>) -> Seq<Text> {
    names.map_values(|n: &'static str| n@)
}

fn written_once(written: &Vec<String>, name: &str) -> (once: bool)
    ensures
        once == (times(json::strings(written@), name@) == 1),
{
    let ghost all = json::strings(written@);
    let mut n: usize = 0;
    let mut i: usize = 0;
    assert(all.take(0) =~= seq![]);
    while i < written.len()
        invariant
            i <= written@.len(),
            n <= i,
            all == json::strings(written@),
            n == times(all.take(i as int), name@),
        decreases written@.len() - i,
    {
        proof {
            assert(all.take(i + 1).drop_last() =~= all.take(i as int));
            assert(all.take(i + 1).last() == written@[i as int]@);
        }
        if same_text(written[i].as_str(), name) {
            n = n + 1;
        }
        i = i + 1;
    }
    assert(all.take(all.len() as int) =~= all);
    n == 1
}

fn find_raw(fields: &Vec<(String, String)>, name: &str) -> (raw: Option<String>)
    ensures
        json::opt_string(raw) == raw_under(pairs_view(fields@), name@),
{
    let ghost all = pairs_view(fields@);
    let mut i: usize = fields.len();
    assert(all.take(all.len() as int) =~= all);
    while i > 0
        invariant
            i <= fields@.len(),
            all == pairs_view(fields@),
            raw_under(all, name@) == raw_under(all.take(i as int), name@),
        decreases i,
    {
        i = i - 1;
        proof {
            assert(all.take(i + 1).drop_last() =~= all.take(i as int));
            assert(all.take(i + 1).last() == (fields@[i as int].0@, fields@[i as int].1@));
        }
        if same_text(fields[i].0.as_str(), name) {
            return Some(fields[i].1.clone());
        }
    }
    None
}

/// The texts of the values of an object under some names, from its entries and from the names
/// that it writes.
pub fn pick_slots(
    fields: &Vec<(String, String)>,
    written: &Vec<String>,
    names: &Vec<&'static str>,
) -> (slots: Option<Vec<String>>)
    ensures
        opt_texts(slots) == object_slots(
            pairs_view(fields@),
            json::strings(written@),
            names_view(names@),
        ),
{
    let ghost f = pairs_view(fields@);
    let ghost w = json::strings(written@);
    let ghost all = names_view(names@);
    let mut slots: Vec<String> = Vec::new();
    let mut i: usize = 0;
    assert(all.take(0) =~= seq![]);
    assert(json::strings(slots@) =~= seq![]);
    while i < names.len()
        invariant
            i <= names@.len(),
            f == pairs_view(fields@),
            w == json::strings(written@),
            all == names_view(names@),
            object_slots(f, w, all.take(i as int)) == Some(json::strings(slots@)),
        decreases names@.len() - i,
    {
        let ghost before = json::strings(slots@);
        proof {
            assert(all.take(i + 1).drop_last() =~= all.take(i as int));
            assert(all.take(i + 1).last() == names@[i as int]@);
        }
        let raw: Option<String> = if written_once(written, names[i]) {
            find_raw(fields, names[i])
        } else {
            None
        };
        match raw {
            Some(raw) => {
                slots.push(raw);
                assert(json::strings(slots@) =~= before.push(raw@));
            },
            None => {
                proof {
                    assert(object_slots(f, w, all.take(i + 1)) is None);
                    lemma_no_slots_grow(f, w, all, i + 1);
                }
                return None;
            },
        }
        i = i + 1;
    }
    assert(all.take(all.len() as int) =~= all);
    Some(slots)
}

proof fn lemma_no_slots_grow(
    fields: Seq<(Text, Text)>,
    written: Seq<Text>,
    names: Seq<Text>,
    i: int,
)
    requires
        0 <= i <= names.len(),
        object_slots(fields, written, names.take(i)) is None,
    ensures
        object_slots(fields, written, names) is None,
    decreases names.len() - i,
{
    if i < names.len() {
        assert(names.take(i + 1).drop_last() =~= names.take(i));
        lemma_no_slots_grow(fields, written, names, i + 1);
    } else {
        assert(names.take(i) =~= names);
    }
}

/// Reads the texts of the fields of a record.
pub fn read_record(s: &str, names: &Vec<&'static str>) -> (slots: Option<Vec<String>>)
    ensures
        opt_texts(slots) == record_slots(s@, names_view(names@)),
{
    match read_fields(s) {
        Some(fields) => pick_slots(&fields, &written_names(s), names),
        None => match read_items(s) {
            Some(items) => if items.len() == names.len() {
                Some(items)
            } else {
                None
            },
            None => None,
        },
    }
}

/// The values that some texts stand for; nothing where one of them is no JSON.
pub open spec fn values_of(texts: Seq<Text>) -> Option<Seq<JsonView>>
    decreases texts.len(),
{
    if texts.len() == 0 {
        Some(seq![])
    } else {
        match (values_of(texts.drop_last()), json_read::value_of_text(texts.last())) {
            (Some(before), Ok(v)) => Some(before.push(v)),
            _ => None,
        }
    }
}

/// What an optional list of values holds.
pub open spec fn opt_values(v: Option<Vec<Json>>) -> Option<Seq<JsonView>> {
    match v {
        Some(v) => Some(json::items_view(v@)),
        None => None,
    }
}

proof fn lemma_no_values_grow(texts: Seq<Text>, i: int)
    requires
        0 <= i <= texts.len(),
        values_of(texts.take(i)) is None,
    ensures
        values_of(texts) is None,
    decreases texts.len() - i,
{
    if i < texts.len() {
        assert(texts.take(i + 1).drop_last() =~= texts.take(i));
        lemma_no_values_grow(texts, i + 1);
    } else {
        assert(texts.take(i) =~= texts);
    }
}

/// Reads the values that some texts stand for.
pub fn read_values(texts: &Vec<String>) -> (values: Option<Vec<Json>>)
    ensures
        opt_values(values) == values_of(json::strings(texts@)),
{
    let ghost all = json::strings(texts@);
    let mut values: Vec<Json> = Vec::new();
    let mut i: usize = 0;
    assert(all.take(0) =~= seq![]);
    assert(json::items_view(values@) =~= seq![]);
    while i < texts.len()
        invariant
            i <= texts@.len(),
            all == json::strings(texts@),
            values_of(all.take(i as int)) == Some(json::items_view(values@)),
        decreases texts@.len() - i,
    {
        let ghost before = json::items_view(values@);
        proof {
            assert(all.take(i + 1).drop_last() =~= all.take(i as int));
            assert(all.take(i + 1).last() == texts@[i as int]@);
        }
        match Json::parse(texts[i].as_str()) {
            Ok(v) => {
                values.push(v);
                assert(json::items_view(values@) =~= before.push(v@));
            },
            Err(_) => {
                proof {
                    assert(values_of(all.take(i + 1)) is None);
                    lemma_no_values_grow(all, i + 1);
                }
                return None;
            },
        }
        i = i + 1;
    }
    assert(all.take(all.len() as int) =~= all);
    Some(values)
}

// Laws

/// A record is read from an object only where each of its names is written exactly once.
pub proof fn repeated_names_are_refused(
    fields: Seq<(Text, Text)>,
    written: Seq<Text>,
    names: Seq<Text>,
    i: int,
)
    requires
        0 <= i < names.len(),
        object_slots(fields, written, names) is Some,
    ensures
        times(written, names[i]) == 1,
        object_slots(fields, written, names)->0.len() == names.len(),
        Some(object_slots(fields, written, names)->0[i]) == raw_under(fields, names[i]),
    decreases names.len(),
{
    lemma_slots_len(fields, written, names);
    lemma_slots_len(fields, written, names.drop_last());
    if i < names.len() - 1 {
        repeated_names_are_refused(fields, written, names.drop_last(), i);
    }
}

/// A record that is read has one text for each of its fields.
pub proof fn records_are_complete(s: Text, names: Seq<Text>)
    ensures
        record_slots(s, names) matches Some(slots) ==> slots.len() == names.len(),
{
    if fields_of_text(s) is Some && record_slots(s, names) is Some {
        lemma_slots_len(fields_of_text(s)->0, names_written(s), names);
    }
}

proof fn lemma_slots_len(fields: Seq<(Text, Text)>, written: Seq<Text>, names: Seq<Text>)
    requires
        object_slots(fields, written, names) is Some,
    ensures
        object_slots(fields, written, names)->0.len() == names.len(),
    decreases names.len(),
{
    if names.len() > 0 {
        lemma_slots_len(fields, written, names.drop_last());
    }
}

/// A record is read from an object in which each of its names is written once and stands for a
/// value, and each of its places holds the text of the value under its name.
pub proof fn records_are_read_by_name(
    fields: Seq<(Text, Text)>,
    written: Seq<Text>,
    names: Seq<Text>,
    texts: Seq<Text>,
)
    requires
        names.len() == texts.len(),
        forall|i: int|
            0 <= i < names.len() ==> times(written, #[trigger] names[i]) == 1 && raw_under(
                fields,
                names[i],
            ) == Some(texts[i]),
    ensures
        object_slots(fields, written, names) == Some(texts),
    decreases names.len(),
{
    if names.len() == 0 {
        assert(texts =~= seq![]);
    } else {
        let n = names.len() - 1;
        assert(names[n] == names.last());
        assert forall|i: int| 0 <= i < n implies times(written, #[trigger] names.drop_last()[i]) == 1
            && raw_under(fields, names.drop_last()[i]) == Some(texts.drop_last()[i]) by {
            assert(names[i] == names.drop_last()[i]);
        }
        records_are_read_by_name(fields, written, names.drop_last(), texts.drop_last());
        assert(texts =~= texts.drop_last().push(texts[n]));
    }
}

/// The text under a name is that of the field with the name, where only one has it.
pub proof fn texts_stand_under_their_names(fields: Seq<(Text, Text)>, i: int)
    requires
        0 <= i < fields.len(),
        forall|k: int| i < k < fields.len() ==> (#[trigger] fields[k]).0 != fields[i].0,
    ensures
        raw_under(fields, fields[i].0) == Some(fields[i].1),
    decreases fields.len(),
{
    let n = fields.len() - 1;
    assert(fields[n] == fields.last());
    if i < n {
        let fewer = fields.drop_last();
        assert forall|k: int| i < k < fewer.len() implies (#[trigger] fewer[k]).0 != fewer[i].0 by {
            assert(fewer[k] == fields[k]);
        }
        assert(fields[n].0 != fields[i].0);
        texts_stand_under_their_names(fewer, i);
    }
}

/// Every text that is JSON stands for its value, at its place.
pub proof fn values_stay_in_place(texts: Seq<Text>, values: Seq<JsonView>)
    requires
        texts.len() == values.len(),
        forall|i: int|
            0 <= i < texts.len() ==> json_read::value_of_text(#[trigger] texts[i]) == Ok::<
                JsonView,
                Text,
            >(values[i]),
    ensures
        values_of(texts) == Some(values),
    decreases texts.len(),
{
    if texts.len() == 0 {
        assert(values =~= seq![]);
    } else {
        let n = texts.len() - 1;
        assert(texts[n] == texts.last());
        assert forall|i: int| 0 <= i < n implies json_read::value_of_text(
            #[trigger] texts.drop_last()[i],
        ) == Ok::<JsonView, Text>(values.drop_last()[i]) by {
            assert(texts[i] == texts.drop_last()[i]);
        }
        values_stay_in_place(texts.drop_last(), values.drop_last());
        assert(values =~= values.drop_last().push(values[n]));
    }
}

/// What pairs hold are their first and their second texts.
pub proof fn pairs_hold_both_texts(v: Seq<(String, String)>, i: int)
    requires
        0 <= i < v.len(),
    ensures
        pairs_view(v).len() == v.len(),
        pairs_view(v)[i].0 == v[i].0@,
        pairs_view(v)[i].1 == v[i].1@,
{
}

proof fn lemma_scanned_push(s: Text, c: char)
    ensures
        scanned(s.push(c)) == scan_char(scanned(s), c),
{
    assert(s.push(c).drop_last() =~= s);
}

proof fn lemma_scanned_name(s: Text, name: Text)
    requires
        scanned(s).quoted && !scanned(s).escaped,
        forall|k: int| 0 <= k < name.len() ==> #[trigger] name[k] != '"' && name[k] != '\\',
    ensures
        scanned(s + name) == (ScanView { literal: scanned(s).literal + name, ..scanned(s) }),
    decreases name.len(),
{
    if name.len() == 0 {
        assert(s + name =~= s);
        assert(scanned(s).literal + name =~= scanned(s).literal);
    } else {
        let n = name.len() - 1;
        assert(name[n] == name.last());
        assert forall|k: int| 0 <= k < n implies #[trigger] name.drop_last()[k] != '"'
            && name.drop_last()[k] != '\\' by {
            assert(name[k] == name.drop_last()[k]);
        }
        lemma_scanned_name(s, name.drop_last());
        assert(s + name =~= (s + name.drop_last()).push(name.last()));
        lemma_scanned_push(s + name.drop_last(), name.last());
        assert((scanned(s).literal + name.drop_last()).push(name.last()) =~= scanned(s).literal + name);
    }
}

/// A text in quotes with a colon behind it is a name of the object that it stands in, and of no
/// object further inside.
pub proof fn names_stand_before_colons(s: Text, name: Text)
    requires
        !scanned(s).quoted,
        forall|k: int| 0 <= k < name.len() ==> #[trigger] name[k] != '"' && name[k] != '\\',
    ensures
        ({
            let t = s + seq!['"'] + name + seq!['"'] + seq![':'];
            &&& !scanned(t).quoted && scanned(t).depth == scanned(s).depth
            &&& scanned(s).depth == 1 ==> scanned(t).names == scanned(s).names.push(
                seq!['"'] + name + seq!['"'],
            )
            &&& scanned(s).depth != 1 ==> scanned(t).names == scanned(s).names
        }),
{
    let open = s.push('"');
    assert(s + seq!['"'] =~= open);
    lemma_scanned_push(s, '"');
    lemma_scanned_name(open, name);
    let inside = open + name;
    let closed = inside.push('"');
    assert(inside + seq!['"'] =~= closed);
    lemma_scanned_push(inside, '"');
    let t = closed.push(':');
    assert(closed + seq![':'] =~= t);
    lemma_scanned_push(closed, ':');
    assert((seq!['"'] + name).push('"') =~= seq!['"'] + name + seq!['"']);
}

/// An object begins without names, and each brace or bracket opens or closes one of its parts.
pub proof fn parts_open_and_close(s: Text)
    ensures
        scanned(seq!['{']).depth == 1 && !scanned(seq!['{']).quoted && scanned(seq!['{']).names.len()
            == 0,
        !scanned(s).quoted ==> scanned(s.push('{')).depth == scanned(s).depth + 1
            && scanned(s.push('[')).depth == scanned(s).depth + 1 && scanned(s.push('}')).depth
            == scanned(s).depth - 1 && scanned(s.push(']')).depth == scanned(s).depth - 1,
{
    assert(seq!['{'].drop_last() =~= seq![]);
    assert(scanned(seq!['{'].drop_last()).depth == 0);
    lemma_scanned_push(s, '{');
    lemma_scanned_push(s, '[');
    lemma_scanned_push(s, '}');
    lemma_scanned_push(s, ']');
}

/// The names of an object are those of its quoted texts that are JSON strings, in their order.
pub proof fn names_are_decoded_in_order(literals: Seq<Text>, literal: Text, name: Text)
    ensures
        decoded(Seq::empty()) == Seq::<Text>::empty(),
        json_read::value_of_text(literal) == Ok::<JsonView, Text>(JsonView::Str(name)) ==> decoded(
            literals.push(literal),
        ) == decoded(literals).push(name),
{
    assert(literals.push(literal).drop_last() =~= literals);
}

} // verus!
