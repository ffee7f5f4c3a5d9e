//! JSON values, their fields and their text.

use vstd::prelude::*;
use vstd::string::*;

use crate::float;
use crate::float::finite;
use crate::text;
use crate::text::{is_before, push_i64, push_u64, same_text, Text};

verus! {

/// [`String::push`] appends one character.
pub assume_specification[ std::string::String::push ](s: &mut std::string::String, c: char)
    ensures
        final(s)@ == old(s)@.push(c),
;

/// A JSON number: a whole number, or a fraction with the bits of its IEEE 754 form
/// and its text.
pub enum JsonNumber {
    PosInt(u64),
    NegInt(i64),
    Float { bits: u64, text: String },
}

/// A JSON value. The fields of an object stand in the order in which they are
/// written; values that were read from text hold them sorted by key.
pub enum Json {
    Null,
    Bool(bool),
    Number(JsonNumber),
    Str(String),
    Array(Vec<Json>),
    Object(Vec<(String, Json)>),
}

/// What a JSON number holds.
pub enum NumberView {
    PosInt(u64),
    NegInt(i64),
    Float { bits: u64, text: Text },
}

/// What a JSON value holds.
pub enum JsonView {
    Null,
    Bool(bool),
    Number(NumberView),
    Str(Text),
    Array(Seq<JsonView>),
    Object(Seq<(Text, JsonView)>),
}

impl View for JsonNumber {
    type V = NumberView;

    open spec fn view(&self) -> NumberView {
        match self {
            JsonNumber::PosInt(n) => NumberView::PosInt(*n),
            JsonNumber::NegInt(n) => NumberView::NegInt(*n),
            JsonNumber::Float { bits, text } => NumberView::Float { bits: *bits, text: text@ },
        }
    }
}

impl View for Json {
    type V = JsonView;

    open spec fn view(&self) -> JsonView
        decreases self,
    {
        match self {
            Json::Null => JsonView::Null,
            Json::Bool(b) => JsonView::Bool(*b),
            Json::Number(n) => JsonView::Number(n@),
            Json::Str(s) => JsonView::Str(s@),
            Json::Array(items) => JsonView::Array(items_view(items@)),
            Json::Object(fields) => JsonView::Object(fields_view(fields@)),
        }
    }
}

/// What the items of an array hold.
pub open spec fn items_view(items: Seq<Json>) -> Seq<JsonView>
    decreases items,
{
    Seq::new(
        items.len(),
        |i: int|
            if 0 <= i < items.len() {
                items[i]@
            } else {
                JsonView::Null
            },
    )
}

/// What the fields of an object hold.
pub open spec fn fields_view(fields: Seq<(String, Json)>) -> Seq<(Text, JsonView)>
    decreases fields,
{
    Seq::new(
        fields.len(),
        |i: int|
            if 0 <= i < fields.len() {
                (fields[i].0@, fields[i].1@)
            } else {
                (Seq::<char>::empty(), JsonView::Null)
            },
    )
}

// Reading

/// The value of the first field called `key`.
pub open spec fn lookup(fields: Seq<(Text, JsonView)>, key: Text) -> Option<JsonView>
    decreases fields.len(),
{
    if fields.len() == 0 {
        None
    } else if fields[0].0 == key {
        Some(fields[0].1)
    } else {
        lookup(fields.drop_first(), key)
    }
}

/// The field `key` of `j`, where `j` is an object that has it.
pub open spec fn get(j: JsonView, key: Text) -> Option<JsonView> {
    match j {
        JsonView::Object(fields) => lookup(fields, key),
        _ => None,
    }
}

/// The field `key` of `j`, or null.
pub open spec fn field(j: JsonView, key: Text) -> JsonView {
    match get(j, key) {
        Some(v) => v,
        None => JsonView::Null,
    }
}

/// The text that `j` holds, where it is a string.
pub open spec fn str_of(j: JsonView) -> Option<Text> {
    match j {
        JsonView::Str(s) => Some(s),
        _ => None,
    }
}

/// The truth value that `j` holds.
pub open spec fn bool_of(j: JsonView) -> Option<bool> {
    match j {
        JsonView::Bool(b) => Some(b),
        _ => None,
    }
}

/// The whole number that `j` holds, where it fits in 64 bits with a sign.
pub open spec fn i64_of(j: JsonView) -> Option<i64> {
    match j {
        JsonView::Number(NumberView::PosInt(n)) => if n <= i64::MAX { Some(n as i64) } else { None },
        JsonView::Number(NumberView::NegInt(n)) => Some(n),
        _ => None,
    }
}

/// The items of `j`, where it is an array.
pub open spec fn items_of(j: JsonView) -> Option<Seq<JsonView>> {
    match j {
        JsonView::Array(items) => Some(items),
        _ => None,
    }
}

/// A value that counts as present: not null, false, zero or empty.
pub open spec fn truthy(j: JsonView) -> bool {
    match j {
        JsonView::Null => false,
        JsonView::Bool(b) => b,
        JsonView::Number(NumberView::PosInt(n)) => n != 0,
        JsonView::Number(NumberView::NegInt(n)) => n != 0,
        JsonView::Number(NumberView::Float { bits, text }) => bits != 0 && bits
            != 0x8000_0000_0000_0000,
        JsonView::Str(s) => s.len() > 0,
        JsonView::Array(items) => items.len() > 0,
        JsonView::Object(fields) => fields.len() > 0,
    }
}

/// The characters of optional text.
pub open spec fn opt_text(o: Option<&str>) -> Option<Text> {
    match o {
        Some(s) => Some(s@),
        None => None,
    }
}

/// What an optional value holds.
pub open spec fn opt_json(o: Option<&Json>) -> Option<JsonView> {
    match o {
        Some(j) => Some(j@),
        None => None,
    }
}

proof fn lemma_lookup_skips(fields: Seq<(Text, JsonView)>, key: Text, i: int)
    requires
        0 <= i <= fields.len(),
        forall|k: int| 0 <= k < i ==> fields[k].0 != key,
    ensures
        lookup(fields, key) == lookup(fields.skip(i), key),
    decreases i,
{
    if i == 0 {
        assert(fields.skip(0) =~= fields);
    } else {
        lemma_lookup_skips(fields, key, i - 1);
        let rest = fields.skip(i - 1);
        assert(rest.drop_first() =~= fields.skip(i));
        assert(rest[0] == fields[i - 1]);
    }
}

impl Json {
    /// The field `key`, where this is an object that has it.
    pub fn get(&self, key: &str) -> (value: Option<&Json>)
        ensures
            opt_json(value) == get(self@, key@),
    {
        match self {
            Json::Object(fields) => {
                let ghost seen = fields_view(fields@);
                let mut i: usize = 0;
                while i < fields.len()
                    invariant
                        i <= fields.len(),
                        seen == fields_view(fields@),
                        self@ == JsonView::Object(seen),
                        forall|k: int| 0 <= k < i ==> seen[k].0 != key@,
                    decreases fields.len() - i,
                {
                    if same_text(fields[i].0.as_str(), key) {
                        proof {
                            lemma_lookup_skips(seen, key@, i as int);
                            assert(seen.skip(i as int)[0] == seen[i as int]);
                        }
                        return Some(&fields[i].1);
                    }
                    i = i + 1;
                }
                proof {
                    lemma_lookup_skips(seen, key@, seen.len() as int);
                }
                None
            },
            _ => None,
        }
    }

    /// The text that this value holds, where it is a string.
    pub fn as_str(&self) -> (s: Option<&str>)
        ensures
            opt_text(s) == str_of(self@),
    {
        match self {
            Json::Str(s) => Some(s.as_str()),
            _ => None,
        }
    }

    /// The truth value that this value holds.
    pub fn as_bool(&self) -> (b: Option<bool>)
        ensures
            b == bool_of(self@),
    {
        match self {
            Json::Bool(b) => Some(*b),
            _ => None,
        }
    }

    /// The whole number that this value holds, where it fits.
    pub fn as_i64(&self) -> (n: Option<i64>)
        ensures
            n == i64_of(self@),
    {
        match self {
            Json::Number(JsonNumber::PosInt(n)) => if *n <= 0x7fff_ffff_ffff_ffff {
                Some(*n as i64)
            } else {
                None
            },
            Json::Number(JsonNumber::NegInt(n)) => Some(*n),
            _ => None,
        }
    }

    /// The items of this value, where it is an array.
    pub fn as_array(&self) -> (items: Option<&Vec<Json>>)
        ensures
            match items {
                Some(items) => items_of(self@) == Some(items_view(items@)),
                None => items_of(self@) is None,
            },
    {
        match self {
            Json::Array(items) => Some(items),
            _ => None,
        }
    }

    /// The text of the field `key`.
    pub fn str_field(&self, key: &str) -> (s: Option<&str>)
        ensures
            opt_text(s) == str_of(field(self@, key@)),
    {
        match self.get(key) {
            Some(v) => v.as_str(),
            None => None,
        }
    }

    /// The whole number in the field `key`.
    pub fn i64_field(&self, key: &str) -> (n: Option<i64>)
        ensures
            n == i64_of(field(self@, key@)),
    {
        match self.get(key) {
            Some(v) => v.as_i64(),
            None => None,
        }
    }

    /// The truth value in the field `key`.
    pub fn bool_field(&self, key: &str) -> (b: Option<bool>)
        ensures
            b == bool_of(field(self@, key@)),
    {
        match self.get(key) {
            Some(v) => v.as_bool(),
            None => None,
        }
    }

    /// The items of the array in the field `key`.
    pub fn array_field(&self, key: &str) -> (items: Option<&Vec<Json>>)
        ensures
            match items {
                Some(items) => items_of(field(self@, key@)) == Some(items_view(items@)),
                None => items_of(field(self@, key@)) is None,
            },
    {
        match self.get(key) {
            Some(v) => v.as_array(),
            None => None,
        }
    }

    /// Whether this value counts as present.
    pub fn is_truthy(&self) -> (b: bool)
        ensures
            b == truthy(self@),
    {
        match self {
            Json::Null => false,
            Json::Bool(b) => *b,
            Json::Number(JsonNumber::PosInt(n)) => *n != 0,
            Json::Number(JsonNumber::NegInt(n)) => *n != 0,
            Json::Number(JsonNumber::Float { bits, text: _ }) => *bits != 0 && *bits
                != 0x8000_0000_0000_0000,
            Json::Str(s) => !s.as_str().is_empty(),
            Json::Array(items) => {
                assert(items_view(items@).len() == items@.len());
                items.len() > 0
            },
            Json::Object(fields) => {
                assert(fields_view(fields@).len() == fields@.len());
                fields.len() > 0
            },
        }
    }
}

// Writing

/// A hexadecimal digit.
pub open spec fn hex_char(d: int) -> char {
    if d < 10 {
        text::digit_char(d)
    } else if d == 10 { 'a' }
    else if d == 11 { 'b' }
    else if d == 12 { 'c' }
    else if d == 13 { 'd' }
    else if d == 14 { 'e' }
    else { 'f' }
}

/// A character as it stands inside quotation marks.
pub open spec fn escaped_char(c: char) -> Text {
    if c == '"' {
        seq!['\\', '"']
    } else if c == '\\' {
        seq!['\\', '\\']
    } else if c == '\n' {
        seq!['\\', 'n']
    } else if c == '\r' {
        seq!['\\', 'r']
    } else if c == '\t' {
        seq!['\\', 't']
    } else if c as int == 8 {
        seq!['\\', 'b']
    } else if c as int == 12 {
        seq!['\\', 'f']
    } else if (c as int) < 32 {
        seq!['\\', 'u', '0', '0', hex_char(c as int / 16), hex_char(c as int % 16)]
    } else {
        seq![c]
    }
}

/// Text as it stands inside quotation marks.
pub open spec fn escaped(s: Text) -> Text
    decreases s.len(),
{
    if s.len() == 0 {
        s
    } else {
        escaped(s.drop_last()) + escaped_char(s.last())
    }
}

/// Text between quotation marks.
pub open spec fn quoted(s: Text) -> Text {
    seq!['"'] + escaped(s) + seq!['"']
}

/// The text of a number.
pub open spec fn number_text(n: NumberView) -> Text {
    match n {
        NumberView::PosInt(n) => text::nat_text(n as nat),
        NumberView::NegInt(n) => text::int_text(n as int),
        NumberView::Float { bits, text } => text,
    }
}

/// The text of a value, without white space.
pub open spec fn json_text(j: JsonView) -> Text
    decreases j,
{
    match j {
        JsonView::Null => "null"@,
        JsonView::Bool(b) => if b { "true"@ } else { "false"@ },
        JsonView::Number(n) => number_text(n),
        JsonView::Str(s) => quoted(s),
        JsonView::Array(items) => seq!['['] + items_text(items) + seq![']'],
        JsonView::Object(fields) => seq!['{'] + fields_text(fields) + seq!['}'],
    }
}

/// The text of items, with commas between them.
pub open spec fn items_text(items: Seq<JsonView>) -> Text
    decreases items,
{
    if items.len() == 0 {
        seq![]
    } else if items.len() == 1 {
        json_text(items[0])
    } else {
        items_text(items.drop_last()) + seq![','] + json_text(items.last())
    }
}

/// The text of fields, with commas between them.
pub open spec fn fields_text(fields: Seq<(Text, JsonView)>) -> Text
    decreases fields,
{
    if fields.len() == 0 {
        seq![]
    } else if fields.len() == 1 {
        quoted(fields[0].0) + seq![':'] + json_text(fields[0].1)
    } else {
        fields_text(fields.drop_last()) + seq![','] + quoted(fields.last().0) + seq![':']
            + json_text(fields.last().1)
    }
}

fn push_hex(out: &mut String, d: u32)
    requires
        d < 16,
    ensures
        final(out)@ == old(out)@.push(hex_char(d as int)),
{
    let c: char = match d {
        0 => '0',
        1 => '1',
        2 => '2',
        3 => '3',
        4 => '4',
        5 => '5',
        6 => '6',
        7 => '7',
        8 => '8',
        9 => '9',
        10 => 'a',
        11 => 'b',
        12 => 'c',
        13 => 'd',
        14 => 'e',
        _ => 'f',
    };
    out.push(c);
}

fn push_escaped_char(out: &mut String, c: char)
    ensures
        final(out)@ == old(out)@ + escaped_char(c),
{
    let code: u32 = c as u32;
    if c == '"' || c == '\\' {
        out.push('\\');
        out.push(c);
    } else if c == '\n' {
        out.push('\\');
        out.push('n');
    } else if c == '\r' {
        out.push('\\');
        out.push('r');
    } else if c == '\t' {
        out.push('\\');
        out.push('t');
    } else if code == 8 {
        out.push('\\');
        out.push('b');
    } else if code == 12 {
        out.push('\\');
        out.push('f');
    } else if code < 32 {
        out.push('\\');
        out.push('u');
        out.push('0');
        out.push('0');
        push_hex(out, code / 16);
        push_hex(out, code % 16);
    } else {
        out.push(c);
    }
    assert(out@ =~= old(out)@ + escaped_char(c));
}

/// Appends `s` between quotation marks.
pub fn push_quoted(out: &mut String, s: &str)
    ensures
        final(out)@ == old(out)@ + quoted(s@),
{
    let ghost before = out@;
    out.push('"');
    for c in it: s.chars()
        invariant
            it.seq() == s@,
            out@ == before.push('"') + escaped(s@.take(it.index() as int)),
    {
        push_escaped_char(out, c);
        proof {
            let upto = s@.take(it.index() + 1);
            assert(upto.drop_last() =~= s@.take(it.index() as int));
            assert(upto.last() == c);
            assert(out@ =~= before.push('"') + escaped(upto));
        }
    }
    out.push('"');
    assert(s@.take(s@.len() as int) =~= s@);
    assert(out@ =~= before + quoted(s@));
}

fn push_number(out: &mut String, n: &JsonNumber)
    ensures
        final(out)@ == old(out)@ + number_text(n@),
{
    match n {
        JsonNumber::PosInt(n) => push_u64(out, *n),
        JsonNumber::NegInt(n) => push_i64(out, *n),
        JsonNumber::Float { bits: _, text } => out.append(text.as_str()),
    }
}

proof fn lemma_items_text_grows(items: Seq<JsonView>, i: int)
    requires
        0 < i < items.len(),
    ensures
        items_text(items.take(i + 1)) == items_text(items.take(i)) + seq![','] + json_text(items[i]),
{
    assert(items.take(i + 1).drop_last() =~= items.take(i));
}

proof fn lemma_fields_text_grows(fields: Seq<(Text, JsonView)>, i: int)
    requires
        0 < i < fields.len(),
    ensures
        fields_text(fields.take(i + 1)) == fields_text(fields.take(i)) + seq![','] + quoted(
            fields[i].0,
        ) + seq![':'] + json_text(fields[i].1),
{
    assert(fields.take(i + 1).drop_last() =~= fields.take(i));
}

/// Appends the text of `j`.
pub fn push_json(out: &mut String, j: &Json)
    ensures
        final(out)@ == old(out)@ + json_text(j@),
    decreases j,
{
    let ghost before = out@;
    match j {
        Json::Null => out.append("null"),
        Json::Bool(b) => if *b {
            out.append("true");
        } else {
            out.append("false");
        },
        Json::Number(n) => push_number(out, n),
        Json::Str(s) => push_quoted(out, s.as_str()),
        Json::Array(items) => {
            let ghost all = items_view(items@);
            out.push('[');
            let mut i: usize = 0;
            assert(all.take(0) =~= seq![]);
            assert(out@ =~= before + seq!['['] + items_text(all.take(0)));
            while i < items.len()
                invariant
                    i <= items.len(),
                    all == items_view(items@),
                    j == Json::Array(*items),
                    out@ == before + seq!['['] + items_text(all.take(i as int)),
                decreases items.len() - i,
            {
                if i > 0 {
                    out.push(',');
                }
                proof {
                    lemma_item_smaller(*j, i as int);
                }
                push_json(out, &items[i]);
                proof {
                    if i > 0 {
                        lemma_items_text_grows(all, i as int);
                    } else {
                        assert(all.take(1)[0] == all[0]);
                    }
                    assert(out@ =~= before + seq!['['] + items_text(all.take(i + 1)));
                }
                i = i + 1;
            }
            out.push(']');
            assert(all.take(all.len() as int) =~= all);
            assert(out@ =~= before + json_text(j@));
        },
        Json::Object(fields) => {
            let ghost all = fields_view(fields@);
            out.push('{');
            let mut i: usize = 0;
            assert(all.take(0) =~= seq![]);
            assert(out@ =~= before + seq!['{'] + fields_text(all.take(0)));
            while i < fields.len()
                invariant
                    i <= fields.len(),
                    all == fields_view(fields@),
                    j == Json::Object(*fields),
                    out@ == before + seq!['{'] + fields_text(all.take(i as int)),
                decreases fields.len() - i,
            {
                if i > 0 {
                    out.push(',');
                }
                push_quoted(out, fields[i].0.as_str());
                out.push(':');
                proof {
                    lemma_field_smaller(*j, i as int);
                }
                push_json(out, &fields[i].1);
                proof {
                    if i > 0 {
                        lemma_fields_text_grows(all, i as int);
                    } else {
                        assert(all.take(1)[0] == all[0]);
                    }
                    assert(out@ =~= before + seq!['{'] + fields_text(all.take(i + 1)));
                }
                i = i + 1;
            }
            out.push('}');
            assert(all.take(all.len() as int) =~= all);
            assert(out@ =~= before + json_text(j@));
        },
    }
}

impl Json {
    /// The text of this value, without white space.
    pub fn to_text(&self) -> (s: String)
        ensures
            s@ == json_text(self@),
    {
        let mut s: String = String::new();
        push_json(&mut s, self);
        assert(s@ =~= json_text(self@));
        s
    }
}


// Building

/// The value of a whole number.
pub open spec fn num(n: int) -> JsonView {
    if n < 0 {
        JsonView::Number(NumberView::NegInt(n as i64))
    } else {
        JsonView::Number(NumberView::PosInt(n as u64))
    }
}

/// The value of optional text: null where there is none.
pub open spec fn text_or_null(s: Option<Text>) -> JsonView {
    match s {
        Some(s) => JsonView::Str(s),
        None => JsonView::Null,
    }
}

/// The value of a floating-point number with its text: null where it is not finite.
pub open spec fn double(bits: u64, text: Text) -> JsonView {
    if float::is_finite(bits) {
        JsonView::Number(NumberView::Float { bits, text })
    } else {
        JsonView::Null
    }
}

/// The value of a list of texts.
pub open spec fn text_list(items: Seq<Text>) -> JsonView {
    JsonView::Array(items.map_values(|s: Text| JsonView::Str(s)))
}

/// Fields in the order of their names, with one more: it takes its place among the others, or that
/// of the field with its name.
pub open spec fn put(fields: Seq<(Text, JsonView)>, key: Text, value: JsonView) -> Seq<
    (Text, JsonView),
>
    decreases fields.len(),
{
    if fields.len() == 0 {
        seq![(key, value)]
    } else if fields[0].0 == key {
        seq![(key, value)] + fields.drop_first()
    } else if text::comes_before(key, fields[0].0) {
        seq![(key, value)] + fields
    } else {
        seq![fields[0]] + put(fields.drop_first(), key, value)
    }
}

/// Fields in the order of their names; of two with one name the last counts.
pub open spec fn ordered(fields: Seq<(Text, JsonView)>) -> Seq<(Text, JsonView)>
    decreases fields.len(),
{
    if fields.len() == 0 {
        seq![]
    } else {
        put(ordered(fields.drop_last()), fields.last().0, fields.last().1)
    }
}

proof fn lemma_put(fields: Seq<(Text, JsonView)>, key: Text, value: JsonView, i: int)
    requires
        0 <= i <= fields.len(),
        forall|k: int|
            0 <= k < i ==> (#[trigger] fields[k]).0 != key && !text::comes_before(key, fields[k].0),
        i < fields.len() ==> fields[i].0 == key || text::comes_before(key, fields[i].0),
    ensures
        i < fields.len() && fields[i].0 == key ==> put(fields, key, value) == fields.update(
            i,
            (key, value),
        ),
        !(i < fields.len() && fields[i].0 == key) ==> put(fields, key, value) == fields.insert(
            i,
            (key, value),
        ),
    decreases fields.len(),
{
    if fields.len() == 0 {
        assert(put(fields, key, value) =~= fields.insert(0, (key, value)));
    } else if i == 0 {
        if fields[0].0 == key {
            assert(put(fields, key, value) =~= fields.update(0, (key, value)));
        } else {
            assert(put(fields, key, value) =~= fields.insert(0, (key, value)));
        }
    } else {
        let rest = fields.drop_first();
        assert forall|k: int| 0 <= k < i - 1 implies (#[trigger] rest[k]).0 != key
            && !text::comes_before(key, rest[k].0) by {
            assert(rest[k] == fields[k + 1]);
        }
        if i < fields.len() {
            assert(rest[i - 1] == fields[i]);
        }
        assert(fields[0].0 != key);
        lemma_put(rest, key, value, i - 1);
        if i < fields.len() && fields[i].0 == key {
            assert(put(fields, key, value) =~= fields.update(i, (key, value)));
        } else {
            assert(put(fields, key, value) =~= fields.insert(i, (key, value)));
        }
    }
}

fn put_field(fields: &mut Vec<(String, Json)>, key: &str, value: Json)
    ensures
        fields_view(final(fields)@) == put(fields_view(old(fields)@), key@, value@),
{
    let ghost was = fields_view(fields@);
    let mut i: usize = 0;
    assert(was.len() == fields@.len());
    while i < fields.len() && !same_text(fields[i].0.as_str(), key) && !is_before(
        key,
        fields[i].0.as_str(),
    )
        invariant
            i <= fields@.len(),
            fields@ == old(fields)@,
            was == fields_view(fields@),
            was.len() == fields@.len(),
            forall|k: int|
                0 <= k < i ==> (#[trigger] was[k]).0 != key@ && !text::comes_before(key@, was[k].0),
        decreases fields@.len() - i,
    {
        assert(was[i as int].0 == fields@[i as int].0@);
        i = i + 1;
    }
    proof {
        if i < fields@.len() {
            assert(was[i as int].0 == fields@[i as int].0@);
        }
        lemma_put(was, key@, value@, i as int);
    }
    if i < fields.len() && same_text(fields[i].0.as_str(), key) {
        fields.set(i, (key.to_owned(), value));
        assert(fields_view(fields@) =~= was.update(i as int, (key@, value@)));
    } else {
        fields.insert(i, (key.to_owned(), value));
        assert(fields_view(fields@) =~= was.insert(i as int, (key@, value@)));
    }
}

/// The names of fields come one before the other.
pub open spec fn in_order(fields: Seq<(Text, JsonView)>) -> bool {
    forall|i: int, j: int|
        0 <= i < j < fields.len() ==> text::comes_before(
            (#[trigger] fields[i]).0,
            (#[trigger] fields[j]).0,
        )
}

/// Two fields with different names can be put in either order.
pub proof fn field_order_does_not_matter(
    fields: Seq<(Text, JsonView)>,
    a: Text,
    x: JsonView,
    b: Text,
    y: JsonView,
)
    requires
        a != b,
        in_order(fields),
    ensures
        put(put(fields, a, x), b, y) == put(put(fields, b, y), a, x),
    decreases fields.len(),
{
    text::texts_are_ordered(a, b);
    if fields.len() == 0 {
        reveal_with_fuel(put, 3);
        let one = put(put(fields, a, x), b, y);
        let two = put(put(fields, b, y), a, x);
        let nothing = Seq::<(Text, JsonView)>::empty();
        assert(seq![(a, x)].drop_first() =~= nothing);
        assert(seq![(b, y)].drop_first() =~= nothing);
        assert(fields =~= nothing);
        assert(one =~= two);
    } else {
        let first = fields[0];
        let rest = fields.drop_first();
        assert(in_order(rest)) by {
            assert forall|i: int, j: int| 0 <= i < j < rest.len() implies text::comes_before(
                (#[trigger] rest[i]).0,
                (#[trigger] rest[j]).0,
            ) by {
                assert(rest[i] == fields[i + 1] && rest[j] == fields[j + 1]);
            }
        }
        field_order_does_not_matter(rest, a, x, b, y);
        text::texts_are_ordered(a, first.0);
        text::texts_are_ordered(b, first.0);
        text::text_order_is_transitive(a, first.0, b);
        text::text_order_is_transitive(b, first.0, a);
        text::text_order_is_transitive(a, b, first.0);
        text::text_order_is_transitive(b, a, first.0);
        if a == first.0 {
            assert(put(fields, a, x).drop_first() =~= rest);
        }
        if b == first.0 {
            assert(put(fields, b, y).drop_first() =~= rest);
        }
        if text::comes_before(a, first.0) {
            assert(put(fields, a, x).drop_first() =~= fields);
        } else if a != first.0 {
            assert(put(fields, a, x).drop_first() =~= put(rest, a, x));
        }
        if text::comes_before(b, first.0) {
            assert(put(fields, b, y).drop_first() =~= fields);
        } else if b != first.0 {
            assert(put(fields, b, y).drop_first() =~= put(rest, b, y));
        }
        assert(put(put(fields, a, x), b, y) =~= put(put(fields, b, y), a, x));
    }
}

/// The place of a field among others: before the first whose name is not earlier than its own.
spec fn put_place(fields: Seq<(Text, JsonView)>, key: Text) -> int
    decreases fields.len(),
{
    if fields.len() == 0 || fields[0].0 == key || text::comes_before(key, fields[0].0) {
        0
    } else {
        1 + put_place(fields.drop_first(), key)
    }
}

proof fn lemma_put_place(fields: Seq<(Text, JsonView)>, key: Text)
    ensures
        0 <= put_place(fields, key) <= fields.len(),
        forall|k: int|
            0 <= k < put_place(fields, key) ==> (#[trigger] fields[k]).0 != key
                && !text::comes_before(key, fields[k].0),
        put_place(fields, key) < fields.len() ==> fields[put_place(fields, key)].0 == key
            || text::comes_before(key, fields[put_place(fields, key)].0),
    decreases fields.len(),
{
    if fields.len() > 0 {
        let rest = fields.drop_first();
        lemma_put_place(rest, key);
        assert forall|k: int| 0 <= k < put_place(fields, key) implies (#[trigger] fields[k]).0 != key
            && !text::comes_before(key, fields[k].0) by {
            if k > 0 {
                assert(fields[k] == rest[k - 1]);
            }
        }
    }
}

/// Fields stay in order when one more is put among them.
pub proof fn fields_stay_in_order(fields: Seq<(Text, JsonView)>, key: Text, value: JsonView)
    requires
        in_order(fields),
    ensures
        in_order(put(fields, key, value)),
{
    let at = put_place(fields, key);
    lemma_put_place(fields, key);
    lemma_put(fields, key, value, at);
    let after = put(fields, key, value);
    assert forall|i: int, j: int| 0 <= i < j < after.len() implies text::comes_before(
        (#[trigger] after[i]).0,
        (#[trigger] after[j]).0,
    ) by {
        if at < fields.len() && fields[at].0 == key {
            assert(fields[i].0 == after[i].0 && fields[j].0 == after[j].0);
        } else {
            if i < at {
                assert(after[i] == fields[i]);
                text::texts_are_ordered(key, fields[i].0);
            }
            if i > at {
                assert(after[i] == fields[i - 1]);
            }
            if j < at {
                assert(after[j] == fields[j]);
            }
            if j > at {
                assert(after[j] == fields[j - 1]);
                if i == at && j - 1 > at {
                    assert(text::comes_before(fields[at].0, fields[j - 1].0));
                    text::text_order_is_transitive(key, fields[at].0, fields[j - 1].0);
                }
            }
        }
    }
}

/// The fields of an object that was made of a list are in order.
pub proof fn ordered_fields_are_in_order(fields: Seq<(Text, JsonView)>)
    ensures
        in_order(ordered(fields)),
    decreases fields.len(),
{
    if fields.len() > 0 {
        ordered_fields_are_in_order(fields.drop_last());
        fields_stay_in_order(ordered(fields.drop_last()), fields.last().0, fields.last().1);
    }
}

/// What owned optional text holds.
pub open spec fn opt_string(o: Option<String>) -> Option<Text> {
    match o {
        Some(s) => Some(s@),
        None => None,
    }
}

/// What a list of strings holds.
pub open spec fn strings(v: Seq<String>) -> Seq<Text> {
    v.map_values(|s: String| s@)
}

impl Json {
    /// The value of a whole number.
    pub fn whole(n: i64) -> (j: Json)
        ensures
            j@ == num(n as int),
    {
        if n < 0 {
            Json::Number(JsonNumber::NegInt(n))
        } else {
            Json::Number(JsonNumber::PosInt(n as u64))
        }
    }

    /// The value of a whole number that is not negative.
    pub fn count(n: u64) -> (j: Json)
        ensures
            j@ == num(n as int),
    {
        Json::Number(JsonNumber::PosInt(n))
    }

    /// The value of a piece of text.
    pub fn text(s: &str) -> (j: Json)
        ensures
            j@ == JsonView::Str(s@),
    {
        Json::Str(s.to_owned())
    }

    /// The value of a floating-point number with its text.
    pub fn double(bits: u64, text: &str) -> (j: Json)
        ensures
            j@ == double(bits, text@),
    {
        if finite(bits) {
            Json::Number(JsonNumber::Float { bits, text: text.to_owned() })
        } else {
            Json::Null
        }
    }

    /// The value of optional text.
    pub fn opt_text(s: Option<&str>) -> (j: Json)
        ensures
            j@ == text_or_null(opt_text(s)),
    {
        match s {
            Some(s) => Json::text(s),
            None => Json::Null,
        }
    }

    /// The value of a list of texts.
    pub fn texts(items: &Vec<String>) -> (j: Json)
        ensures
            j@ == text_list(strings(items@)),
    {
        let mut list: Vec<Json> = Vec::new();
        let mut i: usize = 0;
        while i < items.len()
            invariant
                i <= items.len(),
                list.len() == i,
                forall|k: int| 0 <= k < i ==> #[trigger] list@[k]@ == JsonView::Str(items@[k]@),
            decreases items.len() - i,
        {
            list.push(Json::text(items[i].as_str()));
            i = i + 1;
        }
        let ghost wanted = strings(items@).map_values(|s: Text| JsonView::Str(s));
        assert(items_view(list@) =~= wanted) by {
            assert forall|k: int| 0 <= k < list@.len() implies items_view(list@)[k] == wanted[k] by {
                assert(list@[k]@ == JsonView::Str(items@[k]@));
            }
        }
        Json::Array(list)
    }

    /// An object with one field.
    pub fn object1(k1: &str, v1: Json) -> (j: Json)
        ensures
            j@ == JsonView::Object(seq![(k1@, v1@)]),
    {
        let mut fields: Vec<(String, Json)> = Vec::new();
        fields.push((k1.to_owned(), v1));
        assert(fields_view(fields@) =~= seq![(k1@, v1@)]);
        Json::Object(fields)
    }

    /// An object with two fields.
    pub fn object2(k1: &str, v1: Json, k2: &str, v2: Json) -> (j: Json)
        ensures
            j@ == JsonView::Object(seq![(k1@, v1@), (k2@, v2@)]),
    {
        let mut fields: Vec<(String, Json)> = Vec::new();
        fields.push((k1.to_owned(), v1));
        fields.push((k2.to_owned(), v2));
        assert(fields_view(fields@) =~= seq![(k1@, v1@), (k2@, v2@)]);
        Json::Object(fields)
    }

    /// An object with three fields.
    pub fn object3(k1: &str, v1: Json, k2: &str, v2: Json, k3: &str, v3: Json) -> (j: Json)
        ensures
            j@ == JsonView::Object(seq![(k1@, v1@), (k2@, v2@), (k3@, v3@)]),
    {
        let mut fields: Vec<(String, Json)> = Vec::new();
        fields.push((k1.to_owned(), v1));
        fields.push((k2.to_owned(), v2));
        fields.push((k3.to_owned(), v3));
        assert(fields_view(fields@) =~= seq![(k1@, v1@), (k2@, v2@), (k3@, v3@)]);
        Json::Object(fields)
    }

    /// An object of some fields in the order of their names. Of two fields with one name the last
    /// counts.
    pub fn object(fields: Vec<(String, Json)>) -> (j: Json)
        ensures
            j@ == JsonView::Object(ordered(fields_view(fields@))),
    {
        let ghost all = fields_view(fields@);
        assert(all.len() == fields@.len());
        let mut out: Vec<(String, Json)> = Vec::new();
        let mut i: usize = 0;
        assert(all.take(0) =~= seq![]);
        assert(fields_view(out@) =~= seq![]);
        while i < fields.len()
            invariant
                i <= fields@.len(),
                all == fields_view(fields@),
                all.len() == fields@.len(),
                fields_view(out@) == ordered(all.take(i as int)),
            decreases fields@.len() - i,
        {
            proof {
                assert(all.take(i + 1).drop_last() =~= all.take(i as int));
                assert(all.take(i + 1).last() == all[i as int]);
                assert(all[i as int] == (fields@[i as int].0@, fields@[i as int].1@));
            }
            put_field(&mut out, fields[i].0.as_str(), fields[i].1.duplicate());
            i = i + 1;
        }
        assert(all.take(all.len() as int) =~= all);
        Json::Object(out)
    }

    /// Adds a field behind the others.
    pub fn with_field(self, key: &str, value: Json) -> (j: Json)
        requires
            self@ is Object,
        ensures
            j@ == JsonView::Object(self@->Object_0.push((key@, value@))),
    {
        match self {
            Json::Object(fields) => {
                let ghost before = fields_view(fields@);
                let mut fields: Vec<(String, Json)> = fields;
                fields.push((key.to_owned(), value));
                assert(fields_view(fields@) =~= before.push((key@, value@)));
                Json::Object(fields)
            },
            other => other,
        }
    }

    /// A copy of this value.
    pub fn duplicate(&self) -> (j: Json)
        ensures
            j@ == self@,
        decreases self,
    {
        match self {
            Json::Null => Json::Null,
            Json::Bool(b) => Json::Bool(*b),
            Json::Number(n) => match n {
                JsonNumber::PosInt(n) => Json::Number(JsonNumber::PosInt(*n)),
                JsonNumber::NegInt(n) => Json::Number(JsonNumber::NegInt(*n)),
                JsonNumber::Float { bits, text } => Json::Number(
                    JsonNumber::Float { bits: *bits, text: text.clone() },
                ),
            },
            Json::Str(s) => Json::Str(s.clone()),
            Json::Array(items) => {
                let mut list: Vec<Json> = Vec::new();
                let mut i: usize = 0;
                while i < items.len()
                    invariant
                        i <= items.len(),
                        list.len() == i,
                        self == Json::Array(*items),
                        forall|k: int| 0 <= k < i ==> #[trigger] list@[k]@ == items@[k]@,
                    decreases items.len() - i,
                {
                    proof {
                        lemma_item_smaller(*self, i as int);
                    }
                    list.push(items[i].duplicate());
                    i = i + 1;
                }
                assert(items_view(list@) =~= items_view(items@)) by {
                    assert forall|k: int| 0 <= k < list@.len() implies items_view(list@)[k]
                        == items_view(items@)[k] by {
                        assert(list@[k]@ == items@[k]@);
                    }
                }
                Json::Array(list)
            },
            Json::Object(fields) => {
                let mut list: Vec<(String, Json)> = Vec::new();
                let mut i: usize = 0;
                while i < fields.len()
                    invariant
                        i <= fields.len(),
                        list.len() == i,
                        self == Json::Object(*fields),
                        forall|k: int|
                            0 <= k < i ==> #[trigger] list@[k].0@ == fields@[k].0@ && list@[k].1@
                                == fields@[k].1@,
                    decreases fields.len() - i,
                {
                    proof {
                        lemma_field_smaller(*self, i as int);
                    }
                    list.push((fields[i].0.clone(), fields[i].1.duplicate()));
                    i = i + 1;
                }
                assert(fields_view(list@) =~= fields_view(fields@)) by {
                    assert forall|k: int| 0 <= k < list@.len() implies fields_view(list@)[k]
                        == fields_view(fields@)[k] by {
                        assert(list@[k].0@ == fields@[k].0@);
                    }
                }
                Json::Object(list)
            },
        }
    }
}

pub(crate) proof fn lemma_item_smaller(j: Json, i: int)
    requires
        j is Array,
        0 <= i < j->Array_0@.len(),
    ensures
        decreases_to!(j => j->Array_0@[i]),
{
    assert(decreases_to!(j => j->Array_0));
    assert(decreases_to!(j->Array_0 => j->Array_0@));
    assert(decreases_to!(j->Array_0@ => j->Array_0@[i]));
}

pub(crate) proof fn lemma_field_smaller(j: Json, i: int)
    requires
        j is Object,
        0 <= i < j->Object_0@.len(),
    ensures
        decreases_to!(j => j->Object_0@[i].1),
{
    assert(decreases_to!(j => j->Object_0));
    assert(decreases_to!(j->Object_0 => j->Object_0@));
    assert(decreases_to!(j->Object_0@ => j->Object_0@[i]));
    assert(decreases_to!(j->Object_0@[i] => j->Object_0@[i].1));
}

/// A field is found by its name, where no field before it has the same one.
pub proof fn first_fields_are_found(fields: Seq<(Text, JsonView)>, i: int)
    requires
        0 <= i < fields.len(),
        forall|k: int| 0 <= k < i ==> (#[trigger] fields[k]).0 != fields[i].0,
    ensures
        get(JsonView::Object(fields), fields[i].0) == Some(fields[i].1),
        field(JsonView::Object(fields), fields[i].0) == fields[i].1,
    decreases i,
{
    if i > 0 {
        let rest = fields.drop_first();
        assert(fields[0].0 != fields[i].0);
        assert forall|k: int| 0 <= k < i - 1 implies (#[trigger] rest[k]).0 != rest[i - 1].0 by {
            assert(rest[k] == fields[k + 1]);
        }
        assert(rest[i - 1] == fields[i]);
        first_fields_are_found(rest, i - 1);
    }
}

/// An object that has no field of a name gives nothing for it, and so does any value that is no
/// object.
pub proof fn other_fields_are_not_found(fields: Seq<(Text, JsonView)>, key: Text, j: JsonView)
    requires
        forall|k: int| 0 <= k < fields.len() ==> (#[trigger] fields[k]).0 != key,
        !(j is Object),
    ensures
        get(JsonView::Object(fields), key) is None,
        field(JsonView::Object(fields), key) == JsonView::Null,
        get(j, key) is None,
    decreases fields.len(),
{
    if fields.len() > 0 {
        let rest = fields.drop_first();
        assert(fields[0].0 != key);
        assert forall|k: int| 0 <= k < rest.len() implies (#[trigger] rest[k]).0 != key by {
            assert(rest[k] == fields[k + 1]);
        }
        other_fields_are_not_found(rest, key, j);
    }
}

/// Characters that need no escape stand in quotes as they are.
pub proof fn plain_text_is_not_escaped(s: Text)
    requires
        forall|k: int|
            0 <= k < s.len() ==> (#[trigger] s[k]) as int >= 32 && s[k] != '"' && s[k] != '\\',
    ensures
        escaped(s) == s,
    decreases s.len(),
{
    if s.len() > 0 {
        let n = s.len() - 1;
        assert(s[n] == s.last());
        assert forall|k: int| 0 <= k < n implies (#[trigger] s.drop_last()[k]) as int >= 32
            && s.drop_last()[k] != '"' && s.drop_last()[k] != '\\' by {
            assert(s[k] == s.drop_last()[k]);
        }
        plain_text_is_not_escaped(s.drop_last());
        assert(s =~= s.drop_last() + seq![s.last()]);
    }
}

proof fn lemma_escaped_first(s: Text)
    requires
        s.len() > 0,
    ensures
        escaped(s) == escaped_char(s[0]) + escaped(s.drop_first()),
    decreases s.len(),
{
    if s.len() == 1 {
        assert(s.drop_last() =~= seq![]);
        assert(s.drop_first() =~= seq![]);
        assert(escaped(s) =~= escaped_char(s[0]) + escaped(s.drop_first()));
    } else {
        let rest = s.drop_first();
        lemma_escaped_first(s.drop_last());
        assert(s.drop_last().drop_first() =~= rest.drop_last());
        assert(rest.last() == s.last());
        assert(escaped(s) =~= escaped_char(s[0]) + escaped(rest));
    }
}

proof fn lemma_hex_differs(a: int, b: int)
    requires
        0 <= a < 16,
        0 <= b < 16,
        hex_char(a) == hex_char(b),
    ensures
        a == b,
{
}

proof fn lemma_escapes_differ(a: char, b: char)
    requires
        a != b,
    ensures
        exists|i: int|
            0 <= i < escaped_char(a).len() && i < escaped_char(b).len() && #[trigger] escaped_char(a)[i]
                != escaped_char(b)[i],
{
    let (x, y) = (escaped_char(a), escaped_char(b));
    if x[0] == y[0] {
        assert(x[0] == '\\');
        if x[1] == y[1] {
            assert(x.len() == 6 && y.len() == 6);
            if x[4] == y[4] && x[5] == y[5] {
                lemma_hex_differs(a as int / 16, b as int / 16);
                lemma_hex_differs(a as int % 16, b as int % 16);
                assert(a as int == b as int);
            }
        }
    }
}

/// No two texts look the same in quotes.
pub proof fn quoted_texts_differ(a: Text, b: Text)
    requires
        escaped(a) == escaped(b),
    ensures
        a == b,
    decreases a.len(),
{
    if a.len() > 0 {
        lemma_escaped_first(a);
    }
    if b.len() > 0 {
        lemma_escaped_first(b);
    }
    if a.len() > 0 && b.len() > 0 {
        let (x, y) = (escaped_char(a[0]), escaped_char(b[0]));
        if a[0] != b[0] {
            lemma_escapes_differ(a[0], b[0]);
            let i = choose|i: int| 0 <= i < x.len() && i < y.len() && #[trigger] x[i] != y[i];
            assert(escaped(a)[i] == x[i]);
            assert(escaped(b)[i] == y[i]);
        } else {
            assert(escaped(a).skip(x.len() as int) =~= escaped(a.drop_first()));
            assert(escaped(b).skip(x.len() as int) =~= escaped(b.drop_first()));
            quoted_texts_differ(a.drop_first(), b.drop_first());
            assert(a =~= seq![a[0]] + a.drop_first());
            assert(b =~= seq![b[0]] + b.drop_first());
        }
    } else {
        if a.len() > 0 {
            assert(escaped(a).len() > 0);
        }
        if b.len() > 0 {
            assert(escaped(b).len() > 0);
        }
        assert(a =~= b);
    }
}

/// What stands in quotes holds no control character.
pub proof fn quotes_hold_no_control_character(s: Text, k: int)
    requires
        0 <= k < escaped(s).len(),
    ensures
        escaped(s)[k] as int >= 32,
    decreases s.len(),
{
    if s.len() > 0 {
        let before = escaped(s.drop_last());
        if k < before.len() {
            quotes_hold_no_control_character(s.drop_last(), k);
        }
    }
}

/// Values are written as JSON writes them: words for null and the truth values, digits for whole
/// numbers, quotes round texts, and commas between items and between fields with their names.
pub proof fn values_are_written_out(
    items: Seq<JsonView>,
    fields: Seq<(Text, JsonView)>,
    j: JsonView,
    key: Text,
    n: int,
)
    requires
        i64::MIN <= n <= u64::MAX,
    ensures
        json_text(JsonView::Null) == "null"@,
        json_text(JsonView::Bool(true)) == "true"@ && json_text(JsonView::Bool(false)) == "false"@,
        json_text(num(n)) == text::int_text(n),
        json_text(JsonView::Str(key)) == seq!['"'] + escaped(key) + seq!['"'],
        json_text(JsonView::Array(items)) == seq!['['] + items_text(items) + seq![']'],
        json_text(JsonView::Object(fields)) == seq!['{'] + fields_text(fields) + seq!['}'],
        items_text(Seq::empty()) == Seq::<char>::empty(),
        items_text(seq![j]) == json_text(j),
        items.len() > 0 ==> items_text(items.push(j)) == items_text(items) + seq![','] + json_text(j),
        fields_text(Seq::empty()) == Seq::<char>::empty(),
        fields_text(seq![(key, j)]) == quoted(key) + seq![':'] + json_text(j),
        fields.len() > 0 ==> fields_text(fields.push((key, j))) == fields_text(fields) + seq![',']
            + quoted(key) + seq![':'] + json_text(j),
{
    assert(items.push(j).drop_last() =~= items);
    assert(items.push(j).last() == j);
    assert(fields.push((key, j)).drop_last() =~= fields);
    assert(fields.push((key, j)).last() == (key, j));
}

/// A whole number is kept with its sign.
pub proof fn whole_numbers_are_kept(n: i64)
    ensures
        i64_of(num(n as int)) == Some(n),
        n >= 0 ==> num(n as int) == JsonView::Number(NumberView::PosInt(n as u64)),
        n < 0 ==> num(n as int) == JsonView::Number(NumberView::NegInt(n)),
{
}

} // verus!
